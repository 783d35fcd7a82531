//! The in-memory registry of launched game processes: a table from
//! executable path to OS process id that exists only while the process
//! is believed alive. The registry records a launch after the child is
//! spawned, answers lookups for forced termination, and drops the
//! record when the supervising wait completes. The caller guards the
//! registry with a mutual-exclusion lock held only across these table
//! operations, never across the blocking wait.

use vstd::prelude::*;
use crate::library::StoreError;

verus! {

/// Tracks which catalog entries currently have a live launched
/// process.
pub struct RunningProcesses {
    entries: Vec<(String, u32)>,
}

/// The table a list of records stands for, later bindings winning.
pub open spec fn table_of(s: Seq<(String, u32)>) -> Map<Seq<char>, u32>
    decreases s.len(),
{
    if s.len() == 0 {
        Map::empty()
    } else {
        table_of(s.drop_last()).insert(s.last().0@, s.last().1)
    }
}

/// Records without every binding for one path.
pub open spec fn drop_path_records(s: Seq<(String, u32)>, path: Seq<char>) -> Seq<
    (String, u32),
> {
    s.filter(|e: (String, u32)| e.0@ != path)
}

/// Dropping a path's records removes exactly that key from the table.
pub proof fn lemma_drop_path_records(s: Seq<(String, u32)>, path: Seq<char>)
    ensures
        table_of(drop_path_records(s, path)) == table_of(s).remove(path),
    decreases s.len(),
{
    reveal(Seq::filter);
    if s.len() == 0 {
        assert(drop_path_records(s, path) =~= s);
        assert(table_of(s).remove(path) =~= Map::<Seq<char>, u32>::empty());
    } else {
        let t = s.drop_last();
        let last = s.last();
        lemma_drop_path_records(t, path);
        if last.0@ == path {
            assert(drop_path_records(s, path) == drop_path_records(t, path));
            assert(table_of(t).insert(path, last.1).remove(path) =~= table_of(t).remove(path));
        } else {
            assert(drop_path_records(s, path) == drop_path_records(t, path).push(last));
            assert(drop_path_records(s, path).drop_last() =~= drop_path_records(t, path));
            assert(drop_path_records(s, path).last() == last);
            assert(table_of(t).insert(last.0@, last.1).remove(path) =~= table_of(t).remove(
                path,
            ).insert(last.0@, last.1));
        }
    }
}

impl View for RunningProcesses {
    type V = Map<Seq<char>, u32>;

    closed spec fn view(&self) -> Map<Seq<char>, u32> {
        table_of(self.entries@)
    }
}

impl RunningProcesses {
    /// An empty registry: nothing is running.
    pub fn new() -> (r: Self)
        ensures
            r@ == Map::<Seq<char>, u32>::empty(),
    {
        let r = RunningProcesses { entries: Vec::new() };
        proof {
            assert(r.entries@ =~= Seq::<(String, u32)>::empty());
        }
        r
    }

    /// The launch precheck: a target that does not exist or is not a
    /// regular file fails with `NotFound`, before anything is spawned
    /// and before any record is made.
    pub fn launch_precheck(path_exists: bool, is_regular_file: bool) -> (r: Result<
        (),
        StoreError,
    >)
        ensures
            r is Ok <==> path_exists && is_regular_file,
            r is Err ==> r == Err::<(), StoreError>(StoreError::NotFound),
    {
        if path_exists && is_regular_file {
            Ok(())
        } else {
            Err(StoreError::NotFound)
        }
    }

    /// Records a spawned child: the path is now bound to its process
    /// id, replacing any stale binding.
    pub fn record_launch(&mut self, path: &String, pid: u32)
        ensures
            final(self)@ == old(self)@.insert(path@, pid),
    {
        let mut kept: Vec<(String, u32)> = Vec::new();
        let n = self.entries.len();
        let mut i: usize = 0;
        proof {
            reveal(Seq::filter);
            assert(self.entries@.subrange(0, 0) =~= Seq::<(String, u32)>::empty());
        }
        while i < n
            invariant
                i <= n == self.entries@.len(),
                self.entries@ == old(self).entries@,
                kept@ == drop_path_records(self.entries@.subrange(0, i as int), path@),
            decreases n - i,
        {
            let keep = !(self.entries[i].0 == *path);
            if keep {
                let e = (self.entries[i].0.clone(), self.entries[i].1);
                kept.push(e);
            }
            i = i + 1;
            proof {
                reveal(Seq::filter);
                let pre = self.entries@.subrange(0, i - 1);
                let post = self.entries@.subrange(0, i as int);
                assert(post.drop_last() =~= pre);
                assert(post.last() == self.entries@[i - 1]);
                if keep {
                    assert(kept@.last() == self.entries@[i - 1]);
                    assert(kept@ =~= drop_path_records(post, path@));
                }
            }
        }
        proof {
            assert(self.entries@.subrange(0, n as int) =~= self.entries@);
            lemma_drop_path_records(old(self).entries@, path@);
        }
        kept.push((path.clone(), pid));
        self.entries = kept;
        proof {
            assert(self.entries@.drop_last() =~= drop_path_records(old(self).entries@, path@));
            assert(self@ =~= old(self)@.insert(path@, pid));
        }
    }

    /// Drops the record for a path when its supervising wait completes,
    /// whatever the wait's outcome was.
    pub fn record_exit(&mut self, path: &String)
        ensures
            final(self)@ == old(self)@.remove(path@),
    {
        let mut kept: Vec<(String, u32)> = Vec::new();
        let n = self.entries.len();
        let mut i: usize = 0;
        proof {
            reveal(Seq::filter);
            assert(self.entries@.subrange(0, 0) =~= Seq::<(String, u32)>::empty());
        }
        while i < n
            invariant
                i <= n == self.entries@.len(),
                self.entries@ == old(self).entries@,
                kept@ == drop_path_records(self.entries@.subrange(0, i as int), path@),
            decreases n - i,
        {
            let keep = !(self.entries[i].0 == *path);
            if keep {
                let e = (self.entries[i].0.clone(), self.entries[i].1);
                kept.push(e);
            }
            i = i + 1;
            proof {
                reveal(Seq::filter);
                let pre = self.entries@.subrange(0, i - 1);
                let post = self.entries@.subrange(0, i as int);
                assert(post.drop_last() =~= pre);
                assert(post.last() == self.entries@[i - 1]);
                if keep {
                    assert(kept@.last() == self.entries@[i - 1]);
                    assert(kept@ =~= drop_path_records(post, path@));
                }
            }
        }
        proof {
            assert(self.entries@.subrange(0, n as int) =~= self.entries@);
            lemma_drop_path_records(old(self).entries@, path@);
        }
        self.entries = kept;
    }

    /// The process id recorded for a path, if it is believed running:
    /// what a forced termination must target. `NotFound` otherwise.
    pub fn lookup_pid(&self, path: &String) -> (r: Result<u32, StoreError>)
        ensures
            r matches Ok(pid) ==> self@.contains_key(path@) && self@[path@] == pid,
            r is Err <==> !self@.contains_key(path@),
            r is Err ==> r == Err::<u32, StoreError>(StoreError::NotFound),
    {
        let n = self.entries.len();
        let mut i: usize = n;
        proof {
            assert(self.entries@.subrange(0, n as int) =~= self.entries@);
        }
        while i > 0
            invariant
                i <= n == self.entries@.len(),
                table_of(self.entries@).contains_key(path@) == table_of(
                    self.entries@.subrange(0, i as int),
                ).contains_key(path@),
                table_of(self.entries@).contains_key(path@) ==> table_of(self.entries@)[path@]
                    == table_of(self.entries@.subrange(0, i as int))[path@],
            decreases i,
        {
            proof {
                let cur = self.entries@.subrange(0, i as int);
                assert(cur.drop_last() =~= self.entries@.subrange(0, i - 1));
                assert(cur.last() == self.entries@[i - 1]);
            }
            if self.entries[i - 1].0 == *path {
                return Ok(self.entries[i - 1].1);
            }
            i = i - 1;
        }
        proof {
            assert(self.entries@.subrange(0, 0) =~= Seq::<(String, u32)>::empty());
        }
        Err(StoreError::NotFound)
    }

    /// Whether a path is believed running.
    pub fn is_running(&self, path: &String) -> (r: bool)
        ensures
            r == self@.contains_key(path@),
    {
        match self.lookup_pid(path) {
            Ok(_) => true,
            Err(_) => false,
        }
    }
}

/// The record lifecycle of one launch: a path not running before is
/// not running after its process is recorded and then reaped — the
/// registry returns to the state it had before the launch.
pub proof fn lemma_launch_then_exit(m: Map<Seq<char>, u32>, path: Seq<char>, pid: u32)
    requires
        !m.contains_key(path),
    ensures
        m.insert(path, pid).remove(path) == m,
{
    assert(m.insert(path, pid).remove(path) =~= m);
}

} // verus!
