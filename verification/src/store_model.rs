//! A model of the atomic write protocol under contention: two writers
//! race to save their own text of the same document. Each must create
//! the lock marker, stage its text in a private temp file, rename the
//! temp file onto the target (the only step that changes the document),
//! and release the marker. The lemmas here show the protocol's two
//! guarantees: at most one writer is ever past the marker, and once
//! both writers have finished the document is exactly one of the two
//! staged texts — never an interleaving of their bytes.

use vstd::prelude::*;
use crate::models::GamesDBModel;
use crate::codec::render_games_db;
use crate::store::{games_db_of_text, lemma_games_db_round_trip};

verus! {

/// Where one writer stands in the protocol.
pub enum WriterPhase {
    /// Not started.
    Idle,
    /// Created the lock marker.
    HoldsLock,
    /// Wrote its text to its private temp file.
    Staged,
    /// Renamed the temp file onto the target.
    Renamed,
    /// Deleted the lock marker.
    Done,
}

/// The shared state the two writers race on.
pub struct StoreState {
    /// Which writer holds the lock marker, if any: `false` for the
    /// first writer, `true` for the second.
    pub lock: Option<bool>,
    /// The document text on disk.
    pub file: Seq<char>,
    /// The first writer's phase.
    pub w0: WriterPhase,
    /// The second writer's phase.
    pub w1: WriterPhase,
}

impl StoreState {
    /// The phase of a writer.
    pub open spec fn phase(self, w: bool) -> WriterPhase {
        if w {
            self.w1
        } else {
            self.w0
        }
    }

    /// The state with a writer's phase replaced.
    pub open spec fn with_phase(self, w: bool, p: WriterPhase) -> StoreState {
        if w {
            StoreState { w1: p, ..self }
        } else {
            StoreState { w0: p, ..self }
        }
    }

    /// Whether a writer is past creating the marker and has not yet
    /// deleted it.
    pub open spec fn in_critical(self, w: bool) -> bool {
        self.phase(w) == WriterPhase::HoldsLock || self.phase(w) == WriterPhase::Staged
            || self.phase(w) == WriterPhase::Renamed
    }
}

/// The initial state: no marker, both writers idle, some prior text on
/// disk.
pub open spec fn store_init(s: StoreState, initial: Seq<char>) -> bool {
    &&& s.lock is None
    &&& s.file == initial
    &&& s.w0 == WriterPhase::Idle
    &&& s.w1 == WriterPhase::Idle
}

/// One protocol step of writer `w`, whose staged text is `payload`.
/// Creating the marker succeeds only while no one holds it — that is
/// the create-if-absent-else-fail semantics of the marker file. The
/// rename replaces the whole document text at once.
pub open spec fn store_step(pre: StoreState, post: StoreState, w: bool, payload: Seq<char>) -> bool {
    ||| (pre.phase(w) == WriterPhase::Idle && pre.lock is None && post == (StoreState {
        lock: Some(w),
        ..pre.with_phase(w, WriterPhase::HoldsLock)
    }))
    ||| (pre.phase(w) == WriterPhase::HoldsLock && post == pre.with_phase(w, WriterPhase::Staged))
    ||| (pre.phase(w) == WriterPhase::Staged && post == (StoreState {
        file: payload,
        ..pre.with_phase(w, WriterPhase::Renamed)
    }))
    ||| (pre.phase(w) == WriterPhase::Renamed && post == (StoreState {
        lock: None,
        ..pre.with_phase(w, WriterPhase::Done)
    }))
}

/// The inductive invariant of the race: a writer inside the protocol
/// holds the marker, and once anyone has renamed, the document is one
/// of the two staged texts.
pub open spec fn store_inv(s: StoreState, p0: Seq<char>, p1: Seq<char>, initial: Seq<char>) -> bool {
    &&& (s.in_critical(false) ==> s.lock == Some(false))
    &&& (s.in_critical(true) ==> s.lock == Some(true))
    &&& (s.file == initial || s.file == p0 || s.file == p1)
    &&& ((s.w0 == WriterPhase::Renamed || s.w0 == WriterPhase::Done || s.w1 == WriterPhase::Renamed
        || s.w1 == WriterPhase::Done) ==> (s.file == p0 || s.file == p1))
}

/// The initial state satisfies the invariant.
pub proof fn lemma_store_init_inv(s: StoreState, p0: Seq<char>, p1: Seq<char>, initial: Seq<char>)
    requires
        store_init(s, initial),
    ensures
        store_inv(s, p0, p1, initial),
{
}

/// Every step of either writer preserves the invariant.
pub proof fn lemma_store_step_inv(
    pre: StoreState,
    post: StoreState,
    w: bool,
    p0: Seq<char>,
    p1: Seq<char>,
    initial: Seq<char>,
)
    requires
        store_inv(pre, p0, p1, initial),
        store_step(pre, post, w, if w {
            p1
        } else {
            p0
        }),
    ensures
        store_inv(post, p0, p1, initial),
{
}

/// Mutual exclusion: the two writers are never both past the marker.
pub proof fn lemma_store_mutual_exclusion(
    s: StoreState,
    p0: Seq<char>,
    p1: Seq<char>,
    initial: Seq<char>,
)
    requires
        store_inv(s, p0, p1, initial),
    ensures
        !(s.in_critical(false) && s.in_critical(true)),
{
}

/// Atomicity: once both writers have finished, the document is exactly
/// one of the two staged texts, never an interleaving of their bytes.
pub proof fn lemma_store_both_done(
    s: StoreState,
    p0: Seq<char>,
    p1: Seq<char>,
    initial: Seq<char>,
)
    requires
        store_inv(s, p0, p1, initial),
        s.w0 == WriterPhase::Done,
        s.w1 == WriterPhase::Done,
    ensures
        s.file == p0 || s.file == p1,
{
}

/// Atomicity at the document level: when the two writers staged the
/// saved texts of two libraries, the file left after both finish
/// parses as exactly one of those two libraries.
pub proof fn lemma_concurrent_saves_parse(
    s: StoreState,
    m0: GamesDBModel,
    m1: GamesDBModel,
    initial: Seq<char>,
)
    requires
        store_inv(s, render_games_db(m0), render_games_db(m1), initial),
        s.w0 == WriterPhase::Done,
        s.w1 == WriterPhase::Done,
    ensures
        games_db_of_text(s.file) == Some(m0) || games_db_of_text(s.file) == Some(m1),
{
    lemma_store_both_done(s, render_games_db(m0), render_games_db(m1), initial);
    if s.file == render_games_db(m0) {
        lemma_games_db_round_trip(m0);
    } else {
        lemma_games_db_round_trip(m1);
    }
}

} // verus!
