//! Tool shortcuts: adding a tool under a freshly generated unique id,
//! removing one by id, and resolving the executable to launch for an
//! id.

use vstd::prelude::*;
use crate::models::{ToolEntry, ToolEntryModel};
use crate::library::StoreError;

verus! {

/// Relies on `uuid::Uuid::new_v4` and its hyphenated rendering: a
/// random version-4 UUID formatted as 36 lowercase hex-and-hyphen
/// characters. The value is random, so nothing more is promised.
#[verifier::external_body]
fn fresh_tool_id() -> (r: String)
    ensures
        r@.len() == 36,
{
    uuid::Uuid::new_v4().to_string()
}

/// Appends a tool under the given id.
pub fn add_tool_entry(tools: &mut Vec<ToolEntry>, id: String, name: &String, path: &String) -> (r:
    ToolEntry)
    ensures
        r@ == (ToolEntryModel { id: id@, name: name@, path: path@ }),
        final(tools).deep_view() == old(tools).deep_view().push(r@),
{
    let entry = ToolEntry { id, name: name.clone(), path: path.clone() };
    let r = entry.clone();
    let ghost before = tools.deep_view();
    tools.push(entry);
    proof {
        assert(tools.deep_view() =~= before.push(r@));
    }
    r
}

/// Appends a tool under a freshly generated unique id and returns it.
pub fn add_tool(tools: &mut Vec<ToolEntry>, name: &String, path: &String) -> (r: ToolEntry)
    ensures
        r@.name == name@,
        r@.path == path@,
        r@.id.len() == 36,
        final(tools).deep_view() == old(tools).deep_view().push(r@),
{
    let id = fresh_tool_id();
    add_tool_entry(tools, id, name, path)
}

/// The tool list without every entry carrying this id.
pub open spec fn without_tool_id(tools: Seq<ToolEntryModel>, id: Seq<char>) -> Seq<
    ToolEntryModel,
> {
    tools.filter(|t: ToolEntryModel| t.id != id)
}

/// Removes every tool with this id. Removing an absent id leaves the
/// list unchanged and still succeeds.
pub fn remove_tool(tools: &mut Vec<ToolEntry>, id: &String)
    ensures
        final(tools).deep_view() == without_tool_id(old(tools).deep_view(), id@),
{
    let n = tools.len();
    let mut kept: Vec<ToolEntry> = Vec::new();
    let mut i: usize = 0;
    proof {
        reveal(Seq::filter);
        assert(old(tools).deep_view().subrange(0, 0) =~= Seq::<ToolEntryModel>::empty());
    }
    while i < n
        invariant
            i <= n == tools@.len(),
            tools.deep_view() == old(tools).deep_view(),
            kept.deep_view() == without_tool_id(old(tools).deep_view().subrange(0, i as int), id@),
        decreases n - i,
    {
        let keep = !(tools[i].id == *id);
        if keep {
            kept.push(tools[i].clone());
        }
        i = i + 1;
        proof {
            reveal(Seq::filter);
            let pre = old(tools).deep_view().subrange(0, i - 1);
            let post = old(tools).deep_view().subrange(0, i as int);
            assert(post.drop_last() =~= pre);
            assert(post.last() == old(tools).deep_view()[i - 1]);
            if keep {
                assert(kept.deep_view() =~= without_tool_id(post, id@));
            }
        }
    }
    proof {
        assert(old(tools).deep_view().subrange(0, n as int) =~= old(tools).deep_view());
    }
    *tools = kept;
}

/// `k` is the first position in `tools` whose entry has this id.
pub open spec fn is_first_tool_match(tools: Seq<ToolEntryModel>, id: Seq<char>, k: int) -> bool {
    &&& 0 <= k < tools.len()
    &&& tools[k].id == id
    &&& forall|j: int| 0 <= j < k ==> tools[j].id != id
}

/// The executable path of the first tool with this id: what the caller
/// launches. `NotFound` when no tool carries the id.
pub fn tool_launch_path(tools: &Vec<ToolEntry>, id: &String) -> (r: Result<String, StoreError>)
    ensures
        r matches Ok(p) ==> exists|k: int|
            #[trigger] is_first_tool_match(tools.deep_view(), id@, k) && p@
                == tools.deep_view()[k].path,
        r is Err <==> (forall|j: int|
            0 <= j < tools.deep_view().len() ==> tools.deep_view()[j].id != id@),
        r is Err ==> r == Err::<String, StoreError>(StoreError::NotFound),
{
    let n = tools.len();
    let mut i: usize = 0;
    while i < n
        invariant
            i <= n == tools@.len(),
            forall|j: int| 0 <= j < i ==> tools.deep_view()[j].id != id@,
        decreases n - i,
    {
        if tools[i].id == *id {
            proof {
                assert(is_first_tool_match(tools.deep_view(), id@, i as int));
            }
            return Ok(tools[i].path.clone());
        }
        i = i + 1;
    }
    Err(StoreError::NotFound)
}

} // verus!
