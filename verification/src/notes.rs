//! Notes: lookup by game identifier, upsert keyed by a non-blank game
//! identifier with standalone append as the fallback, and deletion by
//! key or position. Timestamps are filled from the caller's clock.

use vstd::prelude::*;
use crate::models::{Note, NoteModel};
use crate::library::StoreError;
use crate::text::spec_trim;

verus! {

/// Relies on `chrono::Utc::now().to_rfc3339()`: an RFC 3339 timestamp
/// of the current instant. The value depends on the clock, so nothing
/// more than non-emptiness is promised.
#[verifier::external_body]
fn now_rfc3339() -> (r: String)
    ensures
        r@.len() > 0,
{
    chrono::Utc::now().to_rfc3339()
}

/// `k` is the first position in `notes` keyed by this game identifier.
pub open spec fn is_first_note_match(notes: Seq<NoteModel>, game_id: Seq<char>, k: int) -> bool {
    &&& 0 <= k < notes.len()
    &&& notes[k].game_id == Some(game_id)
    &&& forall|j: int| 0 <= j < k ==> notes[j].game_id != Some(game_id)
}

/// The first position in `notes` keyed by this game identifier.
pub open spec fn first_note_index(notes: Seq<NoteModel>, game_id: Seq<char>) -> int {
    choose|k: int| is_first_note_match(notes, game_id, k)
}

/// The first match is unique, so `first_note_index` returns it.
pub proof fn lemma_first_note_unique(notes: Seq<NoteModel>, game_id: Seq<char>, k: int)
    requires
        is_first_note_match(notes, game_id, k),
    ensures
        first_note_index(notes, game_id) == k,
{
    let k2 = first_note_index(notes, game_id);
    assert(is_first_note_match(notes, game_id, k2));
}

/// Whether some note is keyed by this game identifier.
pub open spec fn has_note_for(notes: Seq<NoteModel>, game_id: Seq<char>) -> bool {
    exists|k: int| 0 <= k < notes.len() && notes[k].game_id == Some(game_id)
}

/// Position of the first note keyed by this game identifier, if any.
fn find_note_index(notes: &Vec<Note>, game_id: &String) -> (r: Option<usize>)
    ensures
        match r {
            Some(k) => is_first_note_match(notes.deep_view(), game_id@, k as int),
            None => !has_note_for(notes.deep_view(), game_id@),
        },
{
    let n = notes.len();
    let mut i: usize = 0;
    while i < n
        invariant
            i <= n == notes@.len(),
            forall|j: int| 0 <= j < i ==> notes.deep_view()[j].game_id != Some(game_id@),
        decreases n - i,
    {
        let hit = match &notes[i].game_id {
            Some(gid) => *gid == *game_id,
            None => false,
        };
        if hit {
            proof {
                assert(notes.deep_view()[i as int].game_id == Some(game_id@));
            }
            return Some(i);
        }
        proof {
            assert(notes.deep_view()[i as int].game_id != Some(game_id@));
        }
        i = i + 1;
    }
    None
}

/// The first note keyed by this game identifier, if any.
pub fn get_note(notes: &Vec<Note>, game_id: &String) -> (r: Option<Note>)
    ensures
        match r {
            Some(n) => {
                let k = first_note_index(notes.deep_view(), game_id@);
                &&& is_first_note_match(notes.deep_view(), game_id@, k)
                &&& n@ == notes.deep_view()[k]
            },
            None => !has_note_for(notes.deep_view(), game_id@),
        },
{
    match find_note_index(notes, game_id) {
        None => None,
        Some(k) => {
            proof {
                lemma_first_note_unique(notes.deep_view(), game_id@, k as int);
            }
            Some(notes[k].clone())
        },
    }
}

/// The note as it will be stored: a blank creation timestamp is filled
/// with the clock reading, and the update timestamp always advances to
/// it.
pub open spec fn stamped_note(n: NoteModel, now: Seq<char>) -> NoteModel {
    NoteModel {
        created_at: if spec_trim(n.created_at).len() == 0 {
            now
        } else {
            n.created_at
        },
        updated_at: now,
        ..n
    }
}

/// An existing note after the upsert overwrites it: title, content,
/// display name and update timestamp come from the incoming note; the
/// key and the creation timestamp stay.
pub open spec fn overwritten_note(existing: NoteModel, incoming: NoteModel) -> NoteModel {
    NoteModel {
        title: incoming.title,
        content: incoming.content,
        game_name: incoming.game_name,
        updated_at: incoming.updated_at,
        ..existing
    }
}

/// Saves a note at the given clock reading: a note keyed by a
/// non-blank game identifier overwrites the first note with that key,
/// or is appended when the key is new; a note without a key (or with a
/// blank one) is always appended. Returns the stored snapshot.
pub fn save_note_at(notes: &mut Vec<Note>, note: Note, now: &String) -> (r: Note)
    ensures
        ({
            let filled = stamped_note(note@, now@);
            match note@.game_id {
                Some(gid) => if spec_trim(gid).len() != 0 && has_note_for(
                    old(notes).deep_view(),
                    gid,
                ) {
                    let k = first_note_index(old(notes).deep_view(), gid);
                    &&& is_first_note_match(old(notes).deep_view(), gid, k)
                    &&& r@ == overwritten_note(old(notes).deep_view()[k], filled)
                    &&& final(notes).deep_view() == old(notes).deep_view().update(k, r@)
                } else {
                    r@ == filled && final(notes).deep_view() == old(notes).deep_view().push(filled)
                },
                None => r@ == filled && final(notes).deep_view() == old(notes).deep_view().push(
                    filled,
                ),
            }
        }),
{
    let mut incoming = note;
    let created_chars = crate::text::string_to_chars(incoming.created_at.as_str());
    let created_trimmed = crate::text::trim_chars(&created_chars);
    if created_trimmed.len() == 0 {
        incoming.created_at = now.clone();
    }
    incoming.updated_at = now.clone();
    proof {
        assert(incoming@ == stamped_note(note@, now@));
    }
    let keyed: Option<String> = match &incoming.game_id {
        Some(gid) => {
            let gid_chars = crate::text::string_to_chars(gid.as_str());
            let gid_trimmed = crate::text::trim_chars(&gid_chars);
            if gid_trimmed.len() > 0 {
                Some(gid.clone())
            } else {
                None
            }
        },
        None => None,
    };
    match keyed {
        Some(gid) => {
            match find_note_index(notes, &gid) {
                Some(k) => {
                    proof {
                        lemma_first_note_unique(notes.deep_view(), gid@, k as int);
                    }
                    let mut stored = notes[k].clone();
                    stored.title = incoming.title;
                    stored.content = incoming.content;
                    stored.game_name = incoming.game_name;
                    stored.updated_at = incoming.updated_at;
                    let r = stored.clone();
                    let ghost before = notes.deep_view();
                    notes.set(k, stored);
                    proof {
                        assert(notes.deep_view() =~= before.update(k as int, r@));
                    }
                    r
                },
                None => {
                    let r = incoming.clone();
                    let ghost before = notes.deep_view();
                    notes.push(incoming);
                    proof {
                        assert(notes.deep_view() =~= before.push(r@));
                    }
                    r
                },
            }
        },
        None => {
            let r = incoming.clone();
            let ghost before = notes.deep_view();
            notes.push(incoming);
            proof {
                assert(notes.deep_view() =~= before.push(r@));
            }
            r
        },
    }
}

/// Saves a note at the current instant.
pub fn save_note(notes: &mut Vec<Note>, note: Note) -> (r: Note)
    ensures
        exists|now: Seq<char>|
            #![trigger stamped_note(note@, now)]
            {
                let filled = stamped_note(note@, now);
                &&& now.len() > 0
                &&& match note@.game_id {
                    Some(gid) => if spec_trim(gid).len() != 0 && has_note_for(
                        old(notes).deep_view(),
                        gid,
                    ) {
                        let k = first_note_index(old(notes).deep_view(), gid);
                        &&& is_first_note_match(old(notes).deep_view(), gid, k)
                        &&& r@ == overwritten_note(old(notes).deep_view()[k], filled)
                        &&& final(notes).deep_view() == old(notes).deep_view().update(k, r@)
                    } else {
                        r@ == filled && final(notes).deep_view() == old(notes).deep_view().push(
                            filled,
                        )
                    },
                    None => r@ == filled && final(notes).deep_view() == old(
                        notes,
                    ).deep_view().push(filled),
                }
            },
{
    let now = now_rfc3339();
    let r = save_note_at(notes, note, &now);
    proof {
        assert(stamped_note(note@, now@) == stamped_note(note@, now@));
    }
    r
}

/// The note list without every note keyed by this game identifier.
pub open spec fn without_note_key(notes: Seq<NoteModel>, game_id: Seq<char>) -> Seq<NoteModel> {
    notes.filter(|n: NoteModel| n.game_id != Some(game_id))
}

/// Deletes every note keyed by this game identifier; free-standing
/// notes stay.
pub fn delete_note(notes: &mut Vec<Note>, game_id: &String)
    ensures
        final(notes).deep_view() == without_note_key(old(notes).deep_view(), game_id@),
{
    let n = notes.len();
    let mut kept: Vec<Note> = Vec::new();
    let mut i: usize = 0;
    proof {
        reveal(Seq::filter);
        assert(old(notes).deep_view().subrange(0, 0) =~= Seq::<NoteModel>::empty());
    }
    while i < n
        invariant
            i <= n == notes@.len(),
            notes.deep_view() == old(notes).deep_view(),
            kept.deep_view() == without_note_key(
                old(notes).deep_view().subrange(0, i as int),
                game_id@,
            ),
        decreases n - i,
    {
        let hit = match &notes[i].game_id {
            Some(gid) => *gid == *game_id,
            None => false,
        };
        if !hit {
            proof {
                assert(notes.deep_view()[i as int].game_id != Some(game_id@));
            }
            kept.push(notes[i].clone());
        } else {
            proof {
                assert(notes.deep_view()[i as int].game_id == Some(game_id@));
            }
        }
        i = i + 1;
        proof {
            reveal(Seq::filter);
            let pre = old(notes).deep_view().subrange(0, i - 1);
            let post = old(notes).deep_view().subrange(0, i as int);
            assert(post.drop_last() =~= pre);
            assert(post.last() == old(notes).deep_view()[i - 1]);
            if !hit {
                assert(kept.deep_view() =~= without_note_key(post, game_id@));
            }
        }
    }
    proof {
        assert(old(notes).deep_view().subrange(0, n as int) =~= old(notes).deep_view());
    }
    *notes = kept;
}

/// Deletes the note at a position; a position past the end is refused
/// and the list is unchanged.
pub fn delete_note_by_index(notes: &mut Vec<Note>, index: usize) -> (r: Result<(), StoreError>)
    ensures
        r is Ok <==> index < old(notes)@.len(),
        r is Err ==> final(notes).deep_view() == old(notes).deep_view() && r == Err::<
            (),
            StoreError,
        >(StoreError::NotFound),
        r is Ok ==> final(notes).deep_view() == old(notes).deep_view().remove(index as int),
{
    if index >= notes.len() {
        return Err(StoreError::NotFound);
    }
    let ghost before = notes.deep_view();
    notes.remove(index);
    proof {
        assert(notes.deep_view() =~= before.remove(index as int));
    }
    Ok(())
}

} // verus!
