//! The document store: whole documents as text. Saving renders a value
//! to its canonical text; loading parses the text read from disk and
//! falls back to the type's default when the file is absent or does not
//! parse, so a corrupted file degrades to an empty document instead of
//! a crash. The round-trip laws say that loading what was saved gives
//! the saved value back.

use vstd::prelude::*;
use crate::models::{GamesDB, GamesDBModel, GameEntryModel, AppConfig, ToolEntry, ToolEntryModel,
    Note, NoteModel};
use crate::text::{string_to_chars, chars_to_string, matches_at};
use crate::codec::{
    render_games_db, parse_games_db, lemma_parse_games_db_render, render_token_doc,
    parse_token_doc, lemma_parse_token_doc_render, render_tools_doc, parse_tools_doc,
    lemma_parse_tools_doc_render, render_notes_doc, parse_notes_doc, lemma_parse_notes_doc_render,
    parse_legacy_notes_doc, push_games_db, push_token_doc, push_tools_doc, push_notes_doc,
    parse_games_db_exec, parse_token_doc_exec, parse_tools_doc_exec, parse_notes_doc_exec,
    parse_legacy_notes_doc_exec,
};

verus! {

/// The games library a text stands for: the document must parse and
/// fill the whole text.
pub open spec fn games_db_of_text(s: Seq<char>) -> Option<GamesDBModel> {
    match parse_games_db(s, 0) {
        Some((m, e)) => if e == s.len() {
            Some(m)
        } else {
            None
        },
        None => None,
    }
}

/// The token a text stands for.
pub open spec fn token_of_text(s: Seq<char>) -> Option<Option<Seq<char>>> {
    match parse_token_doc(s, 0) {
        Some((o, e)) => if e == s.len() {
            Some(o)
        } else {
            None
        },
        None => None,
    }
}

/// The tool list a text stands for.
pub open spec fn tools_of_text(s: Seq<char>) -> Option<Seq<ToolEntryModel>> {
    match parse_tools_doc(s, 0) {
        Some((a, e)) => if e == s.len() {
            Some(a)
        } else {
            None
        },
        None => None,
    }
}

/// The note list a text stands for, in the current shape.
pub open spec fn notes_of_text(s: Seq<char>) -> Option<Seq<NoteModel>> {
    match parse_notes_doc(s, 0) {
        Some((a, e)) => if e == s.len() {
            Some(a)
        } else {
            None
        },
        None => None,
    }
}

/// The note list a text stands for, in the deprecated shape keyed by a
/// game path.
pub open spec fn legacy_notes_of_text(s: Seq<char>) -> Option<Seq<NoteModel>> {
    match parse_legacy_notes_doc(s, 0) {
        Some((a, e)) => if e == s.len() {
            Some(a)
        } else {
            None
        },
        None => None,
    }
}

// ---------------------------------------------------------------
// saving: value to text
// ---------------------------------------------------------------

/// The text the games library is saved as.
pub fn save_games_db_text(db: &GamesDB) -> (r: String)
    ensures
        r@ == render_games_db(db@),
{
    let mut out: Vec<char> = Vec::new();
    push_games_db(&mut out, db);
    proof {
        assert(out@ =~= render_games_db(db@));
    }
    chars_to_string(&out)
}

/// The text a token document is saved as; the configuration document
/// shares the shape.
pub fn save_token_doc_text(o: &Option<String>) -> (r: String)
    ensures
        r@ == render_token_doc(o.deep_view()),
{
    let mut out: Vec<char> = Vec::new();
    push_token_doc(&mut out, o);
    proof {
        assert(out@ =~= render_token_doc(o.deep_view()));
    }
    chars_to_string(&out)
}

/// The text the configuration document is saved as.
pub fn save_config_text(cfg: &AppConfig) -> (r: String)
    ensures
        r@ == render_token_doc(cfg@),
{
    save_token_doc_text(&cfg.access_token)
}

/// The text the tools document is saved as.
pub fn save_tools_text(tools: &Vec<ToolEntry>) -> (r: String)
    ensures
        r@ == render_tools_doc(tools.deep_view()),
{
    let mut out: Vec<char> = Vec::new();
    push_tools_doc(&mut out, tools);
    proof {
        assert(out@ =~= render_tools_doc(tools.deep_view()));
    }
    chars_to_string(&out)
}

/// The text the notes document is saved as.
pub fn save_notes_text(notes: &Vec<Note>) -> (r: String)
    ensures
        r@ == render_notes_doc(notes.deep_view()),
{
    let mut out: Vec<char> = Vec::new();
    push_notes_doc(&mut out, notes);
    proof {
        assert(out@ =~= render_notes_doc(notes.deep_view()));
    }
    chars_to_string(&out)
}

// ---------------------------------------------------------------
// loading: text to value, default on absence or corruption
// ---------------------------------------------------------------

/// Loads the games library from the text read from disk: an absent
/// file or one that does not parse yields the empty library. Never
/// fails. The returned flag says whether a present text parsed, so the
/// corrupted case stays observable.
pub fn load_games_db_text(text: Option<&String>) -> (r: (GamesDB, bool))
    ensures
        r.1 == (match text {
            Some(t) => games_db_of_text(t@) is Some,
            None => false,
        }),
        r.0@ == (match text {
            Some(t) => match games_db_of_text(t@) {
                Some(m) => m,
                None => GamesDBModel {
                    games: Seq::<GameEntryModel>::empty(),
                    custom_tags: Seq::<Seq<char>>::empty(),
                },
            },
            None => GamesDBModel {
                games: Seq::<GameEntryModel>::empty(),
                custom_tags: Seq::<Seq<char>>::empty(),
            },
        }),
{
    match text {
        None => (GamesDB::default(), false),
        Some(t) => {
            let chars = string_to_chars(t.as_str());
            match parse_games_db_exec(&chars, 0) {
                Some((db, e)) => {
                    if e == chars.len() {
                        (db, true)
                    } else {
                        (GamesDB::default(), false)
                    }
                },
                None => (GamesDB::default(), false),
            }
        },
    }
}

/// Loads the configuration from the text read from disk, defaulting on
/// absence or corruption. Never fails. The returned flag says whether a
/// present text parsed.
pub fn load_config_text(text: Option<&String>) -> (r: (AppConfig, bool))
    ensures
        r.1 == (match text {
            Some(t) => token_of_text(t@) is Some,
            None => false,
        }),
        r.0@ == (match text {
            Some(t) => match token_of_text(t@) {
                Some(o) => o,
                None => None::<Seq<char>>,
            },
            None => None::<Seq<char>>,
        }),
{
    match text {
        None => (AppConfig::default(), false),
        Some(t) => {
            let chars = string_to_chars(t.as_str());
            match parse_token_doc_exec(&chars, 0) {
                Some((o, e)) => {
                    if e == chars.len() {
                        (AppConfig { access_token: o }, true)
                    } else {
                        (AppConfig::default(), false)
                    }
                },
                None => (AppConfig::default(), false),
            }
        },
    }
}

/// Loads the raw token slot of the dedicated token file, `None` on
/// absence or corruption. Never fails.
pub fn load_token_doc_text(text: Option<&String>) -> (o: Option<String>)
    ensures
        o.deep_view() == (match text {
            Some(t) => match token_of_text(t@) {
                Some(v) => v,
                None => None::<Seq<char>>,
            },
            None => None::<Seq<char>>,
        }),
{
    match text {
        None => None,
        Some(t) => {
            let chars = string_to_chars(t.as_str());
            match parse_token_doc_exec(&chars, 0) {
                Some((o, e)) => {
                    if e == chars.len() {
                        o
                    } else {
                        None
                    }
                },
                None => None,
            }
        },
    }
}

/// Loads the tool list from the text read from disk, the empty list on
/// absence or corruption; the flag says whether the text parsed, so a
/// caller can fall back to the deprecated in-configuration list.
pub fn load_tools_text(text: Option<&String>) -> (r: (Vec<ToolEntry>, bool))
    ensures
        r.1 == (match text {
            Some(t) => tools_of_text(t@) is Some,
            None => false,
        }),
        r.0.deep_view() == (match text {
            Some(t) => match tools_of_text(t@) {
                Some(a) => a,
                None => Seq::<ToolEntryModel>::empty(),
            },
            None => Seq::<ToolEntryModel>::empty(),
        }),
{
    match text {
        None => {
            let empty: Vec<ToolEntry> = Vec::new();
            proof {
                assert(empty.deep_view() =~= Seq::<ToolEntryModel>::empty());
            }
            (empty, false)
        },
        Some(t) => {
            let chars = string_to_chars(t.as_str());
            match parse_tools_doc_exec(&chars, 0) {
                Some((v, e)) => {
                    if e == chars.len() {
                        (v, true)
                    } else {
                        let empty: Vec<ToolEntry> = Vec::new();
                        proof {
                            assert(empty.deep_view() =~= Seq::<ToolEntryModel>::empty());
                        }
                        (empty, false)
                    }
                },
                None => {
                    let empty: Vec<ToolEntry> = Vec::new();
                    proof {
                        assert(empty.deep_view() =~= Seq::<ToolEntryModel>::empty());
                    }
                    (empty, false)
                },
            }
        },
    }
}

/// Loads the note list from the text read from disk: an absent file is
/// the empty list; a text in the current shape is taken as is; one in
/// the deprecated shape is converted; anything else degrades to the
/// empty list. Never fails. The returned flag says whether a present
/// text parsed in some shape, so a caller can tell the corrupted case
/// apart from an empty document.
pub fn load_notes_text(text: Option<&String>) -> (r: (Vec<Note>, bool))
    ensures
        r.1 == (match text {
            Some(t) => notes_of_text(t@) is Some || legacy_notes_of_text(t@) is Some,
            None => false,
        }),
        r.0.deep_view() == (match text {
            Some(t) => match notes_of_text(t@) {
                Some(a) => a,
                None => match legacy_notes_of_text(t@) {
                    Some(a) => a,
                    None => Seq::<NoteModel>::empty(),
                },
            },
            None => Seq::<NoteModel>::empty(),
        }),
{
    match text {
        None => {
            let empty: Vec<Note> = Vec::new();
            proof {
                assert(empty.deep_view() =~= Seq::<NoteModel>::empty());
            }
            (empty, false)
        },
        Some(t) => {
            let chars = string_to_chars(t.as_str());
            match parse_notes_doc_exec(&chars, 0) {
                Some((v, e)) => {
                    if e == chars.len() {
                        return (v, true);
                    }
                },
                None => {},
            }
            match parse_legacy_notes_doc_exec(&chars, 0) {
                Some((v, e)) => {
                    if e == chars.len() {
                        return (v, true);
                    }
                },
                None => {},
            }
            let empty: Vec<Note> = Vec::new();
            proof {
                assert(empty.deep_view() =~= Seq::<NoteModel>::empty());
            }
            (empty, false)
        },
    }
}

// ---------------------------------------------------------------
// the round-trip laws
// ---------------------------------------------------------------

/// Loading the saved text of a games library gives the library back,
/// whatever it held.
pub proof fn lemma_games_db_round_trip(m: GamesDBModel)
    ensures
        games_db_of_text(render_games_db(m)) == Some(m),
{
    let t = render_games_db(m);
    assert(t.subrange(0, t.len() as int) =~= t);
    assert(matches_at(t, t, 0));
    lemma_parse_games_db_render(t, 0, m);
}

/// Loading the saved text of a token document gives the token back.
pub proof fn lemma_token_doc_round_trip(o: Option<Seq<char>>)
    ensures
        token_of_text(render_token_doc(o)) == Some(o),
{
    let t = render_token_doc(o);
    assert(t.subrange(0, t.len() as int) =~= t);
    assert(matches_at(t, t, 0));
    lemma_parse_token_doc_render(t, 0, o);
}

/// Loading the saved text of a tools document gives the tools back.
pub proof fn lemma_tools_doc_round_trip(a: Seq<ToolEntryModel>)
    ensures
        tools_of_text(render_tools_doc(a)) == Some(a),
{
    let t = render_tools_doc(a);
    assert(t.subrange(0, t.len() as int) =~= t);
    assert(matches_at(t, t, 0));
    lemma_parse_tools_doc_render(t, 0, a);
}

/// Loading the saved text of a notes document gives the notes back.
pub proof fn lemma_notes_doc_round_trip(a: Seq<NoteModel>)
    ensures
        notes_of_text(render_notes_doc(a)) == Some(a),
{
    let t = render_notes_doc(a);
    assert(t.subrange(0, t.len() as int) =~= t);
    assert(matches_at(t, t, 0));
    lemma_parse_notes_doc_render(t, 0, a);
}

/// Saving, loading, and saving again yields the same text: the
/// round-trip law for a whole save-load-save cycle.
pub proof fn lemma_save_load_save_games_db(m: GamesDBModel)
    ensures
        (match games_db_of_text(render_games_db(m)) {
            Some(m2) => render_games_db(m2),
            None => Seq::<char>::empty(),
        }) == render_games_db(m),
{
    lemma_games_db_round_trip(m);
}

} // verus!
