//! The shapes of the persisted documents as canonical JSON text:
//! rendering, parsing, and the round-trip laws tying the two together.

use vstd::prelude::*;
use crate::text::{matches_at, push_str_chars};
use crate::models::{
    GameEntry, GamesDB, ToolEntry, Note, GameEntryModel, GamesDBModel, ToolEntryModel, NoteModel,
};
use crate::json::{
    render_string, render_opt_string, render_i64, render_opt_i64, render_str_array,
    render_opt_str_array, parse_lit, parse_string, parse_opt_string, parse_i64, parse_opt_i64,
    parse_str_array, parse_opt_str_array, is_digit, lemma_matches_split, lemma_parse_string_render,
    lemma_parse_opt_string_render, lemma_parse_i64_render, lemma_parse_opt_i64_render,
    lemma_parse_str_array_render, lemma_parse_opt_str_array_render, lemma_parse_string_advances,
    lemma_parse_i64_bounds, lemma_parse_opt_string_bounds, lemma_parse_opt_i64_bounds,
    lemma_parse_str_array_bounds, lemma_parse_opt_str_array_bounds, push_json_string,
    push_opt_string, push_opt_i64, push_decimal_i64, push_str_array, push_opt_str_array,
    parse_lit_exec, parse_string_exec, parse_opt_string_exec, parse_i64_exec, parse_opt_i64_exec,
    parse_str_array_exec, parse_opt_str_array_exec,
};

verus! {

// ---------------------------------------------------------------
// a catalog entry
// ---------------------------------------------------------------

/// The rendering of an entry's identity fields: name, path, and the
/// two image references.
pub open spec fn render_entry_front(m: GameEntryModel) -> Seq<char> {
    "{\"name\": "@ + render_string(m.name) + ", \"path\": "@ + render_string(m.path)
        + ", \"image\": "@ + render_opt_string(m.image) + ", \"image_url\": "@ + render_opt_string(
        m.image_url,
    )
}

/// The rendering of an entry's remaining fields: catalog id, playtime,
/// last-played timestamp, breadcrumbs and tags.
pub open spec fn render_entry_back(m: GameEntryModel) -> Seq<char> {
    ", \"subject_id\": "@ + render_opt_i64(m.subject_id) + ", \"playtime\": "@ + render_i64(
        m.playtime as int,
    ) + ", \"last_played\": "@ + render_opt_string(m.last_played) + ", \"folder_path\": "@
        + render_opt_str_array(m.folder_path) + ", \"tags\": "@ + render_str_array(m.tags)
}

/// The rendering of one catalog entry.
pub open spec fn render_entry(m: GameEntryModel) -> Seq<char> {
    render_entry_front(m) + render_entry_back(m) + "}"@
}

/// Consumes an entry's identity fields.
pub open spec fn parse_entry_front(s: Seq<char>, i: int) -> Option<
    ((Seq<char>, Seq<char>, Option<Seq<char>>, Option<Seq<char>>), int),
> {
    match parse_lit(s, i, "{\"name\": "@) {
        None => None,
        Some(p) => match parse_string(s, p) {
            None => None,
            Some((name, p)) => match parse_lit(s, p, ", \"path\": "@) {
                None => None,
                Some(p) => match parse_string(s, p) {
                    None => None,
                    Some((path, p)) => match parse_lit(s, p, ", \"image\": "@) {
                        None => None,
                        Some(p) => match parse_opt_string(s, p) {
                            None => None,
                            Some((image, p)) => match parse_lit(s, p, ", \"image_url\": "@) {
                                None => None,
                                Some(p) => match parse_opt_string(s, p) {
                                    None => None,
                                    Some((image_url, p)) => Some(((name, path, image, image_url), p)),
                                },
                            },
                        },
                    },
                },
            },
        },
    }
}

/// Consumes an entry's remaining fields.
pub open spec fn parse_entry_back(s: Seq<char>, i: int) -> Option<
    ((Option<i64>, i64, Option<Seq<char>>, Option<Seq<Seq<char>>>, Seq<Seq<char>>), int),
> {
    match parse_lit(s, i, ", \"subject_id\": "@) {
        None => None,
        Some(p) => match parse_opt_i64(s, p) {
            None => None,
            Some((subject_id, p)) => match parse_lit(s, p, ", \"playtime\": "@) {
                None => None,
                Some(p) => match parse_i64(s, p) {
                    None => None,
                    Some((playtime, p)) => match parse_lit(s, p, ", \"last_played\": "@) {
                        None => None,
                        Some(p) => match parse_opt_string(s, p) {
                            None => None,
                            Some((last_played, p)) => match parse_lit(s, p, ", \"folder_path\": "@) {
                                None => None,
                                Some(p) => match parse_opt_str_array(s, p) {
                                    None => None,
                                    Some((folder_path, p)) => match parse_lit(s, p, ", \"tags\": "@) {
                                        None => None,
                                        Some(p) => match parse_str_array(s, p) {
                                            None => None,
                                            Some((tags, p)) => Some(
                                                ((subject_id, playtime, last_played, folder_path, tags), p),
                                            ),
                                        },
                                    },
                                },
                            },
                        },
                    },
                },
            },
        },
    }
}

/// Consumes one catalog entry.
pub open spec fn parse_entry(s: Seq<char>, i: int) -> Option<(GameEntryModel, int)> {
    match parse_entry_front(s, i) {
        None => None,
        Some(((name, path, image, image_url), p)) => match parse_entry_back(s, p) {
            None => None,
            Some(((subject_id, playtime, last_played, folder_path, tags), p)) => match parse_lit(
                s,
                p,
                "}"@,
            ) {
                None => None,
                Some(p) => Some(
                    (
                        GameEntryModel {
                            name,
                            path,
                            image,
                            image_url,
                            subject_id,
                            playtime,
                            last_played,
                            folder_path,
                            tags,
                        },
                        p,
                    ),
                ),
            },
        },
    }
}

/// Parsing the rendered identity fields gives them back.
#[verifier::rlimit(100)]
#[verifier::spinoff_prover]
pub proof fn lemma_parse_entry_front_render(s: Seq<char>, i: int, m: GameEntryModel)
    requires
        matches_at(s, render_entry_front(m), i),
    ensures
        parse_entry_front(s, i) == Some(
            ((m.name, m.path, m.image, m.image_url), i + render_entry_front(m).len()),
        ),
{
    let l1 = "{\"name\": "@;
    let v1 = render_string(m.name);
    let l2 = ", \"path\": "@;
    let v2 = render_string(m.path);
    let l3 = ", \"image\": "@;
    let v3 = render_opt_string(m.image);
    let l4 = ", \"image_url\": "@;
    let v4 = render_opt_string(m.image_url);
    let r4 = v4;
    let r3l = l4 + r4;
    let r3 = v3 + r3l;
    let r2l = l3 + r3;
    let r2 = v2 + r2l;
    let r1l = l2 + r2;
    let r1 = v1 + r1l;
    assert(render_entry_front(m) =~= l1 + r1);
    lemma_matches_split(s, i, l1, r1);
    let p1 = i + l1.len();
    lemma_matches_split(s, p1, v1, r1l);
    lemma_parse_string_render(s, p1, m.name);
    let q1 = p1 + v1.len();
    lemma_matches_split(s, q1, l2, r2);
    let p2 = q1 + l2.len();
    lemma_matches_split(s, p2, v2, r2l);
    lemma_parse_string_render(s, p2, m.path);
    let q2 = p2 + v2.len();
    lemma_matches_split(s, q2, l3, r3);
    let p3 = q2 + l3.len();
    lemma_matches_split(s, p3, v3, r3l);
    lemma_parse_opt_string_render(s, p3, m.image);
    let q3 = p3 + v3.len();
    lemma_matches_split(s, q3, l4, r4);
    let p4 = q3 + l4.len();
    lemma_parse_opt_string_render(s, p4, m.image_url);
}

/// Parsing the rendered remaining fields gives them back.
#[verifier::rlimit(100)]
#[verifier::spinoff_prover]
pub proof fn lemma_parse_entry_back_render(s: Seq<char>, i: int, m: GameEntryModel)
    requires
        matches_at(s, render_entry_back(m), i),
    ensures
        parse_entry_back(s, i) == Some(
            (
                (m.subject_id, m.playtime, m.last_played, m.folder_path, m.tags),
                i + render_entry_back(m).len(),
            ),
        ),
{
    let l5 = ", \"subject_id\": "@;
    let v5 = render_opt_i64(m.subject_id);
    let l6 = ", \"playtime\": "@;
    let v6 = render_i64(m.playtime as int);
    let l7 = ", \"last_played\": "@;
    let v7 = render_opt_string(m.last_played);
    let l8 = ", \"folder_path\": "@;
    let v8 = render_opt_str_array(m.folder_path);
    let l9 = ", \"tags\": "@;
    let v9 = render_str_array(m.tags);
    let r9 = v9;
    let r8l = l9 + r9;
    let r8 = v8 + r8l;
    let r7l = l8 + r8;
    let r7 = v7 + r7l;
    let r6l = l7 + r7;
    let r6 = v6 + r6l;
    let r5l = l6 + r6;
    let r5 = v5 + r5l;
    assert(render_entry_back(m) =~= l5 + r5);
    lemma_matches_split(s, i, l5, r5);
    let p5 = i + l5.len();
    lemma_matches_split(s, p5, v5, r5l);
    reveal_strlit(", \"playtime\": ");
    assert(s[p5 + v5.len()] == ',') by {
        assert(s.subrange(p5 + v5.len(), p5 + v5.len() + l6.len()) =~= l6);
        assert(s.subrange(p5 + v5.len(), p5 + v5.len() + l6.len())[0] == l6[0]);
    }
    assert(!is_digit(','));
    lemma_parse_opt_i64_render(s, p5, m.subject_id);
    let q5 = p5 + v5.len();
    lemma_matches_split(s, q5, l6, r6);
    let p6 = q5 + l6.len();
    lemma_matches_split(s, p6, v6, r6l);
    reveal_strlit(", \"last_played\": ");
    assert(s[p6 + v6.len()] == ',') by {
        assert(s.subrange(p6 + v6.len(), p6 + v6.len() + l7.len()) =~= l7);
        assert(s.subrange(p6 + v6.len(), p6 + v6.len() + l7.len())[0] == l7[0]);
    }
    lemma_parse_i64_render(s, p6, m.playtime);
    let q6 = p6 + v6.len();
    lemma_matches_split(s, q6, l7, r7);
    let p7 = q6 + l7.len();
    lemma_matches_split(s, p7, v7, r7l);
    lemma_parse_opt_string_render(s, p7, m.last_played);
    let q7 = p7 + v7.len();
    lemma_matches_split(s, q7, l8, r8);
    let p8 = q7 + l8.len();
    lemma_matches_split(s, p8, v8, r8l);
    lemma_parse_opt_str_array_render(s, p8, m.folder_path);
    let q8 = p8 + v8.len();
    lemma_matches_split(s, q8, l9, r9);
    let p9 = q8 + l9.len();
    lemma_parse_str_array_render(s, p9, m.tags);
}

/// A successful front parse ends after its start, within bounds.
pub proof fn lemma_parse_entry_front_bounds(s: Seq<char>, i: int)
    ensures
        parse_entry_front(s, i) matches Some((f, j)) ==> i < j <= s.len(),
{
    match parse_lit(s, i, "{\"name\": "@) {
        None => {},
        Some(p1) => {
            lemma_parse_string_advances(s, p1);
            match parse_string(s, p1) {
                None => {},
                Some((_name, q1)) => {
                    match parse_lit(s, q1, ", \"path\": "@) {
                        None => {},
                        Some(p2) => {
                            lemma_parse_string_advances(s, p2);
                            match parse_string(s, p2) {
                                None => {},
                                Some((_path, q2)) => {
                                    match parse_lit(s, q2, ", \"image\": "@) {
                                        None => {},
                                        Some(p3) => {
                                            lemma_parse_opt_string_bounds(s, p3);
                                            match parse_opt_string(s, p3) {
                                                None => {},
                                                Some((_img, q3)) => {
                                                    match parse_lit(s, q3, ", \"image_url\": "@) {
                                                        None => {},
                                                        Some(p4) => {
                                                            lemma_parse_opt_string_bounds(s, p4);
                                                        },
                                                    }
                                                },
                                            }
                                        },
                                    }
                                },
                            }
                        },
                    }
                },
            }
        },
    }
}

/// A successful back parse ends after its start, within bounds.
pub proof fn lemma_parse_entry_back_bounds(s: Seq<char>, i: int)
    ensures
        parse_entry_back(s, i) matches Some((f, j)) ==> i <= j <= s.len(),
{
    match parse_lit(s, i, ", \"subject_id\": "@) {
        None => {},
        Some(p5) => {
            lemma_parse_opt_i64_bounds(s, p5);
            match parse_opt_i64(s, p5) {
                None => {},
                Some((_sid, q5)) => {
                    match parse_lit(s, q5, ", \"playtime\": "@) {
                        None => {},
                        Some(p6) => {
                            lemma_parse_i64_bounds(s, p6);
                            match parse_i64(s, p6) {
                                None => {},
                                Some((_pt, q6)) => {
                                    match parse_lit(s, q6, ", \"last_played\": "@) {
                                        None => {},
                                        Some(p7) => {
                                            lemma_parse_opt_string_bounds(s, p7);
                                            match parse_opt_string(s, p7) {
                                                None => {},
                                                Some((_lp, q7)) => {
                                                    match parse_lit(s, q7, ", \"folder_path\": "@) {
                                                        None => {},
                                                        Some(p8) => {
                                                            lemma_parse_opt_str_array_bounds(s, p8);
                                                            match parse_opt_str_array(s, p8) {
                                                                None => {},
                                                                Some((_fp, q8)) => {
                                                                    match parse_lit(
                                                                        s,
                                                                        q8,
                                                                        ", \"tags\": "@,
                                                                    ) {
                                                                        None => {},
                                                                        Some(p9) => {
                                                                            lemma_parse_str_array_bounds(
                                                                                s,
                                                                                p9,
                                                                            );
                                                                        },
                                                                    }
                                                                },
                                                            }
                                                        },
                                                    }
                                                },
                                            }
                                        },
                                    }
                                },
                            }
                        },
                    }
                },
            }
        },
    }
}

/// A successful entry parse ends after its start, within bounds.
pub proof fn lemma_parse_entry_bounds(s: Seq<char>, i: int)
    ensures
        parse_entry(s, i) matches Some((m, j)) ==> i < j <= s.len(),
{
    lemma_parse_entry_front_bounds(s, i);
    match parse_entry_front(s, i) {
        None => {},
        Some((_f, p)) => {
            lemma_parse_entry_back_bounds(s, p);
        },
    }
}

/// Parsing the rendering of a catalog entry gives it back.
pub proof fn lemma_parse_entry_render(s: Seq<char>, i: int, m: GameEntryModel)
    requires
        matches_at(s, render_entry(m), i),
    ensures
        parse_entry(s, i) == Some((m, i + render_entry(m).len())),
{
    let front = render_entry_front(m);
    let back = render_entry_back(m);
    let close = "}"@;
    assert(render_entry(m) =~= front + (back + close));
    lemma_matches_split(s, i, front, back + close);
    lemma_parse_entry_front_render(s, i, m);
    let p = i + front.len();
    lemma_matches_split(s, p, back, close);
    lemma_parse_entry_back_render(s, p, m);
    let q = p + back.len();
    assert(parse_entry(s, i) == Some((m, q + close.len())));
}

// ---------------------------------------------------------------
// arrays of catalog entries
// ---------------------------------------------------------------

/// The renderings of the entries of an array, separated by commas.
pub open spec fn render_entry_items(a: Seq<GameEntryModel>) -> Seq<char>
    decreases a.len(),
{
    if a.len() == 0 {
        Seq::empty()
    } else if a.len() == 1 {
        render_entry(a[0])
    } else {
        render_entry(a[0]) + ", "@ + render_entry_items(a.drop_first())
    }
}

/// The rendering of an array of catalog entries.
pub open spec fn render_entry_array(a: Seq<GameEntryModel>) -> Seq<char> {
    if a.len() == 0 {
        "[]"@
    } else {
        "["@ + render_entry_items(a) + "]"@
    }
}

/// Consumes the entries of a non-empty array up to and including the
/// closing bracket.
pub open spec fn parse_entry_items(s: Seq<char>, i: int) -> Option<(Seq<GameEntryModel>, int)>
    decreases s.len() - i,
{
    match parse_entry(s, i) {
        None => None,
        Some((m, j)) => {
            if matches_at(s, ", "@, j) && j + 2 <= s.len() {
                proof {
                    lemma_parse_entry_bounds(s, i);
                }
                match parse_entry_items(s, j + 2) {
                    None => None,
                    Some((rest, e)) => Some((seq![m] + rest, e)),
                }
            } else if j < s.len() && s[j] == ']' {
                Some((seq![m], j + 1))
            } else {
                None
            }
        },
    }
}

/// Consumes an array of catalog entries.
pub open spec fn parse_entry_array(s: Seq<char>, i: int) -> Option<(Seq<GameEntryModel>, int)> {
    if matches_at(s, "[]"@, i) {
        Some((Seq::empty(), i + 2))
    } else {
        match parse_lit(s, i, "["@) {
            None => None,
            Some(j) => parse_entry_items(s, j),
        }
    }
}

/// Parsing the rendered entries of a non-empty array, delimited by the
/// closing bracket, gives back exactly those entries.
#[verifier::rlimit(100)]
#[verifier::spinoff_prover]
pub proof fn lemma_parse_entry_items_render(s: Seq<char>, i: int, a: Seq<GameEntryModel>)
    requires
        a.len() >= 1,
        matches_at(s, render_entry_items(a), i),
        i + render_entry_items(a).len() < s.len(),
        s[i + render_entry_items(a).len()] == ']',
    ensures
        parse_entry_items(s, i) == Some((a, i + render_entry_items(a).len() + 1)),
    decreases a.len(),
{
    reveal_strlit(", ");
    if a.len() == 1 {
        lemma_parse_entry_render(s, i, a[0]);
        let j = i + render_entry(a[0]).len();
        assert(s[j] == ']');
        assert(!matches_at(s, ", "@, j)) by {
            if matches_at(s, ", "@, j) {
                assert(s.subrange(j, j + 2)[0] == ", "@[0]);
            }
        }
        assert(seq![a[0]] =~= a);
    } else {
        let head = render_entry(a[0]);
        let tail = render_entry_items(a.drop_first());
        assert(render_entry_items(a) =~= head + (", "@ + tail));
        lemma_matches_split(s, i, head, ", "@ + tail);
        lemma_matches_split(s, i + head.len(), ", "@, tail);
        lemma_parse_entry_render(s, i, a[0]);
        let j = i + head.len();
        assert(matches_at(s, ", "@, j));
        lemma_parse_entry_items_render(s, j + 2, a.drop_first());
        assert(seq![a[0]] + a.drop_first() =~= a);
    }
}

/// Parsing the rendering of an entry array gives it back.
#[verifier::rlimit(100)]
#[verifier::spinoff_prover]
pub proof fn lemma_parse_entry_array_render(s: Seq<char>, i: int, a: Seq<GameEntryModel>)
    requires
        matches_at(s, render_entry_array(a), i),
    ensures
        parse_entry_array(s, i) == Some((a, i + render_entry_array(a).len())),
{
    reveal_strlit("[]");
    reveal_strlit("[");
    reveal_strlit("]");
    reveal_strlit("{\"name\": ");
    if a.len() == 0 {
        assert(a =~= Seq::<GameEntryModel>::empty());
    } else {
        let items = render_entry_items(a);
        assert(render_entry_array(a) =~= "["@ + (items + "]"@));
        lemma_matches_split(s, i, "["@, items + "]"@);
        lemma_matches_split(s, i + 1, items, "]"@);
        assert(render_entry(a[0])[0] == '{') by {
            let e0 = render_entry(a[0]);
            assert(e0 == render_entry_front(a[0]) + render_entry_back(a[0]) + "}"@);
            assert(render_entry_front(a[0])[0] == "{\"name\": "@[0]);
            assert(e0[0] == render_entry_front(a[0])[0]);
        }
        assert(items.len() >= 1 && items[0] == '{') by {
            if a.len() == 1 {
                assert(items == render_entry(a[0]));
            } else {
                assert(items == render_entry(a[0]) + ", "@ + render_entry_items(a.drop_first()));
                assert(items[0] == render_entry(a[0])[0]);
            }
        }
        assert(s[i + 1] == '{') by {
            assert(s.subrange(i + 1, i + 1 + items.len() as int)[0] == items[0]);
        }
        assert(!matches_at(s, "[]"@, i)) by {
            if matches_at(s, "[]"@, i) {
                assert(s.subrange(i, i + 2)[1] == "[]"@[1]);
                assert(s.subrange(i + 1, i + 1 + items.len() as int)[0] == items[0]);
            }
        }
        let e = i + 1 + items.len();
        assert(s[e] == ']') by {
            assert(s.subrange(e, e + 1)[0] == "]"@[0]);
        }
        lemma_parse_entry_items_render(s, i + 1, a);
    }
}

// ---------------------------------------------------------------
// the games-library document
// ---------------------------------------------------------------

/// The rendering of the whole games library.
pub open spec fn render_games_db(m: GamesDBModel) -> Seq<char> {
    "{\n  \"games\": "@ + render_entry_array(m.games) + ",\n  \"custom_tags\": "@
        + render_str_array(m.custom_tags) + "\n}"@
}

/// Consumes the whole games library.
pub open spec fn parse_games_db(s: Seq<char>, i: int) -> Option<(GamesDBModel, int)> {
    match parse_lit(s, i, "{\n  \"games\": "@) {
        None => None,
        Some(p) => match parse_entry_array(s, p) {
            None => None,
            Some((games, p)) => match parse_lit(s, p, ",\n  \"custom_tags\": "@) {
                None => None,
                Some(p) => match parse_str_array(s, p) {
                    None => None,
                    Some((custom_tags, p)) => match parse_lit(s, p, "\n}"@) {
                        None => None,
                        Some(p) => Some((GamesDBModel { games, custom_tags }, p)),
                    },
                },
            },
        },
    }
}

/// Parsing the rendering of a games library gives it back.
#[verifier::rlimit(100)]
#[verifier::spinoff_prover]
pub proof fn lemma_parse_games_db_render(s: Seq<char>, i: int, m: GamesDBModel)
    requires
        matches_at(s, render_games_db(m), i),
    ensures
        parse_games_db(s, i) == Some((m, i + render_games_db(m).len())),
{
    let l1 = "{\n  \"games\": "@;
    let v1 = render_entry_array(m.games);
    let l2 = ",\n  \"custom_tags\": "@;
    let v2 = render_str_array(m.custom_tags);
    let l3 = "\n}"@;
    let r2 = v2 + l3;
    let r1l = l2 + r2;
    let r1 = v1 + r1l;
    assert(render_games_db(m) =~= l1 + r1);
    lemma_matches_split(s, i, l1, r1);
    let p1 = i + l1.len();
    lemma_matches_split(s, p1, v1, r1l);
    lemma_parse_entry_array_render(s, p1, m.games);
    let q1 = p1 + v1.len();
    lemma_matches_split(s, q1, l2, r2);
    let p2 = q1 + l2.len();
    lemma_matches_split(s, p2, v2, l3);
    lemma_parse_str_array_render(s, p2, m.custom_tags);
}

// ---------------------------------------------------------------
// the token and configuration documents
// ---------------------------------------------------------------

/// The rendering of a document holding an optional access token: the
/// dedicated token file and the configuration file share this shape.
pub open spec fn render_token_doc(o: Option<Seq<char>>) -> Seq<char> {
    "{\n  \"access_token\": "@ + render_opt_string(o) + "\n}"@
}

/// Consumes a token document.
pub open spec fn parse_token_doc(s: Seq<char>, i: int) -> Option<(Option<Seq<char>>, int)> {
    match parse_lit(s, i, "{\n  \"access_token\": "@) {
        None => None,
        Some(p) => match parse_opt_string(s, p) {
            None => None,
            Some((o, p)) => match parse_lit(s, p, "\n}"@) {
                None => None,
                Some(p) => Some((o, p)),
            },
        },
    }
}

/// Parsing the rendering of a token document gives it back.
pub proof fn lemma_parse_token_doc_render(s: Seq<char>, i: int, o: Option<Seq<char>>)
    requires
        matches_at(s, render_token_doc(o), i),
    ensures
        parse_token_doc(s, i) == Some((o, i + render_token_doc(o).len())),
{
    let l1 = "{\n  \"access_token\": "@;
    let v1 = render_opt_string(o);
    let l2 = "\n}"@;
    let r1 = v1 + l2;
    assert(render_token_doc(o) =~= l1 + r1);
    lemma_matches_split(s, i, l1, r1);
    let p1 = i + l1.len();
    lemma_matches_split(s, p1, v1, l2);
    lemma_parse_opt_string_render(s, p1, o);
}

// ---------------------------------------------------------------
// the tools document
// ---------------------------------------------------------------

/// The rendering of one tool shortcut.
pub open spec fn render_tool(t: ToolEntryModel) -> Seq<char> {
    "{\"id\": "@ + render_string(t.id) + ", \"name\": "@ + render_string(t.name) + ", \"path\": "@
        + render_string(t.path) + "}"@
}

/// Consumes one tool shortcut.
pub open spec fn parse_tool(s: Seq<char>, i: int) -> Option<(ToolEntryModel, int)> {
    match parse_lit(s, i, "{\"id\": "@) {
        None => None,
        Some(p) => match parse_string(s, p) {
            None => None,
            Some((id, p)) => match parse_lit(s, p, ", \"name\": "@) {
                None => None,
                Some(p) => match parse_string(s, p) {
                    None => None,
                    Some((name, p)) => match parse_lit(s, p, ", \"path\": "@) {
                        None => None,
                        Some(p) => match parse_string(s, p) {
                            None => None,
                            Some((path, p)) => match parse_lit(s, p, "}"@) {
                                None => None,
                                Some(p) => Some((ToolEntryModel { id, name, path }, p)),
                            },
                        },
                    },
                },
            },
        },
    }
}

/// A successful tool parse ends after its start, within bounds.
pub proof fn lemma_parse_tool_bounds(s: Seq<char>, i: int)
    ensures
        parse_tool(s, i) matches Some((t, j)) ==> i < j <= s.len(),
{
    match parse_lit(s, i, "{\"id\": "@) {
        None => {},
        Some(p1) => {
            lemma_parse_string_advances(s, p1);
            match parse_string(s, p1) {
                None => {},
                Some((_id, q1)) => {
                    match parse_lit(s, q1, ", \"name\": "@) {
                        None => {},
                        Some(p2) => {
                            lemma_parse_string_advances(s, p2);
                            match parse_string(s, p2) {
                                None => {},
                                Some((_nm, q2)) => {
                                    match parse_lit(s, q2, ", \"path\": "@) {
                                        None => {},
                                        Some(p3) => {
                                            lemma_parse_string_advances(s, p3);
                                        },
                                    }
                                },
                            }
                        },
                    }
                },
            }
        },
    }
}

/// Parsing the rendering of a tool shortcut gives it back.
#[verifier::rlimit(100)]
#[verifier::spinoff_prover]
pub proof fn lemma_parse_tool_render(s: Seq<char>, i: int, t: ToolEntryModel)
    requires
        matches_at(s, render_tool(t), i),
    ensures
        parse_tool(s, i) == Some((t, i + render_tool(t).len())),
{
    let l1 = "{\"id\": "@;
    let v1 = render_string(t.id);
    let l2 = ", \"name\": "@;
    let v2 = render_string(t.name);
    let l3 = ", \"path\": "@;
    let v3 = render_string(t.path);
    let l4 = "}"@;
    let r3 = v3 + l4;
    let r2l = l3 + r3;
    let r2 = v2 + r2l;
    let r1l = l2 + r2;
    let r1 = v1 + r1l;
    assert(render_tool(t) =~= l1 + r1);
    lemma_matches_split(s, i, l1, r1);
    let p1 = i + l1.len();
    lemma_matches_split(s, p1, v1, r1l);
    lemma_parse_string_render(s, p1, t.id);
    let q1 = p1 + v1.len();
    lemma_matches_split(s, q1, l2, r2);
    let p2 = q1 + l2.len();
    lemma_matches_split(s, p2, v2, r2l);
    lemma_parse_string_render(s, p2, t.name);
    let q2 = p2 + v2.len();
    lemma_matches_split(s, q2, l3, r3);
    let p3 = q2 + l3.len();
    lemma_matches_split(s, p3, v3, l4);
    lemma_parse_string_render(s, p3, t.path);
}

/// The renderings of the tools of the document, separated by commas.
pub open spec fn render_tool_items(a: Seq<ToolEntryModel>) -> Seq<char>
    decreases a.len(),
{
    if a.len() == 0 {
        Seq::empty()
    } else if a.len() == 1 {
        render_tool(a[0])
    } else {
        render_tool(a[0]) + ", "@ + render_tool_items(a.drop_first())
    }
}

/// The rendering of the tools document: a JSON array of tools.
pub open spec fn render_tools_doc(a: Seq<ToolEntryModel>) -> Seq<char> {
    if a.len() == 0 {
        "[]"@
    } else {
        "["@ + render_tool_items(a) + "]"@
    }
}

/// Consumes the tools of a non-empty document up to and including the
/// closing bracket.
pub open spec fn parse_tool_items(s: Seq<char>, i: int) -> Option<(Seq<ToolEntryModel>, int)>
    decreases s.len() - i,
{
    match parse_tool(s, i) {
        None => None,
        Some((t, j)) => {
            if matches_at(s, ", "@, j) && j + 2 <= s.len() {
                proof {
                    lemma_parse_tool_bounds(s, i);
                }
                match parse_tool_items(s, j + 2) {
                    None => None,
                    Some((rest, e)) => Some((seq![t] + rest, e)),
                }
            } else if j < s.len() && s[j] == ']' {
                Some((seq![t], j + 1))
            } else {
                None
            }
        },
    }
}

/// Consumes the tools document.
pub open spec fn parse_tools_doc(s: Seq<char>, i: int) -> Option<(Seq<ToolEntryModel>, int)> {
    if matches_at(s, "[]"@, i) {
        Some((Seq::empty(), i + 2))
    } else {
        match parse_lit(s, i, "["@) {
            None => None,
            Some(j) => parse_tool_items(s, j),
        }
    }
}

/// Parsing the rendered tools of a non-empty document gives them back.
#[verifier::rlimit(100)]
#[verifier::spinoff_prover]
pub proof fn lemma_parse_tool_items_render(s: Seq<char>, i: int, a: Seq<ToolEntryModel>)
    requires
        a.len() >= 1,
        matches_at(s, render_tool_items(a), i),
        i + render_tool_items(a).len() < s.len(),
        s[i + render_tool_items(a).len()] == ']',
    ensures
        parse_tool_items(s, i) == Some((a, i + render_tool_items(a).len() + 1)),
    decreases a.len(),
{
    reveal_strlit(", ");
    if a.len() == 1 {
        lemma_parse_tool_render(s, i, a[0]);
        let j = i + render_tool(a[0]).len();
        assert(!matches_at(s, ", "@, j)) by {
            if matches_at(s, ", "@, j) {
                assert(s.subrange(j, j + 2)[0] == ", "@[0]);
            }
        }
        assert(seq![a[0]] =~= a);
    } else {
        let head = render_tool(a[0]);
        let tail = render_tool_items(a.drop_first());
        assert(render_tool_items(a) =~= head + (", "@ + tail));
        lemma_matches_split(s, i, head, ", "@ + tail);
        lemma_matches_split(s, i + head.len(), ", "@, tail);
        lemma_parse_tool_render(s, i, a[0]);
        let j = i + head.len();
        lemma_parse_tool_items_render(s, j + 2, a.drop_first());
        assert(seq![a[0]] + a.drop_first() =~= a);
    }
}

/// Parsing the rendering of a tools document gives it back.
#[verifier::rlimit(100)]
#[verifier::spinoff_prover]
pub proof fn lemma_parse_tools_doc_render(s: Seq<char>, i: int, a: Seq<ToolEntryModel>)
    requires
        matches_at(s, render_tools_doc(a), i),
    ensures
        parse_tools_doc(s, i) == Some((a, i + render_tools_doc(a).len())),
{
    reveal_strlit("[]");
    reveal_strlit("[");
    reveal_strlit("]");
    reveal_strlit("{\"id\": ");
    if a.len() == 0 {
        assert(a =~= Seq::<ToolEntryModel>::empty());
    } else {
        let items = render_tool_items(a);
        assert(render_tools_doc(a) =~= "["@ + (items + "]"@));
        lemma_matches_split(s, i, "["@, items + "]"@);
        lemma_matches_split(s, i + 1, items, "]"@);
        assert(render_tool(a[0])[0] == '{') by {
            assert(render_tool(a[0]) =~= "{\"id\": "@ + (render_string(a[0].id) + (", \"name\": "@
                + render_string(a[0].name) + ", \"path\": "@ + render_string(a[0].path) + "}"@)));
            assert(render_tool(a[0])[0] == "{\"id\": "@[0]);
        }
        assert(items.len() >= 1 && items[0] == '{') by {
            if a.len() == 1 {
                assert(items == render_tool(a[0]));
            } else {
                assert(items == render_tool(a[0]) + ", "@ + render_tool_items(a.drop_first()));
                assert(items[0] == render_tool(a[0])[0]);
            }
        }
        assert(s[i + 1] == '{') by {
            assert(s.subrange(i + 1, i + 1 + items.len() as int)[0] == items[0]);
        }
        assert(!matches_at(s, "[]"@, i)) by {
            if matches_at(s, "[]"@, i) {
                assert(s.subrange(i, i + 2)[1] == "[]"@[1]);
                assert(s.subrange(i + 1, i + 1 + items.len() as int)[0] == items[0]);
            }
        }
        let e = i + 1 + items.len();
        assert(s[e] == ']') by {
            assert(s.subrange(e, e + 1)[0] == "]"@[0]);
        }
        lemma_parse_tool_items_render(s, i + 1, a);
    }
}

// ---------------------------------------------------------------
// the notes document
// ---------------------------------------------------------------

/// The rendering of one note.
pub open spec fn render_note(n: NoteModel) -> Seq<char> {
    "{\"game_id\": "@ + render_opt_string(n.game_id) + ", \"game_name\": "@ + render_opt_string(
        n.game_name,
    ) + ", \"title\": "@ + render_string(n.title) + ", \"content\": "@ + render_string(n.content)
        + ", \"created_at\": "@ + render_string(n.created_at) + ", \"updated_at\": "@
        + render_string(n.updated_at) + "}"@
}

/// Consumes one note.
pub open spec fn parse_note(s: Seq<char>, i: int) -> Option<(NoteModel, int)> {
    match parse_lit(s, i, "{\"game_id\": "@) {
        None => None,
        Some(p) => match parse_opt_string(s, p) {
            None => None,
            Some((game_id, p)) => match parse_lit(s, p, ", \"game_name\": "@) {
                None => None,
                Some(p) => match parse_opt_string(s, p) {
                    None => None,
                    Some((game_name, p)) => match parse_lit(s, p, ", \"title\": "@) {
                        None => None,
                        Some(p) => match parse_string(s, p) {
                            None => None,
                            Some((title, p)) => match parse_lit(s, p, ", \"content\": "@) {
                                None => None,
                                Some(p) => match parse_string(s, p) {
                                    None => None,
                                    Some((content, p)) => match parse_lit(
                                        s,
                                        p,
                                        ", \"created_at\": "@,
                                    ) {
                                        None => None,
                                        Some(p) => match parse_string(s, p) {
                                            None => None,
                                            Some((created_at, p)) => match parse_lit(
                                                s,
                                                p,
                                                ", \"updated_at\": "@,
                                            ) {
                                                None => None,
                                                Some(p) => match parse_string(s, p) {
                                                    None => None,
                                                    Some((updated_at, p)) => match parse_lit(
                                                        s,
                                                        p,
                                                        "}"@,
                                                    ) {
                                                        None => None,
                                                        Some(p) => Some(
                                                            (
                                                                NoteModel {
                                                                    game_id,
                                                                    game_name,
                                                                    title,
                                                                    content,
                                                                    created_at,
                                                                    updated_at,
                                                                },
                                                                p,
                                                            ),
                                                        ),
                                                    },
                                                },
                                            },
                                        },
                                    },
                                },
                            },
                        },
                    },
                },
            },
        },
    }
}

/// A successful note parse ends after its start, within bounds.
pub proof fn lemma_parse_note_bounds(s: Seq<char>, i: int)
    ensures
        parse_note(s, i) matches Some((n, j)) ==> i < j <= s.len(),
{
    match parse_lit(s, i, "{\"game_id\": "@) {
        None => {},
        Some(p1) => {
            lemma_parse_opt_string_bounds(s, p1);
            match parse_opt_string(s, p1) {
                None => {},
                Some((_gid, q1)) => {
                    match parse_lit(s, q1, ", \"game_name\": "@) {
                        None => {},
                        Some(p2) => {
                            lemma_parse_opt_string_bounds(s, p2);
                            match parse_opt_string(s, p2) {
                                None => {},
                                Some((_gn, q2)) => {
                                    match parse_lit(s, q2, ", \"title\": "@) {
                                        None => {},
                                        Some(p3) => {
                                            lemma_parse_string_advances(s, p3);
                                            match parse_string(s, p3) {
                                                None => {},
                                                Some((_t, q3)) => {
                                                    match parse_lit(s, q3, ", \"content\": "@) {
                                                        None => {},
                                                        Some(p4) => {
                                                            lemma_parse_string_advances(s, p4);
                                                            match parse_string(s, p4) {
                                                                None => {},
                                                                Some((_c, q4)) => {
                                                                    match parse_lit(
                                                                        s,
                                                                        q4,
                                                                        ", \"created_at\": "@,
                                                                    ) {
                                                                        None => {},
                                                                        Some(p5) => {
                                                                            lemma_parse_string_advances(
                                                                                s,
                                                                                p5,
                                                                            );
                                                                            match parse_string(
                                                                                s,
                                                                                p5,
                                                                            ) {
                                                                                None => {},
                                                                                Some((_ca, q5)) => {
                                                                                    match parse_lit(
                                                                                        s,
                                                                                        q5,
                                                                                        ", \"updated_at\": "@,
                                                                                    ) {
                                                                                        None => {},
                                                                                        Some(p6) => {
                                                                                            lemma_parse_string_advances(
                                                                                                s,
                                                                                                p6,
                                                                                            );
                                                                                        },
                                                                                    }
                                                                                },
                                                                            }
                                                                        },
                                                                    }
                                                                },
                                                            }
                                                        },
                                                    }
                                                },
                                            }
                                        },
                                    }
                                },
                            }
                        },
                    }
                },
            }
        },
    }
}

/// Parsing the rendering of a note gives it back.
#[verifier::rlimit(100)]
#[verifier::spinoff_prover]
pub proof fn lemma_parse_note_render(s: Seq<char>, i: int, n: NoteModel)
    requires
        matches_at(s, render_note(n), i),
    ensures
        parse_note(s, i) == Some((n, i + render_note(n).len())),
{
    let l1 = "{\"game_id\": "@;
    let v1 = render_opt_string(n.game_id);
    let l2 = ", \"game_name\": "@;
    let v2 = render_opt_string(n.game_name);
    let l3 = ", \"title\": "@;
    let v3 = render_string(n.title);
    let l4 = ", \"content\": "@;
    let v4 = render_string(n.content);
    let l5 = ", \"created_at\": "@;
    let v5 = render_string(n.created_at);
    let l6 = ", \"updated_at\": "@;
    let v6 = render_string(n.updated_at);
    let l7 = "}"@;
    let r6 = v6 + l7;
    let r5l = l6 + r6;
    let r5 = v5 + r5l;
    let r4l = l5 + r5;
    let r4 = v4 + r4l;
    let r3l = l4 + r4;
    let r3 = v3 + r3l;
    let r2l = l3 + r3;
    let r2 = v2 + r2l;
    let r1l = l2 + r2;
    let r1 = v1 + r1l;
    assert(render_note(n) =~= l1 + r1);
    lemma_matches_split(s, i, l1, r1);
    let p1 = i + l1.len();
    lemma_matches_split(s, p1, v1, r1l);
    lemma_parse_opt_string_render(s, p1, n.game_id);
    let q1 = p1 + v1.len();
    lemma_matches_split(s, q1, l2, r2);
    let p2 = q1 + l2.len();
    lemma_matches_split(s, p2, v2, r2l);
    lemma_parse_opt_string_render(s, p2, n.game_name);
    let q2 = p2 + v2.len();
    lemma_matches_split(s, q2, l3, r3);
    let p3 = q2 + l3.len();
    lemma_matches_split(s, p3, v3, r3l);
    lemma_parse_string_render(s, p3, n.title);
    let q3 = p3 + v3.len();
    lemma_matches_split(s, q3, l4, r4);
    let p4 = q3 + l4.len();
    lemma_matches_split(s, p4, v4, r4l);
    lemma_parse_string_render(s, p4, n.content);
    let q4 = p4 + v4.len();
    lemma_matches_split(s, q4, l5, r5);
    let p5 = q4 + l5.len();
    lemma_matches_split(s, p5, v5, r5l);
    lemma_parse_string_render(s, p5, n.created_at);
    let q5 = p5 + v5.len();
    lemma_matches_split(s, q5, l6, r6);
    let p6 = q5 + l6.len();
    lemma_matches_split(s, p6, v6, l7);
    lemma_parse_string_render(s, p6, n.updated_at);
}

/// The renderings of the notes of the document, separated by commas.
pub open spec fn render_note_items(a: Seq<NoteModel>) -> Seq<char>
    decreases a.len(),
{
    if a.len() == 0 {
        Seq::empty()
    } else if a.len() == 1 {
        render_note(a[0])
    } else {
        render_note(a[0]) + ", "@ + render_note_items(a.drop_first())
    }
}

/// The rendering of the notes document: a JSON array of notes.
pub open spec fn render_notes_doc(a: Seq<NoteModel>) -> Seq<char> {
    if a.len() == 0 {
        "[]"@
    } else {
        "["@ + render_note_items(a) + "]"@
    }
}

/// Consumes the notes of a non-empty document up to and including the
/// closing bracket.
pub open spec fn parse_note_items(s: Seq<char>, i: int) -> Option<(Seq<NoteModel>, int)>
    decreases s.len() - i,
{
    match parse_note(s, i) {
        None => None,
        Some((n, j)) => {
            if matches_at(s, ", "@, j) && j + 2 <= s.len() {
                proof {
                    lemma_parse_note_bounds(s, i);
                }
                match parse_note_items(s, j + 2) {
                    None => None,
                    Some((rest, e)) => Some((seq![n] + rest, e)),
                }
            } else if j < s.len() && s[j] == ']' {
                Some((seq![n], j + 1))
            } else {
                None
            }
        },
    }
}

/// Consumes the notes document.
pub open spec fn parse_notes_doc(s: Seq<char>, i: int) -> Option<(Seq<NoteModel>, int)> {
    if matches_at(s, "[]"@, i) {
        Some((Seq::empty(), i + 2))
    } else {
        match parse_lit(s, i, "["@) {
            None => None,
            Some(j) => parse_note_items(s, j),
        }
    }
}

/// Parsing the rendered notes of a non-empty document gives them back.
#[verifier::rlimit(100)]
#[verifier::spinoff_prover]
pub proof fn lemma_parse_note_items_render(s: Seq<char>, i: int, a: Seq<NoteModel>)
    requires
        a.len() >= 1,
        matches_at(s, render_note_items(a), i),
        i + render_note_items(a).len() < s.len(),
        s[i + render_note_items(a).len()] == ']',
    ensures
        parse_note_items(s, i) == Some((a, i + render_note_items(a).len() + 1)),
    decreases a.len(),
{
    reveal_strlit(", ");
    if a.len() == 1 {
        lemma_parse_note_render(s, i, a[0]);
        let j = i + render_note(a[0]).len();
        assert(!matches_at(s, ", "@, j)) by {
            if matches_at(s, ", "@, j) {
                assert(s.subrange(j, j + 2)[0] == ", "@[0]);
            }
        }
        assert(seq![a[0]] =~= a);
    } else {
        let head = render_note(a[0]);
        let tail = render_note_items(a.drop_first());
        assert(render_note_items(a) =~= head + (", "@ + tail));
        lemma_matches_split(s, i, head, ", "@ + tail);
        lemma_matches_split(s, i + head.len(), ", "@, tail);
        lemma_parse_note_render(s, i, a[0]);
        let j = i + head.len();
        lemma_parse_note_items_render(s, j + 2, a.drop_first());
        assert(seq![a[0]] + a.drop_first() =~= a);
    }
}

/// Parsing the rendering of a notes document gives it back.
#[verifier::rlimit(100)]
#[verifier::spinoff_prover]
pub proof fn lemma_parse_notes_doc_render(s: Seq<char>, i: int, a: Seq<NoteModel>)
    requires
        matches_at(s, render_notes_doc(a), i),
    ensures
        parse_notes_doc(s, i) == Some((a, i + render_notes_doc(a).len())),
{
    reveal_strlit("[]");
    reveal_strlit("[");
    reveal_strlit("]");
    reveal_strlit("{\"game_id\": ");
    if a.len() == 0 {
        assert(a =~= Seq::<NoteModel>::empty());
    } else {
        let items = render_note_items(a);
        assert(render_notes_doc(a) =~= "["@ + (items + "]"@));
        lemma_matches_split(s, i, "["@, items + "]"@);
        lemma_matches_split(s, i + 1, items, "]"@);
        assert(render_note(a[0])[0] == '{') by {
            assert(render_note(a[0]) =~= "{\"game_id\": "@ + (render_opt_string(a[0].game_id)
                + ", \"game_name\": "@ + render_opt_string(a[0].game_name) + ", \"title\": "@
                + render_string(a[0].title) + ", \"content\": "@ + render_string(a[0].content)
                + ", \"created_at\": "@ + render_string(a[0].created_at) + ", \"updated_at\": "@
                + render_string(a[0].updated_at) + "}"@));
            assert(render_note(a[0])[0] == "{\"game_id\": "@[0]);
        }
        assert(items.len() >= 1 && items[0] == '{') by {
            if a.len() == 1 {
                assert(items == render_note(a[0]));
            } else {
                assert(items == render_note(a[0]) + ", "@ + render_note_items(a.drop_first()));
                assert(items[0] == render_note(a[0])[0]);
            }
        }
        assert(s[i + 1] == '{') by {
            assert(s.subrange(i + 1, i + 1 + items.len() as int)[0] == items[0]);
        }
        assert(!matches_at(s, "[]"@, i)) by {
            if matches_at(s, "[]"@, i) {
                assert(s.subrange(i, i + 2)[1] == "[]"@[1]);
                assert(s.subrange(i + 1, i + 1 + items.len() as int)[0] == items[0]);
            }
        }
        let e = i + 1 + items.len();
        assert(s[e] == ']') by {
            assert(s.subrange(e, e + 1)[0] == "]"@[0]);
        }
        lemma_parse_note_items_render(s, i + 1, a);
    }
}

// ---------------------------------------------------------------
// the legacy notes shape
// ---------------------------------------------------------------

/// Consumes one note in the deprecated shape keyed by a game path,
/// converting it to the current shape: the path is dropped, as the
/// migration never had an id to map it to.
pub open spec fn parse_legacy_note(s: Seq<char>, i: int) -> Option<(NoteModel, int)> {
    match parse_lit(s, i, "{\"game_path\": "@) {
        None => None,
        Some(p) => match parse_opt_string(s, p) {
            None => None,
            Some((_game_path, p)) => match parse_lit(s, p, ", \"title\": "@) {
                None => None,
                Some(p) => match parse_string(s, p) {
                    None => None,
                    Some((title, p)) => match parse_lit(s, p, ", \"content\": "@) {
                        None => None,
                        Some(p) => match parse_string(s, p) {
                            None => None,
                            Some((content, p)) => match parse_lit(s, p, ", \"created_at\": "@) {
                                None => None,
                                Some(p) => match parse_string(s, p) {
                                    None => None,
                                    Some((created_at, p)) => match parse_lit(
                                        s,
                                        p,
                                        ", \"updated_at\": "@,
                                    ) {
                                        None => None,
                                        Some(p) => match parse_string(s, p) {
                                            None => None,
                                            Some((updated_at, p)) => match parse_lit(s, p, "}"@) {
                                                None => None,
                                                Some(p) => Some(
                                                    (
                                                        NoteModel {
                                                            game_id: None,
                                                            game_name: None,
                                                            title,
                                                            content,
                                                            created_at,
                                                            updated_at,
                                                        },
                                                        p,
                                                    ),
                                                ),
                                            },
                                        },
                                    },
                                },
                            },
                        },
                    },
                },
            },
        },
    }
}

/// A successful legacy-note parse ends after its start, within bounds.
pub proof fn lemma_parse_legacy_note_bounds(s: Seq<char>, i: int)
    ensures
        parse_legacy_note(s, i) matches Some((n, j)) ==> i < j <= s.len(),
{
    match parse_lit(s, i, "{\"game_path\": "@) {
        None => {},
        Some(p1) => {
            lemma_parse_opt_string_bounds(s, p1);
            match parse_opt_string(s, p1) {
                None => {},
                Some((_gp, q1)) => {
                    match parse_lit(s, q1, ", \"title\": "@) {
                        None => {},
                        Some(p2) => {
                            lemma_parse_string_advances(s, p2);
                            match parse_string(s, p2) {
                                None => {},
                                Some((_t, q2)) => {
                                    match parse_lit(s, q2, ", \"content\": "@) {
                                        None => {},
                                        Some(p3) => {
                                            lemma_parse_string_advances(s, p3);
                                            match parse_string(s, p3) {
                                                None => {},
                                                Some((_c, q3)) => {
                                                    match parse_lit(s, q3, ", \"created_at\": "@) {
                                                        None => {},
                                                        Some(p4) => {
                                                            lemma_parse_string_advances(s, p4);
                                                            match parse_string(s, p4) {
                                                                None => {},
                                                                Some((_ca, q4)) => {
                                                                    match parse_lit(
                                                                        s,
                                                                        q4,
                                                                        ", \"updated_at\": "@,
                                                                    ) {
                                                                        None => {},
                                                                        Some(p5) => {
                                                                            lemma_parse_string_advances(
                                                                                s,
                                                                                p5,
                                                                            );
                                                                        },
                                                                    }
                                                                },
                                                            }
                                                        },
                                                    }
                                                },
                                            }
                                        },
                                    }
                                },
                            }
                        },
                    }
                },
            }
        },
    }
}

/// Consumes the legacy notes of a non-empty document up to and
/// including the closing bracket.
pub open spec fn parse_legacy_note_items(s: Seq<char>, i: int) -> Option<(Seq<NoteModel>, int)>
    decreases s.len() - i,
{
    match parse_legacy_note(s, i) {
        None => None,
        Some((n, j)) => {
            if matches_at(s, ", "@, j) && j + 2 <= s.len() {
                proof {
                    lemma_parse_legacy_note_bounds(s, i);
                }
                match parse_legacy_note_items(s, j + 2) {
                    None => None,
                    Some((rest, e)) => Some((seq![n] + rest, e)),
                }
            } else if j < s.len() && s[j] == ']' {
                Some((seq![n], j + 1))
            } else {
                None
            }
        },
    }
}

/// Consumes a notes document in the deprecated shape.
pub open spec fn parse_legacy_notes_doc(s: Seq<char>, i: int) -> Option<(Seq<NoteModel>, int)> {
    if matches_at(s, "[]"@, i) {
        Some((Seq::empty(), i + 2))
    } else {
        match parse_lit(s, i, "["@) {
            None => None,
            Some(j) => parse_legacy_note_items(s, j),
        }
    }
}

// ---------------------------------------------------------------
// executable rendering of the documents
// ---------------------------------------------------------------

/// Appends the rendering of one catalog entry.
#[verifier::rlimit(100)]
#[verifier::spinoff_prover]
pub fn push_entry(out: &mut Vec<char>, e: &GameEntry)
    ensures
        final(out)@ == old(out)@ + render_entry(e@),
{
    push_str_chars(out, "{\"name\": ");
    push_json_string(out, &e.name);
    push_str_chars(out, ", \"path\": ");
    push_json_string(out, &e.path);
    push_str_chars(out, ", \"image\": ");
    push_opt_string(out, &e.image);
    push_str_chars(out, ", \"image_url\": ");
    push_opt_string(out, &e.image_url);
    push_str_chars(out, ", \"subject_id\": ");
    push_opt_i64(out, e.subject_id);
    push_str_chars(out, ", \"playtime\": ");
    push_decimal_i64(out, e.playtime);
    push_str_chars(out, ", \"last_played\": ");
    push_opt_string(out, &e.last_played);
    push_str_chars(out, ", \"folder_path\": ");
    push_opt_str_array(out, &e.folder_path);
    push_str_chars(out, ", \"tags\": ");
    push_str_array(out, &e.tags);
    push_str_chars(out, "}");
    proof {
        assert(out@ =~= old(out)@ + render_entry(e@));
    }
}

/// Comma-separated entries distribute over splitting the entry list.
pub proof fn lemma_entry_items_concat(x: Seq<GameEntryModel>, y: Seq<GameEntryModel>)
    requires
        x.len() > 0,
        y.len() > 0,
    ensures
        render_entry_items(x + y) == render_entry_items(x) + ", "@ + render_entry_items(y),
    decreases x.len(),
{
    let xy = x + y;
    assert(xy.len() >= 2);
    assert(xy[0] == x[0]);
    if x.len() == 1 {
        assert(xy.drop_first() =~= y);
    } else {
        assert(xy.drop_first() =~= x.drop_first() + y);
        lemma_entry_items_concat(x.drop_first(), y);
        assert(render_entry(x[0]) + ", "@ + (render_entry_items(x.drop_first()) + ", "@
            + render_entry_items(y)) =~= (render_entry(x[0]) + ", "@ + render_entry_items(
            x.drop_first(),
        )) + ", "@ + render_entry_items(y));
    }
}

/// Appends the rendering of an array of catalog entries.
pub fn push_entry_array(out: &mut Vec<char>, a: &Vec<GameEntry>)
    ensures
        final(out)@ == old(out)@ + render_entry_array(a.deep_view()),
{
    let n = a.len();
    if n == 0 {
        push_str_chars(out, "[]");
        return ;
    }
    push_str_chars(out, "[");
    push_entry(out, &a[0]);
    proof {
        assert(a.deep_view().subrange(0, 1) =~= seq![a.deep_view()[0]]);
        assert(render_entry_items(a.deep_view().subrange(0, 1)) == render_entry(
            a.deep_view()[0],
        ));
        assert(out@ =~= old(out)@ + "["@ + render_entry_items(a.deep_view().subrange(0, 1)));
    }
    let mut k: usize = 1;
    while k < n
        invariant
            1 <= k <= n == a@.len(),
            out@ == old(out)@ + "["@ + render_entry_items(a.deep_view().subrange(0, k as int)),
        decreases n - k,
    {
        push_str_chars(out, ", ");
        push_entry(out, &a[k]);
        k = k + 1;
        proof {
            let pre = a.deep_view().subrange(0, k - 1);
            let single = a.deep_view().subrange(k - 1, k as int);
            let post = a.deep_view().subrange(0, k as int);
            assert(post =~= pre + single);
            assert(single =~= seq![a.deep_view()[k - 1]]);
            assert(render_entry_items(single) == render_entry(a.deep_view()[k - 1]));
            lemma_entry_items_concat(pre, single);
            assert(out@ =~= old(out)@ + "["@ + render_entry_items(post));
        }
    }
    proof {
        assert(a.deep_view().subrange(0, n as int) =~= a.deep_view());
    }
    push_str_chars(out, "]");
    proof {
        assert(out@ =~= old(out)@ + render_entry_array(a.deep_view()));
    }
}

/// Appends the rendering of the whole games library.
pub fn push_games_db(out: &mut Vec<char>, db: &GamesDB)
    ensures
        final(out)@ == old(out)@ + render_games_db(db@),
{
    push_str_chars(out, "{\n  \"games\": ");
    push_entry_array(out, &db.games);
    push_str_chars(out, ",\n  \"custom_tags\": ");
    push_str_array(out, &db.custom_tags);
    push_str_chars(out, "\n}");
    proof {
        assert(out@ =~= old(out)@ + render_games_db(db@));
    }
}

/// Appends the rendering of a token document.
pub fn push_token_doc(out: &mut Vec<char>, o: &Option<String>)
    ensures
        final(out)@ == old(out)@ + render_token_doc(o.deep_view()),
{
    push_str_chars(out, "{\n  \"access_token\": ");
    push_opt_string(out, o);
    push_str_chars(out, "\n}");
    proof {
        assert(out@ =~= old(out)@ + render_token_doc(o.deep_view()));
    }
}

/// Appends the rendering of one tool shortcut.
pub fn push_tool(out: &mut Vec<char>, t: &ToolEntry)
    ensures
        final(out)@ == old(out)@ + render_tool(t@),
{
    push_str_chars(out, "{\"id\": ");
    push_json_string(out, &t.id);
    push_str_chars(out, ", \"name\": ");
    push_json_string(out, &t.name);
    push_str_chars(out, ", \"path\": ");
    push_json_string(out, &t.path);
    push_str_chars(out, "}");
    proof {
        assert(out@ =~= old(out)@ + render_tool(t@));
    }
}

/// Comma-separated tools distribute over splitting the tool list.
pub proof fn lemma_tool_items_concat(x: Seq<ToolEntryModel>, y: Seq<ToolEntryModel>)
    requires
        x.len() > 0,
        y.len() > 0,
    ensures
        render_tool_items(x + y) == render_tool_items(x) + ", "@ + render_tool_items(y),
    decreases x.len(),
{
    let xy = x + y;
    assert(xy[0] == x[0]);
    if x.len() == 1 {
        assert(xy.drop_first() =~= y);
    } else {
        assert(xy.drop_first() =~= x.drop_first() + y);
        lemma_tool_items_concat(x.drop_first(), y);
        assert(render_tool(x[0]) + ", "@ + (render_tool_items(x.drop_first()) + ", "@
            + render_tool_items(y)) =~= (render_tool(x[0]) + ", "@ + render_tool_items(
            x.drop_first(),
        )) + ", "@ + render_tool_items(y));
    }
}

/// Appends the rendering of the tools document.
pub fn push_tools_doc(out: &mut Vec<char>, a: &Vec<ToolEntry>)
    ensures
        final(out)@ == old(out)@ + render_tools_doc(a.deep_view()),
{
    let n = a.len();
    if n == 0 {
        push_str_chars(out, "[]");
        return ;
    }
    push_str_chars(out, "[");
    push_tool(out, &a[0]);
    proof {
        assert(a.deep_view().subrange(0, 1) =~= seq![a.deep_view()[0]]);
        assert(render_tool_items(a.deep_view().subrange(0, 1)) == render_tool(a.deep_view()[0]));
        assert(out@ =~= old(out)@ + "["@ + render_tool_items(a.deep_view().subrange(0, 1)));
    }
    let mut k: usize = 1;
    while k < n
        invariant
            1 <= k <= n == a@.len(),
            out@ == old(out)@ + "["@ + render_tool_items(a.deep_view().subrange(0, k as int)),
        decreases n - k,
    {
        push_str_chars(out, ", ");
        push_tool(out, &a[k]);
        k = k + 1;
        proof {
            let pre = a.deep_view().subrange(0, k - 1);
            let single = a.deep_view().subrange(k - 1, k as int);
            let post = a.deep_view().subrange(0, k as int);
            assert(post =~= pre + single);
            assert(single =~= seq![a.deep_view()[k - 1]]);
            assert(render_tool_items(single) == render_tool(a.deep_view()[k - 1]));
            lemma_tool_items_concat(pre, single);
            assert(out@ =~= old(out)@ + "["@ + render_tool_items(post));
        }
    }
    proof {
        assert(a.deep_view().subrange(0, n as int) =~= a.deep_view());
    }
    push_str_chars(out, "]");
    proof {
        assert(out@ =~= old(out)@ + render_tools_doc(a.deep_view()));
    }
}

/// Appends the rendering of one note.
#[verifier::rlimit(100)]
#[verifier::spinoff_prover]
pub fn push_note(out: &mut Vec<char>, n: &Note)
    ensures
        final(out)@ == old(out)@ + render_note(n@),
{
    push_str_chars(out, "{\"game_id\": ");
    push_opt_string(out, &n.game_id);
    push_str_chars(out, ", \"game_name\": ");
    push_opt_string(out, &n.game_name);
    push_str_chars(out, ", \"title\": ");
    push_json_string(out, &n.title);
    push_str_chars(out, ", \"content\": ");
    push_json_string(out, &n.content);
    push_str_chars(out, ", \"created_at\": ");
    push_json_string(out, &n.created_at);
    push_str_chars(out, ", \"updated_at\": ");
    push_json_string(out, &n.updated_at);
    push_str_chars(out, "}");
    proof {
        assert(out@ =~= old(out)@ + render_note(n@));
    }
}

/// Comma-separated notes distribute over splitting the note list.
pub proof fn lemma_note_items_concat(x: Seq<NoteModel>, y: Seq<NoteModel>)
    requires
        x.len() > 0,
        y.len() > 0,
    ensures
        render_note_items(x + y) == render_note_items(x) + ", "@ + render_note_items(y),
    decreases x.len(),
{
    let xy = x + y;
    assert(xy[0] == x[0]);
    if x.len() == 1 {
        assert(xy.drop_first() =~= y);
    } else {
        assert(xy.drop_first() =~= x.drop_first() + y);
        lemma_note_items_concat(x.drop_first(), y);
        assert(render_note(x[0]) + ", "@ + (render_note_items(x.drop_first()) + ", "@
            + render_note_items(y)) =~= (render_note(x[0]) + ", "@ + render_note_items(
            x.drop_first(),
        )) + ", "@ + render_note_items(y));
    }
}

/// Appends the rendering of the notes document.
pub fn push_notes_doc(out: &mut Vec<char>, a: &Vec<Note>)
    ensures
        final(out)@ == old(out)@ + render_notes_doc(a.deep_view()),
{
    let n = a.len();
    if n == 0 {
        push_str_chars(out, "[]");
        return ;
    }
    push_str_chars(out, "[");
    push_note(out, &a[0]);
    proof {
        assert(a.deep_view().subrange(0, 1) =~= seq![a.deep_view()[0]]);
        assert(render_note_items(a.deep_view().subrange(0, 1)) == render_note(a.deep_view()[0]));
        assert(out@ =~= old(out)@ + "["@ + render_note_items(a.deep_view().subrange(0, 1)));
    }
    let mut k: usize = 1;
    while k < n
        invariant
            1 <= k <= n == a@.len(),
            out@ == old(out)@ + "["@ + render_note_items(a.deep_view().subrange(0, k as int)),
        decreases n - k,
    {
        push_str_chars(out, ", ");
        push_note(out, &a[k]);
        k = k + 1;
        proof {
            let pre = a.deep_view().subrange(0, k - 1);
            let single = a.deep_view().subrange(k - 1, k as int);
            let post = a.deep_view().subrange(0, k as int);
            assert(post =~= pre + single);
            assert(single =~= seq![a.deep_view()[k - 1]]);
            assert(render_note_items(single) == render_note(a.deep_view()[k - 1]));
            lemma_note_items_concat(pre, single);
            assert(out@ =~= old(out)@ + "["@ + render_note_items(post));
        }
    }
    proof {
        assert(a.deep_view().subrange(0, n as int) =~= a.deep_view());
    }
    push_str_chars(out, "]");
    proof {
        assert(out@ =~= old(out)@ + render_notes_doc(a.deep_view()));
    }
}

// ---------------------------------------------------------------
// executable parsing of the documents
// ---------------------------------------------------------------

/// Consumes one catalog entry.
#[verifier::rlimit(100)]
#[verifier::spinoff_prover]
pub fn parse_entry_exec(s: &Vec<char>, i: usize) -> (r: Option<(GameEntry, usize)>)
    ensures
        match r {
            Some((e, j)) => parse_entry(s@, i as int) == Some((e@, j as int)) && i < j <= s@.len(),
            None => parse_entry(s@, i as int) is None,
        },
{
    let p = match parse_lit_exec(s, i, "{\"name\": ") {
        None => {
            return None;
        },
        Some(p) => p,
    };
    let (name, p) = match parse_string_exec(s, p) {
        None => {
            return None;
        },
        Some(x) => x,
    };
    let p = match parse_lit_exec(s, p, ", \"path\": ") {
        None => {
            return None;
        },
        Some(p) => p,
    };
    let (path, p) = match parse_string_exec(s, p) {
        None => {
            return None;
        },
        Some(x) => x,
    };
    let p = match parse_lit_exec(s, p, ", \"image\": ") {
        None => {
            return None;
        },
        Some(p) => p,
    };
    let (image, p) = match parse_opt_string_exec(s, p) {
        None => {
            return None;
        },
        Some(x) => x,
    };
    let p = match parse_lit_exec(s, p, ", \"image_url\": ") {
        None => {
            return None;
        },
        Some(p) => p,
    };
    let (image_url, p) = match parse_opt_string_exec(s, p) {
        None => {
            return None;
        },
        Some(x) => x,
    };
    let p = match parse_lit_exec(s, p, ", \"subject_id\": ") {
        None => {
            return None;
        },
        Some(p) => p,
    };
    let (subject_id, p) = match parse_opt_i64_exec(s, p) {
        None => {
            return None;
        },
        Some(x) => x,
    };
    let p = match parse_lit_exec(s, p, ", \"playtime\": ") {
        None => {
            return None;
        },
        Some(p) => p,
    };
    let (playtime, p) = match parse_i64_exec(s, p) {
        None => {
            return None;
        },
        Some(x) => x,
    };
    let p = match parse_lit_exec(s, p, ", \"last_played\": ") {
        None => {
            return None;
        },
        Some(p) => p,
    };
    let (last_played, p) = match parse_opt_string_exec(s, p) {
        None => {
            return None;
        },
        Some(x) => x,
    };
    let p = match parse_lit_exec(s, p, ", \"folder_path\": ") {
        None => {
            return None;
        },
        Some(p) => p,
    };
    let (folder_path, p) = match parse_opt_str_array_exec(s, p) {
        None => {
            return None;
        },
        Some(x) => x,
    };
    let p = match parse_lit_exec(s, p, ", \"tags\": ") {
        None => {
            return None;
        },
        Some(p) => p,
    };
    let (tags, p) = match parse_str_array_exec(s, p) {
        None => {
            return None;
        },
        Some(x) => x,
    };
    let p = match parse_lit_exec(s, p, "}") {
        None => {
            return None;
        },
        Some(p) => p,
    };
    let e = GameEntry { name, path, image, image_url, subject_id, playtime, last_played, folder_path, tags };
    proof {
        lemma_parse_entry_bounds(s@, i as int);
    }
    Some((e, p))
}

/// Consumes an array of catalog entries.
pub fn parse_entry_array_exec(s: &Vec<char>, i: usize) -> (r: Option<(Vec<GameEntry>, usize)>)
    ensures
        match r {
            Some((v, j)) => parse_entry_array(s@, i as int) == Some((v.deep_view(), j as int)) && i
                < j <= s@.len(),
            None => parse_entry_array(s@, i as int) is None,
        },
{
    proof {
        reveal_strlit("[]");
        reveal_strlit("[");
    }
    match parse_lit_exec(s, i, "[]") {
        Some(j) => {
            let empty: Vec<GameEntry> = Vec::new();
            proof {
                assert(empty.deep_view() =~= Seq::<GameEntryModel>::empty());
            }
            return Some((empty, j));
        },
        None => {},
    }
    let start = match parse_lit_exec(s, i, "[") {
        None => {
            return None;
        },
        Some(j) => j,
    };
    let mut acc: Vec<GameEntry> = Vec::new();
    let mut cur: usize = start;
    proof {
        assert(acc.deep_view() =~= Seq::<GameEntryModel>::empty());
    }
    loop
        invariant
            i < start <= cur <= s@.len(),
            parse_entry_array(s@, i as int) == (match parse_entry_items(s@, cur as int) {
                Some((rest, e)) => Some(((acc.deep_view() + rest), e)),
                None => None::<(Seq<GameEntryModel>, int)>,
            }),
        decreases s@.len() - cur,
    {
        let item = match parse_entry_exec(s, cur) {
            None => {
                return None;
            },
            Some(p) => p,
        };
        let v = item.0;
        let nx = item.1;
        proof {
            reveal_strlit(", ");
            reveal_strlit("]");
        }
        match parse_lit_exec(s, nx, ", ") {
            Some(k) => {
                let ghost acc0 = acc.deep_view();
                let ghost vm = v@;
                acc.push(v);
                proof {
                    assert(acc.deep_view() =~= acc0.push(vm));
                    assert forall|rest: Seq<GameEntryModel>, e: int|
                        parse_entry_items(s@, k as int) == Some((rest, e)) implies acc0 + (
                    seq![vm] + rest) =~= acc.deep_view() + rest by {}
                }
                cur = k;
            },
            None => {
                if nx < s.len() && s[nx] == ']' {
                    proof {
                        assert(parse_entry_items(s@, cur as int) == Some((seq![v@], nx + 1 as int)));
                        let acc0 = acc.deep_view();
                        assert(acc0 + seq![v@] =~= acc0.push(v@));
                    }
                    let ghost acc0 = acc.deep_view();
                    let ghost vm = v@;
                    acc.push(v);
                    proof {
                        assert(acc.deep_view() =~= acc0.push(vm));
                    }
                    return Some((acc, nx + 1));
                } else {
                    proof {
                        assert(parse_entry_items(s@, cur as int) is None);
                    }
                    return None;
                }
            },
        }
    }
}

/// Consumes the whole games library.
pub fn parse_games_db_exec(s: &Vec<char>, i: usize) -> (r: Option<(GamesDB, usize)>)
    ensures
        match r {
            Some((db, j)) => parse_games_db(s@, i as int) == Some((db@, j as int)) && j <= s@.len(),
            None => parse_games_db(s@, i as int) is None,
        },
{
    let p = match parse_lit_exec(s, i, "{\n  \"games\": ") {
        None => {
            return None;
        },
        Some(p) => p,
    };
    let (games, p) = match parse_entry_array_exec(s, p) {
        None => {
            return None;
        },
        Some(x) => x,
    };
    let p = match parse_lit_exec(s, p, ",\n  \"custom_tags\": ") {
        None => {
            return None;
        },
        Some(p) => p,
    };
    let (custom_tags, p) = match parse_str_array_exec(s, p) {
        None => {
            return None;
        },
        Some(x) => x,
    };
    let p = match parse_lit_exec(s, p, "\n}") {
        None => {
            return None;
        },
        Some(p) => p,
    };
    Some((GamesDB { games, custom_tags }, p))
}

/// Consumes a token document.
pub fn parse_token_doc_exec(s: &Vec<char>, i: usize) -> (r: Option<(Option<String>, usize)>)
    ensures
        match r {
            Some((o, j)) => parse_token_doc(s@, i as int) == Some((o.deep_view(), j as int)) && j
                <= s@.len(),
            None => parse_token_doc(s@, i as int) is None,
        },
{
    let p = match parse_lit_exec(s, i, "{\n  \"access_token\": ") {
        None => {
            return None;
        },
        Some(p) => p,
    };
    let (o, p) = match parse_opt_string_exec(s, p) {
        None => {
            return None;
        },
        Some(x) => x,
    };
    let p = match parse_lit_exec(s, p, "\n}") {
        None => {
            return None;
        },
        Some(p) => p,
    };
    Some((o, p))
}

/// Consumes one tool shortcut.
pub fn parse_tool_exec(s: &Vec<char>, i: usize) -> (r: Option<(ToolEntry, usize)>)
    ensures
        match r {
            Some((t, j)) => parse_tool(s@, i as int) == Some((t@, j as int)) && i < j <= s@.len(),
            None => parse_tool(s@, i as int) is None,
        },
{
    let p = match parse_lit_exec(s, i, "{\"id\": ") {
        None => {
            return None;
        },
        Some(p) => p,
    };
    let (id, p) = match parse_string_exec(s, p) {
        None => {
            return None;
        },
        Some(x) => x,
    };
    let p = match parse_lit_exec(s, p, ", \"name\": ") {
        None => {
            return None;
        },
        Some(p) => p,
    };
    let (name, p) = match parse_string_exec(s, p) {
        None => {
            return None;
        },
        Some(x) => x,
    };
    let p = match parse_lit_exec(s, p, ", \"path\": ") {
        None => {
            return None;
        },
        Some(p) => p,
    };
    let (path, p) = match parse_string_exec(s, p) {
        None => {
            return None;
        },
        Some(x) => x,
    };
    let p = match parse_lit_exec(s, p, "}") {
        None => {
            return None;
        },
        Some(p) => p,
    };
    proof {
        lemma_parse_tool_bounds(s@, i as int);
    }
    Some((ToolEntry { id, name, path }, p))
}

/// Consumes the tools document.
pub fn parse_tools_doc_exec(s: &Vec<char>, i: usize) -> (r: Option<(Vec<ToolEntry>, usize)>)
    ensures
        match r {
            Some((v, j)) => parse_tools_doc(s@, i as int) == Some((v.deep_view(), j as int)) && i
                < j <= s@.len(),
            None => parse_tools_doc(s@, i as int) is None,
        },
{
    proof {
        reveal_strlit("[]");
        reveal_strlit("[");
    }
    match parse_lit_exec(s, i, "[]") {
        Some(j) => {
            let empty: Vec<ToolEntry> = Vec::new();
            proof {
                assert(empty.deep_view() =~= Seq::<ToolEntryModel>::empty());
            }
            return Some((empty, j));
        },
        None => {},
    }
    let start = match parse_lit_exec(s, i, "[") {
        None => {
            return None;
        },
        Some(j) => j,
    };
    let mut acc: Vec<ToolEntry> = Vec::new();
    let mut cur: usize = start;
    proof {
        assert(acc.deep_view() =~= Seq::<ToolEntryModel>::empty());
    }
    loop
        invariant
            i < start <= cur <= s@.len(),
            parse_tools_doc(s@, i as int) == (match parse_tool_items(s@, cur as int) {
                Some((rest, e)) => Some(((acc.deep_view() + rest), e)),
                None => None::<(Seq<ToolEntryModel>, int)>,
            }),
        decreases s@.len() - cur,
    {
        let item = match parse_tool_exec(s, cur) {
            None => {
                return None;
            },
            Some(p) => p,
        };
        let v = item.0;
        let nx = item.1;
        proof {
            reveal_strlit(", ");
            reveal_strlit("]");
        }
        match parse_lit_exec(s, nx, ", ") {
            Some(k) => {
                let ghost acc0 = acc.deep_view();
                let ghost vm = v@;
                acc.push(v);
                proof {
                    assert(acc.deep_view() =~= acc0.push(vm));
                    assert forall|rest: Seq<ToolEntryModel>, e: int|
                        parse_tool_items(s@, k as int) == Some((rest, e)) implies acc0 + (seq![vm]
                        + rest) =~= acc.deep_view() + rest by {}
                }
                cur = k;
            },
            None => {
                if nx < s.len() && s[nx] == ']' {
                    proof {
                        assert(parse_tool_items(s@, cur as int) == Some((seq![v@], nx + 1 as int)));
                        let acc0 = acc.deep_view();
                        assert(acc0 + seq![v@] =~= acc0.push(v@));
                    }
                    let ghost acc0 = acc.deep_view();
                    let ghost vm = v@;
                    acc.push(v);
                    proof {
                        assert(acc.deep_view() =~= acc0.push(vm));
                    }
                    return Some((acc, nx + 1));
                } else {
                    proof {
                        assert(parse_tool_items(s@, cur as int) is None);
                    }
                    return None;
                }
            },
        }
    }
}

/// Consumes one note.
#[verifier::rlimit(100)]
#[verifier::spinoff_prover]
pub fn parse_note_exec(s: &Vec<char>, i: usize) -> (r: Option<(Note, usize)>)
    ensures
        match r {
            Some((n, j)) => parse_note(s@, i as int) == Some((n@, j as int)) && i < j <= s@.len(),
            None => parse_note(s@, i as int) is None,
        },
{
    let p = match parse_lit_exec(s, i, "{\"game_id\": ") {
        None => {
            return None;
        },
        Some(p) => p,
    };
    let (game_id, p) = match parse_opt_string_exec(s, p) {
        None => {
            return None;
        },
        Some(x) => x,
    };
    let p = match parse_lit_exec(s, p, ", \"game_name\": ") {
        None => {
            return None;
        },
        Some(p) => p,
    };
    let (game_name, p) = match parse_opt_string_exec(s, p) {
        None => {
            return None;
        },
        Some(x) => x,
    };
    let p = match parse_lit_exec(s, p, ", \"title\": ") {
        None => {
            return None;
        },
        Some(p) => p,
    };
    let (title, p) = match parse_string_exec(s, p) {
        None => {
            return None;
        },
        Some(x) => x,
    };
    let p = match parse_lit_exec(s, p, ", \"content\": ") {
        None => {
            return None;
        },
        Some(p) => p,
    };
    let (content, p) = match parse_string_exec(s, p) {
        None => {
            return None;
        },
        Some(x) => x,
    };
    let p = match parse_lit_exec(s, p, ", \"created_at\": ") {
        None => {
            return None;
        },
        Some(p) => p,
    };
    let (created_at, p) = match parse_string_exec(s, p) {
        None => {
            return None;
        },
        Some(x) => x,
    };
    let p = match parse_lit_exec(s, p, ", \"updated_at\": ") {
        None => {
            return None;
        },
        Some(p) => p,
    };
    let (updated_at, p) = match parse_string_exec(s, p) {
        None => {
            return None;
        },
        Some(x) => x,
    };
    let p = match parse_lit_exec(s, p, "}") {
        None => {
            return None;
        },
        Some(p) => p,
    };
    proof {
        lemma_parse_note_bounds(s@, i as int);
    }
    Some((Note { game_id, game_name, title, content, created_at, updated_at }, p))
}

/// Consumes one note in the deprecated shape keyed by a game path.
#[verifier::rlimit(100)]
#[verifier::spinoff_prover]
pub fn parse_legacy_note_exec(s: &Vec<char>, i: usize) -> (r: Option<(Note, usize)>)
    ensures
        match r {
            Some((n, j)) => parse_legacy_note(s@, i as int) == Some((n@, j as int)) && i < j
                <= s@.len(),
            None => parse_legacy_note(s@, i as int) is None,
        },
{
    let p = match parse_lit_exec(s, i, "{\"game_path\": ") {
        None => {
            return None;
        },
        Some(p) => p,
    };
    let (_game_path, p) = match parse_opt_string_exec(s, p) {
        None => {
            return None;
        },
        Some(x) => x,
    };
    let p = match parse_lit_exec(s, p, ", \"title\": ") {
        None => {
            return None;
        },
        Some(p) => p,
    };
    let (title, p) = match parse_string_exec(s, p) {
        None => {
            return None;
        },
        Some(x) => x,
    };
    let p = match parse_lit_exec(s, p, ", \"content\": ") {
        None => {
            return None;
        },
        Some(p) => p,
    };
    let (content, p) = match parse_string_exec(s, p) {
        None => {
            return None;
        },
        Some(x) => x,
    };
    let p = match parse_lit_exec(s, p, ", \"created_at\": ") {
        None => {
            return None;
        },
        Some(p) => p,
    };
    let (created_at, p) = match parse_string_exec(s, p) {
        None => {
            return None;
        },
        Some(x) => x,
    };
    let p = match parse_lit_exec(s, p, ", \"updated_at\": ") {
        None => {
            return None;
        },
        Some(p) => p,
    };
    let (updated_at, p) = match parse_string_exec(s, p) {
        None => {
            return None;
        },
        Some(x) => x,
    };
    let p = match parse_lit_exec(s, p, "}") {
        None => {
            return None;
        },
        Some(p) => p,
    };
    proof {
        lemma_parse_legacy_note_bounds(s@, i as int);
    }
    Some(
        (
            Note {
                game_id: None,
                game_name: None,
                title,
                content,
                created_at,
                updated_at,
            },
            p,
        ),
    )
}

/// Consumes the notes document.
pub fn parse_notes_doc_exec(s: &Vec<char>, i: usize) -> (r: Option<(Vec<Note>, usize)>)
    ensures
        match r {
            Some((v, j)) => parse_notes_doc(s@, i as int) == Some((v.deep_view(), j as int)) && i
                < j <= s@.len(),
            None => parse_notes_doc(s@, i as int) is None,
        },
{
    proof {
        reveal_strlit("[]");
        reveal_strlit("[");
    }
    match parse_lit_exec(s, i, "[]") {
        Some(j) => {
            let empty: Vec<Note> = Vec::new();
            proof {
                assert(empty.deep_view() =~= Seq::<NoteModel>::empty());
            }
            return Some((empty, j));
        },
        None => {},
    }
    let start = match parse_lit_exec(s, i, "[") {
        None => {
            return None;
        },
        Some(j) => j,
    };
    let mut acc: Vec<Note> = Vec::new();
    let mut cur: usize = start;
    proof {
        assert(acc.deep_view() =~= Seq::<NoteModel>::empty());
    }
    loop
        invariant
            i < start <= cur <= s@.len(),
            parse_notes_doc(s@, i as int) == (match parse_note_items(s@, cur as int) {
                Some((rest, e)) => Some(((acc.deep_view() + rest), e)),
                None => None::<(Seq<NoteModel>, int)>,
            }),
        decreases s@.len() - cur,
    {
        let item = match parse_note_exec(s, cur) {
            None => {
                return None;
            },
            Some(p) => p,
        };
        let v = item.0;
        let nx = item.1;
        proof {
            reveal_strlit(", ");
            reveal_strlit("]");
        }
        match parse_lit_exec(s, nx, ", ") {
            Some(k) => {
                let ghost acc0 = acc.deep_view();
                let ghost vm = v@;
                acc.push(v);
                proof {
                    assert(acc.deep_view() =~= acc0.push(vm));
                    assert forall|rest: Seq<NoteModel>, e: int|
                        parse_note_items(s@, k as int) == Some((rest, e)) implies acc0 + (seq![vm]
                        + rest) =~= acc.deep_view() + rest by {}
                }
                cur = k;
            },
            None => {
                if nx < s.len() && s[nx] == ']' {
                    proof {
                        assert(parse_note_items(s@, cur as int) == Some((seq![v@], nx + 1 as int)));
                        let acc0 = acc.deep_view();
                        assert(acc0 + seq![v@] =~= acc0.push(v@));
                    }
                    let ghost acc0 = acc.deep_view();
                    let ghost vm = v@;
                    acc.push(v);
                    proof {
                        assert(acc.deep_view() =~= acc0.push(vm));
                    }
                    return Some((acc, nx + 1));
                } else {
                    proof {
                        assert(parse_note_items(s@, cur as int) is None);
                    }
                    return None;
                }
            },
        }
    }
}

/// Consumes a notes document in the deprecated shape.
pub fn parse_legacy_notes_doc_exec(s: &Vec<char>, i: usize) -> (r: Option<(Vec<Note>, usize)>)
    ensures
        match r {
            Some((v, j)) => parse_legacy_notes_doc(s@, i as int) == Some((v.deep_view(), j as int))
                && i < j <= s@.len(),
            None => parse_legacy_notes_doc(s@, i as int) is None,
        },
{
    proof {
        reveal_strlit("[]");
        reveal_strlit("[");
    }
    match parse_lit_exec(s, i, "[]") {
        Some(j) => {
            let empty: Vec<Note> = Vec::new();
            proof {
                assert(empty.deep_view() =~= Seq::<NoteModel>::empty());
            }
            return Some((empty, j));
        },
        None => {},
    }
    let start = match parse_lit_exec(s, i, "[") {
        None => {
            return None;
        },
        Some(j) => j,
    };
    let mut acc: Vec<Note> = Vec::new();
    let mut cur: usize = start;
    proof {
        assert(acc.deep_view() =~= Seq::<NoteModel>::empty());
    }
    loop
        invariant
            i < start <= cur <= s@.len(),
            parse_legacy_notes_doc(s@, i as int) == (match parse_legacy_note_items(
                s@,
                cur as int,
            ) {
                Some((rest, e)) => Some(((acc.deep_view() + rest), e)),
                None => None::<(Seq<NoteModel>, int)>,
            }),
        decreases s@.len() - cur,
    {
        let item = match parse_legacy_note_exec(s, cur) {
            None => {
                return None;
            },
            Some(p) => p,
        };
        let v = item.0;
        let nx = item.1;
        proof {
            reveal_strlit(", ");
            reveal_strlit("]");
        }
        match parse_lit_exec(s, nx, ", ") {
            Some(k) => {
                let ghost acc0 = acc.deep_view();
                let ghost vm = v@;
                acc.push(v);
                proof {
                    assert(acc.deep_view() =~= acc0.push(vm));
                    assert forall|rest: Seq<NoteModel>, e: int|
                        parse_legacy_note_items(s@, k as int) == Some((rest, e)) implies acc0 + (
                    seq![vm] + rest) =~= acc.deep_view() + rest by {}
                }
                cur = k;
            },
            None => {
                if nx < s.len() && s[nx] == ']' {
                    proof {
                        assert(parse_legacy_note_items(s@, cur as int) == Some(
                            (seq![v@], nx + 1 as int),
                        ));
                        let acc0 = acc.deep_view();
                        assert(acc0 + seq![v@] =~= acc0.push(v@));
                    }
                    let ghost acc0 = acc.deep_view();
                    let ghost vm = v@;
                    acc.push(v);
                    proof {
                        assert(acc.deep_view() =~= acc0.push(vm));
                    }
                    return Some((acc, nx + 1));
                } else {
                    proof {
                        assert(parse_legacy_note_items(s@, cur as int) is None);
                    }
                    return None;
                }
            },
        }
    }
}

} // verus!
