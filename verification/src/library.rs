//! Domain rules of the games library: idempotent insert keyed by the
//! executable path, partial in-place updates, additive playtime, and
//! tag management with cascading removal.

use vstd::prelude::*;
use crate::models::{GameEntry, GameEntryModel, GamesDB};

verus! {

/// The failure taxonomy of the storage layer. Parse failures are
/// recovered internally and never surface through loads; they appear
/// here only for stores that refuse malformed documents outright.
#[derive(Debug, Clone, Copy, PartialEq, Eq, Structural)]
pub enum StoreError {
    /// Target path, process, entry or tool is absent.
    NotFound,
    /// Writer starvation: the lock marker could not be created within
    /// the retry budget.
    LockTimeout,
    /// A persisted document is malformed beyond recovery.
    ParseError,
    /// Disk failure on read, write or rename.
    IoError,
    /// A tag name was blank.
    EmptyTag,
    /// A tag name is already present.
    DuplicateTag,
}

impl StoreError {
    /// The user-visible message for this failure.
    pub fn message(&self) -> (r: String)
        ensures
            r@.len() > 0,
    {
        proof {
            reveal_strlit("not found");
            reveal_strlit("failed to acquire lock");
            reveal_strlit("parse error: invalid format");
            reveal_strlit("io error");
            reveal_strlit("tag name must not be empty");
            reveal_strlit("tag already exists");
        }
        match self {
            StoreError::NotFound => String::from_str("not found"),
            StoreError::LockTimeout => String::from_str("failed to acquire lock"),
            StoreError::ParseError => String::from_str("parse error: invalid format"),
            StoreError::IoError => String::from_str("io error"),
            StoreError::EmptyTag => String::from_str("tag name must not be empty"),
            StoreError::DuplicateTag => String::from_str("tag already exists"),
        }
    }
}

/// `k` is the first position in `games` whose entry has this path.
pub open spec fn is_first_match(games: Seq<GameEntryModel>, path: Seq<char>, k: int) -> bool {
    &&& 0 <= k < games.len()
    &&& games[k].path == path
    &&& forall|j: int| 0 <= j < k ==> games[j].path != path
}

/// The first position in `games` whose entry has this path.
pub open spec fn first_match_index(games: Seq<GameEntryModel>, path: Seq<char>) -> int {
    choose|k: int| is_first_match(games, path, k)
}

/// The first match is unique, so `first_match_index` returns it.
pub proof fn lemma_first_match_unique(games: Seq<GameEntryModel>, path: Seq<char>, k: int)
    requires
        is_first_match(games, path, k),
    ensures
        first_match_index(games, path) == k,
{
    let k2 = first_match_index(games, path);
    assert(is_first_match(games, path, k2));
}

/// Position of the first entry with this path, if any.
pub fn find_game_index(games: &Vec<GameEntry>, path: &String) -> (r: Option<usize>)
    ensures
        match r {
            Some(k) => is_first_match(games.deep_view(), path@, k as int),
            None => forall|j: int|
                0 <= j < games.deep_view().len() ==> games.deep_view()[j].path != path@,
        },
{
    let n = games.len();
    let mut i: usize = 0;
    while i < n
        invariant
            i <= n == games@.len(),
            forall|j: int| 0 <= j < i ==> games.deep_view()[j].path != path@,
        decreases n - i,
    {
        if games[i].path == *path {
            proof {
                assert(games.deep_view()[i as int].path == path@);
            }
            return Some(i);
        }
        i = i + 1;
    }
    None
}

/// Inserts an entry unless one with the same path is already present.
/// Insertion on a duplicate path is a no-op: the library is unchanged.
/// Returns whether the library changed (the caller persists it then).
pub fn add_game_entry(db: &mut GamesDB, entry: GameEntry) -> (added: bool)
    ensures
        added == !old(db)@.contains_path(entry@.path),
        added ==> final(db)@.games == old(db)@.games.push(entry@) && final(db)@.custom_tags
            == old(db)@.custom_tags,
        !added ==> final(db)@ == old(db)@,
{
    let dup = find_game_index(&db.games, &entry.path);
    match dup {
        Some(k) => {
            proof {
                assert(old(db)@.contains_path(entry@.path));
            }
            false
        },
        None => {
            proof {
                assert(!old(db)@.contains_path(entry@.path));
            }
            let ghost oldgames = db.games.deep_view();
            let ghost e = entry@;
            db.games.push(entry);
            proof {
                assert(db.games.deep_view() =~= oldgames.push(e));
            }
            true
        },
    }
}

/// A freshly imported entry: no cover image, no catalog id, no
/// playtime yet, no tags; the display name defaults to the executable's
/// file stem when none is supplied.
pub fn new_game_entry(path: String, name: Option<String>, folder_path: Option<Vec<String>>) -> (e:
    GameEntry)
    ensures
        e@.path == path@,
        e@.name == (match name {
            Some(n) => n@,
            None => crate::paths::default_game_name(path@),
        }),
        e@.image is None,
        e@.image_url is None,
        e@.subject_id is None,
        e@.playtime == 0,
        e@.last_played is None,
        e@.folder_path == folder_path.deep_view(),
        e@.tags == Seq::<Seq<char>>::empty(),
{
    let nm = match name {
        Some(n) => n,
        None => crate::paths::default_name_for_path(&path),
    };
    let e = GameEntry {
        name: nm,
        path,
        image: None,
        image_url: None,
        subject_id: None,
        playtime: 0,
        last_played: None,
        folder_path,
        tags: Vec::new(),
    };
    proof {
        assert(e@.tags =~= Seq::<Seq<char>>::empty());
    }
    e
}

/// The entry with the partial update of `update_game_info` applied:
/// each supplied field replaces the stored one, absent fields keep it.
pub open spec fn applied_info_update(
    m: GameEntryModel,
    name: Option<Seq<char>>,
    image: Option<Seq<char>>,
    image_url: Option<Seq<char>>,
    subject_id: Option<i64>,
) -> GameEntryModel {
    GameEntryModel {
        name: match name {
            Some(n) => n,
            None => m.name,
        },
        image: match image {
            Some(s) => Some(s),
            None => m.image,
        },
        image_url: match image_url {
            Some(s) => Some(s),
            None => m.image_url,
        },
        subject_id: match subject_id {
            Some(s) => Some(s),
            None => m.subject_id,
        },
        ..m
    }
}

/// Applies a partial metadata update to the first entry with this path
/// and returns the post-update snapshot. The caller persists the
/// library even if no field changed value.
pub fn update_game_info(
    db: &mut GamesDB,
    path: &String,
    name: Option<String>,
    image: Option<String>,
    image_url: Option<String>,
    subject_id: Option<i64>,
) -> (r: Result<GameEntry, StoreError>)
    ensures
        r is Ok <==> old(db)@.contains_path(path@),
        r is Err ==> final(db)@ == old(db)@ && r == Err::<GameEntry, StoreError>(
            StoreError::NotFound,
        ),
        r matches Ok(e) ==> {
            let k = first_match_index(old(db)@.games, path@);
            &&& is_first_match(old(db)@.games, path@, k)
            &&& e@ == applied_info_update(
                old(db)@.games[k],
                name.deep_view(),
                image.deep_view(),
                image_url.deep_view(),
                subject_id,
            )
            &&& final(db)@.games == old(db)@.games.update(k, e@)
            &&& final(db)@.custom_tags == old(db)@.custom_tags
        },
{
    let found = find_game_index(&db.games, path);
    match found {
        None => Err(StoreError::NotFound),
        Some(k) => {
            proof {
                lemma_first_match_unique(old(db)@.games, path@, k as int);
            }
            let mut g = db.games[k].clone();
            match name {
                Some(n) => {
                    g.name = n;
                },
                None => {},
            }
            match image {
                Some(s) => {
                    g.image = Some(s);
                },
                None => {},
            }
            match image_url {
                Some(s) => {
                    g.image_url = Some(s);
                },
                None => {},
            }
            match subject_id {
                Some(s) => {
                    g.subject_id = Some(s);
                },
                None => {},
            }
            let snapshot = g.clone();
            db.games.set(k, g);
            proof {
                assert(db.games.deep_view() =~= old(db)@.games.update(k as int, snapshot@));
            }
            Ok(snapshot)
        },
    }
}

/// Sets the local cover image of the first entry with this path.
pub fn update_game_image(db: &mut GamesDB, path: &String, image: &String) -> (r: Result<
    (),
    StoreError,
>)
    ensures
        r is Ok <==> old(db)@.contains_path(path@),
        r is Err ==> final(db)@ == old(db)@ && r == Err::<(), StoreError>(StoreError::NotFound),
        r is Ok ==> {
            let k = first_match_index(old(db)@.games, path@);
            &&& is_first_match(old(db)@.games, path@, k)
            &&& final(db)@.games == old(db)@.games.update(
                k,
                (GameEntryModel { image: Some(image@), ..old(db)@.games[k] }),
            )
            &&& final(db)@.custom_tags == old(db)@.custom_tags
        },
{
    let found = find_game_index(&db.games, path);
    match found {
        None => Err(StoreError::NotFound),
        Some(k) => {
            proof {
                lemma_first_match_unique(old(db)@.games, path@, k as int);
            }
            let mut g = db.games[k].clone();
            g.image = Some(image.clone());
            let ghost gm = g@;
            db.games.set(k, g);
            proof {
                assert(db.games.deep_view() =~= old(db)@.games.update(k as int, gm));
            }
            Ok(())
        },
    }
}

/// Adds to the stored playtime and advances the last-played timestamp
/// of the first entry with this path; returns the new total.
pub fn update_game_playtime(
    db: &mut GamesDB,
    path: &String,
    additional_seconds: i64,
    last_played: &String,
) -> (r: Result<i64, StoreError>)
    requires
        old(db)@.contains_path(path@) ==> i64::MIN <= old(db)@.games[
            first_match_index(old(db)@.games, path@)
        ].playtime + additional_seconds <= i64::MAX,
    ensures
        r is Ok <==> old(db)@.contains_path(path@),
        r is Err ==> final(db)@ == old(db)@ && r == Err::<i64, StoreError>(StoreError::NotFound),
        r matches Ok(total) ==> {
            let k = first_match_index(old(db)@.games, path@);
            &&& is_first_match(old(db)@.games, path@, k)
            &&& total == old(db)@.games[k].playtime + additional_seconds
            &&& final(db)@.games == old(db)@.games.update(
                k,
                (GameEntryModel {
                    playtime: total,
                    last_played: Some(last_played@),
                    ..old(db)@.games[k]
                }),
            )
            &&& final(db)@.custom_tags == old(db)@.custom_tags
        },
{
    let found = find_game_index(&db.games, path);
    match found {
        None => Err(StoreError::NotFound),
        Some(k) => {
            proof {
                lemma_first_match_unique(old(db)@.games, path@, k as int);
                assert(old(db)@.contains_path(path@));
            }
            let mut g = db.games[k].clone();
            g.playtime = g.playtime + additional_seconds;
            g.last_played = Some(last_played.clone());
            let total = g.playtime;
            let ghost gm = g@;
            db.games.set(k, g);
            proof {
                assert(db.games.deep_view() =~= old(db)@.games.update(k as int, gm));
            }
            Ok(total)
        },
    }
}

/// `games` without the entries that carry this path.
pub open spec fn without_path(games: Seq<GameEntryModel>, path: Seq<char>) -> Seq<
    GameEntryModel,
> {
    games.filter(|g: GameEntryModel| g.path != path)
}

/// Removes every entry with this path. Removal of an absent path
/// leaves the library unchanged and still succeeds.
pub fn remove_game(db: &mut GamesDB, path: &String)
    ensures
        final(db)@.games == without_path(old(db)@.games, path@),
        final(db)@.custom_tags == old(db)@.custom_tags,
{
    let n = db.games.len();
    let mut kept: Vec<GameEntry> = Vec::new();
    let mut i: usize = 0;
    proof {
        reveal(Seq::filter);
        assert(old(db)@.games.subrange(0, 0) =~= Seq::<GameEntryModel>::empty());
    }
    while i < n
        invariant
            i <= n == db.games@.len(),
            db.games.deep_view() == old(db)@.games,
            db.custom_tags == old(db).custom_tags,
            kept.deep_view() == without_path(old(db)@.games.subrange(0, i as int), path@),
        decreases n - i,
    {
        let keep = !(db.games[i].path == *path);
        if keep {
            kept.push(db.games[i].clone());
        }
        i = i + 1;
        proof {
            reveal(Seq::filter);
            let pre = old(db)@.games.subrange(0, i - 1);
            let post = old(db)@.games.subrange(0, i as int);
            assert(post.drop_last() =~= pre);
            assert(post.last() == old(db)@.games[i - 1]);
            if keep {
                assert(kept.deep_view() =~= without_path(post, path@));
            }
        }
    }
    proof {
        assert(old(db)@.games.subrange(0, n as int) =~= old(db)@.games);
    }
    db.games = kept;
}

/// `strings` without every occurrence of `x`.
pub open spec fn without_string(strings: Seq<Seq<char>>, x: Seq<char>) -> Seq<Seq<char>> {
    strings.filter(|t: Seq<char>| t != x)
}

/// Whether some string of `v` equals `s`.
pub fn vec_contains_string(v: &Vec<String>, s: &String) -> (r: bool)
    ensures
        r == v.deep_view().contains(s@),
{
    let n = v.len();
    let mut i: usize = 0;
    while i < n
        invariant
            i <= n == v@.len(),
            forall|j: int| 0 <= j < i ==> v.deep_view()[j] != s@,
        decreases n - i,
    {
        if v[i] == *s {
            proof {
                assert(v.deep_view()[i as int] == s@);
            }
            return true;
        }
        i = i + 1;
    }
    proof {
        assert(!v.deep_view().contains(s@));
    }
    false
}

/// A copy of `v` without every occurrence of `x`.
pub fn retain_strings(v: &Vec<String>, x: &String) -> (r: Vec<String>)
    ensures
        r.deep_view() == without_string(v.deep_view(), x@),
{
    let n = v.len();
    let mut kept: Vec<String> = Vec::new();
    let mut i: usize = 0;
    proof {
        reveal(Seq::filter);
        assert(v.deep_view().subrange(0, 0) =~= Seq::<Seq<char>>::empty());
    }
    while i < n
        invariant
            i <= n == v@.len(),
            kept.deep_view() == without_string(v.deep_view().subrange(0, i as int), x@),
        decreases n - i,
    {
        let keep = !(v[i] == *x);
        if keep {
            kept.push(v[i].clone());
        }
        i = i + 1;
        proof {
            reveal(Seq::filter);
            let pre = v.deep_view().subrange(0, i - 1);
            let post = v.deep_view().subrange(0, i as int);
            assert(post.drop_last() =~= pre);
            assert(post.last() == v.deep_view()[i - 1]);
            if keep {
                assert(kept.deep_view() =~= without_string(post, x@));
            }
        }
    }
    proof {
        assert(v.deep_view().subrange(0, n as int) =~= v.deep_view());
    }
    kept
}

/// The three tag names a fresh library is seeded with.
pub open spec fn default_tags() -> Seq<Seq<char>> {
    seq!["未玩"@, "正在玩"@, "已通关"@]
}

/// Returns all available tags, seeding the set with three defaults if
/// it was empty. The returned flag says whether the library changed
/// (the caller persists it then).
pub fn get_all_tags(db: &mut GamesDB) -> (r: (Vec<String>, bool))
    ensures
        final(db)@.games == old(db)@.games,
        r.1 == (old(db)@.custom_tags.len() == 0),
        r.1 ==> final(db)@.custom_tags == default_tags(),
        !r.1 ==> final(db)@ == old(db)@,
        r.0.deep_view() == final(db)@.custom_tags,
{
    if db.custom_tags.len() == 0 {
        let mut seeded: Vec<String> = Vec::new();
        seeded.push(String::from_str("未玩"));
        seeded.push(String::from_str("正在玩"));
        seeded.push(String::from_str("已通关"));
        proof {
            assert(seeded.deep_view() =~= default_tags());
        }
        db.custom_tags = seeded;
        let copy = clone_strings(&db.custom_tags);
        (copy, true)
    } else {
        let copy = clone_strings(&db.custom_tags);
        (copy, false)
    }
}

/// An element-wise copy of a vector of strings.
pub fn clone_strings(v: &Vec<String>) -> (r: Vec<String>)
    ensures
        r.deep_view() == v.deep_view(),
{
    let n = v.len();
    let mut r: Vec<String> = Vec::new();
    let mut i: usize = 0;
    proof {
        assert(r@ =~= v@.subrange(0, 0));
    }
    while i < n
        invariant
            i <= n == v@.len(),
            r@ == v@.subrange(0, i as int),
        decreases n - i,
    {
        r.push(v[i].clone());
        i = i + 1;
        proof {
            assert(r@ =~= v@.subrange(0, i as int));
        }
    }
    proof {
        assert(r@ =~= v@);
        assert(r.deep_view() =~= v.deep_view());
    }
    r
}

/// Adds a custom tag. A blank name and a duplicate are refused; the
/// library is unchanged then.
pub fn add_custom_tag(db: &mut GamesDB, tag: &String) -> (r: Result<(), StoreError>)
    ensures
        r is Err ==> final(db)@ == old(db)@,
        r == Err::<(), StoreError>(StoreError::EmptyTag) <==> crate::text::spec_trim(tag@).len()
            == 0,
        r == Err::<(), StoreError>(StoreError::DuplicateTag) <==> crate::text::spec_trim(
            tag@,
        ).len() != 0 && old(db)@.custom_tags.contains(tag@),
        r is Ok <==> crate::text::spec_trim(tag@).len() != 0 && !old(db)@.custom_tags.contains(
            tag@,
        ),
        r is Ok ==> final(db)@.custom_tags == old(db)@.custom_tags.push(tag@) && final(db)@.games
            == old(db)@.games,
{
    let chars = crate::text::string_to_chars(tag.as_str());
    let trimmed = crate::text::trim_chars(&chars);
    if trimmed.len() == 0 {
        return Err(StoreError::EmptyTag);
    }
    if vec_contains_string(&db.custom_tags, tag) {
        return Err(StoreError::DuplicateTag);
    }
    let ghost oldtags = db.custom_tags.deep_view();
    db.custom_tags.push(tag.clone());
    proof {
        assert(db.custom_tags.deep_view() =~= oldtags.push(tag@));
    }
    Ok(())
}

/// Removes a tag from the custom-tag set and, cascading, from every
/// entry's tag set, in one call.
pub fn remove_custom_tag(db: &mut GamesDB, tag: &String)
    ensures
        final(db)@.custom_tags == without_string(old(db)@.custom_tags, tag@),
        final(db)@.games.len() == old(db)@.games.len(),
        forall|i: int|
            0 <= i < old(db)@.games.len() ==> final(db)@.games[i] == (GameEntryModel {
                tags: without_string(old(db)@.games[i].tags, tag@),
                ..old(db)@.games[i]
            }),
{
    db.custom_tags = retain_strings(&db.custom_tags, tag);
    let n = db.games.len();
    let mut i: usize = 0;
    while i < n
        invariant
            i <= n == db.games@.len(),
            db.games@.len() == old(db)@.games.len(),
            db.custom_tags.deep_view() == without_string(old(db)@.custom_tags, tag@),
            forall|j: int|
                i <= j < old(db)@.games.len() ==> db.games.deep_view()[j] == old(db)@.games[j],
            forall|j: int|
                0 <= j < i ==> db.games.deep_view()[j] == (GameEntryModel {
                    tags: without_string(old(db)@.games[j].tags, tag@),
                    ..old(db)@.games[j]
                }),
        decreases n - i,
    {
        let ghost prevseq = db.games@;
        let ghost prevdeep = db.games.deep_view();
        let mut g = db.games[i].clone();
        g.tags = retain_strings(&g.tags, tag);
        let ghost gm = g@;
        db.games.set(i, g);
        i = i + 1;
        proof {
            assert(gm == (GameEntryModel {
                tags: without_string(old(db)@.games[i - 1].tags, tag@),
                ..old(db)@.games[i - 1]
            }));
            assert forall|j: int| 0 <= j < i implies db.games.deep_view()[j] == (GameEntryModel {
                tags: without_string(old(db)@.games[j].tags, tag@),
                ..old(db)@.games[j]
            }) by {
                if j < i - 1 {
                    assert(db.games@[j] == prevseq[j]);
                    assert(prevdeep[j] == prevseq[j].deep_view());
                    assert(db.games.deep_view()[j] == prevdeep[j]);
                } else {
                    assert(db.games.deep_view()[j] == gm);
                }
            }
            assert forall|j: int|
                i <= j < old(db)@.games.len() implies db.games.deep_view()[j]
                == old(db)@.games[j] by {
                assert(db.games@[j] == prevseq[j]);
                assert(prevdeep[j] == prevseq[j].deep_view());
                assert(db.games.deep_view()[j] == prevdeep[j]);
            }
        }
    }
}

/// Adds a tag to the first entry with this path unless already carried.
/// Returns whether the library changed (the caller persists it then).
pub fn add_tag_to_game(db: &mut GamesDB, path: &String, tag: &String) -> (r: Result<
    bool,
    StoreError,
>)
    ensures
        r is Ok <==> old(db)@.contains_path(path@),
        r is Err ==> final(db)@ == old(db)@ && r == Err::<bool, StoreError>(StoreError::NotFound),
        r matches Ok(changed) ==> {
            let k = first_match_index(old(db)@.games, path@);
            &&& is_first_match(old(db)@.games, path@, k)
            &&& changed == !old(db)@.games[k].tags.contains(tag@)
            &&& changed ==> final(db)@.games == old(db)@.games.update(
                k,
                (GameEntryModel {
                    tags: old(db)@.games[k].tags.push(tag@),
                    ..old(db)@.games[k]
                }),
            ) && final(db)@.custom_tags == old(db)@.custom_tags
            &&& !changed ==> final(db)@ == old(db)@
        },
{
    let found = find_game_index(&db.games, path);
    match found {
        None => Err(StoreError::NotFound),
        Some(k) => {
            proof {
                lemma_first_match_unique(old(db)@.games, path@, k as int);
            }
            if vec_contains_string(&db.games[k].tags, tag) {
                Ok(false)
            } else {
                let mut g = db.games[k].clone();
                let ghost oldtags = g.tags.deep_view();
                g.tags.push(tag.clone());
                proof {
                    assert(g.tags.deep_view() =~= oldtags.push(tag@));
                }
                let ghost gm = g@;
                db.games.set(k, g);
                proof {
                    assert(db.games.deep_view() =~= old(db)@.games.update(k as int, gm));
                }
                Ok(true)
            }
        },
    }
}

/// Removes a tag from the first entry with this path.
pub fn remove_tag_from_game(db: &mut GamesDB, path: &String, tag: &String) -> (r: Result<
    (),
    StoreError,
>)
    ensures
        r is Ok <==> old(db)@.contains_path(path@),
        r is Err ==> final(db)@ == old(db)@ && r == Err::<(), StoreError>(StoreError::NotFound),
        r is Ok ==> {
            let k = first_match_index(old(db)@.games, path@);
            &&& is_first_match(old(db)@.games, path@, k)
            &&& final(db)@.games == old(db)@.games.update(
                k,
                (GameEntryModel {
                    tags: without_string(old(db)@.games[k].tags, tag@),
                    ..old(db)@.games[k]
                }),
            )
            &&& final(db)@.custom_tags == old(db)@.custom_tags
        },
{
    let found = find_game_index(&db.games, path);
    match found {
        None => Err(StoreError::NotFound),
        Some(k) => {
            proof {
                lemma_first_match_unique(old(db)@.games, path@, k as int);
            }
            let mut g = db.games[k].clone();
            g.tags = retain_strings(&g.tags, tag);
            let ghost gm = g@;
            db.games.set(k, g);
            proof {
                assert(db.games.deep_view() =~= old(db)@.games.update(k as int, gm));
            }
            Ok(())
        },
    }
}

/// The entries that carry this tag.
pub open spec fn games_with_tag(games: Seq<GameEntryModel>, tag: Seq<char>) -> Seq<
    GameEntryModel,
> {
    games.filter(|g: GameEntryModel| g.tags.contains(tag))
}

/// How many entries carry this tag.
pub fn get_games_count_by_tag(db: &GamesDB, tag: &String) -> (r: usize)
    ensures
        r == games_with_tag(db@.games, tag@).len(),
{
    let n = db.games.len();
    let mut count: usize = 0;
    let mut i: usize = 0;
    proof {
        reveal(Seq::filter);
        assert(db@.games.subrange(0, 0) =~= Seq::<GameEntryModel>::empty());
    }
    while i < n
        invariant
            i <= n == db.games@.len(),
            count == games_with_tag(db@.games.subrange(0, i as int), tag@).len(),
            count <= i,
        decreases n - i,
    {
        if vec_contains_string(&db.games[i].tags, tag) {
            count = count + 1;
        }
        i = i + 1;
        proof {
            reveal(Seq::filter);
            let pre = db@.games.subrange(0, i - 1);
            let post = db@.games.subrange(0, i as int);
            assert(post.drop_last() =~= pre);
            assert(post.last() == db@.games[i - 1]);
        }
    }
    proof {
        assert(db@.games.subrange(0, n as int) =~= db@.games);
    }
    count
}

} // verus!
