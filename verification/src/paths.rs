//! Path resolution for the persisted documents: choosing the base
//! directory, building each document's current location under the
//! `kano_data` directory, the ordered legacy locations a document is
//! migrated from, and the sibling lock-marker and temp-file names used
//! by the atomic write protocol.

use vstd::prelude::*;
use crate::text::{string_to_chars, chars_to_string, push_str_chars};
use crate::json::{render_u64, push_decimal_u64};

verus! {

/// The base directory the resolver picks: the running executable's
/// parent when it is known, else the parent of the working directory,
/// else the working directory itself (or the temp directory the caller
/// substituted for it).
pub open spec fn chosen_base(
    exe_parent: Option<Seq<char>>,
    cwd_parent: Option<Seq<char>>,
    cwd_or_temp: Seq<char>,
) -> Seq<char> {
    match exe_parent {
        Some(p) => p,
        None => match cwd_parent {
            Some(p) => p,
            None => cwd_or_temp,
        },
    }
}

/// Picks the base directory where persisted documents live, in the
/// priority order the resolver promises: first success wins.
pub fn app_base_dir(
    exe_parent: Option<String>,
    cwd_parent: Option<String>,
    cwd_or_temp: String,
) -> (r: String)
    ensures
        r@ == chosen_base(exe_parent.deep_view(), cwd_parent.deep_view(), cwd_or_temp@),
{
    match exe_parent {
        Some(p) => p,
        None => match cwd_parent {
            Some(p) => p,
            None => cwd_or_temp,
        },
    }
}

/// The project root is the base directory itself.
pub fn project_root(base: &String) -> (r: String)
    ensures
        r@ == base@,
{
    base.clone()
}

/// `base/kano_data/name`: the current location of a document.
pub open spec fn resolved_path(base: Seq<char>, name: Seq<char>) -> Seq<char> {
    base + "/kano_data/"@ + name
}

/// `base/name`: a location directly under a directory.
pub open spec fn joined_path(base: Seq<char>, name: Seq<char>) -> Seq<char> {
    base + "/"@ + name
}

/// Builds the current location of a document.
pub fn resolve_document_path(base: &String, name: &str) -> (r: String)
    ensures
        r@ == resolved_path(base@, name@),
{
    let mut out = string_to_chars(base.as_str());
    push_str_chars(&mut out, "/kano_data/");
    push_str_chars(&mut out, name);
    chars_to_string(&out)
}

/// Builds a location directly under a directory.
pub fn join_path(base: &String, name: &str) -> (r: String)
    ensures
        r@ == joined_path(base@, name@),
{
    let mut out = string_to_chars(base.as_str());
    push_str_chars(&mut out, "/");
    push_str_chars(&mut out, name);
    chars_to_string(&out)
}

/// The current location of the games-library document.
pub fn games_db_path(base: &String) -> (r: String)
    ensures
        r@ == resolved_path(base@, "games_db.json"@),
{
    resolve_document_path(base, "games_db.json")
}

/// The current location of the configuration document.
pub fn config_path(base: &String) -> (r: String)
    ensures
        r@ == resolved_path(base@, "tauri_config.json"@),
{
    resolve_document_path(base, "tauri_config.json")
}

/// The current location of the catalog cache document.
pub fn cache_path(base: &String) -> (r: String)
    ensures
        r@ == resolved_path(base@, "bangumi_cache.json"@),
{
    resolve_document_path(base, "bangumi_cache.json")
}

/// The directory cover images are saved under.
pub fn images_dir_path(base: &String) -> (r: String)
    ensures
        r@ == resolved_path(base@, "images"@),
{
    resolve_document_path(base, "images")
}

/// The current location of the tools document.
pub fn tools_path(base: &String) -> (r: String)
    ensures
        r@ == resolved_path(base@, "tools.json"@),
{
    resolve_document_path(base, "tools.json")
}

/// The current location of the notes document.
pub fn notes_path(base: &String) -> (r: String)
    ensures
        r@ == resolved_path(base@, "notes.json"@),
{
    resolve_document_path(base, "notes.json")
}

/// The current location of the dedicated token document.
pub fn token_path(base: &String) -> (r: String)
    ensures
        r@ == resolved_path(base@, "tokens.json"@),
{
    resolve_document_path(base, "tokens.json")
}

/// The ordered legacy locations of the games-library document: the
/// deprecated `game_data` directory under the base, then the same under
/// the parent of the working directory.
pub open spec fn games_db_legacy_paths(base: Seq<char>, cwd_parent: Option<Seq<char>>) -> Seq<
    Seq<char>,
> {
    match cwd_parent {
        Some(p) => seq![
            joined_path(base, "game_data/games_db.json"@),
            joined_path(p, "game_data/games_db.json"@),
        ],
        None => seq![joined_path(base, "game_data/games_db.json"@)],
    }
}

/// The ordered legacy locations of a document that once lived directly
/// in the base directory, then directly under the parent of the working
/// directory.
pub open spec fn flat_legacy_paths(
    base: Seq<char>,
    cwd_parent: Option<Seq<char>>,
    name: Seq<char>,
) -> Seq<Seq<char>> {
    match cwd_parent {
        Some(p) => seq![joined_path(base, name), joined_path(p, name)],
        None => seq![joined_path(base, name)],
    }
}

/// Builds the ordered legacy locations of the games-library document.
pub fn games_db_legacy_locations(base: &String, cwd_parent: &Option<String>) -> (r: Vec<String>)
    ensures
        r.deep_view() == games_db_legacy_paths(base@, cwd_parent.deep_view()),
{
    let mut r: Vec<String> = Vec::new();
    r.push(join_path(base, "game_data/games_db.json"));
    match cwd_parent {
        Some(p) => {
            r.push(join_path(p, "game_data/games_db.json"));
            proof {
                assert(r.deep_view() =~= games_db_legacy_paths(base@, cwd_parent.deep_view()));
            }
        },
        None => {
            proof {
                assert(r.deep_view() =~= games_db_legacy_paths(base@, cwd_parent.deep_view()));
            }
        },
    }
    r
}

/// Builds the ordered legacy locations of a document that once lived
/// directly in the base directory.
pub fn flat_legacy_locations(base: &String, cwd_parent: &Option<String>, name: &str) -> (r: Vec<
    String,
>)
    ensures
        r.deep_view() == flat_legacy_paths(base@, cwd_parent.deep_view(), name@),
{
    let mut r: Vec<String> = Vec::new();
    r.push(join_path(base, name));
    match cwd_parent {
        Some(p) => {
            r.push(join_path(p, name));
            proof {
                assert(r.deep_view() =~= flat_legacy_paths(base@, cwd_parent.deep_view(), name@));
            }
        },
        None => {
            proof {
                assert(r.deep_view() =~= flat_legacy_paths(base@, cwd_parent.deep_view(), name@));
            }
        },
    }
    r
}

/// The migration rule for one legacy location: the legacy file is moved
/// to the current location exactly when it exists there and nothing
/// exists at the current location yet. Failures to move are ignored by
/// the caller: migration is best-effort and retried on the next
/// resolution.
pub fn should_migrate(legacy_exists: bool, current_exists: bool) -> (r: bool)
    ensures
        r == (legacy_exists && !current_exists),
{
    legacy_exists && !current_exists
}

/// Scans a path from position `i`, carrying the position of the last
/// separator seen (`-1` for none) and of the last extension dot of the
/// current file name. A dot at the very start of a file name marks a
/// hidden file, not an extension.
pub open spec fn path_marks(s: Seq<char>, i: int, last_sep: int, dot: Option<int>) -> (
    int,
    Option<int>,
)
    decreases s.len() - i,
{
    if i < 0 || i >= s.len() {
        (last_sep, dot)
    } else if crate::scanner::is_sep(s[i]) {
        path_marks(s, i + 1, i, None)
    } else if s[i] == '.' && i > last_sep + 1 {
        path_marks(s, i + 1, last_sep, Some(i))
    } else {
        path_marks(s, i + 1, last_sep, dot)
    }
}

/// The path with the extension of its file name replaced by `ext`, as
/// the lock-marker and temp-file names beside a document are formed.
pub open spec fn with_ext(path: Seq<char>, ext: Seq<char>) -> Seq<char> {
    (match path_marks(path, 0, -1, None).1 {
        Some(d) => path.subrange(0, d),
        None => path,
    }) + "."@ + ext
}

/// The file stem of a path: its file name without the extension, or
/// nothing when the path ends in a separator.
pub open spec fn stem_of(path: Seq<char>) -> Seq<char> {
    let marks = path_marks(path, 0, -1, None);
    let name_start = marks.0 + 1;
    let name_end = match marks.1 {
        Some(d) => d,
        None => path.len() as int,
    };
    path.subrange(name_start, name_end)
}

/// The display name an imported executable defaults to: its file stem,
/// or a fixed placeholder when the path has no file name.
pub open spec fn default_game_name(path: Seq<char>) -> Seq<char> {
    if stem_of(path).len() == 0 {
        "unnamed"@
    } else {
        stem_of(path)
    }
}

/// Scans a path for its last separator (the position after it; zero
/// for none) and the extension dot of its file name.
fn path_mark_scan(s: &Vec<char>) -> (r: (usize, Option<usize>))
    ensures
        r.0 as int - 1 == path_marks(s@, 0, -1, None).0,
        r.0 <= s@.len(),
        (match r.1 {
            Some(d) => path_marks(s@, 0, -1, None).1 == Some(d as int) && r.0 <= d < s@.len(),
            None => path_marks(s@, 0, -1, None).1 is None,
        }),
{
    let n = s.len();
    let mut i: usize = 0;
    let mut ls1: usize = 0;
    let mut dot: Option<usize> = None;
    while i < n
        invariant
            i <= n == s@.len(),
            ls1 <= i,
            (match dot {
                Some(d) => ls1 <= d < i,
                None => true,
            }),
            path_marks(s@, 0, -1, None) == path_marks(s@, i as int, ls1 as int - 1, (match dot {
                Some(d) => Some(d as int),
                None => None::<int>,
            })),
        decreases n - i,
    {
        let c = s[i];
        if c == '/' || c == '\\' {
            ls1 = i + 1;
            dot = None;
        } else if c == '.' && i > ls1 {
            dot = Some(i);
        }
        i = i + 1;
    }
    (ls1, dot)
}

/// The path with the extension of its file name replaced, as
/// `games_db.json` gets its sibling `games_db.lock` marker.
pub fn with_extension(path: &String, ext: &str) -> (r: String)
    ensures
        r@ == with_ext(path@, ext@),
{
    let chars = string_to_chars(path.as_str());
    let marks = path_mark_scan(&chars);
    let mut out: Vec<char> = Vec::new();
    let end = match marks.1 {
        Some(d) => d,
        None => chars.len(),
    };
    let mut i: usize = 0;
    while i < end
        invariant
            i <= end <= chars@.len(),
            chars@ == path@,
            out@ == path@.subrange(0, i as int),
        decreases end - i,
    {
        out.push(chars[i]);
        i = i + 1;
        proof {
            assert(out@ =~= path@.subrange(0, i as int));
        }
    }
    push_str_chars(&mut out, ".");
    push_str_chars(&mut out, ext);
    proof {
        if marks.1 is None {
            assert(path@.subrange(0, path@.len() as int) =~= path@);
        }
        assert(out@ =~= with_ext(path@, ext@));
    }
    chars_to_string(&out)
}

/// The sibling lock-marker path of a document: the same name with a
/// `lock` extension. Creating it if-absent is the store's mutual
/// exclusion primitive.
pub fn lock_marker_path(path: &String) -> (r: String)
    ensures
        r@ == with_ext(path@, "lock"@),
{
    with_extension(path, "lock")
}

/// The sibling temp-file path a writer stages its text in: the same
/// name with a `tmp.{pid}` extension, unique per process.
pub fn temp_file_path(path: &String, pid: u64) -> (r: String)
    ensures
        r@ == with_ext(path@, "tmp."@ + render_u64(pid as nat)),
{
    let chars = string_to_chars(path.as_str());
    let marks = path_mark_scan(&chars);
    let mut out: Vec<char> = Vec::new();
    let end = match marks.1 {
        Some(d) => d,
        None => chars.len(),
    };
    let mut i: usize = 0;
    while i < end
        invariant
            i <= end <= chars@.len(),
            chars@ == path@,
            out@ == path@.subrange(0, i as int),
        decreases end - i,
    {
        out.push(chars[i]);
        i = i + 1;
        proof {
            assert(out@ =~= path@.subrange(0, i as int));
        }
    }
    push_str_chars(&mut out, ".");
    push_str_chars(&mut out, "tmp.");
    push_decimal_u64(&mut out, pid);
    proof {
        if marks.1 is None {
            assert(path@.subrange(0, path@.len() as int) =~= path@);
        }
        assert(out@ =~= with_ext(path@, "tmp."@ + render_u64(pid as nat)));
    }
    chars_to_string(&out)
}

/// The display name an imported executable defaults to.
pub fn default_name_for_path(path: &String) -> (r: String)
    ensures
        r@ == default_game_name(path@),
{
    let chars = string_to_chars(path.as_str());
    let marks = path_mark_scan(&chars);
    let start = marks.0;
    let end = match marks.1 {
        Some(d) => d,
        None => chars.len(),
    };
    proof {
        reveal_strlit("unnamed");
    }
    if start >= end {
        proof {
            assert(stem_of(path@).len() == 0);
        }
        return String::from_str("unnamed");
    }
    let mut out: Vec<char> = Vec::new();
    let mut i: usize = start;
    while i < end
        invariant
            start <= i <= end <= chars@.len(),
            chars@ == path@,
            out@ == path@.subrange(start as int, i as int),
        decreases end - i,
    {
        out.push(chars[i]);
        i = i + 1;
        proof {
            assert(out@ =~= path@.subrange(start as int, i as int));
        }
    }
    proof {
        assert(out@ =~= stem_of(path@));
    }
    chars_to_string(&out)
}

/// The cover-image file extension inferred from a source URL: `jpg`,
/// `png` or `webp` by what the URL names, defaulting to `jpg`.
pub open spec fn image_ext_of(url: Seq<char>) -> Seq<char> {
    if crate::text::is_substring(url, ".jpg"@) || crate::text::is_substring(url, ".jpeg"@) {
        "jpg"@
    } else if crate::text::is_substring(url, ".png"@) {
        "png"@
    } else if crate::text::is_substring(url, ".webp"@) {
        "webp"@
    } else {
        "jpg"@
    }
}

/// Infers the cover-image file extension from a source URL.
pub fn image_ext_for_url(url: &String) -> (r: String)
    ensures
        r@ == image_ext_of(url@),
{
    let chars = string_to_chars(url.as_str());
    let jpg = string_to_chars(".jpg");
    let jpeg = string_to_chars(".jpeg");
    let png = string_to_chars(".png");
    let webp = string_to_chars(".webp");
    if crate::text::contains_chars(&chars, &jpg) || crate::text::contains_chars(&chars, &jpeg) {
        String::from_str("jpg")
    } else if crate::text::contains_chars(&chars, &png) {
        String::from_str("png")
    } else if crate::text::contains_chars(&chars, &webp) {
        String::from_str("webp")
    } else {
        String::from_str("jpg")
    }
}

/// The file name a cover image is saved under: the catalog subject id
/// with the inferred extension.
pub open spec fn image_file_name(subject_id: i64, ext: Seq<char>) -> Seq<char> {
    crate::json::render_i64(subject_id as int) + "."@ + ext
}

/// The file names a cached cover image may sit under, in the order
/// they are probed when the image is deleted.
pub open spec fn image_candidate_names(subject_id: i64) -> Seq<Seq<char>> {
    seq![
        image_file_name(subject_id, "jpg"@),
        image_file_name(subject_id, "jpeg"@),
        image_file_name(subject_id, "png"@),
        image_file_name(subject_id, "webp"@),
    ]
}

/// Builds the file names a cached cover image may sit under.
pub fn cached_image_candidates(subject_id: i64) -> (r: Vec<String>)
    ensures
        r.deep_view() == image_candidate_names(subject_id),
{
    let mut r: Vec<String> = Vec::new();
    r.push(image_filename(subject_id, &String::from_str("jpg")));
    r.push(image_filename(subject_id, &String::from_str("jpeg")));
    r.push(image_filename(subject_id, &String::from_str("png")));
    r.push(image_filename(subject_id, &String::from_str("webp")));
    proof {
        reveal_strlit("jpg");
        reveal_strlit("jpeg");
        reveal_strlit("png");
        reveal_strlit("webp");
        assert(r.deep_view() =~= image_candidate_names(subject_id));
    }
    r
}

/// Builds the file name a cover image is saved under.
pub fn image_filename(subject_id: i64, ext: &String) -> (r: String)
    ensures
        r@ == image_file_name(subject_id, ext@),
{
    let mut out: Vec<char> = Vec::new();
    crate::json::push_decimal_i64(&mut out, subject_id);
    push_str_chars(&mut out, ".");
    push_str_chars(&mut out, ext.as_str());
    proof {
        assert(out@ =~= image_file_name(subject_id, ext@));
    }
    chars_to_string(&out)
}

} // verus!
