//! Executable-discovery heuristic: given the candidate executables
//! collected from a directory walk (each with the folder-name
//! breadcrumbs between the scan root and the file), pick the one to
//! import. A candidate whose path contains a localization keyword wins;
//! otherwise the first candidate in traversal order is taken.

use vstd::prelude::*;
use crate::text::{is_substring, matches_at, contains_chars, string_to_chars, views_of_chars};
use crate::library::clone_strings;

verus! {

/// What `str::to_lowercase` returns: a function of the characters
/// alone.
pub uninterp spec fn lower_of(s: Seq<char>) -> Seq<char>;

/// Relies on `str::to_lowercase`: the result depends on the characters
/// of `s` alone.
#[verifier::external_body]
fn to_lower(s: &str) -> (r: String)
    ensures
        r@ == lower_of(s@),
{
    s.to_lowercase()
}

/// The localization keywords that mark a preferred build, in the order
/// they are tried.
pub open spec fn scan_keywords() -> Seq<Seq<char>> {
    seq!["ch"@, "chs"@, "cn"@, "中文"@, "chinese"@, "简体"@, "繁体"@, "汉化"@]
}

/// Whether a lowercased candidate path contains some localization
/// keyword.
pub open spec fn has_keyword(lowered: Seq<char>) -> bool {
    exists|k: int| 0 <= k < scan_keywords().len() && is_substring(lowered, scan_keywords()[k])
}

/// The executable keyword list.
fn keyword_list() -> (r: Vec<Vec<char>>)
    ensures
        views_of_chars(r@) == scan_keywords(),
{
    let mut r: Vec<Vec<char>> = Vec::new();
    r.push(string_to_chars("ch"));
    r.push(string_to_chars("chs"));
    r.push(string_to_chars("cn"));
    r.push(string_to_chars("中文"));
    r.push(string_to_chars("chinese"));
    r.push(string_to_chars("简体"));
    r.push(string_to_chars("繁体"));
    r.push(string_to_chars("汉化"));
    proof {
        assert(views_of_chars(r@) =~= scan_keywords());
    }
    r
}

/// Whether `lowered` contains some localization keyword.
fn has_keyword_exec(lowered: &Vec<char>) -> (r: bool)
    ensures
        r == has_keyword(lowered@),
{
    let kws = keyword_list();
    let n = kws.len();
    let mut i: usize = 0;
    while i < n
        invariant
            i <= n == kws@.len(),
            views_of_chars(kws@) == scan_keywords(),
            forall|j: int| 0 <= j < i ==> !is_substring(lowered@, scan_keywords()[j]),
        decreases n - i,
    {
        proof {
            assert(kws@[i as int]@ == scan_keywords()[i as int]);
        }
        if contains_chars(lowered, &kws[i]) {
            proof {
                assert(is_substring(lowered@, scan_keywords()[i as int]));
            }
            return true;
        }
        i = i + 1;
    }
    false
}

/// `k` is the position the selection policy picks among candidates with
/// these lowercased paths: the first with a keyword if any candidate
/// has one, the first candidate otherwise.
pub open spec fn is_selected_index(lowered: Seq<Seq<char>>, k: int) -> bool {
    if exists|i: int| 0 <= i < lowered.len() && has_keyword(lowered[i]) {
        &&& 0 <= k < lowered.len()
        &&& has_keyword(lowered[k])
        &&& forall|j: int| 0 <= j < k ==> !has_keyword(lowered[j])
    } else {
        k == 0 && lowered.len() > 0
    }
}

/// The position the selection policy picks.
pub open spec fn selected_index(lowered: Seq<Seq<char>>) -> int {
    choose|k: int| is_selected_index(lowered, k)
}

/// The selected position is unique, so `selected_index` returns it.
pub proof fn lemma_selected_unique(lowered: Seq<Seq<char>>, k: int)
    requires
        is_selected_index(lowered, k),
    ensures
        selected_index(lowered) == k,
{
    let k2 = selected_index(lowered);
    assert(is_selected_index(lowered, k2));
}

/// Applies the selection policy to lowercased candidate paths.
pub fn select_candidate_index(lowered: &Vec<Vec<char>>) -> (r: Option<usize>)
    ensures
        r is Some <==> lowered@.len() > 0,
        r matches Some(k) ==> is_selected_index(views_of_chars(lowered@), k as int),
{
    let n = lowered.len();
    if n == 0 {
        return None;
    }
    let mut i: usize = 0;
    while i < n
        invariant
            i <= n == lowered@.len(),
            n > 0,
            forall|j: int| 0 <= j < i ==> !has_keyword(views_of_chars(lowered@)[j]),
        decreases n - i,
    {
        if has_keyword_exec(&lowered[i]) {
            proof {
                assert(has_keyword(views_of_chars(lowered@)[i as int]));
            }
            return Some(i);
        }
        i = i + 1;
    }
    proof {
        assert(forall|j: int|
            0 <= j < views_of_chars(lowered@).len() ==> !has_keyword(views_of_chars(lowered@)[j]));
    }
    Some(0)
}

/// The lowercased candidate paths, position by position.
pub open spec fn lowered_paths(cands: Seq<(String, Vec<String>)>) -> Seq<Seq<char>> {
    Seq::new(cands.len(), |i: int| lower_of(cands[i].0@))
}

/// Selects the executable to import among the collected candidates:
/// each candidate is a full path together with the folder-name
/// breadcrumbs between the scan root and the file. The first candidate
/// whose lowercased path contains a localization keyword wins; with no
/// keyword match, the first candidate in traversal order is returned.
pub fn find_exe_with_folder_path(candidates: &Vec<(String, Vec<String>)>) -> (r: Option<
    (String, Vec<String>),
>)
    ensures
        r is Some <==> candidates@.len() > 0,
        r matches Some(c) ==> {
            let k = selected_index(lowered_paths(candidates@));
            &&& is_selected_index(lowered_paths(candidates@), k)
            &&& c.0@ == candidates@[k].0@
            &&& c.1.deep_view() == candidates@[k].1.deep_view()
        },
{
    let n = candidates.len();
    let mut lowered: Vec<Vec<char>> = Vec::new();
    let mut i: usize = 0;
    while i < n
        invariant
            i <= n == candidates@.len(),
            lowered@.len() == i,
            forall|j: int| 0 <= j < i ==> lowered@[j]@ == lower_of(candidates@[j].0@),
        decreases n - i,
    {
        let lw = to_lower(candidates[i].0.as_str());
        let lc = string_to_chars(lw.as_str());
        lowered.push(lc);
        i = i + 1;
    }
    proof {
        assert(views_of_chars(lowered@) =~= lowered_paths(candidates@));
    }
    match select_candidate_index(&lowered) {
        None => None,
        Some(k) => {
            proof {
                lemma_selected_unique(lowered_paths(candidates@), k as int);
            }
            let path = candidates[k].0.clone();
            let folders = clone_strings(&candidates[k].1);
            Some((path, folders))
        },
    }
}

/// Whether `s` ends with `suffix`.
pub open spec fn ends_with(s: Seq<char>, suffix: Seq<char>) -> bool {
    matches_at(s, suffix, s.len() - suffix.len())
}

/// Whether a path character separates components.
pub open spec fn is_sep(c: char) -> bool {
    c == '/' || c == '\\'
}

/// The path components of `s`, splitting at separators and dropping
/// empty pieces: the tail-recursive split with cursor `i`, current
/// piece `cur` and pieces `acc` collected so far.
pub open spec fn split_from(s: Seq<char>, i: int, cur: Seq<char>, acc: Seq<Seq<char>>) -> Seq<
    Seq<char>,
>
    decreases s.len() - i,
{
    if i < 0 || i >= s.len() {
        if cur.len() > 0 {
            acc.push(cur)
        } else {
            acc
        }
    } else if is_sep(s[i]) {
        split_from(s, i + 1, Seq::empty(), if cur.len() > 0 {
            acc.push(cur)
        } else {
            acc
        })
    } else {
        split_from(s, i + 1, cur.push(s[i]), acc)
    }
}

/// The path components of `s`.
pub open spec fn components_of(s: Seq<char>) -> Seq<Seq<char>> {
    split_from(s, 0, Seq::empty(), Seq::empty())
}

/// Splits a path into its non-empty components.
pub fn split_components(s: &Vec<char>) -> (r: Vec<String>)
    ensures
        r.deep_view() == components_of(s@),
{
    let n = s.len();
    let mut acc: Vec<String> = Vec::new();
    let mut cur: Vec<char> = Vec::new();
    let mut i: usize = 0;
    proof {
        assert(acc.deep_view() =~= Seq::<Seq<char>>::empty());
        assert(cur@ =~= Seq::<char>::empty());
    }
    while i < n
        invariant
            i <= n == s@.len(),
            components_of(s@) == split_from(s@, i as int, cur@, acc.deep_view()),
        decreases n - i,
    {
        let ghost cur0 = cur@;
        let ghost acc0 = acc.deep_view();
        let c = s[i];
        if c == '/' || c == '\\' {
            if cur.len() > 0 {
                let piece = crate::text::chars_to_string(&cur);
                acc.push(piece);
                cur = Vec::new();
                proof {
                    assert(acc.deep_view() =~= acc0.push(cur0));
                    assert(cur@ =~= Seq::<char>::empty());
                }
            } else {
                proof {
                    assert(cur@ =~= Seq::<char>::empty());
                }
            }
        } else {
            cur.push(c);
        }
        i = i + 1;
        proof {
            assert(components_of(s@) == split_from(s@, i as int, cur@, acc.deep_view()));
        }
    }
    if cur.len() > 0 {
        let ghost acc0 = acc.deep_view();
        let ghost cur0 = cur@;
        let piece = crate::text::chars_to_string(&cur);
        acc.push(piece);
        proof {
            assert(acc.deep_view() =~= acc0.push(cur0));
        }
    }
    acc
}

/// The folder-name breadcrumbs recorded for an executable found under a
/// scan root: the components of the path after the root, without every
/// component that names a `.exe` file. A path that does not start with
/// the root yields no breadcrumbs.
pub open spec fn folder_breadcrumbs(path: Seq<char>, root: Seq<char>) -> Seq<Seq<char>> {
    if matches_at(path, root, 0) {
        components_of(path.subrange(root.len() as int, path.len() as int)).filter(
            |c: Seq<char>| !ends_with(c, ".exe"@),
        )
    } else {
        Seq::empty()
    }
}

/// Whether `s` ends with `.exe`.
fn ends_with_exe(s: &String) -> (r: bool)
    ensures
        r == ends_with(s@, ".exe"@),
{
    let chars = string_to_chars(s.as_str());
    let suffix = string_to_chars(".exe");
    if suffix.len() > chars.len() {
        return false;
    }
    let at = chars.len() - suffix.len();
    crate::text::check_match_at(&chars, &suffix, at)
}

/// Computes the folder-name breadcrumbs between a scan root and an
/// executable found under it.
pub fn build_folder_path(exe_path: &String, start_folder: &String) -> (r: Vec<String>)
    ensures
        r.deep_view() == folder_breadcrumbs(exe_path@, start_folder@),
{
    let path = string_to_chars(exe_path.as_str());
    let root = string_to_chars(start_folder.as_str());
    if root.len() > path.len() || !crate::text::check_match_at(&path, &root, 0) {
        proof {
            assert(!matches_at(exe_path@, start_folder@, 0));
        }
        return Vec::new();
    }
    let mut rel: Vec<char> = Vec::new();
    let mut i: usize = root.len();
    let n = path.len();
    while i < n
        invariant
            root@.len() <= i <= n == path@.len(),
            rel@ == path@.subrange(root@.len() as int, i as int),
        decreases n - i,
    {
        rel.push(path[i]);
        i = i + 1;
        proof {
            assert(rel@ =~= path@.subrange(root@.len() as int, i as int));
        }
    }
    proof {
        assert(rel@ =~= path@.subrange(root@.len() as int, path@.len() as int));
    }
    let pieces = split_components(&rel);
    let m = pieces.len();
    let mut kept: Vec<String> = Vec::new();
    let mut j: usize = 0;
    proof {
        reveal(Seq::filter);
        assert(pieces.deep_view().subrange(0, 0) =~= Seq::<Seq<char>>::empty());
    }
    while j < m
        invariant
            j <= m == pieces@.len(),
            pieces.deep_view() == components_of(path@.subrange(
                root@.len() as int,
                path@.len() as int,
            )),
            kept.deep_view() == pieces.deep_view().subrange(0, j as int).filter(
                (|c: Seq<char>| !ends_with(c, ".exe"@)),
            ),
        decreases m - j,
    {
        let keep = !ends_with_exe(&pieces[j]);
        if keep {
            kept.push(pieces[j].clone());
        }
        j = j + 1;
        proof {
            reveal(Seq::filter);
            let pre = pieces.deep_view().subrange(0, j - 1);
            let post = pieces.deep_view().subrange(0, j as int);
            assert(post.drop_last() =~= pre);
            assert(post.last() == pieces.deep_view()[j - 1]);
            if keep {
                assert(kept.deep_view() =~= post.filter((|c: Seq<char>| !ends_with(c, ".exe"@))));
            }
        }
    }
    proof {
        assert(pieces.deep_view().subrange(0, m as int) =~= pieces.deep_view());
        assert(matches_at(exe_path@, start_folder@, 0));
    }
    kept
}

} // verus!
