use kano_store::library::StoreError;
use kano_store::registry::RunningProcesses;
use kano_store::scanner::{build_folder_path, find_exe_with_folder_path, split_components};

#[test]
fn launch_on_missing_path_fails_not_found_and_records_nothing() {
    let mut reg = RunningProcesses::new();
    let path = "/games/a/game.exe".to_string();
    assert_eq!(RunningProcesses::launch_precheck(false, false), Err(StoreError::NotFound));
    assert_eq!(RunningProcesses::launch_precheck(true, false), Err(StoreError::NotFound));
    assert_eq!(RunningProcesses::launch_precheck(false, true), Err(StoreError::NotFound));
    // nothing was recorded for the failed launch
    assert!(!reg.is_running(&path));
    assert_eq!(reg.lookup_pid(&path), Err(StoreError::NotFound));
    // after a successful precheck the caller spawns and records
    assert_eq!(RunningProcesses::launch_precheck(true, true), Ok(()));
    reg.record_launch(&path, 4321);
    assert_eq!(reg.lookup_pid(&path), Ok(4321));
}

#[test]
fn launch_then_exit_removes_the_record() {
    let mut reg = RunningProcesses::new();
    let a = "/games/a/game.exe".to_string();
    let b = "/games/b/game.exe".to_string();
    reg.record_launch(&a, 100);
    reg.record_launch(&b, 200);
    assert!(reg.is_running(&a));
    assert!(reg.is_running(&b));
    // the supervising wait finished for a: its record is reclaimed
    reg.record_exit(&a);
    assert!(!reg.is_running(&a));
    assert_eq!(reg.lookup_pid(&a), Err(StoreError::NotFound));
    assert_eq!(reg.lookup_pid(&b), Ok(200));
    reg.record_exit(&b);
    assert!(!reg.is_running(&b));
}

#[test]
fn relaunching_replaces_the_stale_binding() {
    let mut reg = RunningProcesses::new();
    let a = "/games/a/game.exe".to_string();
    reg.record_launch(&a, 100);
    reg.record_launch(&a, 300);
    assert_eq!(reg.lookup_pid(&a), Ok(300));
    reg.record_exit(&a);
    assert_eq!(reg.lookup_pid(&a), Err(StoreError::NotFound));
}

fn cand(path: &str, folders: &[&str]) -> (String, Vec<String>) {
    (path.to_string(), folders.iter().map(|s| s.to_string()).collect())
}

#[test]
fn scanner_prefers_the_localized_build() {
    // EN comes first in traversal order, but CHS carries a keyword
    let candidates = vec![
        cand("Game/EN/game.exe", &["Game", "EN"]),
        cand("Game/CHS/game.exe", &["Game", "CHS"]),
    ];
    let picked = find_exe_with_folder_path(&candidates).expect("candidates exist");
    assert_eq!(picked.0, "Game/CHS/game.exe");
    assert_eq!(picked.1, vec!["Game".to_string(), "CHS".to_string()]);
}

#[test]
fn scanner_falls_back_to_the_first_candidate() {
    let candidates = vec![
        cand("Game/one/game.exe", &["Game", "one"]),
        cand("Game/two/game.exe", &["Game", "two"]),
    ];
    let picked = find_exe_with_folder_path(&candidates).expect("candidates exist");
    assert_eq!(picked.0, "Game/one/game.exe");
    assert!(find_exe_with_folder_path(&vec![]).is_none());
}

#[test]
fn scanner_lowercases_before_matching_keywords() {
    // if the paths were not lowercased, no keyword would match and the
    // first candidate would win
    let candidates = vec![
        cand("GAME/EN/GAME.EXE", &["GAME", "EN"]),
        cand("GAME/CHS/GAME.EXE", &["GAME", "CHS"]),
    ];
    let picked = find_exe_with_folder_path(&candidates).expect("candidates exist");
    assert_eq!(picked.0, "GAME/CHS/GAME.EXE");
}

#[test]
fn scanner_matches_unicode_keywords() {
    let candidates = vec![
        cand("Game/original/game.exe", &["Game", "original"]),
        cand("Game/汉化版/game.exe", &["Game", "汉化版"]),
    ];
    let picked = find_exe_with_folder_path(&candidates).expect("candidates exist");
    assert_eq!(picked.0, "Game/汉化版/game.exe");
}

#[test]
fn breadcrumbs_are_the_folders_between_root_and_file() {
    let exe = "/library/Fate/CHS/game.exe".to_string();
    let root = "/library".to_string();
    let crumbs = build_folder_path(&exe, &root);
    assert_eq!(crumbs, vec!["Fate".to_string(), "CHS".to_string()]);
}

#[test]
fn breadcrumbs_of_a_foreign_path_are_empty() {
    let exe = "/elsewhere/game.exe".to_string();
    let root = "/library".to_string();
    let crumbs = build_folder_path(&exe, &root);
    assert!(crumbs.is_empty());
}

#[test]
fn breadcrumbs_handle_windows_separators() {
    let exe = "C:\\lib\\Fate\\CHS\\game.exe".to_string();
    let root = "C:\\lib".to_string();
    let crumbs = build_folder_path(&exe, &root);
    assert_eq!(crumbs, vec!["Fate".to_string(), "CHS".to_string()]);
}

#[test]
fn component_splitting_skips_empty_pieces() {
    let chars: Vec<char> = "/a//b\\c/".chars().collect();
    let pieces = split_components(&chars);
    assert_eq!(pieces, vec!["a".to_string(), "b".to_string(), "c".to_string()]);
}
