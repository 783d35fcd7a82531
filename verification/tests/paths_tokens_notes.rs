use kano_store::models::{AppConfig, Note, ToolEntry};
use kano_store::library::StoreError;
use kano_store::notes::{delete_note, delete_note_by_index, get_note, save_note, save_note_at};
use kano_store::paths::{
    app_base_dir, cache_path, cached_image_candidates, config_path, default_name_for_path,
    flat_legacy_locations, games_db_legacy_locations, games_db_path, image_ext_for_url,
    image_filename, images_dir_path, lock_marker_path, notes_path, project_root, should_migrate,
    temp_file_path, token_path, tools_path, with_extension,
};
use kano_store::tokens::{resolve_token, token_from_file_slot, token_slot_for_save};
use kano_store::tools::{add_tool, remove_tool, tool_launch_path};
use kano_store::{lock_may_retry, LOCK_MAX_ATTEMPTS};

#[test]
fn base_dir_prefers_the_executable_parent() {
    assert_eq!(
        app_base_dir(Some("/app".to_string()), Some("/cwdp".to_string()), "/cwd".to_string()),
        "/app"
    );
    assert_eq!(
        app_base_dir(None, Some("/cwdp".to_string()), "/cwd".to_string()),
        "/cwdp"
    );
    assert_eq!(app_base_dir(None, None, "/tmpdir".to_string()), "/tmpdir");
}

#[test]
fn document_paths_live_under_kano_data() {
    let base = "/app".to_string();
    assert_eq!(games_db_path(&base), "/app/kano_data/games_db.json");
    assert_eq!(config_path(&base), "/app/kano_data/tauri_config.json");
    assert_eq!(cache_path(&base), "/app/kano_data/bangumi_cache.json");
    assert_eq!(images_dir_path(&base), "/app/kano_data/images");
    assert_eq!(tools_path(&base), "/app/kano_data/tools.json");
    assert_eq!(notes_path(&base), "/app/kano_data/notes.json");
    assert_eq!(token_path(&base), "/app/kano_data/tokens.json");
    assert_eq!(project_root(&base), "/app");
}

#[test]
fn legacy_locations_come_in_priority_order() {
    let base = "/app".to_string();
    let cwdp = Some("/old".to_string());
    assert_eq!(
        games_db_legacy_locations(&base, &cwdp),
        vec![
            "/app/game_data/games_db.json".to_string(),
            "/old/game_data/games_db.json".to_string(),
        ]
    );
    assert_eq!(
        flat_legacy_locations(&base, &cwdp, "tools.json"),
        vec!["/app/tools.json".to_string(), "/old/tools.json".to_string()]
    );
    assert_eq!(
        flat_legacy_locations(&base, &None, "tokens.json"),
        vec!["/app/tokens.json".to_string()]
    );
}

#[test]
fn migration_moves_only_onto_an_absent_target() {
    assert!(should_migrate(true, false));
    assert!(!should_migrate(true, true));
    assert!(!should_migrate(false, false));
    assert!(!should_migrate(false, true));
}

#[test]
fn lock_and_temp_names_sit_beside_the_document() {
    let doc = "/app/kano_data/games_db.json".to_string();
    assert_eq!(lock_marker_path(&doc), "/app/kano_data/games_db.lock");
    assert_eq!(temp_file_path(&doc, 4321), "/app/kano_data/games_db.tmp.4321");
    let bare = "/app/kano_data/tokens".to_string();
    assert_eq!(with_extension(&bare, "lock"), "/app/kano_data/tokens.lock");
    // a dotted directory does not lose a piece of its name
    let dotted = "/app/v2.1/data".to_string();
    assert_eq!(with_extension(&dotted, "lock"), "/app/v2.1/data.lock");
}

#[test]
fn default_names_come_from_the_file_stem() {
    assert_eq!(default_name_for_path(&"/g/Fate/game.exe".to_string()), "game");
    assert_eq!(default_name_for_path(&"C:\\g\\魔法使いの夜.exe".to_string()), "魔法使いの夜");
    assert_eq!(default_name_for_path(&"/g/dir/".to_string()), "unnamed");
    assert_eq!(default_name_for_path(&"/g/.hidden".to_string()), ".hidden");
}

#[test]
fn image_extensions_follow_the_url() {
    assert_eq!(image_ext_for_url(&"https://x.test/a.jpg?sig=1".to_string()), "jpg");
    assert_eq!(image_ext_for_url(&"https://x.test/a.jpeg".to_string()), "jpg");
    assert_eq!(image_ext_for_url(&"https://x.test/a.png".to_string()), "png");
    assert_eq!(image_ext_for_url(&"https://x.test/a.webp".to_string()), "webp");
    assert_eq!(image_ext_for_url(&"https://x.test/cover".to_string()), "jpg");
    assert_eq!(image_filename(2288, &"jpg".to_string()), "2288.jpg");
    assert_eq!(
        cached_image_candidates(7),
        vec![
            "7.jpg".to_string(),
            "7.jpeg".to_string(),
            "7.png".to_string(),
            "7.webp".to_string(),
        ]
    );
}

#[test]
fn lock_retries_stop_at_the_budget() {
    assert!(lock_may_retry(0));
    assert!(lock_may_retry(LOCK_MAX_ATTEMPTS - 1));
    assert!(!lock_may_retry(LOCK_MAX_ATTEMPTS));
    assert!(!lock_may_retry(LOCK_MAX_ATTEMPTS + 1));
}

#[test]
fn token_slot_validation_trims_and_rejects_blank() {
    assert_eq!(token_from_file_slot(&None), None);
    assert_eq!(token_from_file_slot(&Some("  ".to_string())), None);
    assert_eq!(
        token_from_file_slot(&Some("  tok-1  ".to_string())),
        Some("tok-1".to_string())
    );
    assert_eq!(token_slot_for_save(&"".to_string()), None);
    assert_eq!(token_slot_for_save(&" \t ".to_string()), None);
    assert_eq!(token_slot_for_save(&"tok-2".to_string()), Some("tok-2".to_string()));
}

#[test]
fn token_resolution_prefers_the_dedicated_file() {
    let mut cfg = AppConfig { access_token: Some("from-config".to_string()) };
    let (tok, migrate) = resolve_token(Some("from-file".to_string()), &mut cfg);
    assert_eq!(tok, Some("from-file".to_string()));
    assert!(!migrate);
    assert_eq!(cfg.access_token, Some("from-config".to_string()));
}

#[test]
fn token_resolution_migrates_out_of_the_config() {
    let mut cfg = AppConfig { access_token: Some("from-config".to_string()) };
    let (tok, migrate) = resolve_token(None, &mut cfg);
    assert_eq!(tok, Some("from-config".to_string()));
    assert!(migrate);
    assert_eq!(cfg.access_token, None);
    // second read: the fallback never repeats
    let (tok2, migrate2) = resolve_token(tok, &mut cfg);
    assert_eq!(tok2, Some("from-config".to_string()));
    assert!(!migrate2);
    let mut empty = AppConfig { access_token: None };
    let (tok3, migrate3) = resolve_token(None, &mut empty);
    assert_eq!(tok3, None);
    assert!(!migrate3);
}

#[test]
fn tools_get_fresh_unique_ids() {
    let mut tools: Vec<ToolEntry> = vec![];
    let name = "Locale Emulator".to_string();
    let path = "C:\\tools\\le.exe".to_string();
    let a = add_tool(&mut tools, &name, &path);
    let b = add_tool(&mut tools, &name, &path);
    assert_eq!(tools.len(), 2);
    assert_eq!(a.id.len(), 36);
    assert_eq!(b.id.len(), 36);
    assert_ne!(a.id, b.id);
    assert_eq!(a.name, name);
    assert_eq!(a.path, path);
}

#[test]
fn tool_launch_resolves_by_id() {
    let mut tools: Vec<ToolEntry> = vec![];
    let t = add_tool(&mut tools, &"x".to_string(), &"/opt/x".to_string());
    assert_eq!(tool_launch_path(&tools, &t.id), Ok("/opt/x".to_string()));
    assert_eq!(
        tool_launch_path(&tools, &"no-such-id".to_string()),
        Err(StoreError::NotFound)
    );
    remove_tool(&mut tools, &t.id);
    assert!(tools.is_empty());
    assert_eq!(tool_launch_path(&tools, &t.id), Err(StoreError::NotFound));
}

fn note(game_id: Option<&str>, title: &str) -> Note {
    Note {
        game_id: game_id.map(|s| s.to_string()),
        game_name: None,
        title: title.to_string(),
        content: "content".to_string(),
        created_at: "".to_string(),
        updated_at: "".to_string(),
    }
}

#[test]
fn note_upsert_overwrites_the_keyed_note() {
    let mut notes: Vec<Note> = vec![];
    let t1 = "2024-01-01T00:00:00+00:00".to_string();
    let t2 = "2024-02-02T00:00:00+00:00".to_string();
    let first = save_note_at(&mut notes, note(Some("g1"), "v1"), &t1);
    assert_eq!(notes.len(), 1);
    assert_eq!(first.created_at, t1);
    assert_eq!(first.updated_at, t1);
    let mut second = note(Some("g1"), "v2");
    second.content = "new content".to_string();
    let stored = save_note_at(&mut notes, second, &t2);
    assert_eq!(notes.len(), 1, "the keyed upsert must not append");
    assert_eq!(stored.title, "v2");
    assert_eq!(stored.content, "new content");
    assert_eq!(stored.created_at, t1, "the creation timestamp stays");
    assert_eq!(stored.updated_at, t2);
    assert_eq!(notes[0].title, "v2");
}

#[test]
fn unkeyed_and_blank_keyed_notes_always_append() {
    let mut notes: Vec<Note> = vec![];
    let t = "2024-01-01T00:00:00+00:00".to_string();
    save_note_at(&mut notes, note(None, "a"), &t);
    save_note_at(&mut notes, note(None, "b"), &t);
    save_note_at(&mut notes, note(Some("  "), "c"), &t);
    save_note_at(&mut notes, note(Some("  "), "d"), &t);
    assert_eq!(notes.len(), 4);
}

#[test]
fn save_note_stamps_from_the_clock() {
    let mut notes: Vec<Note> = vec![];
    let stored = save_note(&mut notes, note(Some("g1"), "t"));
    assert!(!stored.created_at.is_empty());
    assert!(!stored.updated_at.is_empty());
    assert_eq!(stored.created_at, stored.updated_at);
}

#[test]
fn note_lookup_and_deletion_by_key() {
    let mut notes: Vec<Note> = vec![];
    let t = "2024-01-01T00:00:00+00:00".to_string();
    save_note_at(&mut notes, note(Some("g1"), "one"), &t);
    save_note_at(&mut notes, note(None, "free"), &t);
    save_note_at(&mut notes, note(Some("g2"), "two"), &t);
    let found = get_note(&notes, &"g2".to_string()).expect("note exists");
    assert_eq!(found.title, "two");
    assert!(get_note(&notes, &"g9".to_string()).is_none());
    delete_note(&mut notes, &"g1".to_string());
    assert_eq!(notes.len(), 2);
    assert!(get_note(&notes, &"g1".to_string()).is_none());
    assert_eq!(notes[0].title, "free", "free-standing notes survive keyed deletion");
}

#[test]
fn note_deletion_by_index_checks_bounds() {
    let mut notes: Vec<Note> = vec![];
    let t = "2024-01-01T00:00:00+00:00".to_string();
    save_note_at(&mut notes, note(None, "a"), &t);
    save_note_at(&mut notes, note(None, "b"), &t);
    assert_eq!(delete_note_by_index(&mut notes, 5), Err(StoreError::NotFound));
    assert_eq!(notes.len(), 2);
    assert_eq!(delete_note_by_index(&mut notes, 0), Ok(()));
    assert_eq!(notes.len(), 1);
    assert_eq!(notes[0].title, "b");
}
