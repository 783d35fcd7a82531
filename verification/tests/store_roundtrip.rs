use kano_store::models::{AppConfig, GameEntry, GamesDB, Note, ToolEntry};
use kano_store::store::{
    load_config_text, load_games_db_text, load_notes_text, load_token_doc_text, load_tools_text,
    save_config_text, save_games_db_text, save_notes_text, save_token_doc_text, save_tools_text,
};

fn sample_entry() -> GameEntry {
    GameEntry {
        name: "Sample \"quoted\" name".to_string(),
        path: "C:\\Games\\sample\\game.exe".to_string(),
        image: Some("game_data/images/42.jpg".to_string()),
        image_url: None,
        subject_id: Some(2288),
        playtime: 3600,
        last_played: Some("2024-01-02T03:04:05+00:00".to_string()),
        folder_path: Some(vec!["Sample".to_string(), "CHS".to_string()]),
        tags: vec!["已通关".to_string(), "favorite".to_string()],
    }
}

fn sample_db() -> GamesDB {
    GamesDB {
        games: vec![
            sample_entry(),
            GameEntry {
                name: "第二个游戏".to_string(),
                path: "/games/two/run.exe".to_string(),
                image: None,
                image_url: Some("https://example.test/cover.png".to_string()),
                subject_id: None,
                playtime: 0,
                last_played: None,
                folder_path: None,
                tags: vec![],
            },
        ],
        custom_tags: vec!["未玩".to_string(), "已通关".to_string()],
    }
}

fn entries_equal(a: &GameEntry, b: &GameEntry) {
    assert_eq!(a.name, b.name);
    assert_eq!(a.path, b.path);
    assert_eq!(a.image, b.image);
    assert_eq!(a.image_url, b.image_url);
    assert_eq!(a.subject_id, b.subject_id);
    assert_eq!(a.playtime, b.playtime);
    assert_eq!(a.last_played, b.last_played);
    assert_eq!(a.folder_path, b.folder_path);
    assert_eq!(a.tags, b.tags);
}

#[test]
fn games_db_round_trips_through_text() {
    let db = sample_db();
    let text = save_games_db_text(&db);
    let (loaded, parsed) = load_games_db_text(Some(&text));
    assert!(parsed);
    assert_eq!(loaded.games.len(), db.games.len());
    for (a, b) in loaded.games.iter().zip(db.games.iter()) {
        entries_equal(a, b);
    }
    assert_eq!(loaded.custom_tags, db.custom_tags);
    // saving the loaded value gives the same text again
    let text2 = save_games_db_text(&loaded);
    assert_eq!(text, text2);
}

#[test]
fn games_db_text_is_json_for_other_readers() {
    let db = sample_db();
    let text = save_games_db_text(&db);
    let v: serde_json::Value = serde_json::from_str(&text).expect("the saved text must be JSON");
    assert_eq!(v["games"][0]["name"], "Sample \"quoted\" name");
    assert_eq!(v["games"][0]["playtime"], 3600);
    assert_eq!(v["games"][0]["subject_id"], 2288);
    assert!(v["games"][1]["subject_id"].is_null());
    assert_eq!(v["games"][1]["name"], "第二个游戏");
    assert_eq!(v["custom_tags"][1], "已通关");
}

#[test]
fn load_on_missing_file_returns_default() {
    let (db, db_parsed) = load_games_db_text(None);
    assert!(db.games.is_empty());
    assert!(db.custom_tags.is_empty());
    assert!(!db_parsed);
    let (cfg, cfg_parsed) = load_config_text(None);
    assert!(cfg.access_token.is_none());
    assert!(!cfg_parsed);
    let (tools, parsed) = load_tools_text(None);
    assert!(tools.is_empty());
    assert!(!parsed);
    let (notes, notes_parsed) = load_notes_text(None);
    assert!(notes.is_empty());
    assert!(!notes_parsed);
}

#[test]
fn load_on_corrupted_file_returns_default() {
    let garbage = "{\"games\": [not json at all".to_string();
    let (db, parsed) = load_games_db_text(Some(&garbage));
    assert!(db.games.is_empty());
    assert!(db.custom_tags.is_empty());
    assert!(!parsed, "the defaulted path is observable");

    let truncated = save_games_db_text(&sample_db());
    let truncated = truncated[..truncated.len() - 2].to_string();
    let (db2, parsed2) = load_games_db_text(Some(&truncated));
    assert!(db2.games.is_empty());
    assert!(!parsed2);

    let (cfg, cfg_parsed) = load_config_text(Some(&"????".to_string()));
    assert!(cfg.access_token.is_none());
    assert!(!cfg_parsed);
}

#[test]
fn config_round_trips_through_text() {
    let cfg = AppConfig { access_token: Some("SECRET-REDACTED".to_string()) };
    let text = save_config_text(&cfg);
    let (loaded, parsed) = load_config_text(Some(&text));
    assert!(parsed);
    assert_eq!(loaded.access_token, cfg.access_token);

    let empty = AppConfig { access_token: None };
    let text2 = save_config_text(&empty);
    let (loaded2, parsed2) = load_config_text(Some(&text2));
    assert!(parsed2);
    assert!(loaded2.access_token.is_none());
    let v: serde_json::Value = serde_json::from_str(&text2).unwrap();
    assert!(v["access_token"].is_null());
}

#[test]
fn token_doc_round_trips_through_text() {
    let slot = Some("token-value".to_string());
    let text = save_token_doc_text(&slot);
    assert_eq!(load_token_doc_text(Some(&text)), slot);
    let text2 = save_token_doc_text(&None);
    assert_eq!(load_token_doc_text(Some(&text2)), None);
    assert_eq!(load_token_doc_text(Some(&"garbage".to_string())), None);
}

#[test]
fn tools_round_trip_through_text() {
    let tools = vec![
        ToolEntry {
            id: "0f8fad5b-d9cb-469f-a165-70867728950e".to_string(),
            name: "Locale Emulator".to_string(),
            path: "C:\\tools\\le.exe".to_string(),
        },
        ToolEntry {
            id: "7c9e6679-7425-40de-944b-e07fc1f90ae7".to_string(),
            name: "文本提取".to_string(),
            path: "/opt/tools/extract".to_string(),
        },
    ];
    let text = save_tools_text(&tools);
    let (loaded, parsed) = load_tools_text(Some(&text));
    assert!(parsed);
    assert_eq!(loaded.len(), 2);
    assert_eq!(loaded[0].id, tools[0].id);
    assert_eq!(loaded[1].name, tools[1].name);
    assert_eq!(loaded[1].path, tools[1].path);

    let empty: Vec<ToolEntry> = vec![];
    let text2 = save_tools_text(&empty);
    assert_eq!(text2, "[]");
    let (loaded2, parsed2) = load_tools_text(Some(&text2));
    assert!(parsed2);
    assert!(loaded2.is_empty());
}

#[test]
fn notes_round_trip_through_text() {
    let notes = vec![
        Note {
            game_id: Some("game-1".to_string()),
            game_name: Some("Sample".to_string()),
            title: "进度".to_string(),
            content: "line one\nline two".to_string(),
            created_at: "2024-01-01T00:00:00+00:00".to_string(),
            updated_at: "2024-02-01T00:00:00+00:00".to_string(),
        },
        Note {
            game_id: None,
            game_name: None,
            title: "free".to_string(),
            content: "standalone".to_string(),
            created_at: "2024-01-01T00:00:00+00:00".to_string(),
            updated_at: "2024-01-01T00:00:00+00:00".to_string(),
        },
    ];
    let text = save_notes_text(&notes);
    let (loaded, parsed) = load_notes_text(Some(&text));
    assert!(parsed, "saved notes must load");
    assert_eq!(loaded.len(), 2);
    assert_eq!(loaded[0].game_id, notes[0].game_id);
    assert_eq!(loaded[0].content, notes[0].content);
    assert_eq!(loaded[1].game_id, None);
}

#[test]
fn legacy_notes_still_parse_and_convert() {
    let legacy = "[{\"game_path\": \"C:\\\\old\\\\game.exe\", \"title\": \"t\", \
                   \"content\": \"c\", \"created_at\": \"then\", \"updated_at\": \"now\"}]"
        .to_string();
    let (loaded, parsed) = load_notes_text(Some(&legacy));
    assert!(parsed, "the legacy shape must still parse");
    assert_eq!(loaded.len(), 1);
    assert_eq!(loaded[0].game_id, None);
    assert_eq!(loaded[0].game_name, None);
    assert_eq!(loaded[0].title, "t");
    assert_eq!(loaded[0].content, "c");
    assert_eq!(loaded[0].created_at, "then");
    assert_eq!(loaded[0].updated_at, "now");
}

#[test]
fn malformed_notes_degrade_to_empty_with_the_flag_down() {
    let bad = "[{\"neither\": 1}]".to_string();
    let (notes, parsed) = load_notes_text(Some(&bad));
    assert!(notes.is_empty());
    assert!(!parsed);
}

#[test]
fn escaped_characters_survive_the_round_trip() {
    let mut db = GamesDB { games: vec![], custom_tags: vec![] };
    db.custom_tags.push("a\"b\\c\nd\te\rf".to_string());
    let text = save_games_db_text(&db);
    let (loaded, _) = load_games_db_text(Some(&text));
    assert_eq!(loaded.custom_tags, db.custom_tags);
    // serde_json agrees about what the escapes mean
    let v: serde_json::Value = serde_json::from_str(&text).unwrap();
    assert_eq!(v["custom_tags"][0], "a\"b\\c\nd\te\rf");
}

#[test]
fn extreme_numbers_survive_the_round_trip() {
    let mut db = GamesDB { games: vec![], custom_tags: vec![] };
    let mut e = GameEntry {
        name: "edge".to_string(),
        path: "/e".to_string(),
        image: None,
        image_url: None,
        subject_id: Some(i64::MIN),
        playtime: i64::MAX,
        last_played: None,
        folder_path: None,
        tags: vec![],
    };
    db.games.push(e.clone());
    e.subject_id = Some(-1);
    e.playtime = 0;
    e.path = "/f".to_string();
    db.games.push(e);
    let text = save_games_db_text(&db);
    let (loaded, _) = load_games_db_text(Some(&text));
    assert_eq!(loaded.games[0].subject_id, Some(i64::MIN));
    assert_eq!(loaded.games[0].playtime, i64::MAX);
    assert_eq!(loaded.games[1].subject_id, Some(-1));
    let v: serde_json::Value = serde_json::from_str(&text).unwrap();
    assert_eq!(v["games"][0]["playtime"], i64::MAX);
    assert_eq!(v["games"][0]["subject_id"], i64::MIN);
}
