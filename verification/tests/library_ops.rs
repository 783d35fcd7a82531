use kano_store::library::{
    add_custom_tag, add_game_entry, add_tag_to_game, get_all_tags, get_games_count_by_tag,
    new_game_entry, remove_custom_tag, remove_game, remove_tag_from_game, update_game_image,
    update_game_info, update_game_playtime, StoreError,
};
use kano_store::models::{GameEntry, GamesDB};

fn entry(path: &str, name: &str) -> GameEntry {
    GameEntry {
        name: name.to_string(),
        path: path.to_string(),
        image: None,
        image_url: None,
        subject_id: None,
        playtime: 0,
        last_played: None,
        folder_path: None,
        tags: vec![],
    }
}

fn db_with(paths: &[(&str, &str)]) -> GamesDB {
    GamesDB {
        games: paths.iter().map(|(p, n)| entry(p, n)).collect(),
        custom_tags: vec![],
    }
}

#[test]
fn insert_with_existing_path_is_a_no_op() {
    let mut db = db_with(&[("/g/a.exe", "a"), ("/g/b.exe", "b")]);
    let before_len = db.games.len();
    let before_name = db.games[0].name.clone();
    let dup = entry("/g/a.exe", "something else");
    let added = add_game_entry(&mut db, dup);
    assert!(!added);
    assert_eq!(db.games.len(), before_len);
    assert_eq!(db.games[0].name, before_name);
}

#[test]
fn insert_with_new_path_appends() {
    let mut db = db_with(&[("/g/a.exe", "a")]);
    let added = add_game_entry(&mut db, entry("/g/c.exe", "c"));
    assert!(added);
    assert_eq!(db.games.len(), 2);
    assert_eq!(db.games[1].path, "/g/c.exe");
}

#[test]
fn playtime_updates_add_up_and_last_played_advances() {
    let mut db = db_with(&[("/g/a.exe", "a")]);
    let p = "/g/a.exe".to_string();
    let t1 = "2024-05-01T10:00:00+00:00".to_string();
    let t2 = "2024-05-01T12:00:00+00:00".to_string();
    let total1 = update_game_playtime(&mut db, &p, 120, &t1).expect("entry exists");
    assert_eq!(total1, 120);
    let total2 = update_game_playtime(&mut db, &p, 30, &t2).expect("entry exists");
    assert_eq!(total2, 150);
    assert_eq!(db.games[0].playtime, 150);
    assert_eq!(db.games[0].last_played.as_deref(), Some(t2.as_str()));
}

#[test]
fn playtime_update_on_absent_path_is_not_found() {
    let mut db = db_with(&[("/g/a.exe", "a")]);
    let missing = "/nope".to_string();
    let ts = "t".to_string();
    let r = update_game_playtime(&mut db, &missing, 10, &ts);
    assert_eq!(r, Err(StoreError::NotFound));
    assert_eq!(db.games[0].playtime, 0);
}

#[test]
fn removing_a_tag_cascades_to_every_game() {
    let mut db = db_with(&[("/g/a.exe", "a"), ("/g/b.exe", "b"), ("/g/c.exe", "c")]);
    db.custom_tags = vec!["未玩".to_string(), "已通关".to_string()];
    db.games[0].tags = vec!["已通关".to_string()];
    db.games[1].tags = vec!["未玩".to_string(), "已通关".to_string()];
    let tag = "已通关".to_string();
    remove_custom_tag(&mut db, &tag);
    assert_eq!(db.custom_tags, vec!["未玩".to_string()]);
    assert!(db.games[0].tags.is_empty());
    assert_eq!(db.games[1].tags, vec!["未玩".to_string()]);
    assert!(db.games[2].tags.is_empty());
}

#[test]
fn tag_seeding_happens_only_on_an_empty_set() {
    let mut db = db_with(&[]);
    let (tags, seeded) = get_all_tags(&mut db);
    assert!(seeded);
    assert_eq!(
        tags,
        vec!["未玩".to_string(), "正在玩".to_string(), "已通关".to_string()]
    );
    let (tags2, seeded2) = get_all_tags(&mut db);
    assert!(!seeded2);
    assert_eq!(tags2, tags);
}

#[test]
fn blank_and_duplicate_tags_are_refused() {
    let mut db = db_with(&[]);
    let blank = "   ".to_string();
    assert_eq!(add_custom_tag(&mut db, &blank), Err(StoreError::EmptyTag));
    let tag = "new-tag".to_string();
    assert_eq!(add_custom_tag(&mut db, &tag), Ok(()));
    assert_eq!(add_custom_tag(&mut db, &tag), Err(StoreError::DuplicateTag));
    assert_eq!(db.custom_tags, vec!["new-tag".to_string()]);
}

#[test]
fn tagging_a_game_is_idempotent() {
    let mut db = db_with(&[("/g/a.exe", "a")]);
    let p = "/g/a.exe".to_string();
    let tag = "favorite".to_string();
    assert_eq!(add_tag_to_game(&mut db, &p, &tag), Ok(true));
    assert_eq!(add_tag_to_game(&mut db, &p, &tag), Ok(false));
    assert_eq!(db.games[0].tags, vec!["favorite".to_string()]);
    let missing = "/nope".to_string();
    assert_eq!(add_tag_to_game(&mut db, &missing, &tag), Err(StoreError::NotFound));
    assert_eq!(remove_tag_from_game(&mut db, &p, &tag), Ok(()));
    assert!(db.games[0].tags.is_empty());
    assert_eq!(remove_tag_from_game(&mut db, &missing, &tag), Err(StoreError::NotFound));
}

#[test]
fn counting_games_by_tag() {
    let mut db = db_with(&[("/g/a.exe", "a"), ("/g/b.exe", "b")]);
    db.games[0].tags = vec!["x".to_string()];
    db.games[1].tags = vec!["x".to_string(), "y".to_string()];
    assert_eq!(get_games_count_by_tag(&db, &"x".to_string()), 2);
    assert_eq!(get_games_count_by_tag(&db, &"y".to_string()), 1);
    assert_eq!(get_games_count_by_tag(&db, &"z".to_string()), 0);
}

#[test]
fn partial_update_touches_only_supplied_fields() {
    let mut db = db_with(&[("/g/a.exe", "old name")]);
    db.games[0].playtime = 77;
    let p = "/g/a.exe".to_string();
    let snapshot = update_game_info(
        &mut db,
        &p,
        Some("new name".to_string()),
        None,
        Some("https://example.test/c.png".to_string()),
        Some(4242),
    )
    .expect("entry exists");
    assert_eq!(snapshot.name, "new name");
    assert_eq!(snapshot.image, None);
    assert_eq!(snapshot.image_url.as_deref(), Some("https://example.test/c.png"));
    assert_eq!(snapshot.subject_id, Some(4242));
    assert_eq!(snapshot.playtime, 77);
    assert_eq!(db.games[0].name, "new name");
    let missing = "/nope".to_string();
    assert_eq!(
        update_game_info(&mut db, &missing, None, None, None, None).err(),
        Some(StoreError::NotFound)
    );
}

#[test]
fn image_update_sets_only_the_image() {
    let mut db = db_with(&[("/g/a.exe", "a")]);
    let p = "/g/a.exe".to_string();
    let img = "game_data/images/7.jpg".to_string();
    assert_eq!(update_game_image(&mut db, &p, &img), Ok(()));
    assert_eq!(db.games[0].image.as_deref(), Some("game_data/images/7.jpg"));
    assert_eq!(db.games[0].name, "a");
    let missing = "/nope".to_string();
    assert_eq!(update_game_image(&mut db, &missing, &img), Err(StoreError::NotFound));
}

#[test]
fn remove_game_drops_exactly_that_path() {
    let mut db = db_with(&[("/g/a.exe", "a"), ("/g/b.exe", "b")]);
    let p = "/g/a.exe".to_string();
    remove_game(&mut db, &p);
    assert_eq!(db.games.len(), 1);
    assert_eq!(db.games[0].path, "/g/b.exe");
    // removing an absent path is still a success and changes nothing
    remove_game(&mut db, &p);
    assert_eq!(db.games.len(), 1);
}

#[test]
fn new_entries_default_their_name_to_the_file_stem() {
    let e = new_game_entry("C:\\Games\\Fate\\game.exe".to_string(), None, None);
    assert_eq!(e.name, "game");
    assert_eq!(e.playtime, 0);
    assert!(e.tags.is_empty());
    let e2 = new_game_entry("/games/x/run.exe".to_string(), Some("given".to_string()), None);
    assert_eq!(e2.name, "given");
    let e3 = new_game_entry("/games/dir/".to_string(), None, None);
    assert_eq!(e3.name, "unnamed");
}

#[test]
fn error_messages_are_not_empty() {
    assert!(!StoreError::NotFound.message().is_empty());
    assert!(!StoreError::LockTimeout.message().is_empty());
    assert!(!StoreError::ParseError.message().is_empty());
    assert!(!StoreError::IoError.message().is_empty());
    assert!(!StoreError::EmptyTag.message().is_empty());
    assert!(!StoreError::DuplicateTag.message().is_empty());
}
