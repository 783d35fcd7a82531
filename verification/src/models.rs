//! Data model of the persisted documents: catalog entries, the games
//! library, the application configuration, tool shortcuts and notes,
//! together with their mathematical models (views).

use vstd::prelude::*;

verus! {

/// One game of the catalog. Its executable path is the sole identity
/// key: a library never holds two entries with the same path.
pub struct GameEntry {
    pub name: String,
    pub path: String,
    /// Local cover image path, if one was downloaded.
    pub image: Option<String>,
    /// Remote cover image URL, if one is known.
    pub image_url: Option<String>,
    /// External-catalog subject identifier.
    pub subject_id: Option<i64>,
    /// Cumulative playtime in seconds.
    pub playtime: i64,
    /// Last-played timestamp, ISO 8601.
    pub last_played: Option<String>,
    /// Folder-name breadcrumbs recorded at import time.
    pub folder_path: Option<Vec<String>>,
    /// Free-form tag strings.
    pub tags: Vec<String>,
}

/// Mathematical model of a `GameEntry`: every string as a `Seq<char>`.
pub struct GameEntryModel {
    pub name: Seq<char>,
    pub path: Seq<char>,
    pub image: Option<Seq<char>>,
    pub image_url: Option<Seq<char>>,
    pub subject_id: Option<i64>,
    pub playtime: i64,
    pub last_played: Option<Seq<char>>,
    pub folder_path: Option<Seq<Seq<char>>>,
    pub tags: Seq<Seq<char>>,
}

impl View for GameEntry {
    type V = GameEntryModel;

    open spec fn view(&self) -> GameEntryModel {
        GameEntryModel {
            name: self.name@,
            path: self.path@,
            image: self.image.deep_view(),
            image_url: self.image_url.deep_view(),
            subject_id: self.subject_id,
            playtime: self.playtime,
            last_played: self.last_played.deep_view(),
            folder_path: self.folder_path.deep_view(),
            tags: self.tags.deep_view(),
        }
    }
}

impl DeepView for GameEntry {
    type V = GameEntryModel;

    open spec fn deep_view(&self) -> GameEntryModel {
        self.view()
    }
}

impl Clone for GameEntry {
    fn clone(&self) -> (r: Self)
        ensures
            r@ == self@,
    {
        GameEntry {
            name: self.name.clone(),
            path: self.path.clone(),
            image: self.image.clone(),
            image_url: self.image_url.clone(),
            subject_id: self.subject_id,
            playtime: self.playtime,
            last_played: self.last_played.clone(),
            folder_path: self.folder_path.clone(),
            tags: self.tags.clone(),
        }
    }
}

/// The games library: the entries in insertion order, plus the set of
/// custom tag names offered to the user.
pub struct GamesDB {
    pub games: Vec<GameEntry>,
    pub custom_tags: Vec<String>,
}

/// Mathematical model of a `GamesDB`.
pub struct GamesDBModel {
    pub games: Seq<GameEntryModel>,
    pub custom_tags: Seq<Seq<char>>,
}

impl View for GamesDB {
    type V = GamesDBModel;

    open spec fn view(&self) -> GamesDBModel {
        GamesDBModel {
            games: self.games.deep_view(),
            custom_tags: self.custom_tags.deep_view(),
        }
    }
}

impl GamesDBModel {
    /// Whether some entry of the library has this path.
    pub open spec fn contains_path(self, path: Seq<char>) -> bool {
        exists|i: int| 0 <= i < self.games.len() && self.games[i].path == path
    }
}

impl Default for GamesDB {
    /// An empty library: the default a corrupted or missing file
    /// degrades to.
    fn default() -> (r: Self)
        ensures
            r@.games === Seq::<GameEntryModel>::empty(),
            r@.custom_tags === Seq::<Seq<char>>::empty(),
    {
        GamesDB { games: Vec::new(), custom_tags: Vec::new() }
    }
}

/// The application configuration document. Historically it also held
/// the auth token; a present token is migrated out on read.
pub struct AppConfig {
    pub access_token: Option<String>,
}

impl View for AppConfig {
    type V = Option<Seq<char>>;

    open spec fn view(&self) -> Option<Seq<char>> {
        self.access_token.deep_view()
    }
}

impl Clone for AppConfig {
    fn clone(&self) -> (r: Self)
        ensures
            r@ == self@,
    {
        AppConfig { access_token: self.access_token.clone() }
    }
}

impl Default for AppConfig {
    fn default() -> (r: Self)
        ensures
            r@ === None::<Seq<char>>,
    {
        AppConfig { access_token: None }
    }
}

/// A tool shortcut: a generated unique id, a display name, and the
/// executable path to launch.
pub struct ToolEntry {
    pub id: String,
    pub name: String,
    pub path: String,
}

/// Mathematical model of a `ToolEntry`.
pub struct ToolEntryModel {
    pub id: Seq<char>,
    pub name: Seq<char>,
    pub path: Seq<char>,
}

impl View for ToolEntry {
    type V = ToolEntryModel;

    open spec fn view(&self) -> ToolEntryModel {
        ToolEntryModel { id: self.id@, name: self.name@, path: self.path@ }
    }
}

impl DeepView for ToolEntry {
    type V = ToolEntryModel;

    open spec fn deep_view(&self) -> ToolEntryModel {
        self.view()
    }
}

impl Clone for ToolEntry {
    fn clone(&self) -> (r: Self)
        ensures
            r@ == self@,
    {
        ToolEntry { id: self.id.clone(), name: self.name.clone(), path: self.path.clone() }
    }
}

/// A free-text note, optionally keyed by a game identifier.
pub struct Note {
    pub game_id: Option<String>,
    pub game_name: Option<String>,
    pub title: String,
    pub content: String,
    pub created_at: String,
    pub updated_at: String,
}

/// Mathematical model of a `Note`.
pub struct NoteModel {
    pub game_id: Option<Seq<char>>,
    pub game_name: Option<Seq<char>>,
    pub title: Seq<char>,
    pub content: Seq<char>,
    pub created_at: Seq<char>,
    pub updated_at: Seq<char>,
}

impl View for Note {
    type V = NoteModel;

    open spec fn view(&self) -> NoteModel {
        NoteModel {
            game_id: self.game_id.deep_view(),
            game_name: self.game_name.deep_view(),
            title: self.title@,
            content: self.content@,
            created_at: self.created_at@,
            updated_at: self.updated_at@,
        }
    }
}

impl DeepView for Note {
    type V = NoteModel;

    open spec fn deep_view(&self) -> NoteModel {
        self.view()
    }
}

impl Clone for Note {
    fn clone(&self) -> (r: Self)
        ensures
            r@ == self@,
    {
        Note {
            game_id: self.game_id.clone(),
            game_name: self.game_name.clone(),
            title: self.title.clone(),
            content: self.content.clone(),
            created_at: self.created_at.clone(),
            updated_at: self.updated_at.clone(),
        }
    }
}

} // verus!
