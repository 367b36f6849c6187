//! Project manifest types: the project's metadata, its characters and its
//! scene files, as loaded from a project directory.
use vstd::prelude::*;

verus! {

/// Asset identifier (a deterministic hash of the asset's path).
#[derive(Debug, Clone, Copy, PartialEq, Eq, Hash, Structural)]
pub struct AssetId(pub u64);

/// Default stage position of a character sprite.
#[derive(Debug, Clone, Copy, PartialEq, Eq, Structural)]
pub enum Position {
    Left,
    Center,
    Right,
}

/// Design resolution of a project, in logical pixels.
#[derive(Debug, Clone, Copy, PartialEq, Eq, Structural)]
pub struct Resolution {
    pub width: u32,
    pub height: u32,
}

/// Default text display speed of a project.
#[derive(Debug, Clone, Copy, PartialEq, Eq, Structural)]
pub enum TextSpeed {
    Slow,
    Normal,
    Fast,
    Instant,
}

/// Project settings that the engine logic reads (the volume defaults are
/// kept by the application layer).
#[derive(Debug, Clone)]
pub struct GameSettings {
    pub language: String,
    pub text_speed: TextSpeed,
}

/// Project metadata (the `[game]` section of `aster.toml`).
#[derive(Debug, Clone)]
pub struct Game {
    pub name: String,
    pub version: String,
    /// Scene the engine starts with.
    pub entry_scene: String,
    pub resolution: Resolution,
    pub settings: GameSettings,
}

/// A character definition (an `.asterchar` file).
#[derive(Debug, Clone)]
pub struct Character {
    /// Unique identifier.
    pub id: String,
    /// Display name.
    pub name: String,
    /// Display color as a hex string.
    pub display_color: String,
    pub description: Option<String>,
    /// Birthday as `MM-DD`.
    pub birthday: Option<String>,
    pub default_position: Position,
    /// Emotion name → sprite asset; no emotion occurs twice.
    pub sprites: Vec<(String, AssetId)>,
    /// Whether the character has a voice configuration.
    pub has_voice: bool,
}

/// A scene file found under `scripts/`.
#[derive(Debug, Clone, PartialEq, Eq)]
pub struct SceneEntry {
    /// Scene identifier: the path below `scripts/` without the `.aster` extension,
    /// with `/` as separator (e.g. `chapter1/sakura_road`).
    pub scene_id: String,
    /// File path relative to the project root.
    pub file_path: String,
    /// Whether this is the project's entry scene.
    pub is_entry: bool,
}

/// Everything loaded from a project directory.
#[derive(Debug, Clone)]
pub struct GameManifest {
    pub project: Game,
    /// Characters; no identifier occurs twice.
    pub characters: Vec<Character>,
    pub scenes: Vec<SceneEntry>,
}

/// No two entries of `keys` are the same string.
pub open spec fn distinct_views(keys: Seq<Seq<char>>) -> bool {
    forall|i: int, j: int| 0 <= i < keys.len() && 0 <= j < keys.len() && i != j ==> keys[i] != keys[j]
}

/// The identifiers of a list of characters.
pub open spec fn character_ids(cs: Seq<Character>) -> Seq<Seq<char>> {
    cs.map_values(|c: Character| c.id@)
}

/// The emotion names of a sprite table.
pub open spec fn emotion_names(sprites: Seq<(String, AssetId)>) -> Seq<Seq<char>> {
    sprites.map_values(|e: (String, AssetId)| e.0@)
}

/// A character table as the loader builds it: identifiers are unique, and so
/// are the emotion names of each character.
pub open spec fn characters_wf(cs: Seq<Character>) -> bool {
    &&& distinct_views(character_ids(cs))
    &&& forall|i: int| 0 <= i < cs.len() ==> distinct_views(emotion_names(#[trigger] cs[i].sprites@))
}

} // verus!
