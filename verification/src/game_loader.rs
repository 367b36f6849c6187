//! Project loading steps that do not touch the file system: deriving scene
//! identifiers from script paths, converting character files, and marking
//! the entry scene.
use std::hash::{Hash, Hasher};
use vstd::prelude::*;

use crate::error::RuntimeError;
use crate::game_manifest::{
    character_ids, characters_wf, distinct_views, emotion_names, AssetId, Character, Position, SceneEntry,
};
use crate::strings::str_equal;

verus! {

/// A scene identifier from a script path relative to `scripts/` with the
/// `.aster` extension removed: backslashes become `/`, and one trailing `.`
/// (left by removing the extension) is dropped.
pub open spec fn scene_id_of(relative: Seq<char>) -> Seq<char> {
    let s = relative.map_values(|c: char| if c == '\\' { '/' } else { c });
    if s.len() > 0 && s.last() == '.' {
        s.drop_last()
    } else {
        s
    }
}

/// The asset identifier the loader derives from a sprite path (std's
/// `DefaultHasher` over the string).
pub uninterp spec fn path_asset_id(path: Seq<char>) -> u64;

/// Hash of a sprite path with std's `DefaultHasher` (`DefaultHasher::new()`,
/// `str::hash`, `finish`): the same string always yields the same value.
#[verifier::external_body]
fn hash_path(path: &str) -> (h: u64)
    ensures
        h == path_asset_id(path@),
{
    let mut hasher = std::collections::hash_map::DefaultHasher::new();
    path.hash(&mut hasher);
    hasher.finish()
}

/// Each sprite keeps its emotion name and its path becomes the derived asset identifier.
pub open spec fn sprites_converted(raw: Seq<(String, String)>, conv: Seq<(String, AssetId)>) -> bool {
    &&& conv.len() == raw.len()
    &&& forall|i: int|
        0 <= i < raw.len() ==> #[trigger] conv[i].0 == raw[i].0 && conv[i].1 == AssetId(
            path_asset_id(raw[i].1@),
        )
}

/// A character file as written: sprites map emotion names to file paths.
#[derive(Debug, Clone)]
pub struct RawCharacter {
    pub id: String,
    pub name: String,
    pub display_color: String,
    pub description: Option<String>,
    pub birthday: Option<String>,
    pub default_position: Position,
    /// Emotion name → sprite file path; no emotion occurs twice.
    pub sprites: Vec<(String, String)>,
    pub has_voice: bool,
}

/// Loader of project directories; the file-system walk lives with the caller,
/// these are the steps in between.
pub struct GameLoader;

impl GameLoader {
    /// Scene identifier of a script path (see [`scene_id_of`]).
    pub fn scene_id_from_path(relative: &str) -> (id: String)
        ensures
            id@ == scene_id_of(relative@),
    {
        proof {
            reveal_strlit("/");
        }
        let n = relative.unicode_len();
        let mut out = String::new();
        let mut i: usize = 0;
        let ghost mapped = relative@.map_values(|c: char| if c == '\\' { '/' } else { c });
        let mut last_dot = false;
        while i < n
            invariant
                n == relative@.len(),
                i <= n,
                mapped == relative@.map_values(|c: char| if c == '\\' { '/' } else { c }),
                out@ == mapped.subrange(0, i as int),
                last_dot == (i > 0 && mapped[i - 1] == '.'),
            decreases n - i,
        {
            let c = relative.get_char(i);
            let ghost before = out@;
            if c == '\\' {
                out.append("/");
                proof {
                    reveal_strlit("/");
                    assert("/"@ =~= seq!['/']);
                }
            } else {
                out.append(relative.substring_char(i, i + 1));
                proof {
                    assert(relative@.subrange(i as int, i + 1) =~= seq![c]);
                }
            }
            last_dot = c == '.';
            proof {
                assert(mapped[i as int] == (if c == '\\' { '/' } else { c }));
                assert(out@ =~= mapped.subrange(0, i + 1));
            }
            i = i + 1;
        }
        proof {
            assert(mapped.subrange(0, n as int) =~= mapped);
        }
        if last_dot {
            let m = out.as_str().unicode_len();
            let trimmed = out.as_str().substring_char(0, m - 1).to_owned();
            proof {
                assert(trimmed@ =~= mapped.drop_last());
            }
            trimmed
        } else {
            out
        }
    }

    /// The entry for a scene file: identifier from its path below `scripts/`
    /// (extension removed), not yet marked as entry.
    pub fn scene_entry(relative_without_ext: &str, file_path: String) -> (e: SceneEntry)
        ensures
            e.scene_id@ == scene_id_of(relative_without_ext@),
            e.file_path == file_path,
            !e.is_entry,
    {
        SceneEntry {
            scene_id: Self::scene_id_from_path(relative_without_ext),
            file_path,
            is_entry: false,
        }
    }

    /// Marks the first scene whose identifier is `entry_scene_id` as the entry
    /// scene; fails with `EntrySceneNotFound` when no scene has it.
    pub fn mark_entry_scene(scenes: &mut Vec<SceneEntry>, entry_scene_id: &str) -> (r: Result<(), RuntimeError>)
        ensures
            final(scenes)@.len() == old(scenes)@.len(),
            match r {
                Ok(()) => exists|k: int|
                    0 <= k < old(scenes)@.len() && old(scenes)@[k].scene_id@ == entry_scene_id@ && (forall|
                        j: int,
                    | 0 <= j < k ==> old(scenes)@[j].scene_id@ != entry_scene_id@) && final(scenes)@
                        == old(scenes)@.update(
                        k,
                        SceneEntry { is_entry: true, ..old(scenes)@[k] },
                    ),
                Err(e) => {
                    &&& forall|j: int|
                        0 <= j < old(scenes)@.len() ==> old(scenes)@[j].scene_id@ != entry_scene_id@
                    &&& final(scenes)@ == old(scenes)@
                    &&& e matches RuntimeError::EntrySceneNotFound { entry_scene }
                    &&& entry_scene@ == entry_scene_id@
                },
            },
    {
        let mut i: usize = 0;
        while i < scenes.len()
            invariant
                i <= scenes@.len(),
                scenes@ == old(scenes)@,
                forall|j: int| 0 <= j < i ==> old(scenes)@[j].scene_id@ != entry_scene_id@,
            decreases scenes@.len() - i,
        {
            if str_equal(scenes[i].scene_id.as_str(), entry_scene_id) {
                let mut e = scenes.remove(i);
                e.is_entry = true;
                scenes.insert(i, e);
                proof {
                    assert(scenes@ =~= old(scenes)@.update(
                        i as int,
                        SceneEntry { is_entry: true, ..old(scenes)@[i as int] },
                    ));
                }
                return Ok(());
            }
            i = i + 1;
        }
        Err(RuntimeError::EntrySceneNotFound { entry_scene: entry_scene_id.to_owned() })
    }

    /// Turns a character file into a character: each sprite path becomes the
    /// asset identifier derived from it.
    pub fn convert_character(raw: RawCharacter) -> (c: Character)
        ensures
            c.id == raw.id,
            c.name == raw.name,
            c.display_color == raw.display_color,
            c.description == raw.description,
            c.birthday == raw.birthday,
            c.default_position == raw.default_position,
            c.has_voice == raw.has_voice,
            sprites_converted(raw.sprites@, c.sprites@),
    {
        let RawCharacter {
            id,
            name,
            display_color,
            description,
            birthday,
            default_position,
            sprites: raw_sprites,
            has_voice,
        } = raw;
        let mut sprites: Vec<(String, AssetId)> = Vec::new();
        let mut i: usize = 0;
        while i < raw_sprites.len()
            invariant
                raw_sprites@ == raw.sprites@,
                i <= raw_sprites@.len(),
                sprites@.len() == i,
                forall|j: int|
                    0 <= j < i ==> #[trigger] sprites@[j].0 == raw_sprites@[j].0 && sprites@[j].1
                        == AssetId(path_asset_id(raw_sprites@[j].1@)),
            decreases raw_sprites@.len() - i,
        {
            let emotion = raw_sprites[i].0.clone();
            let asset = AssetId(hash_path(raw_sprites[i].1.as_str()));
            sprites.push((emotion, asset));
            i = i + 1;
        }
        assert(sprites_converted(raw.sprites@, sprites@));
        Character {
            id,
            name,
            display_color,
            description,
            birthday,
            default_position,
            sprites,
            has_voice,
        }
    }

    /// Adds `c` to the character table keyed by id: the character with the
    /// same id is replaced in place, otherwise `c` is appended.
    pub fn insert_character(characters: &mut Vec<Character>, c: Character)
        requires
            characters_wf(old(characters)@),
            distinct_views(emotion_names(c.sprites@)),
        ensures
            characters_wf(final(characters)@),
            (exists|i: int|
                0 <= i < old(characters)@.len() && old(characters)@[i].id@ == c.id@ && final(characters)@
                    == old(characters)@.update(i, c)) || ((forall|i: int|
                0 <= i < old(characters)@.len() ==> old(characters)@[i].id@ != c.id@) && final(characters)@
                == old(characters)@.push(c)),
    {
        let ghost before = characters@;
        let mut i: usize = 0;
        while i < characters.len()
            invariant
                i <= characters@.len(),
                characters@ == before,
                before == old(characters)@,
                characters_wf(before),
                distinct_views(emotion_names(c.sprites@)),
                forall|j: int| 0 <= j < i ==> before[j].id@ != c.id@,
            decreases characters@.len() - i,
        {
            if str_equal(characters[i].id.as_str(), c.id.as_str()) {
                let ghost idx = i as int;
                let ghost c2 = c;
                characters.set(i, c);
                proof {
                    let after = characters@;
                    assert(after == before.update(idx, c2));
                    assert(c2.id@ == before[idx].id@);
                    assert(character_ids(after) =~= character_ids(before));
                    assert forall|a: int| 0 <= a < after.len() implies distinct_views(
                        emotion_names(#[trigger] after[a].sprites@),
                    ) by {
                        if a != idx {
                            assert(after[a] == before[a]);
                        }
                    }
                }
                return;
            }
            i = i + 1;
        }
        let ghost c2 = c;
        characters.push(c);
        proof {
            let after = characters@;
            assert(character_ids(after) =~= character_ids(before).push(c2.id@));
            assert forall|a: int, b: int|
                0 <= a < after.len() && 0 <= b < after.len() && a != b implies character_ids(after)[a]
                != character_ids(after)[b] by {
                if a < before.len() && b < before.len() {
                    assert(character_ids(after)[a] == character_ids(before)[a]);
                    assert(character_ids(after)[b] == character_ids(before)[b]);
                } else if a < before.len() {
                    assert(character_ids(after)[a] == before[a].id@);
                } else {
                    assert(character_ids(after)[b] == before[b].id@);
                }
            }
            assert forall|a: int| 0 <= a < after.len() implies distinct_views(
                emotion_names(#[trigger] after[a].sprites@),
            ) by {
                if a < before.len() {
                    assert(after[a] == before[a]);
                }
            }
        }
    }

    /// Asset identifier of a sprite path: deterministic, same path same identifier.
    pub fn path_to_assetid(path: &str) -> (a: AssetId)
        ensures
            a == AssetId(path_asset_id(path@)),
    {
        AssetId(hash_path(path))
    }
}

} // verus!
