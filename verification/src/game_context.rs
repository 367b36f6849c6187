//! Game context: the compiled scenes and the character table of a loaded
//! project, with scene/character queries and asset path conventions.
use vstd::prelude::*;

use crate::game_manifest::{
    character_ids, characters_wf, distinct_views, emotion_names, AssetId, Character, GameManifest,
    TextSpeed,
};
use crate::strings::str_equal;

verus! {

/// The character whose identifier is `id`, if any.
pub open spec fn find_character(cs: Seq<Character>, id: Seq<char>) -> Option<Character> {
    if exists|i: int| 0 <= i < cs.len() && #[trigger] cs[i].id@ == id {
        Some(cs[choose|i: int| 0 <= i < cs.len() && #[trigger] cs[i].id@ == id])
    } else {
        None
    }
}

/// The asset of emotion `emotion` in a sprite table, if any.
pub open spec fn find_sprite(sprites: Seq<(String, AssetId)>, emotion: Seq<char>) -> Option<AssetId> {
    if exists|i: int| 0 <= i < sprites.len() && #[trigger] sprites[i].0@ == emotion {
        Some(sprites[choose|i: int| 0 <= i < sprites.len() && #[trigger] sprites[i].0@ == emotion].1)
    } else {
        None
    }
}

/// The scene compiled under identifier `id`, if any.
pub open spec fn find_scene<S>(scenes: Seq<(String, S)>, id: Seq<char>) -> Option<S> {
    if exists|i: int| 0 <= i < scenes.len() && #[trigger] scenes[i].0@ == id {
        Some(scenes[choose|i: int| 0 <= i < scenes.len() && #[trigger] scenes[i].0@ == id].1)
    } else {
        None
    }
}

/// The sprite asset of `char_id` for `emotion`, if the character has one.
pub open spec fn character_sprite(cs: Seq<Character>, char_id: Seq<char>, emotion: Seq<char>) -> Option<AssetId> {
    match find_character(cs, char_id) {
        Some(c) => find_sprite(c.sprites@, emotion),
        None => None,
    }
}

/// `assets/sprites/{char_id}/{emotion}.png`
pub open spec fn sprite_path(char_id: Seq<char>, emotion: Seq<char>) -> Seq<char> {
    "assets/sprites/"@ + char_id + "/"@ + emotion + ".png"@
}

/// `assets/voices/{char_id}/{number}.ogg`
pub open spec fn voice_path(char_id: Seq<char>, number: Seq<char>) -> Seq<char> {
    "assets/voices/"@ + char_id + "/"@ + number + ".ogg"@
}

/// The scene identifiers of a scene table.
pub open spec fn scene_ids<S>(scenes: Seq<(String, S)>) -> Seq<Seq<char>> {
    scenes.map_values(|e: (String, S)| e.0@)
}

/// Shared project state for the scene runner and the renderer: compiled scenes
/// (of type `S`), the character table and the project settings.
#[derive(Debug)]
pub struct GameContext<S> {
    /// Character table; identifiers are unique.
    pub characters: Vec<Character>,
    /// Compiled scenes keyed by scene identifier; identifiers are unique.
    pub scenes: Vec<(String, S)>,
    /// Scene the engine starts with.
    pub entry_scene_id: String,
    /// Design resolution (width, height) in logical pixels.
    pub resolution: (u32, u32),
    /// Default typewriter speed of the project.
    pub default_text_speed: TextSpeed,
}

fn find_character_index(cs: &Vec<Character>, id: &str) -> (r: Option<usize>)
    ensures
        match r {
            Some(k) => k < cs@.len() && cs@[k as int].id@ == id@,
            None => forall|i: int| 0 <= i < cs@.len() ==> #[trigger] cs@[i].id@ != id@,
        },
{
    let mut i: usize = 0;
    while i < cs.len()
        invariant
            i <= cs@.len(),
            forall|j: int| 0 <= j < i ==> #[trigger] cs@[j].id@ != id@,
        decreases cs@.len() - i,
    {
        if str_equal(cs[i].id.as_str(), id) {
            return Some(i);
        }
        i = i + 1;
    }
    None
}

fn find_sprite_index(sprites: &Vec<(String, AssetId)>, emotion: &str) -> (r: Option<usize>)
    ensures
        match r {
            Some(k) => k < sprites@.len() && sprites@[k as int].0@ == emotion@,
            None => forall|i: int| 0 <= i < sprites@.len() ==> #[trigger] sprites@[i].0@ != emotion@,
        },
{
    let mut i: usize = 0;
    while i < sprites.len()
        invariant
            i <= sprites@.len(),
            forall|j: int| 0 <= j < i ==> #[trigger] sprites@[j].0@ != emotion@,
        decreases sprites@.len() - i,
    {
        if str_equal(sprites[i].0.as_str(), emotion) {
            return Some(i);
        }
        i = i + 1;
    }
    None
}

fn find_scene_index<S>(scenes: &Vec<(String, S)>, id: &str) -> (r: Option<usize>)
    ensures
        match r {
            Some(k) => k < scenes@.len() && scenes@[k as int].0@ == id@,
            None => forall|i: int| 0 <= i < scenes@.len() ==> #[trigger] scenes@[i].0@ != id@,
        },
{
    let mut i: usize = 0;
    while i < scenes.len()
        invariant
            i <= scenes@.len(),
            forall|j: int| 0 <= j < i ==> #[trigger] scenes@[j].0@ != id@,
        decreases scenes@.len() - i,
    {
        if str_equal(scenes[i].0.as_str(), id) {
            return Some(i);
        }
        i = i + 1;
    }
    None
}

/// Adds `scene` under `id` to a scene table whose identifiers are unique: a
/// scene already under `id` is replaced in place, otherwise the entry is
/// appended. Identifiers stay unique.
pub fn insert_scene<S>(scenes: &mut Vec<(String, S)>, id: String, scene: S)
    requires
        distinct_views(scene_ids(old(scenes)@)),
    ensures
        distinct_views(scene_ids(final(scenes)@)),
        (exists|i: int|
            0 <= i < old(scenes)@.len() && old(scenes)@[i].0@ == id@ && final(scenes)@ == old(
                scenes,
            )@.update(i, (id, scene))) || ((forall|i: int|
            0 <= i < old(scenes)@.len() ==> old(scenes)@[i].0@ != id@) && final(scenes)@ == old(
            scenes,
        )@.push((id, scene))),
{
    let ghost before = scenes@;
    match find_scene_index(scenes, id.as_str()) {
        Some(k) => {
            let ghost entry = (id, scene);
            scenes.set(k, (id, scene));
            proof {
                assert(scenes@ == before.update(k as int, entry));
                assert(scene_ids(scenes@) =~= scene_ids(before));
            }
        },
        None => {
            let ghost entry = (id, scene);
            scenes.push((id, scene));
            proof {
                let after = scenes@;
                assert(after == before.push(entry));
                assert(scene_ids(after) =~= scene_ids(before).push(entry.0@));
                assert forall|a: int, b: int|
                    0 <= a < after.len() && 0 <= b < after.len() && a != b implies scene_ids(after)[a]
                    != scene_ids(after)[b] by {
                    if a < before.len() && b < before.len() {
                        assert(scene_ids(after)[a] == scene_ids(before)[a]);
                        assert(scene_ids(after)[b] == scene_ids(before)[b]);
                    } else if a < before.len() {
                        assert(scene_ids(after)[a] == before[a].0@);
                    } else {
                        assert(scene_ids(after)[b] == before[b].0@);
                    }
                }
            }
        },
    }
}

impl<S> GameContext<S> {
    /// Identifiers are unique in both tables.
    pub open spec fn wf(&self) -> bool {
        &&& characters_wf(self.characters@)
        &&& distinct_views(scene_ids(self.scenes@))
    }

    /// Builds the context from a manifest and the compiled scenes; the entry
    /// scene and resolution come from the compiled game and the project.
    pub fn new(manifest: GameManifest, scenes: Vec<(String, S)>, entry_scene_id: String) -> (ctx: Self)
        requires
            characters_wf(manifest.characters@),
            distinct_views(scene_ids(scenes@)),
        ensures
            ctx.wf(),
            ctx.characters@ == manifest.characters@,
            ctx.scenes@ == scenes@,
            ctx.entry_scene_id@ == entry_scene_id@,
            ctx.resolution == (manifest.project.resolution.width, manifest.project.resolution.height),
            ctx.default_text_speed == manifest.project.settings.text_speed,
    {
        let resolution = (manifest.project.resolution.width, manifest.project.resolution.height);
        let default_text_speed = manifest.project.settings.text_speed;
        GameContext { characters: manifest.characters, scenes, entry_scene_id, resolution, default_text_speed }
    }

    /// The compiled scene `scene_id`, if it exists.
    pub fn get_scene(&self, scene_id: &str) -> (r: Option<&S>)
        requires
            self.wf(),
        ensures
            match (r, find_scene(self.scenes@, scene_id@)) {
                (Some(s), Some(t)) => *s == t,
                (None, None) => true,
                _ => false,
            },
    {
        match find_scene_index(&self.scenes, scene_id) {
            Some(k) => {
                proof {
                    let c = choose|i: int| 0 <= i < self.scenes@.len() && #[trigger] self.scenes@[i].0@ == scene_id@;
                    assert(scene_ids(self.scenes@)[c] == scene_ids(self.scenes@)[k as int]);
                }
                Some(&self.scenes[k].1)
            },
            None => None,
        }
    }

    /// Whether the scene `scene_id` was compiled into the context.
    pub fn is_scene_loaded(&self, scene_id: &str) -> (b: bool)
        ensures
            b == find_scene(self.scenes@, scene_id@) is Some,
    {
        find_scene_index(&self.scenes, scene_id).is_some()
    }

    /// The character `char_id`, if it exists.
    pub fn get_character(&self, char_id: &str) -> (r: Option<&Character>)
        requires
            self.wf(),
        ensures
            match (r, find_character(self.characters@, char_id@)) {
                (Some(c), Some(d)) => *c == d,
                (None, None) => true,
                _ => false,
            },
    {
        match find_character_index(&self.characters, char_id) {
            Some(k) => {
                proof {
                    let c = choose|i: int| 0 <= i < self.characters@.len() && #[trigger] self.characters@[i].id@ == char_id@;
                    assert(character_ids(self.characters@)[c] == character_ids(self.characters@)[k as int]);
                }
                Some(&self.characters[k])
            },
            None => None,
        }
    }

    /// The sprite asset of `char_id` for `emotion`, if the character exists and has it.
    pub fn get_character_sprite(&self, char_id: &str, emotion: &str) -> (r: Option<AssetId>)
        requires
            self.wf(),
        ensures
            r == character_sprite(self.characters@, char_id@, emotion@),
    {
        match self.get_character(char_id) {
            Some(c) => {
                proof {
                    let k = choose|i: int| 0 <= i < self.characters@.len() && #[trigger] self.characters@[i].id@ == char_id@;
                    assert(distinct_views(emotion_names(self.characters@[k].sprites@)));
                }
                match find_sprite_index(&c.sprites, emotion) {
                    Some(j) => {
                        proof {
                            let s = c.sprites@;
                            let m = choose|i: int| 0 <= i < s.len() && #[trigger] s[i].0@ == emotion@;
                            assert(emotion_names(s)[m] == emotion_names(s)[j as int]);
                        }
                        Some(c.sprites[j].1)
                    },
                    None => None,
                }
            },
            None => None,
        }
    }

    /// `assets/sprites/{char_id}/{emotion}.png`, when the character has that emotion.
    pub fn resolve_sprite_path(&self, char_id: &str, emotion: &str) -> (r: Option<String>)
        requires
            self.wf(),
        ensures
            match r {
                Some(p) => character_sprite(self.characters@, char_id@, emotion@) is Some && p@
                    == sprite_path(char_id@, emotion@),
                None => character_sprite(self.characters@, char_id@, emotion@) is None,
            },
    {
        if self.get_character_sprite(char_id, emotion).is_none() {
            return None;
        }
        let mut p = String::from_str("assets/sprites/");
        p.append(char_id);
        p.append("/");
        p.append(emotion);
        p.append(".png");
        Some(p)
    }

    /// `assets/voices/{char_id}/{number}.ogg`, when the character exists and has a voice.
    pub fn resolve_voice_path(&self, char_id: &str, number: &str) -> (r: Option<String>)
        requires
            self.wf(),
        ensures
            match r {
                Some(p) => (find_character(self.characters@, char_id@) matches Some(c) && c.has_voice)
                    && p@ == voice_path(char_id@, number@),
                None => !(find_character(self.characters@, char_id@) matches Some(c) && c.has_voice),
            },
    {
        match self.get_character(char_id) {
            Some(c) => {
                if !c.has_voice {
                    return None;
                }
            },
            None => {
                return None;
            },
        }
        let mut p = String::from_str("assets/voices/");
        p.append(char_id);
        p.append("/");
        p.append(number);
        p.append(".ogg");
        Some(p)
    }
}

impl<S: Clone> Clone for GameContext<S> {
    /// A deep copy of the tables and settings.
    fn clone(&self) -> (c: Self)
        ensures
            c.entry_scene_id@ == self.entry_scene_id@,
            c.resolution == self.resolution,
            c.default_text_speed == self.default_text_speed,
            c.characters@.len() == self.characters@.len(),
            c.scenes@.len() == self.scenes@.len(),
    {
        GameContext {
            characters: self.characters.clone(),
            scenes: self.scenes.clone(),
            entry_scene_id: self.entry_scene_id.clone(),
            resolution: self.resolution,
            default_text_speed: self.default_text_speed,
        }
    }
}

} // verus!
