//! Bookkeeping of the game renderer: which sprite shows each character (and
//! on which sprite layer, at which position), and which sprite shows each
//! free-standing image.  The GPU work is done by the caller with the
//! decisions taken here.
use vstd::prelude::*;

use crate::strings::str_equal;
use crate::ui_command::{format_pause_menu, format_save_ui, pause_menu_text, save_ui_text, UiCommand};

verus! {

/// Where a character is on stage.
#[derive(Debug, Clone, Copy, PartialEq, Eq, Structural)]
pub struct Placement {
    /// Sprite currently showing the character.
    pub sprite_id: u64,
    /// Sprite layer: 0 back, 1 front.
    pub layer: u8,
    /// VM position code (0 left, 1 centre, 2 right).
    pub position: u8,
}

/// No key occurs twice.
pub open spec fn keys_unique<V>(entries: Seq<(String, V)>) -> bool {
    forall|i: int, j: int|
        0 <= i < entries.len() && 0 <= j < entries.len() && i != j ==> entries[i].0@ != entries[j].0@
}

/// The map an entry list stands for.
pub open spec fn entries_map<V>(entries: Seq<(String, V)>) -> Map<Seq<char>, V> {
    Map::new(
        |k: Seq<char>| exists|i: int| 0 <= i < entries.len() && #[trigger] entries[i].0@ == k,
        |k: Seq<char>| entries[choose|i: int| 0 <= i < entries.len() && #[trigger] entries[i].0@ == k].1,
    )
}

/// A string-keyed table with unique keys.
pub struct KeyedTable<V> {
    entries: Vec<(String, V)>,
}

impl<V> View for KeyedTable<V> {
    type V = Map<Seq<char>, V>;

    closed spec fn view(&self) -> Map<Seq<char>, V> {
        entries_map(self.entries@)
    }
}

impl<V: Copy> KeyedTable<V> {
    /// Keys are unique.
    pub closed spec fn wf(&self) -> bool {
        keys_unique(self.entries@)
    }

    /// An empty table.
    pub fn new() -> (t: Self)
        ensures
            t.wf(),
            t@ == Map::<Seq<char>, V>::empty(),
    {
        let t = KeyedTable { entries: Vec::new() };
        assert(t@ =~= Map::<Seq<char>, V>::empty());
        t
    }

    fn index_of(&self, key: &str) -> (r: Option<usize>)
        requires
            self.wf(),
        ensures
            match r {
                Some(i) => i < self.entries@.len() && self.entries@[i as int].0@ == key@,
                None => forall|j: int| 0 <= j < self.entries@.len() ==> #[trigger] self.entries@[j].0@ != key@,
            },
    {
        let mut i: usize = 0;
        while i < self.entries.len()
            invariant
                i <= self.entries@.len(),
                forall|j: int| 0 <= j < i ==> #[trigger] self.entries@[j].0@ != key@,
            decreases self.entries@.len() - i,
        {
            if str_equal(self.entries[i].0.as_str(), key) {
                return Some(i);
            }
            i = i + 1;
        }
        None
    }

    /// The value stored under `key`.
    pub fn get(&self, key: &str) -> (r: Option<V>)
        requires
            self.wf(),
        ensures
            r == (if self@.dom().contains(key@) {
                Some(self@[key@])
            } else {
                None
            }),
    {
        match self.index_of(key) {
            Some(i) => {
                proof {
                    let c = choose|j: int| 0 <= j < self.entries@.len() && #[trigger] self.entries@[j].0@ == key@;
                    assert(c == i);
                }
                Some(self.entries[i].1)
            },
            None => None,
        }
    }

    /// Stores `value` under `key`, returning what was stored there before.
    pub fn insert(&mut self, key: &str, value: V) -> (prev: Option<V>)
        requires
            old(self).wf(),
        ensures
            final(self).wf(),
            final(self)@ == old(self)@.insert(key@, value),
            prev == (if old(self)@.dom().contains(key@) {
                Some(old(self)@[key@])
            } else {
                None
            }),
    {
        let ghost old_entries = self.entries@;
        match self.index_of(key) {
            Some(i) => {
                proof {
                    let c = choose|j: int| 0 <= j < old_entries.len() && #[trigger] old_entries[j].0@ == key@;
                    assert(c == i);
                }
                let prev = self.entries[i].1;
                let k = self.entries[i].0.clone();
                self.entries.set(i, (k, value));
                proof {
                    let e = self.entries@;
                    assert forall|a: int, b: int|
                        0 <= a < e.len() && 0 <= b < e.len() && a != b implies e[a].0@ != e[b].0@ by {
                        assert(e[a].0@ == old_entries[a].0@);
                        assert(e[b].0@ == old_entries[b].0@);
                    }
                    assert forall|k2: Seq<char>| #[trigger] entries_map(e).dom().contains(k2) == old(self)@.insert(key@, value).dom().contains(k2) by {
                        if exists|j: int| 0 <= j < old_entries.len() && #[trigger] old_entries[j].0@ == k2 {
                            let j = choose|j: int| 0 <= j < old_entries.len() && #[trigger] old_entries[j].0@ == k2;
                            assert(e[j].0@ == k2);
                        }
                        if exists|j: int| 0 <= j < e.len() && #[trigger] e[j].0@ == k2 {
                            let j = choose|j: int| 0 <= j < e.len() && #[trigger] e[j].0@ == k2;
                            assert(old_entries[j].0@ == k2);
                        }
                    }
                    assert forall|k2: Seq<char>| #[trigger] entries_map(e).dom().contains(k2) implies entries_map(e)[k2] == old(self)@.insert(key@, value)[k2] by {
                        let j = choose|j: int| 0 <= j < e.len() && #[trigger] e[j].0@ == k2;
                        if k2 == key@ {
                            assert(j == i);
                        } else {
                            assert(old_entries[j].0@ == k2);
                            let j0 = choose|j: int| 0 <= j < old_entries.len() && #[trigger] old_entries[j].0@ == k2;
                            assert(j0 == j);
                        }
                    }
                    assert(entries_map(e) =~= old(self)@.insert(key@, value));
                }
                Some(prev)
            },
            None => {
                self.entries.push((key.to_owned(), value));
                proof {
                    let e = self.entries@;
                    let n = old_entries.len() as int;
                    assert forall|a: int, b: int|
                        0 <= a < e.len() && 0 <= b < e.len() && a != b implies e[a].0@ != e[b].0@ by {
                        if a < n {
                            assert(e[a] == old_entries[a]);
                        }
                        if b < n {
                            assert(e[b] == old_entries[b]);
                        }
                    }
                    assert forall|k2: Seq<char>| #[trigger] entries_map(e).dom().contains(k2) == old(self)@.insert(key@, value).dom().contains(k2) by {
                        if exists|j: int| 0 <= j < old_entries.len() && #[trigger] old_entries[j].0@ == k2 {
                            let j = choose|j: int| 0 <= j < old_entries.len() && #[trigger] old_entries[j].0@ == k2;
                            assert(e[j].0@ == k2);
                        }
                        if k2 == key@ {
                            assert(e[n].0@ == k2);
                        }
                        if exists|j: int| 0 <= j < e.len() && #[trigger] e[j].0@ == k2 {
                            let j = choose|j: int| 0 <= j < e.len() && #[trigger] e[j].0@ == k2;
                            if j < n {
                                assert(old_entries[j].0@ == k2);
                            }
                        }
                    }
                    assert forall|k2: Seq<char>| #[trigger] entries_map(e).dom().contains(k2) implies entries_map(e)[k2] == old(self)@.insert(key@, value)[k2] by {
                        let j = choose|j: int| 0 <= j < e.len() && #[trigger] e[j].0@ == k2;
                        if k2 == key@ {
                            assert(e[n].0@ == k2);
                            assert(j == n);
                        } else {
                            assert(j < n);
                            assert(old_entries[j].0@ == k2);
                            let j0 = choose|j: int| 0 <= j < old_entries.len() && #[trigger] old_entries[j].0@ == k2;
                            assert(j0 == j);
                            assert(e[j] == old_entries[j]);
                        }
                    }
                    assert(entries_map(e) =~= old(self)@.insert(key@, value));
                }
                None
            },
        }
    }

    /// Removes `key`, returning what was stored under it.
    pub fn remove(&mut self, key: &str) -> (prev: Option<V>)
        requires
            old(self).wf(),
        ensures
            final(self).wf(),
            final(self)@ == old(self)@.remove(key@),
            prev == (if old(self)@.dom().contains(key@) {
                Some(old(self)@[key@])
            } else {
                None
            }),
    {
        let ghost old_entries = self.entries@;
        match self.index_of(key) {
            Some(i) => {
                proof {
                    let c = choose|j: int| 0 <= j < old_entries.len() && #[trigger] old_entries[j].0@ == key@;
                    assert(c == i);
                }
                let removed = self.entries.remove(i);
                proof {
                    let e = self.entries@;
                    assert(e == old_entries.remove(i as int));
                    assert forall|a: int, b: int|
                        0 <= a < e.len() && 0 <= b < e.len() && a != b implies e[a].0@ != e[b].0@ by {
                        let a0 = if a < i { a } else { a + 1 };
                        let b0 = if b < i { b } else { b + 1 };
                        assert(e[a] == old_entries[a0]);
                        assert(e[b] == old_entries[b0]);
                    }
                    assert forall|k2: Seq<char>| #[trigger] entries_map(e).dom().contains(k2) == old(self)@.remove(key@).dom().contains(k2) by {
                        if exists|j: int| 0 <= j < old_entries.len() && #[trigger] old_entries[j].0@ == k2 {
                            let j = choose|j: int| 0 <= j < old_entries.len() && #[trigger] old_entries[j].0@ == k2;
                            if k2 != key@ {
                                assert(j != i);
                                let j1 = if j < i { j } else { j - 1 };
                                assert(e[j1].0@ == k2);
                            }
                        }
                        if exists|j: int| 0 <= j < e.len() && #[trigger] e[j].0@ == k2 {
                            let j = choose|j: int| 0 <= j < e.len() && #[trigger] e[j].0@ == k2;
                            let j0 = if j < i { j } else { j + 1 };
                            assert(old_entries[j0].0@ == k2);
                        }
                    }
                    assert forall|k2: Seq<char>| #[trigger] entries_map(e).dom().contains(k2) implies entries_map(e)[k2] == old(self)@.remove(key@)[k2] by {
                        let j = choose|j: int| 0 <= j < e.len() && #[trigger] e[j].0@ == k2;
                        let j0 = if j < i { j } else { j + 1 };
                        assert(old_entries[j0].0@ == k2);
                        let j1 = choose|j: int| 0 <= j < old_entries.len() && #[trigger] old_entries[j].0@ == k2;
                        assert(j1 == j0);
                    }
                    assert(entries_map(e) =~= old(self)@.remove(key@));
                }
                Some(removed.1)
            },
            None => {
                proof {
                    assert(entries_map(self.entries@) =~= old(self)@.remove(key@));
                }
                None
            },
        }
    }

    /// All stored values, in insertion order of their keys.
    pub fn values(&self) -> (vs: Vec<V>)
        requires
            self.wf(),
        ensures
            vs@.len() == self@.dom().len(),
            forall|v: V| #[trigger] vs@.contains(v) <==> exists|k: Seq<char>| #[trigger] self@.dom().contains(k) && self@[k] == v,
    {
        proof {
            lemma_entries_map_len(self.entries@);
        }
        let mut vs: Vec<V> = Vec::new();
        let mut i: usize = 0;
        while i < self.entries.len()
            invariant
                i <= self.entries@.len(),
                vs@.len() == i,
                forall|j: int| 0 <= j < i ==> #[trigger] vs@[j] == self.entries@[j].1,
            decreases self.entries@.len() - i,
        {
            vs.push(self.entries[i].1);
            i = i + 1;
        }
        proof {
            let e = self.entries@;
            assert forall|v: V| #[trigger] vs@.contains(v) implies exists|k: Seq<char>| #[trigger] self@.dom().contains(k) && self@[k] == v by {
                let j = choose|j: int| 0 <= j < vs@.len() && vs@[j] == v;
                let k = e[j].0@;
                assert(self@.dom().contains(k));
                let j1 = choose|j: int| 0 <= j < e.len() && #[trigger] e[j].0@ == k;
                assert(j1 == j);
            }
            assert forall|v: V| (exists|k: Seq<char>| #[trigger] self@.dom().contains(k) && self@[k] == v) implies #[trigger] vs@.contains(v) by {
                let k = choose|k: Seq<char>| #[trigger] self@.dom().contains(k) && self@[k] == v;
                let j = choose|j: int| 0 <= j < e.len() && #[trigger] e[j].0@ == k;
                assert(vs@[j] == v);
            }
        }
        vs
    }

    /// Empties the table.
    pub fn clear(&mut self)
        ensures
            final(self).wf(),
            final(self)@ == Map::<Seq<char>, V>::empty(),
    {
        self.entries.clear();
        assert(entries_map(self.entries@) =~= Map::<Seq<char>, V>::empty());
    }

    /// Number of keys.
    pub fn len(&self) -> (n: usize)
        requires
            self.wf(),
        ensures
            n as nat == self@.dom().len(),
    {
        proof {
            lemma_entries_map_len(self.entries@);
        }
        self.entries.len()
    }
}

proof fn lemma_entries_map_len<V>(entries: Seq<(String, V)>)
    requires
        keys_unique(entries),
    ensures
        entries_map(entries).dom().finite(),
        entries_map(entries).dom().len() == entries.len(),
    decreases entries.len(),
{
    broadcast use vstd::set::group_set_axioms;
    if entries.len() == 0 {
        assert(entries_map(entries).dom() =~= Set::<Seq<char>>::empty());
    } else {
        let rest = entries.drop_last();
        assert(keys_unique(rest));
        lemma_entries_map_len(rest);
        let last = entries.last().0@;
        assert(entries_map(entries).dom() =~= entries_map(rest).dom().insert(last)) by {
            assert forall|k: Seq<char>| #[trigger] entries_map(entries).dom().contains(k) implies entries_map(rest).dom().insert(last).contains(k) by {
                let j = choose|j: int| 0 <= j < entries.len() && #[trigger] entries[j].0@ == k;
                if j < rest.len() {
                    assert(rest[j].0@ == k);
                }
            }
            assert forall|k: Seq<char>| entries_map(rest).dom().insert(last).contains(k) implies #[trigger] entries_map(entries).dom().contains(k) by {
                if k == last {
                    assert(entries[entries.len() - 1].0@ == k);
                } else {
                    let j = choose|j: int| 0 <= j < rest.len() && #[trigger] rest[j].0@ == k;
                    assert(entries[j].0@ == k);
                }
            }
        }
        assert(!entries_map(rest).dom().contains(last)) by {
            if entries_map(rest).dom().contains(last) {
                let j = choose|j: int| 0 <= j < rest.len() && #[trigger] rest[j].0@ == last;
                assert(entries[j].0@ == entries[entries.len() - 1].0@);
            }
        }
    }
}

/// What moving a character to a position code requires.
#[derive(Debug, Clone, Copy, PartialEq, Eq, Structural)]
pub enum MoveDecision {
    /// The character is not on stage: nothing to do.
    NotShown,
    /// Already at that position: nothing to do.
    Unchanged,
    /// Reposition this placement's sprite.
    Move(Placement),
}

/// Which sprite shows each character and each free-standing image.
pub struct Stage {
    characters: KeyedTable<Placement>,
    sprites: KeyedTable<u64>,
}

/// Abstract state of a [`Stage`].
pub struct StageModel {
    pub characters: Map<Seq<char>, Placement>,
    pub sprites: Map<Seq<char>, u64>,
}

impl View for Stage {
    type V = StageModel;

    closed spec fn view(&self) -> StageModel {
        StageModel { characters: self.characters@, sprites: self.sprites@ }
    }
}

impl Stage {
    /// Both tables are well formed.
    pub closed spec fn wf(&self) -> bool {
        self.characters.wf() && self.sprites.wf()
    }

    /// Nobody on stage.
    pub fn new() -> (s: Self)
        ensures
            s.wf(),
            s@.characters == Map::<Seq<char>, Placement>::empty(),
            s@.sprites == Map::<Seq<char>, u64>::empty(),
    {
        Stage { characters: KeyedTable::new(), sprites: KeyedTable::new() }
    }

    /// Where `char_id` is, if on stage.
    pub fn placement(&self, char_id: &str) -> (p: Option<Placement>)
        requires
            self.wf(),
        ensures
            p == (if self@.characters.dom().contains(char_id@) {
                Some(self@.characters[char_id@])
            } else {
                None
            }),
    {
        self.characters.get(char_id)
    }

    /// Records that `char_id` is now shown by `sprite_id` on the front layer at
    /// `position`; returns the placement it replaces, whose sprite must be removed.
    pub fn show_character(&mut self, char_id: &str, sprite_id: u64, position: u8) -> (replaced: Option<Placement>)
        requires
            old(self).wf(),
        ensures
            final(self).wf(),
            final(self)@.characters == old(self)@.characters.insert(
                char_id@,
                Placement { sprite_id, layer: 1, position },
            ),
            final(self)@.sprites == old(self)@.sprites,
            replaced == (if old(self)@.characters.dom().contains(char_id@) {
                Some(old(self)@.characters[char_id@])
            } else {
                None
            }),
    {
        self.characters.insert(char_id, Placement { sprite_id, layer: 1, position })
    }

    /// Takes `char_id` off stage; returns its placement, whose sprite must be removed.
    pub fn hide_character(&mut self, char_id: &str) -> (removed: Option<Placement>)
        requires
            old(self).wf(),
        ensures
            final(self).wf(),
            final(self)@.characters == old(self)@.characters.remove(char_id@),
            final(self)@.sprites == old(self)@.sprites,
            removed == (if old(self)@.characters.dom().contains(char_id@) {
                Some(old(self)@.characters[char_id@])
            } else {
                None
            }),
    {
        self.characters.remove(char_id)
    }

    /// Moves `char_id` to `position`: nothing when off stage or already there,
    /// otherwise records the new position and says which sprite to reposition.
    pub fn move_character(&mut self, char_id: &str, position: u8) -> (d: MoveDecision)
        requires
            old(self).wf(),
        ensures
            final(self).wf(),
            final(self)@.sprites == old(self)@.sprites,
            if !old(self)@.characters.dom().contains(char_id@) {
                d == MoveDecision::NotShown && final(self)@.characters == old(self)@.characters
            } else {
                let p = old(self)@.characters[char_id@];
                if p.position == position {
                    d == MoveDecision::Unchanged && final(self)@.characters == old(self)@.characters
                } else {
                    d == MoveDecision::Move(p) && final(self)@.characters == old(self)@.characters.insert(
                        char_id@,
                        Placement { position, ..p },
                    )
                }
            },
    {
        match self.characters.get(char_id) {
            None => MoveDecision::NotShown,
            Some(p) => {
                if p.position == position {
                    MoveDecision::Unchanged
                } else {
                    self.characters.insert(char_id, Placement { position, ..p });
                    MoveDecision::Move(p)
                }
            },
        }
    }

    /// Records that `char_id` (already on stage) is now shown by `sprite_id` on
    /// the same layer and at the same position; returns the old placement.
    pub fn replace_character_sprite(&mut self, char_id: &str, sprite_id: u64) -> (old_placement: Option<Placement>)
        requires
            old(self).wf(),
        ensures
            final(self).wf(),
            final(self)@.sprites == old(self)@.sprites,
            if old(self)@.characters.dom().contains(char_id@) {
                let p = old(self)@.characters[char_id@];
                old_placement == Some(p) && final(self)@.characters == old(self)@.characters.insert(
                    char_id@,
                    Placement { sprite_id, ..p },
                )
            } else {
                old_placement is None && final(self)@.characters == old(self)@.characters
            },
    {
        match self.characters.get(char_id) {
            None => None,
            Some(p) => {
                self.characters.insert(char_id, Placement { sprite_id, ..p });
                Some(p)
            },
        }
    }

    /// Records that the image `path` is shown by `sprite_id`; returns the sprite
    /// previously recorded for it.
    pub fn show_sprite(&mut self, path: &str, sprite_id: u64) -> (replaced: Option<u64>)
        requires
            old(self).wf(),
        ensures
            final(self).wf(),
            final(self)@.characters == old(self)@.characters,
            final(self)@.sprites == old(self)@.sprites.insert(path@, sprite_id),
            replaced == (if old(self)@.sprites.dom().contains(path@) {
                Some(old(self)@.sprites[path@])
            } else {
                None
            }),
    {
        self.sprites.insert(path, sprite_id)
    }

    /// Forgets the image `path`; returns its sprite, which must be removed.
    pub fn hide_sprite(&mut self, path: &str) -> (removed: Option<u64>)
        requires
            old(self).wf(),
        ensures
            final(self).wf(),
            final(self)@.characters == old(self)@.characters,
            final(self)@.sprites == old(self)@.sprites.remove(path@),
            removed == (if old(self)@.sprites.dom().contains(path@) {
                Some(old(self)@.sprites[path@])
            } else {
                None
            }),
    {
        self.sprites.remove(path)
    }

    /// Empties the stage; returns every character placement and every image
    /// sprite that was recorded, whose sprites must be removed.
    pub fn clear_all(&mut self) -> (removed: (Vec<Placement>, Vec<u64>))
        requires
            old(self).wf(),
        ensures
            final(self).wf(),
            final(self)@.characters == Map::<Seq<char>, Placement>::empty(),
            final(self)@.sprites == Map::<Seq<char>, u64>::empty(),
            forall|p: Placement| #[trigger] removed.0@.contains(p) <==> exists|k: Seq<char>|
                #[trigger] old(self)@.characters.dom().contains(k) && old(self)@.characters[k] == p,
            forall|s: u64| #[trigger] removed.1@.contains(s) <==> exists|k: Seq<char>|
                #[trigger] old(self)@.sprites.dom().contains(k) && old(self)@.sprites[k] == s,
    {
        let ghost chars = self.characters@;
        let ghost imgs = self.sprites@;
        let placements = self.characters.values();
        let sprite_ids = self.sprites.values();
        self.characters.clear();
        self.sprites.clear();
        assert forall|p: Placement| #[trigger] placements@.contains(p) <==> exists|k: Seq<char>|
            #[trigger] chars.dom().contains(k) && chars[k] == p by {}
        assert forall|s: u64| #[trigger] sprite_ids@.contains(s) <==> exists|k: Seq<char>|
            #[trigger] imgs.dom().contains(k) && imgs[k] == s by {}
        assert(chars == old(self)@.characters);
        assert(imgs == old(self)@.sprites);
        (placements, sprite_ids)
    }
}


/// Byte `c` of pixel `(x, y)` of an RGBA8 image `width` pixels wide.
pub open spec fn rgba_byte(pixels: Seq<u8>, width: int, x: int, y: int, c: int) -> u8 {
    pixels[(y * width + x) * 4 + c]
}

/// The source coordinate sampled for destination coordinate `d` when `src`
/// pixels are scaled to `dst`: `d * src / dst`, rounded down.
pub open spec fn nearest_source(d: int, src: int, dst: int) -> int {
    d * src / dst
}

proof fn lemma_nearest_in_range(d: int, src: int, dst: int)
    requires
        0 <= d < dst,
        src > 0,
    ensures
        0 <= nearest_source(d, src, dst) < src,
{
    assert(0 <= d * src) by (nonlinear_arith)
        requires
            0 <= d,
            src > 0,
    ;
    assert(d * src < dst * src) by (nonlinear_arith)
        requires
            0 <= d < dst,
            src > 0,
    ;
    vstd::arithmetic::div_mod::lemma_div_pos_is_pos(d * src, dst);
    vstd::arithmetic::div_mod::lemma_multiply_divide_lt(d * src, dst, src);
}

proof fn lemma_pixel_index_bound(x: int, y: int, w: int, h: int)
    requires
        0 <= x < w,
        0 <= y < h,
    ensures
        0 <= y * w + x,
        (y * w + x) * 4 + 4 <= w * h * 4,
{
    assert(0 <= y * w) by (nonlinear_arith)
        requires
            0 <= y,
            0 <= w,
    ;
    assert(y * w + w <= h * w) by (nonlinear_arith)
        requires
            0 <= y < h,
            0 <= w,
    ;
    assert(h * w == w * h) by (nonlinear_arith);
}

proof fn lemma_pixel_before(x: int, y: int, dx: int, dy: int, w: int)
    requires
        0 <= x < w,
        0 <= dx <= w,
        0 <= y,
        y < dy || (y == dy && x < dx),
    ensures
        y * w + x < dy * w + dx,
{
    if y < dy {
        assert(y * w + w <= dy * w) by (nonlinear_arith)
            requires
                y < dy,
                0 <= w,
        ;
    }
}

/// Nearest-neighbour scaling of an RGBA8 image: destination pixel `(x, y)`
/// copies source pixel `(x * src_width / dst_width, y * src_height / dst_height)`.
pub fn downsample_rgba(pixels: &[u8], src_width: u32, src_height: u32, dst_width: u32, dst_height: u32) -> (out: Vec<u8>)
    requires
        src_width * src_height * 4 <= u32::MAX,
        dst_width * dst_height * 4 <= u32::MAX,
        pixels@.len() >= src_width * src_height * 4,
        dst_width > 0 && dst_height > 0 ==> src_width > 0 && src_height > 0,
    ensures
        out@.len() == dst_width * dst_height * 4,
        forall|x: int, y: int, c: int|
            0 <= x < dst_width && 0 <= y < dst_height && 0 <= c < 4 ==> #[trigger] rgba_byte(out@, dst_width as int, x, y, c)
                == rgba_byte(
                pixels@,
                src_width as int,
                nearest_source(x, src_width as int, dst_width as int),
                nearest_source(y, src_height as int, dst_height as int),
                c,
            ),
{
    let ghost dw = dst_width as int;
    let ghost sw = src_width as int;
    let mut out: Vec<u8> = Vec::new();
    let mut dy: u32 = 0;
    while dy < dst_height
        invariant
            dy <= dst_height,
            dw == dst_width as int,
            sw == src_width as int,
            src_width * src_height * 4 <= u32::MAX,
            pixels@.len() >= src_width * src_height * 4,
            dst_width > 0 && dst_height > 0 ==> src_width > 0 && src_height > 0,
            out@.len() == (dy * dw) * 4,
            forall|x: int, y: int, c: int|
                0 <= x < dw && 0 <= y < dy && 0 <= c < 4 ==> #[trigger] rgba_byte(out@, dw, x, y, c) == rgba_byte(
                    pixels@,
                    sw,
                    nearest_source(x, sw, dw),
                    nearest_source(y, src_height as int, dst_height as int),
                    c,
                ),
        decreases dst_height - dy,
    {
        assert((dy as int) * (src_height as int) <= u64::MAX) by (nonlinear_arith)
            requires
                dy <= u32::MAX,
                src_height <= u32::MAX,
        ;
        let sy: u64 = (dy as u64) * (src_height as u64) / (dst_height as u64);
        let mut dx: u32 = 0;
        while dx < dst_width
            invariant
                dy < dst_height,
                dx <= dst_width,
                dw == dst_width as int,
                sw == src_width as int,
                src_width * src_height * 4 <= u32::MAX,
                pixels@.len() >= src_width * src_height * 4,
                dst_width > 0 && dst_height > 0 ==> src_width > 0 && src_height > 0,
                sy as int == nearest_source(dy as int, src_height as int, dst_height as int),
                out@.len() == (dy * dw + dx) * 4,
                forall|x: int, y: int, c: int|
                    0 <= x < dw && 0 <= y < dst_height && (y < dy || (y == dy && x < dx)) && 0 <= c < 4
                        ==> #[trigger] rgba_byte(out@, dw, x, y, c) == rgba_byte(
                        pixels@,
                        sw,
                        nearest_source(x, sw, dw),
                        nearest_source(y, src_height as int, dst_height as int),
                        c,
                    ),
            decreases dst_width - dx,
        {
            assert((dx as int) * (src_width as int) <= u64::MAX) by (nonlinear_arith)
                requires
                    dx <= u32::MAX,
                    src_width <= u32::MAX,
            ;
            let sx: u64 = (dx as u64) * (src_width as u64) / (dst_width as u64);
            proof {
                lemma_nearest_in_range(dy as int, src_height as int, dst_height as int);
                lemma_nearest_in_range(dx as int, src_width as int, dst_width as int);
                lemma_pixel_index_bound(sx as int, sy as int, src_width as int, src_height as int);
            }
            let base: usize = ((sy * (src_width as u64) + sx) * 4) as usize;
            let ghost before = out@;
            out.push(pixels[base]);
            out.push(pixels[base + 1]);
            out.push(pixels[base + 2]);
            out.push(pixels[base + 3]);
            proof {
                assert forall|x: int, y: int, c: int|
                    0 <= x < dw && 0 <= y < dst_height && (y < dy || (y == dy && x < dx + 1)) && 0 <= c < 4
                    implies #[trigger] rgba_byte(out@, dw, x, y, c) == rgba_byte(
                        pixels@,
                        sw,
                        nearest_source(x, sw, dw),
                        nearest_source(y, src_height as int, dst_height as int),
                        c,
                    ) by {
                    if y < dy || (y == dy && x < dx) {
                        lemma_pixel_before(x, y, dx as int, dy as int, dw);
                        assert(0 <= y * dw) by (nonlinear_arith)
                            requires
                                0 <= y,
                                0 <= dw,
                        ;
                        assert(rgba_byte(out@, dw, x, y, c) == before[(y * dw + x) * 4 + c]);
                        assert(rgba_byte(before, dw, x, y, c) == before[(y * dw + x) * 4 + c]);
                    } else {
                        assert(x == dx && y == dy);
                        let b = (sy as int * sw + sx as int) * 4;
                        assert(b == base as int);
                        assert(sx as int == nearest_source(x, sw, dw));
                        assert(out@[before.len() as int + c] == pixels@[b + c]) by {
                            if c == 0 {
                                assert(out@[before.len() as int + 0] == pixels@[base as int]);
                            } else if c == 1 {
                                assert(out@[before.len() as int + 1] == pixels@[base as int + 1]);
                            } else if c == 2 {
                                assert(out@[before.len() as int + 2] == pixels@[base as int + 2]);
                            } else {
                                assert(out@[before.len() as int + 3] == pixels@[base as int + 3]);
                            }
                        }
                        assert(rgba_byte(out@, dw, x, y, c) == out@[before.len() as int + c]);
                        assert(rgba_byte(pixels@, sw, sx as int, sy as int, c) == pixels@[b + c]);
                    }
                }
            }
            dx = dx + 1;
        }
        assert(out@.len() == ((dy + 1) * dw) * 4) by (nonlinear_arith)
            requires
                out@.len() == (dy * dw + dw) * 4,
        ;
        dy = dy + 1;
    }
    assert(out@.len() == dst_width * dst_height * 4) by (nonlinear_arith)
        requires
            out@.len() == (dst_height * dw) * 4,
            dw == dst_width as int,
    ;
    out
}


/// Byte `c` of pixel `(x, y)` of an RGB8 image `width` pixels wide.
pub open spec fn rgb_byte(pixels: Seq<u8>, width: int, x: int, y: int, c: int) -> u8 {
    pixels[(y * width + x) * 3 + c]
}

proof fn lemma_rgb_index(p: int, n: int, c: int, d: int)
    requires
        0 <= p < n,
        0 <= c < 3,
        0 <= d < 4,
    ensures
        0 <= p * 3 + c < n * 3,
        0 <= p * 4 + d < n * 4,
        p * 3 + 3 <= n * 3,
        p * 4 + 4 <= n * 4,
{
}

/// Drops the alpha byte of each of the first `n` RGBA8 pixels: RGB8 pixels,
/// three bytes each.
pub fn rgba_to_rgb(rgba: &[u8], n: usize) -> (rgb: Vec<u8>)
    requires
        n * 4 <= rgba@.len(),
    ensures
        rgb@.len() == n * 3,
        forall|p: int, c: int| 0 <= p < n && 0 <= c < 3 ==> #[trigger] rgb@[p * 3 + c] == rgba@[p * 4 + c],
{
    let mut rgb: Vec<u8> = Vec::new();
    let total = rgba.len();
    let mut p: usize = 0;
    while p < n
        invariant
            p <= n,
            total == rgba@.len(),
            n * 4 <= rgba@.len(),
            rgb@.len() == p * 3,
            forall|q: int, c: int| 0 <= q < p && 0 <= c < 3 ==> #[trigger] rgb@[q * 3 + c] == rgba@[q * 4 + c],
        decreases n - p,
    {
        proof {
            lemma_rgb_index(p as int, n as int, 0, 0);
        }
        let base = p * 4;
        let ghost before = rgb@;
        rgb.push(rgba[base]);
        rgb.push(rgba[base + 1]);
        rgb.push(rgba[base + 2]);
        proof {
            assert forall|q: int, c: int| 0 <= q < p + 1 && 0 <= c < 3 implies #[trigger] rgb@[q * 3 + c]
                == rgba@[q * 4 + c] by {
                if q < p {
                    lemma_rgb_index(q, p as int, c, c);
                    assert(rgb@[q * 3 + c] == before[q * 3 + c]);
                } else {
                    assert(q * 3 + c == before.len() + c);
                }
            }
        }
        p = p + 1;
    }
    rgb
}

/// The thumbnail of a frame read back from the GPU, as raw RGB pixel data:
/// the `width`×`height` RGBA8 pixels are scaled to `thumb_width`×`thumb_height`
/// by [`downsample_rgba`] and their alpha bytes dropped, three bytes a pixel.
pub fn thumbnail_from_frame(pixels: &[u8], width: u32, height: u32, thumb_width: u32, thumb_height: u32) -> (rgb: Vec<u8>)
    requires
        width * height * 4 <= u32::MAX,
        thumb_width * thumb_height * 4 <= u32::MAX,
        pixels@.len() >= width * height * 4,
        thumb_width > 0 && thumb_height > 0 ==> width > 0 && height > 0,
    ensures
        rgb@.len() == thumb_width * thumb_height * 3,
        forall|x: int, y: int, c: int|
            0 <= x < thumb_width && 0 <= y < thumb_height && 0 <= c < 3 ==> #[trigger] rgb_byte(rgb@, thumb_width as int, x, y, c)
                == rgba_byte(
                pixels@,
                width as int,
                nearest_source(x, width as int, thumb_width as int),
                nearest_source(y, height as int, thumb_height as int),
                c,
            ),
{
    let small = downsample_rgba(pixels, width, height, thumb_width, thumb_height);
    let n = (thumb_width as usize) * (thumb_height as usize);
    assert(n * 4 == thumb_width * thumb_height * 4) by (nonlinear_arith)
        requires
            n == thumb_width * thumb_height,
    ;
    let rgb = rgba_to_rgb(small.as_slice(), n);
    proof {
        assert forall|x: int, y: int, c: int|
            0 <= x < thumb_width && 0 <= y < thumb_height && 0 <= c < 3 implies #[trigger] rgb_byte(
                rgb@,
                thumb_width as int,
                x,
                y,
                c,
            ) == rgba_byte(
                pixels@,
                width as int,
                nearest_source(x, width as int, thumb_width as int),
                nearest_source(y, height as int, thumb_height as int),
                c,
            ) by {
            lemma_pixel_index_bound(x, y, thumb_width as int, thumb_height as int);
            let p = y * thumb_width + x;
            assert(p < n) by (nonlinear_arith)
                requires
                    p * 4 + 4 <= thumb_width * thumb_height * 4,
                    n == thumb_width * thumb_height,
            ;
            assert(rgb@[p * 3 + c] == small@[p * 4 + c]);
            assert(rgba_byte(small@, thumb_width as int, x, y, c) == small@[p * 4 + c]);
        }
    }
    rgb
}

/// Abstract state of [`UiOverlays`].
pub struct OverlayModel {
    pub save_ui_active: bool,
    pub save_ui_text: Seq<char>,
    pub pause_menu_active: bool,
    pub pause_menu_text: Seq<char>,
}

/// An overlay is on screen: an active save/load UI or pause menu with text.
pub open spec fn overlay_shown(m: OverlayModel) -> bool {
    (m.save_ui_active && m.save_ui_text.len() > 0) || (m.pause_menu_active && m.pause_menu_text.len() > 0)
}

/// The text passes of one frame: the dialogue unless an overlay covers it,
/// then the save/load UI text, then the pause-menu text, each when shown.
pub struct TextPasses {
    /// Draw the dialogue text.
    pub dialogue: bool,
    /// Overlay texts to draw in turn, each fully visible.
    pub overlays: Vec<String>,
    /// The dialogue text must be laid out again afterwards.
    pub restore_dialogue: bool,
}

/// The save/load UI and the pause menu drawn as text over the scene.
pub struct UiOverlays {
    save_ui_active: bool,
    save_ui_text: String,
    pause_menu_active: bool,
    pause_menu_text: String,
}

impl View for UiOverlays {
    type V = OverlayModel;

    closed spec fn view(&self) -> OverlayModel {
        OverlayModel {
            save_ui_active: self.save_ui_active,
            save_ui_text: self.save_ui_text@,
            pause_menu_active: self.pause_menu_active,
            pause_menu_text: self.pause_menu_text@,
        }
    }
}

impl UiOverlays {
    /// No overlay.
    pub fn new() -> (o: Self)
        ensures
            o@ == (OverlayModel {
                save_ui_active: false,
                save_ui_text: Seq::empty(),
                pause_menu_active: false,
                pause_menu_text: Seq::empty(),
            }),
    {
        UiOverlays {
            save_ui_active: false,
            save_ui_text: String::new(),
            pause_menu_active: false,
            pause_menu_text: String::new(),
        }
    }

    /// Shows the save/load UI described by `commands` (see [`format_save_ui`]).
    pub fn render_save_ui(&mut self, commands: &[UiCommand])
        ensures
            final(self)@ == (OverlayModel {
                save_ui_active: true,
                save_ui_text: save_ui_text(commands@),
                ..old(self)@
            }),
    {
        self.save_ui_active = true;
        self.save_ui_text = format_save_ui(commands);
    }

    /// Hides the save/load UI.
    pub fn clear_save_ui(&mut self)
        ensures
            final(self)@ == (OverlayModel {
                save_ui_active: false,
                save_ui_text: Seq::empty(),
                ..old(self)@
            }),
    {
        self.save_ui_active = false;
        self.save_ui_text = String::new();
    }

    /// Shows the pause menu described by `commands` (see [`format_pause_menu`]).
    pub fn render_pause_menu(&mut self, commands: &[UiCommand])
        ensures
            final(self)@ == (OverlayModel {
                pause_menu_active: true,
                pause_menu_text: pause_menu_text(commands@),
                ..old(self)@
            }),
    {
        self.pause_menu_active = true;
        self.pause_menu_text = format_pause_menu(commands);
    }

    /// Hides the pause menu.
    pub fn clear_pause_menu(&mut self)
        ensures
            final(self)@ == (OverlayModel {
                pause_menu_active: false,
                pause_menu_text: Seq::empty(),
                ..old(self)@
            }),
    {
        self.pause_menu_active = false;
        self.pause_menu_text = String::new();
    }

    /// Whether an overlay covers the dialogue.
    pub fn has_overlay(&self) -> (b: bool)
        ensures
            b == overlay_shown(self@),
    {
        (self.save_ui_active && self.save_ui_text.as_str().unicode_len() > 0) || (self.pause_menu_active
            && self.pause_menu_text.as_str().unicode_len() > 0)
    }

    /// The text passes of a frame (see [`TextPasses`]).
    pub fn text_passes(&self) -> (p: TextPasses)
        ensures
            p.dialogue == !overlay_shown(self@),
            p.restore_dialogue == overlay_shown(self@),
            p.overlays@.map_values(|t: String| t@) == (if self@.save_ui_active && self@.save_ui_text.len() > 0 {
                seq![self@.save_ui_text]
            } else {
                Seq::empty()
            }) + (if self@.pause_menu_active && self@.pause_menu_text.len() > 0 {
                seq![self@.pause_menu_text]
            } else {
                Seq::empty()
            }),
    {
        let shown = self.has_overlay();
        let mut overlays: Vec<String> = Vec::new();
        if self.save_ui_active && self.save_ui_text.as_str().unicode_len() > 0 {
            overlays.push(self.save_ui_text.clone());
        }
        if self.pause_menu_active && self.pause_menu_text.as_str().unicode_len() > 0 {
            overlays.push(self.pause_menu_text.clone());
        }
        let p = TextPasses { dialogue: !shown, overlays, restore_dialogue: shown };
        assert(p.overlays@.map_values(|t: String| t@) =~= (if self@.save_ui_active && self@.save_ui_text.len() > 0 {
            seq![self@.save_ui_text]
        } else {
            Seq::empty()
        }) + (if self@.pause_menu_active && self@.pause_menu_text.len() > 0 {
            seq![self@.pause_menu_text]
        } else {
            Seq::empty()
        }));
        p
    }
}

} // verus!
