//! Sprite layer logic without GPU resources: where a VM position code puts a
//! sprite, the list of sprites of a layer keyed by id, and the order in which
//! they are drawn.
use vstd::prelude::*;

verus! {

/// One of the three preset stage positions.
#[derive(Debug, Clone, Copy, PartialEq, Eq, Structural)]
pub enum StagePosition {
    /// Normalized anchor (0.25, 0.5).
    Left,
    /// Normalized anchor (0.5, 0.5).
    Center,
    /// Normalized anchor (0.75, 0.5).
    Right,
}

/// Position code used by the VM: 0 left, 1 centre, 2 right, anything else centre.
pub open spec fn position_of_code(code: u8) -> StagePosition {
    if code == 0 {
        StagePosition::Left
    } else if code == 2 {
        StagePosition::Right
    } else {
        StagePosition::Center
    }
}

/// Converts a VM position code to a stage position (unknown codes centre the sprite).
pub fn pos_byte_to_sprite_position(pos_byte: u8) -> (p: StagePosition)
    ensures
        p == position_of_code(pos_byte),
{
    match pos_byte {
        0 => StagePosition::Left,
        1 => StagePosition::Center,
        2 => StagePosition::Right,
        _ => StagePosition::Center,
    }
}

/// Sprite `a` is drawn before sprite `b`: lower z-index first, and among equal
/// z-indices the one added earlier first.
pub open spec fn draws_before(z: Seq<i32>, a: int, b: int) -> bool {
    z[a] < z[b] || (z[a] == z[b] && a < b)
}

/// `order` lists sprite indices in drawing order: each index below `z.len()`,
/// and each drawn strictly before the next.
pub open spec fn is_draw_order(z: Seq<i32>, order: Seq<usize>) -> bool {
    &&& forall|k: int| 0 <= k < order.len() ==> #[trigger] order[k] < z.len()
    &&& forall|k: int, l: int|
        0 <= k < l < order.len() ==> draws_before(z, #[trigger] order[k] as int, #[trigger] order[l] as int)
}

/// The drawing order of sprites with z-indices `z`: a stable sort of the
/// indices by z-index (lower z is drawn first, underneath).
pub fn render_order(z: &[i32]) -> (order: Vec<usize>)
    ensures
        order@.len() == z@.len(),
        is_draw_order(z@, order@),
{
    let mut order: Vec<usize> = Vec::new();
    let mut i: usize = 0;
    while i < z.len()
        invariant
            i <= z@.len(),
            order@.len() == i,
            forall|k: int| 0 <= k < order@.len() ==> #[trigger] order@[k] < i,
            is_draw_order(z@, order@),
        decreases z@.len() - i,
    {
        // Position after every sprite whose z-index is at most z[i].
        let mut p: usize = 0;
        while p < order.len() && z[order[p]] <= z[i]
            invariant
                i < z@.len(),
                p <= order@.len(),
                order@.len() == i,
                forall|k: int| 0 <= k < order@.len() ==> #[trigger] order@[k] < i,
                is_draw_order(z@, order@),
                forall|k: int| 0 <= k < p ==> z@[#[trigger] order@[k] as int] <= z@[i as int],
            decreases order@.len() - p,
        {
            p = p + 1;
        }
        proof {
            if p < order@.len() {
                assert(z@[order@[p as int] as int] > z@[i as int]);
                assert forall|k: int| p <= k < order@.len() implies z@[#[trigger] order@[k] as int] > z@[i as int] by {
                    if k > p {
                        assert(draws_before(z@, order@[p as int] as int, order@[k] as int));
                    }
                }
            }
        }
        let ghost old_order = order@;
        order.insert(p, i);
        proof {
            assert(order@ == old_order.insert(p as int, i));
            assert forall|k: int, l: int| 0 <= k < l < order@.len() implies draws_before(
                z@,
                #[trigger] order@[k] as int,
                #[trigger] order@[l] as int,
            ) by {
                if k < p && l < p {
                    assert(order@[k] == old_order[k] && order@[l] == old_order[l]);
                } else if k < p && l == p {
                    assert(order@[k] == old_order[k]);
                } else if k < p {
                    assert(order@[k] == old_order[k] && order@[l] == old_order[l - 1]);
                } else if k == p {
                    assert(order@[l] == old_order[l - 1]);
                } else {
                    assert(order@[k] == old_order[k - 1] && order@[l] == old_order[l - 1]);
                }
            }
            assert forall|k: int| 0 <= k < order@.len() implies #[trigger] order@[k] < i + 1 by {
                if k < p {
                    assert(order@[k] == old_order[k]);
                } else if k > p {
                    assert(order@[k] == old_order[k - 1]);
                }
            }
        }
        i = i + 1;
    }
    order
}

/// A drawing order lists every sprite exactly once.
pub proof fn law_draw_order_is_permutation(z: Seq<i32>, order: Seq<usize>)
    requires
        z.len() <= usize::MAX,
        order.len() == z.len(),
        is_draw_order(z, order),
    ensures
        forall|k: int, l: int| 0 <= k < l < order.len() ==> order[k] != order[l],
        forall|s: usize| s < z.len() ==> #[trigger] order.contains(s),
{
    assert forall|k: int, l: int| 0 <= k < l < order.len() implies order[k] != order[l] by {
        assert(draws_before(z, order[k] as int, order[l] as int));
    }
    broadcast use vstd::set::group_set_axioms, vstd::seq_lib::group_seq_properties;
    assert(order.no_duplicates());
    order.unique_seq_to_set();
    let set_o = order.to_set();
    let full = Set::new(|s: usize| s < z.len());
    assert(set_o.subset_of(full));
    lemma_range_set_len(z.len());
    assert forall|s: usize| s < z.len() implies #[trigger] order.contains(s) by {
        if !set_o.contains(s) {
            let smaller = full.remove(s);
            assert(set_o.subset_of(smaller));
            vstd::set_lib::lemma_len_subset(set_o, smaller);
            assert(false);
        }
    }
}

proof fn lemma_range_set_len(n: nat)
    requires
        n <= usize::MAX,
    ensures
        Set::new(|s: usize| s < n).finite(),
        Set::new(|s: usize| s < n).len() == n,
    decreases n,
{
    if n == 0 {
        assert(Set::new(|s: usize| s < 0nat) =~= Set::<usize>::empty());
    } else {
        broadcast use vstd::set::group_set_axioms;
        lemma_range_set_len((n - 1) as nat);
        let prev = Set::new(|s: usize| s < (n - 1) as nat);
        assert(Set::new(|s: usize| s < n) =~= prev.insert((n - 1) as usize));
    }
}


/// No sprite id occurs twice.
pub open spec fn sprite_ids_unique<T>(entries: Seq<(u64, i32, T)>) -> bool {
    forall|i: int, j: int|
        0 <= i < entries.len() && 0 <= j < entries.len() && i != j ==> #[trigger] entries[i].0 != #[trigger] entries[j].0
}

/// `id` is in the list.
pub open spec fn has_sprite<T>(entries: Seq<(u64, i32, T)>, id: u64) -> bool {
    exists|i: int| 0 <= i < entries.len() && #[trigger] entries[i].0 == id
}

/// The sprites of a layer in the order they were added: each with its id,
/// its z-index and what the caller keeps for it (its GPU resources).
pub struct SpriteList<T> {
    entries: Vec<(u64, i32, T)>,
}

impl<T> View for SpriteList<T> {
    type V = Seq<(u64, i32, T)>;

    closed spec fn view(&self) -> Seq<(u64, i32, T)> {
        self.entries@
    }
}

impl<T> SpriteList<T> {
    /// Ids are unique.
    pub open spec fn wf(&self) -> bool {
        sprite_ids_unique(self@)
    }

    /// No sprites.
    pub fn new() -> (l: Self)
        ensures
            l.wf(),
            l@ == Seq::<(u64, i32, T)>::empty(),
    {
        SpriteList { entries: Vec::new() }
    }

    /// Number of sprites.
    pub fn len(&self) -> (n: usize)
        ensures
            n == self@.len(),
    {
        self.entries.len()
    }

    /// Position of sprite `id` in the list.
    pub fn index_of(&self, id: u64) -> (r: Option<usize>)
        ensures
            match r {
                Some(i) => i < self@.len() && self@[i as int].0 == id,
                None => !has_sprite(self@, id),
            },
    {
        let mut i: usize = 0;
        while i < self.entries.len()
            invariant
                i <= self@.len(),
                forall|j: int| 0 <= j < i ==> #[trigger] self@[j].0 != id,
            decreases self@.len() - i,
        {
            if self.entries[i].0 == id {
                return Some(i);
            }
            i = i + 1;
        }
        None
    }

    /// What is kept for sprite `id`, if it is in the list.
    pub fn get(&self, id: u64) -> (r: Option<&T>)
        requires
            self.wf(),
        ensures
            match r {
                Some(v) => exists|i: int| 0 <= i < self@.len() && #[trigger] self@[i].0 == id && self@[i].2 == *v,
                None => !has_sprite(self@, id),
            },
    {
        match self.index_of(id) {
            Some(i) => Some(&self.entries[i].2),
            None => None,
        }
    }

    /// The entry at position `i`, to be changed in place.
    pub fn entry_mut(&mut self, i: usize) -> (e: &mut T)
        requires
            i < old(self)@.len(),
        ensures
            *e == old(self)@[i as int].2,
            final(self)@ == old(self)@.update(
                i as int,
                (old(self)@[i as int].0, old(self)@[i as int].1, *final(e)),
            ),
    {
        &mut self.entries[i].2
    }

    /// Adds sprite `id` at z-index `z` at the end of the list; an entry with
    /// the same id is replaced (taken out first).
    pub fn add(&mut self, id: u64, z: i32, value: T)
        requires
            old(self).wf(),
        ensures
            final(self).wf(),
            has_sprite(old(self)@, id) ==> exists|i: int|
                0 <= i < old(self)@.len() && old(self)@[i].0 == id && final(self)@ == old(self)@.remove(i).push(
                    (id, z, value),
                ),
            !has_sprite(old(self)@, id) ==> final(self)@ == old(self)@.push((id, z, value)),
    {
        self.remove(id);
        let ghost mid = self@;
        self.entries.push((id, z, value));
        proof {
            let e = self@;
            assert forall|i: int, j: int|
                0 <= i < e.len() && 0 <= j < e.len() && i != j implies #[trigger] e[i].0 != #[trigger] e[j].0 by {
                if i < mid.len() && j < mid.len() {
                    assert(e[i] == mid[i] && e[j] == mid[j]);
                } else if i < mid.len() {
                    assert(e[i] == mid[i]);
                    assert(!has_sprite(mid, id));
                } else {
                    assert(e[j] == mid[j]);
                    assert(!has_sprite(mid, id));
                }
            }
        }
    }

    /// Removes sprite `id`; returns whether it was in the list.
    pub fn remove(&mut self, id: u64) -> (removed: bool)
        requires
            old(self).wf(),
        ensures
            final(self).wf(),
            removed == has_sprite(old(self)@, id),
            removed ==> exists|i: int|
                0 <= i < old(self)@.len() && old(self)@[i].0 == id && final(self)@ == old(self)@.remove(i),
            !removed ==> final(self)@ == old(self)@,
            !has_sprite(final(self)@, id),
    {
        let ghost before = self@;
        match self.index_of(id) {
            Some(i) => {
                self.entries.remove(i);
                proof {
                    let e = self@;
                    assert(e == before.remove(i as int));
                    assert forall|a: int, b: int|
                        0 <= a < e.len() && 0 <= b < e.len() && a != b implies #[trigger] e[a].0 != #[trigger] e[b].0 by {
                        let a0 = if a < i { a } else { a + 1 };
                        let b0 = if b < i { b } else { b + 1 };
                        assert(e[a] == before[a0] && e[b] == before[b0]);
                    }
                    if has_sprite(e, id) {
                        let k = choose|k: int| 0 <= k < e.len() && #[trigger] e[k].0 == id;
                        let k0 = if k < i { k } else { k + 1 };
                        assert(e[k] == before[k0]);
                    }
                }
                true
            },
            None => false,
        }
    }

    /// Removes every sprite.
    pub fn clear(&mut self)
        ensures
            final(self).wf(),
            final(self)@ == Seq::<(u64, i32, T)>::empty(),
    {
        self.entries.clear();
    }

    /// Positions of the sprites in drawing order: by z-index, and among equal
    /// z-indices in the order they were added.
    pub fn draw_order(&self) -> (order: Vec<usize>)
        ensures
            order@.len() == self@.len(),
            is_draw_order(self@.map_values(|e: (u64, i32, T)| e.1), order@),
    {
        let mut z: Vec<i32> = Vec::new();
        let mut i: usize = 0;
        while i < self.entries.len()
            invariant
                i <= self@.len(),
                z@ == self@.subrange(0, i as int).map_values(|e: (u64, i32, T)| e.1),
            decreases self@.len() - i,
        {
            z.push(self.entries[i].1);
            proof {
                assert(self@.subrange(0, i + 1).map_values(|e: (u64, i32, T)| e.1) =~= self@.subrange(
                    0,
                    i as int,
                ).map_values(|e: (u64, i32, T)| e.1).push(self@[i as int].1));
            }
            i = i + 1;
        }
        assert(self@.subrange(0, self@.len() as int) =~= self@);
        render_order(z.as_slice())
    }
}

} // verus!
