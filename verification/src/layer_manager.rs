//! Layer manager: six render-layer slots composited bottom to top
//! (0 background, 1–2 sprites, 3 effects, 4 text, 5 UI).
use vstd::prelude::*;

verus! {

/// Number of layer slots.
pub const LAYER_COUNT: usize = 6;

/// Number of occupied slots.
pub open spec fn count_some<L>(s: Seq<Option<L>>) -> nat
    decreases s.len(),
{
    if s.len() == 0 {
        0
    } else {
        count_some(s.drop_last()) + if s.last() is Some {
            1nat
        } else {
            0nat
        }
    }
}

/// Six layer slots holding layers of type `L`; an empty slot is skipped when
/// rendering.
pub struct LayerManager<L> {
    layers: Vec<Option<L>>,
}

impl<L> View for LayerManager<L> {
    type V = Seq<Option<L>>;

    closed spec fn view(&self) -> Seq<Option<L>> {
        self.layers@
    }
}

impl<L> LayerManager<L> {
    /// Always six slots.
    pub open spec fn wf(&self) -> bool {
        self@.len() == LAYER_COUNT
    }

    /// All six slots empty.
    pub fn new() -> (m: Self)
        ensures
            m.wf(),
            forall|i: int| 0 <= i < LAYER_COUNT ==> #[trigger] m@[i] is None,
    {
        let mut layers: Vec<Option<L>> = Vec::new();
        while layers.len() < LAYER_COUNT
            invariant
                layers@.len() <= LAYER_COUNT,
                forall|i: int| 0 <= i < layers@.len() ==> #[trigger] layers@[i] is None,
            decreases LAYER_COUNT - layers@.len(),
        {
            layers.push(None);
        }
        LayerManager { layers }
    }

    /// Puts `layer` in slot `index`, replacing (and dropping) what was there.
    pub fn set_layer(&mut self, index: usize, layer: L)
        requires
            old(self).wf(),
            index < LAYER_COUNT,
        ensures
            final(self).wf(),
            final(self)@ == old(self)@.update(index as int, Some(layer)),
    {
        self.layers.set(index, Some(layer));
    }

    /// Empties slot `index` and returns what it held.
    pub fn remove_layer(&mut self, index: usize) -> (old_layer: Option<L>)
        requires
            old(self).wf(),
            index < LAYER_COUNT,
        ensures
            final(self).wf(),
            old_layer == old(self)@[index as int],
            final(self)@ == old(self)@.update(index as int, None),
    {
        let taken = self.layers.remove(index);
        self.layers.insert(index, None);
        proof {
            assert(self.layers@ =~= old(self)@.update(index as int, None));
        }
        taken
    }

    /// Whether slot `index` holds a layer.
    pub fn has_layer(&self, index: usize) -> (b: bool)
        requires
            self.wf(),
            index < LAYER_COUNT,
        ensures
            b == self@[index as int] is Some,
    {
        self.layers[index].is_some()
    }

    /// Number of occupied slots.
    pub fn active_layer_count(&self) -> (n: usize)
        requires
            self.wf(),
        ensures
            n as nat == count_some(self@),
    {
        let mut n: usize = 0;
        let mut i: usize = 0;
        while i < self.layers.len()
            invariant
                i <= self.layers@.len(),
                self.layers@.len() == LAYER_COUNT,
                n as nat == count_some(self.layers@.subrange(0, i as int)),
                n <= i,
            decreases self.layers@.len() - i,
        {
            proof {
                let p = self.layers@.subrange(0, i + 1);
                assert(p.drop_last() =~= self.layers@.subrange(0, i as int));
            }
            if self.layers[i].is_some() {
                n = n + 1;
            }
            i = i + 1;
        }
        proof {
            assert(self.layers@.subrange(0, self.layers@.len() as int) =~= self.layers@);
        }
        n
    }

    /// The slots, bottom (0) to top (5), in rendering order.
    pub fn slots(&self) -> (s: &[Option<L>])
        ensures
            s@ == self@,
    {
        self.layers.as_slice()
    }
}

impl<L> Default for LayerManager<L> {
    /// All six slots empty.
    fn default() -> (m: Self)
        ensures
            m.wf(),
            forall|i: int| 0 <= i < LAYER_COUNT ==> #[trigger] m@[i] is None,
    {
        Self::new()
    }
}

/// Occupying a slot adds one to the count exactly when it was empty, and
/// emptying a slot removes one exactly when it was occupied.
pub proof fn law_count_tracks_slots<L>(s: Seq<Option<L>>, i: int, v: Option<L>)
    requires
        0 <= i < s.len(),
    ensures
        count_some(s.update(i, v)) + (if s[i] is Some { 1nat } else { 0nat }) == count_some(s) + (
        if v is Some {
            1nat
        } else {
            0nat
        }),
    decreases s.len(),
{
    if i == s.len() - 1 {
        assert(s.update(i, v).drop_last() =~= s.drop_last());
    } else {
        assert(s.update(i, v).drop_last() =~= s.drop_last().update(i, v));
        law_count_tracks_slots(s.drop_last(), i, v);
    }
}

} // verus!
