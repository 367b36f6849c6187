//! The non-GPU half of the text renderer: the shelf packer that places glyph
//! bitmaps in the glyph atlas, and the text/visible-range state that decides
//! when the text must be laid out again.
use vstd::prelude::*;

verus! {

/// Initial width and height of the glyph atlas, in pixels.
pub const ATLAS_INITIAL_SIZE: u32 = 1024;

/// Largest width and height the glyph atlas grows to, in pixels.
pub const ATLAS_MAX_SIZE: u32 = 2048;

/// Empty pixels kept around each glyph so that linear sampling does not bleed.
pub const GLYPH_PADDING: u32 = 1;

/// An axis-aligned rectangle of atlas pixels.
pub struct Rect {
    pub x: nat,
    pub y: nat,
    pub w: nat,
    pub h: nat,
}

/// Two rectangles share no pixel.
pub open spec fn rects_disjoint(a: Rect, b: Rect) -> bool {
    a.x + a.w <= b.x || b.x + b.w <= a.x || a.y + a.h <= b.y || b.y + b.h <= a.y
}

/// No two rectangles of the sequence share a pixel.
pub open spec fn pairwise_disjoint(rs: Seq<Rect>) -> bool {
    forall|i: int, j: int|
        0 <= i < rs.len() && 0 <= j < rs.len() && i != j ==> rects_disjoint(#[trigger] rs[i], #[trigger] rs[j])
}

/// Abstract state of a [`RowAtlas`].
pub struct AtlasModel {
    pub width: nat,
    pub height: nat,
    /// Top of the shelf being filled.
    pub row_y: nat,
    /// Height of the shelf being filled (its tallest padded glyph).
    pub row_height: nat,
    /// Left edge of the free part of the shelf being filled.
    pub row_x: nat,
    /// Padded rectangles handed out since the atlas was created or last grew.
    pub allocated: Seq<Rect>,
}

/// The padded rectangle lies inside the atlas.
pub open spec fn rect_inside(r: Rect, width: nat, height: nat) -> bool {
    r.x + r.w <= width && r.y + r.h <= height
}

/// Every rectangle handed out lies inside the atlas, on an earlier shelf or to
/// the left of the free part of the current shelf, and no two overlap; the
/// current shelf itself lies inside the atlas.
pub open spec fn atlas_wf(m: AtlasModel) -> bool {
    &&& m.row_x <= m.width
    &&& m.row_y + m.row_height <= m.height
    &&& forall|i: int|
        0 <= i < m.allocated.len() ==> {
            let r = #[trigger] m.allocated[i];
            &&& rect_inside(r, m.width, m.height)
            &&& {
                ||| r.y + r.h <= m.row_y
                ||| (m.row_y <= r.y && r.y + r.h <= m.row_y + m.row_height && r.x + r.w <= m.row_x)
            }
        }
    &&& pairwise_disjoint(m.allocated)
}

/// Result of placing a `gw`×`gh` glyph: the new state and the glyph's
/// top-left pixel (inside its padding), or `None` when the atlas is full.
/// The glyph goes on the current shelf when it fits there (to the right of
/// what the shelf holds, and within the atlas's height), else on a new shelf
/// below when that fits inside the atlas.
pub open spec fn allocation(m: AtlasModel, gw: nat, gh: nat) -> (AtlasModel, Option<(nat, nat)>) {
    let pw = gw + 2 * (GLYPH_PADDING as nat);
    let ph = gh + 2 * (GLYPH_PADDING as nat);
    if m.row_x + pw <= m.width && m.row_y + ph <= m.height {
        (
            AtlasModel {
                row_x: m.row_x + pw,
                row_height: if m.row_height >= ph { m.row_height } else { ph },
                allocated: m.allocated.push(Rect { x: m.row_x, y: m.row_y, w: pw, h: ph }),
                ..m
            },
            Some((m.row_x + (GLYPH_PADDING as nat), m.row_y + (GLYPH_PADDING as nat))),
        )
    } else if pw <= m.width && m.row_y + m.row_height + ph <= m.height {
        let ny = m.row_y + m.row_height;
        (
            AtlasModel {
                row_y: ny,
                row_x: pw,
                row_height: ph,
                allocated: m.allocated.push(Rect { x: 0, y: ny, w: pw, h: ph }),
                ..m
            },
            Some(((GLYPH_PADDING as nat), ny + (GLYPH_PADDING as nat))),
        )
    } else {
        (m, None)
    }
}

/// Shelf ("row") packer for glyph bitmaps.
pub struct RowAtlas {
    width: u32,
    height: u32,
    current_row_y: u32,
    current_row_height: u32,
    current_row_x: u32,
    allocated: Ghost<Seq<Rect>>,
}

impl View for RowAtlas {
    type V = AtlasModel;

    closed spec fn view(&self) -> AtlasModel {
        AtlasModel {
            width: self.width as nat,
            height: self.height as nat,
            row_y: self.current_row_y as nat,
            row_height: self.current_row_height as nat,
            row_x: self.current_row_x as nat,
            allocated: self.allocated@,
        }
    }
}

impl RowAtlas {
    /// Well-formedness of the concrete state.
    pub open spec fn wf(&self) -> bool {
        atlas_wf(self@)
    }

    /// An empty atlas of the given size.
    pub fn new(width: u32, height: u32) -> (a: Self)
        ensures
            a.wf(),
            a@ == (AtlasModel {
                width: width as nat,
                height: height as nat,
                row_y: 0,
                row_height: 0,
                row_x: 0,
                allocated: Seq::empty(),
            }),
    {
        RowAtlas {
            width,
            height,
            current_row_y: 0,
            current_row_height: 0,
            current_row_x: 0,
            allocated: Ghost(Seq::empty()),
        }
    }

    /// Width in pixels.
    pub fn width(&self) -> (w: u32)
        ensures
            w as nat == self@.width,
    {
        self.width
    }

    /// Height in pixels.
    pub fn height(&self) -> (h: u32)
        ensures
            h as nat == self@.height,
    {
        self.height
    }

    /// Places a `glyph_width`×`glyph_height` glyph (see [`allocation`]): on
    /// the current shelf when it fits there, else on a new shelf below when
    /// that fits, else nowhere (`None`: the atlas must grow).
    pub fn allocate(&mut self, glyph_width: u32, glyph_height: u32) -> (pos: Option<(u32, u32)>)
        requires
            old(self).wf(),
            glyph_width <= GLYPH_MAX_SIDE,
            glyph_height <= GLYPH_MAX_SIDE,
        ensures
            final(self).wf(),
            final(self)@ == allocation(old(self)@, glyph_width as nat, glyph_height as nat).0,
            match (pos, allocation(old(self)@, glyph_width as nat, glyph_height as nat).1) {
                (Some((x, y)), Some((sx, sy))) => x as nat == sx && y as nat == sy,
                (None, None) => true,
                _ => false,
            },
    {
        let padded_w = glyph_width + GLYPH_PADDING * 2;
        let padded_h = glyph_height + GLYPH_PADDING * 2;
        proof {
            law_allocations_disjoint(self@, glyph_width as nat, glyph_height as nat);
        }
        if (self.current_row_x as u64) + (padded_w as u64) <= (self.width as u64) && (self.current_row_y as u64)
            + (padded_h as u64) <= (self.height as u64) {
            let x = self.current_row_x + GLYPH_PADDING;
            let y = self.current_row_y + GLYPH_PADDING;
            let ghost r = Rect {
                x: self.current_row_x as nat,
                y: self.current_row_y as nat,
                w: padded_w as nat,
                h: padded_h as nat,
            };
            self.current_row_x = self.current_row_x + padded_w;
            if padded_h > self.current_row_height {
                self.current_row_height = padded_h;
            }
            proof {
                self.allocated@ = self.allocated@.push(r);
            }
            return Some((x, y));
        }
        let new_row_y: u64 = (self.current_row_y as u64) + (self.current_row_height as u64);
        if (padded_w as u64) <= (self.width as u64) && new_row_y + (padded_h as u64) <= (self.height as u64) {
            let ny = new_row_y as u32;
            let ghost r = Rect { x: 0, y: ny as nat, w: padded_w as nat, h: padded_h as nat };
            self.current_row_y = ny;
            self.current_row_x = padded_w;
            self.current_row_height = padded_h;
            proof {
                self.allocated@ = self.allocated@.push(r);
            }
            return Some((GLYPH_PADDING, ny + GLYPH_PADDING));
        }
        None
    }

    /// Doubles both sides, capped at [`ATLAS_MAX_SIZE`], and empties the atlas;
    /// returns `false` (and changes nothing) when it is already at the cap.
    pub fn grow(&mut self) -> (grew: bool)
        requires
            old(self).wf(),
            old(self)@.width * 2 <= u32::MAX,
            old(self)@.height * 2 <= u32::MAX,
        ensures
            final(self).wf(),
            ({
                let nw = if old(self)@.width * 2 <= ATLAS_MAX_SIZE {
                    old(self)@.width * 2
                } else {
                    ATLAS_MAX_SIZE as nat
                };
                let nh = if old(self)@.height * 2 <= ATLAS_MAX_SIZE {
                    old(self)@.height * 2
                } else {
                    ATLAS_MAX_SIZE as nat
                };
                if nw == old(self)@.width && nh == old(self)@.height {
                    !grew && final(self)@ == old(self)@
                } else {
                    grew && final(self)@ == (AtlasModel {
                        width: nw,
                        height: nh,
                        row_y: 0,
                        row_height: 0,
                        row_x: 0,
                        allocated: Seq::empty(),
                    })
                }
            }),
    {
        let doubled_w = self.width * 2;
        let doubled_h = self.height * 2;
        let new_width = if doubled_w <= ATLAS_MAX_SIZE {
            doubled_w
        } else {
            ATLAS_MAX_SIZE
        };
        let new_height = if doubled_h <= ATLAS_MAX_SIZE {
            doubled_h
        } else {
            ATLAS_MAX_SIZE
        };
        if new_width == self.width && new_height == self.height {
            return false;
        }
        self.width = new_width;
        self.height = new_height;
        self.current_row_y = 0;
        self.current_row_height = 0;
        self.current_row_x = 0;
        self.allocated = Ghost(Seq::empty());
        true
    }
}

/// Glyphs placed in the atlas never overlap, padding included, and never
/// leave it: every pair of rectangles handed out since the atlas was created
/// or last grew is disjoint, and each lies inside the atlas.
pub proof fn law_allocations_disjoint(m: AtlasModel, gw: nat, gh: nat)
    requires
        atlas_wf(m),
    ensures
        pairwise_disjoint(allocation(m, gw, gh).0.allocated),
        atlas_wf(allocation(m, gw, gh).0),
{
    let pw = gw + 2 * (GLYPH_PADDING as nat);
    let ph = gh + 2 * (GLYPH_PADDING as nat);
    let (m2, _) = allocation(m, gw, gh);
    if (m.row_x + pw <= m.width && m.row_y + ph <= m.height) || (pw <= m.width && m.row_y + m.row_height + ph
        <= m.height) {
        assert forall|i: int, j: int|
            0 <= i < m2.allocated.len() && 0 <= j < m2.allocated.len() && i != j
            implies rects_disjoint(#[trigger] m2.allocated[i], #[trigger] m2.allocated[j]) by {
            if i < m.allocated.len() && j < m.allocated.len() {
                assert(m2.allocated[i] == m.allocated[i]);
                assert(m2.allocated[j] == m.allocated[j]);
            } else if i < m.allocated.len() {
                assert(m2.allocated[i] == m.allocated[i]);
            } else {
                assert(m2.allocated[j] == m.allocated[j]);
            }
        }
        assert forall|i: int| 0 <= i < m2.allocated.len() implies {
            let q = #[trigger] m2.allocated[i];
            &&& rect_inside(q, m2.width, m2.height)
            &&& {
                ||| q.y + q.h <= m2.row_y
                ||| (m2.row_y <= q.y && q.y + q.h <= m2.row_y + m2.row_height && q.x + q.w <= m2.row_x)
            }
        } by {
            if i < m.allocated.len() {
                assert(m2.allocated[i] == m.allocated[i]);
            }
        }
    }
}

/// A glyph that is given a place lies wholly inside the atlas, padding
/// included, and its position is the inside corner of its padded rectangle.
pub proof fn law_allocation_in_bounds(m: AtlasModel, gw: nat, gh: nat)
    requires
        atlas_wf(m),
    ensures
        ({
            let (m2, pos) = allocation(m, gw, gh);
            pos matches Some((px, py)) ==> {
                let r = m2.allocated.last();
                &&& m2.allocated.len() == m.allocated.len() + 1
                &&& r.x + r.w <= m.width
                &&& r.y + r.h <= m.height
                &&& px == r.x + (GLYPH_PADDING as nat)
                &&& py == r.y + (GLYPH_PADDING as nat)
                &&& px + gw + (GLYPH_PADDING as nat) <= m.width
                &&& py + gh + (GLYPH_PADDING as nat) <= m.height
            }
        }),
{
}

/// Largest glyph bitmap side the packer accepts: with its padding on both
/// sides it must still fit a `u32`.
pub const GLYPH_MAX_SIDE: u32 = 0xFFFF_FFFD;

/// A rasterised glyph as the rasteriser hands it over: the key it is cached
/// under, its bitmap size, and its bearings from the pen position.
#[derive(Debug, Clone, Copy, PartialEq, Eq, Structural)]
pub struct GlyphRaster {
    pub key: u64,
    pub width: u32,
    pub height: u32,
    pub left: i32,
    pub top: i32,
}

/// Where a cached glyph's bitmap sits in the atlas, its size and bearings.
#[derive(Debug, Clone, Copy, PartialEq, Eq, Structural)]
pub struct CachedGlyph {
    pub atlas_x: u32,
    pub atlas_y: u32,
    pub width: u32,
    pub height: u32,
    pub left: i32,
    pub top: i32,
}

/// A pixel position in the atlas.
#[derive(Debug, Clone, Copy, PartialEq, Eq, Structural)]
pub struct AtlasSpot {
    pub x: u32,
    pub y: u32,
}

/// What inserting a glyph into the cache did.
#[derive(Debug, Clone, Copy, PartialEq, Eq, Structural)]
pub enum GlyphInsert {
    /// The key was cached already; nothing changed.
    AlreadyCached,
    /// The bitmap goes at `(x, y)` of the current atlas.
    Placed { x: u32, y: u32 },
    /// The atlas was full and grew: every cached glyph was placed anew (those
    /// that no longer fit were dropped), then the new glyph, if it fit.
    Regrown { placed: Option<AtlasSpot> },
    /// The atlas was full and at its largest size; the glyph is not cached.
    NoRoom,
}

/// The padded atlas rectangle a cached glyph occupies.
pub open spec fn glyph_rect(g: CachedGlyph) -> Rect {
    Rect {
        x: (g.atlas_x - GLYPH_PADDING) as nat,
        y: (g.atlas_y - GLYPH_PADDING) as nat,
        w: (g.width + 2 * (GLYPH_PADDING as nat)) as nat,
        h: (g.height + 2 * (GLYPH_PADDING as nat)) as nat,
    }
}

/// The cache entry of glyph `r` placed at `pos`.
pub open spec fn placed_glyph(pos: (nat, nat), r: GlyphRaster) -> CachedGlyph {
    CachedGlyph {
        atlas_x: pos.0 as u32,
        atlas_y: pos.1 as u32,
        width: r.width,
        height: r.height,
        left: r.left,
        top: r.top,
    }
}

/// The raster a cache entry was made from.
pub open spec fn raster_of(key: u64, g: CachedGlyph) -> GlyphRaster {
    GlyphRaster { key, width: g.width, height: g.height, left: g.left, top: g.top }
}

/// `key` is among the cached glyphs.
pub open spec fn glyph_cached(glyphs: Seq<(u64, CachedGlyph)>, key: u64) -> bool {
    exists|i: int| 0 <= i < glyphs.len() && #[trigger] glyphs[i].0 == key
}

/// An empty atlas of the given size.
pub open spec fn fresh_atlas(width: nat, height: nat) -> AtlasModel {
    AtlasModel { width, height, row_y: 0, row_height: 0, row_x: 0, allocated: Seq::empty() }
}

/// A side of the atlas after growing: doubled, capped at [`ATLAS_MAX_SIZE`].
pub open spec fn grown_side(side: nat) -> nat {
    if side * 2 <= ATLAS_MAX_SIZE {
        side * 2
    } else {
        ATLAS_MAX_SIZE as nat
    }
}

/// Places the cached glyphs, in order, into atlas `m`; a glyph that does not
/// fit is dropped.  Returns the glyphs kept, at their new places, and the atlas.
pub open spec fn repacked(glyphs: Seq<(u64, CachedGlyph)>, m: AtlasModel) -> (Seq<(u64, CachedGlyph)>, AtlasModel)
    decreases glyphs.len(),
{
    if glyphs.len() == 0 {
        (Seq::empty(), m)
    } else {
        let (kept, m1) = repacked(glyphs.drop_last(), m);
        let e = glyphs.last();
        let (m2, pos) = allocation(m1, e.1.width as nat, e.1.height as nat);
        match pos {
            Some(p) => (kept.push((e.0, placed_glyph(p, raster_of(e.0, e.1)))), m2),
            None => (kept, m1),
        }
    }
}

/// Abstract state of a [`GlyphCache`]: the atlas and the cached glyphs in the
/// order they were placed.
pub struct GlyphCacheModel {
    pub atlas: AtlasModel,
    pub glyphs: Seq<(u64, CachedGlyph)>,
}

/// What inserting glyph `r` does to cache `m`, and what it reports.
pub open spec fn glyph_insertion(m: GlyphCacheModel, r: GlyphRaster) -> (GlyphCacheModel, GlyphInsert) {
    if glyph_cached(m.glyphs, r.key) {
        (m, GlyphInsert::AlreadyCached)
    } else {
        let (a1, pos) = allocation(m.atlas, r.width as nat, r.height as nat);
        match pos {
            Some(p) => (
                GlyphCacheModel { atlas: a1, glyphs: m.glyphs.push((r.key, placed_glyph(p, r))) },
                GlyphInsert::Placed { x: p.0 as u32, y: p.1 as u32 },
            ),
            None => {
                let nw = grown_side(m.atlas.width);
                let nh = grown_side(m.atlas.height);
                if nw == m.atlas.width && nh == m.atlas.height {
                    (m, GlyphInsert::NoRoom)
                } else {
                    let (kept, a2) = repacked(m.glyphs, fresh_atlas(nw, nh));
                    let (a3, pos3) = allocation(a2, r.width as nat, r.height as nat);
                    match pos3 {
                        Some(p) => (
                            GlyphCacheModel { atlas: a3, glyphs: kept.push((r.key, placed_glyph(p, r))) },
                            GlyphInsert::Regrown { placed: Some(AtlasSpot { x: p.0 as u32, y: p.1 as u32 }) },
                        ),
                        None => (GlyphCacheModel { atlas: a2, glyphs: kept }, GlyphInsert::Regrown { placed: None }),
                    }
                }
            },
        }
    }
}

/// The packer's cursor stays where its `u32` arithmetic cannot overflow.
pub open spec fn atlas_bounded(a: AtlasModel) -> bool {
    &&& a.width <= ATLAS_MAX_SIZE
    &&& a.height <= ATLAS_MAX_SIZE
}

/// Cached glyphs correspond one to one, in order, to the atlas rectangles
/// handed out, and their keys are unique.
pub open spec fn layout_wf(a: AtlasModel, glyphs: Seq<(u64, CachedGlyph)>) -> bool {
    &&& atlas_wf(a)
    &&& atlas_bounded(a)
    &&& glyphs.len() == a.allocated.len()
    &&& forall|i: int| 0 <= i < glyphs.len() ==> a.allocated[i] == glyph_rect(#[trigger] glyphs[i].1)
    &&& forall|i: int| 0 <= i < glyphs.len() ==> {
        &&& (#[trigger] glyphs[i]).1.width <= GLYPH_MAX_SIDE
        &&& glyphs[i].1.height <= GLYPH_MAX_SIDE
    }
    &&& forall|i: int, j: int|
        0 <= i < glyphs.len() && 0 <= j < glyphs.len() && i != j ==> #[trigger] glyphs[i].0 != #[trigger] glyphs[j].0
}

/// Well-formedness of a [`GlyphCacheModel`].
pub open spec fn glyph_cache_wf(m: GlyphCacheModel) -> bool {
    layout_wf(m.atlas, m.glyphs)
}

proof fn lemma_allocation_bounded(a: AtlasModel, w: nat, h: nat)
    requires
        atlas_wf(a),
        atlas_bounded(a),
    ensures
        atlas_bounded(allocation(a, w, h).0),
        allocation(a, w, h).1 matches Some(p) ==> p.0 <= ATLAS_MAX_SIZE && p.1 <= ATLAS_MAX_SIZE,
{
}

/// Placing glyph `r` keeps the layout well formed.
proof fn lemma_place_keeps_layout(a: AtlasModel, glyphs: Seq<(u64, CachedGlyph)>, r: GlyphRaster)
    requires
        layout_wf(a, glyphs),
        !glyph_cached(glyphs, r.key),
        r.width <= GLYPH_MAX_SIDE,
        r.height <= GLYPH_MAX_SIDE,
    ensures
        ({
            let (a1, pos) = allocation(a, r.width as nat, r.height as nat);
            pos matches Some(p) ==> layout_wf(a1, glyphs.push((r.key, placed_glyph(p, r))))
        }),
        allocation(a, r.width as nat, r.height as nat).1 is None ==> allocation(a, r.width as nat, r.height as nat).0 == a,
{
    let (a1, pos) = allocation(a, r.width as nat, r.height as nat);
    lemma_allocation_bounded(a, r.width as nat, r.height as nat);
    law_allocations_disjoint(a, r.width as nat, r.height as nat);
    if let Some(p) = pos {
        let g2 = glyphs.push((r.key, placed_glyph(p, r)));
        assert(a1.allocated.last() == glyph_rect(placed_glyph(p, r)));
        assert forall|i: int| 0 <= i < g2.len() implies a1.allocated[i] == glyph_rect(#[trigger] g2[i].1) by {
            if i < glyphs.len() {
                assert(g2[i] == glyphs[i]);
                assert(a1.allocated[i] == a.allocated[i]);
            }
        }
        assert forall|i: int| 0 <= i < g2.len() implies {
            &&& (#[trigger] g2[i]).1.width <= GLYPH_MAX_SIDE
            &&& g2[i].1.height <= GLYPH_MAX_SIDE
        } by {
            if i < glyphs.len() {
                assert(g2[i] == glyphs[i]);
            }
        }
        assert forall|i: int, j: int|
            0 <= i < g2.len() && 0 <= j < g2.len() && i != j implies #[trigger] g2[i].0 != #[trigger] g2[j].0 by {
            if i < glyphs.len() && j < glyphs.len() {
                assert(g2[i] == glyphs[i]);
                assert(g2[j] == glyphs[j]);
            } else if i < glyphs.len() {
                assert(g2[i] == glyphs[i]);
                assert(glyphs[i].0 != r.key);
            } else {
                assert(g2[j] == glyphs[j]);
                assert(glyphs[j].0 != r.key);
            }
        }
    }
}

/// Repacking into a fresh atlas gives a well-formed layout whose keys all come
/// from the glyphs repacked.
proof fn lemma_repacked_wf(glyphs: Seq<(u64, CachedGlyph)>, m: AtlasModel)
    requires
        layout_wf(m, Seq::empty()),
        forall|i: int, j: int|
            0 <= i < glyphs.len() && 0 <= j < glyphs.len() && i != j ==> #[trigger] glyphs[i].0 != #[trigger] glyphs[j].0,
        forall|i: int| 0 <= i < glyphs.len() ==> {
            &&& (#[trigger] glyphs[i]).1.width <= GLYPH_MAX_SIDE
            &&& glyphs[i].1.height <= GLYPH_MAX_SIDE
        },
    ensures
        layout_wf(repacked(glyphs, m).1, repacked(glyphs, m).0),
        forall|k: u64| glyph_cached(repacked(glyphs, m).0, k) ==> glyph_cached(glyphs, k),
    decreases glyphs.len(),
{
    if glyphs.len() > 0 {
        let rest = glyphs.drop_last();
        assert forall|i: int, j: int|
            0 <= i < rest.len() && 0 <= j < rest.len() && i != j implies #[trigger] rest[i].0 != #[trigger] rest[j].0 by {
            assert(rest[i] == glyphs[i]);
            assert(rest[j] == glyphs[j]);
        }
        assert forall|i: int| 0 <= i < rest.len() implies {
            &&& (#[trigger] rest[i]).1.width <= GLYPH_MAX_SIDE
            &&& rest[i].1.height <= GLYPH_MAX_SIDE
        } by {
            assert(rest[i] == glyphs[i]);
        }
        lemma_repacked_wf(rest, m);
        let (kept, m1) = repacked(rest, m);
        let e = glyphs.last();
        let r = raster_of(e.0, e.1);
        assert(e == glyphs[glyphs.len() - 1]);
        assert(!glyph_cached(kept, e.0)) by {
            if glyph_cached(kept, e.0) {
                assert(glyph_cached(rest, e.0));
                let i = choose|i: int| 0 <= i < rest.len() && #[trigger] rest[i].0 == e.0;
                assert(rest[i] == glyphs[i]);
            }
        }
        lemma_place_keeps_layout(m1, kept, r);
        let (m2, pos) = allocation(m1, e.1.width as nat, e.1.height as nat);
        if let Some(p) = pos {
            let k2 = kept.push((e.0, placed_glyph(p, r)));
            assert forall|k: u64| glyph_cached(k2, k) implies glyph_cached(glyphs, k) by {
                let i = choose|i: int| 0 <= i < k2.len() && #[trigger] k2[i].0 == k;
                if i < kept.len() {
                    assert(k2[i] == kept[i]);
                    assert(glyph_cached(rest, k));
                    let j = choose|j: int| 0 <= j < rest.len() && #[trigger] rest[j].0 == k;
                    assert(rest[j] == glyphs[j]);
                } else {
                    assert(glyphs[glyphs.len() - 1].0 == k);
                }
            }
        } else {
            assert forall|k: u64| glyph_cached(kept, k) implies glyph_cached(glyphs, k) by {
                assert(glyph_cached(rest, k));
                let j = choose|j: int| 0 <= j < rest.len() && #[trigger] rest[j].0 == k;
                assert(rest[j] == glyphs[j]);
            }
        }
    }
}

/// Every outcome of an insertion leaves a well-formed cache.
proof fn lemma_insertion_wf(m: GlyphCacheModel, r: GlyphRaster)
    requires
        glyph_cache_wf(m),
        r.width <= GLYPH_MAX_SIDE,
        r.height <= GLYPH_MAX_SIDE,
    ensures
        glyph_cache_wf(glyph_insertion(m, r).0),
{
    if !glyph_cached(m.glyphs, r.key) {
        lemma_place_keeps_layout(m.atlas, m.glyphs, r);
        let (a1, pos) = allocation(m.atlas, r.width as nat, r.height as nat);
        if pos is None {
            let nw = grown_side(m.atlas.width);
            let nh = grown_side(m.atlas.height);
            if !(nw == m.atlas.width && nh == m.atlas.height) {
                lemma_repacked_wf(m.glyphs, fresh_atlas(nw, nh));
                let (kept, a2) = repacked(m.glyphs, fresh_atlas(nw, nh));
                assert(!glyph_cached(kept, r.key));
                lemma_place_keeps_layout(a2, kept, r);
            }
        }
    }
}

/// Glyph bitmaps in the atlas never overlap: the padded rectangles of any two
/// cached glyphs are disjoint.
pub proof fn law_cached_glyphs_disjoint(m: GlyphCacheModel, i: int, j: int)
    requires
        glyph_cache_wf(m),
        0 <= i < m.glyphs.len(),
        0 <= j < m.glyphs.len(),
        i != j,
    ensures
        rects_disjoint(glyph_rect(m.glyphs[i].1), glyph_rect(m.glyphs[j].1)),
{
    assert(m.atlas.allocated[i] == glyph_rect(m.glyphs[i].1));
    assert(m.atlas.allocated[j] == glyph_rect(m.glyphs[j].1));
}

/// After an insertion that placed the glyph, it is cached; glyphs that were
/// cached stay cached unless the atlas was regrown.
pub proof fn law_insertion_caches(m: GlyphCacheModel, r: GlyphRaster, k: u64)
    requires
        glyph_cache_wf(m),
    ensures
        ({
            let (m2, outcome) = glyph_insertion(m, r);
            &&& (outcome is AlreadyCached || outcome is Placed || outcome matches GlyphInsert::Regrown { placed: Some(_) })
                ==> glyph_cached(m2.glyphs, r.key)
            &&& (glyph_cached(m.glyphs, k) && !(outcome is Regrown)) ==> glyph_cached(m2.glyphs, k)
        }),
{
    let (m2, outcome) = glyph_insertion(m, r);
    if glyph_cached(m.glyphs, k) && !(outcome is Regrown) && !(outcome is AlreadyCached) && !(outcome is NoRoom) {
        let i = choose|i: int| 0 <= i < m.glyphs.len() && #[trigger] m.glyphs[i].0 == k;
        assert(m2.glyphs[i] == m.glyphs[i]);
    }
    if !glyph_cached(m.glyphs, r.key) {
        if outcome is Placed {
            assert(m2.glyphs[m.glyphs.len() as int].0 == r.key);
        }
        if let GlyphInsert::Regrown { placed: Some(_) } = outcome {
            let (kept, a2) = repacked(m.glyphs, fresh_atlas(grown_side(m.atlas.width), grown_side(m.atlas.height)));
            assert(m2.glyphs[kept.len() as int].0 == r.key);
        }
    }
}

/// Cache of rasterised glyphs and where their bitmaps sit in the atlas.
pub struct GlyphCache {
    atlas: RowAtlas,
    glyphs: Vec<(u64, CachedGlyph)>,
}

impl View for GlyphCache {
    type V = GlyphCacheModel;

    closed spec fn view(&self) -> GlyphCacheModel {
        GlyphCacheModel { atlas: self.atlas@, glyphs: self.glyphs@ }
    }
}

impl GlyphCache {
    /// Well-formedness of the concrete state.
    pub open spec fn wf(&self) -> bool {
        glyph_cache_wf(self@)
    }

    /// An empty cache over an empty atlas of [`ATLAS_INITIAL_SIZE`] pixels a side.
    pub fn new() -> (c: Self)
        ensures
            c.wf(),
            c@ == (GlyphCacheModel {
                atlas: fresh_atlas(ATLAS_INITIAL_SIZE as nat, ATLAS_INITIAL_SIZE as nat),
                glyphs: Seq::empty(),
            }),
    {
        GlyphCache { atlas: RowAtlas::new(ATLAS_INITIAL_SIZE, ATLAS_INITIAL_SIZE), glyphs: Vec::new() }
    }

    fn position_of(&self, key: u64) -> (r: Option<usize>)
        ensures
            match r {
                Some(i) => i < self.glyphs@.len() && self.glyphs@[i as int].0 == key,
                None => !glyph_cached(self.glyphs@, key),
            },
    {
        let mut i: usize = 0;
        while i < self.glyphs.len()
            invariant
                i <= self.glyphs@.len(),
                forall|j: int| 0 <= j < i ==> #[trigger] self.glyphs@[j].0 != key,
            decreases self.glyphs@.len() - i,
        {
            if self.glyphs[i].0 == key {
                return Some(i);
            }
            i = i + 1;
        }
        None
    }

    /// The cache entry for `key`, if the glyph is cached.
    pub fn get(&self, key: u64) -> (r: Option<CachedGlyph>)
        requires
            self.wf(),
        ensures
            match r {
                Some(g) => exists|i: int| 0 <= i < self@.glyphs.len() && #[trigger] self@.glyphs[i] == (key, g),
                None => !glyph_cached(self@.glyphs, key),
            },
    {
        match self.position_of(key) {
            Some(i) => {
                let g = self.glyphs[i].1;
                assert(self@.glyphs[i as int] == (key, g));
                Some(g)
            },
            None => None,
        }
    }

    /// Atlas width and height in pixels.
    pub fn atlas_size(&self) -> (wh: (u32, u32))
        ensures
            wh.0 as nat == self@.atlas.width,
            wh.1 as nat == self@.atlas.height,
    {
        (self.atlas.width(), self.atlas.height())
    }

    /// The cached glyphs, in the order they were placed.
    pub fn entries(&self) -> (es: &Vec<(u64, CachedGlyph)>)
        ensures
            es@ == self@.glyphs,
    {
        &self.glyphs
    }

    /// Caches glyph `raster`: nothing when its key is cached; otherwise places
    /// it in the atlas, growing the atlas and placing every cached glyph anew
    /// when it is full (see [`glyph_insertion`]).
    pub fn insert(&mut self, raster: GlyphRaster) -> (outcome: GlyphInsert)
        requires
            old(self).wf(),
            raster.width <= GLYPH_MAX_SIDE,
            raster.height <= GLYPH_MAX_SIDE,
        ensures
            final(self).wf(),
            (final(self)@, outcome) == glyph_insertion(old(self)@, raster),
    {
        proof {
            lemma_insertion_wf(self@, raster);
        }
        if self.position_of(raster.key).is_some() {
            return GlyphInsert::AlreadyCached;
        }
        proof {
            lemma_place_keeps_layout(self@.atlas, self@.glyphs, raster);
        }
        let ghost m0 = self@;
        match self.atlas.allocate(raster.width, raster.height) {
            Some((x, y)) => {
                self.glyphs.push(
                    (
                        raster.key,
                        CachedGlyph {
                            atlas_x: x,
                            atlas_y: y,
                            width: raster.width,
                            height: raster.height,
                            left: raster.left,
                            top: raster.top,
                        },
                    ),
                );
                return GlyphInsert::Placed { x, y };
            },
            None => {},
        }
        if !self.atlas.grow() {
            return GlyphInsert::NoRoom;
        }
        let ghost fresh = self.atlas@;
        let mut old_glyphs: Vec<(u64, CachedGlyph)> = Vec::new();
        std::mem::swap(&mut old_glyphs, &mut self.glyphs);
        proof {
            lemma_repacked_wf(m0.glyphs, fresh);
        }
        let mut i: usize = 0;
        while i < old_glyphs.len()
            invariant
                old_glyphs@ == m0.glyphs,
                i <= old_glyphs@.len(),
                layout_wf(fresh, Seq::empty()),
                forall|a: int| 0 <= a < old_glyphs@.len() ==> {
                    &&& (#[trigger] old_glyphs@[a]).1.width <= GLYPH_MAX_SIDE
                    &&& old_glyphs@[a].1.height <= GLYPH_MAX_SIDE
                },
                forall|a: int, b: int|
                    0 <= a < old_glyphs@.len() && 0 <= b < old_glyphs@.len() && a != b
                    ==> #[trigger] old_glyphs@[a].0 != #[trigger] old_glyphs@[b].0,
                (self.glyphs@, self.atlas@) == repacked(old_glyphs@.subrange(0, i as int), fresh),
                self.atlas.wf(),
                atlas_bounded(self.atlas@),
            decreases old_glyphs@.len() - i,
        {
            let ghost prefix = old_glyphs@.subrange(0, i as int);
            let ghost next = old_glyphs@.subrange(0, i as int + 1);
            assert(next.drop_last() =~= prefix);
            assert(next.last() == old_glyphs@[i as int]);
            let (key, g) = old_glyphs[i];
            proof {
                lemma_allocation_bounded(self.atlas@, g.width as nat, g.height as nat);
            }
            match self.atlas.allocate(g.width, g.height) {
                Some((x, y)) => {
                    self.glyphs.push((key, CachedGlyph { atlas_x: x, atlas_y: y, ..g }));
                },
                None => {},
            }
            i = i + 1;
        }
        assert(old_glyphs@.subrange(0, old_glyphs@.len() as int) =~= m0.glyphs);
        proof {
            lemma_allocation_bounded(self.atlas@, raster.width as nat, raster.height as nat);
        }
        match self.atlas.allocate(raster.width, raster.height) {
            Some((x, y)) => {
                self.glyphs.push(
                    (
                        raster.key,
                        CachedGlyph {
                            atlas_x: x,
                            atlas_y: y,
                            width: raster.width,
                            height: raster.height,
                            left: raster.left,
                            top: raster.top,
                        },
                    ),
                );
                GlyphInsert::Regrown { placed: Some(AtlasSpot { x, y }) }
            },
            None => GlyphInsert::Regrown { placed: None },
        }
    }
}

/// Appends the indices of the two triangles of a glyph quad whose four
/// vertices (bottom-left, bottom-right, top-right, top-left) start at index
/// `first` of the vertex buffer.
pub fn push_quad_indices(indices: &mut Vec<u32>, first: u32)
    requires
        first <= u32::MAX - 3,
    ensures
        final(indices)@ == old(indices)@ + seq![
            first,
            (first + 1) as u32,
            (first + 2) as u32,
            first,
            (first + 2) as u32,
            (first + 3) as u32,
        ],
{
    indices.push(first);
    indices.push(first + 1);
    indices.push(first + 2);
    indices.push(first);
    indices.push(first + 2);
    indices.push(first + 3);
    assert(indices@ =~= old(indices)@ + seq![
        first,
        (first + 1) as u32,
        (first + 2) as u32,
        first,
        (first + 2) as u32,
        (first + 3) as u32,
    ]);
}

/// Text shown by the renderer and the part of the body made visible by the
/// typewriter; `changed` records that the layout must be rebuilt.
pub struct TextContent {
    speaker: String,
    body: String,
    visible_range: Option<(usize, usize)>,
    changed: bool,
}

/// Abstract state of a [`TextContent`].
pub struct TextContentModel {
    pub speaker: Seq<char>,
    pub body: Seq<char>,
    /// Body characters `[start, end)` to show; `None` shows the whole body.
    pub visible_range: Option<(usize, usize)>,
    pub changed: bool,
}

/// The smaller of two integers.
pub open spec fn min_int(a: int, b: int) -> int {
    if a <= b {
        a
    } else {
        b
    }
}

/// The body characters `[start, end)`, clipped to the body; none when
/// `end <= start`.
pub open spec fn body_slice(body: Seq<char>, start: int, end: int) -> Seq<char> {
    let lo = min_int(start, body.len() as int);
    let hi = min_int(end, body.len() as int);
    if hi <= lo {
        Seq::empty()
    } else {
        body.subrange(lo, hi)
    }
}

/// The body characters that are laid out: all of them without a visible
/// range, otherwise those with indices in `[start, end)`.
pub open spec fn visible_body(m: TextContentModel) -> Seq<char> {
    match m.visible_range {
        None => m.body,
        Some((start, end)) => body_slice(m.body, start as int, end as int),
    }
}

/// The range in force: the one set, or the whole body.
pub open spec fn effective_range(r: Option<(usize, usize)>) -> (usize, usize) {
    match r {
        Some(se) => se,
        None => (0usize, usize::MAX),
    }
}

impl View for TextContent {
    type V = TextContentModel;

    closed spec fn view(&self) -> TextContentModel {
        TextContentModel {
            speaker: self.speaker@,
            body: self.body@,
            visible_range: self.visible_range,
            changed: self.changed,
        }
    }
}

impl TextContent {
    /// Empty text, full range, and a pending layout.
    pub fn new() -> (t: Self)
        ensures
            t@.speaker.len() == 0,
            t@.body.len() == 0,
            t@.visible_range is None,
            t@.changed,
    {
        TextContent { speaker: String::new(), body: String::new(), visible_range: None, changed: true }
    }

    /// Replaces the text; the layout must be rebuilt.
    pub fn set_text(&mut self, speaker: &str, body: &str)
        ensures
            final(self)@ == (TextContentModel {
                speaker: speaker@,
                body: body@,
                changed: true,
                ..old(self)@
            }),
    {
        self.speaker = speaker.to_owned();
        self.body = body.to_owned();
        self.changed = true;
    }

    /// Clears both speaker and body.
    pub fn clear_text(&mut self)
        ensures
            final(self)@ == (TextContentModel {
                speaker: Seq::empty(),
                body: Seq::empty(),
                changed: true,
                ..old(self)@
            }),
    {
        proof {
            reveal_strlit("");
            assert(""@ =~= Seq::<char>::empty());
        }
        self.set_text("", "");
    }

    /// Shows only body characters `[start, end)` (none when `end <= start`);
    /// the speaker is always shown whole.  Only a range different from the
    /// one in force marks the layout as changed; with no range set, the range
    /// in force is `[0, usize::MAX)`, the whole body.
    pub fn set_visible_range(&mut self, start: usize, end: usize)
        ensures
            if (start, end) != effective_range(old(self)@.visible_range) {
                final(self)@ == (TextContentModel {
                    visible_range: Some((start, end)),
                    changed: true,
                    ..old(self)@
                })
            } else {
                final(self)@ == old(self)@
            },
    {
        let (cur_start, cur_end) = match self.visible_range {
            Some(se) => se,
            None => (0usize, usize::MAX),
        };
        if start != cur_start || end != cur_end {
            self.visible_range = Some((start, end));
            self.changed = true;
        }
    }

    /// Removes the visible range; marks a change only if a range was set.
    pub fn clear_visible_range(&mut self)
        ensures
            final(self)@ == (if old(self)@.visible_range is Some {
                TextContentModel { visible_range: None, changed: true, ..old(self)@ }
            } else {
                old(self)@
            }),
    {
        if self.visible_range.is_some() {
            self.visible_range = None;
            self.changed = true;
        }
    }

    /// Marks the layout as stale (after a resize).
    pub fn mark_changed(&mut self)
        ensures
            final(self)@ == (TextContentModel { changed: true, ..old(self)@ }),
    {
        self.changed = true;
    }

    /// Returns whether a layout is pending and clears the flag.
    pub fn take_changed(&mut self) -> (was: bool)
        ensures
            was == old(self)@.changed,
            final(self)@ == (TextContentModel { changed: false, ..old(self)@ }),
    {
        let was = self.changed;
        self.changed = false;
        was
    }

    /// Speaker name.
    pub fn speaker(&self) -> (s: &str)
        ensures
            s@ == self@.speaker,
    {
        self.speaker.as_str()
    }

    /// Full body text.
    pub fn body(&self) -> (s: &str)
        ensures
            s@ == self@.body,
    {
        self.body.as_str()
    }

    /// The visible range set, if any.
    pub fn visible_range(&self) -> (v: Option<(usize, usize)>)
        ensures
            v == self@.visible_range,
    {
        self.visible_range
    }

    /// The body text to lay out: the characters of the visible range.
    pub fn visible_body_text(&self) -> (s: String)
        ensures
            s@ == visible_body(self@),
    {
        match self.visible_range {
            None => self.body.clone(),
            Some((start, end)) => {
                let len = self.body.as_str().unicode_len();
                let lo = if start <= len {
                    start
                } else {
                    len
                };
                let hi = if end <= len {
                    end
                } else {
                    len
                };
                if hi <= lo {
                    String::new()
                } else {
                    self.body.as_str().substring_char(lo, hi).to_owned()
                }
            },
        }
    }
}

/// Narrowing the visible range from its end never shows more: with the same
/// start, the text shown for an earlier end is a prefix of the text shown
/// for a later one, and never longer.
pub proof fn law_narrower_range_shows_prefix(body: Seq<char>, start: usize, end1: usize, end2: usize)
    requires
        end1 <= end2,
    ensures
        body_slice(body, start as int, end1 as int).len() <= body_slice(body, start as int, end2 as int).len(),
        body_slice(body, start as int, end1 as int) == body_slice(body, start as int, end2 as int).subrange(
            0,
            body_slice(body, start as int, end1 as int).len() as int,
        ),
{
    let s1 = body_slice(body, start as int, end1 as int);
    let s2 = body_slice(body, start as int, end2 as int);
    if s1.len() > 0 {
        assert(s1 =~= s2.subrange(0, s1.len() as int));
    }
}

/// The text shown never holds more characters than the body, and the whole
/// body is shown once the range covers it.
pub proof fn law_visible_body_within_body(m: TextContentModel)
    ensures
        visible_body(m).len() <= m.body.len(),
        m.visible_range matches Some((start, end)) && start == 0 && end >= m.body.len() ==> visible_body(m)
            == m.body,
{
    if let Some((start, end)) = m.visible_range {
        if start == 0 && end >= m.body.len() && m.body.len() > 0 {
            assert(m.body.subrange(0, m.body.len() as int) =~= m.body);
        }
        if start == 0 && end >= m.body.len() && m.body.len() == 0 {
            assert(visible_body(m) =~= m.body);
        }
    }
}

} // verus!
