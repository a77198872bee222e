use std::collections::HashMap;

use vstd::prelude::*;

use crate::error::{CockpitError, Result};
use crate::text::copy_of;

verus! {

broadcast use vstd::std_specs::hash::group_hash_axioms;

/// The width and the height of the atlas.
pub const ATLAS_SIZE: i32 = 2048;

/// Declares the type `etagere::BucketedAtlasAllocator`.
#[verifier::external_type_specification]
#[verifier::external_body]
pub struct ExAllocator(etagere::BucketedAtlasAllocator);

/// A rectangle of the atlas.
pub struct Place {
    pub x: int,
    pub y: int,
    pub width: int,
    pub height: int,
}

impl Place {
    /// Whether a rectangle lies inside another one.
    pub open spec fn within(self, other: Place) -> bool {
        &&& other.x <= self.x
        &&& other.y <= self.y
        &&& self.x + self.width <= other.x + other.width
        &&& self.y + self.height <= other.y + other.height
    }

    /// Whether two rectangles have no point in common.
    pub open spec fn apart(self, other: Place) -> bool {
        ||| self.x + self.width <= other.x
        ||| other.x + other.width <= self.x
        ||| self.y + self.height <= other.y
        ||| other.y + other.height <= self.y
    }
}

/// The rectangles that an allocator has handed out, in order.
pub uninterp spec fn handed_out(allocator: etagere::BucketedAtlasAllocator) -> Seq<Place>;

/// The size of the area from which an allocator hands out rectangles.
pub uninterp spec fn area(allocator: etagere::BucketedAtlasAllocator) -> (int, int);

/// Whether an allocator has room for a rectangle of a size, as it stands.
pub uninterp spec fn room_for(
    allocator: etagere::BucketedAtlasAllocator,
    width: int,
    height: int,
) -> bool;

/// `etagere::BucketedAtlasAllocator::new`: an allocator for an area, with nothing handed out. It
/// has room for every size that is not empty and not larger than the area. The area is bounded so
/// that the allocator's sums, which are of 16 and 32 bits, do not overflow.
#[verifier::external_body]
fn new_allocator(width: i32, height: i32) -> (allocator: etagere::BucketedAtlasAllocator)
    requires
        0 < width <= 0x7fff,
        0 < height <= 0x7fff,
    ensures
        handed_out(allocator) == Seq::<Place>::empty(),
        area(allocator) == (width as int, height as int),
        forall|w: int, h: int|
            0 < w <= width && 0 < h <= height ==> #[trigger] room_for(allocator, w, h),
{
    etagere::BucketedAtlasAllocator::new(etagere::size2(width, height))
}

/// `etagere::BucketedAtlasAllocator::allocate`, where nothing is ever given back: a rectangle of
/// the area, large enough for the wanted size and apart from every one handed out before. Whether
/// there is room for one depends on the allocator's state and the size alone, and how is left open
/// but for an empty size, for which there is none. Where there is no room, nothing changes.
#[verifier::external_body]
fn allocate(
    allocator: &mut etagere::BucketedAtlasAllocator,
    width: i32,
    height: i32,
) -> (place: Option<(i32, i32, i32, i32)>)
    requires
        area(*old(allocator)).0 <= 0x7fff,
        area(*old(allocator)).1 <= 0x7fff,
    ensures
        area(*final(allocator)) == area(*old(allocator)),
        place is Some == room_for(*old(allocator), width as int, height as int),
        width <= 0 || height <= 0 ==> place is None,
        place is None ==> *final(allocator) == *old(allocator),
        place matches Some((x, y, w, h)) ==> {
            let new = Place { x: x as int, y: y as int, width: w as int, height: h as int };
            &&& handed_out(*final(allocator)) == handed_out(*old(allocator)).push(new)
            &&& 0 <= x && 0 <= y
            &&& width <= w && height <= h
            &&& x + w <= area(*old(allocator)).0 && y + h <= area(*old(allocator)).1
            &&& forall|i: int|
                0 <= i < handed_out(*old(allocator)).len() ==> (#[trigger] handed_out(
                    *old(allocator),
                )[i]).apart(new)
        },
{
    let found = allocator.allocate(etagere::size2(width, height))?.rectangle;
    Some((found.min.x, found.min.y, found.width(), found.height()))
}

/// What makes a glyph: the character and its style.
#[derive(Debug, Clone, Copy, PartialEq, Eq, Hash, Structural)]
pub struct GlyphKey {
    pub ch: char,
    pub bold: bool,
    pub italic: bool,
}

impl GlyphKey {
    /// A number that tells glyphs apart.
    pub open spec fn number(self) -> int {
        4 * (self.ch as int) + (if self.bold {
            2int
        } else {
            0
        }) + (if self.italic {
            1int
        } else {
            0
        })
    }

    fn code(self) -> (code: u64)
        ensures
            code == self.number(),
    {
        let mut code: u64 = (self.ch as u64) * 4;
        if self.bold {
            code = code + 2;
        }
        if self.italic {
            code = code + 1;
        }
        code
    }
}

/// Different glyphs have different numbers.
pub proof fn glyph_numbers_differ(a: GlyphKey, b: GlyphKey)
    requires
        a.number() == b.number(),
    ensures
        a == b,
{
}

/// Where a glyph stands in the atlas.
#[derive(Debug, Clone, Copy, PartialEq, Eq, Structural)]
pub struct GlyphEntry {
    pub x: u16,
    pub y: u16,
    pub width: u16,
    pub height: u16,
    pub bearing_x: i16,
    pub bearing_y: i16,
}

impl GlyphEntry {
    pub open spec fn place(self) -> Place {
        Place {
            x: self.x as int,
            y: self.y as int,
            width: self.width as int,
            height: self.height as int,
        }
    }
}

/// The entry of a glyph of the given size at a place of the atlas.
pub fn entry_at(x: i32, y: i32, width: i32, height: i32) -> (entry: GlyphEntry)
    requires
        0 <= x <= 0xffff,
        0 <= y <= 0xffff,
        0 <= width <= 0x7fff,
        0 <= height <= 0x7fff,
    ensures
        entry.place() == (Place {
            x: x as int,
            y: y as int,
            width: width as int,
            height: height as int,
        }),
        entry.bearing_x == 0,
        entry.bearing_y == height,
{
    GlyphEntry {
        x: x as u16,
        y: y as u16,
        width: width as u16,
        height: height as u16,
        bearing_x: 0,
        bearing_y: height as i16,
    }
}

/// The places of glyphs in a texture.
pub struct GlyphAtlas {
    allocator: etagere::BucketedAtlasAllocator,
    cache: HashMap<u64, GlyphEntry>,
    cell_width: i32,
    cell_height: i32,
}

impl View for GlyphAtlas {
    type V = Map<u64, GlyphEntry>;

    /// The glyphs that have a place, by their numbers.
    closed spec fn view(&self) -> Map<u64, GlyphEntry> {
        self.cache@
    }
}

impl GlyphAtlas {
    /// The size of a cell.
    pub closed spec fn cell_size(&self) -> (int, int) {
        (self.cell_width as int, self.cell_height as int)
    }

    /// Whether there is room in the texture for another glyph.
    pub closed spec fn has_room(&self) -> bool {
        room_for(self.allocator, self.cell_width as int, self.cell_height as int)
    }

    /// Whether every glyph has a place of its own in the texture.
    pub closed spec fn wf(&self) -> bool {
        &&& area(self.allocator) == (ATLAS_SIZE as int, ATLAS_SIZE as int)
        &&& forall|i: int, j: int|
            #![trigger handed_out(self.allocator)[i], handed_out(self.allocator)[j]]
            0 <= i < j < handed_out(self.allocator).len() ==> handed_out(self.allocator)[i].apart(
                handed_out(self.allocator)[j],
            )
        &&& exists|slot: Map<u64, int>| self.holds(slot)
    }

    /// Whether each glyph stands inside the rectangle that a slot names, and no two in the same.
    closed spec fn holds(&self, slot: Map<u64, int>) -> bool {
        &&& forall|k: u64|
            #![trigger slot[k]]
            self.cache@.dom().contains(k) ==> 0 <= slot[k] < handed_out(self.allocator).len()
                && self.cache@[k].place().within(handed_out(self.allocator)[slot[k]])
                && self.cache@[k].place().within(
                Place { x: 0, y: 0, width: ATLAS_SIZE as int, height: ATLAS_SIZE as int },
            )
        &&& forall|k: u64, l: u64|
            #![trigger slot[k], slot[l]]
            self.cache@.dom().contains(k) && self.cache@.dom().contains(l) && k != l ==> slot[k]
                != slot[l]
    }

    /// An empty atlas for cells of 8 by 17 points.
    pub fn new() -> (atlas: GlyphAtlas)
        ensures
            atlas.wf(),
            atlas@ == Map::<u64, GlyphEntry>::empty(),
            atlas.cell_size() == (8int, 17int),
            atlas.has_room(),
    {
        GlyphAtlas::with_cell_size(8, 17)
    }

    /// An empty atlas for cells of the given size.
    pub fn with_cell_size(cell_width: i32, cell_height: i32) -> (atlas: GlyphAtlas)
        ensures
            atlas.wf(),
            atlas@ == Map::<u64, GlyphEntry>::empty(),
            atlas.cell_size() == (cell_width as int, cell_height as int),
            0 < cell_width <= ATLAS_SIZE && 0 < cell_height <= ATLAS_SIZE ==> atlas.has_room(),
    {
        let atlas = GlyphAtlas {
            allocator: new_allocator(ATLAS_SIZE, ATLAS_SIZE),
            cache: HashMap::new(),
            cell_width,
            cell_height,
        };
        assert(atlas.holds(Map::empty()));
        atlas
    }

    /// The place of a glyph; one without a place gets it now, as long as there is room. Fails
    /// where the atlas is full.
    pub fn get_or_insert(&mut self, key: GlyphKey) -> (found: Result<GlyphEntry>)
        requires
            old(self).wf(),
        ensures
            final(self).wf(),
            final(self).cell_size() == old(self).cell_size(),
            found is Ok == (old(self)@.dom().contains(key.number() as u64) || old(self).has_room()),
            old(self)@.dom().contains(key.number() as u64) ==> final(self)@ == old(self)@
                && final(self).has_room() == old(self).has_room() && found == Ok::<GlyphEntry, CockpitError>(old(self)@[key.number() as u64]),
            !old(self)@.dom().contains(key.number() as u64) ==> match found {
                Ok(entry) => {
                    &&& final(self)@ == old(self)@.insert(key.number() as u64, entry)
                    &&& entry.width == old(self).cell_size().0
                    &&& entry.height == old(self).cell_size().1
                    &&& entry.bearing_x == 0
                    &&& entry.bearing_y == old(self).cell_size().1
                    &&& old(self).cell_size().0 > 0 && old(self).cell_size().1 > 0
                },
                Err(e) => {
                    &&& final(self)@ == old(self)@
                    &&& !final(self).has_room()
                    &&& e matches CockpitError::Glyph(m) && m@ == "atlas full"@
                },
            },
    {
        let code: u64 = key.code();
        if let Some(entry) = self.cache.get(&code) {
            return Ok(*entry);
        }
        let ghost before = *self;
        let ghost slot = choose|slot: Map<u64, int>| self.holds(slot);
        match allocate(&mut self.allocator, self.cell_width, self.cell_height) {
            Some((x, y, _, _)) => {
                let entry = entry_at(x, y, self.cell_width, self.cell_height);
                self.cache.insert(code, entry);
                proof {
                    let n = handed_out(before.allocator).len() as int;
                    let next = slot.insert(code, n);
                    assert(self.holds(next)) by {
                        assert forall|k: u64| #![trigger next[k]] self.cache@.dom().contains(k)
                            implies 0 <= next[k] < handed_out(self.allocator).len()
                            && self.cache@[k].place().within(handed_out(self.allocator)[next[k]])
                            && self.cache@[k].place().within(
                            Place { x: 0, y: 0, width: ATLAS_SIZE as int, height: ATLAS_SIZE as int },
                        ) by {
                            if k != code {
                                assert(before.cache@.dom().contains(k));
                                assert(slot[k] == next[k]);
                            }
                        }
                        assert forall|k: u64, l: u64|
                            #![trigger next[k], next[l]]
                            self.cache@.dom().contains(k) && self.cache@.dom().contains(l) && k != l
                                implies next[k] != next[l] by {
                            if k != code {
                                assert(slot[k] == next[k]);
                            }
                            if l != code {
                                assert(slot[l] == next[l]);
                            }
                        }
                    }
                }
                Ok(entry)
            },
            None => {
                assert(self.holds(slot)) by {
                    assert forall|k: u64| #![trigger slot[k]] self.cache@.dom().contains(k) implies 0
                        <= slot[k] < handed_out(self.allocator).len()
                        && self.cache@[k].place().within(handed_out(self.allocator)[slot[k]])
                        && self.cache@[k].place().within(
                        Place { x: 0, y: 0, width: ATLAS_SIZE as int, height: ATLAS_SIZE as int },
                    ) by {}
                }
                Err(CockpitError::Glyph(copy_of("atlas full")))
            },
        }
    }

    /// In an atlas, every glyph stands inside the texture, and apart from every other one.
    pub proof fn glyphs_are_apart(&self, k: u64, l: u64)
        requires
            self.wf(),
            self@.dom().contains(k),
            self@.dom().contains(l),
            k != l,
        ensures
            self@[k].place().apart(self@[l].place()),
            self@[k].place().within(
                Place { x: 0, y: 0, width: ATLAS_SIZE as int, height: ATLAS_SIZE as int },
            ),
    {
        let slot = choose|slot: Map<u64, int>| self.holds(slot);
        let i = slot[k];
        let j = slot[l];
        assert(i != j);
        if i < j {
            assert(handed_out(self.allocator)[i].apart(handed_out(self.allocator)[j]));
        } else {
            assert(handed_out(self.allocator)[j].apart(handed_out(self.allocator)[i]));
        }
    }
}

} // verus!
