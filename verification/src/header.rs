//! Value types shared by the compiled world model: 2D vectors, colors,
//! tilesets, tiles with their flip mode, entity references, and the
//! rectangular region iterator used by grid layers.

use vstd::prelude::*;

verus! {

/// A 2D integer coordinate or extent.
#[derive(Clone, Copy, Debug, PartialEq, Eq, Structural, Hash)]
pub struct Vec2 {
    pub x: i64,
    pub y: i64,
}

impl Vec2 {
    pub fn new(x: i64, y: i64) -> (r: Self)
        ensures
            r.x == x,
            r.y == y,
    {
        Self { x, y }
    }

    /// Component-wise minimum.
    pub fn min(self, other: Self) -> (r: Self)
        ensures
            r.x == if self.x <= other.x { self.x } else { other.x },
            r.y == if self.y <= other.y { self.y } else { other.y },
    {
        Self {
            x: if self.x <= other.x { self.x } else { other.x },
            y: if self.y <= other.y { self.y } else { other.y },
        }
    }

    /// Component-wise maximum.
    pub fn max(self, other: Self) -> (r: Self)
        ensures
            r.x == if self.x >= other.x { self.x } else { other.x },
            r.y == if self.y >= other.y { self.y } else { other.y },
    {
        Self {
            x: if self.x >= other.x { self.x } else { other.x },
            y: if self.y >= other.y { self.y } else { other.y },
        }
    }
}

/// An RGBA color with 8-bit channels.
#[derive(Clone, Copy, Debug, PartialEq, Eq, Structural, Hash)]
pub struct Color {
    pub r: u8,
    pub g: u8,
    pub b: u8,
    pub a: u8,
}

impl Color {
    pub fn new(r: u8, g: u8, b: u8, a: u8) -> (c: Self)
        ensures
            c == (Color { r, g, b, a }),
    {
        Self { r, g, b, a }
    }

    /// Unpacks a `0xRRGGBBAA` word into its four channels.
    pub fn from_hex(hex: u32) -> (c: Self)
        ensures
            c.r == (hex >> 24 & 0xff) as u8,
            c.g == (hex >> 16 & 0xff) as u8,
            c.b == (hex >> 8 & 0xff) as u8,
            c.a == (hex & 0xff) as u8,
    {
        Self {
            r: (hex >> 24 & 0xff) as u8,
            g: (hex >> 16 & 0xff) as u8,
            b: (hex >> 8 & 0xff) as u8,
            a: (hex & 0xff) as u8,
        }
    }
}

/// Mirroring applied to a placed tile.
#[derive(Clone, Copy, Debug, PartialEq, Eq, Structural, Hash)]
pub enum FlipMode {
    NoFlip,
    Horizontal,
    Vertical,
    Both,
}

impl FlipMode {
    pub fn horizontal(&self) -> (r: bool)
        ensures
            r == (self is Horizontal || self is Both),
    {
        matches!(self, Self::Horizontal | Self::Both)
    }

    pub fn vertical(&self) -> (r: bool)
        ensures
            r == (self is Vertical || self is Both),
    {
        matches!(self, Self::Vertical | Self::Both)
    }
}

/// A cell within a tileset's own grid, together with its flip mode.
#[derive(Clone, Copy, Debug, PartialEq, Eq, Structural, Hash)]
pub struct Tile {
    pub position: Vec2,
    pub flip: FlipMode,
}

impl Tile {
    pub fn new(position: Vec2, flip: FlipMode) -> (t: Self)
        ensures
            t.position == position,
            t.flip == flip,
    {
        Self { position, flip }
    }

    pub fn position(&self) -> (r: Vec2)
        ensures
            r == self.position,
    {
        self.position
    }

    pub fn flip(&self) -> (r: FlipMode)
        ensures
            r == self.flip,
    {
        self.flip
    }
}

/// The stable id a tileset is referenced by.
pub type TilesetID = i64;

/// Pixel-grid metadata of one tileset, looked up by id throughout compilation.
#[derive(Clone, Debug)]
pub struct Tileset {
    pub id: TilesetID,
    pub path: String,
}

impl Tileset {
    pub fn new(id: TilesetID, path: String) -> (t: Self)
        ensures
            t.id == id,
            t.path@ == path@,
    {
        Self { id, path }
    }

    pub fn id(&self) -> (r: TilesetID)
        ensures
            r == self.id,
    {
        self.id
    }

    pub fn path(&self) -> (r: &str)
        ensures
            r@ == self.path@,
    {
        self.path.as_str()
    }
}

/// How an entity type asks to be drawn.
#[derive(Clone, Copy, Debug, PartialEq, Eq, Structural, Hash)]
pub enum RenderMode {
    Rectangle,
    Ellipse,
    Cross,
    Tile { tileset: TilesetID, tile: Vec2, size: Vec2 },
}

/// Arrangement of the levels within the world.
#[derive(Clone, Copy, Debug, PartialEq, Eq, Structural, Hash)]
pub enum WorldLayout {
    Free,
    GridVania,
    LinearHorizontal,
    LinearVertical,
}

/// An immutable coordinate triple into the assembled world: never a direct
/// pointer, so it stays valid after serialization and carries no ownership.
#[derive(Clone, Copy, Debug, PartialEq, Eq, Structural, Hash)]
pub struct EntityRef {
    pub level: usize,
    pub layer: usize,
    pub entity: usize,
}

impl EntityRef {
    pub fn new(level: usize, layer: usize, entity: usize) -> (r: Self)
        ensures
            r.level == level,
            r.layer == layer,
            r.entity == entity,
    {
        Self { level, layer, entity }
    }
}

/// A bounded row-major traversal of a rectangle of cell positions.
///
/// The start coordinate has its negative components clamped to zero at
/// construction; the traversal then yields exactly `size.x * size.y`
/// positions, x increasing fastest.
pub struct RectangularRegion {
    pub start: Vec2,
    pub size: Vec2,
    pub position: Vec2,
}

impl RectangularRegion {
    /// Invariant kept between `next` calls.
    pub open spec fn wf(&self) -> bool {
        &&& 0 <= self.start.x
        &&& 0 <= self.start.y
        &&& 0 <= self.size.x
        &&& 0 <= self.size.y
        &&& self.start.x + self.size.x <= i64::MAX
        &&& self.start.y + self.size.y <= i64::MAX
        &&& if self.size.x == 0 {
            self.position == self.start
        } else {
            &&& self.start.x <= self.position.x < self.start.x + self.size.x
            &&& self.start.y <= self.position.y <= self.start.y + self.size.y
            &&& self.position.y == self.start.y + self.size.y ==> self.position.x == self.start.x
        }
    }

    /// How many positions have been yielded so far.
    pub open spec fn index(&self) -> int {
        (self.position.y - self.start.y) * self.size.x + (self.position.x - self.start.x)
    }

    /// Total number of positions this region yields.
    pub open spec fn total(&self) -> int {
        self.size.x * self.size.y
    }

    /// The position yielded in step `k`, row-major from the clamped start.
    pub open spec fn nth_position(start: Vec2, size: Vec2, k: int) -> Vec2 {
        Vec2 {
            x: (start.x + k % (size.x as int)) as i64,
            y: (start.y + k / (size.x as int)) as i64,
        }
    }

    pub fn new(start: Vec2, size: Vec2) -> (r: Self)
        requires
            0 <= size.x,
            0 <= size.y,
            (if start.x >= 0 { start.x } else { 0 }) + size.x <= i64::MAX,
            (if start.y >= 0 { start.y } else { 0 }) + size.y <= i64::MAX,
        ensures
            r.wf(),
            r.start.x == if start.x >= 0 { start.x } else { 0 },
            r.start.y == if start.y >= 0 { start.y } else { 0 },
            r.size == size,
            r.index() == 0,
    {
        let clamped = start.max(Vec2::new(0, 0));
        let r = Self { start: clamped, size, position: clamped };
        proof {
            assert((r.position.y - r.start.y) * (r.size.x as int) == 0) by (nonlinear_arith)
                requires
                    r.position.y == r.start.y,
            ;
        }
        r
    }

    /// Yields the next position of the traversal, or `None` once all
    /// `size.x * size.y` positions have been produced.
    pub fn next(&mut self) -> (r: Option<Vec2>)
        requires
            old(self).wf(),
        ensures
            final(self).wf(),
            final(self).start == old(self).start,
            final(self).size == old(self).size,
            old(self).index() < old(self).total() ==> {
                &&& r == Some(Self::nth_position(old(self).start, old(self).size, old(self).index()))
                &&& final(self).index() == old(self).index() + 1
            },
            old(self).index() >= old(self).total() ==> {
                &&& r is None
                &&& *final(self) == *old(self)
            },
    {
        if self.size.x == 0 || self.position.y >= self.start.y + self.size.y {
            proof {
                if self.index() < self.total() {
                    // With a positive width the invariant pins the current row
                    // below the last one whenever positions remain.
                    assert(self.size.x > 0);
                    assert(self.position.y == self.start.y + self.size.y);
                    assert(self.index() == self.size.y * self.size.x) by (nonlinear_arith)
                        requires
                            self.position.y == self.start.y + self.size.y,
                            self.position.x == self.start.x,
                            self.index() == (self.position.y - self.start.y) * self.size.x + (
                            self.position.x - self.start.x),
                    ;
                    assert(self.size.y * self.size.x == self.total()) by (nonlinear_arith);
                    assert(false);
                }
            }
            return None;
        }
        let tile = self.position;
        proof {
            let k = self.index();
            assert(0 <= self.position.x - self.start.x < self.size.x);
            assert(k % (self.size.x as int) == self.position.x - self.start.x && k / (self.size.x
                as int) == self.position.y - self.start.y) by (nonlinear_arith)
                requires
                    k == (self.position.y - self.start.y) * self.size.x + (self.position.x
                        - self.start.x),
                    0 <= self.position.x - self.start.x < self.size.x,
                    0 <= self.position.y - self.start.y,
            ;
            assert(k < self.total()) by (nonlinear_arith)
                requires
                    k == (self.position.y - self.start.y) * self.size.x + (self.position.x
                        - self.start.x),
                    0 <= self.position.x - self.start.x < self.size.x,
                    0 <= self.position.y - self.start.y < self.size.y,
                    self.total() == self.size.x * self.size.y,
            ;
        }
        self.position.x = self.position.x + 1;
        if self.position.x >= self.start.x + self.size.x {
            self.position.x = self.start.x;
            self.position.y = self.position.y + 1;
            proof {
                assert((self.position.y - self.start.y) * self.size.x == (self.position.y - 1
                    - self.start.y) * self.size.x + self.size.x) by (nonlinear_arith);
            }
        }
        Some(tile)
    }
}

} // verus!
