//! The assembled world model: the three concrete layer representations
//! with bounds-checked access and region iteration, levels, the world,
//! and index-triple entity references.

use crate::definitions::TypedLiteral;
use crate::header::{Color, RectangularRegion, Tile, Tileset, Vec2};
use crate::text::str_eq;
use vstd::prelude::*;

verus! {

/// Whether `p` lies within a grid of extent `size`.
pub open spec fn in_bounds(p: Vec2, size: Vec2) -> bool {
    0 <= p.x < size.x && 0 <= p.y < size.y
}

/// The row-major index of cell `p` in a grid of extent `size`.
pub open spec fn cell_index(p: Vec2, size: Vec2) -> int {
    p.x + p.y * size.x
}

/// A cell within bounds has its row-major index within the flat vector.
pub proof fn lemma_cell_index_bound(p: Vec2, size: Vec2)
    requires
        in_bounds(p, size),
    ensures
        0 <= cell_index(p, size) < size.x * size.y,
        p.x <= cell_index(p, size),
        p.y <= cell_index(p, size),
        0 <= p.y * size.x <= cell_index(p, size),
        size.x <= size.x * size.y,
{
    assert(0 <= p.x + p.y * size.x < size.x * size.y && p.x <= p.x + p.y * size.x && p.y <= p.x
        + p.y * size.x && 0 <= p.y * size.x && size.x <= size.x * size.y) by (nonlinear_arith)
        requires
            0 <= p.x < size.x,
            0 <= p.y < size.y,
    ;
}

/// An entity payload: the entity type's name and its coerced fields, in
/// instance order.
#[derive(Debug)]
pub struct Entity {
    pub identifier: String,
    pub fields: Vec<(String, TypedLiteral)>,
}

/// One placed entity: its payload, its anchor position and size in pixels.
#[derive(Debug)]
pub struct EntityObject {
    pub entity: Entity,
    pub position: Vec2,
    pub size: Vec2,
}

impl EntityObject {
    pub fn new(entity: Entity, position: Vec2, size: Vec2) -> (r: Self)
        ensures
            r.entity == entity,
            r.position == position,
            r.size == size,
    {
        EntityObject { entity, position, size }
    }
}

/// An int-grid layer: one palette name per cell, row-major, with the
/// optional autotile augmentation of stacked stamps per cell.
#[derive(Debug)]
pub struct IntGridLayer {
    pub identifier: String,
    pub size: Vec2,
    pub tiles: Vec<String>,
    pub auto_tiles: Option<Vec<Vec<Tile>>>,
    pub tileset: Option<i64>,
}

impl IntGridLayer {
    pub open spec fn wf(&self) -> bool {
        &&& 0 <= self.size.x
        &&& 0 <= self.size.y
        &&& self.tiles@.len() == self.size.x * self.size.y
        &&& match self.auto_tiles {
            Option::Some(a) => a@.len() == self.tiles@.len(),
            Option::None => true,
        }
    }

    /// The palette name of the cell at `position`, or empty out of bounds.
    pub fn get(&self, position: Vec2) -> (r: Option<&String>)
        requires
            self.wf(),
        ensures
            match r {
                Some(t) => in_bounds(position, self.size) && *t == self.tiles@[cell_index(
                    position,
                    self.size,
                )],
                None => !in_bounds(position, self.size),
            },
    {
        if position.x < 0 || position.y < 0 || position.x >= self.size.x || position.y
            >= self.size.y {
            return None;
        }
        let _len = self.tiles.len();
        proof {
            lemma_cell_index_bound(position, self.size);
        }
        Some(&self.tiles[(position.x as usize) + (position.y as usize) * (self.size.x as usize)])
    }

    /// Mutable access to the cell at `position`, or empty out of bounds.
    pub fn get_mut(&mut self, position: Vec2) -> (r: Option<&mut String>)
        requires
            old(self).wf(),
        ensures
            r is Some <==> in_bounds(position, old(self).size),
            r is None ==> *final(self) == *old(self),
            r matches Some(t) ==> {
                &&& *t == old(self).tiles@[cell_index(position, old(self).size)]
                &&& final(self).tiles@ == old(self).tiles@.update(
                    cell_index(position, old(self).size),
                    *final(t),
                )
                &&& final(self).identifier == old(self).identifier
                &&& final(self).size == old(self).size
                &&& final(self).auto_tiles == old(self).auto_tiles
                &&& final(self).tileset == old(self).tileset
                &&& final(self).wf()
            },
    {
        if position.x < 0 || position.y < 0 || position.x >= self.size.x || position.y
            >= self.size.y {
            return None;
        }
        let _len = self.tiles.len();
        proof {
            lemma_cell_index_bound(position, self.size);
        }
        Some(
            &mut self.tiles[(position.x as usize) + (position.y as usize) * (self.size.x
                as usize)],
        )
    }

    /// The stacked autotile stamps of the cell at `position`: empty out of
    /// bounds, and empty when the layer carries no autotile augmentation.
    pub fn get_autotile(&self, position: Vec2) -> (r: Vec<Tile>)
        requires
            self.wf(),
        ensures
            match self.auto_tiles {
                Option::Some(a) => if in_bounds(position, self.size) {
                    r@ == a@[cell_index(position, self.size)]@
                } else {
                    r@ == Seq::<Tile>::empty()
                },
                Option::None => r@ == Seq::<Tile>::empty(),
            },
    {
        match &self.auto_tiles {
            Option::None => Vec::new(),
            Option::Some(auto) => {
                if position.x < 0 || position.y < 0 || position.x >= self.size.x || position.y
                    >= self.size.y {
                    return Vec::new();
                }
                let _len = auto.len();
                proof {
                    lemma_cell_index_bound(position, self.size);
                }
                let bucket = &auto[(position.x as usize) + (position.y as usize) * (self.size.x
                    as usize)];
                let mut out: Vec<Tile> = Vec::new();
                let n = bucket.len();
                let mut i: usize = 0;
                while i < n
                    invariant
                        i <= n,
                        n == bucket@.len(),
                        out@ == bucket@.take(i as int),
                    decreases n - i,
                {
                    out.push(bucket[i]);
                    proof {
                        assert(out@ =~= bucket@.take(i as int + 1));
                    }
                    i = i + 1;
                }
                proof {
                    assert(bucket@.take(n as int) =~= bucket@);
                }
                out
            },
        }
    }

    /// A fresh region traversal over this layer's cells, the start clamped
    /// at zero, yielding exactly `size.x * size.y` pairs of position and
    /// cell value; out-of-bounds positions carry an empty value.
    pub fn rect(&self, start: Vec2, size: Vec2) -> (r: IntGridRegion<'_>)
        requires
            self.wf(),
            0 <= size.x,
            0 <= size.y,
            (if start.x >= 0 {
                start.x
            } else {
                0
            }) + size.x <= i64::MAX,
            (if start.y >= 0 {
                start.y
            } else {
                0
            }) + size.y <= i64::MAX,
        ensures
            r.layer == self,
            r.region.wf(),
            r.region.index() == 0,
            r.region.size == size,
            r.region.start.x == if start.x >= 0 {
                start.x
            } else {
                0
            },
            r.region.start.y == if start.y >= 0 {
                start.y
            } else {
                0
            },
    {
        IntGridRegion { layer: self, region: RectangularRegion::new(start, size) }
    }

    /// A fresh region traversal over this layer's autotile buckets, the
    /// start clamped at zero; cells outside the layer, and every cell of a
    /// layer without the augmentation, carry no stamps.
    pub fn autotile_rect(&self, start: Vec2, size: Vec2) -> (r: AutoLayerRegion<'_>)
        requires
            self.wf(),
            0 <= size.x,
            0 <= size.y,
            (if start.x >= 0 {
                start.x
            } else {
                0
            }) + size.x <= i64::MAX,
            (if start.y >= 0 {
                start.y
            } else {
                0
            }) + size.y <= i64::MAX,
        ensures
            r.layer == self,
            r.region.wf(),
            r.region.index() == 0,
            r.region.size == size,
            r.region.start.x == if start.x >= 0 {
                start.x
            } else {
                0
            },
            r.region.start.y == if start.y >= 0 {
                start.y
            } else {
                0
            },
    {
        AutoLayerRegion { layer: self, region: RectangularRegion::new(start, size) }
    }
}

/// A restartable row-major traversal of a rectangle of an int-grid layer.
pub struct IntGridRegion<'a> {
    pub layer: &'a IntGridLayer,
    pub region: RectangularRegion,
}

impl<'a> IntGridRegion<'a> {
    /// The next position together with its cell value, or `None` once the
    /// whole rectangle has been visited.
    pub fn next(&mut self) -> (r: Option<(Vec2, Option<&'a String>)>)
        requires
            old(self).region.wf(),
            old(self).layer.wf(),
        ensures
            final(self).layer == old(self).layer,
            final(self).region.wf(),
            final(self).region.start == old(self).region.start,
            final(self).region.size == old(self).region.size,
            old(self).region.index() < old(self).region.total() ==> {
                &&& final(self).region.index() == old(self).region.index() + 1
                &&& r matches Some((p, v)) && p == RectangularRegion::nth_position(
                    old(self).region.start,
                    old(self).region.size,
                    old(self).region.index(),
                ) && (match v {
                    Some(t) => in_bounds(p, old(self).layer.size) && *t
                        == old(self).layer.tiles@[cell_index(p, old(self).layer.size)],
                    None => !in_bounds(p, old(self).layer.size),
                })
            },
            old(self).region.index() >= old(self).region.total() ==> r is None && *final(self)
                == *old(self),
    {
        match self.region.next() {
            None => None,
            Some(p) => Some((p, self.layer.get(p))),
        }
    }
}

/// A restartable row-major traversal of a rectangle of an autotiled
/// int-grid layer's stamp buckets.
pub struct AutoLayerRegion<'a> {
    pub layer: &'a IntGridLayer,
    pub region: RectangularRegion,
}

impl<'a> AutoLayerRegion<'a> {
    /// The next position together with its stacked stamps, or `None` once
    /// the whole rectangle has been visited.
    pub fn next(&mut self) -> (r: Option<(Vec2, Vec<Tile>)>)
        requires
            old(self).region.wf(),
            old(self).layer.wf(),
        ensures
            final(self).layer == old(self).layer,
            final(self).region.wf(),
            final(self).region.start == old(self).region.start,
            final(self).region.size == old(self).region.size,
            old(self).region.index() < old(self).region.total() ==> {
                &&& final(self).region.index() == old(self).region.index() + 1
                &&& r matches Some((p, v)) && p == RectangularRegion::nth_position(
                    old(self).region.start,
                    old(self).region.size,
                    old(self).region.index(),
                ) && (match old(self).layer.auto_tiles {
                    Option::Some(a) => if in_bounds(p, old(self).layer.size) {
                        v@ == a@[cell_index(p, old(self).layer.size)]@
                    } else {
                        v@ == Seq::<Tile>::empty()
                    },
                    Option::None => v@ == Seq::<Tile>::empty(),
                })
            },
            old(self).region.index() >= old(self).region.total() ==> r is None && *final(self)
                == *old(self),
    {
        match self.region.next() {
            None => None,
            Some(p) => Some((p, self.layer.get_autotile(p))),
        }
    }
}

/// A tile layer: at most one tile per cell, row-major.
#[derive(Debug)]
pub struct TilesLayer {
    pub identifier: String,
    pub size: Vec2,
    pub tiles: Vec<Option<Tile>>,
    pub tileset: i64,
}

impl TilesLayer {
    pub open spec fn wf(&self) -> bool {
        &&& 0 <= self.size.x
        &&& 0 <= self.size.y
        &&& self.tiles@.len() == self.size.x * self.size.y
    }

    /// The tile of the cell at `position`: empty out of bounds and on
    /// cells no tile was placed on.
    pub fn get(&self, position: Vec2) -> (r: Option<&Tile>)
        requires
            self.wf(),
        ensures
            match r {
                Some(t) => in_bounds(position, self.size) && self.tiles@[cell_index(
                    position,
                    self.size,
                )] == Some(*t),
                None => !in_bounds(position, self.size) || self.tiles@[cell_index(
                    position,
                    self.size,
                )] is None,
            },
    {
        if position.x < 0 || position.y < 0 || position.x >= self.size.x || position.y
            >= self.size.y {
            return None;
        }
        let _len = self.tiles.len();
        proof {
            lemma_cell_index_bound(position, self.size);
        }
        self.tiles[(position.x as usize) + (position.y as usize) * (self.size.x as usize)].as_ref()
    }

    /// A fresh region traversal over this layer's cells, the start clamped
    /// at zero.
    pub fn rect(&self, start: Vec2, size: Vec2) -> (r: TileRegion<'_>)
        requires
            self.wf(),
            0 <= size.x,
            0 <= size.y,
            (if start.x >= 0 {
                start.x
            } else {
                0
            }) + size.x <= i64::MAX,
            (if start.y >= 0 {
                start.y
            } else {
                0
            }) + size.y <= i64::MAX,
        ensures
            r.layer == self,
            r.region.wf(),
            r.region.index() == 0,
            r.region.size == size,
            r.region.start.x == if start.x >= 0 {
                start.x
            } else {
                0
            },
            r.region.start.y == if start.y >= 0 {
                start.y
            } else {
                0
            },
    {
        TileRegion { layer: self, region: RectangularRegion::new(start, size) }
    }
}

/// A restartable row-major traversal of a rectangle of a tile layer.
pub struct TileRegion<'a> {
    pub layer: &'a TilesLayer,
    pub region: RectangularRegion,
}

impl<'a> TileRegion<'a> {
    /// The next position together with its cell value, or `None` once the
    /// whole rectangle has been visited.
    pub fn next(&mut self) -> (r: Option<(Vec2, Option<&'a Tile>)>)
        requires
            old(self).region.wf(),
            old(self).layer.wf(),
        ensures
            final(self).layer == old(self).layer,
            final(self).region.wf(),
            final(self).region.start == old(self).region.start,
            final(self).region.size == old(self).region.size,
            old(self).region.index() < old(self).region.total() ==> {
                &&& final(self).region.index() == old(self).region.index() + 1
                &&& r matches Some((p, v)) && p == RectangularRegion::nth_position(
                    old(self).region.start,
                    old(self).region.size,
                    old(self).region.index(),
                ) && (match v {
                    Some(t) => in_bounds(p, old(self).layer.size)
                        && old(self).layer.tiles@[cell_index(p, old(self).layer.size)] == Some(*t),
                    None => !in_bounds(p, old(self).layer.size) || old(self).layer.tiles@[cell_index(
                        p,
                        old(self).layer.size,
                    )] is None,
                })
            },
            old(self).region.index() >= old(self).region.total() ==> r is None && *final(self)
                == *old(self),
    {
        match self.region.next() {
            None => None,
            Some(p) => Some((p, self.layer.get(p))),
        }
    }
}

/// An entities layer: an ordered sequence of entity placements.
#[derive(Debug)]
pub struct EntitiesLayer {
    pub identifier: String,
    pub size: Vec2,
    pub entities: Vec<EntityObject>,
}

/// One built layer of a level.
#[derive(Debug)]
pub enum LayerData {
    IntGrid(IntGridLayer),
    Tiles(TilesLayer),
    Entities(EntitiesLayer),
}

impl LayerData {
    pub open spec fn identifier_spec(&self) -> Seq<char> {
        match self {
            LayerData::IntGrid(l) => l.identifier@,
            LayerData::Tiles(l) => l.identifier@,
            LayerData::Entities(l) => l.identifier@,
        }
    }

    pub open spec fn wf(&self) -> bool {
        match self {
            LayerData::IntGrid(l) => l.wf(),
            LayerData::Tiles(l) => l.wf(),
            LayerData::Entities(_) => true,
        }
    }

    /// The declared identifier of this layer.
    pub fn identifier(&self) -> (r: &str)
        ensures
            r@ == self.identifier_spec(),
    {
        match self {
            LayerData::IntGrid(l) => l.identifier.as_str(),
            LayerData::Tiles(l) => l.identifier.as_str(),
            LayerData::Entities(l) => l.identifier.as_str(),
        }
    }
}

/// One level: its scalar data, its layers in declared order, and its
/// coerced level-scoped fields.
#[derive(Debug)]
pub struct Level {
    pub identifier: String,
    pub bg_color: Color,
    pub pixel_size: Vec2,
    pub world_depth: i64,
    pub world_x: i64,
    pub world_y: i64,
    pub layers: Vec<LayerData>,
    pub fields: Vec<(String, TypedLiteral)>,
}

impl Level {
    pub open spec fn wf(&self) -> bool {
        forall|i: int| 0 <= i < self.layers@.len() ==> (#[trigger] self.layers@[i]).wf()
    }

    /// The layer with the given identifier, the first in declared order.
    pub fn layer(&self, identifier: &str) -> (r: Option<&LayerData>)
        ensures
            match r {
                Some(l) => exists|i: int|
                    {
                        &&& 0 <= i < self.layers@.len()
                        &&& *l == self.layers@[i]
                        &&& (#[trigger] self.layers@[i]).identifier_spec() == identifier@
                        &&& forall|j: int|
                            0 <= j < i ==> (#[trigger] self.layers@[j]).identifier_spec()
                                != identifier@
                    },
                None => forall|i: int|
                    0 <= i < self.layers@.len() ==> (#[trigger] self.layers@[i]).identifier_spec()
                        != identifier@,
            },
    {
        let n = self.layers.len();
        let mut i: usize = 0;
        while i < n
            invariant
                i <= n,
                n == self.layers@.len(),
                forall|j: int|
                    0 <= j < i ==> (#[trigger] self.layers@[j]).identifier_spec() != identifier@,
            decreases n - i,
        {
            if str_eq(self.layers[i].identifier(), identifier) {
                return Some(&self.layers[i]);
            }
            i = i + 1;
        }
        None
    }
}

/// The whole compiled world: its tilesets, its background color, and its
/// levels in declared order.
#[derive(Debug)]
pub struct World {
    pub tilesets: Vec<Tileset>,
    pub bg_color: Color,
    pub levels: Vec<Level>,
}

impl World {
    pub open spec fn wf(&self) -> bool {
        forall|i: int| 0 <= i < self.levels@.len() ==> (#[trigger] self.levels@[i]).wf()
    }

    /// The level at `index`, or empty when the index is out of range.
    pub fn get(&self, index: usize) -> (r: Option<&Level>)
        ensures
            match r {
                Some(l) => index < self.levels@.len() && *l == self.levels@[index as int],
                None => index >= self.levels@.len(),
            },
    {
        if index < self.levels.len() {
            Some(&self.levels[index])
        } else {
            None
        }
    }

    /// Mutable access to the level at `index`, or empty when out of range.
    pub fn get_mut(&mut self, index: usize) -> (r: Option<&mut Level>)
        ensures
            r is Some <==> index < old(self).levels@.len(),
            r is None ==> *final(self) == *old(self),
            r matches Some(l) ==> {
                &&& *l == old(self).levels@[index as int]
                &&& final(self).levels@ == old(self).levels@.update(index as int, *final(l))
                &&& final(self).tilesets == old(self).tilesets
                &&& final(self).bg_color == old(self).bg_color
            },
    {
        if index < self.levels.len() {
            Some(&mut self.levels[index])
        } else {
            None
        }
    }

    /// The level with the given identifier, the first in declared order.
    pub fn level(&self, identifier: &str) -> (r: Option<&Level>)
        ensures
            match r {
                Some(l) => exists|i: int|
                    {
                        &&& 0 <= i < self.levels@.len()
                        &&& *l == self.levels@[i]
                        &&& (#[trigger] self.levels@[i]).identifier@ == identifier@
                        &&& forall|j: int|
                            0 <= j < i ==> (#[trigger] self.levels@[j]).identifier@ != identifier@
                    },
                None => forall|i: int|
                    0 <= i < self.levels@.len() ==> (#[trigger] self.levels@[i]).identifier@
                        != identifier@,
            },
    {
        let n = self.levels.len();
        let mut i: usize = 0;
        while i < n
            invariant
                i <= n,
                n == self.levels@.len(),
                forall|j: int| 0 <= j < i ==> (#[trigger] self.levels@[j]).identifier@ != identifier@,
            decreases n - i,
        {
            if str_eq(self.levels[i].identifier.as_str(), identifier) {
                return Some(&self.levels[i]);
            }
            i = i + 1;
        }
        None
    }
}

use crate::header::EntityRef;

impl EntityRef {
    /// Whether this coordinate triple points at an entity of `w`.
    pub open spec fn resolves(self, w: World) -> bool {
        &&& self.level < w.levels@.len()
        &&& self.layer < w.levels@[self.level as int].layers@.len()
        &&& w.levels@[self.level as int].layers@[self.layer as int] matches LayerData::Entities(_)
        &&& self.entity
            < w.levels@[self.level as int].layers@[self.layer as int]->Entities_0.entities@.len()
    }

    /// The entity instance this triple points at.
    pub open spec fn resolved_entity(self, w: World) -> EntityObject {
        w.levels@[self.level as int].layers@[self.layer as int]->Entities_0.entities@[self.entity as int]
    }

    /// Follows this reference into `world`: exactly the triples that point
    /// at an entity resolve, to exactly that entity.
    pub fn find<'a>(&self, world: &'a World) -> (r: Option<&'a EntityObject>)
        ensures
            match r {
                Some(e) => self.resolves(*world) && *e == self.resolved_entity(*world),
                None => !self.resolves(*world),
            },
    {
        let level = match world.get(self.level) {
            Some(l) => l,
            None => {
                return None;
            },
        };
        if self.layer >= level.layers.len() {
            return None;
        }
        match &level.layers[self.layer] {
            LayerData::Entities(el) => {
                if self.entity < el.entities.len() {
                    Some(&el.entities[self.entity])
                } else {
                    None
                }
            },
            _ => None,
        }
    }

    /// Follows this reference into `world` for mutation: exactly the
    /// triples that point at an entity resolve, to exactly that entity;
    /// everything else in the world stays as it was.
    pub fn find_mut<'a>(&self, world: &'a mut World) -> (r: Option<&'a mut EntityObject>)
        ensures
            self.resolves(*old(world)) <==> r is Some,
            r is None ==> *final(world) == *old(world),
            r matches Some(e) ==> {
                &&& *e == self.resolved_entity(*old(world))
                &&& final(world).tilesets == old(world).tilesets
                &&& final(world).bg_color == old(world).bg_color
                &&& final(world).levels@.len() == old(world).levels@.len()
                &&& forall|i: int|
                    0 <= i < old(world).levels@.len() && i != self.level
                        ==> final(world).levels@[i] == #[trigger] old(world).levels@[i]
                &&& final(world).levels@[self.level as int].identifier == old(
                    world,
                ).levels@[self.level as int].identifier
                &&& final(world).levels@[self.level as int].fields == old(
                    world,
                ).levels@[self.level as int].fields
                &&& final(world).levels@[self.level as int].layers@.len() == old(
                    world,
                ).levels@[self.level as int].layers@.len()
                &&& forall|j: int|
                    0 <= j < old(world).levels@[self.level as int].layers@.len() && j != self.layer
                        ==> final(world).levels@[self.level as int].layers@[j] == #[trigger] old(
                        world,
                    ).levels@[self.level as int].layers@[j]
                &&& final(world).levels@[self.level as int].layers@[self.layer as int]
                    matches LayerData::Entities(after) && {
                    let before = old(
                        world,
                    ).levels@[self.level as int].layers@[self.layer as int]->Entities_0;
                    &&& after.identifier == before.identifier
                    &&& after.size == before.size
                    &&& after.entities@ == before.entities@.update(self.entity as int, *final(e))
                }
            },
    {
        if self.level >= world.levels.len() {
            return None;
        }
        if self.layer >= world.levels[self.level].layers.len() {
            return None;
        }
        match &world.levels[self.level].layers[self.layer] {
            LayerData::Entities(el) => {
                if self.entity >= el.entities.len() {
                    return None;
                }
            },
            _ => {
                return None;
            },
        }
        let level = &mut world.levels[self.level];
        let layer = &mut level.layers[self.layer];
        match layer {
            LayerData::Entities(el) => Some(&mut el.entities[self.entity]),
            _ => {
                proof {
                    assert(false);
                }
                None
            },
        }
    }
}

} // verus!
