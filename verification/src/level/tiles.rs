//! Building tile layers: a flat row-major vector of optional tiles, each
//! targeted cell fully overwritten, last write winning when two placed
//! tiles share a cell.

use crate::definitions::{
    Error, ErrorKind, RsDefinitions, RsLayerDefinition, RsTilesDefinition,
};
use crate::header::{FlipMode, Tile, Vec2};
use crate::level::int_grid::{stamp_cell, stamp_tile, stamps_check};
use crate::schema::{LayerDefinition, LayerInstance, TileInstance};
use crate::table::{assoc_find_i64, assoc_get_i64};
use crate::world::{cell_index, lemma_cell_index_bound, TilesLayer};
use vstd::prelude::*;

verus! {

/// The tile the cell `k` ends up with: that of the last placed tile whose
/// owning cell is `k`, if any.
pub open spec fn last_stamp_tile(
    stamps: Seq<TileInstance>,
    grid_size: i64,
    tile_size: i64,
    size: Vec2,
    k: int,
) -> Option<Tile>
    decreases stamps.len(),
{
    if stamps.len() == 0 {
        Option::None
    } else if cell_index(stamp_cell(stamps.last(), grid_size), size) == k {
        Option::Some(stamp_tile(stamps.last(), tile_size))
    } else {
        last_stamp_tile(stamps.drop_last(), grid_size, tile_size, size, k)
    }
}

/// Compiles one tile layer definition into the registry; the declared
/// tileset id is required.
pub fn layer_definition(definitions: &mut RsDefinitions, layer_json: &LayerDefinition) -> (r:
    Result<(), Error>)
    ensures
        match r {
            Ok(_) => {
                &&& layer_json.tileset_def_uid is Some
                &&& final(definitions).layers@.len() == old(definitions).layers@.len() + 1
                &&& final(definitions).layers@.drop_last() == old(definitions).layers@
                &&& final(definitions).layers@.last().0@ == layer_json.identifier@
                &&& (final(definitions).layers@.last().1 matches RsLayerDefinition::Tiles(d)
                    && d.grid_size == layer_json.grid_size)
                &&& final(definitions).tilesets == old(definitions).tilesets
                &&& final(definitions).entities@ == old(definitions).entities@
                &&& final(definitions).level == old(definitions).level
                &&& final(definitions).entity_instances == old(definitions).entity_instances
            },
            Err(e) => {
                &&& layer_json.tileset_def_uid is None
                &&& e is SchemaError
                &&& *final(definitions) == *old(definitions)
            },
        },
{
    if layer_json.tileset_def_uid.is_none() {
        return Err(Error::SchemaError("Tiles layer doesn't have a tileset ID!".to_owned()));
    }
    definitions.layers.push(
        (
            layer_json.identifier.clone(),
            RsLayerDefinition::Tiles(RsTilesDefinition { grid_size: layer_json.grid_size }),
        ),
    );
    proof {
        assert(final(definitions).layers@.drop_last() =~= old(definitions).layers@);
    }
    Ok(())
}

/// The conditions under which one tile layer instance builds, in the order
/// they are checked; the first violated one names the error.
pub open spec fn tiles_check(
    definition: RsTilesDefinition,
    defs: RsDefinitions,
    inst: LayerInstance,
) -> Result<(), ErrorKind> {
    match inst.tileset_def_uid {
        Option::None => Err(ErrorKind::SchemaError),
        Option::Some(uid) => match assoc_find_i64(defs.tilesets@, uid) {
            Option::None => Err(ErrorKind::MissingDefinition),
            Option::Some(ts) => if inst.c_wid < 0 || inst.c_hei < 0 {
                Err(ErrorKind::SchemaError)
            } else if definition.grid_size <= 0 || ts.tile_size <= 0 {
                Err(ErrorKind::SchemaError)
            } else if inst.c_wid * inst.c_hei > usize::MAX as int {
                Err(ErrorKind::SchemaError)
            } else {
                stamps_check(
                    inst.grid_tiles@,
                    definition.grid_size,
                    Vec2 { x: inst.c_wid, y: inst.c_hei },
                    0,
                )
            },
        },
    }
}

/// Whether `layer` is the built form of the instance `inst`: each cell
/// carries the tile of the last placed tile that targeted it, or none.
pub open spec fn tiles_layer_matches(
    definition: RsTilesDefinition,
    defs: RsDefinitions,
    inst: LayerInstance,
    layer: TilesLayer,
) -> bool {
    &&& layer.wf()
    &&& layer.identifier@ == inst.identifier@
    &&& layer.size == (Vec2 { x: inst.c_wid, y: inst.c_hei })
    &&& layer.tileset == inst.tileset_def_uid->0
    &&& forall|k: int|
        0 <= k < layer.tiles@.len() ==> #[trigger] layer.tiles@[k] == last_stamp_tile(
            inst.grid_tiles@,
            definition.grid_size,
            (assoc_find_i64(defs.tilesets@, inst.tileset_def_uid->0)->0).tile_size,
            layer.size,
            k,
        )
}

/// Materializes one tile layer instance: a flat row-major vector of
/// optional tiles, each placed tile fully overwriting its cell.
#[verifier::loop_isolation(false)]
#[verifier::rlimit(30)]
pub fn layer_instance(
    definition: &RsTilesDefinition,
    definitions: &RsDefinitions,
    layer_json: &LayerInstance,
) -> (r: Result<TilesLayer, Error>)
    ensures
        match r {
            Ok(layer) => tiles_check(*definition, *definitions, *layer_json) == Ok::<
                (),
                ErrorKind,
            >(()) && tiles_layer_matches(*definition, *definitions, *layer_json, layer),
            Err(e) => tiles_check(*definition, *definitions, *layer_json) == Err::<(), ErrorKind>(
                e.kind_spec(),
            ),
        },
{
    let tileset_id = match layer_json.tileset_def_uid {
        Option::Some(uid) => uid,
        Option::None => {
            return Err(
                Error::SchemaError("Tileset UID is not present in the tile layer!".to_owned()),
            );
        },
    };
    let tileset = match assoc_get_i64(&definitions.tilesets, tileset_id) {
        Option::Some(ts) => ts,
        Option::None => {
            return Err(
                Error::MissingDefinition("Tileset from the tile layer was not found!".to_owned()),
            );
        },
    };
    if layer_json.c_wid < 0 || layer_json.c_hei < 0 {
        return Err(Error::SchemaError("Layer size should not be negative!".to_owned()));
    }
    if definition.grid_size <= 0 || tileset.tile_size <= 0 {
        return Err(Error::SchemaError("Grid sizes should be positive!".to_owned()));
    }
    let size = Vec2 { x: layer_json.c_wid, y: layer_json.c_hei };
    let grid_size = definition.grid_size;
    let tile_size = tileset.tile_size;
    proof {
        assert((layer_json.c_wid as int) * (layer_json.c_hei as int)
            < 0x40000000000000000000000000000000) by (nonlinear_arith)
            requires
                0 <= layer_json.c_wid < 0x8000000000000000,
                0 <= layer_json.c_hei < 0x8000000000000000,
        ;
    }
    let cell_count = (layer_json.c_wid as u128) * (layer_json.c_hei as u128);
    if cell_count > usize::MAX as u128 {
        return Err(Error::SchemaError("Layer holds more cells than addressable!".to_owned()));
    }
    let total = cell_count as usize;
    let mut tiles: Vec<Option<Tile>> = Vec::new();
    let mut k: usize = 0;
    while k < total
        invariant
            k <= total,
            tiles@.len() == k,
            forall|j: int| 0 <= j < k ==> #[trigger] tiles@[j] is None,
        decreases total - k,
    {
        tiles.push(Option::None);
        k = k + 1;
    }
    let stamp_count = layer_json.grid_tiles.len();
    let mut s: usize = 0;
    while s < stamp_count
        invariant
            s <= stamp_count,
            stamp_count == layer_json.grid_tiles@.len(),
            tiles@.len() == total,
            stamps_check(layer_json.grid_tiles@, grid_size, size, s as int) == stamps_check(
                layer_json.grid_tiles@,
                grid_size,
                size,
                0,
            ),
            forall|kk: int|
                0 <= kk < tiles@.len() ==> #[trigger] tiles@[kk] == last_stamp_tile(
                    layer_json.grid_tiles@.take(s as int),
                    grid_size,
                    tile_size,
                    size,
                    kk,
                ),
        decreases stamp_count - s,
    {
        let t = &layer_json.grid_tiles[s];
        if t.px.x < 0 || t.px.y < 0 || t.src.x < 0 || t.src.y < 0 {
            return Err(
                Error::ValidationError("Tile position should not be negative!".to_owned()),
            );
        }
        if t.f < 0 || t.f > 3 {
            return Err(Error::InvalidEncoding("Invalid flip mode!".to_owned()));
        }
        let flip = if t.f == 0 {
            FlipMode::NoFlip
        } else if t.f == 1 {
            FlipMode::Horizontal
        } else if t.f == 2 {
            FlipMode::Vertical
        } else {
            FlipMode::Both
        };
        let cx = t.px.x / grid_size;
        let cy = t.px.y / grid_size;
        if cx >= size.x || cy >= size.y {
            return Err(Error::ValidationError("Tile lies outside the layer!".to_owned()));
        }
        let cell = Vec2 { x: cx, y: cy };
        let tile = Tile::new(Vec2 { x: t.src.x / tile_size, y: t.src.y / tile_size }, flip);
        proof {
            lemma_cell_index_bound(cell, size);
        }
        let idx = (cx as usize) + (cy as usize) * (size.x as usize);
        let ghost old_tiles = tiles@;
        let cell_ref = &mut tiles[idx];
        *cell_ref = Option::Some(tile);
        proof {
            assert(tile == stamp_tile(layer_json.grid_tiles@[s as int], tile_size));
            assert(cell == stamp_cell(layer_json.grid_tiles@[s as int], grid_size));
            assert forall|kk: int| 0 <= kk < tiles@.len() implies #[trigger] tiles@[kk]
                == last_stamp_tile(
                layer_json.grid_tiles@.take(s as int + 1),
                grid_size,
                tile_size,
                size,
                kk,
            ) by {
                let taken = layer_json.grid_tiles@.take(s as int + 1);
                assert(taken.last() == layer_json.grid_tiles@[s as int]);
                assert(taken.drop_last() =~= layer_json.grid_tiles@.take(s as int));
            }
        }
        s = s + 1;
    }
    proof {
        assert(layer_json.grid_tiles@.take(stamp_count as int) =~= layer_json.grid_tiles@);
    }
    Ok(
        TilesLayer {
            identifier: layer_json.identifier.clone(),
            size,
            tiles,
            tileset: tileset_id,
        },
    )
}

} // verus!
