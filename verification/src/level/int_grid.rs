//! Building int-grid layers: the palette of cell values from the layer
//! definition, the flat row-major cell vector from one instance, and the
//! autotile stitching that buckets placed stamps per cell.

use crate::definitions::{
    Error, ErrorKind, RsAutoLayerDefinition, RsDefinitions, RsIntGridDefinition, RsLayerDefinition,
};
use crate::header::{FlipMode, Tile, Vec2};
use crate::schema::{IntGridValueDefinition, LayerDefinition, LayerInstance, TileInstance};
use crate::table::{assoc_find_i64, assoc_get_i64};
use crate::text;
use crate::world::{cell_index, in_bounds, lemma_cell_index_bound, IntGridLayer};
use vstd::prelude::*;
use vstd::seq_lib::*;
use vstd::string::StringExecFns;

verus! {

/// The cell a stamp at pixel position `px` falls into.
pub open spec fn stamp_cell(t: TileInstance, grid_size: i64) -> Vec2 {
    Vec2 {
        x: (t.px.x as int / grid_size as int) as i64,
        y: (t.px.y as int / grid_size as int) as i64,
    }
}

/// Whether `f` is one of the four flip codes.
pub open spec fn flip_valid(f: i64) -> bool {
    0 <= f <= 3
}

/// The flip mode denoted by the 2-bit code `f`.
pub open spec fn flip_of(f: i64) -> FlipMode {
    if f == 0 {
        FlipMode::NoFlip
    } else if f == 1 {
        FlipMode::Horizontal
    } else if f == 2 {
        FlipMode::Vertical
    } else {
        FlipMode::Both
    }
}

/// The tile a stamp denotes: its source pixels divided into the tileset's
/// grid, and its decoded flip mode.
pub open spec fn stamp_tile(t: TileInstance, tile_size: i64) -> Tile {
    Tile {
        position: Vec2 {
            x: (t.src.x as int / tile_size as int) as i64,
            y: (t.src.y as int / tile_size as int) as i64,
        },
        flip: flip_of(t.f),
    }
}

/// Maps a stamp to its decoded tile when it lands in bucket `k`.
pub open spec fn stamp_to_bucket(grid_size: i64, tile_size: i64, size: Vec2, k: int) -> spec_fn(
    TileInstance,
) -> Option<Tile> {
    |t: TileInstance|
        if cell_index(stamp_cell(t, grid_size), size) == k {
            Option::Some(stamp_tile(t, tile_size))
        } else {
            Option::None
        }
}

/// The total number of stamps held across all buckets.
pub open spec fn bucket_len_sum(b: Seq<Vec<Tile>>) -> int
    decreases b.len(),
{
    if b.len() == 0 {
        0
    } else {
        bucket_len_sum(b.drop_last()) + b.last()@.len()
    }
}

/// Replacing one bucket changes the total by the difference of lengths.
pub proof fn lemma_bucket_len_sum_update(b: Seq<Vec<Tile>>, k: int, v: Vec<Tile>)
    requires
        0 <= k < b.len(),
    ensures
        bucket_len_sum(b.update(k, v)) == bucket_len_sum(b) - b[k]@.len() + v@.len(),
    decreases b.len(),
{
    let u = b.update(k, v);
    if k == b.len() - 1 {
        assert(u.drop_last() =~= b.drop_last());
    } else {
        assert(u.drop_last() =~= b.drop_last().update(k, v));
        lemma_bucket_len_sum_update(b.drop_last(), k, v);
    }
}

/// Extending the bucket vector by one bucket adds its length.
pub proof fn lemma_bucket_len_sum_push(b: Seq<Vec<Tile>>, v: Vec<Tile>)
    ensures
        bucket_len_sum(b.push(v)) == bucket_len_sum(b) + v@.len(),
{
    assert(b.push(v).drop_last() =~= b);
    assert(b.push(v).last() == v);
}

/// How the palette name of one declared int-grid value is chosen: its own
/// identifier when present, a name derived from its position otherwise.
pub open spec fn variant_name_matches(v: IntGridValueDefinition, index: int, name: Seq<char>) -> bool {
    match v.identifier {
        Option::Some(s) => name == s@,
        Option::None => name == "Tile"@ + text::dec_chars(index),
    }
}

/// Whether `tv` is the palette the definition declares: one entry per
/// declared value in order, and the reserved `Empty` entry for value 0
/// appended last, so that it wins lookups for 0.
pub open spec fn tile_variants_match(
    values: Seq<IntGridValueDefinition>,
    tv: Seq<(i64, String)>,
) -> bool {
    &&& tv.len() == values.len() + 1
    &&& forall|i: int|
        0 <= i < values.len() ==> (#[trigger] tv[i]).0 == values[i].value && variant_name_matches(
            values[i],
            i,
            tv[i].1@,
        )
    &&& tv.last().0 == 0
    &&& tv.last().1@ == "Empty"@
}

/// Compiles one int-grid layer definition into the registry: its palette,
/// its grid size, and whether rule groups declare an autotile augmentation.
pub fn layer_definition(definitions: &mut RsDefinitions, layer_json: &LayerDefinition) -> (r:
    Result<(), Error>)
    ensures
        match r {
            Ok(_) => {
                &&& !(layer_json.auto_rule_groups@.len() > 0 && layer_json.tileset_def_uid is None)
                &&& final(definitions).layers@.len() == old(definitions).layers@.len() + 1
                &&& final(definitions).layers@.drop_last() == old(definitions).layers@
                &&& final(definitions).layers@.last().0@ == layer_json.identifier@
                &&& (final(definitions).layers@.last().1 matches RsLayerDefinition::IntGrid(d) && {
                    &&& d.grid_size == layer_json.grid_size
                    &&& d.tile_enum@ == layer_json.identifier@ + "Tile"@
                    &&& (d.auto_layer is Some <==> layer_json.auto_rule_groups@.len() > 0)
                    &&& tile_variants_match(layer_json.int_grid_values@, d.tile_variants@)
                })
                &&& final(definitions).tilesets == old(definitions).tilesets
                &&& final(definitions).entities@ == old(definitions).entities@
                &&& final(definitions).level == old(definitions).level
                &&& final(definitions).entity_instances == old(definitions).entity_instances
            },
            Err(e) => {
                &&& layer_json.auto_rule_groups@.len() > 0
                &&& layer_json.tileset_def_uid is None
                &&& e is SchemaError
                &&& *final(definitions) == *old(definitions)
            },
        },
{
    let values_len = layer_json.int_grid_values.len();
    let mut tile_variants: Vec<(i64, String)> = Vec::new();
    let mut index: usize = 0;
    while index < values_len
        invariant
            index <= values_len,
            values_len == layer_json.int_grid_values@.len(),
            tile_variants@.len() == index,
            forall|i: int|
                0 <= i < index ==> (#[trigger] tile_variants@[i]).0
                    == layer_json.int_grid_values@[i].value && variant_name_matches(
                    layer_json.int_grid_values@[i],
                    i,
                    tile_variants@[i].1@,
                ),
        decreases values_len - index,
    {
        let cell_value = &layer_json.int_grid_values[index];
        let tile_name: String = match &cell_value.identifier {
            Option::Some(s) => s.clone(),
            Option::None => {
                let mut t = "Tile".to_owned();
                t.append(text::u64_to_string(index as u64).as_str());
                t
            },
        };
        tile_variants.push((cell_value.value, tile_name));
        index = index + 1;
    }
    if layer_json.auto_rule_groups.len() > 0 && layer_json.tileset_def_uid.is_none() {
        return Err(Error::SchemaError("No tileset UID in auto layer!".to_owned()));
    }
    tile_variants.push((0, "Empty".to_owned()));
    let mut tile_enum = layer_json.identifier.clone();
    tile_enum.append("Tile");
    let auto_layer: Option<RsAutoLayerDefinition> = if layer_json.auto_rule_groups.len() > 0 {
        Option::Some(RsAutoLayerDefinition {  })
    } else {
        Option::None
    };
    let definition = RsIntGridDefinition {
        grid_size: layer_json.grid_size,
        tile_enum,
        tile_variants,
        auto_layer,
    };
    definitions.layers.push(
        (layer_json.identifier.clone(), RsLayerDefinition::IntGrid(definition)),
    );
    proof {
        assert(final(definitions).layers@.drop_last() =~= old(definitions).layers@);
    }
    Ok(())
}

/// Element-wise check that every cell value of the raw grid is in the
/// palette; the first missing value is a dangling reference.
pub open spec fn csv_check(tv: Seq<(i64, String)>, csv: Seq<i64>, i: int) -> Result<(), ErrorKind>
    decreases csv.len() - i + 1,
{
    if i >= csv.len() {
        Ok(())
    } else if assoc_find_i64(tv, csv[i]) is None {
        Err(ErrorKind::MissingDefinition)
    } else {
        csv_check(tv, csv, i + 1)
    }
}

/// Element-wise check of the placed stamps from position `i` on: pixel and
/// source positions must not be negative, the flip code must be one of the
/// four, and the owning cell must lie within the layer.
pub open spec fn stamps_check(
    stamps: Seq<TileInstance>,
    grid_size: i64,
    size: Vec2,
    i: int,
) -> Result<(), ErrorKind>
    decreases stamps.len() - i + 1,
{
    if i >= stamps.len() {
        Ok(())
    } else {
        let t = stamps[i];
        if t.px.x < 0 || t.px.y < 0 || t.src.x < 0 || t.src.y < 0 {
            Err(ErrorKind::ValidationError)
        } else if !flip_valid(t.f) {
            Err(ErrorKind::InvalidEncoding)
        } else if !in_bounds(stamp_cell(t, grid_size), size) {
            Err(ErrorKind::ValidationError)
        } else {
            stamps_check(stamps, grid_size, size, i + 1)
        }
    }
}

/// The conditions under which one int-grid layer instance builds, in the
/// order they are checked; the first violated one names the error.
pub open spec fn int_grid_check(
    definition: RsIntGridDefinition,
    defs: RsDefinitions,
    inst: LayerInstance,
) -> Result<(), ErrorKind> {
    if inst.c_wid < 0 || inst.c_hei < 0 {
        Err(ErrorKind::SchemaError)
    } else if inst.int_grid_csv@.len() != inst.c_wid * inst.c_hei {
        Err(ErrorKind::SchemaError)
    } else {
        match csv_check(definition.tile_variants@, inst.int_grid_csv@, 0) {
            Err(e) => Err(e),
            Ok(_) => if definition.auto_layer is None {
                Ok(())
            } else {
                match inst.tileset_def_uid {
                    Option::None => Err(ErrorKind::SchemaError),
                    Option::Some(uid) => match assoc_find_i64(defs.tilesets@, uid) {
                        Option::None => Err(ErrorKind::MissingDefinition),
                        Option::Some(ts) => if definition.grid_size <= 0 || ts.tile_size <= 0 {
                            Err(ErrorKind::SchemaError)
                        } else {
                            stamps_check(
                                inst.auto_layer_tiles@,
                                definition.grid_size,
                                Vec2 { x: inst.c_wid, y: inst.c_hei },
                                0,
                            )
                        },
                    },
                }
            },
        }
    }
}

/// Whether `layer` is the built form of the instance `inst`: every cell
/// carries its palette name, and, when autotiled, each placed stamp sits in
/// the bucket of its owning cell, in input order, so that the bucket
/// lengths sum to the number of placed stamps.
pub open spec fn int_grid_layer_matches(
    definition: RsIntGridDefinition,
    defs: RsDefinitions,
    inst: LayerInstance,
    layer: IntGridLayer,
) -> bool {
    &&& layer.wf()
    &&& layer.identifier@ == inst.identifier@
    &&& layer.size == (Vec2 { x: inst.c_wid, y: inst.c_hei })
    &&& layer.tiles@.len() == inst.int_grid_csv@.len()
    &&& forall|i: int|
        0 <= i < inst.int_grid_csv@.len() ==> (assoc_find_i64(
            definition.tile_variants@,
            #[trigger] inst.int_grid_csv@[i],
        ) matches Some(nm) && layer.tiles@[i]@ == nm@)
    &&& definition.auto_layer is None ==> layer.auto_tiles is None && layer.tileset is None
    &&& definition.auto_layer is Some ==> {
        &&& layer.tileset == inst.tileset_def_uid
        &&& layer.auto_tiles matches Some(buckets) && {
            &&& buckets@.len() == layer.tiles@.len()
            &&& bucket_len_sum(buckets@) == inst.auto_layer_tiles@.len()
            &&& forall|k: int|
                0 <= k < buckets@.len() ==> (#[trigger] buckets@[k])@
                    == inst.auto_layer_tiles@.filter_map(
                    stamp_to_bucket(
                        definition.grid_size,
                        (assoc_find_i64(defs.tilesets@, inst.tileset_def_uid->0)->0).tile_size,
                        layer.size,
                        k,
                    ),
                )
        }
    }
}

/// Materializes one int-grid layer instance: the flat row-major vector of
/// palette names, and, for autotiled layers, the per-cell buckets of
/// stacked stamps in input order. The sum of all bucket lengths equals the
/// number of placed stamps.
#[verifier::loop_isolation(false)]
#[verifier::rlimit(30)]
pub fn layer_instance(
    definition: &RsIntGridDefinition,
    definitions: &RsDefinitions,
    layer_json: &LayerInstance,
) -> (r: Result<IntGridLayer, Error>)
    ensures
        match r {
            Ok(layer) => int_grid_check(*definition, *definitions, *layer_json) == Ok::<
                (),
                ErrorKind,
            >(()) && int_grid_layer_matches(*definition, *definitions, *layer_json, layer),
            Err(e) => int_grid_check(*definition, *definitions, *layer_json) == Err::<
                (),
                ErrorKind,
            >(e.kind_spec()),
        },
{
    if layer_json.c_wid < 0 || layer_json.c_hei < 0 {
        return Err(Error::SchemaError("Layer size should not be negative!".to_owned()));
    }
    let size = Vec2 { x: layer_json.c_wid, y: layer_json.c_hei };
    proof {
        assert((layer_json.c_wid as int) * (layer_json.c_hei as int)
            < 0x40000000000000000000000000000000) by (nonlinear_arith)
            requires
                0 <= layer_json.c_wid < 0x8000000000000000,
                0 <= layer_json.c_hei < 0x8000000000000000,
        ;
    }
    let cell_count = (layer_json.c_wid as u128) * (layer_json.c_hei as u128);
    let csv_len = layer_json.int_grid_csv.len();
    if (csv_len as u128) != cell_count {
        return Err(
            Error::SchemaError("Grid does not hold one value for each cell!".to_owned()),
        );
    }
    proof {
        assert(layer_json.int_grid_csv@.len() == size.x * size.y);
    }
    let mut tiles: Vec<String> = Vec::new();
    let mut i: usize = 0;
    while i < csv_len
        invariant
            i <= csv_len,
            tiles@.len() == i,
            csv_check(definition.tile_variants@, layer_json.int_grid_csv@, i as int) == csv_check(
                definition.tile_variants@,
                layer_json.int_grid_csv@,
                0,
            ),
            forall|j: int|
                0 <= j < i ==> (assoc_find_i64(
                    definition.tile_variants@,
                    #[trigger] layer_json.int_grid_csv@[j],
                ) matches Some(nm) && tiles@[j]@ == nm@),
        decreases csv_len - i,
    {
        match assoc_get_i64(&definition.tile_variants, layer_json.int_grid_csv[i]) {
            Option::None => {
                return Err(
                    Error::MissingDefinition(
                        "Int grid value is not in the declared palette!".to_owned(),
                    ),
                );
            },
            Option::Some(name) => {
                tiles.push(name.clone());
            },
        }
        i = i + 1;
    }
    if definition.auto_layer.is_none() {
        return Ok(
            IntGridLayer {
                identifier: layer_json.identifier.clone(),
                size,
                tiles,
                auto_tiles: Option::None,
                tileset: Option::None,
            },
        );
    }
    let tileset_id = match layer_json.tileset_def_uid {
        Option::Some(uid) => uid,
        Option::None => {
            return Err(
                Error::SchemaError("Tileset UID is not present in autotiled int grid!".to_owned()),
            );
        },
    };
    let tileset = match assoc_get_i64(&definitions.tilesets, tileset_id) {
        Option::Some(ts) => ts,
        Option::None => {
            return Err(
                Error::MissingDefinition("Tileset from autotiled int grid was not found!".to_owned()),
            );
        },
    };
    if definition.grid_size <= 0 || tileset.tile_size <= 0 {
        return Err(Error::SchemaError("Grid sizes should be positive!".to_owned()));
    }
    let grid_size = definition.grid_size;
    let tile_size = tileset.tile_size;
    let mut buckets: Vec<Vec<Tile>> = Vec::new();
    let mut k: usize = 0;
    while k < csv_len
        invariant
            k <= csv_len,
            buckets@.len() == k,
            forall|j: int| 0 <= j < k ==> (#[trigger] buckets@[j])@ == Seq::<Tile>::empty(),
            bucket_len_sum(buckets@) == 0,
        decreases csv_len - k,
    {
        let empty_bucket: Vec<Tile> = Vec::new();
        proof {
            lemma_bucket_len_sum_push(buckets@, empty_bucket);
        }
        buckets.push(empty_bucket);
        k = k + 1;
    }
    let stamp_count = layer_json.auto_layer_tiles.len();
    let mut s: usize = 0;
    while s < stamp_count
        invariant
            s <= stamp_count,
            stamp_count == layer_json.auto_layer_tiles@.len(),
            buckets@.len() == csv_len,
            stamps_check(layer_json.auto_layer_tiles@, grid_size, size, s as int) == stamps_check(
                layer_json.auto_layer_tiles@,
                grid_size,
                size,
                0,
            ),
            bucket_len_sum(buckets@) == s,
            forall|kk: int|
                0 <= kk < buckets@.len() ==> (#[trigger] buckets@[kk])@
                    == layer_json.auto_layer_tiles@.take(s as int).filter_map(
                    stamp_to_bucket(grid_size, tile_size, size, kk),
                ),
        decreases stamp_count - s,
    {
        let t = &layer_json.auto_layer_tiles[s];
        if t.px.x < 0 || t.px.y < 0 || t.src.x < 0 || t.src.y < 0 {
            return Err(
                Error::ValidationError("Stamp position should not be negative!".to_owned()),
            );
        }
        if t.f < 0 || t.f > 3 {
            return Err(Error::InvalidEncoding("Invalid flip mode!".to_owned()));
        }
        let flip = if t.f == 0 {
            FlipMode::NoFlip
        } else if t.f == 1 {
            FlipMode::Horizontal
        } else if t.f == 2 {
            FlipMode::Vertical
        } else {
            FlipMode::Both
        };
        let cx = t.px.x / grid_size;
        let cy = t.px.y / grid_size;
        if cx >= size.x || cy >= size.y {
            return Err(Error::ValidationError("Stamp lies outside the layer!".to_owned()));
        }
        let cell = Vec2 { x: cx, y: cy };
        let tile = Tile::new(Vec2 { x: t.src.x / tile_size, y: t.src.y / tile_size }, flip);
        proof {
            lemma_cell_index_bound(cell, size);
        }
        let idx = (cx as usize) + (cy as usize) * (size.x as usize);
        let ghost old_buckets = buckets@;
        let bucket_ref = &mut buckets[idx];
        bucket_ref.push(tile);
        proof {
            lemma_bucket_len_sum_update(old_buckets, idx as int, buckets@[idx as int]);
            assert(tile == stamp_tile(layer_json.auto_layer_tiles@[s as int], tile_size));
            assert(cell == stamp_cell(layer_json.auto_layer_tiles@[s as int], grid_size));
            assert forall|kk: int| 0 <= kk < buckets@.len() implies (#[trigger] buckets@[kk])@
                == layer_json.auto_layer_tiles@.take(s as int + 1).filter_map(
                stamp_to_bucket(grid_size, tile_size, size, kk),
            ) by {
                let f = stamp_to_bucket(grid_size, tile_size, size, kk);
                layer_json.auto_layer_tiles@.lemma_filter_map_take_succ(f, s as int);
                if kk == idx as int {
                    assert(f(layer_json.auto_layer_tiles@[s as int]) == Option::Some(tile));
                    assert(buckets@[kk]@ =~= old_buckets[kk]@ + seq![tile]);
                } else {
                    assert(f(layer_json.auto_layer_tiles@[s as int]) is None);
                    assert(buckets@[kk]@ =~= old_buckets[kk]@);
                }
            }
        }
        s = s + 1;
    }
    proof {
        assert(layer_json.auto_layer_tiles@.take(stamp_count as int)
            =~= layer_json.auto_layer_tiles@);
        assert forall|kk: int| 0 <= kk < buckets@.len() implies (#[trigger] buckets@[kk])@
            == layer_json.auto_layer_tiles@.filter_map(
            stamp_to_bucket(grid_size, tile_size, size, kk),
        ) by {
            assert(buckets@[kk]@ == layer_json.auto_layer_tiles@.take(stamp_count as int).filter_map(
                stamp_to_bucket(grid_size, tile_size, size, kk),
            ));
        }
    }
    Ok(
        IntGridLayer {
            identifier: layer_json.identifier.clone(),
            size,
            tiles,
            auto_tiles: Option::Some(buckets),
            tileset: Option::Some(tileset_id),
        },
    )
}


proof fn lemma_filter_map_keeps_mapped<A, B>(s: Seq<A>, f: spec_fn(A) -> Option<B>, i: int)
    requires
        0 <= i < s.len(),
        f(s[i]) is Some,
    ensures
        s.filter_map(f).contains(f(s[i])->0),
    decreases s.len(),
{
    reveal_with_fuel(Seq::filter_map, 2);
    if i == s.len() - 1 {
        assert(s.filter_map(f).last() == f(s[i])->0);
    } else {
        lemma_filter_map_keeps_mapped(s.drop_last(), f, i);
        assert(s.drop_last()[i] == s[i]);
        let b = f(s[i])->0;
        let prefix = s.drop_last().filter_map(f);
        let j = choose|j: int| 0 <= j < prefix.len() && prefix[j] == b;
        assert(s.filter_map(f)[j] == b);
    }
}

/// Autotile stitching, stated on a built layer: every placed stamp sits in
/// the bucket of its owning cell, and the bucket lengths sum to the number
/// of placed stamps.
pub proof fn lemma_autotile_stitching(
    definition: RsIntGridDefinition,
    defs: RsDefinitions,
    inst: LayerInstance,
    layer: IntGridLayer,
    s: int,
)
    requires
        int_grid_layer_matches(definition, defs, inst, layer),
        definition.auto_layer is Some,
        0 <= s < inst.auto_layer_tiles@.len(),
        in_bounds(stamp_cell(inst.auto_layer_tiles@[s], definition.grid_size), layer.size),
    ensures
        bucket_len_sum((layer.auto_tiles->0)@) == inst.auto_layer_tiles@.len(),
        (layer.auto_tiles->0)@[cell_index(
            stamp_cell(inst.auto_layer_tiles@[s], definition.grid_size),
            layer.size,
        )]@.contains(
            stamp_tile(
                inst.auto_layer_tiles@[s],
                (assoc_find_i64(defs.tilesets@, inst.tileset_def_uid->0)->0).tile_size,
            ),
        ),
{
    let tile_size = (assoc_find_i64(defs.tilesets@, inst.tileset_def_uid->0)->0).tile_size;
    let cell = stamp_cell(inst.auto_layer_tiles@[s], definition.grid_size);
    let k = cell_index(cell, layer.size);
    lemma_cell_index_bound(cell, layer.size);
    let f = stamp_to_bucket(definition.grid_size, tile_size, layer.size, k);
    assert(f(inst.auto_layer_tiles@[s]) == Option::Some(
        stamp_tile(inst.auto_layer_tiles@[s], tile_size),
    ));
    lemma_filter_map_keeps_mapped(inst.auto_layer_tiles@, f, s);
}

} // verus!
