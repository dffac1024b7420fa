//! Building levels and assembling the world: the per-kind layer builders,
//! the global entity index pass, and the two world assembly passes.
//!
//! The entity index over the whole project is completely built before any
//! value is coerced, so that every entity reference resolves against the
//! full index: this ordering is structural, not best-effort.

pub mod entities;
pub mod int_grid;
pub mod tiles;

use crate::definitions::{
    coerce_spec, color_of_text, color_text_valid, format_color, lit_matches, parse_ok,
    parse_result_matches, Error, ErrorKind, RsDefinitions, RsEntityInstance, RsFieldType,
    RsLayerDefinition, TypedLiteral,
};
use crate::level::entities::{entities_check, entities_layer_matches, entity_object_matches, entity_objects_check};
use crate::level::int_grid::{int_grid_check, int_grid_layer_matches, tile_variants_match};
use crate::level::tiles::{tiles_check, tiles_layer_matches};
use crate::schema;
use crate::schema::{FieldDefinition, FieldInstance, LayerDefinition, LayerInstance, LdtkJson, TilesetDefinition};
use crate::table::{assoc_find_str, assoc_get_str, lemma_assoc_find_some_str, lemma_assoc_push_str};
use crate::header::{EntityRef, Tileset, Vec2};
use crate::world::{LayerData, Level, World};
use vstd::prelude::*;
use vstd::seq_lib::*;

verus! {

/// The layer instances of a level known to carry some.
pub open spec fn level_instances(level: schema::Level) -> Seq<LayerInstance> {
    (level.layer_instances->0)@
}

/// Whether the identifier `iid` names the entity instance at the triple
/// `(l, ly, en)` of the project.
pub open spec fn occurs_at(project: LdtkJson, iid: Seq<char>, l: int, ly: int, en: int) -> bool {
    &&& 0 <= l < project.levels@.len()
    &&& project.levels@[l].layer_instances is Some
    &&& 0 <= ly < level_instances(project.levels@[l]).len()
    &&& 0 <= en < level_instances(project.levels@[l])[ly].entity_instances@.len()
    &&& level_instances(project.levels@[l])[ly].entity_instances@[en].iid@ == iid
}

/// Whether `built` is the compiled form of the instance `inst` under its
/// registered definition.
pub open spec fn layer_built(defs: RsDefinitions, inst: LayerInstance, built: LayerData) -> bool {
    match assoc_find_str(defs.layers@, inst.identifier@) {
        Option::Some(RsLayerDefinition::IntGrid(d)) => built matches LayerData::IntGrid(l)
            && int_grid_check(d, defs, inst) is Ok && int_grid_layer_matches(d, defs, inst, l),
        Option::Some(RsLayerDefinition::Tiles(d)) => built matches LayerData::Tiles(l)
            && tiles_check(d, defs, inst) is Ok && tiles_layer_matches(d, defs, inst, l),
        Option::Some(RsLayerDefinition::Entities) => built matches LayerData::Entities(l)
            && entity_objects_check(defs, inst.entity_instances@, 0) is Ok
            && entities_layer_matches(defs, inst, l),
        Option::None => false,
    }
}

/// Whether `fields` holds the coerced level-scoped fields of `fis`.
pub open spec fn level_fields_match(
    defs: RsDefinitions,
    fis: Seq<FieldInstance>,
    fields: Seq<(String, TypedLiteral)>,
) -> bool {
    &&& fields.len() == fis.len()
    &&& forall|f: int|
        0 <= f < fis.len() ==> {
            let field = #[trigger] fields[f];
            &&& field.0@ == fis[f].identifier@
            &&& (assoc_find_str(defs.level.fields@, fis[f].identifier@) matches Some(ty) && {
                &&& coerce_spec(ty, defs, fis[f].value) is Ok
                &&& lit_matches(field.1, coerce_spec(ty, defs, fis[f].value)->Ok_0)
            })
        }
}

/// Whether `level` is the compiled form of the raw level `level_json`.
pub open spec fn level_built(defs: RsDefinitions, level_json: schema::Level, level: Level) -> bool {
    &&& level.identifier@ == level_json.identifier@
    &&& color_text_valid(level_json.bg_color@)
    &&& level.bg_color == color_of_text(level_json.bg_color@)
    &&& level.pixel_size == (Vec2 { x: level_json.px_wid, y: level_json.px_hei })
    &&& level.world_depth == level_json.world_depth
    &&& level.world_x == level_json.world_x
    &&& level.world_y == level_json.world_y
    &&& level_json.layer_instances is Some
    &&& level.layers@.len() == level_instances(level_json).len()
    &&& forall|ly: int|
        0 <= ly < level.layers@.len() ==> layer_built(
            defs,
            level_instances(level_json)[ly],
            #[trigger] level.layers@[ly],
        )
    &&& level_fields_match(defs, level_json.field_instances@, level.fields@)
}

/// The world model entry of one declared tileset: only tilesets with a
/// path are exposed.
pub open spec fn world_tileset(t: TilesetDefinition) -> Option<Tileset> {
    match t.rel_path {
        Option::Some(p) => Option::Some(Tileset { id: t.uid, path: p }),
        Option::None => Option::None,
    }
}

/// The error that reading a background color string raises, if any.
pub open spec fn color_check(s: Seq<char>) -> Result<(), ErrorKind> {
    if !(s.len() > 0 && s[0] == '#') {
        Err(ErrorKind::ValidationError)
    } else if !color_text_valid(s) {
        Err(ErrorKind::InvalidEncoding)
    } else {
        Ok(())
    }
}

/// The entity index pass aborts at the first level whose layer instances
/// are saved externally.
pub open spec fn index_pass_check(levels: Seq<schema::Level>, i: int) -> Result<(), ErrorKind>
    decreases levels.len() - i + 1,
{
    if i >= levels.len() {
        Ok(())
    } else if levels[i].layer_instances is None {
        Err(ErrorKind::UnsupportedFieldType)
    } else {
        index_pass_check(levels, i + 1)
    }
}

/// What compiling one layer instance against the registry raises: a
/// dangling identifier, or whatever its kind's own check raises.
pub open spec fn layer_instance_check(defs: RsDefinitions, inst: LayerInstance) -> Result<
    (),
    ErrorKind,
> {
    match assoc_find_str(defs.layers@, inst.identifier@) {
        Option::None => Err(ErrorKind::MissingDefinition),
        Option::Some(RsLayerDefinition::IntGrid(d)) => int_grid_check(d, defs, inst),
        Option::Some(RsLayerDefinition::Tiles(d)) => tiles_check(d, defs, inst),
        Option::Some(RsLayerDefinition::Entities) => entity_objects_check(
            defs,
            inst.entity_instances@,
            0,
        ),
    }
}

/// The layers of one level compile in declared order; the first failing
/// one names the error.
pub open spec fn layer_instances_check(
    defs: RsDefinitions,
    insts: Seq<LayerInstance>,
    i: int,
) -> Result<(), ErrorKind>
    decreases insts.len() - i + 1,
{
    if i >= insts.len() {
        Ok(())
    } else {
        match layer_instance_check(defs, insts[i]) {
            Err(e) => Err(e),
            Ok(_) => layer_instances_check(defs, insts, i + 1),
        }
    }
}

/// What coercing one level-scoped field raises: an undeclared identifier,
/// or whatever the coercion raises.
pub open spec fn level_field_check(defs: RsDefinitions, fi: FieldInstance) -> Result<
    (),
    ErrorKind,
> {
    match assoc_find_str(defs.level.fields@, fi.identifier@) {
        Option::None => Err(ErrorKind::MissingDefinition),
        Option::Some(ty) => match coerce_spec(ty, defs, fi.value) {
            Err(e) => Err(e),
            Ok(_) => Ok(()),
        },
    }
}

/// The level-scoped fields coerce in instance order.
pub open spec fn level_fields_check(
    defs: RsDefinitions,
    fis: Seq<FieldInstance>,
    i: int,
) -> Result<(), ErrorKind>
    decreases fis.len() - i + 1,
{
    if i >= fis.len() {
        Ok(())
    } else {
        match level_field_check(defs, fis[i]) {
            Err(e) => Err(e),
            Ok(_) => level_fields_check(defs, fis, i + 1),
        }
    }
}

/// What building one level raises, in the order checked: its background
/// color, then its layers, then its fields.
pub open spec fn level_check(defs: RsDefinitions, level: schema::Level) -> Result<(), ErrorKind> {
    match color_check(level.bg_color@) {
        Err(e) => Err(e),
        Ok(_) => match level.layer_instances {
            Option::None => Err(ErrorKind::UnsupportedFieldType),
            Option::Some(_) => match layer_instances_check(defs, level_instances(level), 0) {
                Err(e) => Err(e),
                Ok(_) => level_fields_check(defs, level.field_instances@, 0),
            },
        },
    }
}

/// The levels build in declared order.
pub open spec fn levels_check(defs: RsDefinitions, levels: Seq<schema::Level>, i: int) -> Result<
    (),
    ErrorKind,
>
    decreases levels.len() - i + 1,
{
    if i >= levels.len() {
        Ok(())
    } else {
        match level_check(defs, levels[i]) {
            Err(e) => Err(e),
            Ok(_) => levels_check(defs, levels, i + 1),
        }
    }
}

/// Everything world assembly checks, in the order it checks it: the index
/// pass over every level, the world's background color, then every level.
/// Assembly succeeds exactly when this passes, and aborts with exactly
/// the error this names.
pub open spec fn world_check(defs: RsDefinitions, project: LdtkJson) -> Result<(), ErrorKind> {
    match index_pass_check(project.levels@, 0) {
        Err(e) => Err(e),
        Ok(_) => match color_check(project.bg_color@) {
            Err(e) => Err(e),
            Ok(_) => levels_check(defs, project.levels@, 0),
        },
    }
}

/// Assembles the world: one pass indexes every entity instance's stable
/// identifier with its coordinate triple, and only then are levels,
/// layers, and level fields built, so every entity reference resolves
/// against the complete index.
#[verifier::loop_isolation(false)]
#[verifier::rlimit(100)]
pub fn generate_world(defs: &mut RsDefinitions, project: &LdtkJson) -> (r: Result<World, Error>)
    ensures
        final(defs).tilesets == old(defs).tilesets,
        final(defs).layers@ == old(defs).layers@,
        final(defs).entities@ == old(defs).entities@,
        final(defs).level == old(defs).level,
        old(defs).entity_instances@.is_prefix_of(final(defs).entity_instances@),
        forall|i: int|
            old(defs).entity_instances@.len() <= i < final(defs).entity_instances@.len() ==> {
                let entry = #[trigger] final(defs).entity_instances@[i];
                occurs_at(
                    *project,
                    entry.0@,
                    entry.1.level as int,
                    entry.1.layer as int,
                    entry.1.entity as int,
                )
            },
        r is Ok ==> forall|l: int, ly: int, en: int|
            {
                (0 <= l < project.levels@.len() && 0 <= ly < level_instances(
                    project.levels@[l],
                ).len() && 0 <= en < level_instances(
                    project.levels@[l],
                )[ly].entity_instances@.len()) ==> assoc_find_str(
                    final(defs).entity_instances@,
                    (#[trigger] level_instances(project.levels@[l])[ly].entity_instances@[en]).iid@,
                ) is Some
            },
        match r {
            Ok(world) => {
                &&& world_check(*final(defs), *project) == Ok::<(), ErrorKind>(())
                &&& world.wf()
                &&& world.bg_color == color_of_text(project.bg_color@)
                &&& world.tilesets@ == project.defs.tilesets@.filter_map(
                    |t: TilesetDefinition| world_tileset(t),
                )
                &&& world.levels@.len() == project.levels@.len()
                &&& forall|l: int|
                    0 <= l < project.levels@.len() ==> level_built(
                        *final(defs),
                        project.levels@[l],
                        #[trigger] world.levels@[l],
                    )
            },
            Err(e) => world_check(*final(defs), *project) == Err::<(), ErrorKind>(e.kind_spec()),
        },
{
    let level_count = project.levels.len();
    let ghost old_ei = defs.entity_instances@;

    // Pass one: the global entity index, over every level, every layer
    // within it, every entity instance within each layer.
    let mut l: usize = 0;
    while l < level_count
        invariant
            l <= level_count,
            defs.tilesets == old(defs).tilesets,
            defs.layers@ == old(defs).layers@,
            defs.entities@ == old(defs).entities@,
            defs.level == old(defs).level,
            old_ei.is_prefix_of(defs.entity_instances@),
            index_pass_check(project.levels@, l as int) == index_pass_check(project.levels@, 0),
            forall|l3: int|
                0 <= l3 < l ==> (#[trigger] project.levels@[l3]).layer_instances is Some,
            forall|i: int|
                old_ei.len() <= i < defs.entity_instances@.len() ==> {
                    let entry = #[trigger] defs.entity_instances@[i];
                    occurs_at(
                        *project,
                        entry.0@,
                        entry.1.level as int,
                        entry.1.layer as int,
                        entry.1.entity as int,
                    )
                },
            forall|l2: int, ly2: int, en2: int|
                {
                    (0 <= l2 < l && 0 <= ly2 < level_instances(project.levels@[l2]).len() && 0
                        <= en2 < level_instances(project.levels@[l2])[ly2].entity_instances@.len())
                        ==> assoc_find_str(
                        defs.entity_instances@,
                        (#[trigger] level_instances(
                            project.levels@[l2],
                        )[ly2].entity_instances@[en2]).iid@,
                    ) is Some
                },
        decreases level_count - l,
    {
        let instances = match &project.levels[l].layer_instances {
            Option::Some(instances) => instances,
            Option::None => {
                proof {
                    assert(index_pass_check(project.levels@, l as int) == Err::<(), ErrorKind>(
                        ErrorKind::UnsupportedFieldType,
                    ));
                }
                return Err(
                    Error::UnsupportedFieldType("External levels are not supported yet!".to_owned()),
                );
            },
        };
        let layer_count = instances.len();
        let mut ly: usize = 0;
        while ly < layer_count
            invariant
                ly <= layer_count,
                project.levels@[l as int].layer_instances is Some,
                instances@ == level_instances(project.levels@[l as int]),
                layer_count == instances@.len(),
                old_ei.is_prefix_of(defs.entity_instances@),
                defs.tilesets == old(defs).tilesets,
                defs.layers@ == old(defs).layers@,
                defs.entities@ == old(defs).entities@,
                defs.level == old(defs).level,
                forall|i: int|
                    old_ei.len() <= i < defs.entity_instances@.len() ==> {
                        let entry = #[trigger] defs.entity_instances@[i];
                        occurs_at(
                            *project,
                            entry.0@,
                            entry.1.level as int,
                            entry.1.layer as int,
                            entry.1.entity as int,
                        )
                    },
                forall|l2: int, ly2: int, en2: int|
                    {
                        (0 <= l2 < l && 0 <= ly2 < level_instances(project.levels@[l2]).len() && 0
                            <= en2 < level_instances(
                            project.levels@[l2],
                        )[ly2].entity_instances@.len()) ==> assoc_find_str(
                            defs.entity_instances@,
                            (#[trigger] level_instances(
                                project.levels@[l2],
                            )[ly2].entity_instances@[en2]).iid@,
                        ) is Some
                    },
                forall|ly2: int, en2: int|
                    {
                        (0 <= ly2 < ly && 0 <= en2 < level_instances(
                            project.levels@[l as int],
                        )[ly2].entity_instances@.len()) ==> assoc_find_str(
                            defs.entity_instances@,
                            (#[trigger] level_instances(
                                project.levels@[l as int],
                            )[ly2].entity_instances@[en2]).iid@,
                        ) is Some
                    },
            decreases layer_count - ly,
        {
            let entity_count = instances[ly].entity_instances.len();
            let mut en: usize = 0;
            while en < entity_count
                invariant
                    en <= entity_count,
                    project.levels@[l as int].layer_instances is Some,
                    instances@ == level_instances(project.levels@[l as int]),
                    ly < instances@.len(),
                    entity_count == instances@[ly as int].entity_instances@.len(),
                    old_ei.is_prefix_of(defs.entity_instances@),
                    defs.tilesets == old(defs).tilesets,
                    defs.layers@ == old(defs).layers@,
                    defs.entities@ == old(defs).entities@,
                    defs.level == old(defs).level,
                    forall|i: int|
                        old_ei.len() <= i < defs.entity_instances@.len() ==> {
                            let entry = #[trigger] defs.entity_instances@[i];
                            occurs_at(
                                *project,
                                entry.0@,
                                entry.1.level as int,
                                entry.1.layer as int,
                                entry.1.entity as int,
                            )
                        },
                    forall|l2: int, ly2: int, en2: int|
                        {
                            (0 <= l2 < l && 0 <= ly2 < level_instances(project.levels@[l2]).len()
                                && 0 <= en2 < level_instances(
                                project.levels@[l2],
                            )[ly2].entity_instances@.len()) ==> assoc_find_str(
                                defs.entity_instances@,
                                (#[trigger] level_instances(
                                    project.levels@[l2],
                                )[ly2].entity_instances@[en2]).iid@,
                            ) is Some
                        },
                    forall|ly2: int, en2: int|
                        {
                            (0 <= ly2 < ly && 0 <= en2 < level_instances(
                                project.levels@[l as int],
                            )[ly2].entity_instances@.len()) ==> assoc_find_str(
                                defs.entity_instances@,
                                (#[trigger] level_instances(
                                    project.levels@[l as int],
                                )[ly2].entity_instances@[en2]).iid@,
                            ) is Some
                        },
                    forall|en2: int|
                        {
                            0 <= en2 < en ==> assoc_find_str(
                                defs.entity_instances@,
                                (#[trigger] level_instances(
                                    project.levels@[l as int],
                                )[ly as int].entity_instances@[en2]).iid@,
                            ) is Some
                        },
                decreases entity_count - en,
            {
                let entity_iid = instances[ly].entity_instances[en].iid.clone();
                let ghost pre = defs.entity_instances@;
                defs.entity_instances.push(
                    (entity_iid, RsEntityInstance { level: l, layer: ly, entity: en }),
                );
                proof {
                    let entry = defs.entity_instances@.last();
                    assert(defs.entity_instances@.drop_last() =~= pre);
                    assert(old_ei.is_prefix_of(defs.entity_instances@)) by {
                        assert(defs.entity_instances@.take(old_ei.len() as int) =~= pre.take(
                            old_ei.len() as int,
                        ));
                    }
                    assert(occurs_at(
                        *project,
                        entry.0@,
                        entry.1.level as int,
                        entry.1.layer as int,
                        entry.1.entity as int,
                    ));
                    assert forall|k: Seq<char>|
                        assoc_find_str(pre, k) is Some implies assoc_find_str(
                        defs.entity_instances@,
                        k,
                    ) is Some by {
                        lemma_assoc_push_str(pre, entry, k);
                    }
                    lemma_assoc_push_str(pre, entry, entry.0@);
                }
                en = en + 1;
            }
            ly = ly + 1;
        }
        l = l + 1;
    }

    // The index is now complete: everything below reads it, nothing
    // writes it.

    // The exposed tilesets: those the project gives a path for.
    let tileset_count = project.defs.tilesets.len();
    let mut tilesets: Vec<Tileset> = Vec::new();
    let mut t: usize = 0;
    while t < tileset_count
        invariant
            t <= tileset_count,
            tilesets@ == project.defs.tilesets@.take(t as int).filter_map(
                |td: TilesetDefinition| world_tileset(td),
            ),
        decreases tileset_count - t,
    {
        let tileset = &project.defs.tilesets[t];
        match &tileset.rel_path {
            Option::Some(path) => {
                tilesets.push(Tileset { id: tileset.uid, path: path.clone() });
            },
            Option::None => {},
        }
        proof {
            let fm = |td: TilesetDefinition| world_tileset(td);
            project.defs.tilesets@.lemma_filter_map_take_succ(fm, t as int);
        }
        t = t + 1;
    }
    proof {
        assert(project.defs.tilesets@.take(tileset_count as int) =~= project.defs.tilesets@);
    }

    let bg_color = match format_color(project.bg_color.as_str()) {
        Ok(c) => c,
        Err(e) => {
            proof {
                assert(color_check(project.bg_color@) == Err::<(), ErrorKind>(e.kind_spec()));
            }
            return Err(e);
        },
    };

    // Pass two: build every level against the completed registry.
    let mut levels: Vec<Level> = Vec::new();
    let mut l2: usize = 0;
    while l2 < level_count
        invariant
            l2 <= level_count,
            levels@.len() == l2,
            levels_check(*defs, project.levels@, l2 as int) == levels_check(
                *defs,
                project.levels@,
                0,
            ),
            forall|j: int|
                0 <= j < l2 ==> level_built(*defs, project.levels@[j], #[trigger] levels@[j]),
        decreases level_count - l2,
    {
        let level_json = &project.levels[l2];
        let level_bg = match format_color(level_json.bg_color.as_str()) {
            Ok(c) => c,
            Err(e) => {
                proof {
                    assert(level_check(*defs, project.levels@[l2 as int]) == Err::<
                        (),
                        ErrorKind,
                    >(e.kind_spec()));
                }
                return Err(e);
            },
        };
        let instances = match &level_json.layer_instances {
            Option::Some(instances) => instances,
            Option::None => {
                proof {
                    assert(false);
                }
                return Err(
                    Error::UnsupportedFieldType("External levels are not supported yet.".to_owned()),
                );
            },
        };
        let layer_count = instances.len();
        let mut layers: Vec<LayerData> = Vec::new();
        let mut ly: usize = 0;
        while ly < layer_count
            invariant
                ly <= layer_count,
                layers@.len() == ly,
                project.levels@[l2 as int].layer_instances is Some,
                instances@ == level_instances(project.levels@[l2 as int]),
                layer_count == instances@.len(),
                layer_instances_check(*defs, instances@, ly as int) == layer_instances_check(
                    *defs,
                    instances@,
                    0,
                ),
                forall|j: int|
                    0 <= j < ly ==> layer_built(
                        *defs,
                        level_instances(project.levels@[l2 as int])[j],
                        #[trigger] layers@[j],
                    ),
            decreases layer_count - ly,
        {
            let layer_json = &instances[ly];
            let built: LayerData = match assoc_get_str(
                &defs.layers,
                layer_json.identifier.as_str(),
            ) {
                Option::None => {
                    proof {
                        assert(layer_instance_check(*defs, instances@[ly as int]) == Err::<
                            (),
                            ErrorKind,
                        >(ErrorKind::MissingDefinition));
                        assert(level_check(*defs, project.levels@[l2 as int]) == Err::<
                            (),
                            ErrorKind,
                        >(ErrorKind::MissingDefinition));
                    }
                    return Err(
                        Error::MissingDefinition(
                            "Layer instance has no matching definition!".to_owned(),
                        ),
                    );
                },
                Option::Some(RsLayerDefinition::IntGrid(definition)) => {
                    match int_grid::layer_instance(definition, defs, layer_json) {
                        Ok(layer) => LayerData::IntGrid(layer),
                        Err(e) => {
                            proof {
                                assert(layer_instance_check(*defs, instances@[ly as int]) == Err::<
                                    (),
                                    ErrorKind,
                                >(e.kind_spec()));
                                assert(level_check(*defs, project.levels@[l2 as int]) == Err::<
                                    (),
                                    ErrorKind,
                                >(e.kind_spec()));
                            }
                            return Err(e);
                        },
                    }
                },
                Option::Some(RsLayerDefinition::Tiles(definition)) => {
                    match tiles::layer_instance(definition, defs, layer_json) {
                        Ok(layer) => LayerData::Tiles(layer),
                        Err(e) => {
                            proof {
                                assert(layer_instance_check(*defs, instances@[ly as int]) == Err::<
                                    (),
                                    ErrorKind,
                                >(e.kind_spec()));
                                assert(level_check(*defs, project.levels@[l2 as int]) == Err::<
                                    (),
                                    ErrorKind,
                                >(e.kind_spec()));
                            }
                            return Err(e);
                        },
                    }
                },
                Option::Some(RsLayerDefinition::Entities) => {
                    match entities::layer_instance(defs, layer_json) {
                        Ok(layer) => LayerData::Entities(layer),
                        Err(e) => {
                            proof {
                                assert(layer_instance_check(*defs, instances@[ly as int]) == Err::<
                                    (),
                                    ErrorKind,
                                >(e.kind_spec()));
                                assert(level_check(*defs, project.levels@[l2 as int]) == Err::<
                                    (),
                                    ErrorKind,
                                >(e.kind_spec()));
                            }
                            return Err(e);
                        },
                    }
                },
            };
            layers.push(built);
            ly = ly + 1;
        }
        let field_count = level_json.field_instances.len();
        let mut fields: Vec<(String, TypedLiteral)> = Vec::new();
        let mut f: usize = 0;
        while f < field_count
            invariant
                f <= field_count,
                fields@.len() == f,
                field_count == project.levels@[l2 as int].field_instances@.len(),
                level_fields_check(
                    *defs,
                    project.levels@[l2 as int].field_instances@,
                    f as int,
                ) == level_fields_check(*defs, project.levels@[l2 as int].field_instances@, 0),
                layer_instances_check(*defs, instances@, 0) == Ok::<(), ErrorKind>(()),
                instances@ == level_instances(project.levels@[l2 as int]),
                project.levels@[l2 as int].layer_instances is Some,
                forall|j: int|
                    0 <= j < f ==> {
                        let field = #[trigger] fields@[j];
                        &&& field.0@ == project.levels@[l2 as int].field_instances@[j].identifier@
                        &&& (assoc_find_str(
                            defs.level.fields@,
                            project.levels@[l2 as int].field_instances@[j].identifier@,
                        ) matches Some(ty) && {
                            &&& coerce_spec(
                                ty,
                                *defs,
                                project.levels@[l2 as int].field_instances@[j].value,
                            ) is Ok
                            &&& lit_matches(
                                field.1,
                                coerce_spec(
                                    ty,
                                    *defs,
                                    project.levels@[l2 as int].field_instances@[j].value,
                                )->Ok_0,
                            )
                        })
                    },
            decreases field_count - f,
        {
            let field = &level_json.field_instances[f];
            let field_type = match assoc_get_str(&defs.level.fields, field.identifier.as_str()) {
                Option::Some(ty) => ty,
                Option::None => {
                    proof {
                        assert(level_field_check(
                            *defs,
                            project.levels@[l2 as int].field_instances@[f as int],
                        ) == Err::<(), ErrorKind>(ErrorKind::MissingDefinition));
                        assert(level_check(*defs, project.levels@[l2 as int]) == Err::<
                            (),
                            ErrorKind,
                        >(ErrorKind::MissingDefinition));
                    }
                    return Err(
                        Error::MissingDefinition(
                            "Level field was not found in definition!".to_owned(),
                        ),
                    );
                },
            };
            let value_ref = field.value.as_ref();
            proof {
                assert(crate::definitions::opt_value(value_ref) == field.value);
            }
            match field_type.fmt_value(defs, value_ref) {
                Ok(lit) => {
                    fields.push((field.identifier.clone(), lit));
                },
                Err(e) => {
                    proof {
                        assert(level_field_check(
                            *defs,
                            project.levels@[l2 as int].field_instances@[f as int],
                        ) == Err::<(), ErrorKind>(e.kind_spec()));
                        assert(level_check(*defs, project.levels@[l2 as int]) == Err::<
                            (),
                            ErrorKind,
                        >(e.kind_spec()));
                    }
                    return Err(e);
                },
            }
            f = f + 1;
        }
        levels.push(
            Level {
                identifier: level_json.identifier.clone(),
                bg_color: level_bg,
                pixel_size: Vec2 { x: level_json.px_wid, y: level_json.px_hei },
                world_depth: level_json.world_depth,
                world_x: level_json.world_x,
                world_y: level_json.world_y,
                layers,
                fields,
            },
        );
        proof {
            let built = levels@[l2 as int];
            assert(level_fields_match(
                *defs,
                project.levels@[l2 as int].field_instances@,
                built.fields@,
            ));
            assert forall|j4: int| 0 <= j4 < built.layers@.len() implies layer_built(
                *defs,
                level_instances(project.levels@[l2 as int])[j4],
                #[trigger] built.layers@[j4],
            ) by {}
            assert(level_built(*defs, project.levels@[l2 as int], built));
            assert(level_check(*defs, project.levels@[l2 as int]) == Ok::<(), ErrorKind>(()));
        }
        l2 = l2 + 1;
    }
    let world = World { tilesets, bg_color, levels };
    proof {
        assert(world.wf()) by {
            assert forall|i: int| 0 <= i < world.levels@.len() implies (
            #[trigger] world.levels@[i]).wf() by {
                assert(level_built(*defs, project.levels@[i], world.levels@[i]));
                assert forall|ly3: int|
                    0 <= ly3 < world.levels@[i].layers@.len() implies (
                #[trigger] world.levels@[i].layers@[ly3]).wf() by {
                    assert(layer_built(
                        *defs,
                        level_instances(project.levels@[i])[ly3],
                        world.levels@[i].layers@[ly3],
                    ));
                }
            }
        }
        assert(world_check(*defs, *project) == Ok::<(), ErrorKind>(()));
    }
    Ok(world)
}

/// The layer definitions compile in declared order: a standalone
/// auto-layer is an explicit unsupported case, an autotiled int-grid needs
/// a tileset id, and so does a tile layer.
pub open spec fn layer_definitions_check(layers: Seq<LayerDefinition>, i: int) -> Result<
    (),
    ErrorKind,
>
    decreases layers.len() - i + 1,
{
    if i >= layers.len() {
        Ok(())
    } else {
        let decl = layers[i];
        match decl.purple_type {
            schema::Type::AutoLayer => Err(ErrorKind::UnsupportedFieldType),
            schema::Type::IntGrid => if decl.auto_rule_groups@.len() > 0
                && decl.tileset_def_uid is None {
                Err(ErrorKind::SchemaError)
            } else {
                layer_definitions_check(layers, i + 1)
            },
            schema::Type::Tiles => if decl.tileset_def_uid is None {
                Err(ErrorKind::SchemaError)
            } else {
                layer_definitions_check(layers, i + 1)
            },
            schema::Type::Entities => layer_definitions_check(layers, i + 1),
        }
    }
}

/// The level-scoped field types resolve in declared order; the first
/// unresolved descriptor is an unsupported field type.
pub open spec fn level_field_defs_check(fds: Seq<FieldDefinition>, i: int) -> Result<
    (),
    ErrorKind,
>
    decreases fds.len() - i + 1,
{
    if i >= fds.len() {
        Ok(())
    } else if !parse_ok(fds[i].field_definition_type@) {
        Err(ErrorKind::UnsupportedFieldType)
    } else {
        level_field_defs_check(fds, i + 1)
    }
}

/// Everything the whole compilation checks, in the order it checks it:
/// entity types, layer definitions, level-scoped field types, and then
/// world assembly. Compilation succeeds exactly when this passes, and
/// aborts with exactly the error this names.
pub open spec fn generate_check(
    defs_before: RsDefinitions,
    defs_after: RsDefinitions,
    project: LdtkJson,
) -> Result<(), ErrorKind> {
    match entities_check(project.defs.entities@, defs_before.tilesets@, 0) {
        Err(e) => Err(e),
        Ok(_) => match layer_definitions_check(project.defs.layers@, 0) {
            Err(e) => Err(e),
            Ok(_) => match level_field_defs_check(project.defs.level_fields@, 0) {
                Err(e) => Err(e),
                Ok(_) => world_check(defs_after, project),
            },
        },
    }
}

/// Compiles every declared definition and assembles the world: entity
/// types first, then the layer definitions in declared order, then the
/// level-scoped field types, and finally the world itself. A layer
/// declared as a standalone auto-layer is an explicit unsupported case.
#[verifier::loop_isolation(false)]
pub fn generate_levels(defs: &mut RsDefinitions, project: &LdtkJson) -> (r: Result<World, Error>)
    ensures
        match r {
            Ok(world) => {
                &&& generate_check(*old(defs), *final(defs), *project) == Ok::<(), ErrorKind>(())
                &&& forall|i: int|
                    0 <= i < project.defs.layers@.len() ==> (#[trigger] project.defs.layers@[i]).purple_type
                        != schema::Type::AutoLayer
                &&& final(defs).layers@.len() == old(defs).layers@.len()
                    + project.defs.layers@.len()
                &&& final(defs).layers@.take(old(defs).layers@.len() as int) == old(defs).layers@
                &&& forall|i: int|
                    0 <= i < project.defs.layers@.len() ==> {
                        let entry = #[trigger] final(defs).layers@[old(defs).layers@.len() + i];
                        let decl = project.defs.layers@[i];
                        &&& entry.0@ == decl.identifier@
                        &&& match decl.purple_type {
                            schema::Type::IntGrid => entry.1 matches RsLayerDefinition::IntGrid(d)
                                && d.grid_size == decl.grid_size && tile_variants_match(
                                decl.int_grid_values@,
                                d.tile_variants@,
                            ) && (d.auto_layer is Some <==> decl.auto_rule_groups@.len() > 0),
                            schema::Type::Tiles => entry.1 matches RsLayerDefinition::Tiles(d)
                                && d.grid_size == decl.grid_size,
                            schema::Type::Entities => entry.1 is Entities,
                            schema::Type::AutoLayer => false,
                        }
                    }
                &&& final(defs).level.fields@.len() == old(defs).level.fields@.len()
                    + project.defs.level_fields@.len()
                &&& final(defs).level.fields@.take(old(defs).level.fields@.len() as int) == old(
                    defs,
                ).level.fields@
                &&& forall|i: int|
                    0 <= i < project.defs.level_fields@.len() ==> {
                        let entry = #[trigger] final(defs).level.fields@[old(
                            defs,
                        ).level.fields@.len() + i];
                        &&& entry.0@ == project.defs.level_fields@[i].identifier@
                        &&& parse_result_matches(
                            project.defs.level_fields@[i].field_definition_type@,
                            project.defs.level_fields@[i].can_be_null,
                            Ok(entry.1),
                        )
                    }
                &&& world.wf()
                &&& world.bg_color == color_of_text(project.bg_color@)
                &&& world.tilesets@ == project.defs.tilesets@.filter_map(
                    |t: TilesetDefinition| world_tileset(t),
                )
                &&& world.levels@.len() == project.levels@.len()
                &&& forall|l: int|
                    0 <= l < project.levels@.len() ==> level_built(
                        *final(defs),
                        project.levels@[l],
                        #[trigger] world.levels@[l],
                    )
                &&& old(defs).entity_instances@.is_prefix_of(final(defs).entity_instances@)
                &&& forall|i: int|
                    old(defs).entity_instances@.len() <= i
                        < final(defs).entity_instances@.len() ==> {
                        let entry = #[trigger] final(defs).entity_instances@[i];
                        occurs_at(
                            *project,
                            entry.0@,
                            entry.1.level as int,
                            entry.1.layer as int,
                            entry.1.entity as int,
                        )
                    }
                &&& forall|l: int, ly: int, en: int|
                    {
                        (0 <= l < project.levels@.len() && 0 <= ly < level_instances(
                            project.levels@[l],
                        ).len() && 0 <= en < level_instances(
                            project.levels@[l],
                        )[ly].entity_instances@.len()) ==> assoc_find_str(
                            final(defs).entity_instances@,
                            (#[trigger] level_instances(
                                project.levels@[l],
                            )[ly].entity_instances@[en]).iid@,
                        ) is Some
                    }
            },
            Err(e) => generate_check(*old(defs), *final(defs), *project) == Err::<
                (),
                ErrorKind,
            >(e.kind_spec()),
        },
{
    match entities::definitions(defs, project) {
        Ok(_) => {},
        Err(e) => {
            return Err(e);
        },
    }
    let layer_count = project.defs.layers.len();
    let ghost old_layers = defs.layers@;
    let mut i: usize = 0;
    while i < layer_count
        invariant
            i <= layer_count,
            layer_count == project.defs.layers@.len(),
            defs.layers@.len() == old_layers.len() + i,
            defs.layers@.take(old_layers.len() as int) == old_layers,
            defs.tilesets == old(defs).tilesets,
            defs.level == old(defs).level,
            defs.entity_instances == old(defs).entity_instances,
            layer_definitions_check(project.defs.layers@, i as int) == layer_definitions_check(
                project.defs.layers@,
                0,
            ),
            forall|j: int|
                0 <= j < i ==> (#[trigger] project.defs.layers@[j]).purple_type
                    != schema::Type::AutoLayer,
            forall|j: int|
                0 <= j < i ==> {
                    let entry = #[trigger] defs.layers@[old_layers.len() + j];
                    let decl = project.defs.layers@[j];
                    &&& entry.0@ == decl.identifier@
                    &&& match decl.purple_type {
                        schema::Type::IntGrid => entry.1 matches RsLayerDefinition::IntGrid(d)
                            && d.grid_size == decl.grid_size && tile_variants_match(
                            decl.int_grid_values@,
                            d.tile_variants@,
                        ) && (d.auto_layer is Some <==> decl.auto_rule_groups@.len() > 0),
                        schema::Type::Tiles => entry.1 matches RsLayerDefinition::Tiles(d)
                            && d.grid_size == decl.grid_size,
                        schema::Type::Entities => entry.1 is Entities,
                        schema::Type::AutoLayer => false,
                    }
                },
        decreases layer_count - i,
    {
        let layer_json = &project.defs.layers[i];
        let ghost pre_layers = defs.layers@;
        match layer_json.purple_type {
            schema::Type::IntGrid => {
                match int_grid::layer_definition(defs, layer_json) {
                    Ok(_) => {},
                    Err(e) => {
                        return Err(e);
                    },
                }
            },
            schema::Type::Tiles => {
                match tiles::layer_definition(defs, layer_json) {
                    Ok(_) => {},
                    Err(e) => {
                        return Err(e);
                    },
                }
            },
            schema::Type::AutoLayer => {
                return Err(
                    Error::UnsupportedFieldType(
                        "Standalone auto layers are not supported yet.".to_owned(),
                    ),
                );
            },
            schema::Type::Entities => {
                entities::layer_definition(defs, layer_json);
            },
        }
        proof {
            assert(defs.layers@.take(old_layers.len() as int) =~= pre_layers.take(
                old_layers.len() as int,
            ));
            assert(defs.layers@.drop_last() == pre_layers);
            assert forall|j: int| 0 <= j < i implies #[trigger] defs.layers@[old_layers.len() + j]
                == pre_layers[old_layers.len() + j] by {
                assert(defs.layers@[old_layers.len() + j] == defs.layers@.drop_last()[old_layers.len()
                    + j]);
            }
            assert(defs.layers@[old_layers.len() + i as int] == defs.layers@.last());
        }
        i = i + 1;
    }
    let field_count = project.defs.level_fields.len();
    let ghost old_fields = defs.level.fields@;
    let ghost layers_after = defs.layers@;
    let mut f: usize = 0;
    while f < field_count
        invariant
            f <= field_count,
            field_count == project.defs.level_fields@.len(),
            defs.level.fields@.len() == old_fields.len() + f,
            defs.level.fields@.take(old_fields.len() as int) == old_fields,
            defs.layers@ == layers_after,
            defs.tilesets == old(defs).tilesets,
            defs.entity_instances == old(defs).entity_instances,
            level_field_defs_check(project.defs.level_fields@, f as int)
                == level_field_defs_check(project.defs.level_fields@, 0),
            forall|j: int|
                0 <= j < f ==> {
                    let entry = #[trigger] defs.level.fields@[old_fields.len() + j];
                    &&& entry.0@ == project.defs.level_fields@[j].identifier@
                    &&& parse_result_matches(
                        project.defs.level_fields@[j].field_definition_type@,
                        project.defs.level_fields@[j].can_be_null,
                        Ok(entry.1),
                    )
                },
        decreases field_count - f,
    {
        let field = &project.defs.level_fields[f];
        match RsFieldType::parse(field) {
            Ok(rs_type) => {
                let ghost pre_fields = defs.level.fields@;
                defs.level.fields.push((field.identifier.clone(), rs_type));
                proof {
                    assert(defs.level.fields@.take(old_fields.len() as int) =~= pre_fields.take(
                        old_fields.len() as int,
                    ));
                }
            },
            Err(e) => {
                return Err(e);
            },
        }
        f = f + 1;
    }
    generate_world(defs, project)
}


/// Entity reference round trip: in an assembled world, a reference that
/// the entity index resolved to a coordinate triple of an entity-bearing
/// layer finds, in the world, exactly the instance placed at that triple.
pub proof fn lemma_entity_ref_round_trip(
    defs: RsDefinitions,
    project: LdtkJson,
    world: World,
    iid: Seq<char>,
    r: EntityRef,
)
    requires
        world.levels@.len() == project.levels@.len(),
        forall|l: int|
            0 <= l < project.levels@.len() ==> level_built(
                defs,
                project.levels@[l],
                #[trigger] world.levels@[l],
            ),
        assoc_find_str(defs.entity_instances@, iid) == Some(
            RsEntityInstance { level: r.level, layer: r.layer, entity: r.entity },
        ),
        forall|i: int|
            0 <= i < defs.entity_instances@.len() ==> {
                let entry = #[trigger] defs.entity_instances@[i];
                occurs_at(
                    project,
                    entry.0@,
                    entry.1.level as int,
                    entry.1.layer as int,
                    entry.1.entity as int,
                )
            },
        assoc_find_str(
            defs.layers@,
            level_instances(project.levels@[r.level as int])[r.layer as int].identifier@,
        ) == Some(RsLayerDefinition::Entities),
    ensures
        r.resolves(world),
        entity_object_matches(
            defs,
            level_instances(project.levels@[r.level as int])[r.layer as int].entity_instances@[r.entity as int],
            r.resolved_entity(world),
        ),
{
    lemma_assoc_find_some_str(defs.entity_instances@, iid);
    let i = choose|i: int|
        0 <= i < defs.entity_instances@.len() && (#[trigger] defs.entity_instances@[i]).0@ == iid
            && defs.entity_instances@[i].1 == assoc_find_str(defs.entity_instances@, iid)->0;
    let entry = defs.entity_instances@[i];
    assert(occurs_at(
        project,
        entry.0@,
        entry.1.level as int,
        entry.1.layer as int,
        entry.1.entity as int,
    ));
    let lv = r.level as int;
    let ly = r.layer as int;
    let en = r.entity as int;
    let inst = level_instances(project.levels@[lv])[ly];
    assert(level_built(defs, project.levels@[lv], world.levels@[lv]));
    assert(layer_built(defs, inst, world.levels@[lv].layers@[ly]));
    assert(world.levels@[lv].layers@[ly] matches LayerData::Entities(el)
        && entities_layer_matches(defs, inst, el));
    assert(entity_object_matches(
        defs,
        inst.entity_instances@[en],
        world.levels@[lv].layers@[ly]->Entities_0.entities@[en],
    ));
}

} // verus!
