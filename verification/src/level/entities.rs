//! Building entities: the per-entity-type definitions with their typed
//! fields and render modes, and the entity layer instances with their
//! coerced field payloads.

use crate::definitions::{
    coerce_spec, lit_matches, parse_ok, parse_result_matches, Error, ErrorKind, RsDefinitions,
    RsEntityDefinition, RsFieldType, RsLayerDefinition,
};
use crate::header::{RenderMode, Vec2};
use crate::schema;
use crate::schema::{EntityDefinition, EntityInstance, FieldInstance, LayerDefinition, LayerInstance, LdtkJson};
use crate::table::{assoc_find_i64, assoc_find_str, assoc_get_i64, assoc_get_str};
use crate::world::{EntitiesLayer, Entity, EntityObject};
use vstd::prelude::*;

verus! {

/// Element-wise check that every declared field's descriptor resolves;
/// the first unresolved one is an unsupported field type.
pub open spec fn fields_check(fds: Seq<schema::FieldDefinition>, i: int) -> Result<(), ErrorKind>
    decreases fds.len() - i + 1,
{
    if i >= fds.len() {
        Ok(())
    } else if !parse_ok(fds[i].field_definition_type@) {
        Err(ErrorKind::UnsupportedFieldType)
    } else {
        fields_check(fds, i + 1)
    }
}

/// The conditions under which one entity type's render mode compiles, in
/// the order they are checked.
pub open spec fn render_check(
    e: EntityDefinition,
    tilesets: Seq<(i64, crate::definitions::RsTilesetDefinition)>,
) -> Result<(), ErrorKind> {
    match e.render_mode {
        schema::RenderMode::Tile => match e.tile_rect {
            Option::None => Err(ErrorKind::SchemaError),
            Option::Some(rect) => match e.tileset_id {
                Option::None => Err(ErrorKind::SchemaError),
                Option::Some(uid) => match assoc_find_i64(tilesets, uid) {
                    Option::None => Err(ErrorKind::MissingDefinition),
                    Option::Some(ts) => if ts.tile_size <= 0 {
                        Err(ErrorKind::SchemaError)
                    } else if rect.x < 0 || rect.y < 0 || rect.w < 0 || rect.h < 0 {
                        Err(ErrorKind::ValidationError)
                    } else {
                        Ok(())
                    },
                },
            },
        },
        _ => Ok(()),
    }
}

/// The compiled render mode of one entity type, meaningful when
/// `render_check` passes.
pub open spec fn render_mode_spec(
    e: EntityDefinition,
    tilesets: Seq<(i64, crate::definitions::RsTilesetDefinition)>,
) -> RenderMode {
    match e.render_mode {
        schema::RenderMode::Cross => RenderMode::Cross,
        schema::RenderMode::Ellipse => RenderMode::Ellipse,
        schema::RenderMode::Rectangle => RenderMode::Rectangle,
        schema::RenderMode::Tile => {
            let rect = e.tile_rect->0;
            let uid = e.tileset_id->0;
            let ts = assoc_find_i64(tilesets, uid)->0;
            RenderMode::Tile {
                tileset: uid,
                tile: Vec2 {
                    x: (rect.x as int / ts.tile_size as int) as i64,
                    y: (rect.y as int / ts.tile_size as int) as i64,
                },
                size: Vec2 {
                    x: (rect.w as int / ts.tile_size as int) as i64,
                    y: (rect.h as int / ts.tile_size as int) as i64,
                },
            }
        },
    }
}

/// Per-entity-type check: the declared fields resolve, then the render
/// mode compiles; the first failing entity names the error.
pub open spec fn entities_check(
    es: Seq<EntityDefinition>,
    tilesets: Seq<(i64, crate::definitions::RsTilesetDefinition)>,
    i: int,
) -> Result<(), ErrorKind>
    decreases es.len() - i + 1,
{
    if i >= es.len() {
        Ok(())
    } else {
        match fields_check(es[i].field_defs@, 0) {
            Err(e) => Err(e),
            Ok(_) => match render_check(es[i], tilesets) {
                Err(e) => Err(e),
                Ok(_) => entities_check(es, tilesets, i + 1),
            },
        }
    }
}

/// Whether `def` is the compiled definition of the entity type `e`: every
/// declared field resolved in order, and the render mode compiled.
pub open spec fn entity_definition_matches(
    e: EntityDefinition,
    tilesets: Seq<(i64, crate::definitions::RsTilesetDefinition)>,
    def: RsEntityDefinition,
) -> bool {
    &&& def.fields@.len() == e.field_defs@.len()
    &&& forall|f: int|
        0 <= f < e.field_defs@.len() ==> (#[trigger] def.fields@[f]).0@
            == e.field_defs@[f].identifier@ && parse_result_matches(
            e.field_defs@[f].field_definition_type@,
            e.field_defs@[f].can_be_null,
            Ok(def.fields@[f].1),
        )
    &&& def.render_mode == render_mode_spec(e, tilesets)
}

/// Compiles every entity type of the project into the registry: its typed
/// fields and its render mode.
#[verifier::loop_isolation(false)]
pub fn definitions(defs: &mut RsDefinitions, project: &LdtkJson) -> (r: Result<(), Error>)
    ensures
        match r {
            Ok(_) => {
                &&& entities_check(
                    project.defs.entities@,
                    old(defs).tilesets@,
                    0,
                ) is Ok
                &&& final(defs).entities@.len() == old(defs).entities@.len()
                    + project.defs.entities@.len()
                &&& final(defs).entities@.take(old(defs).entities@.len() as int)
                    == old(defs).entities@
                &&& forall|e: int|
                    0 <= e < project.defs.entities@.len() ==> {
                        let entry = #[trigger] final(defs).entities@[old(defs).entities@.len() + e];
                        &&& entry.0@ == project.defs.entities@[e].identifier@
                        &&& entity_definition_matches(
                            project.defs.entities@[e],
                            old(defs).tilesets@,
                            entry.1,
                        )
                    }
                &&& final(defs).tilesets == old(defs).tilesets
                &&& final(defs).layers@ == old(defs).layers@
                &&& final(defs).level == old(defs).level
                &&& final(defs).entity_instances == old(defs).entity_instances
            },
            Err(e) => entities_check(project.defs.entities@, old(defs).tilesets@, 0)
                == Err::<(), ErrorKind>(e.kind_spec()),
        },
{
    let entity_count = project.defs.entities.len();
    let ghost old_entities = defs.entities@;
    let mut e: usize = 0;
    while e < entity_count
        invariant
            e <= entity_count,
            defs.entities@.len() == old_entities.len() + e,
            defs.entities@.take(old_entities.len() as int) == old_entities,
            entities_check(project.defs.entities@, defs.tilesets@, e as int)
                == entities_check(project.defs.entities@, defs.tilesets@, 0),
            forall|j: int|
                0 <= j < e ==> {
                    let entry = #[trigger] defs.entities@[old_entities.len() + j];
                    &&& entry.0@ == project.defs.entities@[j].identifier@
                    &&& entity_definition_matches(
                        project.defs.entities@[j],
                        defs.tilesets@,
                        entry.1,
                    )
                },
            defs.tilesets == old(defs).tilesets,
            defs.layers@ == old(defs).layers@,
            defs.level == old(defs).level,
            defs.entity_instances == old(defs).entity_instances,
        decreases entity_count - e,
    {
        let entity_json = &project.defs.entities[e];
        let field_count = entity_json.field_defs.len();
        let mut fields: Vec<(String, RsFieldType)> = Vec::new();
        let mut f: usize = 0;
        while f < field_count
            invariant
                f <= field_count,
                field_count == entity_json.field_defs@.len(),
                fields@.len() == f,
                fields_check(entity_json.field_defs@, f as int) == fields_check(
                    entity_json.field_defs@,
                    0,
                ),
                forall|j: int|
                    0 <= j < f ==> (#[trigger] fields@[j]).0@ == entity_json.field_defs@[j].identifier@
                        && parse_result_matches(
                        entity_json.field_defs@[j].field_definition_type@,
                        entity_json.field_defs@[j].can_be_null,
                        Ok(fields@[j].1),
                    ),
            decreases field_count - f,
        {
            let field = &entity_json.field_defs[f];
            match RsFieldType::parse(field) {
                Ok(rs_type) => {
                    fields.push((field.identifier.clone(), rs_type));
                },
                Err(err) => {
                    proof {
                        assert(!parse_ok(entity_json.field_defs@[f as int].field_definition_type@));
                        assert(fields_check(entity_json.field_defs@, f as int) == Err::<
                            (),
                            ErrorKind,
                        >(ErrorKind::UnsupportedFieldType));
                        lemma_entities_check_err(
                            project.defs.entities@,
                            defs.tilesets@,
                            e as int,
                        );
                    }
                    return Err(err);
                },
            }
            f = f + 1;
        }
        let render_mode: RenderMode = match entity_json.render_mode {
            schema::RenderMode::Cross => RenderMode::Cross,
            schema::RenderMode::Ellipse => RenderMode::Ellipse,
            schema::RenderMode::Rectangle => RenderMode::Rectangle,
            schema::RenderMode::Tile => {
                let rect = match &entity_json.tile_rect {
                    Option::Some(rect) => rect,
                    Option::None => {
                        proof {
                            lemma_entities_check_err(
                                project.defs.entities@,
                                defs.tilesets@,
                                e as int,
                            );
                        }
                        return Err(
                            Error::SchemaError("Tile render mode doesn't have tile rect!".to_owned()),
                        );
                    },
                };
                let tileset_id = match entity_json.tileset_id {
                    Option::Some(uid) => uid,
                    Option::None => {
                        proof {
                            lemma_entities_check_err(
                                project.defs.entities@,
                                defs.tilesets@,
                                e as int,
                            );
                        }
                        return Err(
                            Error::SchemaError(
                                "Tile render mode doesn't have tileset ID!".to_owned(),
                            ),
                        );
                    },
                };
                let tileset = match assoc_get_i64(&defs.tilesets, tileset_id) {
                    Option::Some(ts) => ts,
                    Option::None => {
                        proof {
                            lemma_entities_check_err(
                                project.defs.entities@,
                                defs.tilesets@,
                                e as int,
                            );
                        }
                        return Err(
                            Error::MissingDefinition("Entity tileset not found!".to_owned()),
                        );
                    },
                };
                if tileset.tile_size <= 0 {
                    proof {
                        lemma_entities_check_err(
                            project.defs.entities@,
                            defs.tilesets@,
                            e as int,
                        );
                    }
                    return Err(
                        Error::SchemaError("Tileset grid size should be positive!".to_owned()),
                    );
                }
                if rect.x < 0 || rect.y < 0 || rect.w < 0 || rect.h < 0 {
                    proof {
                        lemma_entities_check_err(
                            project.defs.entities@,
                            defs.tilesets@,
                            e as int,
                        );
                    }
                    return Err(
                        Error::ValidationError(
                            "Tile rect position should not be negative!".to_owned(),
                        ),
                    );
                }
                let tile_size = tileset.tile_size;
                RenderMode::Tile {
                    tileset: tileset_id,
                    tile: Vec2 { x: rect.x / tile_size, y: rect.y / tile_size },
                    size: Vec2 { x: rect.w / tile_size, y: rect.h / tile_size },
                }
            },
        };
        defs.entities.push(
            (entity_json.identifier.clone(), RsEntityDefinition { fields, render_mode }),
        );
        proof {
            assert(defs.entities@.take(old_entities.len() as int) =~= old_entities);
        }
        e = e + 1;
    }
    Ok(())
}

/// A failing entity makes the whole entity list fail with the same error.
proof fn lemma_entities_check_err(
    es: Seq<EntityDefinition>,
    tilesets: Seq<(i64, crate::definitions::RsTilesetDefinition)>,
    k: int,
)
    requires
        0 <= k < es.len(),
        entities_check(es, tilesets, k) == entities_check(es, tilesets, 0),
    ensures
        match fields_check(es[k].field_defs@, 0) {
            Err(e) => entities_check(es, tilesets, 0) == Err::<(), ErrorKind>(e),
            Ok(_) => match render_check(es[k], tilesets) {
                Err(e) => entities_check(es, tilesets, 0) == Err::<(), ErrorKind>(e),
                Ok(_) => true,
            },
        },
{
}

/// Registers one entities layer definition.
pub fn layer_definition(definitions: &mut RsDefinitions, layer_json: &LayerDefinition)
    ensures
        final(definitions).layers@.len() == old(definitions).layers@.len() + 1,
        final(definitions).layers@.drop_last() == old(definitions).layers@,
        final(definitions).layers@.last().0@ == layer_json.identifier@,
        final(definitions).layers@.last().1 is Entities,
        final(definitions).tilesets == old(definitions).tilesets,
        final(definitions).entities@ == old(definitions).entities@,
        final(definitions).level == old(definitions).level,
        final(definitions).entity_instances == old(definitions).entity_instances,
{
    definitions.layers.push((layer_json.identifier.clone(), RsLayerDefinition::Entities));
    proof {
        assert(final(definitions).layers@.drop_last() =~= old(definitions).layers@);
    }
}

/// Element-wise check of one instance's fields against its entity type's
/// definition: each must be declared and its raw value must coerce.
pub open spec fn field_values_check(
    def_fields: Seq<(String, RsFieldType)>,
    fis: Seq<FieldInstance>,
    defs: RsDefinitions,
    i: int,
) -> Result<(), ErrorKind>
    decreases fis.len() - i + 1,
{
    if i >= fis.len() {
        Ok(())
    } else {
        match assoc_find_str(def_fields, fis[i].identifier@) {
            Option::None => Err(ErrorKind::MissingDefinition),
            Option::Some(ty) => match coerce_spec(ty, defs, fis[i].value) {
                Err(e) => Err(e),
                Ok(_) => field_values_check(def_fields, fis, defs, i + 1),
            },
        }
    }
}

/// Per-instance check: the entity type must be defined and every field
/// instance must coerce; the first failing instance names the error.
pub open spec fn entity_objects_check(
    defs: RsDefinitions,
    eis: Seq<EntityInstance>,
    i: int,
) -> Result<(), ErrorKind>
    decreases eis.len() - i + 1,
{
    if i >= eis.len() {
        Ok(())
    } else {
        match assoc_find_str(defs.entities@, eis[i].identifier@) {
            Option::None => Err(ErrorKind::MissingDefinition),
            Option::Some(def) => match field_values_check(def.fields@, eis[i].field_instances@, defs, 0) {
                Err(e) => Err(e),
                Ok(_) => entity_objects_check(defs, eis, i + 1),
            },
        }
    }
}

/// Whether `obj` is the built placement of the instance `ei`: payload
/// fields coerced in instance order, anchor and size taken verbatim.
pub open spec fn entity_object_matches(defs: RsDefinitions, ei: EntityInstance, obj: EntityObject) -> bool {
    &&& obj.entity.identifier@ == ei.identifier@
    &&& obj.position == ei.px
    &&& obj.size == (Vec2 { x: ei.width, y: ei.height })
    &&& obj.entity.fields@.len() == ei.field_instances@.len()
    &&& forall|f: int|
        0 <= f < ei.field_instances@.len() ==> {
            let field = #[trigger] obj.entity.fields@[f];
            &&& field.0@ == ei.field_instances@[f].identifier@
            &&& (assoc_find_str(defs.entities@, ei.identifier@) matches Some(def) && {
                &&& assoc_find_str(def.fields@, ei.field_instances@[f].identifier@) matches Some(
                    ty,
                ) && {
                    &&& coerce_spec(ty, defs, ei.field_instances@[f].value) is Ok
                    &&& lit_matches(
                        field.1,
                        coerce_spec(ty, defs, ei.field_instances@[f].value)->Ok_0,
                    )
                }
            })
        }
}

/// Whether `layer` is the built form of the instance `inst`: one placement
/// per entity instance, in order, each payload coerced.
pub open spec fn entities_layer_matches(
    defs: RsDefinitions,
    inst: LayerInstance,
    layer: EntitiesLayer,
) -> bool {
    &&& layer.identifier@ == inst.identifier@
    &&& layer.size == (Vec2 { x: inst.c_wid, y: inst.c_hei })
    &&& layer.entities@.len() == inst.entity_instances@.len()
    &&& forall|e: int|
        0 <= e < inst.entity_instances@.len() ==> entity_object_matches(
            defs,
            inst.entity_instances@[e],
            #[trigger] layer.entities@[e],
        )
}

/// Materializes one entities layer instance: the ordered sequence of
/// entity placements, each payload coerced against its type's definition.
#[verifier::loop_isolation(false)]
pub fn layer_instance(definitions: &RsDefinitions, layer_json: &LayerInstance) -> (r: Result<
    EntitiesLayer,
    Error,
>)
    ensures
        match r {
            Ok(layer) => entity_objects_check(*definitions, layer_json.entity_instances@, 0) is Ok
                && entities_layer_matches(*definitions, *layer_json, layer),
            Err(e) => entity_objects_check(*definitions, layer_json.entity_instances@, 0) == Err::<
                (),
                ErrorKind,
            >(e.kind_spec()),
        },
{
    let instance_count = layer_json.entity_instances.len();
    let mut entities: Vec<EntityObject> = Vec::new();
    let mut e: usize = 0;
    while e < instance_count
        invariant
            e <= instance_count,
            instance_count == layer_json.entity_instances@.len(),
            entities@.len() == e,
            entity_objects_check(*definitions, layer_json.entity_instances@, e as int)
                == entity_objects_check(*definitions, layer_json.entity_instances@, 0),
            forall|j: int|
                0 <= j < e ==> entity_object_matches(
                    *definitions,
                    layer_json.entity_instances@[j],
                    #[trigger] entities@[j],
                ),
        decreases instance_count - e,
    {
        let entity = &layer_json.entity_instances[e];
        let definition = match assoc_get_str(&definitions.entities, entity.identifier.as_str()) {
            Option::Some(d) => d,
            Option::None => {
                return Err(
                    Error::MissingDefinition("Entity from level was not found!".to_owned()),
                );
            },
        };
        let field_count = entity.field_instances.len();
        let mut fields: Vec<(String, crate::definitions::TypedLiteral)> = Vec::new();
        let mut f: usize = 0;
        while f < field_count
            invariant
                f <= field_count,
                field_count == entity.field_instances@.len(),
                fields@.len() == f,
                field_values_check(definition.fields@, entity.field_instances@, *definitions, f as int)
                    == field_values_check(
                    definition.fields@,
                    entity.field_instances@,
                    *definitions,
                    0,
                ),
                forall|j: int|
                    0 <= j < f ==> {
                        let field = #[trigger] fields@[j];
                        &&& field.0@ == entity.field_instances@[j].identifier@
                        &&& (assoc_find_str(
                            definition.fields@,
                            entity.field_instances@[j].identifier@,
                        ) matches Some(ty) && {
                            &&& coerce_spec(ty, *definitions, entity.field_instances@[j].value) is Ok
                            &&& lit_matches(
                                field.1,
                                coerce_spec(
                                    ty,
                                    *definitions,
                                    entity.field_instances@[j].value,
                                )->Ok_0,
                            )
                        })
                    },
            decreases field_count - f,
        {
            let field = &entity.field_instances[f];
            let field_type = match assoc_get_str(&definition.fields, field.identifier.as_str()) {
                Option::Some(ty) => ty,
                Option::None => {
                    return Err(
                        Error::MissingDefinition(
                            "Entity field was not found in definition!".to_owned(),
                        ),
                    );
                },
            };
            let value_ref = field.value.as_ref();
            proof {
                assert(crate::definitions::opt_value(value_ref) == field.value);
            }
            match field_type.fmt_value(definitions, value_ref) {
                Ok(lit) => {
                    fields.push((field.identifier.clone(), lit));
                },
                Err(err) => {
                    return Err(err);
                },
            }
            f = f + 1;
        }
        entities.push(
            EntityObject {
                entity: Entity { identifier: entity.identifier.clone(), fields },
                position: entity.px,
                size: Vec2 { x: entity.width, y: entity.height },
            },
        );
        e = e + 1;
    }
    Ok(
        EntitiesLayer {
            identifier: layer_json.identifier.clone(),
            size: Vec2 { x: layer_json.c_wid, y: layer_json.c_hei },
            entities,
        },
    )
}

} // verus!
