//! Compiling the project's definitions: the tileset registry that every
//! pixel-to-cell conversion consults, and the enum models with their
//! per-case colors and icon cells.

use crate::definitions::{Error, ErrorKind, RsDefinitions, RsTilesetDefinition};
use crate::header::{Color, Vec2};
use crate::schema::{EnumDefinition, EnumValueDefinition, LdtkJson, TilesetDefinition};
use crate::table::{assoc_find_i64, assoc_get_i64};
use vstd::prelude::*;
use vstd::seq_lib::*;

verus! {

/// One enum case of the compiled model: its name, its display color, and
/// the cell of its icon within the enum's icon tileset.
#[derive(Debug)]
pub struct EnumVariantModel {
    pub id: String,
    pub color: Option<Color>,
    pub icon: Option<Vec2>,
}

/// One compiled enum: its cases in declared order.
#[derive(Debug)]
pub struct EnumModel {
    pub identifier: String,
    pub icon_tileset: Option<i64>,
    pub variants: Vec<EnumVariantModel>,
}

/// The registry entry of one declared tileset.
pub open spec fn tileset_entry(t: TilesetDefinition) -> (i64, RsTilesetDefinition) {
    (t.uid, RsTilesetDefinition { tile_size: t.tile_grid_size })
}

/// The display color of an enum case: non-negative declared colors unpack
/// as `0xRRGGBBAA` words.
pub open spec fn variant_color(c: i64) -> Option<Color> {
    if c >= 0 {
        let hex = (c & 0xffffffff) as u32;
        Option::Some(
            Color {
                r: (hex >> 24 & 0xff) as u8,
                g: (hex >> 16 & 0xff) as u8,
                b: (hex >> 8 & 0xff) as u8,
                a: (hex & 0xff) as u8,
            },
        )
    } else {
        Option::None
    }
}

/// The icon cell of one enum case, meaningful when the checks pass.
pub open spec fn variant_icon(
    v: EnumValueDefinition,
    icon_tileset: Option<i64>,
    tilesets: Seq<(i64, RsTilesetDefinition)>,
) -> Option<Vec2> {
    match icon_tileset {
        Option::None => Option::None,
        Option::Some(uid) => match v.tile_rect {
            Option::None => Option::None,
            Option::Some(rect) => {
                let ts = assoc_find_i64(tilesets, uid)->0;
                Option::Some(
                    Vec2 {
                        x: (rect.x as int / ts.tile_size as int) as i64,
                        y: (rect.y as int / ts.tile_size as int) as i64,
                    },
                )
            },
        },
    }
}

/// Per-case check of one enum's icons, when an icon tileset is declared.
pub open spec fn enum_values_check(
    values: Seq<EnumValueDefinition>,
    icon_tileset: Option<i64>,
    tilesets: Seq<(i64, RsTilesetDefinition)>,
    j: int,
) -> Result<(), ErrorKind>
    decreases values.len() - j + 1,
{
    if j >= values.len() {
        Ok(())
    } else {
        match (icon_tileset, values[j].tile_rect) {
            (Option::Some(uid), Option::Some(rect)) => match assoc_find_i64(tilesets, uid) {
                Option::None => Err(ErrorKind::MissingDefinition),
                Option::Some(ts) => if ts.tile_size <= 0 {
                    Err(ErrorKind::SchemaError)
                } else if rect.x < 0 || rect.y < 0 {
                    Err(ErrorKind::ValidationError)
                } else {
                    enum_values_check(values, icon_tileset, tilesets, j + 1)
                },
            },
            _ => enum_values_check(values, icon_tileset, tilesets, j + 1),
        }
    }
}

/// Per-enum check; the first failing case names the error.
pub open spec fn enums_check(
    enums: Seq<EnumDefinition>,
    tilesets: Seq<(i64, RsTilesetDefinition)>,
    i: int,
) -> Result<(), ErrorKind>
    decreases enums.len() - i + 1,
{
    if i >= enums.len() {
        Ok(())
    } else {
        match enum_values_check(enums[i].values@, enums[i].icon_tileset_uid, tilesets, 0) {
            Err(e) => Err(e),
            Ok(_) => enums_check(enums, tilesets, i + 1),
        }
    }
}

/// Whether `m` is the compiled model of the declared enum `e`.
pub open spec fn enum_model_matches(
    e: EnumDefinition,
    tilesets: Seq<(i64, RsTilesetDefinition)>,
    m: EnumModel,
) -> bool {
    &&& m.identifier@ == e.identifier@
    &&& m.icon_tileset == e.icon_tileset_uid
    &&& m.variants@.len() == e.values@.len()
    &&& forall|v: int|
        0 <= v < e.values@.len() ==> {
            let variant = #[trigger] m.variants@[v];
            &&& variant.id@ == e.values@[v].id@
            &&& variant.color == variant_color(e.values@[v].color)
            &&& variant.icon == variant_icon(e.values@[v], e.icon_tileset_uid, tilesets)
        }
}

/// Compiles the project's definitions: registers every tileset's pixel
/// grid, then compiles every enum into its model. The registry is filled
/// before any enum icon consults it.
#[verifier::loop_isolation(false)]
pub fn generate_defs(defs: &mut RsDefinitions, project: &LdtkJson) -> (r: Result<
    Vec<EnumModel>,
    Error,
>)
    ensures
        final(defs).tilesets@ == old(defs).tilesets@ + project.defs.tilesets@.map_values(
            |t: TilesetDefinition| tileset_entry(t),
        ),
        final(defs).layers@ == old(defs).layers@,
        final(defs).entities@ == old(defs).entities@,
        final(defs).level == old(defs).level,
        final(defs).entity_instances == old(defs).entity_instances,
        match r {
            Ok(models) => {
                &&& enums_check(project.defs.enums@, final(defs).tilesets@, 0) is Ok
                &&& models@.len() == project.defs.enums@.len()
                &&& forall|e: int|
                    0 <= e < project.defs.enums@.len() ==> enum_model_matches(
                        project.defs.enums@[e],
                        final(defs).tilesets@,
                        #[trigger] models@[e],
                    )
            },
            Err(e) => enums_check(project.defs.enums@, final(defs).tilesets@, 0) == Err::<
                (),
                ErrorKind,
            >(e.kind_spec()),
        },
{
    let tileset_count = project.defs.tilesets.len();
    let ghost old_tilesets = defs.tilesets@;
    let mut t: usize = 0;
    while t < tileset_count
        invariant
            t <= tileset_count,
            defs.tilesets@ == old_tilesets + project.defs.tilesets@.take(t as int).map_values(
                |td: TilesetDefinition| tileset_entry(td),
            ),
            defs.layers@ == old(defs).layers@,
            defs.entities@ == old(defs).entities@,
            defs.level == old(defs).level,
            defs.entity_instances == old(defs).entity_instances,
        decreases tileset_count - t,
    {
        let tileset = &project.defs.tilesets[t];
        defs.tilesets.push((tileset.uid, RsTilesetDefinition { tile_size: tileset.tile_grid_size }));
        proof {
            let f = |td: TilesetDefinition| tileset_entry(td);
            assert(project.defs.tilesets@.take(t as int + 1).drop_last()
                =~= project.defs.tilesets@.take(t as int));
            assert(project.defs.tilesets@.take(t as int + 1).map_values(f)
                =~= project.defs.tilesets@.take(t as int).map_values(f).push(
                tileset_entry(project.defs.tilesets@[t as int]),
            ));
            assert(defs.tilesets@ =~= old_tilesets + project.defs.tilesets@.take(t as int
                + 1).map_values(f));
        }
        t = t + 1;
    }
    proof {
        assert(project.defs.tilesets@.take(tileset_count as int) =~= project.defs.tilesets@);
    }
    let enum_count = project.defs.enums.len();
    let mut models: Vec<EnumModel> = Vec::new();
    let mut e: usize = 0;
    while e < enum_count
        invariant
            e <= enum_count,
            enum_count == project.defs.enums@.len(),
            models@.len() == e,
            defs.tilesets@ == old_tilesets + project.defs.tilesets@.map_values(
                |td: TilesetDefinition| tileset_entry(td),
            ),
            defs.layers@ == old(defs).layers@,
            defs.entities@ == old(defs).entities@,
            defs.level == old(defs).level,
            defs.entity_instances == old(defs).entity_instances,
            enums_check(project.defs.enums@, defs.tilesets@, e as int) == enums_check(
                project.defs.enums@,
                defs.tilesets@,
                0,
            ),
            forall|j: int|
                0 <= j < e ==> enum_model_matches(
                    project.defs.enums@[j],
                    defs.tilesets@,
                    #[trigger] models@[j],
                ),
        decreases enum_count - e,
    {
        let enum_json = &project.defs.enums[e];
        let value_count = enum_json.values.len();
        let mut variants: Vec<EnumVariantModel> = Vec::new();
        let mut v: usize = 0;
        while v < value_count
            invariant
                v <= value_count,
                value_count == enum_json.values@.len(),
                variants@.len() == v,
                enum_values_check(
                    enum_json.values@,
                    enum_json.icon_tileset_uid,
                    defs.tilesets@,
                    v as int,
                ) == enum_values_check(
                    enum_json.values@,
                    enum_json.icon_tileset_uid,
                    defs.tilesets@,
                    0,
                ),
                forall|j: int|
                    0 <= j < v ==> {
                        let variant = #[trigger] variants@[j];
                        &&& variant.id@ == enum_json.values@[j].id@
                        &&& variant.color == variant_color(enum_json.values@[j].color)
                        &&& variant.icon == variant_icon(
                            enum_json.values@[j],
                            enum_json.icon_tileset_uid,
                            defs.tilesets@,
                        )
                    },
            decreases value_count - v,
        {
            let value = &enum_json.values[v];
            let declared_color = value.color;
            let color: Option<Color> = if declared_color >= 0 {
                proof {
                    assert(0 <= declared_color & 0xffffffff < 0x100000000) by (bit_vector);
                }
                let hex = (declared_color & 0xffffffff) as u32;
                Option::Some(Color::from_hex(hex))
            } else {
                Option::None
            };
            let icon: Option<Vec2> = match (enum_json.icon_tileset_uid, &value.tile_rect) {
                (Option::Some(uid), Option::Some(rect)) => {
                    let tileset = match assoc_get_i64(&defs.tilesets, uid) {
                        Option::Some(ts) => ts,
                        Option::None => {
                            return Err(
                                Error::MissingDefinition("Enum icon tileset was not found!".to_owned()),
                            );
                        },
                    };
                    if tileset.tile_size <= 0 {
                        return Err(
                            Error::SchemaError("Tileset grid size should be positive!".to_owned()),
                        );
                    }
                    if rect.x < 0 || rect.y < 0 {
                        return Err(
                            Error::ValidationError(
                                "Icon position should not be negative!".to_owned(),
                            ),
                        );
                    }
                    Option::Some(
                        Vec2 { x: rect.x / tileset.tile_size, y: rect.y / tileset.tile_size },
                    )
                },
                _ => Option::None,
            };
            variants.push(EnumVariantModel { id: value.id.clone(), color, icon });
            v = v + 1;
        }
        models.push(
            EnumModel {
                identifier: enum_json.identifier.clone(),
                icon_tileset: enum_json.icon_tileset_uid,
                variants,
            },
        );
        e = e + 1;
    }
    Ok(models)
}

} // verus!
