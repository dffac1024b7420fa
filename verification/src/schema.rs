//! The raw project as read from the editor's JSON export: definitions,
//! levels, layer instances, and the dynamic values carried by field
//! instances. This is plain data; the boundary that loads the file fills
//! these structures with plain values.

use crate::header::Vec2;
use vstd::prelude::*;

verus! {

/// A dynamic value from the loosely typed export.
///
/// A non-integral number arrives already rendered as decimal text, with the
/// smallest precision (at least one fractional digit) that preserves it.
#[derive(Debug, PartialEq)]
pub enum DynValue {
    Null,
    Bool(bool),
    Int(i64),
    Float(String),
    Str(String),
    Array(Vec<DynValue>),
    Object(Vec<(String, DynValue)>),
}

/// A field's declared type: a descriptor string plus a nullability flag.
#[derive(Clone, Debug)]
pub struct FieldDefinition {
    pub identifier: String,
    pub field_definition_type: String,
    pub can_be_null: bool,
}

/// A field's value on one instance.
#[derive(Debug)]
pub struct FieldInstance {
    pub identifier: String,
    pub value: Option<DynValue>,
}

/// A rectangle within a tileset image, in pixels.
#[derive(Clone, Copy, Debug, PartialEq, Eq, Structural)]
pub struct TilesetRectangle {
    pub x: i64,
    pub y: i64,
    pub w: i64,
    pub h: i64,
}

#[derive(Clone, Debug)]
pub struct TilesetDefinition {
    pub uid: i64,
    pub identifier: String,
    pub rel_path: Option<String>,
    pub tile_grid_size: i64,
}

#[derive(Clone, Debug)]
pub struct EnumValueDefinition {
    pub id: String,
    pub color: i64,
    pub tile_rect: Option<TilesetRectangle>,
}

#[derive(Clone, Debug)]
pub struct EnumDefinition {
    pub identifier: String,
    pub values: Vec<EnumValueDefinition>,
    pub icon_tileset_uid: Option<i64>,
}

/// How an entity type asks to be drawn, as declared in the export.
#[derive(Clone, Copy, Debug, PartialEq, Eq, Structural)]
pub enum RenderMode {
    Cross,
    Ellipse,
    Rectangle,
    Tile,
}

#[derive(Clone, Debug)]
pub struct EntityDefinition {
    pub identifier: String,
    pub field_defs: Vec<FieldDefinition>,
    pub render_mode: RenderMode,
    pub tile_rect: Option<TilesetRectangle>,
    pub tileset_id: Option<i64>,
}

/// The declared kind of a layer.
#[derive(Clone, Copy, Debug, PartialEq, Eq, Structural)]
pub enum Type {
    IntGrid,
    Entities,
    Tiles,
    AutoLayer,
}

#[derive(Clone, Debug)]
pub struct IntGridValueDefinition {
    pub value: i64,
    pub identifier: Option<String>,
}

/// A rule group of an autotiled int-grid layer; only its presence matters
/// to the compiler.
#[derive(Clone, Debug)]
pub struct AutoLayerRuleGroup {}

#[derive(Clone, Debug)]
pub struct LayerDefinition {
    pub identifier: String,
    pub purple_type: Type,
    pub grid_size: i64,
    pub int_grid_values: Vec<IntGridValueDefinition>,
    pub auto_rule_groups: Vec<AutoLayerRuleGroup>,
    pub tileset_def_uid: Option<i64>,
}

/// One placed tile or autotile stamp: a pixel position within the layer,
/// a pixel position within the tileset image, and a 2-bit flip code.
#[derive(Clone, Copy, Debug, PartialEq, Eq, Structural)]
pub struct TileInstance {
    pub px: Vec2,
    pub src: Vec2,
    pub f: i64,
}

#[derive(Debug)]
pub struct EntityInstance {
    pub identifier: String,
    pub iid: String,
    pub field_instances: Vec<FieldInstance>,
    pub px: Vec2,
    pub width: i64,
    pub height: i64,
}

#[derive(Debug)]
pub struct LayerInstance {
    pub identifier: String,
    pub c_wid: i64,
    pub c_hei: i64,
    pub int_grid_csv: Vec<i64>,
    pub grid_tiles: Vec<TileInstance>,
    pub auto_layer_tiles: Vec<TileInstance>,
    pub entity_instances: Vec<EntityInstance>,
    pub tileset_def_uid: Option<i64>,
}

#[derive(Debug)]
pub struct Level {
    pub identifier: String,
    pub bg_color: String,
    pub px_wid: i64,
    pub px_hei: i64,
    pub world_depth: i64,
    pub world_x: i64,
    pub world_y: i64,
    pub layer_instances: Option<Vec<LayerInstance>>,
    pub field_instances: Vec<FieldInstance>,
}

#[derive(Debug)]
pub struct Definitions {
    pub tilesets: Vec<TilesetDefinition>,
    pub enums: Vec<EnumDefinition>,
    pub entities: Vec<EntityDefinition>,
    pub layers: Vec<LayerDefinition>,
    pub level_fields: Vec<FieldDefinition>,
}

/// A whole project export.
#[derive(Debug)]
pub struct LdtkJson {
    pub defs: Definitions,
    pub levels: Vec<Level>,
    pub bg_color: String,
}

} // verus!
