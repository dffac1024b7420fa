//! The field-type resolver, the value coercer, and the small value types.

use ldtk_model::definitions::{
    format_color, Error, RsDefinitions, RsFieldType, RsTilesetDefinition, RsEntityInstance,
    TypedLiteral,
};
use ldtk_model::schema::DynValue;
use ldtk_model::header::{Color, EntityRef, FlipMode, Tile, Tileset, Vec2};
use ldtk_model::schema::FieldDefinition;
use ldtk_model::text::{i64_to_string, str_eq, u64_to_string};

fn field(descriptor: &str, nullable: bool) -> FieldDefinition {
    FieldDefinition {
        identifier: "f".to_string(),
        field_definition_type: descriptor.to_string(),
        can_be_null: nullable,
    }
}

#[test]
fn parse_primitives() {
    assert!(matches!(RsFieldType::parse(&field("Int", false)), Ok(RsFieldType::Int)));
    assert!(matches!(RsFieldType::parse(&field("Float", false)), Ok(RsFieldType::Float)));
    assert!(matches!(RsFieldType::parse(&field("String", false)), Ok(RsFieldType::Str)));
    assert!(matches!(RsFieldType::parse(&field("Multilines", false)), Ok(RsFieldType::Str)));
    assert!(matches!(RsFieldType::parse(&field("Bool", false)), Ok(RsFieldType::Bool)));
    assert!(matches!(RsFieldType::parse(&field("Color", false)), Ok(RsFieldType::Color)));
    assert!(matches!(RsFieldType::parse(&field("Point", false)), Ok(RsFieldType::Point)));
    assert!(matches!(RsFieldType::parse(&field("Tile", false)), Ok(RsFieldType::Tile)));
    assert!(matches!(RsFieldType::parse(&field("FilePath", false)), Ok(RsFieldType::FilePath)));
    assert!(matches!(RsFieldType::parse(&field("EntityRef", false)), Ok(RsFieldType::EntityRef)));
}

#[test]
fn parse_nullable_wraps_leaf() {
    match RsFieldType::parse(&field("Int", true)) {
        Ok(RsFieldType::Optional(inner)) => assert!(matches!(*inner, RsFieldType::Int)),
        other => panic!("unexpected: {:?}", other),
    }
}

#[test]
fn parse_local_enum() {
    match RsFieldType::parse(&field("LocalEnum.ItemKind", false)) {
        Ok(RsFieldType::Enum(name)) => assert_eq!(name, "ItemKind"),
        other => panic!("unexpected: {:?}", other),
    }
}

#[test]
fn parse_array_applies_nullability_to_leaf() {
    match RsFieldType::parse(&field("Array<Int>", true)) {
        Ok(RsFieldType::Array(inner)) => match *inner {
            RsFieldType::Optional(leaf) => assert!(matches!(*leaf, RsFieldType::Int)),
            other => panic!("unexpected inner: {:?}", other),
        },
        other => panic!("unexpected: {:?}", other),
    }
}

#[test]
fn parse_extern_enum_unsupported() {
    assert!(matches!(
        RsFieldType::parse(&field("ExternEnum.Foreign", false)),
        Err(Error::UnsupportedFieldType(_))
    ));
}

#[test]
fn parse_unknown_descriptor_unsupported() {
    assert!(matches!(
        RsFieldType::parse(&field("Quaternion", false)),
        Err(Error::UnsupportedFieldType(_))
    ));
    assert!(matches!(
        RsFieldType::parse(&field("Array<Array<Int>>", false)),
        Err(Error::UnsupportedFieldType(_))
    ));
}

#[test]
fn string_type_names() {
    assert_eq!(RsFieldType::Int.string_type(), "i32");
    assert_eq!(RsFieldType::Str.string_type(), "String");
    assert_eq!(
        RsFieldType::Array(Box::new(RsFieldType::Optional(Box::new(RsFieldType::Float))))
            .string_type(),
        "Vec<Option<f32>>"
    );
    assert_eq!(RsFieldType::Enum("ItemKind".to_string()).string_type(), "ItemKind");
    assert_eq!(RsFieldType::Tile.string_type(), "(TilesetID, UVec2)");
}

#[test]
fn format_color_strips_prefix_and_appends_opacity() {
    let c = format_color("#1a2B3c").unwrap();
    assert_eq!(c, Color { r: 0x1a, g: 0x2b, b: 0x3c, a: 255 });
}

#[test]
fn format_color_missing_prefix_is_validation() {
    assert!(matches!(format_color("1a2b3c"), Err(Error::ValidationError(_))));
    assert!(matches!(format_color(""), Err(Error::ValidationError(_))));
}

#[test]
fn format_color_bad_digits_are_encoding_errors() {
    assert!(matches!(format_color("#12345"), Err(Error::InvalidEncoding(_))));
    assert!(matches!(format_color("#12g456"), Err(Error::InvalidEncoding(_))));
}

fn empty_defs() -> RsDefinitions {
    RsDefinitions::new()
}

#[test]
fn coerce_optional_empty_on_absent_and_null() {
    let defs = empty_defs();
    let ty = RsFieldType::Optional(Box::new(RsFieldType::Int));
    assert_eq!(ty.fmt_value(&defs, None), Ok(TypedLiteral::Empty));
    assert_eq!(ty.fmt_value(&defs, Some(&DynValue::Null)), Ok(TypedLiteral::Empty));
    assert_eq!(
        ty.fmt_value(&defs, Some(&DynValue::Int(7))),
        Ok(TypedLiteral::Present(Box::new(TypedLiteral::Int(7))))
    );
}

#[test]
fn coerce_mandatory_missing_is_validation() {
    let defs = empty_defs();
    assert!(matches!(RsFieldType::Int.fmt_value(&defs, None), Err(Error::ValidationError(_))));
    assert!(matches!(
        RsFieldType::Int.fmt_value(&defs, Some(&DynValue::Null)),
        Err(Error::ValidationError(_))
    ));
}

#[test]
fn coerce_int_and_mismatch() {
    let defs = empty_defs();
    assert_eq!(RsFieldType::Int.fmt_value(&defs, Some(&DynValue::Int(-3))), Ok(TypedLiteral::Int(-3)));
    assert!(matches!(
        RsFieldType::Int.fmt_value(&defs, Some(&DynValue::Str("3".to_string()))),
        Err(Error::ValidationError(_))
    ));
    assert!(matches!(
        RsFieldType::Int.fmt_value(&defs, Some(&DynValue::Float("3.0".to_string()))),
        Err(Error::ValidationError(_))
    ));
}

#[test]
fn coerce_float_text_passes_through() {
    let defs = empty_defs();
    assert_eq!(
        RsFieldType::Float.fmt_value(&defs, Some(&DynValue::Float("12.5".to_string()))),
        Ok(TypedLiteral::Float("12.5".to_string()))
    );
}

#[test]
fn coerce_float_from_integer_keeps_one_fractional_digit() {
    let defs = empty_defs();
    assert_eq!(
        RsFieldType::Float.fmt_value(&defs, Some(&DynValue::Int(5))),
        Ok(TypedLiteral::Float("5.0".to_string()))
    );
    assert_eq!(
        RsFieldType::Float.fmt_value(&defs, Some(&DynValue::Int(-17))),
        Ok(TypedLiteral::Float("-17.0".to_string()))
    );
}

#[test]
fn coerce_string_bool_filepath() {
    let defs = empty_defs();
    assert_eq!(
        RsFieldType::Str.fmt_value(&defs, Some(&DynValue::Str("hi".to_string()))),
        Ok(TypedLiteral::Str("hi".to_string()))
    );
    assert_eq!(
        RsFieldType::Bool.fmt_value(&defs, Some(&DynValue::Bool(true))),
        Ok(TypedLiteral::Bool(true))
    );
    assert_eq!(
        RsFieldType::FilePath.fmt_value(&defs, Some(&DynValue::Str("a/b.png".to_string()))),
        Ok(TypedLiteral::FilePath("a/b.png".to_string()))
    );
}

#[test]
fn coerce_enum_passes_case_through_verbatim() {
    let defs = empty_defs();
    let ty = RsFieldType::Enum("ItemKind".to_string());
    assert_eq!(
        ty.fmt_value(&defs, Some(&DynValue::Str("Sword".to_string()))),
        Ok(TypedLiteral::Enum("ItemKind".to_string(), "Sword".to_string()))
    );
    assert!(matches!(
        ty.fmt_value(&defs, Some(&DynValue::Int(1))),
        Err(Error::ValidationError(_))
    ));
}

#[test]
fn coerce_array_preserves_order_and_first_error() {
    let defs = empty_defs();
    let ty = RsFieldType::Array(Box::new(RsFieldType::Int));
    let raw = DynValue::Array(vec![DynValue::Int(1), DynValue::Int(2), DynValue::Int(3)]);
    assert_eq!(
        ty.fmt_value(&defs, Some(&raw)),
        Ok(TypedLiteral::Array(vec![
            TypedLiteral::Int(1),
            TypedLiteral::Int(2),
            TypedLiteral::Int(3)
        ]))
    );
    let bad = DynValue::Array(vec![DynValue::Int(1), DynValue::Bool(false)]);
    assert!(matches!(ty.fmt_value(&defs, Some(&bad)), Err(Error::ValidationError(_))));
    assert!(matches!(
        ty.fmt_value(&defs, Some(&DynValue::Int(1))),
        Err(Error::ValidationError(_))
    ));
}

#[test]
fn coerce_point_reads_cx_cy() {
    let defs = empty_defs();
    let raw = DynValue::Object(vec![
        ("cx".to_string(), DynValue::Int(4)),
        ("cy".to_string(), DynValue::Int(9)),
    ]);
    assert_eq!(
        RsFieldType::Point.fmt_value(&defs, Some(&raw)),
        Ok(TypedLiteral::Point(Vec2 { x: 4, y: 9 }))
    );
    let missing = DynValue::Object(vec![("cx".to_string(), DynValue::Int(4))]);
    assert!(matches!(
        RsFieldType::Point.fmt_value(&defs, Some(&missing)),
        Err(Error::ValidationError(_))
    ));
}

#[test]
fn coerce_tile_divides_pixels_into_cells() {
    let mut defs = empty_defs();
    defs.tilesets.push((42, RsTilesetDefinition { tile_size: 16 }));
    let raw = DynValue::Object(vec![
        ("tilesetUid".to_string(), DynValue::Int(42)),
        ("x".to_string(), DynValue::Int(32)),
        ("y".to_string(), DynValue::Int(17)),
    ]);
    assert_eq!(
        RsFieldType::Tile.fmt_value(&defs, Some(&raw)),
        Ok(TypedLiteral::Tile(42, Vec2 { x: 2, y: 1 }))
    );
}

#[test]
fn coerce_tile_unknown_tileset_is_missing_definition() {
    let defs = empty_defs();
    let raw = DynValue::Object(vec![
        ("tilesetUid".to_string(), DynValue::Int(42)),
        ("x".to_string(), DynValue::Int(0)),
        ("y".to_string(), DynValue::Int(0)),
    ]);
    assert!(matches!(
        RsFieldType::Tile.fmt_value(&defs, Some(&raw)),
        Err(Error::MissingDefinition(_))
    ));
}

#[test]
fn coerce_entity_ref_resolves_in_index() {
    let mut defs = empty_defs();
    defs.entity_instances.push((
        "iid-b".to_string(),
        RsEntityInstance { level: 0, layer: 1, entity: 2 },
    ));
    let raw = DynValue::Object(vec![(
        "entityIid".to_string(),
        DynValue::Str("iid-b".to_string()),
    )]);
    assert_eq!(
        RsFieldType::EntityRef.fmt_value(&defs, Some(&raw)),
        Ok(TypedLiteral::EntityRef(EntityRef { level: 0, layer: 1, entity: 2 }))
    );
}

#[test]
fn coerce_entity_ref_dangling_is_missing_definition() {
    let defs = empty_defs();
    let raw = DynValue::Object(vec![(
        "entityIid".to_string(),
        DynValue::Str("nobody".to_string()),
    )]);
    assert!(matches!(
        RsFieldType::EntityRef.fmt_value(&defs, Some(&raw)),
        Err(Error::MissingDefinition(_))
    ));
}

#[test]
fn coerce_color_value() {
    let defs = empty_defs();
    assert_eq!(
        RsFieldType::Color.fmt_value(&defs, Some(&DynValue::Str("#ff0080".to_string()))),
        Ok(TypedLiteral::Color(Color { r: 255, g: 0, b: 0x80, a: 255 }))
    );
    assert!(matches!(
        RsFieldType::Color.fmt_value(&defs, Some(&DynValue::Str("ff0080".to_string()))),
        Err(Error::ValidationError(_))
    ));
}

#[test]
fn decimal_rendering() {
    assert_eq!(u64_to_string(0), "0");
    assert_eq!(u64_to_string(907), "907");
    assert_eq!(i64_to_string(-12), "-12");
    assert_eq!(i64_to_string(i64::MIN), "-9223372036854775808");
    assert!(str_eq("abc", "abc"));
    assert!(!str_eq("abc", "abd"));
}

#[test]
fn vector_min_max() {
    let a = Vec2::new(3, -7);
    let b = Vec2::new(-2, 9);
    assert_eq!(a.min(b), Vec2 { x: -2, y: -7 });
    assert_eq!(a.max(b), Vec2 { x: 3, y: 9 });
}

#[test]
fn color_from_hex_unpacks_channels() {
    let c = Color::from_hex(0x11223344);
    assert_eq!(c, Color { r: 0x11, g: 0x22, b: 0x33, a: 0x44 });
}

#[test]
fn flip_mode_axes() {
    assert!(!FlipMode::NoFlip.horizontal());
    assert!(!FlipMode::NoFlip.vertical());
    assert!(FlipMode::Horizontal.horizontal());
    assert!(!FlipMode::Horizontal.vertical());
    assert!(!FlipMode::Vertical.horizontal());
    assert!(FlipMode::Vertical.vertical());
    assert!(FlipMode::Both.horizontal());
    assert!(FlipMode::Both.vertical());
}

#[test]
fn tile_and_tileset_accessors() {
    let t = Tile::new(Vec2::new(2, 3), FlipMode::Horizontal);
    assert_eq!(t.position(), Vec2 { x: 2, y: 3 });
    assert_eq!(t.flip(), FlipMode::Horizontal);
    let ts = Tileset::new(7, "atlas.png".to_string());
    assert_eq!(ts.id(), 7);
    assert_eq!(ts.path(), "atlas.png");
    let r = EntityRef::new(1, 2, 3);
    assert_eq!((r.level, r.layer, r.entity), (1, 2, 3));
}

#[test]
fn decimal_rendering_carries_over_digit_boundaries() {
    assert_eq!(u64_to_string(10), "10");
    assert_eq!(u64_to_string(u64::MAX), "18446744073709551615");
    assert_eq!(i64_to_string(0), "0");
}
