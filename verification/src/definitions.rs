//! The field-type resolver and value coercer: maps dynamic type descriptor
//! strings into a closed set of semantic types, and coerces raw dynamic
//! values into validated typed literals, consulting the tileset registry
//! and the entity index.

use crate::header::{Color, EntityRef, RenderMode, Vec2};
use crate::schema::{DynValue, FieldDefinition};
use crate::table::{assoc_find_i64, assoc_find_str, assoc_get_i64, assoc_get_str};
use crate::text;
use vstd::prelude::*;
use vstd::string::StringExecFns;

verus! {

/// Why a compilation was aborted. Every error is terminal: there is no
/// partial output and no degraded mode.
#[derive(Clone, Debug, PartialEq)]
pub enum Error {
    /// Malformed or missing required shape in the raw project.
    SchemaError(String),
    /// Unrecognized or deliberately unimplemented descriptor.
    UnsupportedFieldType(String),
    /// Dangling reference to a tileset, entity, or layer.
    MissingDefinition(String),
    /// Bad flip code or malformed color text.
    InvalidEncoding(String),
    /// Value or type shape mismatch, or null on a non-nullable field.
    ValidationError(String),
}

/// The variant of an [`Error`], without its context text.
#[derive(Clone, Copy, Debug, PartialEq, Eq, Structural)]
pub enum ErrorKind {
    SchemaError,
    UnsupportedFieldType,
    MissingDefinition,
    InvalidEncoding,
    ValidationError,
}

impl Error {
    pub open spec fn kind_spec(&self) -> ErrorKind {
        match self {
            Error::SchemaError(_) => ErrorKind::SchemaError,
            Error::UnsupportedFieldType(_) => ErrorKind::UnsupportedFieldType,
            Error::MissingDefinition(_) => ErrorKind::MissingDefinition,
            Error::InvalidEncoding(_) => ErrorKind::InvalidEncoding,
            Error::ValidationError(_) => ErrorKind::ValidationError,
        }
    }

    pub fn kind(&self) -> (r: ErrorKind)
        ensures
            r == self.kind_spec(),
    {
        match self {
            Error::SchemaError(_) => ErrorKind::SchemaError,
            Error::UnsupportedFieldType(_) => ErrorKind::UnsupportedFieldType,
            Error::MissingDefinition(_) => ErrorKind::MissingDefinition,
            Error::InvalidEncoding(_) => ErrorKind::InvalidEncoding,
            Error::ValidationError(_) => ErrorKind::ValidationError,
        }
    }

    /// The context text carried by the error.
    pub fn message(&self) -> (r: &str) {
        match self {
            Error::SchemaError(m) => m.as_str(),
            Error::UnsupportedFieldType(m) => m.as_str(),
            Error::MissingDefinition(m) => m.as_str(),
            Error::InvalidEncoding(m) => m.as_str(),
            Error::ValidationError(m) => m.as_str(),
        }
    }
}

/// Output preferences of the emission backend; carried through compilation
/// untouched.
#[derive(Clone, Debug)]
pub struct Preferences {
    pub preserve_case: bool,
    pub serde: bool,
    pub vector: Option<String>,
    pub color: Option<String>,
}

/// The value of the hex digit `c`, or `-1` when `c` is none.
pub open spec fn hex_digit_val(c: char) -> int {
    let n = c as int;
    if 48 <= n <= 57 {
        n - 48
    } else if 97 <= n <= 102 {
        n - 87
    } else if 65 <= n <= 70 {
        n - 55
    } else {
        -1
    }
}

/// Whether `s` is `#` followed by exactly six hex digits.
pub open spec fn color_text_valid(s: Seq<char>) -> bool {
    &&& s.len() == 7
    &&& s[0] == '#'
    &&& forall|i: int| 1 <= i < 7 ==> hex_digit_val(#[trigger] s[i]) >= 0
}

/// The RGBA color denoted by valid color text, with full opacity appended.
pub open spec fn color_of_text(s: Seq<char>) -> Color {
    Color {
        r: (hex_digit_val(s[1]) * 16 + hex_digit_val(s[2])) as u8,
        g: (hex_digit_val(s[3]) * 16 + hex_digit_val(s[4])) as u8,
        b: (hex_digit_val(s[5]) * 16 + hex_digit_val(s[6])) as u8,
        a: 255u8,
    }
}

fn hex_digit(c: char) -> (r: Option<u8>)
    ensures
        match r {
            Some(v) => hex_digit_val(c) == v as int,
            None => hex_digit_val(c) < 0,
        },
{
    let n = c as u32;
    if 48 <= n && n <= 57 {
        Some((n - 48) as u8)
    } else if 97 <= n && n <= 102 {
        Some((n - 87) as u8)
    } else if 65 <= n && n <= 70 {
        Some((n - 55) as u8)
    } else {
        None
    }
}

/// Strips the mandatory `#` prefix from a color string and reads the six
/// hex digits behind it as an RGBA-255 value with full opacity.
pub fn format_color(color: &str) -> (r: Result<Color, Error>)
    ensures
        match r {
            Ok(c) => color_text_valid(color@) && c == color_of_text(color@),
            Err(e) => {
                &&& !color_text_valid(color@)
                &&& if !(color@.len() > 0 && color@[0] == '#') {
                    e is ValidationError
                } else {
                    e is InvalidEncoding
                }
            },
        },
{
    let len = text::str_len(color);
    if len == 0 || color.get_char(0) != '#' {
        return Err(Error::ValidationError("Color should start with #!".to_owned()));
    }
    if len != 7 {
        return Err(
            Error::InvalidEncoding("Color should hold six hex digits after #!".to_owned()),
        );
    }
    let d1 = hex_digit(color.get_char(1));
    let d2 = hex_digit(color.get_char(2));
    let d3 = hex_digit(color.get_char(3));
    let d4 = hex_digit(color.get_char(4));
    let d5 = hex_digit(color.get_char(5));
    let d6 = hex_digit(color.get_char(6));
    match (d1, d2, d3, d4, d5, d6) {
        (Some(v1), Some(v2), Some(v3), Some(v4), Some(v5), Some(v6)) => Ok(
            Color {
                r: v1 * 16 + v2,
                g: v3 * 16 + v4,
                b: v5 * 16 + v6,
                a: 255,
            },
        ),
        _ => Err(Error::InvalidEncoding("Color holds a non-hex digit!".to_owned())),
    }
}

/// Pixel-grid metadata of one tileset: the side length of its square tiles.
#[derive(Clone, Copy, Debug, PartialEq, Eq, Structural)]
pub struct RsTilesetDefinition {
    pub tile_size: i64,
}

/// Where one entity instance lives in the assembled world.
#[derive(Clone, Copy, Debug, PartialEq, Eq, Structural)]
pub struct RsEntityInstance {
    pub level: usize,
    pub layer: usize,
    pub entity: usize,
}

/// The compiled shape of an int-grid layer: its palette of cell values and,
/// when rule groups are declared, the autotile augmentation.
#[derive(Clone, Debug)]
pub struct RsIntGridDefinition {
    pub grid_size: i64,
    pub tile_enum: String,
    pub tile_variants: Vec<(i64, String)>,
    pub auto_layer: Option<RsAutoLayerDefinition>,
}

#[derive(Clone, Debug)]
pub struct RsTilesDefinition {
    pub grid_size: i64,
}

#[derive(Clone, Copy, Debug, PartialEq, Eq, Structural)]
pub struct RsAutoLayerDefinition {}

/// One layer definition, dispatched on the declared kind.
#[derive(Clone, Debug)]
pub enum RsLayerDefinition {
    IntGrid(RsIntGridDefinition),
    Tiles(RsTilesDefinition),
    Entities,
}

/// The typed fields and the compiled render mode of one entity type.
#[derive(Debug)]
pub struct RsEntityDefinition {
    pub fields: Vec<(String, RsFieldType)>,
    pub render_mode: RenderMode,
}

/// The typed fields of a level.
#[derive(Debug)]
pub struct RsLevelDefinition {
    pub fields: Vec<(String, RsFieldType)>,
}

/// Everything the coercer consults: the tileset registry, the layer and
/// entity definitions, and the global entity index.
#[derive(Debug)]
pub struct RsDefinitions {
    pub tilesets: Vec<(i64, RsTilesetDefinition)>,
    pub layers: Vec<(String, RsLayerDefinition)>,
    pub entities: Vec<(String, RsEntityDefinition)>,
    pub level: RsLevelDefinition,
    pub entity_instances: Vec<(String, RsEntityInstance)>,
}

impl RsDefinitions {
    /// An empty registry, to be filled by the definition passes.
    pub fn new() -> (r: Self)
        ensures
            r.tilesets@ == Seq::<(i64, RsTilesetDefinition)>::empty(),
            r.layers@ == Seq::<(String, RsLayerDefinition)>::empty(),
            r.entities@ == Seq::<(String, RsEntityDefinition)>::empty(),
            r.level.fields@ == Seq::<(String, RsFieldType)>::empty(),
            r.entity_instances@ == Seq::<(String, RsEntityInstance)>::empty(),
    {
        RsDefinitions {
            tilesets: Vec::new(),
            layers: Vec::new(),
            entities: Vec::new(),
            level: RsLevelDefinition { fields: Vec::new() },
            entity_instances: Vec::new(),
        }
    }
}

impl Default for RsDefinitions {
    /// An empty registry.
    fn default() -> (r: Self)
        ensures
            r.tilesets@.len() == 0,
            r.layers@.len() == 0,
            r.entities@.len() == 0,
            r.level.fields@.len() == 0,
            r.entity_instances@.len() == 0,
    {
        RsDefinitions::new()
    }
}

/// A semantic field type: a closed set, with `Optional` and `Array`
/// wrapping exactly one leaf or enum type.
#[derive(Debug, PartialEq)]
pub enum RsFieldType {
    Optional(Box<RsFieldType>),
    Array(Box<RsFieldType>),
    Enum(String),
    Int,
    Float,
    Str,
    Bool,
    Color,
    Point,
    Tile,
    FilePath,
    EntityRef,
}

/// Whether `t` is `LocalEnum.` followed by an enum name.
pub open spec fn is_local_enum(t: Seq<char>) -> bool {
    t.len() >= "LocalEnum."@.len() && t.subrange(0, "LocalEnum."@.len() as int) == "LocalEnum."@
}

/// Whether `t`, as a leaf descriptor, matches the primitive type `ty`.
pub open spec fn primitive_matches(t: Seq<char>, ty: RsFieldType) -> bool {
    if t == "Int"@ {
        ty is Int
    } else if t == "Float"@ {
        ty is Float
    } else if t == "String"@ || t == "Multilines"@ {
        ty is Str
    } else if t == "Bool"@ {
        ty is Bool
    } else if t == "Color"@ {
        ty is Color
    } else if t == "Point"@ {
        ty is Point
    } else if t == "Tile"@ {
        ty is Tile
    } else if t == "FilePath"@ {
        ty is FilePath
    } else if t == "EntityRef"@ {
        ty is EntityRef
    } else {
        false
    }
}

/// Whether `t` names a recognized primitive leaf.
pub open spec fn is_primitive(t: Seq<char>) -> bool {
    ||| t == "Int"@
    ||| t == "Float"@
    ||| t == "String"@
    ||| t == "Multilines"@
    ||| t == "Bool"@
    ||| t == "Color"@
    ||| t == "Point"@
    ||| t == "Tile"@
    ||| t == "FilePath"@
    ||| t == "EntityRef"@
}

/// Whether the leaf descriptor `t` resolves at all. `ExternEnum.` prefixed
/// descriptors are deliberately unsupported.
pub open spec fn leaf_supported(t: Seq<char>) -> bool {
    is_local_enum(t) || is_primitive(t)
}

/// Whether the leaf descriptor `t` resolves to exactly `ty`.
pub open spec fn leaf_matches(t: Seq<char>, ty: RsFieldType) -> bool {
    if is_local_enum(t) {
        ty matches RsFieldType::Enum(name) && name@ == t.subrange(
            "LocalEnum."@.len() as int,
            t.len() as int,
        )
    } else {
        primitive_matches(t, ty)
    }
}

/// Whether the leaf descriptor `t` with the nullability flag resolves to
/// exactly `ty`: nullable leaves are wrapped in `Optional`.
pub open spec fn wrapped_leaf_matches(t: Seq<char>, nullable: bool, ty: RsFieldType) -> bool {
    if nullable {
        ty matches RsFieldType::Optional(g) && leaf_matches(t, *g)
    } else {
        leaf_matches(t, ty)
    }
}

/// The contract of resolving a leaf descriptor: exactly the supported
/// leaves succeed, and anything else is an unsupported field type.
pub open spec fn leaf_result_matches(
    t: Seq<char>,
    nullable: bool,
    r: Result<RsFieldType, Error>,
) -> bool {
    match r {
        Ok(ty) => leaf_supported(t) && wrapped_leaf_matches(t, nullable, ty),
        Err(e) => !leaf_supported(t) && e is UnsupportedFieldType,
    }
}

/// Whether the descriptor `d` is an `Array<X>` wrapper.
pub open spec fn is_array_descriptor(d: Seq<char>) -> bool {
    &&& d.len() > "Array<"@.len()
    &&& d.subrange(0, "Array<"@.len() as int) == "Array<"@
    &&& d[d.len() - 1] == '>'
}

/// The inner descriptor of an `Array<X>` wrapper.
pub open spec fn array_inner(d: Seq<char>) -> Seq<char> {
    d.subrange("Array<"@.len() as int, d.len() - 1)
}

/// The full contract of descriptor resolution: an `Array<X>` wrapper is
/// recognized syntactically and its inner leaf carries the nullability
/// flag; everything else resolves as a leaf.
pub open spec fn parse_result_matches(
    d: Seq<char>,
    nullable: bool,
    r: Result<RsFieldType, Error>,
) -> bool {
    if is_array_descriptor(d) {
        match r {
            Ok(ty) => {
                &&& ty matches RsFieldType::Array(g)
                &&& leaf_supported(array_inner(d))
                &&& wrapped_leaf_matches(array_inner(d), nullable, *g)
            },
            Err(e) => !leaf_supported(array_inner(d)) && e is UnsupportedFieldType,
        }
    } else {
        leaf_result_matches(d, nullable, r)
    }
}

/// Whether the descriptor `d` resolves at all.
pub open spec fn parse_ok(d: Seq<char>) -> bool {
    if is_array_descriptor(d) {
        leaf_supported(array_inner(d))
    } else {
        leaf_supported(d)
    }
}

/// Resolves a leaf descriptor, wrapping it in `Optional` when nullable.
fn parse_field_definition(field_type: &str, can_be_null: bool) -> (r: Result<RsFieldType, Error>)
    ensures
        leaf_result_matches(field_type@, can_be_null, r),
{
    let rs_type = if text::starts_with_str(field_type, "LocalEnum.") {
        let plen = text::str_len("LocalEnum.");
        let tlen = text::str_len(field_type);
        let name = text::substring(field_type, plen, tlen);
        RsFieldType::Enum(name.to_owned())
    } else if text::starts_with_str(field_type, "ExternEnum.") {
        proof {
            reveal_strlit("LocalEnum.");
            reveal_strlit("ExternEnum.");
            reveal_strlit("Int");
            reveal_strlit("Float");
            reveal_strlit("String");
            reveal_strlit("Multilines");
            reveal_strlit("Bool");
            reveal_strlit("Color");
            reveal_strlit("Point");
            reveal_strlit("Tile");
            reveal_strlit("FilePath");
            reveal_strlit("EntityRef");
            assert(!leaf_supported(field_type@)) by {
                if is_primitive(field_type@) {
                    assert(field_type@[0] == 'E' && field_type@[1] == 'x');
                }
            }
        }
        return Err(Error::UnsupportedFieldType("External enums are not supported yet.".to_owned()));
    } else if text::str_eq(field_type, "Int") {
        RsFieldType::Int
    } else if text::str_eq(field_type, "Float") {
        RsFieldType::Float
    } else if text::str_eq(field_type, "String") || text::str_eq(field_type, "Multilines") {
        RsFieldType::Str
    } else if text::str_eq(field_type, "Bool") {
        RsFieldType::Bool
    } else if text::str_eq(field_type, "Color") {
        RsFieldType::Color
    } else if text::str_eq(field_type, "Point") {
        RsFieldType::Point
    } else if text::str_eq(field_type, "Tile") {
        RsFieldType::Tile
    } else if text::str_eq(field_type, "FilePath") {
        RsFieldType::FilePath
    } else if text::str_eq(field_type, "EntityRef") {
        RsFieldType::EntityRef
    } else {
        proof {
            reveal_strlit("LocalEnum.");
        }
        let mut message = "Unknown or unsupported field type: ".to_owned();
        message.append(field_type);
        return Err(Error::UnsupportedFieldType(message));
    };
    proof {
        reveal_strlit("LocalEnum.");
        reveal_strlit("Int");
        reveal_strlit("Float");
        reveal_strlit("String");
        reveal_strlit("Multilines");
        reveal_strlit("Bool");
        reveal_strlit("Color");
        reveal_strlit("Point");
        reveal_strlit("Tile");
        reveal_strlit("FilePath");
        reveal_strlit("EntityRef");
        assert(leaf_matches(field_type@, rs_type));
    }
    Ok(
        if can_be_null {
            RsFieldType::Optional(Box::new(rs_type))
        } else {
            rs_type
        },
    )
}

impl RsFieldType {
    /// Resolves a field's dynamic type descriptor, applying the field's
    /// nullability to the leaf (not to an `Array` wrapper).
    pub fn parse(field: &FieldDefinition) -> (r: Result<Self, Error>)
        ensures
            parse_result_matches(field.field_definition_type@, field.can_be_null, r),
    {
        let descriptor = field.field_definition_type.as_str();
        let dlen = text::str_len(descriptor);
        if text::starts_with_str(descriptor, "Array<") && text::ends_with_char(descriptor, '>') {
            let plen = text::str_len("Array<");
            proof {
                reveal_strlit("Array<");
                assert(descriptor@.subrange(0, "Array<"@.len() as int)[5] == descriptor@[5]);
                assert(descriptor@[5] == '<');
                assert(dlen > plen);
            }
            let inner = text::substring(descriptor, plen, dlen - 1);
            match parse_field_definition(inner, field.can_be_null) {
                Ok(generic) => Ok(RsFieldType::Array(Box::new(generic))),
                Err(e) => Err(e),
            }
        } else {
            proof {
                reveal_strlit("Array<");
            }
            parse_field_definition(descriptor, field.can_be_null)
        }
    }

    /// The name this semantic type goes by in emitted signatures.
    pub open spec fn string_type_spec(self) -> Seq<char>
        decreases self,
    {
        match self {
            RsFieldType::Optional(g) => "Option<"@ + g.string_type_spec() + ">"@,
            RsFieldType::Array(g) => "Vec<"@ + g.string_type_spec() + ">"@,
            RsFieldType::Enum(name) => name@,
            RsFieldType::Int => "i32"@,
            RsFieldType::Float => "f32"@,
            RsFieldType::Str => "String"@,
            RsFieldType::Bool => "bool"@,
            RsFieldType::Color => "Color"@,
            RsFieldType::Point => "UVec2"@,
            RsFieldType::Tile => "(TilesetID, UVec2)"@,
            RsFieldType::FilePath => "std::path::PathBuf"@,
            RsFieldType::EntityRef => "EntityRef"@,
        }
    }

    /// Renders the name this semantic type goes by in emitted signatures.
    pub fn string_type(&self) -> (r: String)
        ensures
            r@ == self.string_type_spec(),
        decreases *self,
    {
        match self {
            RsFieldType::Optional(generic) => {
                let mut s = "Option<".to_owned();
                s.append(generic.string_type().as_str());
                s.append(">");
                s
            },
            RsFieldType::Array(generic) => {
                let mut s = "Vec<".to_owned();
                s.append(generic.string_type().as_str());
                s.append(">");
                s
            },
            RsFieldType::Enum(name) => name.clone(),
            RsFieldType::Int => "i32".to_owned(),
            RsFieldType::Float => "f32".to_owned(),
            RsFieldType::Str => "String".to_owned(),
            RsFieldType::Bool => "bool".to_owned(),
            RsFieldType::Color => "Color".to_owned(),
            RsFieldType::Point => "UVec2".to_owned(),
            RsFieldType::Tile => "(TilesetID, UVec2)".to_owned(),
            RsFieldType::FilePath => "std::path::PathBuf".to_owned(),
            RsFieldType::EntityRef => "EntityRef".to_owned(),
        }
    }
}


/// A typed literal at the specification level: every text field is a
/// character sequence, so equality is equality of content.
pub ghost enum LitV {
    Empty,
    Present(Box<LitV>),
    Array(Seq<LitV>),
    Enum(Seq<char>, Seq<char>),
    Int(i64),
    Float(Seq<char>),
    Str(Seq<char>),
    Bool(bool),
    Color(Color),
    Point(Vec2),
    Tile(i64, Vec2),
    FilePath(Seq<char>),
    EntityRef(EntityRef),
}

/// A validated typed value produced by the coercer.
#[derive(Debug, PartialEq)]
pub enum TypedLiteral {
    /// The empty value of an optional field.
    Empty,
    /// The present value of an optional field.
    Present(Box<TypedLiteral>),
    Array(Vec<TypedLiteral>),
    /// An enum case: the enum's name and the case's name, passed through
    /// verbatim.
    Enum(String, String),
    Int(i64),
    /// A number rendered as decimal text.
    Float(String),
    Str(String),
    Bool(bool),
    Color(Color),
    Point(Vec2),
    /// A tileset id and a cell coordinate within that tileset's grid.
    Tile(i64, Vec2),
    FilePath(String),
    EntityRef(EntityRef),
}

/// Whether the typed literal `l` carries exactly the content `v`.
pub open spec fn lit_matches(l: TypedLiteral, v: LitV) -> bool
    decreases l,
{
    match l {
        TypedLiteral::Empty => v is Empty,
        TypedLiteral::Present(b) => v matches LitV::Present(bv) && lit_matches(*b, *bv),
        TypedLiteral::Array(items) => v matches LitV::Array(s) && items@.len() == s.len() && (
        forall|i: int| 0 <= i < s.len() ==> lit_matches(#[trigger] items@[i], s[i])),
        TypedLiteral::Enum(name, case) => v == LitV::Enum(name@, case@),
        TypedLiteral::Int(n) => v == LitV::Int(n),
        TypedLiteral::Float(t) => v == LitV::Float(t@),
        TypedLiteral::Str(s) => v == LitV::Str(s@),
        TypedLiteral::Bool(b) => v == LitV::Bool(b),
        TypedLiteral::Color(c) => v == LitV::Color(c),
        TypedLiteral::Point(p) => v == LitV::Point(p),
        TypedLiteral::Tile(id, cell) => v == LitV::Tile(id, cell),
        TypedLiteral::FilePath(s) => v == LitV::FilePath(s@),
        TypedLiteral::EntityRef(r) => v == LitV::EntityRef(r),
    }
}

/// The raw value behind an optional reference.
pub open spec fn opt_value(v: Option<&DynValue>) -> Option<DynValue> {
    match v {
        Option::Some(x) => Option::Some(*x),
        Option::None => Option::None,
    }
}

/// What coercing `ty` against the raw value `v` yields: the typed content
/// on success, the error variant on failure.
pub open spec fn coerce_spec(
    ty: RsFieldType,
    defs: RsDefinitions,
    v: Option<DynValue>,
) -> Result<LitV, ErrorKind>
    decreases ty, 1int,
{
    match ty {
        RsFieldType::Optional(g) => match v {
            Option::None => Ok(LitV::Empty),
            Option::Some(DynValue::Null) => Ok(LitV::Empty),
            Option::Some(val) => match coerce_spec(*g, defs, Option::Some(val)) {
                Ok(l) => Ok(LitV::Present(Box::new(l))),
                Err(e) => Err(e),
            },
        },
        _ => match v {
            Option::None => Err(ErrorKind::ValidationError),
            Option::Some(val) => coerce_present(ty, defs, val),
        },
    }
}

/// Coercion of a non-optional type against a present raw value.
pub open spec fn coerce_present(ty: RsFieldType, defs: RsDefinitions, val: DynValue) -> Result<
    LitV,
    ErrorKind,
>
    decreases ty, 0int,
{
    match ty {
        RsFieldType::Optional(_) => arbitrary(),
        RsFieldType::Array(g) => match val {
            DynValue::Array(elems) => match coerce_list(*g, defs, elems@, 0) {
                Ok(ls) => Ok(LitV::Array(ls)),
                Err(e) => Err(e),
            },
            _ => Err(ErrorKind::ValidationError),
        },
        RsFieldType::Enum(name) => match val {
            DynValue::Str(s) => Ok(LitV::Enum(name@, s@)),
            _ => Err(ErrorKind::ValidationError),
        },
        RsFieldType::Int => match val {
            DynValue::Int(n) => Ok(LitV::Int(n)),
            _ => Err(ErrorKind::ValidationError),
        },
        RsFieldType::Float => match val {
            DynValue::Float(t) => Ok(LitV::Float(t@)),
            DynValue::Int(n) => Ok(LitV::Float(text::int_chars(n as int) + ".0"@)),
            _ => Err(ErrorKind::ValidationError),
        },
        RsFieldType::Str => match val {
            DynValue::Str(s) => Ok(LitV::Str(s@)),
            _ => Err(ErrorKind::ValidationError),
        },
        RsFieldType::Bool => match val {
            DynValue::Bool(b) => Ok(LitV::Bool(b)),
            _ => Err(ErrorKind::ValidationError),
        },
        RsFieldType::Color => match val {
            DynValue::Str(s) => if !(s@.len() > 0 && s@[0] == '#') {
                Err(ErrorKind::ValidationError)
            } else if !color_text_valid(s@) {
                Err(ErrorKind::InvalidEncoding)
            } else {
                Ok(LitV::Color(color_of_text(s@)))
            },
            _ => Err(ErrorKind::ValidationError),
        },
        RsFieldType::Point => match val {
            DynValue::Object(o) => match assoc_find_str(o@, "cx"@) {
                Option::Some(DynValue::Int(cx)) => match assoc_find_str(o@, "cy"@) {
                    Option::Some(DynValue::Int(cy)) => Ok(LitV::Point(Vec2 { x: cx, y: cy })),
                    _ => Err(ErrorKind::ValidationError),
                },
                _ => Err(ErrorKind::ValidationError),
            },
            _ => Err(ErrorKind::ValidationError),
        },
        RsFieldType::Tile => match val {
            DynValue::Object(o) => match (
                assoc_find_str(o@, "tilesetUid"@),
                assoc_find_str(o@, "x"@),
                assoc_find_str(o@, "y"@),
            ) {
                (
                    Option::Some(DynValue::Int(uid)),
                    Option::Some(DynValue::Int(x)),
                    Option::Some(DynValue::Int(y)),
                ) => match assoc_find_i64(defs.tilesets@, uid) {
                    Option::None => Err(ErrorKind::MissingDefinition),
                    Option::Some(ts) => if ts.tile_size <= 0 {
                        Err(ErrorKind::SchemaError)
                    } else if x < 0 || y < 0 {
                        Err(ErrorKind::ValidationError)
                    } else {
                        Ok(
                            LitV::Tile(
                                uid,
                                Vec2 {
                                    x: (x as int / ts.tile_size as int) as i64,
                                    y: (y as int / ts.tile_size as int) as i64,
                                },
                            ),
                        )
                    },
                },
                _ => Err(ErrorKind::ValidationError),
            },
            _ => Err(ErrorKind::ValidationError),
        },
        RsFieldType::FilePath => match val {
            DynValue::Str(s) => Ok(LitV::FilePath(s@)),
            _ => Err(ErrorKind::ValidationError),
        },
        RsFieldType::EntityRef => match val {
            DynValue::Object(o) => match assoc_find_str(o@, "entityIid"@) {
                Option::Some(DynValue::Str(iid)) => match assoc_find_str(
                    defs.entity_instances@,
                    iid@,
                ) {
                    Option::Some(inst) => Ok(
                        LitV::EntityRef(
                            EntityRef { level: inst.level, layer: inst.layer, entity: inst.entity },
                        ),
                    ),
                    Option::None => Err(ErrorKind::MissingDefinition),
                },
                _ => Err(ErrorKind::ValidationError),
            },
            _ => Err(ErrorKind::ValidationError),
        },
    }
}

/// Element-wise coercion of a raw list from position `i` on, first error
/// winning and order preserved.
pub open spec fn coerce_list(
    g: RsFieldType,
    defs: RsDefinitions,
    elems: Seq<DynValue>,
    i: int,
) -> Result<Seq<LitV>, ErrorKind>
    decreases g, elems.len() - i + 2,
{
    if i >= elems.len() {
        Ok(Seq::empty())
    } else {
        match coerce_spec(g, defs, Option::Some(elems[i])) {
            Err(e) => Err(e),
            Ok(l) => match coerce_list(g, defs, elems, i + 1) {
                Err(e) => Err(e),
                Ok(rest) => Ok(seq![l] + rest),
            },
        }
    }
}

proof fn lemma_coerce_list_ok(g: RsFieldType, defs: RsDefinitions, elems: Seq<DynValue>, i: int)
    requires
        0 <= i <= elems.len(),
        forall|j: int|
            i <= j < elems.len() ==> coerce_spec(g, defs, Option::Some(#[trigger] elems[j])) is Ok,
    ensures
        coerce_list(g, defs, elems, i) is Ok,
        coerce_list(g, defs, elems, i)->Ok_0.len() == elems.len() - i,
        forall|j: int|
            i <= j < elems.len() ==> coerce_list(g, defs, elems, i)->Ok_0[j - i] == coerce_spec(
                g,
                defs,
                Option::Some(#[trigger] elems[j]),
            )->Ok_0,
    decreases elems.len() - i,
{
    if i < elems.len() {
        lemma_coerce_list_ok(g, defs, elems, i + 1);
    }
}

proof fn lemma_coerce_list_err(
    g: RsFieldType,
    defs: RsDefinitions,
    elems: Seq<DynValue>,
    i: int,
    k: int,
    e: ErrorKind,
)
    requires
        0 <= i <= k < elems.len(),
        forall|j: int| i <= j < k ==> coerce_spec(g, defs, Option::Some(#[trigger] elems[j])) is Ok,
        coerce_spec(g, defs, Option::Some(elems[k])) == Err::<LitV, ErrorKind>(e),
    ensures
        coerce_list(g, defs, elems, i) == Err::<Seq<LitV>, ErrorKind>(e),
    decreases k - i,
{
    if i < k {
        lemma_coerce_list_err(g, defs, elems, i + 1, k, e);
    }
}

impl RsFieldType {
    /// Coerces a raw dynamic value against this semantic type, producing a
    /// validated typed literal or the error that aborts compilation.
    #[verifier::loop_isolation(false)]
    pub fn fmt_value(&self, definitions: &RsDefinitions, value: Option<&DynValue>) -> (r: Result<
        TypedLiteral,
        Error,
    >)
        ensures
            match r {
                Ok(l) => coerce_spec(*self, *definitions, opt_value(value)) is Ok && lit_matches(
                    l,
                    coerce_spec(*self, *definitions, opt_value(value))->Ok_0,
                ),
                Err(e) => coerce_spec(*self, *definitions, opt_value(value)) == Err::<
                    LitV,
                    ErrorKind,
                >(e.kind_spec()),
            },
        decreases *self,
    {
        if let RsFieldType::Optional(generic) = self {
            return match value {
                Option::None => Ok(TypedLiteral::Empty),
                Option::Some(DynValue::Null) => Ok(TypedLiteral::Empty),
                Option::Some(val) => match generic.fmt_value(definitions, Option::Some(val)) {
                    Ok(l) => Ok(TypedLiteral::Present(Box::new(l))),
                    Err(e) => Err(e),
                },
            };
        }
        let val: &DynValue = match value {
            Option::Some(v) => v,
            Option::None => {
                return Err(Error::ValidationError("Mandatory object can't be null!".to_owned()));
            },
        };
        match self {
            RsFieldType::Optional(_) => {
                proof {
                    assert(false);
                }
                Err(Error::ValidationError(String::new()))
            },
            RsFieldType::Array(generic) => match val {
                DynValue::Array(elems) => {
                    let n = elems.len();
                    let mut out: Vec<TypedLiteral> = Vec::new();
                    let mut i: usize = 0;
                    while i < n
                        invariant
                            i <= n,
                            n == elems@.len(),
                            out@.len() == i,
                            forall|j: int|
                                0 <= j < i ==> coerce_spec(
                                    **generic,
                                    *definitions,
                                    Option::Some(#[trigger] elems@[j]),
                                ) is Ok,
                            forall|j: int|
                                0 <= j < i ==> lit_matches(
                                    #[trigger] out@[j],
                                    coerce_spec(
                                        **generic,
                                        *definitions,
                                        Option::Some(elems@[j]),
                                    )->Ok_0,
                                ),
                        decreases n - i,
                    {
                        match generic.fmt_value(definitions, Option::Some(&elems[i])) {
                            Ok(l) => out.push(l),
                            Err(e) => {
                                proof {
                                    lemma_coerce_list_err(
                                        **generic,
                                        *definitions,
                                        elems@,
                                        0,
                                        i as int,
                                        e.kind_spec(),
                                    );
                                    assert(coerce_list(**generic, *definitions, elems@, 0)
                                        == Err::<Seq<LitV>, ErrorKind>(e.kind_spec()));
                                    assert(coerce_present(*self, *definitions, *val) == Err::<
                                        LitV,
                                        ErrorKind,
                                    >(e.kind_spec()));
                                    assert(coerce_spec(*self, *definitions, opt_value(value))
                                        == Err::<LitV, ErrorKind>(e.kind_spec()));
                                }
                                return Err(e);
                            },
                        }
                        i = i + 1;
                    }
                    proof {
                        lemma_coerce_list_ok(**generic, *definitions, elems@, 0);
                    }
                    Ok(TypedLiteral::Array(out))
                },
                _ => Err(Error::ValidationError("Expected array!".to_owned())),
            },
            RsFieldType::Enum(name) => match val {
                DynValue::Str(s) => Ok(TypedLiteral::Enum(name.clone(), s.clone())),
                _ => Err(Error::ValidationError("Expected enum variant!".to_owned())),
            },
            RsFieldType::Int => match val {
                DynValue::Int(n) => Ok(TypedLiteral::Int(*n)),
                _ => Err(Error::ValidationError("Expected integer!".to_owned())),
            },
            RsFieldType::Float => match val {
                DynValue::Float(t) => Ok(TypedLiteral::Float(t.clone())),
                DynValue::Int(n) => {
                    let mut t = text::i64_to_string(*n);
                    t.append(".0");
                    Ok(TypedLiteral::Float(t))
                },
                _ => Err(Error::ValidationError("Expected float!".to_owned())),
            },
            RsFieldType::Str => match val {
                DynValue::Str(s) => Ok(TypedLiteral::Str(s.clone())),
                _ => Err(Error::ValidationError("Expected string!".to_owned())),
            },
            RsFieldType::Bool => match val {
                DynValue::Bool(b) => Ok(TypedLiteral::Bool(*b)),
                _ => Err(Error::ValidationError("Expected bool!".to_owned())),
            },
            RsFieldType::Color => match val {
                DynValue::Str(s) => match format_color(s.as_str()) {
                    Ok(c) => Ok(TypedLiteral::Color(c)),
                    Err(e) => Err(e),
                },
                _ => Err(Error::ValidationError("Expected color!".to_owned())),
            },
            RsFieldType::Point => match val {
                DynValue::Object(o) => match assoc_get_str(o, "cx") {
                    Option::Some(DynValue::Int(cx)) => match assoc_get_str(o, "cy") {
                        Option::Some(DynValue::Int(cy)) => Ok(
                            TypedLiteral::Point(Vec2 { x: *cx, y: *cy }),
                        ),
                        _ => Err(Error::ValidationError("cy should be integer!".to_owned())),
                    },
                    _ => Err(Error::ValidationError("cx should be integer!".to_owned())),
                },
                _ => Err(Error::ValidationError("Expected GridPoint!".to_owned())),
            },
            RsFieldType::Tile => match val {
                DynValue::Object(o) => match (
                    assoc_get_str(o, "tilesetUid"),
                    assoc_get_str(o, "x"),
                    assoc_get_str(o, "y"),
                ) {
                    (
                        Option::Some(DynValue::Int(uid)),
                        Option::Some(DynValue::Int(x)),
                        Option::Some(DynValue::Int(y)),
                    ) => match assoc_get_i64(&definitions.tilesets, *uid) {
                        Option::None => Err(
                            Error::MissingDefinition("Tile field tileset was not found!".to_owned()),
                        ),
                        Option::Some(ts) => {
                            if ts.tile_size <= 0 {
                                Err(
                                    Error::SchemaError(
                                        "Tileset grid size should be positive!".to_owned(),
                                    ),
                                )
                            } else if *x < 0 || *y < 0 {
                                Err(
                                    Error::ValidationError(
                                        "Tile pixel position should not be negative!".to_owned(),
                                    ),
                                )
                            } else {
                                Ok(
                                    TypedLiteral::Tile(
                                        *uid,
                                        Vec2 { x: *x / ts.tile_size, y: *y / ts.tile_size },
                                    ),
                                )
                            }
                        },
                    },
                    _ => Err(Error::ValidationError("Expected TilesetRect!".to_owned())),
                },
                _ => Err(Error::ValidationError("Expected TilesetRect!".to_owned())),
            },
            RsFieldType::FilePath => match val {
                DynValue::Str(s) => Ok(TypedLiteral::FilePath(s.clone())),
                _ => Err(Error::ValidationError("Expected filepath!".to_owned())),
            },
            RsFieldType::EntityRef => match val {
                DynValue::Object(o) => match assoc_get_str(o, "entityIid") {
                    Option::Some(DynValue::Str(iid)) => match assoc_get_str(
                        &definitions.entity_instances,
                        iid.as_str(),
                    ) {
                        Option::Some(inst) => Ok(
                            TypedLiteral::EntityRef(
                                EntityRef {
                                    level: inst.level,
                                    layer: inst.layer,
                                    entity: inst.entity,
                                },
                            ),
                        ),
                        Option::None => Err(
                            Error::MissingDefinition(
                                "EntityRef field points to non-existing entity!".to_owned(),
                            ),
                        ),
                    },
                    _ => Err(Error::ValidationError("entityIid should be an IID!".to_owned())),
                },
                _ => Err(Error::ValidationError("Expected EntityRef!".to_owned())),
            },
        }
    }
}

} // verus!
