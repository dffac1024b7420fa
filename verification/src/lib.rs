//! A verified compiler from a tile-based 2D level editor's dynamic JSON
//! project export into a statically structured, spatially indexed world model.
//!
//! The crate models the raw project (`schema`), resolves dynamic field type
//! descriptors and coerces raw values (`definitions`), compiles the declared
//! definitions (`typedefs`), builds the layer representations with their
//! autotile stitching and assembles the addressable world (`level`), whose
//! spatially indexed model lives in `header` and `world`.

pub mod definitions;
pub mod header;
pub mod level;
pub mod schema;
pub mod table;
pub mod text;
pub mod typedefs;
pub mod world;

pub use header::Vec2;
