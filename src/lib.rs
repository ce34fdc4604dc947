//! Turns a graph of Borsh struct and enum definitions into TypeScript class
//! stubs and the schema table used by borsh-js for (de)serialization.
//!
//! The heart of the library is a parser for stringified Rust type signatures
//! (`HashMap<Array<u8, 32>, Pubkey>`) and a builder that flattens enums into
//! one struct layout per variant.

pub mod borsh_type;
pub mod emit;
pub mod field;
pub mod generate;
pub mod layout;
pub mod schema;
pub mod split;
pub mod text;

pub use borsh_type::{BorshType, Fault, ParseError, Wrapper};
pub use emit::{render_output, LIB_PREAMBLE};
pub use field::{FieldError, LayoutField};
pub use generate::{build_layouts_of, generate_schema_text};
pub use layout::{BuildError, Kind, Layout};
pub use schema::{Definition, Fields, SchemaContainer};
pub use split::split_top_level;
