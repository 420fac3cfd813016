//! Version-ranged struct schemas.
//!
//! A schema is one struct definition whose fields each say for which span of
//! version numbers they exist. From it this crate derives one concrete struct
//! shape per version `1..=max`, where `max` is the highest version that any
//! field mentions. The shape of the highest version keeps the schema's name;
//! every earlier one carries its version number as a suffix.
//!
//! All functions here are pure: they read a [`StructSpec`] and build fresh
//! values. Turning source text into a `StructSpec`, and turning the derived
//! shapes back into source text, is left to the caller.

pub mod decimal;
pub mod error;
pub mod expand;
pub mod generate;
pub mod laws;
pub mod range;
pub mod raw;
pub mod resolve;
pub mod schema;

pub use decimal::decimal_string;
pub use error::{ErrorKind, SchemaError};
pub use expand::{check_annotations, expand, GeneratedVariant};
pub use generate::{generate, name_variant};
pub use range::VersionRange;
pub use raw::{collect, extract_version_range, Bounds, RawField, VersionedField};
pub use resolve::resolve;
pub use schema::{
    has_duplicate_directive, is_version_attribute, Annotation, FieldIdentity, FieldSpec,
    StructSpec, FIELD_ATTR_NAME,
};
