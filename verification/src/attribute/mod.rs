//! The attribute-list codec: values and their text, the tokenizer, schemas,
//! and the tags that are projected from and serialized to attribute lists.

pub mod laws;
pub mod scan;
pub mod schema;
pub mod tag;
pub mod tokenizer;
pub mod value;

pub use schema::{FieldSchema, FieldSpec, VersionRule};
pub use tag::{parse_tag, project, Tag};
pub use tokenizer::{tokenize, RawAttribute, RawAttributeList};
pub use value::{decode, encode, AttributeValue, ValueKind};
