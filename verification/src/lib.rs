//! Schema-driven settings records.
//!
//! A [`schema::Schema`] declares the fields of a record: a name, an external
//! key used when the record is exchanged with a string-keyed store, a value
//! kind, a default, and an optional "excluded" marker. A [`record::Record`]
//! built from such a schema holds one value per field and tracks which fields
//! were mutated since construction or since the last acknowledged save, so
//! that pending changes can be exported to — and records loaded from — a flat
//! string-to-string map, with decode failures isolated per field.

pub mod codec;
pub mod laws;
pub mod record;
pub mod schema;
pub mod value;
