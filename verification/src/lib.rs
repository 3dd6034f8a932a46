//! Turns the HTML documentation tables of a remote API into a typed
//! schema, and renders that schema as Rust type declarations with
//! constructors and accessors.
//!
//! The pipeline runs in two stages.  `parser` walks the document tree for
//! class-marked tables, reads each table's heading, prose and rows, and
//! classifies it as a data entity (three columns) or a callable operation
//! (four columns); a field's raw type text is resolved into a scalar, an
//! array or an enumerated alternative on demand.  `generator` turns the
//! schema into source text: one enumeration per alternative-typed field,
//! deduplicated by derived name, one record per entity and operation, and
//! a constructor, setters and getters for every record, rendered
//! deterministically.
//!
//! `dom` models the parsed document as a plain tree of elements and text,
//! and `strutil` and `casing` hold the character-level helpers the two
//! stages share.

pub mod casing;
pub mod dom;
pub mod generator;
pub mod parser;
pub mod strutil;
