//! In-memory data model for Ion values: annotated elements, ordered
//! sequences, multi-valued structs, and the two equality relations
//! (structural equality and Ion equivalence) defined over them.

pub mod symbol;
pub mod scalar;
pub mod integer;
pub mod element;
pub mod builders;
pub mod reader;
