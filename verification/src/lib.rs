//! A verified token-factory registry: denom name validation, an
//! admin/metadata registry state machine, read-only queries over it, and a
//! small length-delimited reply codec.

pub mod decode;
pub mod denom;
pub mod error;
pub mod msg;
pub mod query;
pub mod registry;
pub mod types;
