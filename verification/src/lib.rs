//! A typed attribute-value model for a schema-flexible key-value store, with
//! the predicate language used by searches and conditional updates and an
//! in-memory space that gives every client operation an exact meaning.

pub mod error;
pub mod assoc;
pub mod scalar;
pub mod collection;
pub mod value;
pub mod object;
pub mod predicate;
pub mod schema;
pub mod space;
pub mod stream;
pub mod store;
pub mod client;
pub mod pipeline;
pub mod expect;
pub mod scenario;
pub mod laws;
