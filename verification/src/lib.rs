//! Request logic of the index settings routes: which settings a request
//! writes or clears, and how the stored values are assembled for a read.
pub mod error;
pub mod settings;
pub mod schema;
pub mod text;
pub mod collections;
pub mod read;
pub mod update;
pub mod laws;
