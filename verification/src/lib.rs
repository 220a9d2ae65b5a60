//! A small store of knock-knock jokes: the record type, the keyed store with
//! its uniqueness rule, and the decisions of the two persistence backends.

pub mod api;
pub mod auth;
pub mod authjwt;
pub mod dberror;
pub mod file_store;
pub mod joke;
pub mod jokebase;
pub mod json;
pub mod laws;
pub mod model;
pub mod refinement;
pub mod relational;
pub mod response;
pub mod text;
pub mod transaction;
pub mod web;
