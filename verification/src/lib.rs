//! A small CRUD layer for a task/user service: the request-handling rules
//! (defaulting, partial updates, existence checks, response shaping) verified
//! over an exact model of the two relational tables they drive.

pub mod handlers;
pub mod laws;
pub mod model;
pub mod store;
