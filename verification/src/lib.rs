//! A minimal paste-sharing service: the paste table, the rules of its four
//! operations (create, list, read, count a click) and the shaping of the
//! answers that clients see.

pub mod clock;
pub mod config;
pub mod ident;
pub mod laws;
pub mod record;
pub mod service;
pub mod store;
pub mod table;
