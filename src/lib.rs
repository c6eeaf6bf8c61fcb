//! Discovery and rendering of named business routes through a directed
//! multigraph of applications and their communication links.

pub mod graph;
pub mod laws;
pub mod models;
pub mod render;
pub mod routes;
pub mod visit;
