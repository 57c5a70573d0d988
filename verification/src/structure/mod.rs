//! The property graph as the engine sees it: labels, property accessors,
//! vertices, edges, and the element that wraps either of them.

pub mod details;
pub mod edge;
pub mod element;
pub mod label;
pub mod vertex;
