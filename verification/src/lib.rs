//! The execution core of a Gremlin-style graph traversal engine: the values a
//! traversal carries, the graph elements it visits, the traverser that flows
//! through the dataflow, the scoping and join machinery behind nested
//! sub-traversals, the aggregate operators, and the encoding of finished
//! results.

pub mod error;
pub mod multiplex;
pub mod object;
pub mod path;
pub mod property;
pub mod reduce;
pub mod result_process;
pub mod scope;
pub mod sharing;
pub mod structure;
pub mod sub_traversal;
pub mod traverser;
pub mod wire;
