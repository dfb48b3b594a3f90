//! An in-memory property graph with composable traversal pipelines.
//!
//! A [`Graph`] owns its vertices and edges; vertices are referred to by their
//! position in insertion order. A [`Traversal`] is a list of [`Step`]s that
//! `execute` folds over the graph.
pub mod graph;
pub mod laws;
pub mod traversal;

pub use graph::{Edge, EdgeBuilder, EdgeError, Graph, Vertex, VertexBuilder};
pub use traversal::{Step, Traversal, TraversalError};
