//! Bookkeeping and per-frame decisions of a render graph: slot declarations,
//! edges between nodes, node records with slot validation, the node
//! interface with its utility nodes, the per-entity GPU array feeder and the
//! feature check of the raytracing plugin.

pub mod label;
pub mod edge;
pub mod node;
pub mod context;
pub mod gpu_array;
pub mod solari;
pub mod graph;
