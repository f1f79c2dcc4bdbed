//! The store of the registry: its tables, the rules that hold of them, and
//! what putting rows in and deleting rows does to them.

pub mod entities;
pub mod graph;
pub mod rows;
pub mod store;
