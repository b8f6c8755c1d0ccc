//! A graph-to-bytecode compiler and stack virtual machine for a visual
//! flow-graph language.
//!
//! A graph of typed nodes (literals, function calls, ownership adapters,
//! structure breakdown/buildup, loops, queries) is compiled into a linear
//! instruction sequence which a small stack machine executes against a host
//! object model reached through a function table and query interface.

pub mod bytecode;
pub mod compiler;
pub mod display;
pub mod graph;
pub mod resolve;
pub mod scope_map;
pub mod state;
pub mod types;
pub mod value;
pub mod vm;
