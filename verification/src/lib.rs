//! Tracing layer between a lazy functional runtime's heap and a tracing
//! collector: closure scanning, root enumeration, static-object evacuation
//! and weak-reference processing, stated over a word-addressed memory model.

pub mod active_plan;
pub mod binding;
pub mod collector;
pub mod edges;
pub mod ghc;
pub mod memory;
pub mod object_scanning;
pub mod scanning;
pub mod selection;
pub mod stg_closures;
pub mod stg_info_table;
pub mod types;
pub mod util;
pub mod weak_proc;
