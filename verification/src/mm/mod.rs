//! Address spaces: addresses, page numbers and the per-task mapping table.

pub mod address;
pub mod memory_set;
