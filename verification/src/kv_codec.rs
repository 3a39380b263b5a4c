//! The byte layouts of stored values, and the checks on them. Nothing here touches a store.

pub mod neighbor;
pub mod quant;
pub mod vector;
