//! Storage-side logic of graph indexes whose vectors and neighbor lists live in a key-value
//! store.
//!
//! The library decides which bytes are written under which keys, and what the bytes that are
//! read stand for. The stores themselves are driven by the caller: a request gives the writes
//! that are to be made, and an answer of a store is handed in as plain bytes.
//!
//! * [`byte_image`], [`words`]: numbers as bytes.
//! * [`kv_codec`]: what neighbor lists and vectors look like in a store.
//! * [`store`], [`write_plan`], [`backend`]: stores, and writes to them.
//! * [`neighbor_provider`], [`vector_provider`], [`quant_vector_provider`]: the three stores of
//!   an index.
//! * [`bits`], [`table_delete_provider`], [`delete_bitmap_serde`]: the marks of deleted vectors,
//!   and how they are saved.
//! * [`rocksdb`], [`redb`]: indexes in one of these stores.
//! * [`kv_range`], [`rocksdb_store`]: a general key-value store with range scans.
//! * [`benchmark`]: the benchmarks of indexes in RocksDB.

pub mod adjacency;
pub mod backend;
pub mod benchmark;
pub mod bits;
pub mod byte_image;
pub mod delete_bitmap_serde;
pub mod error;
pub mod kv_codec;
pub mod kv_range;
pub mod metric;
pub mod neighbor_provider;
pub mod quant_vector_provider;
pub mod redb;
pub mod rocksdb;
pub mod rocksdb_store;
pub mod store;
pub mod table_delete_provider;
pub mod text;
pub mod vector_id;
pub mod vector_provider;
pub mod words;
pub mod write_plan;
