# kvgraph

Storage-side logic of graph indexes whose vectors and neighbor lists live in a key-value store
(RocksDB or redb), verified with Verus.

The library in `src/` decides which bytes are written under which keys, and what the bytes that
are read stand for. It never touches a database: a request gives the writes that are to be made,
and an answer of a database is handed in as plain bytes. What a sequence of writes and reads
amounts to is stated and proved over a model of a store as a map from keys to values.

`app/` is ordinary Rust around the library. It opens the databases, makes the reads and writes,
computes with floating-point numbers, and offers the indexes to `diskann`.

| Module | What it holds |
| --- | --- |
| `byte_image`, `words` | Numbers as bytes, in the byte order of the machine |
| `kv_codec` | What neighbor lists and vectors look like in a store |
| `store`, `write_plan`, `backend` | Stores, and writes to them |
| `neighbor_provider`, `vector_provider`, `quant_vector_provider` | The three stores of an index |
| `bits`, `table_delete_provider`, `delete_bitmap_serde` | Marks of deleted vectors, and how they are saved |
| `rocksdb` | Indexes: construction, elements, deletion, reranking, hybrid fills, saved parameters |
| `redb` | The configuration of redb stores |
| `kv_range`, `rocksdb_store` | A general key-value store with range scans |
| `benchmark` | The benchmarks of indexes in RocksDB |

The proof functions named `law_...` state what holds across several functions.
