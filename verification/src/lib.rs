//! An in-memory, concurrently accessed record store: a fixed set of
//! independently locked partitions ("tables"), each mapping numeric item
//! ids to immutable item records, exposed through a small line-based
//! text protocol.

pub mod api;
pub mod item;
pub mod lock;
pub mod restaurant;
pub mod rng;
pub mod router;
pub mod table;
pub mod text;

pub use item::Item;
pub use lock::Mutex;
pub use restaurant::Restaurant;
pub use restaurant::TablePtr;
pub use table::Table;
