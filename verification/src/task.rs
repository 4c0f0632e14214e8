//! The load of a feed into the store.

pub mod load_gtfs;
pub mod plan;
pub mod stop_order;
pub mod store;
