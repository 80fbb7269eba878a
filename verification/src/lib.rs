//! A virtual directory over remote manga catalogs: a fetch-once snapshot
//! cache, a filter-directive compiler, an order-preserving filter engine,
//! a fixed-size paginator, and a URL slug canonicalizer.

pub mod cache;
pub mod criteria;
pub mod encode;
pub mod entry;
pub mod filter;
pub mod record;
pub mod paginate;
pub mod parse;
pub mod query;
pub mod slug;
pub mod strutil;

pub use entry::Status;
