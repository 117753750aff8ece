//! Trending-token extraction from a market-data page: the browser-like
//! header set sent with the request, and the walk over the returned markup
//! that turns each table anchor into a `"name (symbol)"` entry.

pub mod error;
pub mod extract;
pub mod headers;
pub mod laws;
pub mod pipeline;
