//! The decision-making core of a small SQL query gateway: cutting
//! tab-separated result lines into cells, decoding a header-first stream of
//! lines into a bounded table, and wrapping the outcome of a query in a
//! uniform response.

pub mod decoder;
pub mod fields;
pub mod gateway;
pub mod limit;
pub mod response;
pub mod text;
