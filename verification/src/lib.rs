//! Search aggregation for a content front-end.
//!
//! The library holds the decisions of one search request: how the inbound
//! query string is normalised, which upstream lookups are issued, how the
//! answers of two independently failing lookups are merged into one view,
//! and which text is escaped on the way out. Every function is stated over
//! plain values; the transport and the rendering live with the caller.

pub mod text;
pub mod number;
pub mod params;
pub mod escape;
pub mod suggest;
pub mod assemble;
