//! A differential tester for JSON web APIs.
//!
//! The same request goes to two backends, a candidate and the reference
//! that it is held against, and the two JSON responses must have the same
//! shape: the same keys, the same array lengths and the same kind of value
//! at every position. What the values are plays no part.
//!
//! - [`json`] holds the JSON values and their mathematical view.
//! - [`shape`] says what it means to have the same shape, and where two
//!   values first differ.
//! - [`comparator`] walks two values and reports the first difference.
//! - [`laws`] holds what is proved of the comparison for all values.
//! - [`error`] holds the failures and their descriptions.
//! - [`client`] plans the requests and gives the verdict on the responses.
//! - [`encoding`] is where `serde_json` and `serde_urlencoded` are called.
//! - [`endpoints`] is the catalog of endpoints.
//!
//! The crate sends nothing itself: whoever drives it sends the planned
//! requests and hands the responses back.

pub mod client;
pub mod comparator;
pub mod encoding;
pub mod endpoints;
pub mod error;
pub mod json;
pub mod laws;
pub mod shape;
