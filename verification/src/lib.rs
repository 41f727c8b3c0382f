//! Tolerant decoding of the replies of a remote JSON API.
//!
//! - [`json`]: a JSON document as plain values.
//! - [`decimal`]: reading and writing decimal numerals.
//! - [`objects`]: the objects of the API, and the decoders of fields that the
//!   API writes now as a number and now as a string.
//! - [`api`]: what is sent with a call, what its reply resolves to, and where
//!   a reply is traced.
//! - [`methods`]: the names of the methods of the API.

pub mod api;
pub mod decimal;
pub mod json;
pub mod methods;
pub mod objects;
