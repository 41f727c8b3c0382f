//! The objects that the remote API returns, and the decoders of their fields.

pub mod document;
pub mod invariant_deserialize;
pub mod newsfeed;
pub mod poll;
