//! Passive subdomain discovery: target normalisation, per-source response
//! normalisation, merging and filtering of candidate names, and the resolver
//! fallback chain used to enrich results with an address.

pub mod text;
pub mod domains;
pub mod target;
pub mod sources;
pub mod resolve;
pub mod output;
