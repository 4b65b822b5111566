//! Copy-and-deduplicate engine: every regular file's content is routed through
//! a content-addressed store, displaced destinations are renamed aside, and
//! each handler's decisions are stated and proved here. The filesystem calls
//! themselves are made by the caller, which reports what it observed.
pub mod bytes;
pub mod hasher;
pub mod kinds;
pub mod paths;
pub mod plan;
pub mod store;
pub mod walk;
