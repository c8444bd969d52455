//! A crawler library for a paginated film catalog: extraction of catalog
//! records and download variants, idempotent persistence semantics, and the
//! checkpointed crawl state machine.

pub mod crawl;
pub mod extract;
pub mod model;
pub mod store;
pub mod text;
