//! A verified log-search core: ingestion-side normalization and batching,
//! and the query-side planning that serves listings and density histograms
//! over named, filtered views.

pub mod batch;
pub mod decode;
pub mod density;
pub mod engine;
pub mod json;
pub mod model;
pub mod numfmt;
pub mod paging;
pub mod registry;
pub mod row;
pub mod sqlgen;
pub mod timefmt;
pub mod tokenize;
