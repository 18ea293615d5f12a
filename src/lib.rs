//! Extraction of job-posting records from HTML documents of unknown layout.
//!
//! A parsed page is a [`document::Document`]: nodes in document order with
//! their depths. Four strategies ([`strategy`]) propose containers; validators
//! ([`validate`]) reject noise; field extractors ([`fields`]) fill each
//! [`record::JobRecord`] through structural then textual steps; the records of
//! all pages are concatenated and deduplicated once ([`dedup`], [`pipeline`]).
pub mod text;
pub mod document;
pub mod selector;
pub mod validate;
pub mod fields;
pub mod record;
pub mod strategy;
pub mod dedup;
pub mod pipeline;
pub mod report;
