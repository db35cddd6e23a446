//! A small supplier-directory HTTP API: a route tree that resolves resource
//! paths to typed query descriptors, and an assembler that turns relational
//! rows into nested JSON documents.

pub mod errors;
pub mod text;
pub mod document;
pub mod query_types;
pub mod routing;
pub mod data_structs;
pub mod config;
pub mod tables;
pub mod sql;
pub mod get_processing;
pub mod post_processing;
pub mod responses;
pub mod socket;
pub mod connection;
pub mod request;
pub mod ieee;
