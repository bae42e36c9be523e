//! Verified core of a document text-extraction service: request
//! validation, result identifiers, upload bookkeeping and response assembly.

pub mod access;
pub mod config;
pub mod error;
pub mod files;
pub mod health;
pub mod ids;
pub mod response;
pub mod text;
pub mod urls;
