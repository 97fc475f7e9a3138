//! The decisions of `s3-get`, a downloader for S3-compatible stores that reads
//! MinIO Client aliases and reports in JSON lines.
//!
//! Everything here is a function from plain values to plain values. Files, the
//! network and the terminal belong to the program around this crate: it performs
//! each [`session::Action`] and hands the outcome back as a [`session::Event`].
pub mod config;
pub mod course;
pub mod error;
pub mod hiding;
pub mod json;
pub mod laws;
pub mod outside;
pub mod path;
pub mod record;
pub mod session;
pub mod source;
pub mod steps;
pub mod system;
pub mod text;
