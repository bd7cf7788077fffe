//! Verified core of a tool that merges raster images into one PDF document,
//! one image per page.
//!
//! The crate decides everything that can be decided without touching the
//! file system or the PDF encoder: which inputs are taken and in which
//! order, how each image is decoded and fitted into the scaling frame, how
//! large its page is, and which pages the finished document holds.

pub mod assembly;
pub mod codec;
pub mod config;
pub mod error;
pub mod geometry;
pub mod inputs;
