//! Spindrift: a small static-site generator library.
//!
//! A post ("droplet") carries metadata, a title, an optional image and
//! optional raw markup content.  The markup converter turns the content
//! into HTML paragraphs; the pipeline state machine tracks the run of a
//! whole source directory (scan, parse, render, summary).

pub mod context;
pub mod droplet;
pub mod errors;
pub mod markup;
pub mod pipeline;
pub mod spindrift;
pub mod text;
