//! Media extraction and download planning: site matchers, the extractor
//! dispatcher, the site extractors' parsing, format selection, file naming and
//! the progress arithmetic of a transfer.

pub mod text;
pub mod model;
pub mod quality;
pub mod pattern;
pub mod youtube;
pub mod twitter;
pub mod generic;
pub mod extractors;
pub mod download;
pub mod progress;
