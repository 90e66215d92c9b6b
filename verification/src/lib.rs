//! Library for downloading historical captures of a URL from the Wayback
//! Machine: resolving partial date ranges, reconstructing canonical capture
//! timestamps from the calendar API's truncated wire format, filtering
//! captures, and planning the retrying, resumable download pipeline.
pub mod digits;
pub mod error;
pub mod capture_filter;
pub mod cli;
pub mod output_directory;
pub mod resolver;
pub mod scheduler;
pub mod retry;
pub mod wbm_api;
pub mod wbm_chrono;
pub mod wbm_date;
