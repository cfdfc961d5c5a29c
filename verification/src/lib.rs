//! Verified core of a spreadsheet-driven batch downloader.
//!
//! The library covers everything the tool decides on plain values: parsing a
//! two-column specification string, deriving a file extension and an output
//! path from a row's URL and identifier, and driving the row-by-row pipeline
//! that hands one download task at a time to the surrounding program. The
//! surrounding program performs the workbook, network and file system I/O and
//! feeds the results back as plain strings.

pub mod colspec;
pub mod errors;
pub mod filename;
pub mod pipeline;

pub use colspec::{parse_kv_pair, KvPair};
pub use errors::RunError;
pub use filename::get_extension_from_filename;
pub use pipeline::{DownloadTask, Pipeline};
