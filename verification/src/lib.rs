//! Search-result extraction and media-acquisition planning for a video
//! catalogue: locating the embedded result payload in a scraped page, reading
//! it into typed track records, and describing the external tool runs that
//! turn a track into a local audio file.

pub mod address;
pub mod duration;
pub mod error;
pub mod extract;
pub mod json;
pub mod pattern;
pub mod plugin;
pub mod process;
pub mod resolve;
pub mod results;
pub mod text;
pub mod track;

pub use plugin::YouTube;
pub use process::{download_fn, stream_fn};
