//! Client library for a web-page capture service: builds signed request URLs
//! for screenshots, PDFs, page content, metadata and animated captures.
pub mod client;
pub mod options;
pub mod query;
pub mod request_type;
pub mod signing;
pub mod structured;

pub use client::{Capture, CaptureError, CaptureOptions, ContentResponse, MetadataResponse};
pub use options::{FiniteNumber, Number, OptionValue, RequestOptions};
pub use request_type::RequestType;
pub use structured::{ContentOptions, MetadataOptions, PdfOptions, ScreenshotOptions};
