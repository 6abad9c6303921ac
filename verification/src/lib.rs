//! Core of a multi-display screen-capture and OCR pipeline.
//!
//! The library captures no pixels and spawns no processes itself: callers
//! acquire raw display data and backend output at the edge and hand plain
//! values in. Everything the pipeline computes from those values — pixel
//! canonicalization, bitmap encoding, scale-factor resolution, coordinate
//! conversion, text-layout reconstruction — is verified here.

pub mod bmp;
pub mod cache;
pub mod capture;
pub mod cursor;
pub mod elements;
pub mod error;
pub mod lang;
pub mod ocr;
pub mod paths;
pub mod pixels;
pub mod scale;
pub mod tesseract;
pub mod text;
pub mod tsv;
pub mod vision;
