//! From the output of an OCR program to a description of an image.

pub mod block;
pub mod layout;
pub mod request;
pub mod summary;
pub mod tsv;
