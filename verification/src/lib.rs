//! spdf: PDF text extraction with selective OCR. This crate holds the
//! parts of the pipeline that decide on bytes and text, each with its
//! contract; the PDF engine, OCR servers, converter processes and
//! floating-point layout geometry are driven by the caller.

use vstd::prelude::*;

pub mod text;
pub mod clean_text;
pub mod text_utils;
pub mod pdf_scan;
pub mod flate_scan;
pub mod error;
pub mod pages;
pub mod config;
pub mod guards;
pub mod ocr;
pub mod layout;
pub mod running_text;
pub mod convert;
pub mod search;
pub mod engine;
pub mod types;
pub mod pipeline;
pub mod platform;
pub mod cli;
pub mod tsv;
pub mod command;
