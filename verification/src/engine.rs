//! The PDF engine's data: extraction options, the loaded-document handle
//! and page addressing. The calls into PDFium itself go through the
//! native library and are made by the caller.

use vstd::prelude::*;

use crate::error::SpdfError;

verus! {

/// Options controlling page extraction.
#[derive(Clone, Copy, Debug, Default, PartialEq, Eq, Structural)]
pub struct ExtractOptions {
    /// Whether to extract embedded image bounds (needed for selective OCR).
    pub extract_images: bool,
}

impl ExtractOptions {
    /// The options a parse uses: images are extracted exactly when OCR is on.
    pub fn for_ocr(ocr_enabled: bool) -> (r: Self)
        ensures
            r.extract_images == ocr_enabled,
    {
        ExtractOptions { extract_images: ocr_enabled }
    }
}

/// An opaque handle to a loaded PDF document.
pub trait PdfDocumentHandle: Send {
    /// The number of pages of the document.
    fn num_pages(&self) -> u32;
}

/// A document loaded by PDFium. The bytes are kept because PDFium re-opens
/// the document from them for every page operation.
#[derive(Debug)]
pub struct PdfiumDoc {
    bytes: Vec<u8>,
    num_pages: u32,
    password: Option<String>,
}

impl PdfiumDoc {
    /// A handle for `bytes`, which PDFium reported to hold `num_pages`
    /// pages when opened with `password`.
    pub fn new(bytes: Vec<u8>, num_pages: u32, password: Option<String>) -> (r: Self)
        ensures
            r.bytes_view() == bytes@,
            r.page_count() == num_pages,
            r.password_view() == password,
    {
        PdfiumDoc { bytes, num_pages, password }
    }

    /// The document's bytes.
    pub closed spec fn bytes_view(&self) -> Seq<u8> {
        self.bytes@
    }

    /// The page count recorded at load time.
    pub closed spec fn page_count(&self) -> u32 {
        self.num_pages
    }

    /// The password the document was opened with.
    pub closed spec fn password_view(&self) -> Option<String> {
        self.password
    }

    /// The document's bytes.
    pub fn bytes(&self) -> (r: &[u8])
        ensures
            r@ == self.bytes_view(),
    {
        self.bytes.as_slice()
    }

    /// The password the document was opened with.
    pub fn password(&self) -> (r: Option<&str>)
        ensures
            r is Some <==> self.password_view() is Some,
            r matches Some(p) ==> p@ == self.password_view()->0@,
    {
        match &self.password {
            Some(p) => Some(p.as_str()),
            None => None,
        }
    }
}

impl PdfDocumentHandle for PdfiumDoc {
    fn num_pages(&self) -> (r: u32)
        ensures
            r == self.page_count(),
    {
        self.num_pages
    }
}

/// The PDFium-backed engine. It holds no state: the library handle is
/// process-wide.
#[derive(Debug, Default)]
pub struct PdfiumEngine;

impl PdfiumEngine {
    /// A new engine.
    pub fn new() -> (r: Self) {
        PdfiumEngine
    }

    /// The engine's name.
    pub fn name(&self) -> (r: &'static str)
        ensures
            r@ == "pdfium"@,
    {
        "pdfium"
    }
}

/// The message of the error for page number 0.
pub open spec fn one_indexed_message() -> Seq<char> {
    "page numbers are 1-indexed"@
}

/// The message of the error for a page number past PDFium's 16-bit page
/// index.
pub open spec fn page_range_message() -> Seq<char> {
    "page number out of range"@
}

/// PDFium's zero-based index of a one-based page number. Page 0 is
/// refused, and so is a page number whose index does not fit the 16 bits
/// of PDFium's page collection.
pub fn page_index(page_num: u32) -> (r: Result<u16, SpdfError>)
    ensures
        page_num == 0 ==> (r matches Err(SpdfError::InvalidInput(m)) && m@ == one_indexed_message()),
        page_num > 65536 ==> (r matches Err(SpdfError::InvalidInput(m)) && m@ == page_range_message()),
        0 < page_num <= 65536 ==> r == Ok::<u16, SpdfError>((page_num - 1) as u16),
{
    if page_num == 0 {
        return Err(SpdfError::InvalidInput("page numbers are 1-indexed".to_owned()));
    }
    if page_num > 65536 {
        return Err(SpdfError::InvalidInput("page number out of range".to_owned()));
    }
    Ok((page_num - 1) as u16)
}

} // verus!
