//! Document sources, annotation data and page renders.

use vstd::prelude::*;

use crate::pages::all_pages;
use crate::text::{decimal_string, u64_to_decimal};

verus! {

/// Filesystem paths, carried through opaquely.
#[verifier::external_type_specification]
#[verifier::external_body]
pub struct ExPathBuf(std::path::PathBuf);

/// `PathBuf::clone`; nothing is claimed of the copy.
pub assume_specification[ <std::path::PathBuf as std::clone::Clone>::clone ](
    p: &std::path::PathBuf,
) -> std::path::PathBuf;

/// A document source: either a file path or raw bytes.
#[derive(Debug, Clone)]
pub enum ParseInput {
    /// Path to a file on disk.
    Path(std::path::PathBuf),
    /// In-memory bytes. PDFs go straight to the parser; other formats are
    /// written out for conversion first.
    Bytes(Vec<u8>),
}

impl From<Vec<u8>> for ParseInput {
    fn from(b: Vec<u8>) -> (r: Self) {
        ParseInput::Bytes(b)
    }
}

impl vstd::std_specs::convert::FromSpecImpl<Vec<u8>> for ParseInput {
    open spec fn obeys_from_spec() -> bool {
        true
    }

    open spec fn from_spec(b: Vec<u8>) -> ParseInput {
        ParseInput::Bytes(b)
    }
}

impl From<std::path::PathBuf> for ParseInput {
    fn from(p: std::path::PathBuf) -> (r: Self) {
        ParseInput::Path(p)
    }
}

impl vstd::std_specs::convert::FromSpecImpl<std::path::PathBuf> for ParseInput {
    open spec fn obeys_from_spec() -> bool {
        true
    }

    open spec fn from_spec(p: std::path::PathBuf) -> ParseInput {
        ParseInput::Path(p)
    }
}

impl ParseInput {
    /// The size of an in-memory input; none for a path.
    pub fn byte_len(&self) -> (r: Option<usize>)
        ensures
            match self {
                ParseInput::Bytes(b) => r == Some(b@.len() as usize),
                ParseInput::Path(_) => r is None,
            },
    {
        match self {
            ParseInput::Bytes(b) => Some(b.len()),
            ParseInput::Path(_) => None,
        }
    }
}

/// Markup annotation data associated with a text item.
#[derive(Debug, Clone, Default, PartialEq)]
pub struct MarkupData {
    pub highlight: Option<String>,
    pub underline: Option<bool>,
    pub squiggly: Option<bool>,
    pub strikeout: Option<bool>,
}

impl MarkupData {
    /// No markup at all.
    pub fn none() -> (r: Self)
        ensures
            r.highlight is None,
            r.underline is None,
            r.squiggly is None,
            r.strikeout is None,
    {
        MarkupData { highlight: None, underline: None, squiggly: None, strikeout: None }
    }

    /// Whether the item is struck out.
    pub fn is_struck_out(&self) -> (r: bool)
        ensures
            r == (self.strikeout == Some(true)),
    {
        match self.strikeout {
            Some(b) => b,
            None => false,
        }
    }
}

/// The text of an item as rendered with its markup. Markup is carried in
/// the data but not drawn into the text: the text comes back unchanged.
pub fn apply_markup_tags(markup: &MarkupData, text: &str) -> (r: String)
    ensures
        r@ == text@,
{
    text.to_owned()
}

/// Snap alignment for a projection box.
#[derive(Clone, Copy, Debug, PartialEq, Eq, Structural)]
pub enum Snap {
    Left,
    Right,
    Center,
}

impl Snap {
    /// The lower-case name used in JSON.
    pub fn as_str(&self) -> (r: &'static str)
        ensures
            r@ == match self {
                Snap::Left => "left"@,
                Snap::Right => "right"@,
                Snap::Center => "center"@,
            },
    {
        match self {
            Snap::Left => "left",
            Snap::Right => "right",
            Snap::Center => "center",
        }
    }
}

/// Result of rendering a page to an image.
#[derive(Debug, Clone)]
pub struct ScreenshotResult {
    pub page_num: u32,
    pub width: u32,
    pub height: u32,
    pub image_buffer: Vec<u8>,
    pub image_path: Option<std::path::PathBuf>,
}

impl ScreenshotResult {
    /// A freshly rendered page, not yet written anywhere. Width and height
    /// are left 0, meaning "not decoded".
    pub fn rendered(page_num: u32, image_buffer: Vec<u8>) -> (r: Self)
        ensures
            r.page_num == page_num,
            r.width == 0,
            r.height == 0,
            r.image_buffer@ == image_buffer@,
            r.image_path is None,
    {
        ScreenshotResult { page_num, width: 0, height: 0, image_buffer, image_path: None }
    }
}

/// The pages a screenshot renders: those asked for, in the order asked,
/// else every page of the document.
pub fn screenshot_targets(total: u32, requested: Option<Vec<u32>>) -> (r: Vec<u32>)
    ensures
        match requested {
            Some(v) => r@ == v@,
            None => r@ == all_pages(total),
        },
{
    match requested {
        Some(v) => v,
        None => {
            let mut out: Vec<u32> = Vec::new();
            let mut p: u32 = 0;
            while p < total
                invariant
                    p <= total,
                    out@ == all_pages(p),
                decreases total - p,
            {
                p += 1;
                out.push(p);
                assert(out@ =~= all_pages(p));
            }
            out
        },
    }
}

/// The file name a page render is saved under: `page-<n>.png`.
pub open spec fn screenshot_name_spec(page_num: u32) -> Seq<char> {
    "page-"@ + decimal_string(page_num as nat) + ".png"@
}

/// The file name a page render is saved under.
pub fn screenshot_file_name(page_num: u32) -> (r: String)
    ensures
        r@ == screenshot_name_spec(page_num),
{
    let mut v: Vec<char> = Vec::new();
    crate::text::append_str(&mut v, "page-");
    let digits = u64_to_decimal(page_num as u64);
    crate::text::append_str(&mut v, digits.as_str());
    crate::text::append_str(&mut v, ".png");
    assert(v@ =~= screenshot_name_spec(page_num));
    crate::text::string_of(&v)
}

} // verus!
