//! The decisions of a parse that sit between the calls into the PDF and
//! OCR engines: deadlines, how many pages are looked at, which OCR engine
//! runs and with what options, which pages are OCR'd, and what happens to
//! plain-text input.

use vstd::prelude::*;

use crate::config::{language_codes, ParseConfig};
use crate::error::SpdfError;
use crate::ocr::{needs_ocr_spec, page_needs_ocr, OcrOptions};

verus! {

/// The stages after which a parse checks its deadline.
#[derive(Clone, Copy, Debug, PartialEq, Eq, Structural)]
pub enum Stage {
    Load,
    LengthScan,
    ExpandScan,
    Extract,
    Ocr,
    CidGarbageFilter,
}

/// The name of a stage as it appears in the timeout error.
pub open spec fn stage_name(s: Stage) -> Seq<char> {
    match s {
        Stage::Load => "load"@,
        Stage::LengthScan => "length-scan"@,
        Stage::ExpandScan => "expand-scan"@,
        Stage::Extract => "extract"@,
        Stage::Ocr => "ocr"@,
        Stage::CidGarbageFilter => "cid-garbage-filter"@,
    }
}

impl Stage {
    /// The stage's name.
    pub fn name(&self) -> (r: &'static str)
        ensures
            r@ == stage_name(*self),
    {
        match self {
            Stage::Load => "load",
            Stage::LengthScan => "length-scan",
            Stage::ExpandScan => "expand-scan",
            Stage::Extract => "extract",
            Stage::Ocr => "ocr",
            Stage::CidGarbageFilter => "cid-garbage-filter",
        }
    }
}

/// The message of a timeout after `stage`.
pub open spec fn timeout_message(stage: Seq<char>) -> Seq<char> {
    "spdf: timeout exceeded during "@ + stage
}

/// The deadline check after `stage`: `expired` says whether the clock has
/// passed the deadline (never, when the parse has none).
pub fn check_deadline(stage: Stage, expired: bool) -> (r: Result<(), SpdfError>)
    ensures
        !expired ==> r is Ok,
        expired ==> (r matches Err(SpdfError::InvalidInput(m)) && m@ == timeout_message(
            stage_name(stage),
        )),
{
    if expired {
        let mut v: Vec<char> = Vec::new();
        crate::text::append_str(&mut v, "spdf: timeout exceeded during ");
        crate::text::append_str(&mut v, stage.name());
        Err(SpdfError::InvalidInput(crate::text::string_of(&v)))
    } else {
        Ok(())
    }
}

/// How many pages of a document are looked at: the document's page count,
/// capped by `max_pages`.
pub fn page_limit(num_pages: u32, max_pages: u32) -> (r: u32)
    ensures
        r <= num_pages,
        r <= max_pages,
        r == num_pages || r == max_pages,
{
    if num_pages < max_pages {
        num_pages
    } else {
        max_pages
    }
}

/// The OCR engine a parser is built with.
#[derive(Debug)]
pub enum OcrEngineChoice {
    /// No OCR engine: OCR is off, or on with nothing to run it.
    Unavailable,
    /// An HTTP OCR server at this URL.
    Http(String),
    /// The built-in Tesseract engine, with this data directory.
    Tesseract(Option<String>),
}

/// Chooses the OCR engine: none when OCR is off; an HTTP server when a
/// URL is configured; else Tesseract when this build has it.
pub fn choose_ocr_engine(config: &ParseConfig, tesseract_built: bool) -> (r: OcrEngineChoice)
    ensures
        !config.ocr_enabled ==> r is Unavailable,
        config.ocr_enabled && config.ocr_server_url is Some ==> (r matches OcrEngineChoice::Http(u)
            && u@ == config.ocr_server_url->0@),
        config.ocr_enabled && config.ocr_server_url is None && tesseract_built ==> (r matches OcrEngineChoice::Tesseract(d)
            && crate::convert::found_view(d) == crate::convert::found_view(config.tessdata_path)),
        config.ocr_enabled && config.ocr_server_url is None && !tesseract_built ==> r is Unavailable,
{
    if !config.ocr_enabled {
        return OcrEngineChoice::Unavailable;
    }
    match &config.ocr_server_url {
        Some(url) => OcrEngineChoice::Http(url.as_str().to_owned()),
        None => {
            if tesseract_built {
                OcrEngineChoice::Tesseract(
                    match &config.tessdata_path {
                        Some(p) => Some(p.as_str().to_owned()),
                        None => None,
                    },
                )
            } else {
                OcrEngineChoice::Unavailable
            }
        },
    }
}

/// The options the OCR engine is called with during a parse: the
/// configured languages, with rotation correction on.
pub fn ocr_options_for(config: &ParseConfig) -> (r: OcrOptions)
    ensures
        r.languages@.map_values(|s: String| s@) == language_codes(config.ocr_language),
        r.correct_rotation,
{
    let languages = config.ocr_language.to_codes();
    OcrOptions { languages, correct_rotation: true }
}

/// What the OCR pass knows of a page before it runs: the strings of its
/// native text items and how many images it embeds.
#[derive(Debug, Clone)]
pub struct PageContent {
    pub item_texts: Vec<String>,
    pub image_count: usize,
}

/// A page's native text strings.
pub open spec fn content_texts(p: PageContent) -> Seq<Seq<char>> {
    p.item_texts@.map_values(|s: String| s@)
}

/// Indices `0..n` of the pages that need OCR, ascending.
pub open spec fn ocr_indices_spec(pages: Seq<PageContent>, n: int) -> Seq<usize>
    decreases n,
{
    if n <= 0 {
        Seq::empty()
    } else {
        let rest = ocr_indices_spec(pages, n - 1);
        if needs_ocr_spec(content_texts(pages[n - 1]), pages[n - 1].image_count as nat) {
            rest.push((n - 1) as usize)
        } else {
            rest
        }
    }
}

/// The pages that go to OCR: those with under 100 bytes of native text or
/// with embedded images, in page order.
pub fn ocr_candidates(pages: &Vec<PageContent>) -> (r: Vec<usize>)
    ensures
        r@ == ocr_indices_spec(pages@, pages@.len() as int),
{
    let mut out: Vec<usize> = Vec::new();
    let mut i: usize = 0;
    while i < pages.len()
        invariant
            i <= pages@.len(),
            out@ == ocr_indices_spec(pages@, i as int),
        decreases pages@.len() - i,
    {
        let p = &pages[i];
        if page_needs_ocr(&p.item_texts, p.image_count) {
            out.push(i);
        }
        i += 1;
    }
    out
}

/// Every page index that goes to OCR is a page that needs it, each at
/// most once, in ascending order.
pub proof fn lemma_ocr_candidates_sound(pages: Seq<PageContent>, n: int)
    requires
        0 <= n <= pages.len(),
        pages.len() <= usize::MAX,
    ensures
        ({
            let r = ocr_indices_spec(pages, n);
            &&& forall|k: int|
                0 <= k < r.len() ==> (#[trigger] r[k]) < n && needs_ocr_spec(
                    content_texts(pages[r[k] as int]),
                    pages[r[k] as int].image_count as nat,
                )
            &&& forall|j: int, k: int| 0 <= j < k < r.len() ==> (#[trigger] r[j]) < (#[trigger] r[k])
            &&& forall|i: int|
                0 <= i < n && needs_ocr_spec(content_texts(pages[i]), pages[i].image_count as nat)
                    ==> r.contains(i as usize)
        }),
    decreases n,
{
    if n > 0 {
        lemma_ocr_candidates_sound(pages, n - 1);
        let rest = ocr_indices_spec(pages, n - 1);
        let r = ocr_indices_spec(pages, n);
        let hit = needs_ocr_spec(content_texts(pages[n - 1]), pages[n - 1].image_count as nat);
        if hit {
            assert(r == rest.push((n - 1) as usize));
            assert forall|k: int| 0 <= k < r.len() implies (#[trigger] r[k]) < n && needs_ocr_spec(
                content_texts(pages[r[k] as int]),
                pages[r[k] as int].image_count as nat,
            ) by {
                if k < rest.len() {
                    assert(r[k] == rest[k]);
                }
            }
            assert forall|j: int, k: int| 0 <= j < k < r.len() implies (#[trigger] r[j]) < (
            #[trigger] r[k]) by {
                assert(r[j] == rest[j]);
                if k < rest.len() {
                    assert(r[k] == rest[k]);
                }
            }
        } else {
            assert(r == rest);
        }
        assert forall|i: int|
            0 <= i < n && needs_ocr_spec(
                content_texts(pages[i]),
                pages[i].image_count as nat,
            ) implies r.contains(i as usize) by {
            if i < n - 1 {
                assert(rest.contains(i as usize));
                let w = choose|w: int| 0 <= w < rest.len() && rest[w] == i as usize;
                assert(r[w] == rest[w]);
            } else {
                assert(r[r.len() - 1] == (n - 1) as usize);
            }
        }
    }
}

/// The error for a screenshot of plain-text input.
pub open spec fn plain_text_screenshot_message() -> Seq<char> {
    "cannot screenshot plain-text input"@
}

/// Screenshots need a PDF: plain-text input is refused.
pub fn screenshot_plain_text_error() -> (r: SpdfError)
    ensures
        r matches SpdfError::UnsupportedFormat(m) && m@ == plain_text_screenshot_message(),
{
    SpdfError::UnsupportedFormat("cannot screenshot plain-text input".to_owned())
}

/// Running headers and footers are only looked for in documents of at
/// least three pages.
pub fn strips_running_text(page_count: usize) -> (r: bool)
    ensures
        r == (page_count >= 3),
{
    page_count >= 3
}

} // verus!
