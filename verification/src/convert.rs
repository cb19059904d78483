//! Format-conversion decisions: which converter an input extension goes
//! to, what extension an in-memory blob gets, and how the converter
//! binaries are recognised. The conversions themselves shell out and
//! stay with the caller.

use vstd::prelude::*;

use crate::layout::lines_of;
use crate::ocr::{ascii_lower, ascii_lowercase};
use crate::pdf_scan::contains_bytes;
use crate::error::SpdfError;
use crate::text::{chars_eq_str, chars_of, copy_range, string_of, trim, trim_vec};

verus! {

/// The extension `infer` detects for `bytes`, if any (`infer::get`
/// followed by `Type::extension`).
pub uninterp spec fn sniffed_extension(bytes: Seq<u8>) -> Option<Seq<char>>;

/// `infer::get(bytes).map(|t| t.extension())`.
#[verifier::external_body]
fn sniff_extension(bytes: &[u8]) -> (r: Option<&'static str>)
    ensures
        r is Some <==> sniffed_extension(bytes@) is Some,
        r matches Some(e) ==> sniffed_extension(bytes@) == Some(e@),
{
    infer::get(bytes).map(|t| t.extension())
}

/// Guess a file extension from raw bytes by their magic numbers.
pub fn guess_extension_from_buffer(bytes: &[u8]) -> (r: Option<&'static str>)
    ensures
        r is Some <==> sniffed_extension(bytes@) is Some,
        r matches Some(e) ==> sniffed_extension(bytes@) == Some(e@),
{
    sniff_extension(bytes)
}

/// Where an input goes, by extension.
#[derive(Clone, Copy, Debug, PartialEq, Eq, Structural)]
pub enum ConversionKind {
    /// Already a PDF.
    Pdf,
    /// Plain text, used verbatim.
    PlainText,
    /// Office documents and spreadsheets, converted by LibreOffice.
    Office,
    /// Raster and vector images, converted by ImageMagick.
    Image,
    /// HTML, converted by LibreOffice.
    Html,
    /// Anything else: read as UTF-8 text if possible.
    Unknown,
}

/// Extensions LibreOffice converts (office documents and spreadsheets).
pub open spec fn office_exts() -> Seq<Seq<char>> {
    seq![
        "doc"@, "docx"@, "docm"@, "dot"@, "dotm"@, "dotx"@, "odt"@, "ott"@, "ppt"@, "pptx"@,
        "pptm"@, "pot"@, "potm"@, "potx"@, "odp"@, "otp"@, "rtf"@, "pages"@, "key"@, "xls"@,
        "xlsx"@, "xlsm"@, "xlsb"@, "ods"@, "ots"@, "csv"@, "tsv"@, "numbers"@,
    ]
}

/// Extensions ImageMagick converts.
pub open spec fn image_exts() -> Seq<Seq<char>> {
    seq!["jpg"@, "jpeg"@, "png"@, "gif"@, "bmp"@, "tiff"@, "tif"@, "webp"@, "svg"@]
}

/// HTML extensions.
pub open spec fn html_exts() -> Seq<Seq<char>> {
    seq!["htm"@, "html"@, "xhtml"@]
}

/// Plain-text extensions.
pub open spec fn plain_text_exts() -> Seq<Seq<char>> {
    seq!["txt"@, "md"@, "log"@]
}

/// Image formats whose conversion needs Ghostscript.
pub open spec fn ghostscript_exts() -> Seq<Seq<char>> {
    seq!["svg"@, "eps"@, "ps"@, "ai"@]
}

/// The converter for a lower-cased extension.
pub open spec fn classify_spec(ext: Seq<char>) -> ConversionKind {
    if ext == "pdf"@ {
        ConversionKind::Pdf
    } else if plain_text_exts().contains(ext) {
        ConversionKind::PlainText
    } else if office_exts().contains(ext) {
        ConversionKind::Office
    } else if image_exts().contains(ext) {
        ConversionKind::Image
    } else if html_exts().contains(ext) {
        ConversionKind::Html
    } else {
        ConversionKind::Unknown
    }
}

/// Every extension goes to its converter, whatever the case of its
/// letters: `pdf` passes through; `txt`, `md` and `log` are plain text;
/// word-processing, presentation and spreadsheet formats (`doc`, `docx`,
/// `docm`, `dot`, `dotm`, `dotx`, `odt`, `ott`, `ppt`, `pptx`, `pptm`,
/// `pot`, `potm`, `potx`, `odp`, `otp`, `rtf`, `pages`, `key`, `xls`,
/// `xlsx`, `xlsm`, `xlsb`, `ods`, `ots`, `csv`, `tsv`, `numbers`) go to
/// LibreOffice; raster and vector images (`jpg`, `jpeg`, `png`, `gif`,
/// `bmp`, `tiff`, `tif`, `webp`, `svg`) to ImageMagick; and `htm`, `html`,
/// `xhtml` are HTML.
pub proof fn extensions_go_to_their_converter(ext: Seq<char>)
    ensures
        ascii_lower(ext) == "pdf"@ ==> classify_spec(ascii_lower(ext)) == ConversionKind::Pdf,
        ascii_lower(ext) == "txt"@ ==> classify_spec(ascii_lower(ext)) == ConversionKind::PlainText,
        ascii_lower(ext) == "md"@ ==> classify_spec(ascii_lower(ext)) == ConversionKind::PlainText,
        ascii_lower(ext) == "log"@ ==> classify_spec(ascii_lower(ext)) == ConversionKind::PlainText,
        ascii_lower(ext) == "doc"@ ==> classify_spec(ascii_lower(ext)) == ConversionKind::Office,
        ascii_lower(ext) == "docx"@ ==> classify_spec(ascii_lower(ext)) == ConversionKind::Office,
        ascii_lower(ext) == "docm"@ ==> classify_spec(ascii_lower(ext)) == ConversionKind::Office,
        ascii_lower(ext) == "dot"@ ==> classify_spec(ascii_lower(ext)) == ConversionKind::Office,
        ascii_lower(ext) == "dotm"@ ==> classify_spec(ascii_lower(ext)) == ConversionKind::Office,
        ascii_lower(ext) == "dotx"@ ==> classify_spec(ascii_lower(ext)) == ConversionKind::Office,
        ascii_lower(ext) == "odt"@ ==> classify_spec(ascii_lower(ext)) == ConversionKind::Office,
        ascii_lower(ext) == "ott"@ ==> classify_spec(ascii_lower(ext)) == ConversionKind::Office,
        ascii_lower(ext) == "ppt"@ ==> classify_spec(ascii_lower(ext)) == ConversionKind::Office,
        ascii_lower(ext) == "pptx"@ ==> classify_spec(ascii_lower(ext)) == ConversionKind::Office,
        ascii_lower(ext) == "pptm"@ ==> classify_spec(ascii_lower(ext)) == ConversionKind::Office,
        ascii_lower(ext) == "pot"@ ==> classify_spec(ascii_lower(ext)) == ConversionKind::Office,
        ascii_lower(ext) == "potm"@ ==> classify_spec(ascii_lower(ext)) == ConversionKind::Office,
        ascii_lower(ext) == "potx"@ ==> classify_spec(ascii_lower(ext)) == ConversionKind::Office,
        ascii_lower(ext) == "odp"@ ==> classify_spec(ascii_lower(ext)) == ConversionKind::Office,
        ascii_lower(ext) == "otp"@ ==> classify_spec(ascii_lower(ext)) == ConversionKind::Office,
        ascii_lower(ext) == "rtf"@ ==> classify_spec(ascii_lower(ext)) == ConversionKind::Office,
        ascii_lower(ext) == "pages"@ ==> classify_spec(ascii_lower(ext)) == ConversionKind::Office,
        ascii_lower(ext) == "key"@ ==> classify_spec(ascii_lower(ext)) == ConversionKind::Office,
        ascii_lower(ext) == "xls"@ ==> classify_spec(ascii_lower(ext)) == ConversionKind::Office,
        ascii_lower(ext) == "xlsx"@ ==> classify_spec(ascii_lower(ext)) == ConversionKind::Office,
        ascii_lower(ext) == "xlsm"@ ==> classify_spec(ascii_lower(ext)) == ConversionKind::Office,
        ascii_lower(ext) == "xlsb"@ ==> classify_spec(ascii_lower(ext)) == ConversionKind::Office,
        ascii_lower(ext) == "ods"@ ==> classify_spec(ascii_lower(ext)) == ConversionKind::Office,
        ascii_lower(ext) == "ots"@ ==> classify_spec(ascii_lower(ext)) == ConversionKind::Office,
        ascii_lower(ext) == "csv"@ ==> classify_spec(ascii_lower(ext)) == ConversionKind::Office,
        ascii_lower(ext) == "tsv"@ ==> classify_spec(ascii_lower(ext)) == ConversionKind::Office,
        ascii_lower(ext) == "numbers"@ ==> classify_spec(ascii_lower(ext)) == ConversionKind::Office,
        ascii_lower(ext) == "jpg"@ ==> classify_spec(ascii_lower(ext)) == ConversionKind::Image,
        ascii_lower(ext) == "jpeg"@ ==> classify_spec(ascii_lower(ext)) == ConversionKind::Image,
        ascii_lower(ext) == "png"@ ==> classify_spec(ascii_lower(ext)) == ConversionKind::Image,
        ascii_lower(ext) == "gif"@ ==> classify_spec(ascii_lower(ext)) == ConversionKind::Image,
        ascii_lower(ext) == "bmp"@ ==> classify_spec(ascii_lower(ext)) == ConversionKind::Image,
        ascii_lower(ext) == "tiff"@ ==> classify_spec(ascii_lower(ext)) == ConversionKind::Image,
        ascii_lower(ext) == "tif"@ ==> classify_spec(ascii_lower(ext)) == ConversionKind::Image,
        ascii_lower(ext) == "webp"@ ==> classify_spec(ascii_lower(ext)) == ConversionKind::Image,
        ascii_lower(ext) == "svg"@ ==> classify_spec(ascii_lower(ext)) == ConversionKind::Image,
        ascii_lower(ext) == "htm"@ ==> classify_spec(ascii_lower(ext)) == ConversionKind::Html,
        ascii_lower(ext) == "html"@ ==> classify_spec(ascii_lower(ext)) == ConversionKind::Html,
        ascii_lower(ext) == "xhtml"@ ==> classify_spec(ascii_lower(ext)) == ConversionKind::Html,
{
    lemma_plain_kinds();
    lemma_office_kinds_0();
    lemma_office_kinds_1();
    lemma_office_kinds_2();
    lemma_office_kinds_3();
    lemma_image_kinds_0();
    lemma_image_kinds_1();
    lemma_html_kinds();
}

proof fn lemma_plain_kinds()
    ensures
        classify_spec("txt"@) == ConversionKind::PlainText,
        classify_spec("md"@) == ConversionKind::PlainText,
        classify_spec("log"@) == ConversionKind::PlainText,
{
    assert(classify_spec("txt"@) == ConversionKind::PlainText) by {
        reveal_strlit("txt");
        reveal_strlit("pdf");
        assert("pdf"@[0] != "txt"@[0]);
        assert(plain_text_exts()[0] == "txt"@);
    }
    assert(classify_spec("md"@) == ConversionKind::PlainText) by {
        reveal_strlit("md");
        reveal_strlit("pdf");
        assert("pdf"@.len() != "md"@.len());
        assert(plain_text_exts()[1] == "md"@);
    }
    assert(classify_spec("log"@) == ConversionKind::PlainText) by {
        reveal_strlit("log");
        reveal_strlit("pdf");
        assert("pdf"@[0] != "log"@[0]);
        assert(plain_text_exts()[2] == "log"@);
    }
}

proof fn lemma_office_kinds_0()
    ensures
        classify_spec("doc"@) == ConversionKind::Office,
        classify_spec("docx"@) == ConversionKind::Office,
        classify_spec("docm"@) == ConversionKind::Office,
        classify_spec("dot"@) == ConversionKind::Office,
        classify_spec("dotm"@) == ConversionKind::Office,
        classify_spec("dotx"@) == ConversionKind::Office,
        classify_spec("odt"@) == ConversionKind::Office,
{
    assert(classify_spec("doc"@) == ConversionKind::Office) by {
        reveal_strlit("doc");
        reveal_strlit("pdf");
        assert("pdf"@[0] != "doc"@[0]);
        reveal_strlit("txt");
        assert("txt"@[0] != "doc"@[0]);
        assert(plain_text_exts()[0] != "doc"@);
        reveal_strlit("md");
        assert("md"@.len() != "doc"@.len());
        assert(plain_text_exts()[1] != "doc"@);
        reveal_strlit("log");
        assert("log"@[0] != "doc"@[0]);
        assert(plain_text_exts()[2] != "doc"@);
        assert(!plain_text_exts().contains("doc"@));
        assert(office_exts()[0] == "doc"@);
    }
    assert(classify_spec("docx"@) == ConversionKind::Office) by {
        reveal_strlit("docx");
        reveal_strlit("pdf");
        assert("pdf"@.len() != "docx"@.len());
        reveal_strlit("txt");
        assert("txt"@.len() != "docx"@.len());
        assert(plain_text_exts()[0] != "docx"@);
        reveal_strlit("md");
        assert("md"@.len() != "docx"@.len());
        assert(plain_text_exts()[1] != "docx"@);
        reveal_strlit("log");
        assert("log"@.len() != "docx"@.len());
        assert(plain_text_exts()[2] != "docx"@);
        assert(!plain_text_exts().contains("docx"@));
        assert(office_exts()[1] == "docx"@);
    }
    assert(classify_spec("docm"@) == ConversionKind::Office) by {
        reveal_strlit("docm");
        reveal_strlit("pdf");
        assert("pdf"@.len() != "docm"@.len());
        reveal_strlit("txt");
        assert("txt"@.len() != "docm"@.len());
        assert(plain_text_exts()[0] != "docm"@);
        reveal_strlit("md");
        assert("md"@.len() != "docm"@.len());
        assert(plain_text_exts()[1] != "docm"@);
        reveal_strlit("log");
        assert("log"@.len() != "docm"@.len());
        assert(plain_text_exts()[2] != "docm"@);
        assert(!plain_text_exts().contains("docm"@));
        assert(office_exts()[2] == "docm"@);
    }
    assert(classify_spec("dot"@) == ConversionKind::Office) by {
        reveal_strlit("dot");
        reveal_strlit("pdf");
        assert("pdf"@[0] != "dot"@[0]);
        reveal_strlit("txt");
        assert("txt"@[0] != "dot"@[0]);
        assert(plain_text_exts()[0] != "dot"@);
        reveal_strlit("md");
        assert("md"@.len() != "dot"@.len());
        assert(plain_text_exts()[1] != "dot"@);
        reveal_strlit("log");
        assert("log"@[0] != "dot"@[0]);
        assert(plain_text_exts()[2] != "dot"@);
        assert(!plain_text_exts().contains("dot"@));
        assert(office_exts()[3] == "dot"@);
    }
    assert(classify_spec("dotm"@) == ConversionKind::Office) by {
        reveal_strlit("dotm");
        reveal_strlit("pdf");
        assert("pdf"@.len() != "dotm"@.len());
        reveal_strlit("txt");
        assert("txt"@.len() != "dotm"@.len());
        assert(plain_text_exts()[0] != "dotm"@);
        reveal_strlit("md");
        assert("md"@.len() != "dotm"@.len());
        assert(plain_text_exts()[1] != "dotm"@);
        reveal_strlit("log");
        assert("log"@.len() != "dotm"@.len());
        assert(plain_text_exts()[2] != "dotm"@);
        assert(!plain_text_exts().contains("dotm"@));
        assert(office_exts()[4] == "dotm"@);
    }
    assert(classify_spec("dotx"@) == ConversionKind::Office) by {
        reveal_strlit("dotx");
        reveal_strlit("pdf");
        assert("pdf"@.len() != "dotx"@.len());
        reveal_strlit("txt");
        assert("txt"@.len() != "dotx"@.len());
        assert(plain_text_exts()[0] != "dotx"@);
        reveal_strlit("md");
        assert("md"@.len() != "dotx"@.len());
        assert(plain_text_exts()[1] != "dotx"@);
        reveal_strlit("log");
        assert("log"@.len() != "dotx"@.len());
        assert(plain_text_exts()[2] != "dotx"@);
        assert(!plain_text_exts().contains("dotx"@));
        assert(office_exts()[5] == "dotx"@);
    }
    assert(classify_spec("odt"@) == ConversionKind::Office) by {
        reveal_strlit("odt");
        reveal_strlit("pdf");
        assert("pdf"@[0] != "odt"@[0]);
        reveal_strlit("txt");
        assert("txt"@[0] != "odt"@[0]);
        assert(plain_text_exts()[0] != "odt"@);
        reveal_strlit("md");
        assert("md"@.len() != "odt"@.len());
        assert(plain_text_exts()[1] != "odt"@);
        reveal_strlit("log");
        assert("log"@[0] != "odt"@[0]);
        assert(plain_text_exts()[2] != "odt"@);
        assert(!plain_text_exts().contains("odt"@));
        assert(office_exts()[6] == "odt"@);
    }
}

proof fn lemma_office_kinds_1()
    ensures
        classify_spec("ott"@) == ConversionKind::Office,
        classify_spec("ppt"@) == ConversionKind::Office,
        classify_spec("pptx"@) == ConversionKind::Office,
        classify_spec("pptm"@) == ConversionKind::Office,
        classify_spec("pot"@) == ConversionKind::Office,
        classify_spec("potm"@) == ConversionKind::Office,
        classify_spec("potx"@) == ConversionKind::Office,
{
    assert(classify_spec("ott"@) == ConversionKind::Office) by {
        reveal_strlit("ott");
        reveal_strlit("pdf");
        assert("pdf"@[0] != "ott"@[0]);
        reveal_strlit("txt");
        assert("txt"@[0] != "ott"@[0]);
        assert(plain_text_exts()[0] != "ott"@);
        reveal_strlit("md");
        assert("md"@.len() != "ott"@.len());
        assert(plain_text_exts()[1] != "ott"@);
        reveal_strlit("log");
        assert("log"@[0] != "ott"@[0]);
        assert(plain_text_exts()[2] != "ott"@);
        assert(!plain_text_exts().contains("ott"@));
        assert(office_exts()[7] == "ott"@);
    }
    assert(classify_spec("ppt"@) == ConversionKind::Office) by {
        reveal_strlit("ppt");
        reveal_strlit("pdf");
        assert("pdf"@[1] != "ppt"@[1]);
        reveal_strlit("txt");
        assert("txt"@[0] != "ppt"@[0]);
        assert(plain_text_exts()[0] != "ppt"@);
        reveal_strlit("md");
        assert("md"@.len() != "ppt"@.len());
        assert(plain_text_exts()[1] != "ppt"@);
        reveal_strlit("log");
        assert("log"@[0] != "ppt"@[0]);
        assert(plain_text_exts()[2] != "ppt"@);
        assert(!plain_text_exts().contains("ppt"@));
        assert(office_exts()[8] == "ppt"@);
    }
    assert(classify_spec("pptx"@) == ConversionKind::Office) by {
        reveal_strlit("pptx");
        reveal_strlit("pdf");
        assert("pdf"@.len() != "pptx"@.len());
        reveal_strlit("txt");
        assert("txt"@.len() != "pptx"@.len());
        assert(plain_text_exts()[0] != "pptx"@);
        reveal_strlit("md");
        assert("md"@.len() != "pptx"@.len());
        assert(plain_text_exts()[1] != "pptx"@);
        reveal_strlit("log");
        assert("log"@.len() != "pptx"@.len());
        assert(plain_text_exts()[2] != "pptx"@);
        assert(!plain_text_exts().contains("pptx"@));
        assert(office_exts()[9] == "pptx"@);
    }
    assert(classify_spec("pptm"@) == ConversionKind::Office) by {
        reveal_strlit("pptm");
        reveal_strlit("pdf");
        assert("pdf"@.len() != "pptm"@.len());
        reveal_strlit("txt");
        assert("txt"@.len() != "pptm"@.len());
        assert(plain_text_exts()[0] != "pptm"@);
        reveal_strlit("md");
        assert("md"@.len() != "pptm"@.len());
        assert(plain_text_exts()[1] != "pptm"@);
        reveal_strlit("log");
        assert("log"@.len() != "pptm"@.len());
        assert(plain_text_exts()[2] != "pptm"@);
        assert(!plain_text_exts().contains("pptm"@));
        assert(office_exts()[10] == "pptm"@);
    }
    assert(classify_spec("pot"@) == ConversionKind::Office) by {
        reveal_strlit("pot");
        reveal_strlit("pdf");
        assert("pdf"@[1] != "pot"@[1]);
        reveal_strlit("txt");
        assert("txt"@[0] != "pot"@[0]);
        assert(plain_text_exts()[0] != "pot"@);
        reveal_strlit("md");
        assert("md"@.len() != "pot"@.len());
        assert(plain_text_exts()[1] != "pot"@);
        reveal_strlit("log");
        assert("log"@[0] != "pot"@[0]);
        assert(plain_text_exts()[2] != "pot"@);
        assert(!plain_text_exts().contains("pot"@));
        assert(office_exts()[11] == "pot"@);
    }
    assert(classify_spec("potm"@) == ConversionKind::Office) by {
        reveal_strlit("potm");
        reveal_strlit("pdf");
        assert("pdf"@.len() != "potm"@.len());
        reveal_strlit("txt");
        assert("txt"@.len() != "potm"@.len());
        assert(plain_text_exts()[0] != "potm"@);
        reveal_strlit("md");
        assert("md"@.len() != "potm"@.len());
        assert(plain_text_exts()[1] != "potm"@);
        reveal_strlit("log");
        assert("log"@.len() != "potm"@.len());
        assert(plain_text_exts()[2] != "potm"@);
        assert(!plain_text_exts().contains("potm"@));
        assert(office_exts()[12] == "potm"@);
    }
    assert(classify_spec("potx"@) == ConversionKind::Office) by {
        reveal_strlit("potx");
        reveal_strlit("pdf");
        assert("pdf"@.len() != "potx"@.len());
        reveal_strlit("txt");
        assert("txt"@.len() != "potx"@.len());
        assert(plain_text_exts()[0] != "potx"@);
        reveal_strlit("md");
        assert("md"@.len() != "potx"@.len());
        assert(plain_text_exts()[1] != "potx"@);
        reveal_strlit("log");
        assert("log"@.len() != "potx"@.len());
        assert(plain_text_exts()[2] != "potx"@);
        assert(!plain_text_exts().contains("potx"@));
        assert(office_exts()[13] == "potx"@);
    }
}

proof fn lemma_office_kinds_2()
    ensures
        classify_spec("odp"@) == ConversionKind::Office,
        classify_spec("otp"@) == ConversionKind::Office,
        classify_spec("rtf"@) == ConversionKind::Office,
        classify_spec("pages"@) == ConversionKind::Office,
        classify_spec("key"@) == ConversionKind::Office,
        classify_spec("xls"@) == ConversionKind::Office,
        classify_spec("xlsx"@) == ConversionKind::Office,
{
    assert(classify_spec("odp"@) == ConversionKind::Office) by {
        reveal_strlit("odp");
        reveal_strlit("pdf");
        assert("pdf"@[0] != "odp"@[0]);
        reveal_strlit("txt");
        assert("txt"@[0] != "odp"@[0]);
        assert(plain_text_exts()[0] != "odp"@);
        reveal_strlit("md");
        assert("md"@.len() != "odp"@.len());
        assert(plain_text_exts()[1] != "odp"@);
        reveal_strlit("log");
        assert("log"@[0] != "odp"@[0]);
        assert(plain_text_exts()[2] != "odp"@);
        assert(!plain_text_exts().contains("odp"@));
        assert(office_exts()[14] == "odp"@);
    }
    assert(classify_spec("otp"@) == ConversionKind::Office) by {
        reveal_strlit("otp");
        reveal_strlit("pdf");
        assert("pdf"@[0] != "otp"@[0]);
        reveal_strlit("txt");
        assert("txt"@[0] != "otp"@[0]);
        assert(plain_text_exts()[0] != "otp"@);
        reveal_strlit("md");
        assert("md"@.len() != "otp"@.len());
        assert(plain_text_exts()[1] != "otp"@);
        reveal_strlit("log");
        assert("log"@[0] != "otp"@[0]);
        assert(plain_text_exts()[2] != "otp"@);
        assert(!plain_text_exts().contains("otp"@));
        assert(office_exts()[15] == "otp"@);
    }
    assert(classify_spec("rtf"@) == ConversionKind::Office) by {
        reveal_strlit("rtf");
        reveal_strlit("pdf");
        assert("pdf"@[0] != "rtf"@[0]);
        reveal_strlit("txt");
        assert("txt"@[0] != "rtf"@[0]);
        assert(plain_text_exts()[0] != "rtf"@);
        reveal_strlit("md");
        assert("md"@.len() != "rtf"@.len());
        assert(plain_text_exts()[1] != "rtf"@);
        reveal_strlit("log");
        assert("log"@[0] != "rtf"@[0]);
        assert(plain_text_exts()[2] != "rtf"@);
        assert(!plain_text_exts().contains("rtf"@));
        assert(office_exts()[16] == "rtf"@);
    }
    assert(classify_spec("pages"@) == ConversionKind::Office) by {
        reveal_strlit("pages");
        reveal_strlit("pdf");
        assert("pdf"@.len() != "pages"@.len());
        reveal_strlit("txt");
        assert("txt"@.len() != "pages"@.len());
        assert(plain_text_exts()[0] != "pages"@);
        reveal_strlit("md");
        assert("md"@.len() != "pages"@.len());
        assert(plain_text_exts()[1] != "pages"@);
        reveal_strlit("log");
        assert("log"@.len() != "pages"@.len());
        assert(plain_text_exts()[2] != "pages"@);
        assert(!plain_text_exts().contains("pages"@));
        assert(office_exts()[17] == "pages"@);
    }
    assert(classify_spec("key"@) == ConversionKind::Office) by {
        reveal_strlit("key");
        reveal_strlit("pdf");
        assert("pdf"@[0] != "key"@[0]);
        reveal_strlit("txt");
        assert("txt"@[0] != "key"@[0]);
        assert(plain_text_exts()[0] != "key"@);
        reveal_strlit("md");
        assert("md"@.len() != "key"@.len());
        assert(plain_text_exts()[1] != "key"@);
        reveal_strlit("log");
        assert("log"@[0] != "key"@[0]);
        assert(plain_text_exts()[2] != "key"@);
        assert(!plain_text_exts().contains("key"@));
        assert(office_exts()[18] == "key"@);
    }
    assert(classify_spec("xls"@) == ConversionKind::Office) by {
        reveal_strlit("xls");
        reveal_strlit("pdf");
        assert("pdf"@[0] != "xls"@[0]);
        reveal_strlit("txt");
        assert("txt"@[0] != "xls"@[0]);
        assert(plain_text_exts()[0] != "xls"@);
        reveal_strlit("md");
        assert("md"@.len() != "xls"@.len());
        assert(plain_text_exts()[1] != "xls"@);
        reveal_strlit("log");
        assert("log"@[0] != "xls"@[0]);
        assert(plain_text_exts()[2] != "xls"@);
        assert(!plain_text_exts().contains("xls"@));
        assert(office_exts()[19] == "xls"@);
    }
    assert(classify_spec("xlsx"@) == ConversionKind::Office) by {
        reveal_strlit("xlsx");
        reveal_strlit("pdf");
        assert("pdf"@.len() != "xlsx"@.len());
        reveal_strlit("txt");
        assert("txt"@.len() != "xlsx"@.len());
        assert(plain_text_exts()[0] != "xlsx"@);
        reveal_strlit("md");
        assert("md"@.len() != "xlsx"@.len());
        assert(plain_text_exts()[1] != "xlsx"@);
        reveal_strlit("log");
        assert("log"@.len() != "xlsx"@.len());
        assert(plain_text_exts()[2] != "xlsx"@);
        assert(!plain_text_exts().contains("xlsx"@));
        assert(office_exts()[20] == "xlsx"@);
    }
}

proof fn lemma_office_kinds_3()
    ensures
        classify_spec("xlsm"@) == ConversionKind::Office,
        classify_spec("xlsb"@) == ConversionKind::Office,
        classify_spec("ods"@) == ConversionKind::Office,
        classify_spec("ots"@) == ConversionKind::Office,
        classify_spec("csv"@) == ConversionKind::Office,
        classify_spec("tsv"@) == ConversionKind::Office,
        classify_spec("numbers"@) == ConversionKind::Office,
{
    assert(classify_spec("xlsm"@) == ConversionKind::Office) by {
        reveal_strlit("xlsm");
        reveal_strlit("pdf");
        assert("pdf"@.len() != "xlsm"@.len());
        reveal_strlit("txt");
        assert("txt"@.len() != "xlsm"@.len());
        assert(plain_text_exts()[0] != "xlsm"@);
        reveal_strlit("md");
        assert("md"@.len() != "xlsm"@.len());
        assert(plain_text_exts()[1] != "xlsm"@);
        reveal_strlit("log");
        assert("log"@.len() != "xlsm"@.len());
        assert(plain_text_exts()[2] != "xlsm"@);
        assert(!plain_text_exts().contains("xlsm"@));
        assert(office_exts()[21] == "xlsm"@);
    }
    assert(classify_spec("xlsb"@) == ConversionKind::Office) by {
        reveal_strlit("xlsb");
        reveal_strlit("pdf");
        assert("pdf"@.len() != "xlsb"@.len());
        reveal_strlit("txt");
        assert("txt"@.len() != "xlsb"@.len());
        assert(plain_text_exts()[0] != "xlsb"@);
        reveal_strlit("md");
        assert("md"@.len() != "xlsb"@.len());
        assert(plain_text_exts()[1] != "xlsb"@);
        reveal_strlit("log");
        assert("log"@.len() != "xlsb"@.len());
        assert(plain_text_exts()[2] != "xlsb"@);
        assert(!plain_text_exts().contains("xlsb"@));
        assert(office_exts()[22] == "xlsb"@);
    }
    assert(classify_spec("ods"@) == ConversionKind::Office) by {
        reveal_strlit("ods");
        reveal_strlit("pdf");
        assert("pdf"@[0] != "ods"@[0]);
        reveal_strlit("txt");
        assert("txt"@[0] != "ods"@[0]);
        assert(plain_text_exts()[0] != "ods"@);
        reveal_strlit("md");
        assert("md"@.len() != "ods"@.len());
        assert(plain_text_exts()[1] != "ods"@);
        reveal_strlit("log");
        assert("log"@[0] != "ods"@[0]);
        assert(plain_text_exts()[2] != "ods"@);
        assert(!plain_text_exts().contains("ods"@));
        assert(office_exts()[23] == "ods"@);
    }
    assert(classify_spec("ots"@) == ConversionKind::Office) by {
        reveal_strlit("ots");
        reveal_strlit("pdf");
        assert("pdf"@[0] != "ots"@[0]);
        reveal_strlit("txt");
        assert("txt"@[0] != "ots"@[0]);
        assert(plain_text_exts()[0] != "ots"@);
        reveal_strlit("md");
        assert("md"@.len() != "ots"@.len());
        assert(plain_text_exts()[1] != "ots"@);
        reveal_strlit("log");
        assert("log"@[0] != "ots"@[0]);
        assert(plain_text_exts()[2] != "ots"@);
        assert(!plain_text_exts().contains("ots"@));
        assert(office_exts()[24] == "ots"@);
    }
    assert(classify_spec("csv"@) == ConversionKind::Office) by {
        reveal_strlit("csv");
        reveal_strlit("pdf");
        assert("pdf"@[0] != "csv"@[0]);
        reveal_strlit("txt");
        assert("txt"@[0] != "csv"@[0]);
        assert(plain_text_exts()[0] != "csv"@);
        reveal_strlit("md");
        assert("md"@.len() != "csv"@.len());
        assert(plain_text_exts()[1] != "csv"@);
        reveal_strlit("log");
        assert("log"@[0] != "csv"@[0]);
        assert(plain_text_exts()[2] != "csv"@);
        assert(!plain_text_exts().contains("csv"@));
        assert(office_exts()[25] == "csv"@);
    }
    assert(classify_spec("tsv"@) == ConversionKind::Office) by {
        reveal_strlit("tsv");
        reveal_strlit("pdf");
        assert("pdf"@[0] != "tsv"@[0]);
        reveal_strlit("txt");
        assert("txt"@[1] != "tsv"@[1]);
        assert(plain_text_exts()[0] != "tsv"@);
        reveal_strlit("md");
        assert("md"@.len() != "tsv"@.len());
        assert(plain_text_exts()[1] != "tsv"@);
        reveal_strlit("log");
        assert("log"@[0] != "tsv"@[0]);
        assert(plain_text_exts()[2] != "tsv"@);
        assert(!plain_text_exts().contains("tsv"@));
        assert(office_exts()[26] == "tsv"@);
    }
    assert(classify_spec("numbers"@) == ConversionKind::Office) by {
        reveal_strlit("numbers");
        reveal_strlit("pdf");
        assert("pdf"@.len() != "numbers"@.len());
        reveal_strlit("txt");
        assert("txt"@.len() != "numbers"@.len());
        assert(plain_text_exts()[0] != "numbers"@);
        reveal_strlit("md");
        assert("md"@.len() != "numbers"@.len());
        assert(plain_text_exts()[1] != "numbers"@);
        reveal_strlit("log");
        assert("log"@.len() != "numbers"@.len());
        assert(plain_text_exts()[2] != "numbers"@);
        assert(!plain_text_exts().contains("numbers"@));
        assert(office_exts()[27] == "numbers"@);
    }
}

proof fn lemma_image_kinds_0()
    ensures
        classify_spec("jpg"@) == ConversionKind::Image,
        classify_spec("jpeg"@) == ConversionKind::Image,
        classify_spec("png"@) == ConversionKind::Image,
        classify_spec("gif"@) == ConversionKind::Image,
        classify_spec("bmp"@) == ConversionKind::Image,
        classify_spec("tiff"@) == ConversionKind::Image,
        classify_spec("tif"@) == ConversionKind::Image,
{
    assert(classify_spec("jpg"@) == ConversionKind::Image) by {
        reveal_strlit("jpg");
        reveal_strlit("pdf");
        assert("pdf"@[0] != "jpg"@[0]);
        reveal_strlit("txt");
        assert("txt"@[0] != "jpg"@[0]);
        assert(plain_text_exts()[0] != "jpg"@);
        reveal_strlit("md");
        assert("md"@.len() != "jpg"@.len());
        assert(plain_text_exts()[1] != "jpg"@);
        reveal_strlit("log");
        assert("log"@[0] != "jpg"@[0]);
        assert(plain_text_exts()[2] != "jpg"@);
        assert(!plain_text_exts().contains("jpg"@));
        reveal_strlit("doc");
        assert("doc"@[0] != "jpg"@[0]);
        assert(office_exts()[0] != "jpg"@);
        reveal_strlit("docx");
        assert("docx"@.len() != "jpg"@.len());
        assert(office_exts()[1] != "jpg"@);
        reveal_strlit("docm");
        assert("docm"@.len() != "jpg"@.len());
        assert(office_exts()[2] != "jpg"@);
        reveal_strlit("dot");
        assert("dot"@[0] != "jpg"@[0]);
        assert(office_exts()[3] != "jpg"@);
        reveal_strlit("dotm");
        assert("dotm"@.len() != "jpg"@.len());
        assert(office_exts()[4] != "jpg"@);
        reveal_strlit("dotx");
        assert("dotx"@.len() != "jpg"@.len());
        assert(office_exts()[5] != "jpg"@);
        reveal_strlit("odt");
        assert("odt"@[0] != "jpg"@[0]);
        assert(office_exts()[6] != "jpg"@);
        reveal_strlit("ott");
        assert("ott"@[0] != "jpg"@[0]);
        assert(office_exts()[7] != "jpg"@);
        reveal_strlit("ppt");
        assert("ppt"@[0] != "jpg"@[0]);
        assert(office_exts()[8] != "jpg"@);
        reveal_strlit("pptx");
        assert("pptx"@.len() != "jpg"@.len());
        assert(office_exts()[9] != "jpg"@);
        reveal_strlit("pptm");
        assert("pptm"@.len() != "jpg"@.len());
        assert(office_exts()[10] != "jpg"@);
        reveal_strlit("pot");
        assert("pot"@[0] != "jpg"@[0]);
        assert(office_exts()[11] != "jpg"@);
        reveal_strlit("potm");
        assert("potm"@.len() != "jpg"@.len());
        assert(office_exts()[12] != "jpg"@);
        reveal_strlit("potx");
        assert("potx"@.len() != "jpg"@.len());
        assert(office_exts()[13] != "jpg"@);
        reveal_strlit("odp");
        assert("odp"@[0] != "jpg"@[0]);
        assert(office_exts()[14] != "jpg"@);
        reveal_strlit("otp");
        assert("otp"@[0] != "jpg"@[0]);
        assert(office_exts()[15] != "jpg"@);
        reveal_strlit("rtf");
        assert("rtf"@[0] != "jpg"@[0]);
        assert(office_exts()[16] != "jpg"@);
        reveal_strlit("pages");
        assert("pages"@.len() != "jpg"@.len());
        assert(office_exts()[17] != "jpg"@);
        reveal_strlit("key");
        assert("key"@[0] != "jpg"@[0]);
        assert(office_exts()[18] != "jpg"@);
        reveal_strlit("xls");
        assert("xls"@[0] != "jpg"@[0]);
        assert(office_exts()[19] != "jpg"@);
        reveal_strlit("xlsx");
        assert("xlsx"@.len() != "jpg"@.len());
        assert(office_exts()[20] != "jpg"@);
        reveal_strlit("xlsm");
        assert("xlsm"@.len() != "jpg"@.len());
        assert(office_exts()[21] != "jpg"@);
        reveal_strlit("xlsb");
        assert("xlsb"@.len() != "jpg"@.len());
        assert(office_exts()[22] != "jpg"@);
        reveal_strlit("ods");
        assert("ods"@[0] != "jpg"@[0]);
        assert(office_exts()[23] != "jpg"@);
        reveal_strlit("ots");
        assert("ots"@[0] != "jpg"@[0]);
        assert(office_exts()[24] != "jpg"@);
        reveal_strlit("csv");
        assert("csv"@[0] != "jpg"@[0]);
        assert(office_exts()[25] != "jpg"@);
        reveal_strlit("tsv");
        assert("tsv"@[0] != "jpg"@[0]);
        assert(office_exts()[26] != "jpg"@);
        reveal_strlit("numbers");
        assert("numbers"@.len() != "jpg"@.len());
        assert(office_exts()[27] != "jpg"@);
        assert(!office_exts().contains("jpg"@));
        assert(image_exts()[0] == "jpg"@);
    }
    assert(classify_spec("jpeg"@) == ConversionKind::Image) by {
        reveal_strlit("jpeg");
        reveal_strlit("pdf");
        assert("pdf"@.len() != "jpeg"@.len());
        reveal_strlit("txt");
        assert("txt"@.len() != "jpeg"@.len());
        assert(plain_text_exts()[0] != "jpeg"@);
        reveal_strlit("md");
        assert("md"@.len() != "jpeg"@.len());
        assert(plain_text_exts()[1] != "jpeg"@);
        reveal_strlit("log");
        assert("log"@.len() != "jpeg"@.len());
        assert(plain_text_exts()[2] != "jpeg"@);
        assert(!plain_text_exts().contains("jpeg"@));
        reveal_strlit("doc");
        assert("doc"@.len() != "jpeg"@.len());
        assert(office_exts()[0] != "jpeg"@);
        reveal_strlit("docx");
        assert("docx"@[0] != "jpeg"@[0]);
        assert(office_exts()[1] != "jpeg"@);
        reveal_strlit("docm");
        assert("docm"@[0] != "jpeg"@[0]);
        assert(office_exts()[2] != "jpeg"@);
        reveal_strlit("dot");
        assert("dot"@.len() != "jpeg"@.len());
        assert(office_exts()[3] != "jpeg"@);
        reveal_strlit("dotm");
        assert("dotm"@[0] != "jpeg"@[0]);
        assert(office_exts()[4] != "jpeg"@);
        reveal_strlit("dotx");
        assert("dotx"@[0] != "jpeg"@[0]);
        assert(office_exts()[5] != "jpeg"@);
        reveal_strlit("odt");
        assert("odt"@.len() != "jpeg"@.len());
        assert(office_exts()[6] != "jpeg"@);
        reveal_strlit("ott");
        assert("ott"@.len() != "jpeg"@.len());
        assert(office_exts()[7] != "jpeg"@);
        reveal_strlit("ppt");
        assert("ppt"@.len() != "jpeg"@.len());
        assert(office_exts()[8] != "jpeg"@);
        reveal_strlit("pptx");
        assert("pptx"@[0] != "jpeg"@[0]);
        assert(office_exts()[9] != "jpeg"@);
        reveal_strlit("pptm");
        assert("pptm"@[0] != "jpeg"@[0]);
        assert(office_exts()[10] != "jpeg"@);
        reveal_strlit("pot");
        assert("pot"@.len() != "jpeg"@.len());
        assert(office_exts()[11] != "jpeg"@);
        reveal_strlit("potm");
        assert("potm"@[0] != "jpeg"@[0]);
        assert(office_exts()[12] != "jpeg"@);
        reveal_strlit("potx");
        assert("potx"@[0] != "jpeg"@[0]);
        assert(office_exts()[13] != "jpeg"@);
        reveal_strlit("odp");
        assert("odp"@.len() != "jpeg"@.len());
        assert(office_exts()[14] != "jpeg"@);
        reveal_strlit("otp");
        assert("otp"@.len() != "jpeg"@.len());
        assert(office_exts()[15] != "jpeg"@);
        reveal_strlit("rtf");
        assert("rtf"@.len() != "jpeg"@.len());
        assert(office_exts()[16] != "jpeg"@);
        reveal_strlit("pages");
        assert("pages"@.len() != "jpeg"@.len());
        assert(office_exts()[17] != "jpeg"@);
        reveal_strlit("key");
        assert("key"@.len() != "jpeg"@.len());
        assert(office_exts()[18] != "jpeg"@);
        reveal_strlit("xls");
        assert("xls"@.len() != "jpeg"@.len());
        assert(office_exts()[19] != "jpeg"@);
        reveal_strlit("xlsx");
        assert("xlsx"@[0] != "jpeg"@[0]);
        assert(office_exts()[20] != "jpeg"@);
        reveal_strlit("xlsm");
        assert("xlsm"@[0] != "jpeg"@[0]);
        assert(office_exts()[21] != "jpeg"@);
        reveal_strlit("xlsb");
        assert("xlsb"@[0] != "jpeg"@[0]);
        assert(office_exts()[22] != "jpeg"@);
        reveal_strlit("ods");
        assert("ods"@.len() != "jpeg"@.len());
        assert(office_exts()[23] != "jpeg"@);
        reveal_strlit("ots");
        assert("ots"@.len() != "jpeg"@.len());
        assert(office_exts()[24] != "jpeg"@);
        reveal_strlit("csv");
        assert("csv"@.len() != "jpeg"@.len());
        assert(office_exts()[25] != "jpeg"@);
        reveal_strlit("tsv");
        assert("tsv"@.len() != "jpeg"@.len());
        assert(office_exts()[26] != "jpeg"@);
        reveal_strlit("numbers");
        assert("numbers"@.len() != "jpeg"@.len());
        assert(office_exts()[27] != "jpeg"@);
        assert(!office_exts().contains("jpeg"@));
        assert(image_exts()[1] == "jpeg"@);
    }
    assert(classify_spec("png"@) == ConversionKind::Image) by {
        reveal_strlit("png");
        reveal_strlit("pdf");
        assert("pdf"@[1] != "png"@[1]);
        reveal_strlit("txt");
        assert("txt"@[0] != "png"@[0]);
        assert(plain_text_exts()[0] != "png"@);
        reveal_strlit("md");
        assert("md"@.len() != "png"@.len());
        assert(plain_text_exts()[1] != "png"@);
        reveal_strlit("log");
        assert("log"@[0] != "png"@[0]);
        assert(plain_text_exts()[2] != "png"@);
        assert(!plain_text_exts().contains("png"@));
        reveal_strlit("doc");
        assert("doc"@[0] != "png"@[0]);
        assert(office_exts()[0] != "png"@);
        reveal_strlit("docx");
        assert("docx"@.len() != "png"@.len());
        assert(office_exts()[1] != "png"@);
        reveal_strlit("docm");
        assert("docm"@.len() != "png"@.len());
        assert(office_exts()[2] != "png"@);
        reveal_strlit("dot");
        assert("dot"@[0] != "png"@[0]);
        assert(office_exts()[3] != "png"@);
        reveal_strlit("dotm");
        assert("dotm"@.len() != "png"@.len());
        assert(office_exts()[4] != "png"@);
        reveal_strlit("dotx");
        assert("dotx"@.len() != "png"@.len());
        assert(office_exts()[5] != "png"@);
        reveal_strlit("odt");
        assert("odt"@[0] != "png"@[0]);
        assert(office_exts()[6] != "png"@);
        reveal_strlit("ott");
        assert("ott"@[0] != "png"@[0]);
        assert(office_exts()[7] != "png"@);
        reveal_strlit("ppt");
        assert("ppt"@[1] != "png"@[1]);
        assert(office_exts()[8] != "png"@);
        reveal_strlit("pptx");
        assert("pptx"@.len() != "png"@.len());
        assert(office_exts()[9] != "png"@);
        reveal_strlit("pptm");
        assert("pptm"@.len() != "png"@.len());
        assert(office_exts()[10] != "png"@);
        reveal_strlit("pot");
        assert("pot"@[1] != "png"@[1]);
        assert(office_exts()[11] != "png"@);
        reveal_strlit("potm");
        assert("potm"@.len() != "png"@.len());
        assert(office_exts()[12] != "png"@);
        reveal_strlit("potx");
        assert("potx"@.len() != "png"@.len());
        assert(office_exts()[13] != "png"@);
        reveal_strlit("odp");
        assert("odp"@[0] != "png"@[0]);
        assert(office_exts()[14] != "png"@);
        reveal_strlit("otp");
        assert("otp"@[0] != "png"@[0]);
        assert(office_exts()[15] != "png"@);
        reveal_strlit("rtf");
        assert("rtf"@[0] != "png"@[0]);
        assert(office_exts()[16] != "png"@);
        reveal_strlit("pages");
        assert("pages"@.len() != "png"@.len());
        assert(office_exts()[17] != "png"@);
        reveal_strlit("key");
        assert("key"@[0] != "png"@[0]);
        assert(office_exts()[18] != "png"@);
        reveal_strlit("xls");
        assert("xls"@[0] != "png"@[0]);
        assert(office_exts()[19] != "png"@);
        reveal_strlit("xlsx");
        assert("xlsx"@.len() != "png"@.len());
        assert(office_exts()[20] != "png"@);
        reveal_strlit("xlsm");
        assert("xlsm"@.len() != "png"@.len());
        assert(office_exts()[21] != "png"@);
        reveal_strlit("xlsb");
        assert("xlsb"@.len() != "png"@.len());
        assert(office_exts()[22] != "png"@);
        reveal_strlit("ods");
        assert("ods"@[0] != "png"@[0]);
        assert(office_exts()[23] != "png"@);
        reveal_strlit("ots");
        assert("ots"@[0] != "png"@[0]);
        assert(office_exts()[24] != "png"@);
        reveal_strlit("csv");
        assert("csv"@[0] != "png"@[0]);
        assert(office_exts()[25] != "png"@);
        reveal_strlit("tsv");
        assert("tsv"@[0] != "png"@[0]);
        assert(office_exts()[26] != "png"@);
        reveal_strlit("numbers");
        assert("numbers"@.len() != "png"@.len());
        assert(office_exts()[27] != "png"@);
        assert(!office_exts().contains("png"@));
        assert(image_exts()[2] == "png"@);
    }
    assert(classify_spec("gif"@) == ConversionKind::Image) by {
        reveal_strlit("gif");
        reveal_strlit("pdf");
        assert("pdf"@[0] != "gif"@[0]);
        reveal_strlit("txt");
        assert("txt"@[0] != "gif"@[0]);
        assert(plain_text_exts()[0] != "gif"@);
        reveal_strlit("md");
        assert("md"@.len() != "gif"@.len());
        assert(plain_text_exts()[1] != "gif"@);
        reveal_strlit("log");
        assert("log"@[0] != "gif"@[0]);
        assert(plain_text_exts()[2] != "gif"@);
        assert(!plain_text_exts().contains("gif"@));
        reveal_strlit("doc");
        assert("doc"@[0] != "gif"@[0]);
        assert(office_exts()[0] != "gif"@);
        reveal_strlit("docx");
        assert("docx"@.len() != "gif"@.len());
        assert(office_exts()[1] != "gif"@);
        reveal_strlit("docm");
        assert("docm"@.len() != "gif"@.len());
        assert(office_exts()[2] != "gif"@);
        reveal_strlit("dot");
        assert("dot"@[0] != "gif"@[0]);
        assert(office_exts()[3] != "gif"@);
        reveal_strlit("dotm");
        assert("dotm"@.len() != "gif"@.len());
        assert(office_exts()[4] != "gif"@);
        reveal_strlit("dotx");
        assert("dotx"@.len() != "gif"@.len());
        assert(office_exts()[5] != "gif"@);
        reveal_strlit("odt");
        assert("odt"@[0] != "gif"@[0]);
        assert(office_exts()[6] != "gif"@);
        reveal_strlit("ott");
        assert("ott"@[0] != "gif"@[0]);
        assert(office_exts()[7] != "gif"@);
        reveal_strlit("ppt");
        assert("ppt"@[0] != "gif"@[0]);
        assert(office_exts()[8] != "gif"@);
        reveal_strlit("pptx");
        assert("pptx"@.len() != "gif"@.len());
        assert(office_exts()[9] != "gif"@);
        reveal_strlit("pptm");
        assert("pptm"@.len() != "gif"@.len());
        assert(office_exts()[10] != "gif"@);
        reveal_strlit("pot");
        assert("pot"@[0] != "gif"@[0]);
        assert(office_exts()[11] != "gif"@);
        reveal_strlit("potm");
        assert("potm"@.len() != "gif"@.len());
        assert(office_exts()[12] != "gif"@);
        reveal_strlit("potx");
        assert("potx"@.len() != "gif"@.len());
        assert(office_exts()[13] != "gif"@);
        reveal_strlit("odp");
        assert("odp"@[0] != "gif"@[0]);
        assert(office_exts()[14] != "gif"@);
        reveal_strlit("otp");
        assert("otp"@[0] != "gif"@[0]);
        assert(office_exts()[15] != "gif"@);
        reveal_strlit("rtf");
        assert("rtf"@[0] != "gif"@[0]);
        assert(office_exts()[16] != "gif"@);
        reveal_strlit("pages");
        assert("pages"@.len() != "gif"@.len());
        assert(office_exts()[17] != "gif"@);
        reveal_strlit("key");
        assert("key"@[0] != "gif"@[0]);
        assert(office_exts()[18] != "gif"@);
        reveal_strlit("xls");
        assert("xls"@[0] != "gif"@[0]);
        assert(office_exts()[19] != "gif"@);
        reveal_strlit("xlsx");
        assert("xlsx"@.len() != "gif"@.len());
        assert(office_exts()[20] != "gif"@);
        reveal_strlit("xlsm");
        assert("xlsm"@.len() != "gif"@.len());
        assert(office_exts()[21] != "gif"@);
        reveal_strlit("xlsb");
        assert("xlsb"@.len() != "gif"@.len());
        assert(office_exts()[22] != "gif"@);
        reveal_strlit("ods");
        assert("ods"@[0] != "gif"@[0]);
        assert(office_exts()[23] != "gif"@);
        reveal_strlit("ots");
        assert("ots"@[0] != "gif"@[0]);
        assert(office_exts()[24] != "gif"@);
        reveal_strlit("csv");
        assert("csv"@[0] != "gif"@[0]);
        assert(office_exts()[25] != "gif"@);
        reveal_strlit("tsv");
        assert("tsv"@[0] != "gif"@[0]);
        assert(office_exts()[26] != "gif"@);
        reveal_strlit("numbers");
        assert("numbers"@.len() != "gif"@.len());
        assert(office_exts()[27] != "gif"@);
        assert(!office_exts().contains("gif"@));
        assert(image_exts()[3] == "gif"@);
    }
    assert(classify_spec("bmp"@) == ConversionKind::Image) by {
        reveal_strlit("bmp");
        reveal_strlit("pdf");
        assert("pdf"@[0] != "bmp"@[0]);
        reveal_strlit("txt");
        assert("txt"@[0] != "bmp"@[0]);
        assert(plain_text_exts()[0] != "bmp"@);
        reveal_strlit("md");
        assert("md"@.len() != "bmp"@.len());
        assert(plain_text_exts()[1] != "bmp"@);
        reveal_strlit("log");
        assert("log"@[0] != "bmp"@[0]);
        assert(plain_text_exts()[2] != "bmp"@);
        assert(!plain_text_exts().contains("bmp"@));
        reveal_strlit("doc");
        assert("doc"@[0] != "bmp"@[0]);
        assert(office_exts()[0] != "bmp"@);
        reveal_strlit("docx");
        assert("docx"@.len() != "bmp"@.len());
        assert(office_exts()[1] != "bmp"@);
        reveal_strlit("docm");
        assert("docm"@.len() != "bmp"@.len());
        assert(office_exts()[2] != "bmp"@);
        reveal_strlit("dot");
        assert("dot"@[0] != "bmp"@[0]);
        assert(office_exts()[3] != "bmp"@);
        reveal_strlit("dotm");
        assert("dotm"@.len() != "bmp"@.len());
        assert(office_exts()[4] != "bmp"@);
        reveal_strlit("dotx");
        assert("dotx"@.len() != "bmp"@.len());
        assert(office_exts()[5] != "bmp"@);
        reveal_strlit("odt");
        assert("odt"@[0] != "bmp"@[0]);
        assert(office_exts()[6] != "bmp"@);
        reveal_strlit("ott");
        assert("ott"@[0] != "bmp"@[0]);
        assert(office_exts()[7] != "bmp"@);
        reveal_strlit("ppt");
        assert("ppt"@[0] != "bmp"@[0]);
        assert(office_exts()[8] != "bmp"@);
        reveal_strlit("pptx");
        assert("pptx"@.len() != "bmp"@.len());
        assert(office_exts()[9] != "bmp"@);
        reveal_strlit("pptm");
        assert("pptm"@.len() != "bmp"@.len());
        assert(office_exts()[10] != "bmp"@);
        reveal_strlit("pot");
        assert("pot"@[0] != "bmp"@[0]);
        assert(office_exts()[11] != "bmp"@);
        reveal_strlit("potm");
        assert("potm"@.len() != "bmp"@.len());
        assert(office_exts()[12] != "bmp"@);
        reveal_strlit("potx");
        assert("potx"@.len() != "bmp"@.len());
        assert(office_exts()[13] != "bmp"@);
        reveal_strlit("odp");
        assert("odp"@[0] != "bmp"@[0]);
        assert(office_exts()[14] != "bmp"@);
        reveal_strlit("otp");
        assert("otp"@[0] != "bmp"@[0]);
        assert(office_exts()[15] != "bmp"@);
        reveal_strlit("rtf");
        assert("rtf"@[0] != "bmp"@[0]);
        assert(office_exts()[16] != "bmp"@);
        reveal_strlit("pages");
        assert("pages"@.len() != "bmp"@.len());
        assert(office_exts()[17] != "bmp"@);
        reveal_strlit("key");
        assert("key"@[0] != "bmp"@[0]);
        assert(office_exts()[18] != "bmp"@);
        reveal_strlit("xls");
        assert("xls"@[0] != "bmp"@[0]);
        assert(office_exts()[19] != "bmp"@);
        reveal_strlit("xlsx");
        assert("xlsx"@.len() != "bmp"@.len());
        assert(office_exts()[20] != "bmp"@);
        reveal_strlit("xlsm");
        assert("xlsm"@.len() != "bmp"@.len());
        assert(office_exts()[21] != "bmp"@);
        reveal_strlit("xlsb");
        assert("xlsb"@.len() != "bmp"@.len());
        assert(office_exts()[22] != "bmp"@);
        reveal_strlit("ods");
        assert("ods"@[0] != "bmp"@[0]);
        assert(office_exts()[23] != "bmp"@);
        reveal_strlit("ots");
        assert("ots"@[0] != "bmp"@[0]);
        assert(office_exts()[24] != "bmp"@);
        reveal_strlit("csv");
        assert("csv"@[0] != "bmp"@[0]);
        assert(office_exts()[25] != "bmp"@);
        reveal_strlit("tsv");
        assert("tsv"@[0] != "bmp"@[0]);
        assert(office_exts()[26] != "bmp"@);
        reveal_strlit("numbers");
        assert("numbers"@.len() != "bmp"@.len());
        assert(office_exts()[27] != "bmp"@);
        assert(!office_exts().contains("bmp"@));
        assert(image_exts()[4] == "bmp"@);
    }
    assert(classify_spec("tiff"@) == ConversionKind::Image) by {
        reveal_strlit("tiff");
        reveal_strlit("pdf");
        assert("pdf"@.len() != "tiff"@.len());
        reveal_strlit("txt");
        assert("txt"@.len() != "tiff"@.len());
        assert(plain_text_exts()[0] != "tiff"@);
        reveal_strlit("md");
        assert("md"@.len() != "tiff"@.len());
        assert(plain_text_exts()[1] != "tiff"@);
        reveal_strlit("log");
        assert("log"@.len() != "tiff"@.len());
        assert(plain_text_exts()[2] != "tiff"@);
        assert(!plain_text_exts().contains("tiff"@));
        reveal_strlit("doc");
        assert("doc"@.len() != "tiff"@.len());
        assert(office_exts()[0] != "tiff"@);
        reveal_strlit("docx");
        assert("docx"@[0] != "tiff"@[0]);
        assert(office_exts()[1] != "tiff"@);
        reveal_strlit("docm");
        assert("docm"@[0] != "tiff"@[0]);
        assert(office_exts()[2] != "tiff"@);
        reveal_strlit("dot");
        assert("dot"@.len() != "tiff"@.len());
        assert(office_exts()[3] != "tiff"@);
        reveal_strlit("dotm");
        assert("dotm"@[0] != "tiff"@[0]);
        assert(office_exts()[4] != "tiff"@);
        reveal_strlit("dotx");
        assert("dotx"@[0] != "tiff"@[0]);
        assert(office_exts()[5] != "tiff"@);
        reveal_strlit("odt");
        assert("odt"@.len() != "tiff"@.len());
        assert(office_exts()[6] != "tiff"@);
        reveal_strlit("ott");
        assert("ott"@.len() != "tiff"@.len());
        assert(office_exts()[7] != "tiff"@);
        reveal_strlit("ppt");
        assert("ppt"@.len() != "tiff"@.len());
        assert(office_exts()[8] != "tiff"@);
        reveal_strlit("pptx");
        assert("pptx"@[0] != "tiff"@[0]);
        assert(office_exts()[9] != "tiff"@);
        reveal_strlit("pptm");
        assert("pptm"@[0] != "tiff"@[0]);
        assert(office_exts()[10] != "tiff"@);
        reveal_strlit("pot");
        assert("pot"@.len() != "tiff"@.len());
        assert(office_exts()[11] != "tiff"@);
        reveal_strlit("potm");
        assert("potm"@[0] != "tiff"@[0]);
        assert(office_exts()[12] != "tiff"@);
        reveal_strlit("potx");
        assert("potx"@[0] != "tiff"@[0]);
        assert(office_exts()[13] != "tiff"@);
        reveal_strlit("odp");
        assert("odp"@.len() != "tiff"@.len());
        assert(office_exts()[14] != "tiff"@);
        reveal_strlit("otp");
        assert("otp"@.len() != "tiff"@.len());
        assert(office_exts()[15] != "tiff"@);
        reveal_strlit("rtf");
        assert("rtf"@.len() != "tiff"@.len());
        assert(office_exts()[16] != "tiff"@);
        reveal_strlit("pages");
        assert("pages"@.len() != "tiff"@.len());
        assert(office_exts()[17] != "tiff"@);
        reveal_strlit("key");
        assert("key"@.len() != "tiff"@.len());
        assert(office_exts()[18] != "tiff"@);
        reveal_strlit("xls");
        assert("xls"@.len() != "tiff"@.len());
        assert(office_exts()[19] != "tiff"@);
        reveal_strlit("xlsx");
        assert("xlsx"@[0] != "tiff"@[0]);
        assert(office_exts()[20] != "tiff"@);
        reveal_strlit("xlsm");
        assert("xlsm"@[0] != "tiff"@[0]);
        assert(office_exts()[21] != "tiff"@);
        reveal_strlit("xlsb");
        assert("xlsb"@[0] != "tiff"@[0]);
        assert(office_exts()[22] != "tiff"@);
        reveal_strlit("ods");
        assert("ods"@.len() != "tiff"@.len());
        assert(office_exts()[23] != "tiff"@);
        reveal_strlit("ots");
        assert("ots"@.len() != "tiff"@.len());
        assert(office_exts()[24] != "tiff"@);
        reveal_strlit("csv");
        assert("csv"@.len() != "tiff"@.len());
        assert(office_exts()[25] != "tiff"@);
        reveal_strlit("tsv");
        assert("tsv"@.len() != "tiff"@.len());
        assert(office_exts()[26] != "tiff"@);
        reveal_strlit("numbers");
        assert("numbers"@.len() != "tiff"@.len());
        assert(office_exts()[27] != "tiff"@);
        assert(!office_exts().contains("tiff"@));
        assert(image_exts()[5] == "tiff"@);
    }
    assert(classify_spec("tif"@) == ConversionKind::Image) by {
        reveal_strlit("tif");
        reveal_strlit("pdf");
        assert("pdf"@[0] != "tif"@[0]);
        reveal_strlit("txt");
        assert("txt"@[1] != "tif"@[1]);
        assert(plain_text_exts()[0] != "tif"@);
        reveal_strlit("md");
        assert("md"@.len() != "tif"@.len());
        assert(plain_text_exts()[1] != "tif"@);
        reveal_strlit("log");
        assert("log"@[0] != "tif"@[0]);
        assert(plain_text_exts()[2] != "tif"@);
        assert(!plain_text_exts().contains("tif"@));
        reveal_strlit("doc");
        assert("doc"@[0] != "tif"@[0]);
        assert(office_exts()[0] != "tif"@);
        reveal_strlit("docx");
        assert("docx"@.len() != "tif"@.len());
        assert(office_exts()[1] != "tif"@);
        reveal_strlit("docm");
        assert("docm"@.len() != "tif"@.len());
        assert(office_exts()[2] != "tif"@);
        reveal_strlit("dot");
        assert("dot"@[0] != "tif"@[0]);
        assert(office_exts()[3] != "tif"@);
        reveal_strlit("dotm");
        assert("dotm"@.len() != "tif"@.len());
        assert(office_exts()[4] != "tif"@);
        reveal_strlit("dotx");
        assert("dotx"@.len() != "tif"@.len());
        assert(office_exts()[5] != "tif"@);
        reveal_strlit("odt");
        assert("odt"@[0] != "tif"@[0]);
        assert(office_exts()[6] != "tif"@);
        reveal_strlit("ott");
        assert("ott"@[0] != "tif"@[0]);
        assert(office_exts()[7] != "tif"@);
        reveal_strlit("ppt");
        assert("ppt"@[0] != "tif"@[0]);
        assert(office_exts()[8] != "tif"@);
        reveal_strlit("pptx");
        assert("pptx"@.len() != "tif"@.len());
        assert(office_exts()[9] != "tif"@);
        reveal_strlit("pptm");
        assert("pptm"@.len() != "tif"@.len());
        assert(office_exts()[10] != "tif"@);
        reveal_strlit("pot");
        assert("pot"@[0] != "tif"@[0]);
        assert(office_exts()[11] != "tif"@);
        reveal_strlit("potm");
        assert("potm"@.len() != "tif"@.len());
        assert(office_exts()[12] != "tif"@);
        reveal_strlit("potx");
        assert("potx"@.len() != "tif"@.len());
        assert(office_exts()[13] != "tif"@);
        reveal_strlit("odp");
        assert("odp"@[0] != "tif"@[0]);
        assert(office_exts()[14] != "tif"@);
        reveal_strlit("otp");
        assert("otp"@[0] != "tif"@[0]);
        assert(office_exts()[15] != "tif"@);
        reveal_strlit("rtf");
        assert("rtf"@[0] != "tif"@[0]);
        assert(office_exts()[16] != "tif"@);
        reveal_strlit("pages");
        assert("pages"@.len() != "tif"@.len());
        assert(office_exts()[17] != "tif"@);
        reveal_strlit("key");
        assert("key"@[0] != "tif"@[0]);
        assert(office_exts()[18] != "tif"@);
        reveal_strlit("xls");
        assert("xls"@[0] != "tif"@[0]);
        assert(office_exts()[19] != "tif"@);
        reveal_strlit("xlsx");
        assert("xlsx"@.len() != "tif"@.len());
        assert(office_exts()[20] != "tif"@);
        reveal_strlit("xlsm");
        assert("xlsm"@.len() != "tif"@.len());
        assert(office_exts()[21] != "tif"@);
        reveal_strlit("xlsb");
        assert("xlsb"@.len() != "tif"@.len());
        assert(office_exts()[22] != "tif"@);
        reveal_strlit("ods");
        assert("ods"@[0] != "tif"@[0]);
        assert(office_exts()[23] != "tif"@);
        reveal_strlit("ots");
        assert("ots"@[0] != "tif"@[0]);
        assert(office_exts()[24] != "tif"@);
        reveal_strlit("csv");
        assert("csv"@[0] != "tif"@[0]);
        assert(office_exts()[25] != "tif"@);
        reveal_strlit("tsv");
        assert("tsv"@[1] != "tif"@[1]);
        assert(office_exts()[26] != "tif"@);
        reveal_strlit("numbers");
        assert("numbers"@.len() != "tif"@.len());
        assert(office_exts()[27] != "tif"@);
        assert(!office_exts().contains("tif"@));
        assert(image_exts()[6] == "tif"@);
    }
}

proof fn lemma_image_kinds_1()
    ensures
        classify_spec("webp"@) == ConversionKind::Image,
        classify_spec("svg"@) == ConversionKind::Image,
{
    assert(classify_spec("webp"@) == ConversionKind::Image) by {
        reveal_strlit("webp");
        reveal_strlit("pdf");
        assert("pdf"@.len() != "webp"@.len());
        reveal_strlit("txt");
        assert("txt"@.len() != "webp"@.len());
        assert(plain_text_exts()[0] != "webp"@);
        reveal_strlit("md");
        assert("md"@.len() != "webp"@.len());
        assert(plain_text_exts()[1] != "webp"@);
        reveal_strlit("log");
        assert("log"@.len() != "webp"@.len());
        assert(plain_text_exts()[2] != "webp"@);
        assert(!plain_text_exts().contains("webp"@));
        reveal_strlit("doc");
        assert("doc"@.len() != "webp"@.len());
        assert(office_exts()[0] != "webp"@);
        reveal_strlit("docx");
        assert("docx"@[0] != "webp"@[0]);
        assert(office_exts()[1] != "webp"@);
        reveal_strlit("docm");
        assert("docm"@[0] != "webp"@[0]);
        assert(office_exts()[2] != "webp"@);
        reveal_strlit("dot");
        assert("dot"@.len() != "webp"@.len());
        assert(office_exts()[3] != "webp"@);
        reveal_strlit("dotm");
        assert("dotm"@[0] != "webp"@[0]);
        assert(office_exts()[4] != "webp"@);
        reveal_strlit("dotx");
        assert("dotx"@[0] != "webp"@[0]);
        assert(office_exts()[5] != "webp"@);
        reveal_strlit("odt");
        assert("odt"@.len() != "webp"@.len());
        assert(office_exts()[6] != "webp"@);
        reveal_strlit("ott");
        assert("ott"@.len() != "webp"@.len());
        assert(office_exts()[7] != "webp"@);
        reveal_strlit("ppt");
        assert("ppt"@.len() != "webp"@.len());
        assert(office_exts()[8] != "webp"@);
        reveal_strlit("pptx");
        assert("pptx"@[0] != "webp"@[0]);
        assert(office_exts()[9] != "webp"@);
        reveal_strlit("pptm");
        assert("pptm"@[0] != "webp"@[0]);
        assert(office_exts()[10] != "webp"@);
        reveal_strlit("pot");
        assert("pot"@.len() != "webp"@.len());
        assert(office_exts()[11] != "webp"@);
        reveal_strlit("potm");
        assert("potm"@[0] != "webp"@[0]);
        assert(office_exts()[12] != "webp"@);
        reveal_strlit("potx");
        assert("potx"@[0] != "webp"@[0]);
        assert(office_exts()[13] != "webp"@);
        reveal_strlit("odp");
        assert("odp"@.len() != "webp"@.len());
        assert(office_exts()[14] != "webp"@);
        reveal_strlit("otp");
        assert("otp"@.len() != "webp"@.len());
        assert(office_exts()[15] != "webp"@);
        reveal_strlit("rtf");
        assert("rtf"@.len() != "webp"@.len());
        assert(office_exts()[16] != "webp"@);
        reveal_strlit("pages");
        assert("pages"@.len() != "webp"@.len());
        assert(office_exts()[17] != "webp"@);
        reveal_strlit("key");
        assert("key"@.len() != "webp"@.len());
        assert(office_exts()[18] != "webp"@);
        reveal_strlit("xls");
        assert("xls"@.len() != "webp"@.len());
        assert(office_exts()[19] != "webp"@);
        reveal_strlit("xlsx");
        assert("xlsx"@[0] != "webp"@[0]);
        assert(office_exts()[20] != "webp"@);
        reveal_strlit("xlsm");
        assert("xlsm"@[0] != "webp"@[0]);
        assert(office_exts()[21] != "webp"@);
        reveal_strlit("xlsb");
        assert("xlsb"@[0] != "webp"@[0]);
        assert(office_exts()[22] != "webp"@);
        reveal_strlit("ods");
        assert("ods"@.len() != "webp"@.len());
        assert(office_exts()[23] != "webp"@);
        reveal_strlit("ots");
        assert("ots"@.len() != "webp"@.len());
        assert(office_exts()[24] != "webp"@);
        reveal_strlit("csv");
        assert("csv"@.len() != "webp"@.len());
        assert(office_exts()[25] != "webp"@);
        reveal_strlit("tsv");
        assert("tsv"@.len() != "webp"@.len());
        assert(office_exts()[26] != "webp"@);
        reveal_strlit("numbers");
        assert("numbers"@.len() != "webp"@.len());
        assert(office_exts()[27] != "webp"@);
        assert(!office_exts().contains("webp"@));
        assert(image_exts()[7] == "webp"@);
    }
    assert(classify_spec("svg"@) == ConversionKind::Image) by {
        reveal_strlit("svg");
        reveal_strlit("pdf");
        assert("pdf"@[0] != "svg"@[0]);
        reveal_strlit("txt");
        assert("txt"@[0] != "svg"@[0]);
        assert(plain_text_exts()[0] != "svg"@);
        reveal_strlit("md");
        assert("md"@.len() != "svg"@.len());
        assert(plain_text_exts()[1] != "svg"@);
        reveal_strlit("log");
        assert("log"@[0] != "svg"@[0]);
        assert(plain_text_exts()[2] != "svg"@);
        assert(!plain_text_exts().contains("svg"@));
        reveal_strlit("doc");
        assert("doc"@[0] != "svg"@[0]);
        assert(office_exts()[0] != "svg"@);
        reveal_strlit("docx");
        assert("docx"@.len() != "svg"@.len());
        assert(office_exts()[1] != "svg"@);
        reveal_strlit("docm");
        assert("docm"@.len() != "svg"@.len());
        assert(office_exts()[2] != "svg"@);
        reveal_strlit("dot");
        assert("dot"@[0] != "svg"@[0]);
        assert(office_exts()[3] != "svg"@);
        reveal_strlit("dotm");
        assert("dotm"@.len() != "svg"@.len());
        assert(office_exts()[4] != "svg"@);
        reveal_strlit("dotx");
        assert("dotx"@.len() != "svg"@.len());
        assert(office_exts()[5] != "svg"@);
        reveal_strlit("odt");
        assert("odt"@[0] != "svg"@[0]);
        assert(office_exts()[6] != "svg"@);
        reveal_strlit("ott");
        assert("ott"@[0] != "svg"@[0]);
        assert(office_exts()[7] != "svg"@);
        reveal_strlit("ppt");
        assert("ppt"@[0] != "svg"@[0]);
        assert(office_exts()[8] != "svg"@);
        reveal_strlit("pptx");
        assert("pptx"@.len() != "svg"@.len());
        assert(office_exts()[9] != "svg"@);
        reveal_strlit("pptm");
        assert("pptm"@.len() != "svg"@.len());
        assert(office_exts()[10] != "svg"@);
        reveal_strlit("pot");
        assert("pot"@[0] != "svg"@[0]);
        assert(office_exts()[11] != "svg"@);
        reveal_strlit("potm");
        assert("potm"@.len() != "svg"@.len());
        assert(office_exts()[12] != "svg"@);
        reveal_strlit("potx");
        assert("potx"@.len() != "svg"@.len());
        assert(office_exts()[13] != "svg"@);
        reveal_strlit("odp");
        assert("odp"@[0] != "svg"@[0]);
        assert(office_exts()[14] != "svg"@);
        reveal_strlit("otp");
        assert("otp"@[0] != "svg"@[0]);
        assert(office_exts()[15] != "svg"@);
        reveal_strlit("rtf");
        assert("rtf"@[0] != "svg"@[0]);
        assert(office_exts()[16] != "svg"@);
        reveal_strlit("pages");
        assert("pages"@.len() != "svg"@.len());
        assert(office_exts()[17] != "svg"@);
        reveal_strlit("key");
        assert("key"@[0] != "svg"@[0]);
        assert(office_exts()[18] != "svg"@);
        reveal_strlit("xls");
        assert("xls"@[0] != "svg"@[0]);
        assert(office_exts()[19] != "svg"@);
        reveal_strlit("xlsx");
        assert("xlsx"@.len() != "svg"@.len());
        assert(office_exts()[20] != "svg"@);
        reveal_strlit("xlsm");
        assert("xlsm"@.len() != "svg"@.len());
        assert(office_exts()[21] != "svg"@);
        reveal_strlit("xlsb");
        assert("xlsb"@.len() != "svg"@.len());
        assert(office_exts()[22] != "svg"@);
        reveal_strlit("ods");
        assert("ods"@[0] != "svg"@[0]);
        assert(office_exts()[23] != "svg"@);
        reveal_strlit("ots");
        assert("ots"@[0] != "svg"@[0]);
        assert(office_exts()[24] != "svg"@);
        reveal_strlit("csv");
        assert("csv"@[0] != "svg"@[0]);
        assert(office_exts()[25] != "svg"@);
        reveal_strlit("tsv");
        assert("tsv"@[0] != "svg"@[0]);
        assert(office_exts()[26] != "svg"@);
        reveal_strlit("numbers");
        assert("numbers"@.len() != "svg"@.len());
        assert(office_exts()[27] != "svg"@);
        assert(!office_exts().contains("svg"@));
        assert(image_exts()[8] == "svg"@);
    }
}

proof fn lemma_html_kinds()
    ensures
        classify_spec("htm"@) == ConversionKind::Html,
        classify_spec("html"@) == ConversionKind::Html,
        classify_spec("xhtml"@) == ConversionKind::Html,
{
    assert(classify_spec("htm"@) == ConversionKind::Html) by {
        reveal_strlit("htm");
        reveal_strlit("pdf");
        assert("pdf"@[0] != "htm"@[0]);
        reveal_strlit("txt");
        assert("txt"@[0] != "htm"@[0]);
        assert(plain_text_exts()[0] != "htm"@);
        reveal_strlit("md");
        assert("md"@.len() != "htm"@.len());
        assert(plain_text_exts()[1] != "htm"@);
        reveal_strlit("log");
        assert("log"@[0] != "htm"@[0]);
        assert(plain_text_exts()[2] != "htm"@);
        assert(!plain_text_exts().contains("htm"@));
        reveal_strlit("doc");
        assert("doc"@[0] != "htm"@[0]);
        assert(office_exts()[0] != "htm"@);
        reveal_strlit("docx");
        assert("docx"@.len() != "htm"@.len());
        assert(office_exts()[1] != "htm"@);
        reveal_strlit("docm");
        assert("docm"@.len() != "htm"@.len());
        assert(office_exts()[2] != "htm"@);
        reveal_strlit("dot");
        assert("dot"@[0] != "htm"@[0]);
        assert(office_exts()[3] != "htm"@);
        reveal_strlit("dotm");
        assert("dotm"@.len() != "htm"@.len());
        assert(office_exts()[4] != "htm"@);
        reveal_strlit("dotx");
        assert("dotx"@.len() != "htm"@.len());
        assert(office_exts()[5] != "htm"@);
        reveal_strlit("odt");
        assert("odt"@[0] != "htm"@[0]);
        assert(office_exts()[6] != "htm"@);
        reveal_strlit("ott");
        assert("ott"@[0] != "htm"@[0]);
        assert(office_exts()[7] != "htm"@);
        reveal_strlit("ppt");
        assert("ppt"@[0] != "htm"@[0]);
        assert(office_exts()[8] != "htm"@);
        reveal_strlit("pptx");
        assert("pptx"@.len() != "htm"@.len());
        assert(office_exts()[9] != "htm"@);
        reveal_strlit("pptm");
        assert("pptm"@.len() != "htm"@.len());
        assert(office_exts()[10] != "htm"@);
        reveal_strlit("pot");
        assert("pot"@[0] != "htm"@[0]);
        assert(office_exts()[11] != "htm"@);
        reveal_strlit("potm");
        assert("potm"@.len() != "htm"@.len());
        assert(office_exts()[12] != "htm"@);
        reveal_strlit("potx");
        assert("potx"@.len() != "htm"@.len());
        assert(office_exts()[13] != "htm"@);
        reveal_strlit("odp");
        assert("odp"@[0] != "htm"@[0]);
        assert(office_exts()[14] != "htm"@);
        reveal_strlit("otp");
        assert("otp"@[0] != "htm"@[0]);
        assert(office_exts()[15] != "htm"@);
        reveal_strlit("rtf");
        assert("rtf"@[0] != "htm"@[0]);
        assert(office_exts()[16] != "htm"@);
        reveal_strlit("pages");
        assert("pages"@.len() != "htm"@.len());
        assert(office_exts()[17] != "htm"@);
        reveal_strlit("key");
        assert("key"@[0] != "htm"@[0]);
        assert(office_exts()[18] != "htm"@);
        reveal_strlit("xls");
        assert("xls"@[0] != "htm"@[0]);
        assert(office_exts()[19] != "htm"@);
        reveal_strlit("xlsx");
        assert("xlsx"@.len() != "htm"@.len());
        assert(office_exts()[20] != "htm"@);
        reveal_strlit("xlsm");
        assert("xlsm"@.len() != "htm"@.len());
        assert(office_exts()[21] != "htm"@);
        reveal_strlit("xlsb");
        assert("xlsb"@.len() != "htm"@.len());
        assert(office_exts()[22] != "htm"@);
        reveal_strlit("ods");
        assert("ods"@[0] != "htm"@[0]);
        assert(office_exts()[23] != "htm"@);
        reveal_strlit("ots");
        assert("ots"@[0] != "htm"@[0]);
        assert(office_exts()[24] != "htm"@);
        reveal_strlit("csv");
        assert("csv"@[0] != "htm"@[0]);
        assert(office_exts()[25] != "htm"@);
        reveal_strlit("tsv");
        assert("tsv"@[0] != "htm"@[0]);
        assert(office_exts()[26] != "htm"@);
        reveal_strlit("numbers");
        assert("numbers"@.len() != "htm"@.len());
        assert(office_exts()[27] != "htm"@);
        assert(!office_exts().contains("htm"@));
        reveal_strlit("jpg");
        assert("jpg"@[0] != "htm"@[0]);
        assert(image_exts()[0] != "htm"@);
        reveal_strlit("jpeg");
        assert("jpeg"@.len() != "htm"@.len());
        assert(image_exts()[1] != "htm"@);
        reveal_strlit("png");
        assert("png"@[0] != "htm"@[0]);
        assert(image_exts()[2] != "htm"@);
        reveal_strlit("gif");
        assert("gif"@[0] != "htm"@[0]);
        assert(image_exts()[3] != "htm"@);
        reveal_strlit("bmp");
        assert("bmp"@[0] != "htm"@[0]);
        assert(image_exts()[4] != "htm"@);
        reveal_strlit("tiff");
        assert("tiff"@.len() != "htm"@.len());
        assert(image_exts()[5] != "htm"@);
        reveal_strlit("tif");
        assert("tif"@[0] != "htm"@[0]);
        assert(image_exts()[6] != "htm"@);
        reveal_strlit("webp");
        assert("webp"@.len() != "htm"@.len());
        assert(image_exts()[7] != "htm"@);
        reveal_strlit("svg");
        assert("svg"@[0] != "htm"@[0]);
        assert(image_exts()[8] != "htm"@);
        assert(!image_exts().contains("htm"@));
        assert(html_exts()[0] == "htm"@);
    }
    assert(classify_spec("html"@) == ConversionKind::Html) by {
        reveal_strlit("html");
        reveal_strlit("pdf");
        assert("pdf"@.len() != "html"@.len());
        reveal_strlit("txt");
        assert("txt"@.len() != "html"@.len());
        assert(plain_text_exts()[0] != "html"@);
        reveal_strlit("md");
        assert("md"@.len() != "html"@.len());
        assert(plain_text_exts()[1] != "html"@);
        reveal_strlit("log");
        assert("log"@.len() != "html"@.len());
        assert(plain_text_exts()[2] != "html"@);
        assert(!plain_text_exts().contains("html"@));
        reveal_strlit("doc");
        assert("doc"@.len() != "html"@.len());
        assert(office_exts()[0] != "html"@);
        reveal_strlit("docx");
        assert("docx"@[0] != "html"@[0]);
        assert(office_exts()[1] != "html"@);
        reveal_strlit("docm");
        assert("docm"@[0] != "html"@[0]);
        assert(office_exts()[2] != "html"@);
        reveal_strlit("dot");
        assert("dot"@.len() != "html"@.len());
        assert(office_exts()[3] != "html"@);
        reveal_strlit("dotm");
        assert("dotm"@[0] != "html"@[0]);
        assert(office_exts()[4] != "html"@);
        reveal_strlit("dotx");
        assert("dotx"@[0] != "html"@[0]);
        assert(office_exts()[5] != "html"@);
        reveal_strlit("odt");
        assert("odt"@.len() != "html"@.len());
        assert(office_exts()[6] != "html"@);
        reveal_strlit("ott");
        assert("ott"@.len() != "html"@.len());
        assert(office_exts()[7] != "html"@);
        reveal_strlit("ppt");
        assert("ppt"@.len() != "html"@.len());
        assert(office_exts()[8] != "html"@);
        reveal_strlit("pptx");
        assert("pptx"@[0] != "html"@[0]);
        assert(office_exts()[9] != "html"@);
        reveal_strlit("pptm");
        assert("pptm"@[0] != "html"@[0]);
        assert(office_exts()[10] != "html"@);
        reveal_strlit("pot");
        assert("pot"@.len() != "html"@.len());
        assert(office_exts()[11] != "html"@);
        reveal_strlit("potm");
        assert("potm"@[0] != "html"@[0]);
        assert(office_exts()[12] != "html"@);
        reveal_strlit("potx");
        assert("potx"@[0] != "html"@[0]);
        assert(office_exts()[13] != "html"@);
        reveal_strlit("odp");
        assert("odp"@.len() != "html"@.len());
        assert(office_exts()[14] != "html"@);
        reveal_strlit("otp");
        assert("otp"@.len() != "html"@.len());
        assert(office_exts()[15] != "html"@);
        reveal_strlit("rtf");
        assert("rtf"@.len() != "html"@.len());
        assert(office_exts()[16] != "html"@);
        reveal_strlit("pages");
        assert("pages"@.len() != "html"@.len());
        assert(office_exts()[17] != "html"@);
        reveal_strlit("key");
        assert("key"@.len() != "html"@.len());
        assert(office_exts()[18] != "html"@);
        reveal_strlit("xls");
        assert("xls"@.len() != "html"@.len());
        assert(office_exts()[19] != "html"@);
        reveal_strlit("xlsx");
        assert("xlsx"@[0] != "html"@[0]);
        assert(office_exts()[20] != "html"@);
        reveal_strlit("xlsm");
        assert("xlsm"@[0] != "html"@[0]);
        assert(office_exts()[21] != "html"@);
        reveal_strlit("xlsb");
        assert("xlsb"@[0] != "html"@[0]);
        assert(office_exts()[22] != "html"@);
        reveal_strlit("ods");
        assert("ods"@.len() != "html"@.len());
        assert(office_exts()[23] != "html"@);
        reveal_strlit("ots");
        assert("ots"@.len() != "html"@.len());
        assert(office_exts()[24] != "html"@);
        reveal_strlit("csv");
        assert("csv"@.len() != "html"@.len());
        assert(office_exts()[25] != "html"@);
        reveal_strlit("tsv");
        assert("tsv"@.len() != "html"@.len());
        assert(office_exts()[26] != "html"@);
        reveal_strlit("numbers");
        assert("numbers"@.len() != "html"@.len());
        assert(office_exts()[27] != "html"@);
        assert(!office_exts().contains("html"@));
        reveal_strlit("jpg");
        assert("jpg"@.len() != "html"@.len());
        assert(image_exts()[0] != "html"@);
        reveal_strlit("jpeg");
        assert("jpeg"@[0] != "html"@[0]);
        assert(image_exts()[1] != "html"@);
        reveal_strlit("png");
        assert("png"@.len() != "html"@.len());
        assert(image_exts()[2] != "html"@);
        reveal_strlit("gif");
        assert("gif"@.len() != "html"@.len());
        assert(image_exts()[3] != "html"@);
        reveal_strlit("bmp");
        assert("bmp"@.len() != "html"@.len());
        assert(image_exts()[4] != "html"@);
        reveal_strlit("tiff");
        assert("tiff"@[0] != "html"@[0]);
        assert(image_exts()[5] != "html"@);
        reveal_strlit("tif");
        assert("tif"@.len() != "html"@.len());
        assert(image_exts()[6] != "html"@);
        reveal_strlit("webp");
        assert("webp"@[0] != "html"@[0]);
        assert(image_exts()[7] != "html"@);
        reveal_strlit("svg");
        assert("svg"@.len() != "html"@.len());
        assert(image_exts()[8] != "html"@);
        assert(!image_exts().contains("html"@));
        assert(html_exts()[1] == "html"@);
    }
    assert(classify_spec("xhtml"@) == ConversionKind::Html) by {
        reveal_strlit("xhtml");
        reveal_strlit("pdf");
        assert("pdf"@.len() != "xhtml"@.len());
        reveal_strlit("txt");
        assert("txt"@.len() != "xhtml"@.len());
        assert(plain_text_exts()[0] != "xhtml"@);
        reveal_strlit("md");
        assert("md"@.len() != "xhtml"@.len());
        assert(plain_text_exts()[1] != "xhtml"@);
        reveal_strlit("log");
        assert("log"@.len() != "xhtml"@.len());
        assert(plain_text_exts()[2] != "xhtml"@);
        assert(!plain_text_exts().contains("xhtml"@));
        reveal_strlit("doc");
        assert("doc"@.len() != "xhtml"@.len());
        assert(office_exts()[0] != "xhtml"@);
        reveal_strlit("docx");
        assert("docx"@.len() != "xhtml"@.len());
        assert(office_exts()[1] != "xhtml"@);
        reveal_strlit("docm");
        assert("docm"@.len() != "xhtml"@.len());
        assert(office_exts()[2] != "xhtml"@);
        reveal_strlit("dot");
        assert("dot"@.len() != "xhtml"@.len());
        assert(office_exts()[3] != "xhtml"@);
        reveal_strlit("dotm");
        assert("dotm"@.len() != "xhtml"@.len());
        assert(office_exts()[4] != "xhtml"@);
        reveal_strlit("dotx");
        assert("dotx"@.len() != "xhtml"@.len());
        assert(office_exts()[5] != "xhtml"@);
        reveal_strlit("odt");
        assert("odt"@.len() != "xhtml"@.len());
        assert(office_exts()[6] != "xhtml"@);
        reveal_strlit("ott");
        assert("ott"@.len() != "xhtml"@.len());
        assert(office_exts()[7] != "xhtml"@);
        reveal_strlit("ppt");
        assert("ppt"@.len() != "xhtml"@.len());
        assert(office_exts()[8] != "xhtml"@);
        reveal_strlit("pptx");
        assert("pptx"@.len() != "xhtml"@.len());
        assert(office_exts()[9] != "xhtml"@);
        reveal_strlit("pptm");
        assert("pptm"@.len() != "xhtml"@.len());
        assert(office_exts()[10] != "xhtml"@);
        reveal_strlit("pot");
        assert("pot"@.len() != "xhtml"@.len());
        assert(office_exts()[11] != "xhtml"@);
        reveal_strlit("potm");
        assert("potm"@.len() != "xhtml"@.len());
        assert(office_exts()[12] != "xhtml"@);
        reveal_strlit("potx");
        assert("potx"@.len() != "xhtml"@.len());
        assert(office_exts()[13] != "xhtml"@);
        reveal_strlit("odp");
        assert("odp"@.len() != "xhtml"@.len());
        assert(office_exts()[14] != "xhtml"@);
        reveal_strlit("otp");
        assert("otp"@.len() != "xhtml"@.len());
        assert(office_exts()[15] != "xhtml"@);
        reveal_strlit("rtf");
        assert("rtf"@.len() != "xhtml"@.len());
        assert(office_exts()[16] != "xhtml"@);
        reveal_strlit("pages");
        assert("pages"@[0] != "xhtml"@[0]);
        assert(office_exts()[17] != "xhtml"@);
        reveal_strlit("key");
        assert("key"@.len() != "xhtml"@.len());
        assert(office_exts()[18] != "xhtml"@);
        reveal_strlit("xls");
        assert("xls"@.len() != "xhtml"@.len());
        assert(office_exts()[19] != "xhtml"@);
        reveal_strlit("xlsx");
        assert("xlsx"@.len() != "xhtml"@.len());
        assert(office_exts()[20] != "xhtml"@);
        reveal_strlit("xlsm");
        assert("xlsm"@.len() != "xhtml"@.len());
        assert(office_exts()[21] != "xhtml"@);
        reveal_strlit("xlsb");
        assert("xlsb"@.len() != "xhtml"@.len());
        assert(office_exts()[22] != "xhtml"@);
        reveal_strlit("ods");
        assert("ods"@.len() != "xhtml"@.len());
        assert(office_exts()[23] != "xhtml"@);
        reveal_strlit("ots");
        assert("ots"@.len() != "xhtml"@.len());
        assert(office_exts()[24] != "xhtml"@);
        reveal_strlit("csv");
        assert("csv"@.len() != "xhtml"@.len());
        assert(office_exts()[25] != "xhtml"@);
        reveal_strlit("tsv");
        assert("tsv"@.len() != "xhtml"@.len());
        assert(office_exts()[26] != "xhtml"@);
        reveal_strlit("numbers");
        assert("numbers"@.len() != "xhtml"@.len());
        assert(office_exts()[27] != "xhtml"@);
        assert(!office_exts().contains("xhtml"@));
        reveal_strlit("jpg");
        assert("jpg"@.len() != "xhtml"@.len());
        assert(image_exts()[0] != "xhtml"@);
        reveal_strlit("jpeg");
        assert("jpeg"@.len() != "xhtml"@.len());
        assert(image_exts()[1] != "xhtml"@);
        reveal_strlit("png");
        assert("png"@.len() != "xhtml"@.len());
        assert(image_exts()[2] != "xhtml"@);
        reveal_strlit("gif");
        assert("gif"@.len() != "xhtml"@.len());
        assert(image_exts()[3] != "xhtml"@);
        reveal_strlit("bmp");
        assert("bmp"@.len() != "xhtml"@.len());
        assert(image_exts()[4] != "xhtml"@);
        reveal_strlit("tiff");
        assert("tiff"@.len() != "xhtml"@.len());
        assert(image_exts()[5] != "xhtml"@);
        reveal_strlit("tif");
        assert("tif"@.len() != "xhtml"@.len());
        assert(image_exts()[6] != "xhtml"@);
        reveal_strlit("webp");
        assert("webp"@.len() != "xhtml"@.len());
        assert(image_exts()[7] != "xhtml"@);
        reveal_strlit("svg");
        assert("svg"@.len() != "xhtml"@.len());
        assert(image_exts()[8] != "xhtml"@);
        assert(!image_exts().contains("xhtml"@));
        assert(html_exts()[2] == "xhtml"@);
    }
}

/// Any other extension is of no known kind: it is neither `pdf` nor one
/// of the plain-text, office, image or HTML extensions listed above.
pub proof fn other_extensions_are_unknown(ext: Seq<char>)
    requires
        !seq![
            "pdf"@, "txt"@, "md"@, "log"@, "doc"@, "docx"@, "docm"@, "dot"@,
            "dotm"@, "dotx"@, "odt"@, "ott"@, "ppt"@, "pptx"@, "pptm"@, "pot"@,
            "potm"@, "potx"@, "odp"@, "otp"@, "rtf"@, "pages"@, "key"@, "xls"@,
            "xlsx"@, "xlsm"@, "xlsb"@, "ods"@, "ots"@, "csv"@, "tsv"@, "numbers"@,
            "jpg"@, "jpeg"@, "png"@, "gif"@, "bmp"@, "tiff"@, "tif"@, "webp"@,
            "svg"@, "htm"@, "html"@, "xhtml"@,
        ].contains(ascii_lower(ext)),
    ensures
        classify_spec(ascii_lower(ext)) == ConversionKind::Unknown,
{
    let e = ascii_lower(ext);
    let all = seq![
            "pdf"@, "txt"@, "md"@, "log"@, "doc"@, "docx"@, "docm"@, "dot"@,
            "dotm"@, "dotx"@, "odt"@, "ott"@, "ppt"@, "pptx"@, "pptm"@, "pot"@,
            "potm"@, "potx"@, "odp"@, "otp"@, "rtf"@, "pages"@, "key"@, "xls"@,
            "xlsx"@, "xlsm"@, "xlsb"@, "ods"@, "ots"@, "csv"@, "tsv"@, "numbers"@,
            "jpg"@, "jpeg"@, "png"@, "gif"@, "bmp"@, "tiff"@, "tif"@, "webp"@,
            "svg"@, "htm"@, "html"@, "xhtml"@,
    ];
    assert(all[0] == "pdf"@);
    assert forall|j: int| 0 <= j < 3 implies plain_text_exts()[j] != e by {
        assert(plain_text_exts()[j] == all[1 + j]);
    }
    assert forall|j: int| 0 <= j < 28 implies office_exts()[j] != e by {
        assert(office_exts()[j] == all[4 + j]);
    }
    assert forall|j: int| 0 <= j < 9 implies image_exts()[j] != e by {
        assert(image_exts()[j] == all[32 + j]);
    }
    assert forall|j: int| 0 <= j < 3 implies html_exts()[j] != e by {
        assert(html_exts()[j] == all[41 + j]);
    }
}

/// Membership of `v` in a list of literals.
fn in_list(v: &Vec<char>, list: &Vec<&'static str>, Ghost(spec): Ghost<Seq<Seq<char>>>) -> (r: bool)
    requires
        list@.map_values(|s: &'static str| s@) == spec,
    ensures
        r == spec.contains(v@),
{
    let mut k: usize = 0;
    while k < list.len()
        invariant
            k <= list.len(),
            list@.map_values(|s: &'static str| s@) == spec,
            forall|j: int| 0 <= j < k ==> spec[j] != v@,
        decreases list.len() - k,
    {
        assert(spec[k as int] == list@[k as int]@);
        if chars_eq_str(v, list[k]) {
            return true;
        }
        k += 1;
    }
    false
}

fn office_list() -> (v: Vec<&'static str>)
    ensures
        v@.map_values(|s: &'static str| s@) == office_exts(),
{
    let v = vec![
        "doc", "docx", "docm", "dot", "dotm", "dotx", "odt", "ott", "ppt", "pptx", "pptm", "pot",
        "potm", "potx", "odp", "otp", "rtf", "pages", "key", "xls", "xlsx", "xlsm", "xlsb", "ods",
        "ots", "csv", "tsv", "numbers",
    ];
    assert(v@.map_values(|s: &'static str| s@) =~= office_exts());
    v
}

fn image_list() -> (v: Vec<&'static str>)
    ensures
        v@.map_values(|s: &'static str| s@) == image_exts(),
{
    let v = vec!["jpg", "jpeg", "png", "gif", "bmp", "tiff", "tif", "webp", "svg"];
    assert(v@.map_values(|s: &'static str| s@) =~= image_exts());
    v
}

fn html_list() -> (v: Vec<&'static str>)
    ensures
        v@.map_values(|s: &'static str| s@) == html_exts(),
{
    let v = vec!["htm", "html", "xhtml"];
    assert(v@.map_values(|s: &'static str| s@) =~= html_exts());
    v
}

fn plain_text_list() -> (v: Vec<&'static str>)
    ensures
        v@.map_values(|s: &'static str| s@) == plain_text_exts(),
{
    let v = vec!["txt", "md", "log"];
    assert(v@.map_values(|s: &'static str| s@) =~= plain_text_exts());
    v
}

fn ghostscript_list() -> (v: Vec<&'static str>)
    ensures
        v@.map_values(|s: &'static str| s@) == ghostscript_exts(),
{
    let v = vec!["svg", "eps", "ps", "ai"];
    assert(v@.map_values(|s: &'static str| s@) =~= ghostscript_exts());
    v
}

/// Which converter handles an input with extension `ext` (compared
/// case-insensitively).
pub fn classify_extension(ext: &str) -> (r: ConversionKind)
    ensures
        r == classify_spec(ascii_lower(ext@)),
{
    let e = ascii_lowercase(&chars_of(ext));
    if chars_eq_str(&e, "pdf") {
        ConversionKind::Pdf
    } else if in_list(&e, &plain_text_list(), Ghost(plain_text_exts())) {
        ConversionKind::PlainText
    } else if in_list(&e, &office_list(), Ghost(office_exts())) {
        ConversionKind::Office
    } else if in_list(&e, &image_list(), Ghost(image_exts())) {
        ConversionKind::Image
    } else if in_list(&e, &html_list(), Ghost(html_exts())) {
        ConversionKind::Html
    } else {
        ConversionKind::Unknown
    }
}

/// Converting an image with extension `ext` needs Ghostscript.
pub fn needs_ghostscript(ext: &str) -> (r: bool)
    ensures
        r == ghostscript_exts().contains(ascii_lower(ext@)),
{
    let e = ascii_lowercase(&chars_of(ext));
    in_list(&e, &ghostscript_list(), Ghost(ghostscript_exts()))
}

/// `s` with leading `'.'` characters removed.
pub open spec fn strip_leading_dots(s: Seq<char>) -> Seq<char>
    decreases s.len(),
{
    if s.len() > 0 && s[0] == '.' {
        strip_leading_dots(s.drop_first())
    } else {
        s
    }
}

/// The extension an in-memory input is written out with: the caller's
/// hint without leading dots and lower-cased, else the sniffed type, else
/// `bin`.
pub open spec fn chosen_extension(hint: Option<Seq<char>>, bytes: Seq<u8>) -> Seq<char> {
    match hint {
        Some(h) => ascii_lower(strip_leading_dots(h)),
        None => match sniffed_extension(bytes) {
            Some(e) => e,
            None => "bin"@,
        },
    }
}

/// Picks the extension for an in-memory input before conversion.
pub fn choose_extension(hint: Option<&str>, bytes: &[u8]) -> (r: String)
    ensures
        r@ == chosen_extension(
            match hint {
                Some(h) => Some(h@),
                None => None,
            },
            bytes@,
        ),
{
    match hint {
        Some(h) => {
            let v = chars_of(h);
            let mut lo: usize = 0;
            assert(v@.subrange(0, v@.len() as int) =~= v@);
            while lo < v.len() && v[lo] == '.'
                invariant
                    lo <= v.len(),
                    strip_leading_dots(v@) == strip_leading_dots(v@.subrange(lo as int, v@.len() as int)),
                decreases v.len() - lo,
            {
                let ghost w = v@.subrange(lo as int, v@.len() as int);
                assert(w.drop_first() =~= v@.subrange(lo + 1, v@.len() as int));
                lo += 1;
            }
            let rest = copy_range(&v, lo, v.len());
            string_of(&ascii_lowercase(&rest))
        },
        None => match sniff_extension(bytes) {
            Some(e) => e.to_owned(),
            None => "bin".to_owned(),
        },
    }
}

/// The path `which`/`where` reports: the first output line, trimmed, when
/// it is not empty.
pub open spec fn which_path_spec(stdout: Seq<char>) -> Option<Seq<char>> {
    let ls = lines_of(stdout);
    if ls.len() == 0 || trim(ls[0]).len() == 0 {
        None
    } else {
        Some(trim(ls[0]))
    }
}

/// Extracts the resolved path from the standard output of `which`.
pub fn which_path(stdout: &str) -> (r: Option<String>)
    ensures
        r matches Some(p) ==> which_path_spec(stdout@) == Some(p@),
        r is None ==> which_path_spec(stdout@) is None,
{
    let ls = crate::layout::lines_vec(&chars_of(stdout));
    if ls.len() == 0 {
        return None;
    }
    let t = trim_vec(&ls[0]);
    assert(ls@.map_values(|v: Vec<char>| v@)[0] == ls@[0]@);
    if t.len() == 0 {
        None
    } else {
        Some(string_of(&t))
    }
}

/// The `-version` output of a binary identifies ImageMagick.
pub open spec fn mentions_imagemagick_spec(stdout: Seq<char>) -> bool {
    exists|i: int|
        0 <= i && i + 11 <= stdout.len() && #[trigger] ascii_lower(stdout).subrange(i, i + 11)
            == "imagemagick"@
}

/// Whether a binary's `-version` output names ImageMagick (any case).
pub fn mentions_imagemagick(stdout: &str) -> (r: bool)
    ensures
        r == mentions_imagemagick_spec(stdout@),
{
    let s = ascii_lowercase(&chars_of(stdout));
    let key = chars_of("imagemagick");
    proof {
        reveal_strlit("imagemagick");
    }
    if s.len() < 11 {
        return false;
    }
    let mut i: usize = 0;
    while i <= s.len() - 11
        invariant
            s@ == ascii_lower(stdout@),
            key@ == "imagemagick"@,
            key@.len() == 11,
            s@.len() == stdout@.len(),
            s@.len() >= 11,
            i <= s.len(),
            forall|j: int|
                0 <= j < i ==> #[trigger] ascii_lower(stdout@).subrange(j, j + 11) != "imagemagick"@,
        decreases s.len() - i,
    {
        let w = copy_range(&s, i, i + 11);
        if crate::text::chars_eq(&w, &key) {
            return true;
        }
        i += 1;
    }
    false
}

/// Binary names tried on `PATH` for LibreOffice, in order.
pub open spec fn libreoffice_names() -> Seq<Seq<char>> {
    seq!["libreoffice"@, "soffice"@]
}

/// Install locations tried for LibreOffice when `PATH` has none, in order.
pub open spec fn libreoffice_paths() -> Seq<Seq<char>> {
    seq![
        "/Applications/LibreOffice.app/Contents/MacOS/soffice"@,
        "/Applications/LibreOffice.app/Contents/MacOS/libreoffice"@,
        "C:\\Program Files\\LibreOffice\\program\\soffice.exe"@,
    ]
}

/// The binary names probed on `PATH`.
pub fn libreoffice_binary_names() -> (r: Vec<&'static str>)
    ensures
        r@.map_values(|s: &'static str| s@) == libreoffice_names(),
{
    let v = vec!["libreoffice", "soffice"];
    assert(v@.map_values(|s: &'static str| s@) =~= libreoffice_names());
    v
}

/// The fixed install locations probed after `PATH`.
pub fn libreoffice_candidate_paths() -> (r: Vec<&'static str>)
    ensures
        r@.map_values(|s: &'static str| s@) == libreoffice_paths(),
{
    let v = vec![
        "/Applications/LibreOffice.app/Contents/MacOS/soffice",
        "/Applications/LibreOffice.app/Contents/MacOS/libreoffice",
        "C:\\Program Files\\LibreOffice\\program\\soffice.exe",
    ];
    assert(v@.map_values(|s: &'static str| s@) =~= libreoffice_paths());
    v
}

/// The view of a `which` result.
pub open spec fn found_view(o: Option<String>) -> Option<Seq<char>> {
    match o {
        Some(p) => Some(p@),
        None => None,
    }
}

/// The LibreOffice binary chosen from the probe results: the first name
/// that `which` resolved, else the first install location that is an
/// executable file, else none.
pub open spec fn libreoffice_choice(found: Seq<Option<Seq<char>>>, executable: Seq<bool>) -> Option<
    Seq<char>,
> {
    if found[0] is Some {
        found[0]
    } else if found[1] is Some {
        found[1]
    } else if executable[0] {
        Some(libreoffice_paths()[0])
    } else if executable[1] {
        Some(libreoffice_paths()[1])
    } else if executable[2] {
        Some(libreoffice_paths()[2])
    } else {
        None
    }
}

/// Resolve the LibreOffice binary from the probes: `on_path[i]` is what
/// `which` found for the `i`-th of [`libreoffice_binary_names`],
/// `executable[j]` whether the `j`-th of [`libreoffice_candidate_paths`]
/// is an executable file.
pub fn find_libreoffice(on_path: &Vec<Option<String>>, executable: &Vec<bool>) -> (r: Option<
    String,
>)
    requires
        on_path@.len() == 2,
        executable@.len() == 3,
    ensures
        found_view(r) == libreoffice_choice(on_path@.map_values(|o| found_view(o)), executable@),
{
    let ghost found = on_path@.map_values(|o| found_view(o));
    assert(found[0] == found_view(on_path@[0]));
    assert(found[1] == found_view(on_path@[1]));
    let paths = libreoffice_candidate_paths();
    assert(libreoffice_paths().len() == 3);
    assert(paths@.len() == 3);
    assert(paths@.map_values(|s: &'static str| s@)[0] == paths@[0]@);
    assert(paths@.map_values(|s: &'static str| s@)[1] == paths@[1]@);
    assert(paths@.map_values(|s: &'static str| s@)[2] == paths@[2]@);
    if let Some(p) = &on_path[0] {
        Some(p.clone())
    } else if let Some(p) = &on_path[1] {
        Some(p.clone())
    } else if executable[0] {
        Some(paths[0].to_owned())
    } else if executable[1] {
        Some(paths[1].to_owned())
    } else if executable[2] {
        Some(paths[2].to_owned())
    } else {
        None
    }
}


/// The fixed arguments LibreOffice is run with, before the output
/// directory.
pub open spec fn libreoffice_args_spec() -> Seq<Seq<char>> {
    seq!["--headless"@, "--invisible"@, "--convert-to"@, "pdf"@, "--outdir"@]
}

/// The fixed arguments LibreOffice is run with, before the output
/// directory.
pub fn libreoffice_args() -> (r: Vec<&'static str>)
    ensures
        r@.map_values(|s: &'static str| s@) == libreoffice_args_spec(),
{
    let v = vec!["--headless", "--invisible", "--convert-to", "pdf", "--outdir"];
    assert(v@.map_values(|s: &'static str| s@) =~= libreoffice_args_spec());
    v
}

/// The LibreOffice import-filter flag carrying a document password.
pub fn office_password_flag(password: &str) -> (r: String)
    ensures
        r@ == "--infilter=:"@ + password@,
{
    let mut v: Vec<char> = Vec::new();
    crate::text::append_str(&mut v, "--infilter=:");
    crate::text::append_str(&mut v, password);
    string_of(&v)
}

/// The arguments ImageMagick is run with between the input and the
/// output file.
pub open spec fn imagemagick_args_spec() -> Seq<Seq<char>> {
    seq!["-density"@, "150"@, "-units"@, "PixelsPerInch"@]
}

/// The arguments ImageMagick is run with between the input and the
/// output file.
pub fn imagemagick_args() -> (r: Vec<&'static str>)
    ensures
        r@.map_values(|s: &'static str| s@) == imagemagick_args_spec(),
{
    let v = vec!["-density", "150", "-units", "PixelsPerInch"];
    assert(v@.map_values(|s: &'static str| s@) =~= imagemagick_args_spec());
    v
}

/// The name a converter gives its PDF: the input's stem with `.pdf`.
pub fn converted_pdf_name(stem: &str) -> (r: String)
    ensures
        r@ == stem@ + ".pdf"@,
{
    let mut v: Vec<char> = Vec::new();
    crate::text::append_str(&mut v, stem);
    crate::text::append_str(&mut v, ".pdf");
    string_of(&v)
}

/// The message when an image format needs Ghostscript and none is found.
pub open spec fn ghostscript_message(ext: Seq<char>) -> Seq<char> {
    "Ghostscript is required to convert ."@ + ext
        + " files. Install with `brew install ghostscript` / `apt-get install ghostscript`."@
}

/// The error when an image format needs Ghostscript and none is found.
pub fn ghostscript_required(ext: &str) -> (r: SpdfError)
    ensures
        r matches SpdfError::Conversion(m) && m@ == ghostscript_message(ext@),
{
    let mut v: Vec<char> = Vec::new();
    crate::text::append_str(&mut v, "Ghostscript is required to convert .");
    crate::text::append_str(&mut v, ext);
    crate::text::append_str(
        &mut v,
        " files. Install with `brew install ghostscript` / `apt-get install ghostscript`.",
    );
    SpdfError::Conversion(string_of(&v))
}

/// The error for an input path that does not exist.
pub fn file_not_found(path: &str) -> (r: SpdfError)
    ensures
        r matches SpdfError::InvalidInput(m) && m@ == "file not found: "@ + path@,
{
    let mut v: Vec<char> = Vec::new();
    crate::text::append_str(&mut v, "file not found: ");
    crate::text::append_str(&mut v, path);
    SpdfError::InvalidInput(string_of(&v))
}

/// On Windows, `convert` on `PATH` may be the system disk tool rather than
/// ImageMagick: a path ending in `system32\convert.exe` (any case).
pub open spec fn is_system_convert_spec(name: Seq<char>, path: Seq<char>) -> bool {
    let suffix = "system32\\convert.exe"@;
    name == "convert"@ && path.len() >= suffix.len() && ascii_lower(path).subrange(
        path.len() - suffix.len(),
        path.len() as int,
    ) == suffix
}

/// Whether a `which` hit for ImageMagick is Windows' own `convert.exe`.
pub fn is_system_convert(name: &str, path: &str) -> (r: bool)
    ensures
        r == is_system_convert_spec(name@, path@),
{
    let n = chars_of(name);
    if !chars_eq_str(&n, "convert") {
        return false;
    }
    let p = ascii_lowercase(&chars_of(path));
    let suffix = chars_of("system32\\convert.exe");
    if p.len() < suffix.len() {
        return false;
    }
    let tail = copy_range(&p, p.len() - suffix.len(), p.len());
    crate::text::chars_eq(&tail, &suffix)
}

} // verus!
