use spdf::cli::{
    batch_output_extension, batch_output_name, batch_wants, char_overlap_counts, parse_language,
    truncate,
};
use spdf::command::{command_outcome, i32_to_decimal, poll_step, timeout_error, PollAction};
use spdf::config::{Language, OutputFormat, ParseConfig, ParseConfigBuilder, DEFAULT_STREAM_CAP};
use spdf::convert::{
    choose_extension, classify_extension, converted_pdf_name, file_not_found, find_libreoffice,
    ghostscript_required, guess_extension_from_buffer, imagemagick_args, is_system_convert,
    libreoffice_args, libreoffice_binary_names, libreoffice_candidate_paths, mentions_imagemagick,
    needs_ghostscript, office_password_flag, which_path, ConversionKind,
};
use spdf::engine::{page_index, ExtractOptions, PdfDocumentHandle, PdfiumDoc, PdfiumEngine};
use spdf::error::SpdfError;
use spdf::pipeline::{
    check_deadline, choose_ocr_engine, ocr_candidates, ocr_options_for, page_limit,
    screenshot_plain_text_error, strips_running_text, OcrEngineChoice, PageContent, Stage,
};
use spdf::platform::{host_asset, host_triple, library_location, search_roots};
use spdf::running_text::{strip_repeating_running_text, BandItem, PageText};
use spdf::types::{
    screenshot_file_name, screenshot_targets, MarkupData, ParseInput, ScreenshotResult, Snap,
};

#[test]
fn defaults_match_liteparse() {
    let c = ParseConfig::default();
    assert!(matches!(&c.ocr_language, Language::Single(s) if s == "en"));
    assert!(c.ocr_enabled);
    assert_eq!(c.num_workers, 4);
    assert_eq!(c.max_pages, 1000);
    assert_eq!(c.dpi, 150);
    assert_eq!(c.output_format, OutputFormat::Json);
    assert!(c.precise_bounding_box);
    assert!(!c.preserve_very_small_text);
    assert_eq!(c.max_declared_stream_bytes, Some(DEFAULT_STREAM_CAP));
    assert_eq!(c.max_expanded_stream_bytes, Some(256 * 1024 * 1024));
    assert!(c.password.is_none());
    assert!(c.timeout_secs.is_none());
}

#[test]
fn builder_sets_only_the_named_field() {
    let c = ParseConfigBuilder::default()
        .dpi(300)
        .target_pages("1-2")
        .password("pw")
        .ocr_server_url("http://localhost:8828/ocr")
        .timeout_secs(5)
        .max_input_bytes(10)
        .num_workers(2)
        .max_pages(7)
        .output_format(OutputFormat::Text)
        .precise_bounding_box(false)
        .config();
    assert_eq!(c.dpi, 300);
    assert_eq!(c.target_pages.as_deref(), Some("1-2"));
    assert_eq!(c.password.as_deref(), Some("pw"));
    assert_eq!(c.ocr_server_url.as_deref(), Some("http://localhost:8828/ocr"));
    assert_eq!(c.timeout_secs, Some(5));
    assert_eq!(c.max_input_bytes, Some(10));
    assert_eq!(c.num_workers, 2);
    assert_eq!(c.max_pages, 7);
    assert_eq!(c.output_format, OutputFormat::Text);
    assert!(!c.precise_bounding_box);
    assert!(c.ocr_enabled);
    assert_eq!(c.max_declared_stream_bytes, Some(DEFAULT_STREAM_CAP));
}

#[test]
fn language_strings() {
    assert_eq!(Language::default().as_strings(), vec!["en"]);
    let l = Language::Multiple(vec!["en".to_string(), "fr".to_string()]);
    assert_eq!(l.as_strings(), vec!["en", "fr"]);
    assert_eq!(l.to_codes(), vec!["en".to_string(), "fr".to_string()]);
}

#[test]
fn cli_language_flags() {
    assert!(parse_language(&Vec::new()).is_none());
    assert!(parse_language(&vec!["  ".to_string(), "".to_string()]).is_none());
    match parse_language(&vec![" de ".to_string(), " ".to_string()]) {
        Some(Language::Single(s)) => assert_eq!(s, "de"),
        other => panic!("expected one language, got {other:?}"),
    }
    match parse_language(&vec!["en".to_string(), "".to_string(), " fr".to_string()]) {
        Some(Language::Multiple(v)) => assert_eq!(v, vec!["en".to_string(), "fr".to_string()]),
        other => panic!("expected a list, got {other:?}"),
    }
}

#[test]
fn batch_naming_and_filtering() {
    assert_eq!(batch_output_extension(OutputFormat::Json), "json");
    assert_eq!(batch_output_extension(OutputFormat::Text), "txt");
    assert_eq!(batch_output_name(Some("report"), "txt"), "report.txt");
    assert_eq!(batch_output_name(None, "json"), "output.json");
    assert!(batch_wants(None, None));
    assert!(batch_wants(Some("PDF"), Some("pdf")));
    assert!(!batch_wants(Some("pdf"), Some("docx")));
    assert!(!batch_wants(Some("pdf"), None));
}

#[test]
fn report_cells_are_truncated() {
    assert_eq!(truncate("short", 10), "short");
    assert_eq!(truncate("abcdefgh", 5), "abcd…");
    assert_eq!(truncate("abcde", 5), "abcde");
    assert_eq!(truncate("", 0), "");
}

#[test]
fn converter_polling() {
    assert_eq!(poll_step(true, 999_999, 10), PollAction::Finished);
    assert_eq!(poll_step(false, 10, 10), PollAction::Kill);
    assert_eq!(poll_step(false, 9, 10), PollAction::Wait);
}

#[test]
fn converter_outcomes() {
    assert_eq!(command_outcome(true, Some(0), "out".to_string(), "x").unwrap(), "out");
    match command_outcome(false, Some(2), String::new(), "  boom \n") {
        Err(SpdfError::Conversion(m)) => assert_eq!(m, "command exited 2: boom"),
        other => panic!("unexpected {other:?}"),
    }
    match command_outcome(false, None, String::new(), "") {
        Err(SpdfError::Conversion(m)) => assert_eq!(m, "command exited -1: "),
        other => panic!("unexpected {other:?}"),
    }
    match timeout_error(120) {
        SpdfError::Conversion(m) => assert_eq!(m, format!("command timeout after {:?}", std::time::Duration::from_secs(120))),
        other => panic!("unexpected {other:?}"),
    }
    assert_eq!(i32_to_decimal(i32::MIN), i32::MIN.to_string());
    assert_eq!(i32_to_decimal(0), "0");
    assert_eq!(i32_to_decimal(-45), "-45");
}

#[test]
fn extension_classification() {
    assert_eq!(classify_extension("PDF"), ConversionKind::Pdf);
    assert_eq!(classify_extension("md"), ConversionKind::PlainText);
    assert_eq!(classify_extension("docx"), ConversionKind::Office);
    assert_eq!(classify_extension("xlsx"), ConversionKind::Office);
    assert_eq!(classify_extension("PNG"), ConversionKind::Image);
    assert_eq!(classify_extension("html"), ConversionKind::Html);
    assert_eq!(classify_extension("xyz"), ConversionKind::Unknown);
    assert_eq!(classify_extension(""), ConversionKind::Unknown);
    assert!(needs_ghostscript("SVG"));
    assert!(needs_ghostscript("eps"));
    assert!(!needs_ghostscript("png"));
}

#[test]
fn extension_choice_for_bytes() {
    assert_eq!(choose_extension(Some("..DOCX"), b"whatever"), "docx");
    assert_eq!(choose_extension(None, b"%PDF-1.4\n"), "pdf");
    assert_eq!(choose_extension(None, b"plain words"), "bin");
    assert_eq!(guess_extension_from_buffer(b"\x89PNG\r\n\x1a\n0000"), Some("png"));
    assert_eq!(guess_extension_from_buffer(b""), None);
}

#[test]
fn which_output_parsing() {
    assert_eq!(which_path("/usr/bin/soffice\n/other\n").as_deref(), Some("/usr/bin/soffice"));
    assert_eq!(which_path("  \n"), None);
    assert_eq!(which_path(""), None);
    assert!(mentions_imagemagick("Version: ImageMagick 7.1.1"));
    assert!(!mentions_imagemagick("convert: unknown"));
    assert!(is_system_convert("convert", "C:\\Windows\\System32\\convert.exe"));
    assert!(!is_system_convert("magick", "C:\\Windows\\System32\\convert.exe"));
    assert!(!is_system_convert("convert", "/usr/bin/convert"));
}

#[test]
fn libreoffice_resolution() {
    assert_eq!(libreoffice_binary_names(), vec!["libreoffice", "soffice"]);
    let paths = libreoffice_candidate_paths();
    assert_eq!(paths.len(), 3);
    let found = find_libreoffice(&vec![None, Some("/usr/bin/soffice".to_string())], &vec![true, true, true]);
    assert_eq!(found.as_deref(), Some("/usr/bin/soffice"));
    let found = find_libreoffice(&vec![None, None], &vec![false, true, true]);
    assert_eq!(found.as_deref(), Some(paths[1]));
    assert!(find_libreoffice(&vec![None, None], &vec![false, false, false]).is_none());
}

#[test]
fn converter_arguments_and_messages() {
    assert_eq!(libreoffice_args(), vec!["--headless", "--invisible", "--convert-to", "pdf", "--outdir"]);
    assert_eq!(imagemagick_args(), vec!["-density", "150", "-units", "PixelsPerInch"]);
    assert_eq!(office_password_flag("s3"), "--infilter=:s3");
    assert_eq!(converted_pdf_name("report"), "report.pdf");
    match ghostscript_required("eps") {
        SpdfError::Conversion(m) => assert!(m.starts_with("Ghostscript is required to convert .eps files.")),
        other => panic!("unexpected {other:?}"),
    }
    match file_not_found("/no/such/file.pdf") {
        SpdfError::InvalidInput(m) => assert_eq!(m, "file not found: /no/such/file.pdf"),
        other => panic!("unexpected {other:?}"),
    }
}

#[test]
fn pdf_engine_data() {
    assert_eq!(PdfiumEngine::new().name(), "pdfium");
    let doc = PdfiumDoc::new(b"%PDF".to_vec(), 3, Some("pw".to_string()));
    assert_eq!(doc.num_pages(), 3);
    assert_eq!(doc.bytes(), b"%PDF");
    assert_eq!(doc.password(), Some("pw"));
    assert!(ExtractOptions::for_ocr(true).extract_images);
    assert!(!ExtractOptions::default().extract_images);
}

#[test]
fn page_numbers_are_one_indexed() {
    assert_eq!(page_index(1).unwrap(), 0);
    assert_eq!(page_index(7).unwrap(), 6);
    assert_eq!(page_index(65536).unwrap(), 65535);
    match page_index(65537) {
        Err(SpdfError::InvalidInput(m)) => assert_eq!(m, "page number out of range"),
        other => panic!("unexpected {other:?}"),
    }
    match page_index(0) {
        Err(SpdfError::InvalidInput(m)) => assert_eq!(m, "page numbers are 1-indexed"),
        other => panic!("unexpected {other:?}"),
    }
}

#[test]
fn platform_layout() {
    assert_eq!(host_triple("linux", "x86_64"), "x86_64-unknown-linux-gnu");
    assert_eq!(host_triple("macos", "aarch64"), "aarch64-apple-darwin");
    assert_eq!(host_triple("freebsd", "x86_64"), "unknown");
    assert_eq!(host_asset("windows", "x86_64"), Some(("pdfium-win-x64.tgz", "bin/pdfium.dll")));
    assert_eq!(host_asset("linux", "riscv64"), None);
    assert_eq!(library_location("macos"), ("lib", "libpdfium.dylib"));
    assert_eq!(library_location("linux"), ("lib", "libpdfium.so"));
    assert_eq!(library_location("windows"), ("bin", "pdfium.dll"));
    assert_eq!(search_roots(), vec!["pdfium", "../pdfium", "../../pdfium"]);
}

#[test]
fn deadlines() {
    assert!(check_deadline(Stage::Load, false).is_ok());
    match check_deadline(Stage::CidGarbageFilter, true) {
        Err(SpdfError::InvalidInput(m)) => assert_eq!(m, "spdf: timeout exceeded during cid-garbage-filter"),
        other => panic!("unexpected {other:?}"),
    }
    assert_eq!(Stage::LengthScan.name(), "length-scan");
    assert_eq!(page_limit(10, 3), 3);
    assert_eq!(page_limit(2, 3), 2);
    assert_eq!(page_limit(5, 0), 0);
}

#[test]
fn ocr_engine_selection() {
    let off = ParseConfigBuilder::default().ocr_enabled(false).config();
    assert!(matches!(choose_ocr_engine(&off, true), OcrEngineChoice::Unavailable));
    let http = ParseConfigBuilder::default().ocr_server_url("http://x/ocr").config();
    assert!(matches!(choose_ocr_engine(&http, true), OcrEngineChoice::Http(u) if u == "http://x/ocr"));
    let plain = ParseConfig::default();
    assert!(matches!(choose_ocr_engine(&plain, true), OcrEngineChoice::Tesseract(None)));
    assert!(matches!(choose_ocr_engine(&plain, false), OcrEngineChoice::Unavailable));
    let opts = ocr_options_for(&plain);
    assert_eq!(opts.languages, vec!["en".to_string()]);
    assert!(opts.correct_rotation);
}

#[test]
fn ocr_page_selection() {
    let long = "z".repeat(120);
    let pages = vec![
        PageContent { item_texts: vec![long.clone()], image_count: 0 },
        PageContent { item_texts: vec!["tiny".to_string()], image_count: 0 },
        PageContent { item_texts: vec![long], image_count: 2 },
    ];
    assert_eq!(ocr_candidates(&pages), vec![1, 2]);
    assert!(ocr_candidates(&Vec::new()).is_empty());
}

#[test]
fn plain_text_cannot_be_screenshot() {
    match screenshot_plain_text_error() {
        SpdfError::UnsupportedFormat(m) => assert_eq!(m, "cannot screenshot plain-text input"),
        other => panic!("unexpected {other:?}"),
    }
    assert!(!strips_running_text(2));
    assert!(strips_running_text(3));
}

#[test]
fn screenshot_helpers() {
    assert_eq!(screenshot_targets(3, None), vec![1, 2, 3]);
    assert_eq!(screenshot_targets(3, Some(vec![5, 1])), vec![5, 1]);
    assert_eq!(screenshot_file_name(12), "page-12.png");
    let s = ScreenshotResult::rendered(4, vec![1, 2, 3]);
    assert_eq!((s.page_num, s.width, s.height), (4, 0, 0));
    assert_eq!(s.image_buffer, vec![1, 2, 3]);
    assert!(s.image_path.is_none());
}

#[test]
fn input_and_markup_types() {
    assert_eq!(ParseInput::from(vec![1u8, 2]).byte_len(), Some(2));
    assert_eq!(ParseInput::from(std::path::PathBuf::from("a.pdf")).byte_len(), None);
    assert_eq!(MarkupData::none(), MarkupData::default());
    let m = MarkupData { strikeout: Some(true), ..MarkupData::default() };
    assert!(m.is_struck_out());
    assert!(!MarkupData::none().is_struck_out());
    assert_eq!(Snap::Center.as_str(), "center");
}

/// A page from items tagged 't' (top band), 'b' (bottom band) or 'm'
/// (mid-page).
fn page(items: &[(char, &str)], text: &str) -> PageText {
    PageText {
        items: items
            .iter()
            .map(|&(band, t)| BandItem { top: band == 't', bottom: band == 'b', text: t.to_string() })
            .collect(),
        text: text.to_string(),
    }
}

fn apply(pages: &[PageText], plan: &[spdf::running_text::PageStrip]) -> Vec<PageText> {
    pages
        .iter()
        .zip(plan)
        .map(|(p, s)| PageText {
            items: p.items.iter().zip(&s.keep).filter(|(_, k)| **k).map(|(i, _)| i.clone()).collect(),
            text: s.text.clone(),
        })
        .collect()
}

#[test]
fn running_headers_are_stripped() {
    let pages = vec![
        page(&[('t', "ACME Report"), ('m', "body one"), ('b', "1")], "ACME Report\nbody one\n1"),
        page(&[('t', "ACME Report"), ('m', "body two"), ('b', "2")], "ACME Report\nbody two\n2"),
        page(&[('t', " ACME Report "), ('m', "ACME Report"), ('b', "3")], "ACME Report\nmore\n3"),
    ];
    let plan = strip_repeating_running_text(&pages).expect("a header repeats");
    assert_eq!(plan.len(), 3);
    assert_eq!(plan[0].keep, vec![false, true, true]);
    assert_eq!(plan[0].text, "body one\n1");
    // Mid-page occurrences are kept as items.
    assert_eq!(plan[2].keep, vec![false, true, true]);
    assert_eq!(plan[2].text, "more\n3");
}

#[test]
fn running_text_needs_three_pages_and_a_repeat() {
    let two = vec![
        page(&[('t', "ACME Report")], "ACME Report"),
        page(&[('t', "ACME Report")], "ACME Report"),
    ];
    assert!(strip_repeating_running_text(&two).is_none());
    let distinct = vec![
        page(&[('t', "Alpha page")], "Alpha page"),
        page(&[('t', "Beta page")], "Beta page"),
        page(&[('t', "Gamma page")], "Gamma page"),
    ];
    assert!(strip_repeating_running_text(&distinct).is_none());
}

#[test]
fn running_text_keeps_mid_page_lines() {
    let pages = vec![
        page(&[('t', "Confidential"), ('m', "Intro"), ('m', "Confidential")], "Confidential\nIntro\nConfidential"),
        page(&[('t', "Confidential"), ('m', "Second")], "Confidential\nSecond"),
        page(&[('t', "Confidential"), ('m', "Third")], "Confidential\nThird"),
    ];
    let plan = strip_repeating_running_text(&pages).expect("a header repeats");
    assert_eq!(plan[0].keep, vec![false, true, true]);
    assert_eq!(plan[0].text, "Intro\nConfidential");
    assert_eq!(plan[1].text, "Second");
    assert_eq!(plan[2].text, "Third");
}

#[test]
fn running_footer_lines_are_taken_from_the_end() {
    let pages = vec![
        page(&[('m', "Draft copy"), ('b', "Draft copy")], "Draft copy\nbody\nDraft copy"),
        page(&[('b', "Draft copy")], "body\nDraft copy"),
        page(&[('b', "Draft copy")], "Draft copy"),
    ];
    let plan = strip_repeating_running_text(&pages).expect("a footer repeats");
    assert_eq!(plan[0].keep, vec![true, false]);
    assert_eq!(plan[0].text, "Draft copy\nbody");
    assert_eq!(plan[1].text, "body");
    assert_eq!(plan[2].text, "");
}

#[test]
fn running_text_second_pass_finds_nothing() {
    let pages = vec![
        page(&[('t', "ACME Report"), ('m', "ACME Report"), ('b', "1")], "ACME Report\nACME Report\n1"),
        page(&[('t', "ACME Report"), ('m', "body two"), ('b', "2")], "ACME Report\nbody two\n2"),
        page(&[('b', "ACME Report"), ('m', "more"), ('b', "3")], "more\n3\nACME Report"),
    ];
    let plan = strip_repeating_running_text(&pages).expect("a header repeats");
    let next = apply(&pages, &plan);
    assert_eq!(next[0].text, "ACME Report\n1");
    assert_eq!(next[2].text, "more\n3");
    assert!(strip_repeating_running_text(&next).is_none());
}

#[test]
fn character_overlap_counts_with_multiplicity() {
    assert_eq!(char_overlap_counts("a b c", "cab"), (3, 3));
    assert_eq!(char_overlap_counts("aab", "ab"), (2, 3));
    assert_eq!(char_overlap_counts("", "x"), (0, 0));
    assert_eq!(char_overlap_counts("héllo wörld", "hello"), (4, 10));
    assert_eq!(char_overlap_counts("xyz", ""), (0, 3));
}
