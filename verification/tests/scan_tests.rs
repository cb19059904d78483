use std::io::Write;

use spdf::config::ParseConfigBuilder;
use spdf::error::SpdfError;
use spdf::flate_scan::{flate_stream_bodies, scan_expanded_flate_bytes, ExpandedScan};
use spdf::guards::{
    check_declared_lengths, check_expanded_size, check_input_size, preflight_pdf,
    preserves_small_text,
};
use spdf::pages::select_pages;
use spdf::pdf_scan::{find_bytes, scan_has_acroform, scan_max_declared_length};

#[test]
fn select_pages_defaults_to_all() {
    assert_eq!(select_pages(3, None).unwrap(), vec![1, 2, 3]);
}

#[test]
fn select_pages_parses_mixed_spec() {
    let out = select_pages(20, Some("1-3,5,10-11")).unwrap();
    assert_eq!(out, vec![1, 2, 3, 5, 10, 11]);
}

#[test]
fn select_pages_rejects_bad_spec() {
    let err = select_pages(10, Some("1-abc")).unwrap_err();
    match err {
        SpdfError::InvalidConfig(msg) => assert!(msg.contains("bad range")),
        _ => panic!("expected InvalidConfig"),
    }
}

#[test]
fn select_pages_sorts_dedups_and_clamps() {
    let out = select_pages(6, Some(" 5, 2-3 ,3, 9, 0-1,,")).unwrap();
    assert_eq!(out, vec![1, 2, 3, 5]);
}

#[test]
fn select_pages_reports_bad_single_page() {
    match select_pages(10, Some("2,x")).unwrap_err() {
        SpdfError::InvalidConfig(msg) => assert_eq!(msg, "bad page: x"),
        _ => panic!("expected InvalidConfig"),
    }
    match select_pages(10, Some("1-abc")).unwrap_err() {
        SpdfError::InvalidConfig(msg) => assert_eq!(msg, "bad range: 1-abc"),
        _ => panic!("expected InvalidConfig"),
    }
}

#[test]
fn select_pages_with_no_pages() {
    assert_eq!(select_pages(0, None).unwrap(), Vec::<u32>::new());
    assert_eq!(select_pages(0, Some("1-3")).unwrap(), Vec::<u32>::new());
}

#[test]
fn length_scan_finds_max_direct() {
    let bytes = b"<< /Length 42 >>\n<< /Length 9999 >>\n<< /Length 7 >>";
    assert_eq!(scan_max_declared_length(bytes), Some(9999));
}

#[test]
fn length_scan_ignores_length1_length2() {
    let bytes = b"<< /Length1 2000000000 /Length 5 >>";
    assert_eq!(scan_max_declared_length(bytes), Some(5));
}

#[test]
fn length_scan_ignores_indirect_refs() {
    let bytes = b"<< /Length 5 0 R /Filter /FlateDecode >>";
    assert_eq!(scan_max_declared_length(bytes), None);
}

#[test]
fn length_scan_returns_none_on_empty() {
    assert_eq!(scan_max_declared_length(b""), None);
    assert_eq!(scan_max_declared_length(b"no pdf here"), None);
}

#[test]
fn length_scan_detects_pathological() {
    let bytes = b"<< /Length 2147483648 >>";
    assert_eq!(scan_max_declared_length(bytes), Some(2147483648));
}

#[test]
fn length_scan_handles_overflow_saturation() {
    let mut s = b"<< /Length ".to_vec();
    s.extend(std::iter::repeat(b'9').take(40));
    s.extend_from_slice(b" >>");
    assert_eq!(scan_max_declared_length(&s), Some(u64::MAX));
}

#[test]
fn length_scan_counts_value_at_end_of_input() {
    assert_eq!(scan_max_declared_length(b"/Length 12"), Some(12));
    assert_eq!(scan_max_declared_length(b"/Length\t\n 3 0 obj"), Some(3));
}

#[test]
fn acroform_probe() {
    assert!(scan_has_acroform(b"<< /Root 1 0 R /AcroForm 5 0 R >>"));
    assert!(!scan_has_acroform(b"<< /Root 1 0 R /Acro Form >>"));
    assert!(!scan_has_acroform(b""));
}

#[test]
fn find_bytes_gives_first_occurrence() {
    assert_eq!(find_bytes(b"abcabc", b"bc"), Some(1));
    assert_eq!(find_bytes(b"abc", b""), None);
    assert_eq!(find_bytes(b"ab", b"abc"), None);
    assert_eq!(find_bytes(b"abc", b"x"), None);
}

fn zip_bomb_payload(expanded_size: usize) -> Vec<u8> {
    let zeros = vec![0u8; expanded_size];
    let mut enc = flate2::write::ZlibEncoder::new(Vec::new(), flate2::Compression::best());
    enc.write_all(&zeros).unwrap();
    let compressed = enc.finish().unwrap();
    let mut out = b"%PDF-1.7\n1 0 obj\n<< /Filter /FlateDecode /Length ".to_vec();
    out.extend_from_slice(compressed.len().to_string().as_bytes());
    out.extend_from_slice(b" >>\nstream\n");
    out.extend_from_slice(&compressed);
    out.extend_from_slice(b"\nendstream\nendobj\n%%EOF\n");
    out
}

#[test]
fn flate_scan_measures_small_stream() {
    let payload = zip_bomb_payload(64 * 1024);
    assert_eq!(
        scan_expanded_flate_bytes(&payload, 1024 * 1024),
        ExpandedScan::Within(64 * 1024)
    );
}

#[test]
fn flate_scan_stops_over_budget() {
    let payload = zip_bomb_payload(8 * 1024 * 1024);
    assert!(payload.len() < 64 * 1024);
    match scan_expanded_flate_bytes(&payload, 1024 * 1024) {
        ExpandedScan::Overflowed { at_least } => assert!(at_least > 1024 * 1024),
        other => panic!("expected Overflowed, got {other:?}"),
    }
}

#[test]
fn flate_scan_overshoots_by_at_most_one_window() {
    let payload = zip_bomb_payload(8 * 1024 * 1024);
    for cap in [0u64, 1, 1000, 65536, 1024 * 1024, 3 * 1024 * 1024 + 7] {
        match scan_expanded_flate_bytes(&payload, cap) {
            ExpandedScan::Overflowed { at_least } => {
                assert!(cap < at_least && at_least <= cap + 65536, "cap {cap}: {at_least}")
            }
            other => panic!("expected Overflowed, got {other:?}"),
        }
    }
    assert_eq!(
        scan_expanded_flate_bytes(&payload, 8 * 1024 * 1024),
        ExpandedScan::Within(8 * 1024 * 1024)
    );
}

#[test]
fn flate_scan_sums_streams_in_order() {
    let mut two = zip_bomb_payload(300 * 1024);
    two.extend_from_slice(&zip_bomb_payload(200 * 1024));
    assert_eq!(scan_expanded_flate_bytes(&two, 500 * 1024), ExpandedScan::Within(500 * 1024));
    match scan_expanded_flate_bytes(&two, 500 * 1024 - 1) {
        ExpandedScan::Overflowed { at_least } => assert!(at_least > 300 * 1024),
        other => panic!("expected Overflowed, got {other:?}"),
    }
    assert!(matches!(
        scan_expanded_flate_bytes(&two, 300 * 1024 - 1),
        ExpandedScan::Overflowed { .. }
    ));
}

#[test]
fn flate_scan_ignores_documents_without_flate() {
    let bytes = b"%PDF-1.4\n1 0 obj << /Length 3 >>\nstream\nabc\nendstream\nendobj\n";
    assert_eq!(scan_expanded_flate_bytes(bytes, 0), ExpandedScan::Within(0));
}

#[test]
fn max_input_bytes_rejects_oversized_blob() {
    match check_input_size(1024, Some(64)) {
        Err(SpdfError::InvalidInput(msg)) => {
            assert!(msg.contains("max_input_bytes"), "unexpected msg: {msg}");
            assert_eq!(msg, "spdf: input 1024 bytes exceeds max_input_bytes 64");
        }
        other => panic!("expected InvalidInput, got {other:?}"),
    }
}

#[test]
fn max_input_bytes_allows_inputs_below_cap() {
    assert!(check_input_size(128, Some(10_000)).is_ok());
    assert!(check_input_size(64, Some(64)).is_ok());
    assert!(check_input_size(usize::MAX, None).is_ok());
}

fn length_bomb() -> Vec<u8> {
    let mut payload = b"%PDF-1.4\n1 0 obj << /Length 2147483648 >> stream\n".to_vec();
    payload.extend_from_slice(b"endstream endobj\n%%EOF\n");
    payload
}

#[test]
fn max_declared_stream_bytes_rejects_length_bomb() {
    let cfg = ParseConfigBuilder::default()
        .ocr_enabled(false)
        .max_declared_stream_bytes(Some(1024))
        .config();
    match preflight_pdf(&length_bomb(), &cfg) {
        Err(SpdfError::InvalidInput(msg)) => {
            assert!(msg.contains("max_declared_stream_bytes"), "unexpected msg: {msg}");
            assert!(msg.contains("2147483648"), "should cite the bad value: {msg}");
        }
        other => panic!("expected InvalidInput, got {other:?}"),
    }
}

#[test]
fn max_declared_stream_bytes_none_disables_check() {
    let cfg = ParseConfigBuilder::default()
        .ocr_enabled(false)
        .max_declared_stream_bytes(None)
        .config();
    assert!(preflight_pdf(&length_bomb(), &cfg).is_ok());
}

#[test]
fn max_expanded_stream_bytes_rejects_zip_bomb() {
    let payload = zip_bomb_payload(8 * 1024 * 1024);
    let cfg = ParseConfigBuilder::default()
        .ocr_enabled(false)
        .max_expanded_stream_bytes(Some(1024 * 1024))
        .config();
    match preflight_pdf(&payload, &cfg) {
        Err(SpdfError::InvalidInput(msg)) => {
            assert!(msg.contains("max_expanded_stream_bytes"), "unexpected msg: {msg}");
        }
        other => panic!("expected InvalidInput, got {other:?}"),
    }
}

#[test]
fn max_expanded_stream_bytes_none_disables_check() {
    let payload = zip_bomb_payload(8 * 1024 * 1024);
    let cfg = ParseConfigBuilder::default()
        .ocr_enabled(false)
        .max_expanded_stream_bytes(None)
        .config();
    assert!(preflight_pdf(&payload, &cfg).is_ok());
}

#[test]
fn max_expanded_stream_bytes_allows_streams_under_cap() {
    let payload = zip_bomb_payload(64 * 1024);
    let cfg = ParseConfigBuilder::default()
        .ocr_enabled(false)
        .max_expanded_stream_bytes(Some(1024 * 1024))
        .config();
    assert!(preflight_pdf(&payload, &cfg).is_ok());
}

#[test]
fn preflight_reports_acroform_and_small_text_choice() {
    let cfg = ParseConfigBuilder::default().config();
    assert_eq!(preflight_pdf(b"<< /AcroForm 3 0 R >>", &cfg).unwrap(), true);
    assert_eq!(preflight_pdf(b"<< /Root 3 0 R >>", &cfg).unwrap(), false);
}

#[test]
fn flate_bodies_are_located() {
    let bytes = b"<< /FlateDecode >>\nstream\nABC\nendstream\n";
    assert_eq!(flate_stream_bodies(bytes), vec![(26, 30)]);
    // CRLF after the keyword, and a second, non-flate stream far enough
    // from the first dictionary.
    let mut two = b"<< /Filter /FlateDecode >>\r\nstream\r\nxy\r\nendstream\r\n".to_vec();
    two.extend(std::iter::repeat(b' ').take(5000));
    two.extend_from_slice(b"<< /Length 2 >>\nstream\nzz\nendstream\n");
    let bodies = flate_stream_bodies(&two);
    assert_eq!(bodies.len(), 1);
    assert_eq!(&two[bodies[0].0..bodies[0].1], b"xy\r\n");
}

#[test]
fn flate_bodies_need_terminated_standalone_streams() {
    // No end of line after the keyword: not a stream.
    assert!(flate_stream_bodies(b"/FlateDecode stream ABC endstream").is_empty());
    // Unterminated stream ends the scan.
    assert!(flate_stream_bodies(b"/FlateDecode\nstream\nABC").is_empty());
    // Keyword glued to a preceding token is not a stream.
    assert!(flate_stream_bodies(b"/FlateDecode\nxstream\nABC\nendstream\n").is_empty());
    assert!(flate_stream_bodies(b"").is_empty());
}

#[test]
fn guards_one_by_one() {
    assert!(check_declared_lengths(&length_bomb(), None).is_ok());
    assert!(check_declared_lengths(&length_bomb(), Some(u64::MAX)).is_ok());
    match check_declared_lengths(&length_bomb(), Some(1024)) {
        Err(SpdfError::InvalidInput(m)) => assert_eq!(
            m,
            "spdf: PDF declares a stream of 2147483648 bytes; exceeds max_declared_stream_bytes cap of 1024"
        ),
        other => panic!("unexpected {other:?}"),
    }
    let bomb = zip_bomb_payload(2 * 1024 * 1024);
    assert!(check_expanded_size(&bomb, None).is_ok());
    assert!(check_expanded_size(&bomb, Some(u64::MAX)).is_ok());
    assert!(check_expanded_size(b"/FlateDecode but no stream", Some(0)).is_ok());
    assert!(check_expanded_size(&bomb, Some(4 * 1024 * 1024)).is_ok());
    match check_expanded_size(&bomb, Some(1024 * 1024)) {
        Err(SpdfError::InvalidInput(m)) => {
            assert!(m.starts_with("spdf: FlateDecode streams expand to at least "));
            assert!(m.ends_with(" bytes; exceeds max_expanded_stream_bytes cap of 1048576"));
        }
        other => panic!("unexpected {other:?}"),
    }
    assert!(preserves_small_text(b"/AcroForm", false));
    assert!(preserves_small_text(b"", true));
    assert!(!preserves_small_text(b"/Acro", false));
}

#[test]
fn flate_scan_larger_budget_keeps_a_pass() {
    let payload = zip_bomb_payload(256 * 1024);
    let mut passed = false;
    for cap in [0u64, 1, 65536, 200 * 1024, 256 * 1024 - 1, 256 * 1024, 300 * 1024, u64::MAX] {
        let within = matches!(scan_expanded_flate_bytes(&payload, cap), ExpandedScan::Within(_));
        assert!(!passed || within, "cap {cap}");
        passed = within;
    }
    assert!(passed);
}
