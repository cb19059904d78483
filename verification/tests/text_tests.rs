use spdf::clean_text::clean_raw_text;
use spdf::layout::{format_text, is_cid_garbage_layer, tidy_layout};
use spdf::text_utils::{clean_ocr_table_artifacts, str_to_post_script, str_to_subscript_string};

#[test]
fn collapses_horizontal_whitespace() {
    assert_eq!(clean_raw_text("  hi  \t there "), "hi there");
}

#[test]
fn preserves_newlines() {
    assert_eq!(clean_raw_text("hi\nthere"), "hi\nthere");
}

#[test]
fn collapses_blank_lines() {
    assert_eq!(clean_raw_text("a\n\n\nb"), "a\nb");
}

#[test]
fn empty_stays_empty() {
    assert_eq!(clean_raw_text(""), "");
}

#[test]
fn clean_raw_text_is_idempotent_on_samples() {
    for s in ["  hi  \t there ", "a\n\n\nb", " x \n  \n y  z\n", "\t\t", "one"] {
        let once = clean_raw_text(s);
        assert_eq!(clean_raw_text(&once), once);
    }
}

#[test]
fn clean_raw_text_trims_each_line_and_drops_blank_ones() {
    assert_eq!(clean_raw_text("  a  b \n\n   \n c "), "a b\nc");
}

#[test]
fn strips_trailing_bracket_on_number() {
    assert_eq!(clean_ocr_table_artifacts("44520]"), "44520");
}

#[test]
fn strips_leading_pipe_on_number() {
    assert_eq!(clean_ocr_table_artifacts("|123"), "123");
}

#[test]
fn strips_trailing_pipe_on_decimal() {
    assert_eq!(clean_ocr_table_artifacts("0.3|"), "0.3");
}

#[test]
fn keeps_parenthesised_word() {
    assert_eq!(clean_ocr_table_artifacts("(note)"), "(note)");
}

#[test]
fn keeps_na_placeholder() {
    assert_eq!(clean_ocr_table_artifacts("[N/A]"), "N/A");
}

#[test]
fn clean_ocr_result_is_trimmed() {
    assert_eq!(clean_ocr_table_artifacts("  word  "), "word");
    assert_eq!(clean_ocr_table_artifacts(""), "");
}

#[test]
fn subscript_maps_digits() {
    assert_eq!(str_to_subscript_string("123"), "₁₂₃");
}

#[test]
fn subscript_passthrough_on_unmapped() {
    assert_eq!(str_to_subscript_string("H2O"), "H2O");
}

#[test]
fn superscript_maps_letters() {
    assert_eq!(str_to_post_script("th"), "ᵗʰ");
}

#[test]
fn superscript_passthrough_on_unmapped() {
    assert_eq!(str_to_post_script("Qx"), "Qx");
}

#[test]
fn script_maps_keep_length() {
    for s in ["123", "H2O", "th", "Qx", ""] {
        assert_eq!(str_to_subscript_string(s).chars().count(), s.chars().count());
        assert_eq!(str_to_post_script(s).chars().count(), s.chars().count());
    }
}

#[test]
fn text_format_concatenates_pages() {
    assert_eq!(format_text(&vec!["hello world".to_string()]), "hello world");
}

#[test]
fn format_text_separates_pages_with_blank_line() {
    let pages = vec!["one".to_string(), "two".to_string(), "three".to_string()];
    assert_eq!(format_text(&pages), "one\n\ntwo\n\nthree");
    assert_eq!(format_text(&Vec::new()), "");
}

#[test]
fn tidy_layout_of_empty_is_empty() {
    assert_eq!(tidy_layout(""), "");
}

#[test]
fn cid_garbage_detects_ligature_soup() {
    let items: Vec<String> = ["fi", "fi", "ff", "fl", "fi", "fi", "ff", "fi", " ", "fl", "fi", "ff", "fi"]
        .iter()
        .map(|s| s.to_string())
        .collect();
    assert!(is_cid_garbage_layer(&items));
}

#[test]
fn cid_garbage_needs_twelve_tokens_and_over_seventy_percent() {
    let eleven: Vec<String> = std::iter::repeat("fi".to_string()).take(11).collect();
    assert!(!is_cid_garbage_layer(&eleven));
    let twelve: Vec<String> = std::iter::repeat("fi".to_string()).take(12).collect();
    assert!(is_cid_garbage_layer(&twelve));
    // Exactly 70 %: 7 of 10 garbage tokens is not enough (20 tokens, 14 garbage).
    let mut mixed: Vec<String> = std::iter::repeat("fi".to_string()).take(14).collect();
    mixed.extend(std::iter::repeat("word".to_string()).take(6));
    assert!(!is_cid_garbage_layer(&mixed));
    mixed.push("ff".to_string());
    assert!(is_cid_garbage_layer(&mixed));
}

#[test]
fn cid_garbage_keeps_real_words() {
    let items: Vec<String> = ["The", "quick", "brown", "fox", "jumps"]
        .iter()
        .map(|s| s.to_string())
        .collect();
    assert!(!is_cid_garbage_layer(&items));
    let few: Vec<String> = vec!["fi".to_string(), "fi".to_string()];
    assert!(!is_cid_garbage_layer(&few));
}

#[test]
fn tidy_layout_trims_line_ends_and_collapses_blank_runs() {
    assert_eq!(tidy_layout("a  \n\n\n  b c  "), "a\n\n  b c");
    assert_eq!(tidy_layout("x\r\ny"), "x\ny");
}

#[test]
fn tidy_layout_keeps_a_single_leading_blank_line_as_one() {
    assert_eq!(tidy_layout("\nx"), "\nx");
    assert_eq!(tidy_layout("\n\n\nx"), "\nx");
    assert_eq!(tidy_layout("a\n\n\n\nb"), "a\n\nb");
}

#[test]
fn tidy_layout_lines_have_no_trailing_blanks_and_no_double_blank_lines() {
    for input in ["\n\n\nb  \n\n\n\nc \t\n \n", "a\r\n\r\n\r\nb", "  x  \n\n", ""] {
        let out = tidy_layout(input);
        assert!(!out.contains("\n\n\n"), "blank run in {out:?}");
        for line in out.split('\n') {
            assert_eq!(line, line.trim_end(), "trailing blank in {out:?}");
        }
    }
}

#[test]
fn clean_ocr_table_artifacts_twice_is_once() {
    for input in ["44520]", "|123", " [N/A] ", "0.3|", "(x)", "| - |", "", "  |  "] {
        let once = clean_ocr_table_artifacts(input);
        assert_eq!(clean_ocr_table_artifacts(&once), once);
    }
}

#[test]
fn clean_raw_text_squeezes_each_line_and_drops_blank_ones() {
    assert_eq!(clean_raw_text("  a \t b \n\n \n c  d \r\n"), "a b\nc d");
    assert_eq!(clean_raw_text("\u{3000}x\u{2028}y\n"), "x y");
    assert_eq!(clean_raw_text(" \n \t\n"), "");
}
