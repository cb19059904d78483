use spdf::error::SpdfError;
use spdf::ocr::{
    clean_ocr_word, is_ocr_punctuation_noise, page_needs_ocr, primary_language,
    strip_ocr_pipe_artifacts, utf8_len_capped, OcrOptions, TesseractEngine,
};
use spdf::tsv::tsv_word_rows;

#[test]
fn normalize_language_maps_common_codes() {
    assert_eq!(TesseractEngine::normalize_language("en"), "eng");
    assert_eq!(TesseractEngine::normalize_language("EN-US"), "eng");
    assert_eq!(TesseractEngine::normalize_language("zh"), "chi_sim");
    assert_eq!(TesseractEngine::normalize_language("eng"), "eng");
    assert_eq!(TesseractEngine::normalize_language("klingon"), "klingon");
}

#[test]
fn normalize_language_keeps_unknown_case() {
    assert_eq!(TesseractEngine::normalize_language("Zh-TW"), "chi_tra");
    assert_eq!(TesseractEngine::normalize_language("KLINGON"), "KLINGON");
}

#[test]
fn joined_language_uses_plus() {
    let langs = vec!["en".to_string(), "fr".to_string(), "xx".to_string()];
    assert_eq!(TesseractEngine::joined_language(&langs), "eng+fra+xx");
    assert_eq!(TesseractEngine::joined_language(&Vec::new()), "");
}

#[test]
fn recognition_needs_a_language() {
    match TesseractEngine::recognition_language(&Vec::new()) {
        Err(SpdfError::Ocr(m)) => assert_eq!(m, "tesseract: no language codes provided"),
        other => panic!("expected Ocr error, got {other:?}"),
    }
    let langs = vec!["de".to_string()];
    assert_eq!(TesseractEngine::recognition_language(&langs).unwrap(), "deu");
}

#[test]
fn tesseract_engine_keeps_datapath() {
    let e = TesseractEngine::new(Some("/usr/share/tessdata".to_string()));
    assert_eq!(e.datapath.as_deref(), Some("/usr/share/tessdata"));
    assert!(TesseractEngine::new(None).datapath.is_none());
}

#[test]
fn ocr_options_default_to_english() {
    let o = OcrOptions::default();
    assert_eq!(o.languages, vec!["en".to_string()]);
    assert!(!o.correct_rotation);
}

#[test]
fn http_language_is_first_or_english() {
    assert_eq!(primary_language(&vec!["fr".to_string(), "de".to_string()]), "fr");
    assert_eq!(primary_language(&Vec::new()), "en");
}

#[test]
fn pages_with_little_text_or_images_need_ocr() {
    assert!(page_needs_ocr(&vec!["short".to_string()], 0));
    assert!(page_needs_ocr(&Vec::new(), 0));
    let long = "x".repeat(60);
    assert!(!page_needs_ocr(&vec![long.clone(), long.clone()], 0));
    assert!(page_needs_ocr(&vec![long.clone(), long], 1));
    // 99 bytes of text is still too little, 100 is enough.
    assert!(page_needs_ocr(&vec!["y".repeat(99)], 0));
    assert!(!page_needs_ocr(&vec!["y".repeat(100)], 0));
    // Lengths are counted in UTF-8 bytes: 50 two-byte characters.
    assert!(!page_needs_ocr(&vec!["é".repeat(50)], 0));
}

#[test]
fn utf8_length_is_capped() {
    assert_eq!(utf8_len_capped("héllo", 100), 6);
    assert_eq!(utf8_len_capped("héllo", 3), 3);
}

#[test]
fn punctuation_noise() {
    assert!(is_ocr_punctuation_noise("  .  "));
    assert!(is_ocr_punctuation_noise("|"));
    assert!(is_ocr_punctuation_noise(""));
    assert!(!is_ocr_punctuation_noise("a."));
    assert!(!is_ocr_punctuation_noise("7"));
}

#[test]
fn pipe_artifacts_are_stripped() {
    assert_eq!(strip_ocr_pipe_artifacts("words.|"), "words.");
    assert_eq!(strip_ocr_pipe_artifacts(" || x | "), "x");
    assert_eq!(strip_ocr_pipe_artifacts("a|b"), "a|b");
}

#[test]
fn ocr_words_are_cleaned_or_dropped() {
    assert_eq!(clean_ocr_word("44520]"), Some("44520".to_string()));
    assert_eq!(clean_ocr_word("words.|"), Some("words.".to_string()));
    assert_eq!(clean_ocr_word(" | "), None);
    assert_eq!(clean_ocr_word("..."), None);
}

#[test]
fn parse_tsv_keeps_only_word_level_rows() {
    let tsv = "\
level\tpage_num\tblock_num\tpar_num\tline_num\tword_num\tleft\ttop\twidth\theight\tconf\ttext
1\t1\t0\t0\t0\t0\t0\t0\t100\t100\t-1\t
2\t1\t1\t0\t0\t0\t0\t0\t100\t100\t-1\t
5\t1\t1\t1\t1\t1\t10\t20\t30\t15\t92\tHello
5\t1\t1\t1\t1\t2\t50\t20\t40\t15\t88\tworld
5\t1\t1\t1\t1\t3\t0\t0\t0\t0\t-1\tnoise
5\t1\t1\t1\t1\t4\t100\t20\t20\t15\t10\t
";
    // Word rows with text; the numeric columns are read by the caller,
    // which drops rows with a negative confidence or an empty box.
    let rows = tsv_word_rows(tsv);
    let out: Vec<(String, [f64; 4], f64)> = rows
        .iter()
        .filter_map(|w| {
            let left: f64 = w.left.parse().unwrap_or(0.0);
            let top: f64 = w.top.parse().unwrap_or(0.0);
            let width: f64 = w.width.parse().unwrap_or(0.0);
            let height: f64 = w.height.parse().unwrap_or(0.0);
            let conf: f64 = w.conf.parse().unwrap_or(-1.0);
            if conf < 0.0 || width <= 0.0 || height <= 0.0 {
                None
            } else {
                Some((w.text.clone(), [left, top, left + width, top + height], conf / 100.0))
            }
        })
        .collect();
    assert_eq!(out.len(), 2, "only real words survive, got {:?}", out);
    assert_eq!(out[0].0, "Hello");
    assert_eq!(out[0].1, [10.0, 20.0, 40.0, 35.0]);
    assert!((out[0].2 - 0.92).abs() < 1e-9);
    assert_eq!(out[1].0, "world");
}

#[test]
fn tsv_rows_keep_columns_as_written() {
    let rows = tsv_word_rows("+05\t1\t1\t1\t1\t1\t7\t8\t9\t10\t55\t  hi  \n5\ttoo\tfew\n6\t1\t1\t1\t1\t1\t7\t8\t9\t10\t55\tno");
    assert_eq!(rows.len(), 1);
    assert_eq!(rows[0].left, "7");
    assert_eq!(rows[0].top, "8");
    assert_eq!(rows[0].width, "9");
    assert_eq!(rows[0].height, "10");
    assert_eq!(rows[0].conf, "55");
    assert_eq!(rows[0].text, "hi");
}
