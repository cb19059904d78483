use spdf::search::{search_spans, SearchItemsOptions};

/// A text item as the search sees it: its string and its box.
struct Item {
    text: &'static str,
    x: f64,
    y: f64,
    w: f64,
    h: f64,
    font_size: f64,
}

fn mk(text: &'static str, x: f64, y: f64, w: f64) -> Item {
    Item { text, x, y, w, h: 12.0, font_size: 12.0 }
}

/// Neighbours on one line with a gap of at most 0.3 em are joined
/// without a space.
fn tight_flags(items: &[Item]) -> Vec<bool> {
    let mut tight = vec![false; items.len()];
    for i in 1..items.len() {
        let prev = &items[i - 1];
        let cur = &items[i];
        let fs = prev.font_size;
        let same_line = (cur.y - prev.y).abs() < fs * 0.5;
        let gap = cur.x - (prev.x + prev.w);
        tight[i] = same_line && gap <= fs * 0.3;
    }
    tight
}

/// Each hit as (text, x, y, width, height).
fn search(items: &[Item], phrase: &'static str, case_sensitive: bool) -> Vec<(String, f64, f64, f64, f64)> {
    let texts: Vec<String> = items.iter().map(|i| i.text.to_string()).collect();
    let spans = search_spans(&texts, &tight_flags(items), SearchItemsOptions { phrase, case_sensitive });
    spans
        .iter()
        .map(|&(s, e)| {
            let m = &items[s..=e];
            let x = m.iter().map(|i| i.x).fold(f64::INFINITY, f64::min);
            let y = m.iter().map(|i| i.y).fold(f64::INFINITY, f64::min);
            let x2 = m.iter().map(|i| i.x + i.w).fold(f64::NEG_INFINITY, f64::max);
            let y2 = m.iter().map(|i| i.y + i.h).fold(f64::NEG_INFINITY, f64::max);
            (phrase.to_string(), x, y, x2 - x, y2 - y)
        })
        .collect()
}

#[test]
fn finds_phrase_within_single_item() {
    let items = vec![mk("hello world", 0.0, 0.0, 80.0)];
    let hits = search(&items, "world", false);
    assert_eq!(hits.len(), 1);
    assert_eq!(hits[0].0, "world");
}

#[test]
fn finds_phrase_across_items_same_line() {
    let items = vec![mk("hello", 0.0, 0.0, 30.0), mk("world", 40.0, 0.0, 30.0)];
    let hits = search(&items, "hello world", false);
    assert_eq!(hits.len(), 1);
    assert!((hits[0].3 - 70.0).abs() < 1e-6);
}

#[test]
fn case_insensitive_by_default() {
    let items = vec![mk("Hello", 0.0, 0.0, 30.0)];
    let hits = search(&items, "hello", false);
    assert_eq!(hits.len(), 1);
}

#[test]
fn no_match_returns_empty() {
    let items = vec![mk("hello", 0.0, 0.0, 30.0)];
    let hits = search(&items, "zzz", false);
    assert!(hits.is_empty());
}

fn texts(v: &[&str]) -> Vec<String> {
    v.iter().map(|s| s.to_string()).collect()
}

#[test]
fn spans_are_narrowed_from_the_left() {
    let t = texts(&["intro", "hello", "world"]);
    let spans = search_spans(&t, &vec![false; 3], SearchItemsOptions { phrase: "hello world", case_sensitive: true });
    assert_eq!(spans, vec![(1, 2)]);
}

#[test]
fn tight_items_join_without_space() {
    let t = texts(&["foo", "bar"]);
    let opts = || SearchItemsOptions { phrase: "foobar", case_sensitive: true };
    assert_eq!(search_spans(&t, &vec![false, true], opts()), vec![(0, 1)]);
    assert!(search_spans(&t, &vec![false, false], opts()).is_empty());
}

#[test]
fn case_sensitive_search_respects_case() {
    let t = texts(&["Hello"]);
    assert!(search_spans(&t, &Vec::new(), SearchItemsOptions { phrase: "hello", case_sensitive: true }).is_empty());
    assert_eq!(
        search_spans(&t, &Vec::new(), SearchItemsOptions { phrase: "HELLO", case_sensitive: false }),
        vec![(0, 0)]
    );
}

#[test]
fn repeated_hits_come_in_order_without_overlap() {
    let t = texts(&["ab", "x", "ab", "ab"]);
    let spans = search_spans(&t, &Vec::new(), SearchItemsOptions { phrase: "ab", case_sensitive: true });
    assert_eq!(spans, vec![(0, 0), (2, 2), (3, 3)]);
}

#[test]
fn empty_phrase_or_items_find_nothing() {
    let t = texts(&["a"]);
    assert!(search_spans(&t, &Vec::new(), SearchItemsOptions { phrase: "", case_sensitive: false }).is_empty());
    assert!(search_spans(&Vec::new(), &Vec::new(), SearchItemsOptions { phrase: "a", case_sensitive: false }).is_empty());
}

#[test]
fn window_growth_stops_past_twice_the_phrase() {
    // "abcdefgh" is longer than twice "xy"; the search moves on.
    let t = texts(&["abcdefgh", "xy"]);
    let spans = search_spans(&t, &Vec::new(), SearchItemsOptions { phrase: "xy", case_sensitive: true });
    assert_eq!(spans, vec![(1, 1)]);
    // A phrase split over a long first item is not found.
    let t2 = texts(&["abcdefghi", "jk"]);
    assert!(search_spans(&t2, &Vec::new(), SearchItemsOptions { phrase: "i jk", case_sensitive: true }).is_empty());
}

#[test]
fn lowercasing_is_unicode_aware() {
    let t = texts(&["ÉCOLE"]);
    assert_eq!(
        search_spans(&t, &Vec::new(), SearchItemsOptions { phrase: "école", case_sensitive: false }),
        vec![(0, 0)]
    );
}
