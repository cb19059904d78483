//! Phrase search over a page's text items.
//!
//! Consecutive items are concatenated (with a space between them unless
//! the caller marks the pair as tightly set on one line) and searched for
//! the phrase. Each hit is reported as the span of item indices it covers,
//! narrowed from the left to the shortest window that still holds the
//! phrase. Geometry (which neighbours are tight, and the merged bounding
//! box of a span) is the caller's business.

use vstd::prelude::*;

use crate::text::{append_str, chars_of, copy_range, string_of};

verus! {

/// The name of what `str::to_lowercase` returns for `s` (full Unicode
/// lower-casing, which is not a per-character map).
pub uninterp spec fn lowercase_of(s: Seq<char>) -> Seq<char>;

/// `str::to_lowercase`.
#[verifier::external_body]
fn to_lowercase(s: &str) -> (r: String)
    ensures
        r@ == lowercase_of(s@),
{
    s.to_lowercase()
}

/// Options for [`search_spans`].
#[derive(Debug, Clone, Copy)]
pub struct SearchItemsOptions<'a> {
    /// The phrase to look for.
    pub phrase: &'a str,
    /// Compare exactly; otherwise both sides are lower-cased first.
    pub case_sensitive: bool,
}

/// The text that is compared: as is, or lower-cased.
pub open spec fn normalized(s: Seq<char>, case_sensitive: bool) -> Seq<char> {
    if case_sensitive {
        s
    } else {
        lowercase_of(s)
    }
}

/// `needle` occurs in `hay` as a contiguous run.
pub open spec fn contains_seq(hay: Seq<char>, needle: Seq<char>) -> bool {
    exists|i: int|
        0 <= i && i + needle.len() <= hay.len() && #[trigger] hay.subrange(i, i + needle.len())
            == needle
}

/// What goes between item `i - 1` and item `i`: nothing when the pair is
/// marked tight, else one space.
pub open spec fn separator(tight: Seq<bool>, i: int) -> Seq<char> {
    if 0 <= i < tight.len() && tight[i] {
        Seq::empty()
    } else {
        seq![' ']
    }
}

/// Items `a..=b` concatenated with their separators.
pub open spec fn joined(texts: Seq<Seq<char>>, tight: Seq<bool>, a: int, b: int) -> Seq<char>
    decreases b - a,
{
    if b <= a {
        texts[a]
    } else {
        joined(texts, tight, a, b - 1) + separator(tight, b) + texts[b]
    }
}

/// The window `a..=b` holds the (normalized) query `q`.
pub open spec fn window_hit(
    texts: Seq<Seq<char>>,
    tight: Seq<bool>,
    q: Seq<char>,
    cs: bool,
    a: int,
    b: int,
) -> bool {
    contains_seq(normalized(joined(texts, tight, a, b), cs), q)
}

/// Growing the window that starts at `start` one item at a time from
/// `end`: the first end at which it holds `q`, or none once it has grown
/// past twice the query's length or run out of items.
pub open spec fn match_end(
    texts: Seq<Seq<char>>,
    tight: Seq<bool>,
    q: Seq<char>,
    cs: bool,
    start: int,
    end: int,
) -> Option<int>
    decreases texts.len() - end,
{
    if end < start || end >= texts.len() {
        None
    } else if window_hit(texts, tight, q, cs, start, end) {
        Some(end)
    } else if joined(texts, tight, start, end).len() > 2 * q.len() {
        None
    } else {
        match_end(texts, tight, q, cs, start, end + 1)
    }
}

/// Drops leading items from the window `s..=end` while what is left
/// still holds `q`.
pub open spec fn narrow(
    texts: Seq<Seq<char>>,
    tight: Seq<bool>,
    q: Seq<char>,
    cs: bool,
    s: int,
    end: int,
) -> int
    decreases end - s,
{
    if s < end && window_hit(texts, tight, q, cs, s + 1, end) {
        narrow(texts, tight, q, cs, s + 1, end)
    } else {
        s
    }
}

/// A found window ends inside the items, at or after where the search
/// for it began, and holds the query.
pub proof fn lemma_match_end_bounds(
    texts: Seq<Seq<char>>,
    tight: Seq<bool>,
    q: Seq<char>,
    cs: bool,
    start: int,
    end: int,
)
    ensures
        match_end(texts, tight, q, cs, start, end) matches Some(e) ==> end <= e < texts.len()
            && start <= e && window_hit(texts, tight, q, cs, start, e),
    decreases texts.len() - end,
{
    if end < start || end >= texts.len() {
    } else if window_hit(texts, tight, q, cs, start, end) {
    } else if joined(texts, tight, start, end).len() > 2 * q.len() {
    } else {
        lemma_match_end_bounds(texts, tight, q, cs, start, end + 1);
    }
}

/// Narrowing stays inside the window and keeps the query in it.
pub proof fn lemma_narrow_bounds(
    texts: Seq<Seq<char>>,
    tight: Seq<bool>,
    q: Seq<char>,
    cs: bool,
    s: int,
    end: int,
)
    requires
        s <= end,
        window_hit(texts, tight, q, cs, s, end),
    ensures
        s <= narrow(texts, tight, q, cs, s, end) <= end,
        window_hit(texts, tight, q, cs, narrow(texts, tight, q, cs, s, end), end),
        narrow(texts, tight, q, cs, s, end) < end ==> !window_hit(
            texts,
            tight,
            q,
            cs,
            narrow(texts, tight, q, cs, s, end) + 1,
            end,
        ),
    decreases end - s,
{
    if s < end && window_hit(texts, tight, q, cs, s + 1, end) {
        lemma_narrow_bounds(texts, tight, q, cs, s + 1, end);
    }
}

/// The spans found scanning from item `start` on: grow a window from
/// `start`; on a hit, report it narrowed and go on after its end,
/// otherwise go on from the next item.
pub open spec fn search_from(
    texts: Seq<Seq<char>>,
    tight: Seq<bool>,
    q: Seq<char>,
    cs: bool,
    start: int,
) -> Seq<(int, int)>
    decreases texts.len() - start,
{
    if start < 0 || start >= texts.len() {
        Seq::empty()
    } else {
        match match_end(texts, tight, q, cs, start, start) {
            None => search_from(texts, tight, q, cs, start + 1),
            Some(e) => {
                proof {
                    lemma_match_end_bounds(texts, tight, q, cs, start, start);
                }
                seq![(narrow(texts, tight, q, cs, start, e), e)] + search_from(
                    texts,
                    tight,
                    q,
                    cs,
                    e + 1,
                )
            },
        }
    }
}

/// All spans of `phrase` in `texts`; none for an empty phrase or no items.
pub open spec fn search_spans_spec(
    texts: Seq<Seq<char>>,
    tight: Seq<bool>,
    phrase: Seq<char>,
    cs: bool,
) -> Seq<(int, int)> {
    let q = normalized(phrase, cs);
    if q.len() == 0 || texts.len() == 0 {
        Seq::empty()
    } else {
        search_from(texts, tight, q, cs, 0)
    }
}

/// Every span from `start` on lies inside the items at or after `start`,
/// holds the query, and comes strictly after the span before it.
pub proof fn lemma_search_from_well_formed(
    texts: Seq<Seq<char>>,
    tight: Seq<bool>,
    q: Seq<char>,
    cs: bool,
    start: int,
)
    ensures
        ({
            let sp = search_from(texts, tight, q, cs, start);
            &&& forall|k: int|
                0 <= k < sp.len() ==> start <= (#[trigger] sp[k]).0 <= sp[k].1 < texts.len()
                    && window_hit(texts, tight, q, cs, sp[k].0, sp[k].1)
            &&& forall|k: int|
                0 <= k < sp.len() && (#[trigger] sp[k]).0 < sp[k].1 ==> !window_hit(
                    texts,
                    tight,
                    q,
                    cs,
                    sp[k].0 + 1,
                    sp[k].1,
                )
            &&& forall|j: int, k: int| 0 <= j < k < sp.len() ==> (#[trigger] sp[j]).1 < (
            #[trigger] sp[k]).0
        }),
    decreases texts.len() - start,
{
    if start < 0 || start >= texts.len() {
    } else {
        match match_end(texts, tight, q, cs, start, start) {
            None => {
                lemma_search_from_well_formed(texts, tight, q, cs, start + 1);
                assert(search_from(texts, tight, q, cs, start) == search_from(
                    texts,
                    tight,
                    q,
                    cs,
                    start + 1,
                ));
            },
            Some(e) => {
                lemma_match_end_bounds(texts, tight, q, cs, start, start);
                lemma_narrow_bounds(texts, tight, q, cs, start, e);
                lemma_search_from_well_formed(texts, tight, q, cs, e + 1);
                let head = (narrow(texts, tight, q, cs, start, e), e);
                let rest = search_from(texts, tight, q, cs, e + 1);
                let sp = search_from(texts, tight, q, cs, start);
                assert(sp == seq![head] + rest);
                assert forall|k: int| 0 <= k < sp.len() implies start <= (#[trigger] sp[k]).0
                    <= sp[k].1 < texts.len() && window_hit(
                    texts,
                    tight,
                    q,
                    cs,
                    sp[k].0,
                    sp[k].1,
                ) by {
                    if k > 0 {
                        assert(sp[k] == rest[k - 1]);
                    }
                }
                assert forall|j: int, k: int| 0 <= j < k < sp.len() implies (
                #[trigger] sp[j]).1 < (#[trigger] sp[k]).0 by {
                    assert(sp[k] == rest[k - 1]);
                    if j > 0 {
                        assert(sp[j] == rest[j - 1]);
                    }
                }
                assert forall|k: int| 0 <= k < sp.len() && (#[trigger] sp[k]).0 < sp[k].1 implies !window_hit(
                    texts,
                    tight,
                    q,
                    cs,
                    sp[k].0 + 1,
                    sp[k].1,
                ) by {
                    if k > 0 {
                        assert(sp[k] == rest[k - 1]);
                    }
                }
            },
        }
    }
}

/// The spans of a search come in order, do not overlap, lie inside the
/// items, and each holds the (normalized) phrase; each is narrowed from
/// the left, so without its first item it no longer holds the phrase.
pub proof fn lemma_search_spans_well_formed(
    texts: Seq<Seq<char>>,
    tight: Seq<bool>,
    phrase: Seq<char>,
    cs: bool,
)
    ensures
        ({
            let sp = search_spans_spec(texts, tight, phrase, cs);
            &&& forall|k: int|
                0 <= k < sp.len() ==> 0 <= (#[trigger] sp[k]).0 <= sp[k].1 < texts.len()
                    && window_hit(texts, tight, normalized(phrase, cs), cs, sp[k].0, sp[k].1)
            &&& forall|k: int|
                0 <= k < sp.len() && (#[trigger] sp[k]).0 < sp[k].1 ==> !window_hit(
                    texts,
                    tight,
                    normalized(phrase, cs),
                    cs,
                    sp[k].0 + 1,
                    sp[k].1,
                )
            &&& forall|j: int, k: int| 0 <= j < k < sp.len() ==> (#[trigger] sp[j]).1 < (
            #[trigger] sp[k]).0
        }),
{
    let q = normalized(phrase, cs);
    if q.len() != 0 && texts.len() != 0 {
        lemma_search_from_well_formed(texts, tight, q, cs, 0);
    }
}

/// The growing window reaches `e` when every shorter window from `start`
/// misses the query and is no longer than twice it.
proof fn lemma_match_end_reaches(
    texts: Seq<Seq<char>>,
    tight: Seq<bool>,
    q: Seq<char>,
    cs: bool,
    start: int,
    end: int,
    e: int,
)
    requires
        start <= end <= e < texts.len(),
        window_hit(texts, tight, q, cs, start, e),
        forall|f: int|
            end <= f < e ==> !window_hit(texts, tight, q, cs, start, f) && (#[trigger] joined(
                texts,
                tight,
                start,
                f,
            )).len() <= 2 * q.len(),
    ensures
        match_end(texts, tight, q, cs, start, end) == Some(e),
    decreases e - end,
{
    if end < e {
        assert(joined(texts, tight, start, end).len() <= 2 * q.len());
        lemma_match_end_reaches(texts, tight, q, cs, start, end + 1, e);
    }
}

/// The search misses no phrase within reach: when scanning reaches item
/// `start`, and the items `start..=e` joined hold the query while every
/// shorter window from `start` misses it and is at most twice the query's
/// length, the next span reported ends at `e`.
pub proof fn search_reaches_phrase_within_twice_its_length(
    texts: Seq<Seq<char>>,
    tight: Seq<bool>,
    q: Seq<char>,
    cs: bool,
    start: int,
    e: int,
)
    requires
        0 <= start <= e < texts.len(),
        window_hit(texts, tight, q, cs, start, e),
        forall|f: int|
            start <= f < e ==> !window_hit(texts, tight, q, cs, start, f) && (#[trigger] joined(
                texts,
                tight,
                start,
                f,
            )).len() <= 2 * q.len(),
    ensures
        search_from(texts, tight, q, cs, start).len() > 0,
        search_from(texts, tight, q, cs, start)[0].1 == e,
{
    lemma_match_end_reaches(texts, tight, q, cs, start, start, e);
}

/// The growing window gives up once it is longer than twice the query
/// without having held it.
proof fn lemma_match_end_gives_up(
    texts: Seq<Seq<char>>,
    tight: Seq<bool>,
    q: Seq<char>,
    cs: bool,
    start: int,
    end: int,
    f: int,
)
    requires
        start <= end <= f < texts.len(),
        joined(texts, tight, start, f).len() > 2 * q.len(),
        forall|g: int| end <= g <= f ==> !#[trigger] window_hit(texts, tight, q, cs, start, g),
    ensures
        match_end(texts, tight, q, cs, start, end) is None,
    decreases f - end,
{
    assert(!window_hit(texts, tight, q, cs, start, end));
    if end < f && joined(texts, tight, start, end).len() <= 2 * q.len() {
        lemma_match_end_gives_up(texts, tight, q, cs, start, end + 1, f);
    }
}

/// The search gives up on a starting item once the window grown from it
/// is longer than twice the query without holding it: the spans found
/// from there are those found from the next item.
pub proof fn search_gives_up_past_twice_the_query(
    texts: Seq<Seq<char>>,
    tight: Seq<bool>,
    q: Seq<char>,
    cs: bool,
    start: int,
    f: int,
)
    requires
        0 <= start <= f < texts.len(),
        joined(texts, tight, start, f).len() > 2 * q.len(),
        forall|g: int| start <= g <= f ==> !#[trigger] window_hit(texts, tight, q, cs, start, g),
    ensures
        search_from(texts, tight, q, cs, start) == search_from(texts, tight, q, cs, start + 1),
{
    lemma_match_end_gives_up(texts, tight, q, cs, start, start, f);
}

/// The first span of a search: when the items `0..=e` joined hold the
/// phrase while every shorter window from the first item misses it and is
/// at most twice the phrase's length, the first span reported ends at `e`.
pub proof fn search_spans_finds_first_phrase(
    texts: Seq<Seq<char>>,
    tight: Seq<bool>,
    phrase: Seq<char>,
    cs: bool,
    e: int,
)
    requires
        normalized(phrase, cs).len() > 0,
        0 <= e < texts.len(),
        window_hit(texts, tight, normalized(phrase, cs), cs, 0, e),
        forall|f: int|
            0 <= f < e ==> !window_hit(texts, tight, normalized(phrase, cs), cs, 0, f) && (
            #[trigger] joined(texts, tight, 0, f)).len() <= 2 * normalized(phrase, cs).len(),
    ensures
        search_spans_spec(texts, tight, phrase, cs).len() > 0,
        search_spans_spec(texts, tight, phrase, cs)[0].1 == e,
{
    search_reaches_phrase_within_twice_its_length(texts, tight, normalized(phrase, cs), cs, 0, e);
}

/// `v` as compared: as is, or lower-cased.
fn normalize_chars(v: &Vec<char>, cs: bool) -> (r: Vec<char>)
    ensures
        r@ == normalized(v@, cs),
{
    if cs {
        copy_range(v, 0, v.len())
    } else {
        let s = string_of(v);
        let lowered = to_lowercase(s.as_str());
        chars_of(lowered.as_str())
    }
}

/// `hay[i..i + needle.len()] == needle`.
fn occurs_at(hay: &Vec<char>, needle: &Vec<char>, i: usize) -> (r: bool)
    requires
        i + needle@.len() <= hay@.len(),
    ensures
        r == (hay@.subrange(i as int, i + needle@.len()) == needle@),
{
    let mut k: usize = 0;
    while k < needle.len()
        invariant
            k <= needle@.len(),
            i + needle@.len() <= hay@.len(),
            forall|m: int| 0 <= m < k ==> hay@[i + m] == needle@[m],
            hay@.len() == hay.len(),
        decreases needle.len() - k,
    {
        assert(i + k < hay.len());
        if hay[i + k] != needle[k] {
            assert(hay@.subrange(i as int, i + needle@.len())[k as int] != needle@[k as int]);
            return false;
        }
        k += 1;
    }
    assert(hay@.subrange(i as int, i + needle@.len()) =~= needle@);
    true
}

/// Substring test on character vectors.
fn contains_chars(hay: &Vec<char>, needle: &Vec<char>) -> (r: bool)
    ensures
        r == contains_seq(hay@, needle@),
{
    if needle.len() > hay.len() {
        return false;
    }
    let last = hay.len() - needle.len();
    let mut i: usize = 0;
    while i <= last
        invariant
            last + needle@.len() == hay@.len(),
            forall|j: int|
                0 <= j < i ==> #[trigger] hay@.subrange(j, j + needle@.len()) != needle@,
        decreases last + 1 - i,
    {
        if occurs_at(hay, needle, i) {
            return true;
        }
        if i == last {
            assert forall|j: int| 0 <= j && j + needle@.len() <= hay@.len() implies #[trigger] hay@.subrange(
                j,
                j + needle@.len(),
            ) != needle@ by {
                assert(j < i || j == i);
            }
            return false;
        }
        i += 1;
    }
    false
}

/// Whether item `i` follows item `i - 1` without a space.
fn is_tight(tight: &Vec<bool>, i: usize) -> (r: bool)
    ensures
        r == (i < tight@.len() && tight@[i as int]),
{
    i < tight.len() && tight[i]
}

/// Items `a..=b` concatenated with their separators.
fn join_window(texts: &Vec<String>, tight: &Vec<bool>, a: usize, b: usize) -> (r: Vec<char>)
    requires
        a <= b < texts@.len(),
    ensures
        r@ == joined(texts@.map_values(|s: String| s@), tight@, a as int, b as int),
{
    let ghost ts = texts@.map_values(|s: String| s@);
    let mut out: Vec<char> = Vec::new();
    append_str(&mut out, texts[a].as_str());
    assert(ts[a as int] == texts@[a as int]@);
    assert(out@ =~= joined(ts, tight@, a as int, a as int));
    let mut k = a;
    while k < b
        invariant
            a <= k <= b < texts@.len(),
            ts == texts@.map_values(|s: String| s@),
            out@ == joined(ts, tight@, a as int, k as int),
        decreases b - k,
    {
        k += 1;
        if !is_tight(tight, k) {
            out.push(' ');
        }
        append_str(&mut out, texts[k].as_str());
        assert(ts[k as int] == texts@[k as int]@);
        assert(out@ =~= joined(ts, tight@, a as int, k as int));
    }
    out
}

/// The end of the first window from `start` that holds `q`
/// ([`match_end`] from `start`).
fn find_match_end(
    texts: &Vec<String>,
    tight: &Vec<bool>,
    q: &Vec<char>,
    cs: bool,
    start: usize,
) -> (r: Option<usize>)
    requires
        start < texts@.len(),
    ensures
        match match_end(texts@.map_values(|s: String| s@), tight@, q@, cs, start as int, start as int) {
            Some(e) => r == Some(e as usize),
            None => r is None,
        },
{
    let ghost ts = texts@.map_values(|s: String| s@);
    let mut combined: Vec<char> = Vec::new();
    let mut end = start;
    while end < texts.len()
        invariant
            start <= end <= texts@.len(),
            ts == texts@.map_values(|s: String| s@),
            match_end(ts, tight@, q@, cs, start as int, start as int) == match_end(
                ts,
                tight@,
                q@,
                cs,
                start as int,
                end as int,
            ),
            end > start ==> combined@ == joined(ts, tight@, start as int, end - 1),
            end == start ==> combined@.len() == 0,
        decreases texts@.len() - end,
    {
        if end > start && !is_tight(tight, end) {
            combined.push(' ');
        }
        append_str(&mut combined, texts[end].as_str());
        assert(ts[end as int] == texts@[end as int]@);
        assert(combined@ =~= joined(ts, tight@, start as int, end as int));
        let norm = normalize_chars(&combined, cs);
        if contains_chars(&norm, q) {
            return Some(end);
        }
        if combined.len() > q.len() && combined.len() - q.len() > q.len() {
            return None;
        }
        end += 1;
    }
    None
}

/// Where the window `start..=end` narrows to ([`narrow`]).
fn narrow_window(
    texts: &Vec<String>,
    tight: &Vec<bool>,
    q: &Vec<char>,
    cs: bool,
    start: usize,
    end: usize,
) -> (r: usize)
    requires
        start <= end < texts@.len(),
    ensures
        r == narrow(texts@.map_values(|s: String| s@), tight@, q@, cs, start as int, end as int),
{
    let ghost ts = texts@.map_values(|s: String| s@);
    let mut s = start;
    while s < end
        invariant
            start <= s <= end < texts@.len(),
            ts == texts@.map_values(|s: String| s@),
            narrow(ts, tight@, q@, cs, start as int, end as int) == narrow(
                ts,
                tight@,
                q@,
                cs,
                s as int,
                end as int,
            ),
        decreases end - s,
    {
        let candidate = join_window(texts, tight, s + 1, end);
        let norm = normalize_chars(&candidate, cs);
        if contains_chars(&norm, q) {
            s += 1;
        } else {
            return s;
        }
    }
    s
}

/// The spans `(first, last)` of item indices at which `opts.phrase`
/// occurs in `texts`, in order. `tight[i]` says that item `i` follows
/// item `i - 1` with no space between them; a missing entry means a space.
pub fn search_spans(texts: &Vec<String>, tight: &Vec<bool>, opts: SearchItemsOptions<'_>) -> (r:
    Vec<(usize, usize)>)
    ensures
        r@.map_values(|p: (usize, usize)| (p.0 as int, p.1 as int)) == search_spans_spec(
            texts@.map_values(|s: String| s@),
            tight@,
            opts.phrase@,
            opts.case_sensitive,
        ),
{
    let ghost ts = texts@.map_values(|s: String| s@);
    let cs = opts.case_sensitive;
    let q = normalize_chars(&chars_of(opts.phrase), cs);
    let mut results: Vec<(usize, usize)> = Vec::new();
    if q.len() == 0 || texts.len() == 0 {
        assert(results@.map_values(|p: (usize, usize)| (p.0 as int, p.1 as int)) =~= Seq::empty());
        return results;
    }
    let ghost all = search_from(ts, tight@, q@, cs, 0);
    let mut start: usize = 0;
    assert(results@.map_values(|p: (usize, usize)| (p.0 as int, p.1 as int)) + search_from(
        ts,
        tight@,
        q@,
        cs,
        0,
    ) =~= all);
    while start < texts.len()
        invariant
            start <= texts@.len(),
            ts == texts@.map_values(|s: String| s@),
            all == search_from(ts, tight@, q@, cs, 0),
            results@.map_values(|p: (usize, usize)| (p.0 as int, p.1 as int)) + search_from(
                ts,
                tight@,
                q@,
                cs,
                start as int,
            ) == all,
        decreases texts@.len() - start,
    {
        let ghost before = results@.map_values(|p: (usize, usize)| (p.0 as int, p.1 as int));
        match find_match_end(texts, tight, &q, cs, start) {
            None => {
                start += 1;
            },
            Some(end) => {
                proof {
                    lemma_match_end_bounds(ts, tight@, q@, cs, start as int, start as int);
                }
                let s = narrow_window(texts, tight, &q, cs, start, end);
                results.push((s, end));
                let ghost after = results@.map_values(|p: (usize, usize)| (p.0 as int, p.1 as int));
                assert(after =~= before.push((s as int, end as int)));
                assert(after + search_from(ts, tight@, q@, cs, end + 1) =~= before + search_from(
                    ts,
                    tight@,
                    q@,
                    cs,
                    start as int,
                ));
                start = end + 1;
            },
        }
    }
    assert(results@.map_values(|p: (usize, usize)| (p.0 as int, p.1 as int)) + Seq::empty()
        =~= results@.map_values(|p: (usize, usize)| (p.0 as int, p.1 as int)));
    results
}

} // verus!
