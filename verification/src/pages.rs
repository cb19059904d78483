//! Page selection: the `"1-3,5,10-11"` range-list syntax and the page
//! numbers it selects.

use vstd::prelude::*;

use crate::error::SpdfError;
use crate::text::{
    chars_of, copy_range, digit_value, is_digit, lemma_split_nonempty, split_on, string_of, trim,
    trim_vec,
};

verus! {

/// Value of a run of ASCII digits.
pub open spec fn decimal_of(d: Seq<char>) -> nat
    decreases d.len(),
{
    if d.len() == 0 {
        0
    } else {
        decimal_of(d.drop_last()) * 10 + digit_value(d.last())
    }
}

/// Every character is an ASCII digit.
pub open spec fn all_digits(d: Seq<char>) -> bool {
    forall|k: int| 0 <= k < d.len() ==> is_digit(#[trigger] d[k])
}

/// `u32::from_str`: an optional `+`, then one or more ASCII digits whose
/// value fits in a `u32`.
pub open spec fn parse_u32_spec(s: Seq<char>) -> Option<u32> {
    let d = if s.len() > 0 && s[0] == '+' {
        s.drop_first()
    } else {
        s
    };
    if d.len() > 0 && all_digits(d) && decimal_of(d) <= u32::MAX {
        Some(decimal_of(d) as u32)
    } else {
        None
    }
}

/// Index of the first `c` in `s`, or `s.len()` when there is none.
pub open spec fn first_index_of(s: Seq<char>, c: char) -> int
    decreases s.len(),
{
    if s.len() == 0 {
        0
    } else if s[0] == c {
        0
    } else {
        1 + first_index_of(s.drop_first(), c)
    }
}

/// The non-empty trimmed comma-separated chunks of a page spec.
pub open spec fn page_chunks(spec: Seq<char>) -> Seq<Seq<char>> {
    split_on(spec, ',').map_values(|c: Seq<char>| trim(c)).filter(|c: Seq<char>| c.len() > 0)
}

/// A chunk is a range when it holds a `-`.
pub open spec fn is_range_chunk(c: Seq<char>) -> bool {
    first_index_of(c, '-') < c.len()
}

/// The inclusive page range a chunk denotes: `lo-hi` (each side trimmed)
/// or a single page `p` as `p-p`; `None` when a number does not parse.
pub open spec fn chunk_range(c: Seq<char>) -> Option<(u32, u32)> {
    if is_range_chunk(c) {
        let p = first_index_of(c, '-');
        match (
            parse_u32_spec(trim(c.subrange(0, p))),
            parse_u32_spec(trim(c.subrange(p + 1, c.len() as int))),
        ) {
            (Some(lo), Some(hi)) => Some((lo, hi)),
            _ => None,
        }
    } else {
        match parse_u32_spec(c) {
            Some(p) => Some((p, p)),
            None => None,
        }
    }
}

/// The error message for a chunk that does not parse.
pub open spec fn bad_chunk_message(c: Seq<char>) -> Seq<char> {
    if is_range_chunk(c) {
        "bad range: "@ + c
    } else {
        "bad page: "@ + c
    }
}

/// Page `p` lies in one of `ranges`.
pub open spec fn covered(ranges: Seq<(u32, u32)>, p: u32) -> bool {
    exists|j: int| 0 <= j < ranges.len() && ranges[j].0 <= p && p <= ranges[j].1
}

/// Pages `1..=total` in ascending order.
pub open spec fn all_pages(total: u32) -> Seq<u32> {
    Seq::new(total as nat, |k: int| (k + 1) as u32)
}

/// Pages `1..=total` that some range covers, ascending and without
/// repetition.
pub open spec fn selected_pages(total: u32, ranges: Seq<(u32, u32)>) -> Seq<u32> {
    all_pages(total).filter(|p: u32| covered(ranges, p))
}

/// The characters of an optional string.
pub open spec fn opt_chars(t: Option<&str>) -> Option<Seq<char>> {
    match t {
        Some(s) => Some(s@),
        None => None,
    }
}

/// Index of the first chunk that does not parse, if any.
pub open spec fn first_bad_chunk(cs: Seq<Seq<char>>) -> Option<int> {
    if exists|j: int| 0 <= j < cs.len() && chunk_range(#[trigger] cs[j]) is None {
        Some(
            choose|j: int|
                0 <= j < cs.len() && chunk_range(#[trigger] cs[j]) is None && forall|k: int|
                    0 <= k < j ==> chunk_range(#[trigger] cs[k]) is Some,
        )
    } else {
        None
    }
}

/// What `select_pages` yields: the selected page list, or the message of
/// the error for the first chunk that does not parse.
pub open spec fn select_pages_spec(total: u32, target: Option<Seq<char>>) -> Result<
    Seq<u32>,
    Seq<char>,
> {
    match target {
        None => Ok(all_pages(total)),
        Some(t) => {
            let cs = page_chunks(t);
            match first_bad_chunk(cs) {
                Some(j) => Err(bad_chunk_message(cs[j])),
                None => Ok(
                    selected_pages(total, cs.map_values(|c: Seq<char>| chunk_range(c)->0)),
                ),
            }
        },
    }
}

proof fn lemma_decimal_monotone(d: Seq<char>, k: int)
    requires
        0 <= k <= d.len(),
    ensures
        decimal_of(d.take(k)) <= decimal_of(d),
    decreases d.len() - k,
{
    if k < d.len() {
        lemma_decimal_monotone(d, k + 1);
        assert(d.take(k + 1).drop_last() =~= d.take(k));
    } else {
        assert(d.take(k) =~= d);
    }
}

/// `u32::from_str` on a character sequence.
pub fn parse_u32(s: &Vec<char>) -> (r: Option<u32>)
    ensures
        r == parse_u32_spec(s@),
{
    let start: usize = if s.len() > 0 && s[0] == '+' {
        1
    } else {
        0
    };
    let ghost d = if s@.len() > 0 && s@[0] == '+' {
        s@.drop_first()
    } else {
        s@
    };
    assert(d =~= s@.subrange(start as int, s@.len() as int));
    if start >= s.len() {
        return None;
    }
    let mut acc: u64 = 0;
    let mut i = start;
    while i < s.len()
        invariant
            start <= i <= s.len(),
            d == s@.subrange(start as int, s@.len() as int),
            d == (if s@.len() > 0 && s@[0] == '+' {
                s@.drop_first()
            } else {
                s@
            }),
            forall|k: int| start <= k < i ==> is_digit(#[trigger] s@[k]),
            acc as nat == decimal_of(d.take(i - start)),
            acc <= u32::MAX,
        decreases s.len() - i,
    {
        let c = s[i];
        if !('0' <= c && c <= '9') {
            proof {
                assert(d[i - start] == c);
                assert(!is_digit(d[i - start]));
                assert(!all_digits(d));
            }
            return None;
        }
        let v = (c as u32 - '0' as u32) as u64;
        proof {
            assert(d.take(i - start + 1).drop_last() =~= d.take(i - start));
            assert(d.take(i - start + 1).last() == c);
        }
        acc = acc * 10 + v;
        i += 1;
        proof {
            assert(v as nat == digit_value(c));
            assert(acc as nat == decimal_of(d.take(i - start)));
        }
        if acc > u32::MAX as u64 {
            proof {
                lemma_decimal_monotone(d, i - start);
                assert(decimal_of(d) > u32::MAX);
            }
            return None;
        }
    }
    proof {
        assert(d.take(d.len() as int) =~= d);
        assert forall|k: int| 0 <= k < d.len() implies is_digit(#[trigger] d[k]) by {
            assert(d[k] == s@[start + k]);
        }
        assert(all_digits(d));
    }
    Some(acc as u32)
}

fn index_of_char(s: &Vec<char>, c: char) -> (p: usize)
    ensures
        p as int == first_index_of(s@, c),
        p <= s.len(),
        p < s.len() ==> s@[p as int] == c,
        forall|k: int| 0 <= k < p ==> s@[k] != c,
{
    let mut p: usize = 0;
    while p < s.len() && s[p] != c
        invariant
            p <= s.len(),
            forall|k: int| 0 <= k < p ==> s@[k] != c,
        decreases s.len() - p,
    {
        p += 1;
    }
    proof {
        lemma_first_index(s@, c, p as int);
    }
    p
}

proof fn lemma_first_index(s: Seq<char>, c: char, p: int)
    requires
        0 <= p <= s.len(),
        forall|k: int| 0 <= k < p ==> s[k] != c,
        p < s.len() ==> s[p] == c,
    ensures
        first_index_of(s, c) == p,
    decreases s.len(),
{
    if s.len() > 0 && p > 0 {
        let t = s.drop_first();
        assert forall|k: int| 0 <= k < p - 1 implies t[k] != c by {
            assert(t[k] == s[k + 1]);
        }
        lemma_first_index(t, c, p - 1);
    }
}

fn concat_message(prefix: &str, chunk: &Vec<char>) -> (s: String)
    ensures
        s@ == prefix@ + chunk@,
{
    let mut v = chars_of(prefix);
    let mut i: usize = 0;
    let ghost p = v@;
    while i < chunk.len()
        invariant
            i <= chunk.len(),
            v@ == p + chunk@.take(i as int),
        decreases chunk.len() - i,
    {
        v.push(chunk[i]);
        i += 1;
        assert(v@ =~= p + chunk@.take(i as int));
    }
    assert(chunk@.take(chunk.len() as int) =~= chunk@);
    string_of(&v)
}

/// Parses one trimmed, non-empty chunk.
fn parse_chunk(c: &Vec<char>) -> (r: Result<(u32, u32), String>)
    ensures
        r matches Ok(range) ==> chunk_range(c@) == Some(range),
        r matches Err(m) ==> chunk_range(c@) is None && m@ == bad_chunk_message(c@),
{
    let p = index_of_char(c, '-');
    if p < c.len() {
        let lo_raw = copy_range(c, 0, p);
        let hi_raw = copy_range(c, p + 1, c.len());
        let lo = parse_u32(&trim_vec(&lo_raw));
        let hi = parse_u32(&trim_vec(&hi_raw));
        match (lo, hi) {
            (Some(a), Some(b)) => Ok((a, b)),
            _ => Err(concat_message("bad range: ", c)),
        }
    } else {
        match parse_u32(c) {
            Some(v) => Ok((v, v)),
            None => Err(concat_message("bad page: ", c)),
        }
    }
}

proof fn lemma_map_trim_drop_last(s: Seq<Seq<char>>)
    requires
        s.len() > 0,
    ensures
        s.map_values(|c: Seq<char>| trim(c)).drop_last() == s.drop_last().map_values(
            |c: Seq<char>| trim(c),
        ),
        s.map_values(|c: Seq<char>| trim(c)).last() == trim(s.last()),
{
    assert(s.map_values(|c: Seq<char>| trim(c)).drop_last() =~= s.drop_last().map_values(
        |c: Seq<char>| trim(c),
    ));
}

/// The kept chunks of the finished pieces `pieces`.
spec fn kept(pieces: Seq<Seq<char>>) -> Seq<Seq<char>> {
    pieces.map_values(|c: Seq<char>| trim(c)).filter(|c: Seq<char>| c.len() > 0)
}

proof fn lemma_kept_push(pieces: Seq<Seq<char>>, p: Seq<char>)
    ensures
        kept(pieces.push(p)) == if trim(p).len() > 0 {
            kept(pieces).push(trim(p))
        } else {
            kept(pieces)
        },
{
    let q = pieces.push(p);
    lemma_map_trim_drop_last(q);
    assert(q.drop_last() =~= pieces);
    reveal(Seq::filter);
}

/// Splits `s` at commas and keeps the non-empty trimmed pieces.
fn split_chunks(s: &Vec<char>) -> (r: Vec<Vec<char>>)
    ensures
        r@.map_values(|v: Vec<char>| v@) == page_chunks(s@),
{
    // Finished pieces (already trimmed and filtered) and the piece being read.
    let mut done: Vec<Vec<char>> = Vec::new();
    let mut cur: Vec<char> = Vec::new();
    let mut i: usize = 0;
    proof {
        assert(s@.take(0) =~= Seq::<char>::empty());
        assert(done@.map_values(|v: Vec<char>| v@) =~= kept(Seq::<Seq<char>>::empty()));
        reveal(Seq::filter);
    }
    while i < s.len()
        invariant
            i <= s.len(),
            split_on(s@.take(i as int), ',').len() >= 1,
            split_on(s@.take(i as int), ',').last() == cur@,
            done@.map_values(|v: Vec<char>| v@) == kept(
                split_on(s@.take(i as int), ',').drop_last(),
            ),
        decreases s.len() - i,
    {
        let ghost sp_before = split_on(s@.take(i as int), ',');
        proof {
            assert(s@.take(i + 1).drop_last() =~= s@.take(i as int));
            assert(s@.take(i + 1).last() == s@[i as int]);
            lemma_split_nonempty(s@.take(i + 1), ',');
        }
        if s[i] == ',' {
            let t = trim_vec(&cur);
            let ghost done_before = done@;
            if t.len() > 0 {
                done.push(t);
            }
            cur = Vec::new();
            proof {
                let sp = split_on(s@.take(i + 1), ',');
                assert(sp == sp_before.push(Seq::empty()));
                assert(sp.drop_last() =~= sp_before);
                assert(sp_before =~= sp_before.drop_last().push(sp_before.last()));
                lemma_kept_push(sp_before.drop_last(), sp_before.last());
                assert(done@.map_values(|v: Vec<char>| v@) =~= if t@.len() > 0 {
                    done_before.map_values(|v: Vec<char>| v@).push(t@)
                } else {
                    done_before.map_values(|v: Vec<char>| v@)
                });
                assert(cur@ =~= Seq::<char>::empty());
            }
        } else {
            cur.push(s[i]);
            proof {
                let sp = split_on(s@.take(i + 1), ',');
                assert(sp == sp_before.update(sp_before.len() - 1, sp_before.last().push(s@[i as int])));
                assert(sp.drop_last() =~= sp_before.drop_last());
            }
        }
        i += 1;
    }
    let t = trim_vec(&cur);
    let ghost done_before = done@;
    if t.len() > 0 {
        done.push(t);
    }
    proof {
        assert(s@.take(s@.len() as int) =~= s@);
        let sp = split_on(s@, ',');
        assert(sp =~= sp.drop_last().push(sp.last()));
        lemma_kept_push(sp.drop_last(), sp.last());
        assert(done@.map_values(|v: Vec<char>| v@) =~= if t@.len() > 0 {
            done_before.map_values(|v: Vec<char>| v@).push(t@)
        } else {
            done_before.map_values(|v: Vec<char>| v@)
        });
    }
    done
}

fn is_covered(ranges: &Vec<(u32, u32)>, p: u32) -> (r: bool)
    ensures
        r == covered(ranges@, p),
{
    let mut j: usize = 0;
    while j < ranges.len()
        invariant
            j <= ranges.len(),
            forall|k: int| 0 <= k < j ==> !(ranges@[k].0 <= p && p <= ranges@[k].1),
        decreases ranges.len() - j,
    {
        let (lo, hi) = ranges[j];
        if lo <= p && p <= hi {
            return true;
        }
        j += 1;
    }
    false
}

/// Pages `1..=total` covered by `ranges`, ascending.
fn pages_covered(total: u32, ranges: &Vec<(u32, u32)>) -> (r: Vec<u32>)
    ensures
        r@ == selected_pages(total, ranges@),
{
    let mut out: Vec<u32> = Vec::new();
    let mut p: u32 = 0;
    while p < total
        invariant
            p <= total,
            out@ == all_pages(p).filter(|q: u32| covered(ranges@, q)),
        decreases total - p,
    {
        let page = p + 1;
        let c = is_covered(ranges, page);
        if c {
            out.push(page);
        }
        proof {
            reveal(Seq::filter);
            assert(all_pages((p + 1) as u32).drop_last() =~= all_pages(p));
            assert(all_pages((p + 1) as u32).last() == page);
        }
        p += 1;
    }
    proof {
        assert(all_pages(total) =~= all_pages(p));
    }
    out
}

/// Select which page numbers to process: all of `1..=total_pages` when no
/// spec is given, otherwise the pages within `1..=total_pages` that the
/// comma-separated list of `n` and `lo-hi` entries names, ascending and
/// without repetition. A chunk that does not parse gives
/// `SpdfError::InvalidConfig`.
pub fn select_pages(total_pages: u32, target: Option<&str>) -> (r: Result<Vec<u32>, SpdfError>)
    ensures
        r matches Ok(v) ==> select_pages_spec(total_pages, opt_chars(target)) == Ok::<
            Seq<u32>,
            Seq<char>,
        >(v@),
        r matches Err(e) ==> e matches SpdfError::InvalidConfig(m) && select_pages_spec(
            total_pages,
            opt_chars(target),
        ) == Err::<Seq<u32>, Seq<char>>(m@),
        r is Ok <==> select_pages_spec(total_pages, opt_chars(target)) is Ok,
{
    let spec = match target {
        None => {
            let all: Vec<(u32, u32)> = vec![(1u32, total_pages)];
            let out = pages_covered(total_pages, &all);
            proof {
                let f = |p: u32| covered(all@, p);
                assert forall|k: int| 0 <= k < all_pages(total_pages).len() implies f(
                    #[trigger] all_pages(total_pages)[k],
                ) by {
                    assert(all@[0].0 <= all_pages(total_pages)[k] <= all@[0].1);
                }
                lemma_filter_all(all_pages(total_pages), f);
            }
            return Ok(out);
        },
        Some(t) => t,
    };
    let chars = chars_of(spec);
    let chunks = split_chunks(&chars);
    let ghost cs = page_chunks(spec@);
    let mut ranges: Vec<(u32, u32)> = Vec::new();
    let mut i: usize = 0;
    while i < chunks.len()
        invariant
            i <= chunks.len(),
            chunks@.map_values(|v: Vec<char>| v@) == cs,
            cs == page_chunks(spec@),
            opt_chars(target) == Some(spec@),
            ranges@.len() == i,
            forall|k: int|
                0 <= k < i ==> chunk_range(#[trigger] cs[k]) == Some(ranges@[k]),
        decreases chunks.len() - i,
    {
        assert(cs[i as int] == chunks@[i as int]@);
        match parse_chunk(&chunks[i]) {
            Ok(range) => ranges.push(range),
            Err(m) => {
                proof {
                    assert(chunk_range(cs[i as int]) is None);
                    assert(0 <= i < cs.len() && chunk_range(cs[i as int]) is None && forall|k: int|
                        0 <= k < i ==> chunk_range(#[trigger] cs[k]) is Some);
                    assert(first_bad_chunk(cs) is Some);
                    let j = first_bad_chunk(cs)->0;
                    if j < i {
                        assert(chunk_range(cs[j]) is Some);
                    }
                    if j > i {
                        assert(chunk_range(cs[i as int]) is Some);
                    }
                    assert(j == i);
                }
                return Err(SpdfError::InvalidConfig(m));
            },
        }
        i += 1;
    }
    proof {
        assert(first_bad_chunk(cs) is None);
        assert(ranges@ =~= cs.map_values(|c: Seq<char>| chunk_range(c)->0));
    }
    Ok(pages_covered(total_pages, &ranges))
}

proof fn lemma_filter_all(s: Seq<u32>, f: spec_fn(u32) -> bool)
    requires
        forall|k: int| 0 <= k < s.len() ==> f(#[trigger] s[k]),
    ensures
        s.filter(f) == s,
    decreases s.len(),
{
    reveal(Seq::filter);
    if s.len() > 0 {
        lemma_filter_all(s.drop_last(), f);
        assert(s.drop_last().push(s.last()) =~= s);
    }
}


/// Filtering a strictly ascending sequence keeps it strictly ascending and
/// only keeps its own elements.
proof fn lemma_filter_ascending(s: Seq<u32>, f: spec_fn(u32) -> bool)
    requires
        forall|i: int, j: int| 0 <= i < j < s.len() ==> s[i] < s[j],
    ensures
        forall|i: int, j: int|
            0 <= i < j < s.filter(f).len() ==> (#[trigger] s.filter(f)[i]) < (
            #[trigger] s.filter(f)[j]),
        forall|k: int| 0 <= k < s.filter(f).len() ==> s.contains(#[trigger] s.filter(f)[k]),
    decreases s.len(),
{
    reveal(Seq::filter);
    if s.len() > 0 {
        let d = s.drop_last();
        lemma_filter_ascending(d, f);
        let sub = d.filter(f);
        assert forall|k: int| 0 <= k < sub.len() implies #[trigger] sub[k] < s.last() by {
            let w = choose|w: int| 0 <= w < d.len() && d[w] == sub[k];
            assert(s[w] == d[w]);
        }
        assert forall|k: int| 0 <= k < s.filter(f).len() implies s.contains(
            #[trigger] s.filter(f)[k],
        ) by {
            if k < sub.len() {
                let w = choose|w: int| 0 <= w < d.len() && d[w] == sub[k];
                assert(s[w] == d[w]);
                assert(s.filter(f)[k] == sub[k]);
            } else {
                assert(s[s.len() - 1] == s.last());
            }
        }
        assert forall|i: int, j: int| 0 <= i < j < s.filter(f).len() implies (
        #[trigger] s.filter(f)[i]) < (#[trigger] s.filter(f)[j]) by {
            assert(s.filter(f)[i] == sub[i]);
            if j < sub.len() {
                assert(s.filter(f)[j] == sub[j]);
            }
        }
    }
}

/// The pages a selection yields come in strictly ascending order (sorted,
/// no page twice) and are all within `1..=total`; with no page spec they
/// are every page.
pub proof fn select_pages_sorted_in_range(total: u32, target: Option<Seq<char>>)
    ensures
        select_pages_spec(total, target) matches Ok(v) ==> (forall|i: int, j: int|
            0 <= i < j < v.len() ==> (#[trigger] v[i]) < (#[trigger] v[j])) && (forall|k: int|
            0 <= k < v.len() ==> 1 <= #[trigger] v[k] <= total),
        target is None ==> select_pages_spec(total, target) == Ok::<Seq<u32>, Seq<char>>(
            all_pages(total),
        ),
{
    let all = all_pages(total);
    assert forall|i: int, j: int| 0 <= i < j < all.len() implies all[i] < all[j] by {}
    match target {
        None => {},
        Some(t) => {
            let cs = page_chunks(t);
            match first_bad_chunk(cs) {
                Some(_) => {},
                None => {
                    let ranges = cs.map_values(|c: Seq<char>| chunk_range(c)->0);
                    let f = |p: u32| covered(ranges, p);
                    lemma_filter_ascending(all, f);
                    let v = all.filter(f);
                    assert(selected_pages(total, ranges) == v);
                    assert forall|k: int| 0 <= k < v.len() implies 1 <= #[trigger] v[k] <= total by {
                        let w = choose|w: int| 0 <= w < all.len() && all[w] == v[k];
                    }
                },
            }
        },
    }
}

} // verus!
