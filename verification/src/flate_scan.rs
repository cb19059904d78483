//! Zip-bomb pre-scan: every `/FlateDecode` stream in a raw PDF is inflated
//! under one shared output budget before the PDF engine sees the bytes.
//! Decompression itself is `flate2`'s; this module decides which byte
//! ranges are stream bodies and keeps the budget.

use vstd::prelude::*;

use flate2::Decompress;

use crate::pdf_scan::{contains_bytes, find_bytes, is_pdf_ws, is_pdf_ws_spec, occurs_at};

verus! {

/// The `flate2` inflater, carried through opaquely.
#[verifier::external_type_specification]
#[verifier::external_body]
pub struct ExDecompress(flate2::Decompress);

/// Total input bytes an inflater has consumed (`Decompress::total_in`).
pub uninterp spec fn inflate_total_in(d: Decompress) -> u64;

/// Total output bytes an inflater has produced (`Decompress::total_out`).
pub uninterp spec fn inflate_total_out(d: Decompress) -> u64;

/// Outcome of one inflate call, one variant per `flate2::Status` plus the
/// error case.
pub enum InflateStatus {
    /// `Status::Ok`: progress was possible.
    Progress,
    /// `Status::BufError`: no progress without more input or output room.
    NeedMore,
    /// `Status::StreamEnd`: the stream is complete.
    StreamEnd,
    /// The input is not a valid zlib stream.
    Failed,
}

/// The state of a fresh inflater made by `Decompress::new`, for a zlib
/// stream (`true`) or a raw deflate one.
pub uninterp spec fn fresh_inflater(zlib: bool) -> Decompress;

/// What one `Decompress::decompress` call with `FlushDecompress::None`
/// leaves: the inflater's next state and the call's outcome. Inflation is
/// deterministic: both depend only on the state before the call, the input
/// handed over and the room in the output buffer.
pub uninterp spec fn inflate_call(d: Decompress, input: Seq<u8>, room: nat) -> (Decompress, InflateStatus);

/// A fresh zlib inflater (`Decompress::new(true)`); its counters start at
/// zero.
#[verifier::external_body]
fn new_zlib_inflater() -> (d: Decompress)
    ensures
        d == fresh_inflater(true),
        inflate_total_in(d) == 0,
        inflate_total_out(d) == 0,
{
    Decompress::new(true)
}

/// `Decompress::total_in`.
#[verifier::external_body]
fn total_in_of(d: &Decompress) -> (r: u64)
    ensures
        r == inflate_total_in(*d),
{
    d.total_in()
}

/// `Decompress::total_out`.
#[verifier::external_body]
fn total_out_of(d: &Decompress) -> (r: u64)
    ensures
        r == inflate_total_out(*d),
{
    d.total_out()
}

/// One `Decompress::decompress` call with `FlushDecompress::None`, writing
/// into `out`: the next state and the outcome are [`inflate_call`] of the
/// state before, `input` and the length of `out`. The counters grow by the
/// bytes consumed from `input` and written into `out`, so by at most their
/// lengths; which bytes come out is not stated.
#[verifier::external_body]
fn inflate_step(d: &mut Decompress, input: &[u8], out: &mut Vec<u8>) -> (st: InflateStatus)
    ensures
        (*final(d), st) == inflate_call(*old(d), input@, old(out)@.len()),
        final(out)@.len() == old(out)@.len(),
        inflate_total_in(*old(d)) <= inflate_total_in(*final(d)),
        inflate_total_in(*final(d)) <= inflate_total_in(*old(d)) + input@.len(),
        inflate_total_out(*old(d)) <= inflate_total_out(*final(d)),
        inflate_total_out(*final(d)) <= inflate_total_out(*old(d)) + old(out)@.len(),
{
    match d.decompress(input, out.as_mut_slice(), flate2::FlushDecompress::None) {
        Ok(flate2::Status::Ok) => InflateStatus::Progress,
        Ok(flate2::Status::BufError) => InflateStatus::NeedMore,
        Ok(flate2::Status::StreamEnd) => InflateStatus::StreamEnd,
        Err(_) => InflateStatus::Failed,
    }
}

/// One call of the pre-scan's inflate loop on the unread rest of `body`
/// (from `cursor` on) with a 64 KiB output window: the next state, the
/// bytes consumed and produced, the outcome, and whether the counters
/// moved within the input and the window (the call guarantees they do).
pub open spec fn scan_step(d: Decompress, body: Seq<u8>, cursor: int) -> (Decompress, int, int, InflateStatus, bool) {
    let (d2, st) = inflate_call(d, body.subrange(cursor, body.len() as int), 65536);
    let consumed = inflate_total_in(d2) - inflate_total_in(d);
    let produced = inflate_total_out(d2) - inflate_total_out(d);
    let sane = 0 <= cursor <= body.len() && 0 <= consumed && cursor + consumed <= body.len() && 0
        <= produced <= 65536;
    (d2, consumed, produced, st, sane)
}

/// The loop goes on after a call that asks for more and made progress;
/// it stops at the end of the stream, on an error, when input runs short,
/// or after a call that moved nothing.
pub open spec fn step_goes_on(st: InflateStatus, consumed: int, produced: int) -> bool {
    st is Progress && (consumed > 0 || produced > 0)
}

/// How many bytes the pre-scan's inflate loop produces from `body`,
/// starting from the state `d` with `cursor` bytes read, with no budget.
pub open spec fn body_output(d: Decompress, body: Seq<u8>, cursor: int) -> nat
    decreases u64::MAX - inflate_total_out(d), body.len() - cursor,
{
    let (d2, consumed, produced, st, sane) = scan_step(d, body, cursor);
    if !sane {
        0
    } else if step_goes_on(st, consumed, produced) {
        (produced + body_output(d2, body, cursor + consumed)) as nat
    } else {
        produced as nat
    }
}

/// `a + b`, saturating at `u64::MAX`.
pub open spec fn sat_add(a: u64, b: int) -> u64 {
    if a + b > u64::MAX {
        u64::MAX
    } else {
        (a + b) as u64
    }
}

/// The pre-scan's inflate loop on `body` under the budget `cap`, starting
/// from the state `d` with `cursor` bytes read and `total` bytes produced
/// so far: whether the budget was crossed, and the running total when the
/// loop stopped.
pub open spec fn capped_run(d: Decompress, body: Seq<u8>, cursor: int, total: u64, cap: u64) -> (bool, u64)
    decreases u64::MAX - inflate_total_out(d), body.len() - cursor,
{
    let (d2, consumed, produced, st, sane) = scan_step(d, body, cursor);
    let t2 = sat_add(total, produced);
    if !sane {
        (false, total)
    } else if t2 > cap {
        (true, t2)
    } else if step_goes_on(st, consumed, produced) {
        capped_run(d2, body, cursor + consumed, t2, cap)
    } else {
        (false, t2)
    }
}

/// Result of the FlateDecode expansion pre-scan.
#[derive(Clone, Copy, Debug, PartialEq, Eq, Structural)]
pub enum ExpandedScan {
    /// Every FlateDecode stream was inflated within budget; carries the
    /// running total.
    Within(u64),
    /// The inflated output crossed the budget; `at_least` is how much had
    /// been produced when the scan stopped.
    Overflowed { at_least: u64 },
}

/// `stream`
pub open spec fn stream_key() -> Seq<u8> {
    seq![0x73u8, 0x74, 0x72, 0x65, 0x61, 0x6D]
}

/// `endstream`
pub open spec fn endstream_key() -> Seq<u8> {
    seq![0x65u8, 0x6E, 0x64, 0x73, 0x74, 0x72, 0x65, 0x61, 0x6D]
}

/// `/FlateDecode`
pub open spec fn flate_key() -> Seq<u8> {
    seq![0x2Fu8, 0x46, 0x6C, 0x61, 0x74, 0x65, 0x44, 0x65, 0x63, 0x6F, 0x64, 0x65]
}

fn stream_key_bytes() -> (v: Vec<u8>)
    ensures
        v@ == stream_key(),
{
    let v = vec![0x73u8, 0x74, 0x72, 0x65, 0x61, 0x6D];
    assert(v@ =~= stream_key());
    v
}

fn endstream_key_bytes() -> (v: Vec<u8>)
    ensures
        v@ == endstream_key(),
{
    let v = vec![0x65u8, 0x6E, 0x64, 0x73, 0x74, 0x72, 0x65, 0x61, 0x6D];
    assert(v@ =~= endstream_key());
    v
}

fn flate_key_bytes() -> (v: Vec<u8>)
    ensures
        v@ == flate_key(),
{
    let v = vec![0x2Fu8, 0x46, 0x6C, 0x61, 0x74, 0x65, 0x44, 0x65, 0x63, 0x6F, 0x64, 0x65];
    assert(v@ =~= flate_key());
    v
}

/// An occurrence inside a sub-range is an occurrence in the whole.
proof fn lemma_occurs_in_window(b: Seq<u8>, lo: int, hi: int, n: Seq<u8>, p: int)
    requires
        0 <= lo <= hi <= b.len(),
        occurs_at(b.subrange(lo, hi), n, p),
    ensures
        occurs_at(b, n, lo + p),
{
    assert(b.subrange(lo, hi).subrange(p, p + n.len()) =~= b.subrange(lo + p, lo + p + n.len()));
}

/// Output window for one inflate call.
const CHUNK_OUT: usize = 65536;

/// How far before a `stream` keyword the dictionary is searched for
/// `/FlateDecode`.
const DICT_WINDOW: usize = 4096;

/// How far after a stream body starts `endstream` is searched for.
const ENDSTREAM_SEARCH: usize = 67108864;

/// Inflates one stream body with a fresh zlib inflater, adding what it
/// produces to `total` ([`capped_run`]). Returns `true` when the running
/// total crossed `cap`, at most one output window past it.
fn inflate_body(body: &[u8], total: &mut u64, cap: u64) -> (overflowed: bool)
    requires
        *old(total) <= cap,
    ensures
        (overflowed, *final(total)) == capped_run(fresh_inflater(true), body@, 0, *old(total), cap),
        overflowed ==> cap < *final(total) <= cap + 65536,
        !overflowed ==> *old(total) <= *final(total) <= cap,
{
    let mut dec = new_zlib_inflater();
    let mut scratch: Vec<u8> = vec![0u8; CHUNK_OUT];
    let mut input_cursor: usize = 0;
    loop
        invariant
            input_cursor <= body@.len(),
            scratch@.len() == 65536,
            *old(total) <= *total <= cap,
            capped_run(dec, body@, input_cursor as int, *total, cap) == capped_run(
                fresh_inflater(true),
                body@,
                0,
                *old(total),
                cap,
            ),
        decreases u64::MAX - inflate_total_out(dec), body@.len() - input_cursor,
    {
        let ghost d0 = dec;
        let ghost t0 = *total;
        let before_in = total_in_of(&dec);
        let before_out = total_out_of(&dec);
        let input = &body[input_cursor..body.len()];
        assert(input@ == body@.subrange(input_cursor as int, body@.len() as int));
        let status = inflate_step(&mut dec, input, &mut scratch);
        let after_in = total_in_of(&dec);
        let after_out = total_out_of(&dec);
        let produced = after_out - before_out;
        let consumed = (after_in - before_in) as usize;
        let ghost step = scan_step(d0, body@, input_cursor as int);
        assert(step == (dec, consumed as int, produced as int, status, true));
        input_cursor += consumed;
        *total = total.saturating_add(produced);
        assert(*total == sat_add(t0, produced as int));
        if *total > cap {
            return true;
        }
        match status {
            InflateStatus::StreamEnd => {
                return false;
            },
            InflateStatus::NeedMore | InflateStatus::Failed => {
                // Corrupt or truncated body: the PDF engine reports it later.
                return false;
            },
            InflateStatus::Progress => {
                if produced == 0 && consumed == 0 {
                    // No progress: stop rather than spin on truncated input.
                    return false;
                }
            },
        }
    }
}

/// The pre-scan over the stream bodies `bodies` of `b`, in order, each
/// inflated by a fresh zlib inflater under the shared budget `cap`, with
/// `total` bytes produced before them. It stops at the first body that
/// crosses the budget.
pub open spec fn scan_bodies(b: Seq<u8>, bodies: Seq<(int, int)>, total: u64, cap: u64) -> ExpandedScan
    decreases bodies.len(),
{
    if bodies.len() == 0 {
        ExpandedScan::Within(total)
    } else {
        let (ov, t) = capped_run(
            fresh_inflater(true),
            b.subrange(bodies[0].0, bodies[0].1),
            0,
            total,
            cap,
        );
        if ov {
            ExpandedScan::Overflowed { at_least: t }
        } else {
            scan_bodies(b, bodies.drop_first(), t, cap)
        }
    }
}

/// What the pre-scan of the raw PDF `b` under the budget `cap` reports.
pub open spec fn expanded_scan(b: Seq<u8>, cap: u64) -> ExpandedScan {
    scan_bodies(b, flate_bodies_from(b, 0), 0, cap)
}

/// How many bytes the bodies `bodies` of `b` inflate to together, each
/// by a fresh zlib inflater, with no budget.
pub open spec fn bodies_output(b: Seq<u8>, bodies: Seq<(int, int)>) -> nat
    decreases bodies.len(),
{
    if bodies.len() == 0 {
        0
    } else {
        body_output(fresh_inflater(true), b.subrange(bodies[0].0, bodies[0].1), 0) + bodies_output(
            b,
            bodies.drop_first(),
        )
    }
}

/// How many bytes the FlateDecode streams of the raw PDF `b` inflate to
/// together.
pub open spec fn inflated_total(b: Seq<u8>) -> nat {
    bodies_output(b, flate_bodies_from(b, 0))
}

/// Under a budget below `u64::MAX`, the capped loop on one body crosses
/// the budget exactly when what came before plus all the body inflates to
/// exceeds it, and otherwise ends with that sum.
proof fn lemma_capped_run(d: Decompress, body: Seq<u8>, cursor: int, total: u64, cap: u64)
    requires
        total <= cap < u64::MAX,
    ensures
        ({
            let (ov, t) = capped_run(d, body, cursor, total, cap);
            &&& ov <==> total + body_output(d, body, cursor) > cap
            &&& !ov ==> t == total + body_output(d, body, cursor)
            &&& ov ==> cap < t <= cap + 65536
        }),
    decreases u64::MAX - inflate_total_out(d), body.len() - cursor,
{
    let (d2, consumed, produced, st, sane) = scan_step(d, body, cursor);
    if sane && sat_add(total, produced) <= cap && step_goes_on(st, consumed, produced) {
        lemma_capped_run(d2, body, cursor + consumed, sat_add(total, produced), cap);
    }
}

/// The same over a run of bodies.
proof fn lemma_scan_bodies(b: Seq<u8>, bodies: Seq<(int, int)>, total: u64, cap: u64)
    requires
        total <= cap < u64::MAX,
    ensures
        scan_bodies(b, bodies, total, cap) is Overflowed <==> total + bodies_output(b, bodies) > cap,
        scan_bodies(b, bodies, total, cap) matches ExpandedScan::Within(t) ==> t == total
            + bodies_output(b, bodies),
        scan_bodies(b, bodies, total, cap) matches ExpandedScan::Overflowed { at_least } ==> cap
            < at_least <= cap + 65536,
    decreases bodies.len(),
{
    if bodies.len() > 0 {
        let body = b.subrange(bodies[0].0, bodies[0].1);
        lemma_capped_run(fresh_inflater(true), body, 0, total, cap);
        let (ov, t) = capped_run(fresh_inflater(true), body, 0, total, cap);
        if !ov {
            lemma_scan_bodies(b, bodies.drop_first(), t, cap);
        }
    }
}

/// With the largest budget nothing overflows: the running total saturates
/// at the budget.
proof fn lemma_scan_bodies_max(b: Seq<u8>, bodies: Seq<(int, int)>, total: u64)
    ensures
        scan_bodies(b, bodies, total, u64::MAX) is Within,
    decreases bodies.len(),
{
    if bodies.len() > 0 {
        let body = b.subrange(bodies[0].0, bodies[0].1);
        lemma_capped_run_max(fresh_inflater(true), body, 0, total);
        let (ov, t) = capped_run(fresh_inflater(true), body, 0, total, u64::MAX);
        lemma_scan_bodies_max(b, bodies.drop_first(), t);
    }
}

proof fn lemma_capped_run_max(d: Decompress, body: Seq<u8>, cursor: int, total: u64)
    ensures
        !capped_run(d, body, cursor, total, u64::MAX).0,
    decreases u64::MAX - inflate_total_out(d), body.len() - cursor,
{
    let (d2, consumed, produced, st, sane) = scan_step(d, body, cursor);
    if sane && step_goes_on(st, consumed, produced) {
        lemma_capped_run_max(d2, body, cursor + consumed, sat_add(total, produced));
    }
}

/// The first position at or after `from` where `key` occurs in `b`.
pub open spec fn first_occurrence(b: Seq<u8>, key: Seq<u8>, from: int) -> Option<int>
    decreases b.len() - from,
{
    if from < 0 || from >= b.len() || from + key.len() > b.len() {
        None
    } else if occurs_at(b, key, from) {
        Some(from)
    } else {
        first_occurrence(b, key, from + 1)
    }
}

pub proof fn lemma_first_occurrence_bounds(b: Seq<u8>, key: Seq<u8>, from: int)
    ensures
        first_occurrence(b, key, from) matches Some(p) ==> from <= p && occurs_at(b, key, p),
    decreases b.len() - from,
{
    if !(from < 0 || from >= b.len() || from + key.len() > b.len()) && !occurs_at(b, key, from) {
        lemma_first_occurrence_bounds(b, key, from + 1);
    }
}

proof fn lemma_first_occurrence_found(b: Seq<u8>, key: Seq<u8>, from: int, p: int)
    requires
        0 <= from <= p,
        key.len() > 0,
        occurs_at(b, key, p),
        forall|q: int| from <= q < p ==> !occurs_at(b, key, q),
    ensures
        first_occurrence(b, key, from) == Some(p),
    decreases p - from,
{
    if from < p {
        lemma_first_occurrence_found(b, key, from + 1, p);
    }
}

proof fn lemma_first_occurrence_none(b: Seq<u8>, key: Seq<u8>, from: int)
    requires
        0 <= from,
        forall|q: int| from <= q ==> !occurs_at(b, key, q),
    ensures
        first_occurrence(b, key, from) is None,
    decreases b.len() - from,
{
    if from < b.len() && from + key.len() <= b.len() {
        lemma_first_occurrence_none(b, key, from + 1);
    }
}

/// Occurrences in the tail `b[lo..hi]` are occurrences in `b[..hi]`,
/// shifted by `lo`.
proof fn lemma_shifted_occurrence(b: Seq<u8>, key: Seq<u8>, lo: int, hi: int, q: int)
    requires
        0 <= lo <= hi <= b.len(),
        0 <= q,
    ensures
        occurs_at(b.subrange(lo, hi), key, q) <==> occurs_at(b.subrange(0, hi), key, lo + q),
{
    if q + key.len() <= hi - lo {
        assert(b.subrange(lo, hi).subrange(q, q + key.len()) =~= b.subrange(0, hi).subrange(
            lo + q,
            lo + q + key.len(),
        ));
    }
}

/// What `find_bytes` on the window `b[lo..hi]` says about the first
/// occurrence in `b[..hi]` from `lo` on.
proof fn lemma_find_in_window(b: Seq<u8>, key: Seq<u8>, lo: int, hi: int, r: Option<usize>)
    requires
        0 <= lo <= hi <= b.len(),
        key.len() > 0,
        r matches Some(p) ==> occurs_at(b.subrange(lo, hi), key, p as int) && forall|q: int|
            0 <= q < p ==> !occurs_at(b.subrange(lo, hi), key, q),
        r is None ==> !contains_bytes(b.subrange(lo, hi), key),
    ensures
        first_occurrence(b.subrange(0, hi), key, lo) == match r {
            Some(p) => Some(lo + p),
            None => None::<int>,
        },
{
    let w = b.subrange(0, hi);
    match r {
        Some(p) => {
            lemma_shifted_occurrence(b, key, lo, hi, p as int);
            assert forall|q: int| lo <= q < lo + p implies !occurs_at(w, key, q) by {
                lemma_shifted_occurrence(b, key, lo, hi, q - lo);
            }
            lemma_first_occurrence_found(w, key, lo, lo + p);
        },
        None => {
            assert forall|q: int| lo <= q implies !occurs_at(w, key, q) by {
                lemma_shifted_occurrence(b, key, lo, hi, q - lo);
            }
            lemma_first_occurrence_none(w, key, lo);
        },
    }
}

/// Where the body of a stream whose keyword starts at `marker` begins:
/// after `stream` and a CRLF or LF; none without one.
pub open spec fn body_start_after(b: Seq<u8>, marker: int) -> Option<int> {
    let k = marker + 6;
    if 0 <= k && k + 1 < b.len() && b[k] == 0x0D && b[k + 1] == 0x0A {
        Some(k + 2)
    } else if 0 <= k < b.len() && b[k] == 0x0A {
        Some(k + 1)
    } else {
        None
    }
}

/// The keyword at `marker` stands at the start or after whitespace.
pub open spec fn keyword_standalone(b: Seq<u8>, marker: int) -> bool {
    marker == 0 || (0 < marker <= b.len() && is_pdf_ws_spec(b[marker - 1]))
}

/// The stream's dictionary, the 4 KiB before its keyword, names
/// `/FlateDecode`.
pub open spec fn dict_is_flate(b: Seq<u8>, marker: int) -> bool {
    let lo = if marker >= 4096 {
        marker - 4096
    } else {
        0
    };
    contains_bytes(b.subrange(lo, marker), flate_key())
}

/// Where `endstream` is looked for after a body starting at `start`: up
/// to 64 MiB on.
pub open spec fn endstream_limit(len: int, start: int) -> int {
    if len - start > 67108864 {
        start + 67108864
    } else {
        len
    }
}

/// Where the body starting at `start` ends: the first `endstream` that
/// fits before the search limit.
pub open spec fn body_end(b: Seq<u8>, start: int) -> Option<int> {
    first_occurrence(b.subrange(0, endstream_limit(b.len() as int, start)), endstream_key(), start)
}

/// The FlateDecode stream bodies found scanning `b` from `i`, as
/// `(start, end)` byte ranges in order. Keywords not followed by an end of
/// line, or not standing after whitespace, are skipped; an unterminated
/// stream ends the scan; bodies of other filters are passed over.
pub open spec fn flate_bodies_from(b: Seq<u8>, i: int) -> Seq<(int, int)>
    decreases b.len() - i,
{
    if i < 0 {
        Seq::empty()
    } else {
        match first_occurrence(b, stream_key(), i) {
            None => Seq::empty(),
            Some(marker) => {
                proof {
                    lemma_first_occurrence_bounds(b, stream_key(), i);
                }
                match body_start_after(b, marker) {
                    None => flate_bodies_from(b, marker + 6),
                    Some(s) => if !keyword_standalone(b, marker) {
                        flate_bodies_from(b, marker + 6)
                    } else {
                        match body_end(b, s) {
                            None => Seq::empty(),
                            Some(e) => {
                                proof {
                                    lemma_first_occurrence_bounds(
                                        b.subrange(0, endstream_limit(b.len() as int, s)),
                                        endstream_key(),
                                        s,
                                    );
                                }
                                (if dict_is_flate(b, marker) {
                                    seq![(s, e)]
                                } else {
                                    Seq::empty()
                                }) + flate_bodies_from(b, e + 9)
                            },
                        }
                    },
                }
            },
        }
    }
}

/// Every body lies inside the bytes at or after `i`, ends where an
/// `endstream` keyword starts, and follows the body before it; with no
/// `/FlateDecode` anywhere there is no body at all.
pub proof fn flate_bodies_well_formed(b: Seq<u8>, i: int)
    requires
        0 <= i,
    ensures
        ({
            let bs = flate_bodies_from(b, i);
            &&& forall|k: int|
                0 <= k < bs.len() ==> i <= (#[trigger] bs[k]).0 <= bs[k].1 && occurs_at(
                    b,
                    endstream_key(),
                    bs[k].1,
                )
            &&& forall|j: int, k: int| 0 <= j < k < bs.len() ==> (#[trigger] bs[j]).1 < (
            #[trigger] bs[k]).0
            &&& !contains_bytes(b, flate_key()) ==> bs.len() == 0
        }),
    decreases b.len() - i,
{
    match first_occurrence(b, stream_key(), i) {
        None => {},
        Some(marker) => {
            lemma_first_occurrence_bounds(b, stream_key(), i);
            match body_start_after(b, marker) {
                None => {
                    flate_bodies_well_formed(b, marker + 6);
                    assert(flate_bodies_from(b, i) == flate_bodies_from(b, marker + 6));
                },
                Some(s) => {
                    if !keyword_standalone(b, marker) {
                        flate_bodies_well_formed(b, marker + 6);
                        assert(flate_bodies_from(b, i) == flate_bodies_from(b, marker + 6));
                    } else {
                        match body_end(b, s) {
                            None => {},
                            Some(e) => {
                                let lim = endstream_limit(b.len() as int, s);
                                let w = b.subrange(0, lim);
                                lemma_first_occurrence_bounds(w, endstream_key(), s);
                                assert(w.subrange(e, e + 9) =~= b.subrange(e, e + 9));
                                assert(occurs_at(b, endstream_key(), e));
                                flate_bodies_well_formed(b, e + 9);
                                let rest = flate_bodies_from(b, e + 9);
                                let bs = flate_bodies_from(b, i);
                                if dict_is_flate(b, marker) {
                                    let lo = if marker >= 4096 {
                                        marker - 4096
                                    } else {
                                        0
                                    };
                                    let p = choose|p: int|
                                        occurs_at(b.subrange(lo, marker), flate_key(), p);
                                    lemma_occurs_in_window(b, lo, marker, flate_key(), p);
                                    assert(bs == seq![(s, e)] + rest);
                                    assert forall|k: int| 0 <= k < bs.len() implies i <= (
                                    #[trigger] bs[k]).0 <= bs[k].1 && occurs_at(
                                        b,
                                        endstream_key(),
                                        bs[k].1,
                                    ) by {
                                        if k > 0 {
                                            assert(bs[k] == rest[k - 1]);
                                        }
                                    }
                                    assert forall|j: int, k: int| 0 <= j < k < bs.len() implies (
                                    #[trigger] bs[j]).1 < (#[trigger] bs[k]).0 by {
                                        assert(bs[k] == rest[k - 1]);
                                        if j > 0 {
                                            assert(bs[j] == rest[j - 1]);
                                        }
                                    }
                                } else {
                                    assert(bs =~= rest);
                                }
                            },
                        }
                    }
                },
            }
        },
    }
}

/// The first occurrence of `key` in `bytes[..hi]` at or after `lo`.
fn find_from(bytes: &[u8], lo: usize, hi: usize, key: &Vec<u8>) -> (r: Option<usize>)
    requires
        lo <= hi <= bytes@.len(),
        key@.len() > 0,
    ensures
        match r {
            Some(p) => first_occurrence(bytes@.subrange(0, hi as int), key@, lo as int) == Some(
                p as int,
            ) && lo <= p,
            None => first_occurrence(bytes@.subrange(0, hi as int), key@, lo as int) is None,
        },
{
    let found = find_bytes(&bytes[lo..hi], key.as_slice());
    proof {
        lemma_find_in_window(bytes@, key@, lo as int, hi as int, found);
    }
    match found {
        Some(rel) => Some(lo + rel),
        None => None,
    }
}

/// Where the body after the keyword at `marker` begins
/// ([`body_start_after`]).
fn body_start_of(bytes: &[u8], marker: usize) -> (r: Option<usize>)
    requires
        marker + 6 <= bytes@.len(),
    ensures
        match body_start_after(bytes@, marker as int) {
            Some(s) => r == Some(s as usize) && s <= bytes@.len(),
            None => r is None,
        },
{
    let len = bytes.len();
    let after_kw = marker + 6;
    if after_kw < len && bytes[after_kw] == 0x0D && after_kw + 1 < len && bytes[after_kw + 1]
        == 0x0A {
        Some(after_kw + 2)
    } else if after_kw < len && bytes[after_kw] == 0x0A {
        Some(after_kw + 1)
    } else {
        None
    }
}

/// Whether the dictionary before the keyword at `marker` names
/// `/FlateDecode` ([`dict_is_flate`]).
fn dict_has_flate(bytes: &[u8], marker: usize, flate: &Vec<u8>) -> (r: bool)
    requires
        marker <= bytes@.len(),
        flate@ == flate_key(),
    ensures
        r == dict_is_flate(bytes@, marker as int),
{
    let window_start = marker.saturating_sub(DICT_WINDOW);
    let found = find_bytes(&bytes[window_start..marker], flate.as_slice());
    assert(bytes@.subrange(window_start as int, marker as int) == bytes@.subrange(
        window_start as int,
        marker as int,
    ));
    found.is_some()
}

/// The FlateDecode stream bodies of a raw PDF, as `(start, end)` byte
/// ranges in order ([`flate_bodies_from`] the start).
pub fn flate_stream_bodies(bytes: &[u8]) -> (r: Vec<(usize, usize)>)
    ensures
        r@.map_values(|p: (usize, usize)| (p.0 as int, p.1 as int)) == flate_bodies_from(bytes@, 0),
{
    let stream = stream_key_bytes();
    let endstream = endstream_key_bytes();
    let flate = flate_key_bytes();
    let ghost b = bytes@;
    let len = bytes.len();
    let mut out: Vec<(usize, usize)> = Vec::new();
    let mut i: usize = 0;
    loop
        invariant
            len == b.len(),
            b == bytes@,
            i <= len,
            stream@ == stream_key(),
            endstream@ == endstream_key(),
            flate@ == flate_key(),
            out@.map_values(|p: (usize, usize)| (p.0 as int, p.1 as int)) + flate_bodies_from(
                b,
                i as int,
            ) == flate_bodies_from(b, 0),
        decreases len - i,
    {
        let ghost before = out@.map_values(|p: (usize, usize)| (p.0 as int, p.1 as int));
        assert(b.subrange(0, len as int) =~= b);
        let marker = match find_from(bytes, i, len, &stream) {
            Some(m) => m,
            None => {
                assert(flate_bodies_from(b, i as int) =~= Seq::empty());
                assert(before + Seq::empty() =~= before);
                return out;
            },
        };
        proof {
            lemma_first_occurrence_bounds(b, stream_key(), i as int);
        }
        let after_kw = marker + 6;
        let body_start = match body_start_of(bytes, marker) {
            Some(s) => s,
            None => {
                assert(flate_bodies_from(b, i as int) == flate_bodies_from(b, after_kw as int));
                i = after_kw;
                continue;
            },
        };
        let ok_prev = marker == 0 || is_pdf_ws(bytes[marker - 1]);
        if !ok_prev {
            assert(flate_bodies_from(b, i as int) == flate_bodies_from(b, after_kw as int));
            i = after_kw;
            continue;
        }
        let search_end = if len - body_start > ENDSTREAM_SEARCH {
            body_start + ENDSTREAM_SEARCH
        } else {
            len
        };
        let end = match find_from(bytes, body_start, search_end, &endstream) {
            Some(e) => e,
            None => {
                assert(flate_bodies_from(b, i as int) =~= Seq::empty());
                assert(before + Seq::empty() =~= before);
                return out;
            },
        };
        proof {
            lemma_first_occurrence_bounds(
                b.subrange(0, search_end as int),
                endstream_key(),
                body_start as int,
            );
        }
        if dict_has_flate(bytes, marker, &flate) {
            out.push((body_start, end));
            proof {
                let after = out@.map_values(|p: (usize, usize)| (p.0 as int, p.1 as int));
                assert(after =~= before.push((body_start as int, end as int)));
                assert(flate_bodies_from(b, i as int) == seq![(body_start as int, end as int)]
                    + flate_bodies_from(b, end + 9));
                assert(after + flate_bodies_from(b, end + 9) =~= before + flate_bodies_from(
                    b,
                    i as int,
                ));
            }
        } else {
            proof {
                assert(flate_bodies_from(b, i as int) =~= flate_bodies_from(b, end + 9));
            }
        }
        i = end + 9;
    }
}

/// A larger budget never turns a document that passed the pre-scan into
/// one that fails it.
pub proof fn expanded_scan_monotone(b: Seq<u8>, c1: u64, c2: u64)
    requires
        c1 <= c2,
        expanded_scan(b, c1) is Within,
    ensures
        expanded_scan(b, c2) is Within,
{
    if c2 == u64::MAX {
        lemma_scan_bodies_max(b, flate_bodies_from(b, 0), 0);
    } else {
        lemma_scan_bodies(b, flate_bodies_from(b, 0), 0, c1);
        lemma_scan_bodies(b, flate_bodies_from(b, 0), 0, c2);
    }
}

/// Inflate every FlateDecode stream body of a raw PDF (those
/// [`flate_stream_bodies`] finds), in file order, under one shared output
/// budget `cap`, stopping as soon as the inflated total exceeds it. Below
/// `u64::MAX` the budget is crossed exactly when the streams inflate to
/// more than `cap` bytes together, and the report then overshoots it by at
/// most one 64 KiB output window.
pub fn scan_expanded_flate_bytes(bytes: &[u8], cap: u64) -> (r: ExpandedScan)
    ensures
        r == expanded_scan(bytes@, cap),
        cap < u64::MAX ==> (r is Overflowed <==> inflated_total(bytes@) > cap),
        r matches ExpandedScan::Within(t) ==> t <= cap && (cap < u64::MAX ==> t == inflated_total(
            bytes@,
        )),
        r matches ExpandedScan::Overflowed { at_least } ==> cap < at_least <= cap + 65536,
        cap == u64::MAX ==> r is Within,
        flate_bodies_from(bytes@, 0).len() == 0 ==> r == ExpandedScan::Within(0),
        !contains_bytes(bytes@, flate_key()) ==> r == ExpandedScan::Within(0),
{
    proof {
        flate_bodies_well_formed(bytes@, 0);
        if cap < u64::MAX {
            lemma_scan_bodies(bytes@, flate_bodies_from(bytes@, 0), 0, cap);
            assert(expanded_scan(bytes@, cap) is Overflowed <==> inflated_total(bytes@) > cap);
        } else {
            lemma_scan_bodies_max(bytes@, flate_bodies_from(bytes@, 0), 0);
        }
    }
    let bodies = flate_stream_bodies(bytes);
    let ghost bv = bodies@.map_values(|p: (usize, usize)| (p.0 as int, p.1 as int));
    let mut total: u64 = 0;
    let mut k: usize = 0;
    assert(bv.skip(0) =~= bv);
    while k < bodies.len()
        invariant
            k <= bodies@.len(),
            bv == bodies@.map_values(|p: (usize, usize)| (p.0 as int, p.1 as int)),
            bv == flate_bodies_from(bytes@, 0),
            forall|m: int|
                0 <= m < bv.len() ==> 0 <= (#[trigger] bv[m]).0 <= bv[m].1 && bv[m].1 + 9
                    <= bytes@.len(),
            total <= cap,
            scan_bodies(bytes@, bv.skip(k as int), total, cap) == expanded_scan(bytes@, cap),
            !contains_bytes(bytes@, flate_key()) ==> bv.len() == 0,
            cap < u64::MAX ==> (expanded_scan(bytes@, cap) is Overflowed <==> inflated_total(bytes@)
                > cap),
        decreases bodies@.len() - k,
    {
        let (s, e) = bodies[k];
        assert(bv[k as int] == (s as int, e as int));
        let body = &bytes[s..e];
        assert(body@ == bytes@.subrange(s as int, e as int));
        let ghost rest = bv.skip(k as int);
        assert(rest[0] == bv[k as int]);
        assert(rest.drop_first() =~= bv.skip(k + 1));
        let ghost t0 = total;
        if inflate_body(body, &mut total, cap) {
            assert(scan_bodies(bytes@, rest, t0, cap) == ExpandedScan::Overflowed { at_least: total });
            return ExpandedScan::Overflowed { at_least: total };
        }
        k += 1;
    }
    assert(bv.skip(k as int).len() == 0);
    ExpandedScan::Within(total)
}

} // verus!
