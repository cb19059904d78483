//! Byte-level pre-scans of raw PDF data, run before the document is handed
//! to the PDF engine: the `/AcroForm` probe and the largest directly
//! declared stream `/Length`.

use vstd::prelude::*;

verus! {

/// PDF whitespace bytes (ISO 32000-1 §7.2.2): NUL, TAB, LF, FF, CR, SPACE.
pub open spec fn is_pdf_ws_spec(b: u8) -> bool {
    b == 0x00 || b == 0x09 || b == 0x0A || b == 0x0C || b == 0x0D || b == 0x20
}

/// ASCII digit byte.
pub open spec fn is_digit_byte(b: u8) -> bool {
    0x30 <= b <= 0x39
}

/// PDF whitespace test.
pub fn is_pdf_ws(b: u8) -> (r: bool)
    ensures
        r == is_pdf_ws_spec(b),
{
    b == 0x00 || b == 0x09 || b == 0x0A || b == 0x0C || b == 0x0D || b == 0x20
}

/// `needle` occurs in `hay` starting at `i`.
pub open spec fn occurs_at(hay: Seq<u8>, needle: Seq<u8>, i: int) -> bool {
    0 <= i && i + needle.len() <= hay.len() && hay.subrange(i, i + needle.len()) == needle
}

/// `needle` occurs somewhere in `hay`.
pub open spec fn contains_bytes(hay: Seq<u8>, needle: Seq<u8>) -> bool {
    exists|i: int| occurs_at(hay, needle, i)
}

/// Byte-by-byte comparison of `hay[i..i + needle.len()]` with `needle`.
pub fn matches_at(hay: &[u8], needle: &[u8], i: usize) -> (r: bool)
    requires
        i <= hay@.len(),
        needle@.len() <= hay@.len() - i,
    ensures
        r == occurs_at(hay@, needle@, i as int),
{
    let hl = hay.len();
    let mut k: usize = 0;
    while k < needle.len()
        invariant
            hl == hay@.len(),
            k <= needle@.len() <= hay@.len() - i,
            forall|m: int| 0 <= m < k ==> hay@[i + m] == needle@[m],
        decreases needle@.len() - k,
    {
        if hay[i + k] != needle[k] {
            proof {
                let w = hay@.subrange(i as int, i + needle@.len());
                assert(w[k as int] == hay@[i + k]);
            }
            return false;
        }
        k += 1;
    }
    assert(hay@.subrange(i as int, i + needle@.len()) =~= needle@);
    true
}

/// Byte-slice substring search: the first position at which `needle`
/// occurs in `haystack`, or `None` for an empty needle or no occurrence.
pub fn find_bytes(haystack: &[u8], needle: &[u8]) -> (r: Option<usize>)
    ensures
        needle@.len() == 0 ==> r is None,
        r matches Some(p) ==> occurs_at(haystack@, needle@, p as int) && forall|q: int|
            0 <= q < p ==> !occurs_at(haystack@, needle@, q),
        r is None && needle@.len() > 0 ==> !contains_bytes(haystack@, needle@),
{
    if needle.len() == 0 || haystack.len() < needle.len() {
        return None;
    }
    let hl = haystack.len();
    let last = hl - needle.len();
    let mut i: usize = 0;
    while i <= last
        invariant
            last == haystack@.len() - needle@.len(),
            hl == haystack@.len(),
            last < hl,
            needle@.len() > 0,
            i <= last + 1,
            forall|q: int| 0 <= q < i ==> !occurs_at(haystack@, needle@, q),
        decreases last + 1 - i,
    {
        if matches_at(haystack, needle, i) {
            return Some(i);
        }
        i += 1;
    }
    assert forall|q: int| !occurs_at(haystack@, needle@, q) by {
        if 0 <= q < i {
        }
    }
    None
}

/// `/AcroForm`
pub open spec fn acroform_key() -> Seq<u8> {
    seq![0x2Fu8, 0x41, 0x63, 0x72, 0x6F, 0x46, 0x6F, 0x72, 0x6D]
}

/// `/Length`
pub open spec fn length_key() -> Seq<u8> {
    seq![0x2Fu8, 0x4C, 0x65, 0x6E, 0x67, 0x74, 0x68]
}

fn acroform_key_bytes() -> (v: Vec<u8>)
    ensures
        v@ == acroform_key(),
{
    let v = vec![0x2Fu8, 0x41, 0x63, 0x72, 0x6F, 0x46, 0x6F, 0x72, 0x6D];
    assert(v@ =~= acroform_key());
    v
}

fn length_key_bytes() -> (v: Vec<u8>)
    ensures
        v@ == length_key(),
{
    let v = vec![0x2Fu8, 0x4C, 0x65, 0x6E, 0x67, 0x74, 0x68];
    assert(v@ =~= length_key());
    v
}

/// Cheap byte-level check for the `/AcroForm` key in a raw PDF, which marks
/// an interactive form.
pub fn scan_has_acroform(bytes: &[u8]) -> (r: bool)
    ensures
        r == contains_bytes(bytes@, acroform_key()),
{
    let key = acroform_key_bytes();
    find_bytes(bytes, key.as_slice()).is_some()
}

/// First index at or after `k` that is not PDF whitespace.
pub open spec fn skip_ws(b: Seq<u8>, k: int) -> int
    decreases b.len() - k,
{
    if 0 <= k < b.len() && is_pdf_ws_spec(b[k]) {
        skip_ws(b, k + 1)
    } else {
        k
    }
}

/// First index at or after `k` that is not an ASCII digit.
pub open spec fn skip_digits(b: Seq<u8>, k: int) -> int
    decreases b.len() - k,
{
    if 0 <= k < b.len() && is_digit_byte(b[k]) {
        skip_digits(b, k + 1)
    } else {
        k
    }
}

/// Value of a run of ASCII digits.
pub open spec fn decimal_value(d: Seq<u8>) -> nat
    decreases d.len(),
{
    if d.len() == 0 {
        0
    } else {
        decimal_value(d.drop_last()) * 10 + (d.last() - 0x30) as nat
    }
}

/// The digit run that ends at `j` continues as `<ws> <digits> <ws> R`,
/// i.e. it is the object number of an indirect reference.
pub open spec fn is_indirect_ref(b: Seq<u8>, j: int) -> bool {
    let k = skip_ws(b, j);
    &&& k > j
    &&& k < b.len()
    &&& is_digit_byte(b[k])
    &&& {
        let k2 = skip_digits(b, k);
        let k3 = skip_ws(b, k2);
        k3 > k2 && k3 < b.len() && b[k3] == 0x52
    }
}

/// The stream length declared directly by a `/Length` key at `i`, if any:
/// `/Length`, at least one whitespace byte, a digit run that is not the
/// start of an indirect reference. Values past `u64::MAX` saturate.
pub open spec fn declared_length_at(b: Seq<u8>, i: int) -> Option<u64> {
    if occurs_at(b, length_key(), i) && i + 7 < b.len() && is_pdf_ws_spec(b[i + 7]) {
        let d0 = skip_ws(b, i + 7);
        let d1 = skip_digits(b, d0);
        if d1 > d0 && !is_indirect_ref(b, d1) {
            let v = decimal_value(b.subrange(d0, d1));
            Some(if v > u64::MAX { u64::MAX } else { v as u64 })
        } else {
            None
        }
    } else {
        None
    }
}

/// Larger of two optional values.
pub open spec fn max_opt(a: Option<u64>, b: Option<u64>) -> Option<u64> {
    match (a, b) {
        (None, x) => x,
        (x, None) => x,
        (Some(x), Some(y)) => Some(if x >= y { x } else { y }),
    }
}

/// Largest length declared at a position below `n`.
pub open spec fn max_declared_below(b: Seq<u8>, n: int) -> Option<u64>
    decreases n,
{
    if n <= 0 {
        None
    } else {
        max_opt(max_declared_below(b, n - 1), declared_length_at(b, n - 1))
    }
}

/// Largest length declared directly anywhere in `b`.
pub open spec fn max_declared_length(b: Seq<u8>) -> Option<u64> {
    max_declared_below(b, b.len() as int)
}

proof fn lemma_none_range(b: Seq<u8>, a: int, c: int)
    requires
        0 <= a <= c,
        forall|p: int| a <= p < c ==> declared_length_at(b, p) is None,
    ensures
        max_declared_below(b, c) == max_declared_below(b, a),
    decreases c - a,
{
    if c > a {
        lemma_none_range(b, a, c - 1);
        assert(declared_length_at(b, c - 1) is None);
    }
}

proof fn lemma_no_slash_no_key(b: Seq<u8>, p: int)
    requires
        0 <= p < b.len(),
        b[p] != 0x2F,
    ensures
        declared_length_at(b, p) is None,
{
    if occurs_at(b, length_key(), p) {
        assert(b.subrange(p, p + 7)[0] == b[p]);
    }
}

proof fn lemma_skip_ws_stops(b: Seq<u8>, k: int)
    requires
        0 <= k <= b.len(),
        k == b.len() || !is_pdf_ws_spec(b[k]),
    ensures
        skip_ws(b, k) == k,
{
}

proof fn lemma_skip_digits_stops(b: Seq<u8>, k: int)
    requires
        0 <= k <= b.len(),
        k == b.len() || !is_digit_byte(b[k]),
    ensures
        skip_digits(b, k) == k,
{
}

fn is_digit_b(b: u8) -> (r: bool)
    ensures
        r == is_digit_byte(b),
{
    0x30 <= b && b <= 0x39
}

/// Saturating decimal accumulation: `min(10 * n + d, u64::MAX)` when `n`
/// is itself the saturated value of the digits so far.
fn push_digit_saturating(n: u64, d: u8) -> (r: u64)
    requires
        d <= 9,
    ensures
        n < u64::MAX ==> r as int == if 10 * n + d > u64::MAX {
            u64::MAX as int
        } else {
            10 * n + d
        },
        n == u64::MAX ==> r == u64::MAX,
{
    let times_ten = match n.checked_mul(10) {
        Some(v) => v,
        None => u64::MAX,
    };
    times_ten.saturating_add(d as u64)
}

/// Exec form of [`is_indirect_ref`].
fn indirect_ref_follows(bytes: &[u8], j: usize) -> (r: bool)
    requires
        j <= bytes@.len(),
    ensures
        r == is_indirect_ref(bytes@, j as int),
{
    let b = Ghost(bytes@);
    let mut k = j;
    let mut saw_ws = false;
    while k < bytes.len() && is_pdf_ws(bytes[k])
        invariant
            j <= k <= bytes@.len(),
            b@ == bytes@,
            skip_ws(b@, k as int) == skip_ws(b@, j as int),
            saw_ws == (k > j),
        decreases bytes@.len() - k,
    {
        saw_ws = true;
        k += 1;
    }
    proof {
        lemma_skip_ws_stops(b@, k as int);
    }
    if !(saw_ws && k < bytes.len() && is_digit_b(bytes[k])) {
        return false;
    }
    let k1 = k;
    while k < bytes.len() && is_digit_b(bytes[k])
        invariant
            k1 <= k <= bytes@.len(),
            b@ == bytes@,
            skip_digits(b@, k as int) == skip_digits(b@, k1 as int),
        decreases bytes@.len() - k,
    {
        k += 1;
    }
    proof {
        lemma_skip_digits_stops(b@, k as int);
    }
    let k2 = k;
    let mut saw_ws2 = false;
    while k < bytes.len() && is_pdf_ws(bytes[k])
        invariant
            k2 <= k <= bytes@.len(),
            b@ == bytes@,
            skip_ws(b@, k as int) == skip_ws(b@, k2 as int),
            saw_ws2 == (k > k2),
        decreases bytes@.len() - k,
    {
        saw_ws2 = true;
        k += 1;
    }
    proof {
        lemma_skip_ws_stops(b@, k as int);
    }
    saw_ws2 && k < bytes.len() && bytes[k] == 0x52
}

/// Scan raw PDF bytes for the largest directly-declared `/Length N` value.
/// `/Length1`-style keys and indirect references (`/Length 5 0 R`) do not
/// count; `None` when no direct declaration exists. Oversized values
/// saturate at `u64::MAX`.
pub fn scan_max_declared_length(bytes: &[u8]) -> (r: Option<u64>)
    ensures
        r == max_declared_length(bytes@),
{
    let b = Ghost(bytes@);
    let key = length_key_bytes();
    let len = bytes.len();
    let mut max: Option<u64> = None;
    let mut i: usize = 0;
    while i < len && len - i >= 7
        invariant
            len == bytes@.len(),
            b@ == bytes@,
            key@ == length_key(),
            i <= len,
            max == max_declared_below(b@, i as int),
        decreases len - i,
    {
        if !matches_at(bytes, key.as_slice(), i) {
            proof {
                assert(declared_length_at(b@, i as int) is None);
            }
            i += 1;
            continue;
        }
        proof {
            assert(b@.subrange(i as int, i + 7) == length_key());
            assert forall|p: int| i < p < i + 7 implies b@[p] != 0x2F by {
                assert(b@[p] == b@.subrange(i as int, i + 7)[p - i]);
            }
        }
        let mut j = i + 7;
        if j >= len || !is_pdf_ws(bytes[j]) {
            proof {
                assert forall|p: int| i < p < j implies declared_length_at(b@, p) is None by {
                    lemma_no_slash_no_key(b@, p);
                }
                lemma_none_range(b@, i + 1, j as int);
            }
            i = j;
            continue;
        }
        while j < len && is_pdf_ws(bytes[j])
            invariant
                i + 7 < j <= len || j == i + 7,
                i + 7 < len,
                len == bytes@.len(),
                b@ == bytes@,
                skip_ws(b@, j as int) == skip_ws(b@, i + 7),
                forall|p: int| i + 7 <= p < j ==> is_pdf_ws_spec(#[trigger] b@[p]),
            decreases len - j,
        {
            j += 1;
        }
        proof {
            lemma_skip_ws_stops(b@, j as int);
        }
        let d0 = j;
        let mut n: u64 = 0;
        let mut overflow = false;
        while j < len && is_digit_b(bytes[j])
            invariant
                d0 <= j <= len,
                len == bytes@.len(),
                b@ == bytes@,
                skip_digits(b@, j as int) == skip_digits(b@, d0 as int),
                forall|p: int| d0 <= p < j ==> is_digit_byte(#[trigger] b@[p]),
                n as int == if decimal_value(b@.subrange(d0 as int, j as int)) > u64::MAX {
                    u64::MAX as int
                } else {
                    decimal_value(b@.subrange(d0 as int, j as int)) as int
                },
                overflow ==> n == u64::MAX,
            decreases len - j,
        {
            let ghost prev = b@.subrange(d0 as int, j as int);
            n = push_digit_saturating(n, bytes[j] - 0x30);
            if n == u64::MAX {
                overflow = true;
            }
            j += 1;
            proof {
                assert(b@.subrange(d0 as int, j as int).drop_last() =~= prev);
            }
        }
        proof {
            lemma_skip_digits_stops(b@, j as int);
            assert forall|p: int| i < p < j implies declared_length_at(b@, p) is None by {
                if p < i + 7 {
                } else if p < d0 {
                    assert(is_pdf_ws_spec(b@[p]));
                } else {
                    assert(is_digit_byte(b@[p]));
                }
                lemma_no_slash_no_key(b@, p);
            }
            lemma_none_range(b@, i + 1, j as int);
        }
        if j == d0 {
            i = if j > i + 1 {
                j
            } else {
                i + 1
            };
            continue;
        }
        let indirect = indirect_ref_follows(bytes, j);
        if !indirect {
            let value = if overflow {
                u64::MAX
            } else {
                n
            };
            max = Some(
                match max {
                    None => value,
                    Some(m) => if m >= value {
                        m
                    } else {
                        value
                    },
                },
            );
        }
        i = j;
    }
    proof {
        assert forall|p: int| i <= p < len implies declared_length_at(b@, p) is None by {
        }
        lemma_none_range(b@, i as int, len as int);
    }
    max
}


/// The largest declaration below `n` bounds every declaration below `n`
/// and is one of them; there is none exactly when nothing is declared
/// below `n`.
proof fn lemma_max_below(b: Seq<u8>, n: int)
    requires
        0 <= n <= b.len(),
    ensures
        max_declared_below(b, n) is None <==> forall|p: int|
            0 <= p < n ==> (#[trigger] declared_length_at(b, p)) is None,
        max_declared_below(b, n) matches Some(m) ==> (forall|p: int|
            0 <= p < n ==> ((#[trigger] declared_length_at(b, p)) matches Some(v) ==> v <= m)) && (
        exists|p: int| 0 <= p < n && #[trigger] declared_length_at(b, p) == Some(m)),
    decreases n,
{
    if n > 0 {
        lemma_max_below(b, n - 1);
        let prev = max_declared_below(b, n - 1);
        let here = declared_length_at(b, n - 1);
        match (prev, here) {
            (None, None) => {},
            (None, Some(y)) => {
                assert(declared_length_at(b, n - 1) == Some(y));
            },
            (Some(x), None) => {},
            (Some(x), Some(y)) => {
                if x < y {
                    assert(declared_length_at(b, n - 1) == Some(y));
                }
            },
        }
    }
}

/// The declared-length scan finds the largest `/Length` declared directly
/// anywhere in the bytes: every direct declaration is at most it, it is
/// one of them, and it is absent exactly when there is none.
pub proof fn max_declared_length_is_largest(b: Seq<u8>)
    ensures
        max_declared_length(b) is None <==> forall|p: int|
            0 <= p < b.len() ==> (#[trigger] declared_length_at(b, p)) is None,
        max_declared_length(b) matches Some(m) ==> (forall|p: int|
            0 <= p < b.len() ==> ((#[trigger] declared_length_at(b, p)) matches Some(v) ==> v <= m))
            && (exists|p: int| 0 <= p < b.len() && #[trigger] declared_length_at(b, p) == Some(m)),
{
    lemma_max_below(b, b.len() as int);
}

} // verus!
