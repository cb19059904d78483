//! OCR table-artifact cleanup and Unicode sub/superscript conversion.

use vstd::prelude::*;

use crate::text::{
    chars_eq_str, chars_of, copy_range, is_digit, string_of, trim, trim_end, trim_start, trim_vec,
    lemma_trim_shape,
};

verus! {

/// Characters OCR tends to hallucinate from vertical table borders.
pub open spec fn is_border(c: char) -> bool {
    c == '|' || c == '[' || c == ']' || c == '(' || c == ')' || c == '{' || c == '}'
}

/// `s` with leading border characters removed.
pub open spec fn strip_border_start(s: Seq<char>) -> Seq<char>
    decreases s.len(),
{
    if s.len() > 0 && is_border(s[0]) {
        strip_border_start(s.drop_first())
    } else {
        s
    }
}

/// `s` with trailing border characters removed.
pub open spec fn strip_border_end(s: Seq<char>) -> Seq<char>
    decreases s.len(),
{
    if s.len() > 0 && is_border(s.last()) {
        strip_border_end(s.drop_last())
    } else {
        s
    }
}

/// Characters allowed in the body of a numeric cell.
pub open spec fn is_numeric_body(c: char) -> bool {
    is_digit(c) || c == ',' || c == '.' || c == ' ' || c == '\t'
}

/// Every character of `s` may appear in a numeric body.
pub open spec fn all_numeric_body(s: Seq<char>) -> bool {
    forall|k: int| 0 <= k < s.len() ==> is_numeric_body(#[trigger] s[k])
}

/// `^[*+-]?[\d,.\s]+%?$` with `\s` restricted to space and tab.
pub open spec fn numeric_pattern_a(s: Seq<char>) -> bool {
    let p: int = if s.len() > 0 && (s[0] == '*' || s[0] == '+' || s[0] == '-') {
        1
    } else {
        0
    };
    let r = s.subrange(p, s.len() as int);
    r.len() > 0 && (all_numeric_body(r) || (r.len() > 1 && r.last() == '%' && all_numeric_body(
        r.drop_last(),
    )))
}

/// `^\*?-?[\d,.\s]+$` with `\s` restricted to space and tab.
pub open spec fn numeric_pattern_b(s: Seq<char>) -> bool {
    let p1: int = if s.len() > 0 && s[0] == '*' {
        1
    } else {
        0
    };
    let p2: int = if p1 < s.len() && s[p1] == '-' {
        p1 + 1
    } else {
        p1
    };
    let r = s.subrange(p2, s.len() as int);
    r.len() > 0 && all_numeric_body(r)
}

/// Whether a cleaned OCR cell reads as a number or a numeric placeholder.
pub open spec fn looks_numeric_spec(s: Seq<char>) -> bool {
    &&& s.len() > 0
    &&& {
        ||| s == "Z/A"@
        ||| s == "N/A"@
        ||| s == "Z"@
        ||| s == "-"@
        ||| numeric_pattern_a(s)
        ||| numeric_pattern_b(s)
    }
}

/// What `clean_ocr_table_artifacts` returns for the characters `s`.
pub open spec fn clean_ocr_spec(s: Seq<char>) -> Seq<char> {
    let cleaned = trim(s);
    if cleaned.len() == 0 {
        cleaned
    } else {
        let without = strip_border_end(strip_border_start(cleaned));
        if without.len() > 0 && looks_numeric_spec(trim(without)) {
            trim(without)
        } else {
            cleaned
        }
    }
}

proof fn lemma_strip_start_skip(s: Seq<char>, i: int)
    requires
        0 <= i <= s.len(),
        forall|k: int| 0 <= k < i ==> is_border(#[trigger] s[k]),
    ensures
        strip_border_start(s) == strip_border_start(s.subrange(i, s.len() as int)),
    decreases i,
{
    if i > 0 {
        let t = s.drop_first();
        assert forall|k: int| 0 <= k < i - 1 implies is_border(#[trigger] t[k]) by {
            assert(t[k] == s[k + 1]);
        }
        lemma_strip_start_skip(t, i - 1);
        assert(t.subrange(i - 1, t.len() as int) =~= s.subrange(i, s.len() as int));
    } else {
        assert(s.subrange(0, s.len() as int) =~= s);
    }
}

proof fn lemma_strip_end_skip(s: Seq<char>, j: int)
    requires
        0 <= j <= s.len(),
        forall|k: int| j <= k < s.len() ==> is_border(#[trigger] s[k]),
    ensures
        strip_border_end(s) == strip_border_end(s.subrange(0, j)),
    decreases s.len() - j,
{
    if j < s.len() {
        let t = s.drop_last();
        assert forall|k: int| j <= k < t.len() implies is_border(#[trigger] t[k]) by {
            assert(t[k] == s[k]);
        }
        lemma_strip_end_skip(t, j);
        assert(t.subrange(0, j) =~= s.subrange(0, j));
    } else {
        assert(s.subrange(0, j) =~= s);
    }
}

fn is_border_char(c: char) -> (r: bool)
    ensures
        r == is_border(c),
{
    c == '|' || c == '[' || c == ']' || c == '(' || c == ')' || c == '{' || c == '}'
}

fn is_numeric_body_char(c: char) -> (r: bool)
    ensures
        r == is_numeric_body(c),
{
    ('0' <= c && c <= '9') || c == ',' || c == '.' || c == ' ' || c == '\t'
}

/// Strips border characters from both ends of `v`.
fn strip_borders(v: &Vec<char>) -> (r: Vec<char>)
    ensures
        r@ == strip_border_end(strip_border_start(v@)),
{
    let mut lo: usize = 0;
    while lo < v.len() && is_border_char(v[lo])
        invariant
            lo <= v.len(),
            forall|k: int| 0 <= k < lo ==> is_border(#[trigger] v@[k]),
        decreases v.len() - lo,
    {
        lo += 1;
    }
    proof {
        lemma_strip_start_skip(v@, lo as int);
    }
    let mid = copy_range(v, lo, v.len());
    let mut hi: usize = mid.len();
    while hi > 0 && is_border_char(mid[hi - 1])
        invariant
            hi <= mid.len(),
            forall|k: int| hi <= k < mid.len() ==> is_border(#[trigger] mid@[k]),
        decreases hi,
    {
        hi -= 1;
    }
    proof {
        lemma_strip_end_skip(mid@, hi as int);
    }
    copy_range(&mid, 0, hi)
}

/// Length of the longest prefix of `v[from..]` made of numeric-body
/// characters, as an end index.
fn scan_numeric_body(v: &Vec<char>, from: usize) -> (i: usize)
    requires
        from <= v.len(),
    ensures
        from <= i <= v.len(),
        forall|k: int| from <= k < i ==> is_numeric_body(#[trigger] v@[k]),
        i < v.len() ==> !is_numeric_body(v@[i as int]),
{
    let mut i = from;
    while i < v.len() && is_numeric_body_char(v[i])
        invariant
            from <= i <= v.len(),
            forall|k: int| from <= k < i ==> is_numeric_body(#[trigger] v@[k]),
        decreases v.len() - i,
    {
        i += 1;
    }
    i
}

proof fn lemma_body_run(s: Seq<char>, p: int, i: int)
    requires
        0 <= p <= i <= s.len(),
        forall|k: int| p <= k < i ==> is_numeric_body(#[trigger] s[k]),
        i < s.len() ==> !is_numeric_body(s[i]),
    ensures
        all_numeric_body(s.subrange(p, s.len() as int)) <==> i == s.len(),
        (s.subrange(p, s.len() as int).len() > 1 && s.last() == '%' && all_numeric_body(
            s.subrange(p, s.len() as int).drop_last(),
        )) <==> (i == s.len() - 1 && i > p && s[i] == '%'),
{
    let r = s.subrange(p, s.len() as int);
    if i == s.len() {
        assert forall|k: int| 0 <= k < r.len() implies is_numeric_body(#[trigger] r[k]) by {
            assert(r[k] == s[p + k]);
        }
    } else {
        assert(r[i - p] == s[i]);
        assert(!all_numeric_body(r));
    }
    if i == s.len() - 1 && i > p && s[i] == '%' {
        let d = r.drop_last();
        assert forall|k: int| 0 <= k < d.len() implies is_numeric_body(#[trigger] d[k]) by {
            assert(d[k] == s[p + k]);
        }
    }
    if r.len() > 1 && s.last() == '%' && all_numeric_body(r.drop_last()) {
        let d = r.drop_last();
        if i < s.len() - 1 {
            assert(d[i - p] == s[i]);
        }
        if i == s.len() {
            assert(is_numeric_body(s[s.len() - 1]));
        }
    }
}

/// Whether a cleaned OCR cell reads as a number or a numeric placeholder.
pub fn looks_numeric(s: &Vec<char>) -> (r: bool)
    ensures
        r == looks_numeric_spec(s@),
{
    if s.len() == 0 {
        return false;
    }
    if chars_eq_str(s, "Z/A") || chars_eq_str(s, "N/A") || chars_eq_str(s, "Z") || chars_eq_str(
        s,
        "-",
    ) {
        return true;
    }
    // Pattern A.
    let p: usize = if s[0] == '*' || s[0] == '+' || s[0] == '-' {
        1
    } else {
        0
    };
    let i = scan_numeric_body(s, p);
    let ok_body = i > p;
    let mut j = i;
    if j < s.len() && s[j] == '%' {
        j += 1;
    }
    proof {
        lemma_body_run(s@, p as int, i as int);
    }
    if ok_body && j == s.len() {
        return true;
    }
    assert(!numeric_pattern_a(s@));
    // Pattern B.
    let mut q: usize = 0;
    if s[q] == '*' {
        q += 1;
    }
    if q < s.len() && s[q] == '-' {
        q += 1;
    }
    let k = scan_numeric_body(s, q);
    proof {
        lemma_body_run(s@, q as int, k as int);
    }
    k > q && k == s.len()
}

/// Clean common OCR artifacts from table documents. OCR often misreads
/// vertical table borders as bracket/pipe characters at the start or end of
/// cell content; when the remaining core looks numeric they are stripped.
pub fn clean_ocr_table_artifacts(text: &str) -> (out: String)
    ensures
        out@ == clean_ocr_spec(text@),
        out@ == trim(out@),
{
    let chars = chars_of(text);
    let cleaned = trim_vec(&chars);
    proof {
        lemma_trim_shape(text@);
        lemma_trim_idempotent(text@);
    }
    if cleaned.len() == 0 {
        return string_of(&cleaned);
    }
    let without = strip_borders(&cleaned);
    if without.len() > 0 {
        let core = trim_vec(&without);
        if looks_numeric(&core) {
            proof {
                lemma_trim_idempotent(without@);
            }
            return string_of(&core);
        }
    }
    string_of(&cleaned)
}

/// Trimming twice is trimming once.
pub proof fn lemma_trim_idempotent(s: Seq<char>)
    ensures
        trim(trim(s)) == trim(s),
{
    lemma_trim_shape(s);
    let t = trim(s);
    if t.len() > 0 {
        assert(!crate::text::is_ws(t[0]));
        assert(!crate::text::is_ws(t.last()));
    }
}

/// A cell that reads as numeric neither starts nor ends with a border
/// character.
proof fn lemma_numeric_has_no_border_ends(x: Seq<char>)
    requires
        looks_numeric_spec(x),
    ensures
        !is_border(x[0]),
        !is_border(x.last()),
{
    if numeric_pattern_a(x) && !(x == "Z/A"@ || x == "N/A"@ || x == "Z"@ || x == "-"@) {
        let p: int = if x[0] == '*' || x[0] == '+' || x[0] == '-' { 1 } else { 0 };
        let r = x.subrange(p, x.len() as int);
        if p == 0 {
            if all_numeric_body(r) {
                assert(is_numeric_body(r[0]));
            } else {
                assert(is_numeric_body(r.drop_last()[0]));
            }
        }
        if all_numeric_body(r) {
            assert(is_numeric_body(r[r.len() - 1]));
        }
        assert(r.last() == x.last());
    } else if numeric_pattern_b(x) && !(x == "Z/A"@ || x == "N/A"@ || x == "Z"@ || x == "-"@) {
        let p1: int = if x[0] == '*' { 1 } else { 0 };
        let p2: int = if p1 < x.len() && x[p1] == '-' { p1 + 1 } else { p1 };
        let r = x.subrange(p2, x.len() as int);
        if p2 == 0 {
            assert(is_numeric_body(r[0]));
        }
        assert(is_numeric_body(r[r.len() - 1]));
        assert(r.last() == x.last());
    } else {
        if x == "Z/A"@ || x == "N/A"@ || x == "Z"@ || x == "-"@ {
            reveal_strlit("Z/A");
            reveal_strlit("N/A");
            reveal_strlit("Z");
            reveal_strlit("-");
        }
    }
}

/// Cleaning a cleaned cell changes nothing: the result of
/// `clean_ocr_table_artifacts` is a fixed point of it.
pub proof fn clean_ocr_table_artifacts_idempotent(s: Seq<char>)
    ensures
        clean_ocr_spec(clean_ocr_spec(s)) == clean_ocr_spec(s),
{
    lemma_trim_idempotent(s);
    let c = trim(s);
    if c.len() > 0 {
        let w = strip_border_end(strip_border_start(c));
        if w.len() > 0 && looks_numeric_spec(trim(w)) {
            let core = trim(w);
            lemma_trim_idempotent(w);
            lemma_numeric_has_no_border_ends(core);
            assert(strip_border_start(core) == core);
            assert(strip_border_end(core) == core);
        }
    } else {
        assert(trim(c) =~= c) by {
            assert(trim_start(c) == c);
            assert(trim_end(c) == c);
        }
    }
}

/// Every cell of the form `^[*+-]?[0-9,. \t]+%?$` reads as numeric: an
/// optional sign `sign`, a non-empty body of digits, separators, spaces
/// and tabs, and an optional percent sign `pct`.
pub proof fn numeric_cells_read_as_numeric(sign: Seq<char>, body: Seq<char>, pct: Seq<char>)
    requires
        sign.len() <= 1,
        sign.len() == 1 ==> sign[0] == '*' || sign[0] == '+' || sign[0] == '-',
        body.len() > 0,
        forall|k: int|
            0 <= k < body.len() ==> ('0' <= #[trigger] body[k] && body[k] <= '9') || body[k] == ','
                || body[k] == '.' || body[k] == ' ' || body[k] == '\t',
        pct.len() <= 1,
        pct.len() == 1 ==> pct[0] == '%',
    ensures
        looks_numeric_spec(sign + body + pct),
{
    let s = sign + body + pct;
    let r = body + pct;
    assert forall|k: int| 0 <= k < body.len() implies is_numeric_body(#[trigger] body[k]) by {}
    if sign.len() == 1 {
        assert(s[0] == sign[0]);
        assert(s.subrange(1, s.len() as int) =~= r);
    } else {
        assert(s =~= r);
        assert(s[0] == body[0]);
        assert(s.subrange(0, s.len() as int) =~= r);
    }
    if pct.len() == 1 {
        assert(r.last() == '%');
        assert(r.drop_last() =~= body);
    } else {
        assert(r =~= body);
    }
    assert(numeric_pattern_a(s));
}

/// Only numbers and the placeholders `Z/A`, `N/A`, `Z` and `-` read as
/// numeric: apart from a placeholder, every character of such a cell is a
/// digit, `,`, `.`, a space or a tab, except a leading `*`, `+` or `-`
/// (or `*-`) and a trailing `%`; and some character is none of those
/// exceptions.
pub proof fn numeric_cells_are_numbers(s: Seq<char>)
    requires
        looks_numeric_spec(s),
        !(s == "Z/A"@ || s == "N/A"@ || s == "Z"@ || s == "-"@),
    ensures
        forall|k: int|
            0 <= k < s.len() ==> ('0' <= #[trigger] s[k] && s[k] <= '9') || s[k] == ',' || s[k]
                == '.' || s[k] == ' ' || s[k] == '\t' || (k == 0 && (s[k] == '*' || s[k] == '+'
                || s[k] == '-')) || (k == 1 && s[0] == '*' && s[k] == '-') || (k == s.len() - 1
                && s[k] == '%'),
        exists|k: int|
            0 <= k < s.len() && (('0' <= #[trigger] s[k] && s[k] <= '9') || s[k] == ',' || s[k]
                == '.' || s[k] == ' ' || s[k] == '\t'),
{
    if numeric_pattern_a(s) {
        let p: int = if s.len() > 0 && (s[0] == '*' || s[0] == '+' || s[0] == '-') { 1 } else { 0 };
        let r = s.subrange(p, s.len() as int);
        assert forall|k: int| p <= k < s.len() implies r[k - p] == #[trigger] s[k] by {}
        if all_numeric_body(r) {
            assert(is_numeric_body(r[0]));
            assert(r[0] == s[p]);
        } else {
            assert(is_numeric_body(r.drop_last()[0]));
            assert(r[0] == s[p]);
            assert forall|k: int| p <= k < s.len() - 1 implies is_numeric_body(#[trigger] s[k]) by {
                assert(r.drop_last()[k - p] == s[k]);
            }
        }
    } else {
        let p1: int = if s.len() > 0 && s[0] == '*' { 1 } else { 0 };
        let p2: int = if p1 < s.len() && s[p1] == '-' { p1 + 1 } else { p1 };
        let r = s.subrange(p2, s.len() as int);
        assert(numeric_pattern_b(s));
        assert forall|k: int| p2 <= k < s.len() implies is_numeric_body(#[trigger] s[k]) by {
            assert(r[k - p2] == s[k]);
        }
        assert(r[0] == s[p2]);
    }
}

/// A numeric cell (digits with thousands or decimal separators) keeps
/// its number and loses a border pipe that OCR read at either end.
pub proof fn numeric_cell_loses_border_pipe(d: Seq<char>)
    requires
        d.len() > 0,
        forall|k: int|
            0 <= k < d.len() ==> ('0' <= #[trigger] d[k] && d[k] <= '9') || d[k] == ',' || d[k]
                == '.',
    ensures
        clean_ocr_spec(d.push('|')) == d,
        clean_ocr_spec(seq!['|'] + d) == d,
{
    assert forall|k: int| 0 <= k < d.len() implies !is_border(#[trigger] d[k]) && !crate::text::is_ws(d[k]) by {}
    // `d` is trimmed already.
    assert(!crate::text::is_ws(d[0]));
    assert(!crate::text::is_ws(d.last()));
    assert(trim_start(d) == d);
    assert(trim_end(d) == d);
    numeric_cells_read_as_numeric(Seq::empty(), d, Seq::empty());
    assert(Seq::<char>::empty() + d + Seq::<char>::empty() =~= d);
    // A pipe after it.
    let a = d.push('|');
    assert(a[0] == d[0]);
    assert(a.last() == '|');
    assert(trim_start(a) == a);
    assert(trim_end(a) == a);
    assert(strip_border_start(a) == a);
    assert(a.drop_last() =~= d);
    assert(strip_border_end(d) == d);
    assert(strip_border_end(a) == d);
    // A pipe before it.
    let b = seq!['|'] + d;
    assert(b[0] == '|');
    assert(b.last() == d.last());
    assert(trim_start(b) == b);
    assert(trim_end(b) == b);
    assert(b.drop_first() =~= d);
    assert(strip_border_start(d) == d);
    assert(strip_border_start(b) == d);
}

/// Unicode subscript form of `c`, when one exists.
pub open spec fn subscript_of(c: char) -> Option<char> {
    match c {
        '0' => Some('₀'),
        '1' => Some('₁'),
        '2' => Some('₂'),
        '3' => Some('₃'),
        '4' => Some('₄'),
        '5' => Some('₅'),
        '6' => Some('₆'),
        '7' => Some('₇'),
        '8' => Some('₈'),
        '9' => Some('₉'),
        '+' => Some('₊'),
        '-' => Some('₋'),
        'a' => Some('ₐ'),
        'e' => Some('ₑ'),
        'o' => Some('ₒ'),
        'x' => Some('ₓ'),
        'ə' => Some('ₔ'),
        'h' => Some('ₕ'),
        'k' => Some('ₖ'),
        'l' => Some('ₗ'),
        'm' => Some('ₘ'),
        'n' => Some('ₙ'),
        'p' => Some('ₚ'),
        'r' => Some('ᵣ'),
        's' => Some('ₛ'),
        't' => Some('ₜ'),
        _ => None,
    }
}

/// Unicode superscript form of `c`, when one exists.
pub open spec fn superscript_of(c: char) -> Option<char> {
    match c {
        '0' => Some('⁰'),
        '1' => Some('¹'),
        '2' => Some('²'),
        '3' => Some('³'),
        '4' => Some('⁴'),
        '5' => Some('⁵'),
        '6' => Some('⁶'),
        '7' => Some('⁷'),
        '8' => Some('⁸'),
        '9' => Some('⁹'),
        '+' => Some('⁺'),
        '-' => Some('⁻'),
        'a' => Some('ᵃ'),
        'b' => Some('ᵇ'),
        'c' => Some('ᶜ'),
        'd' => Some('ᵈ'),
        'e' => Some('ᵉ'),
        'f' => Some('ᶠ'),
        'g' => Some('ᵍ'),
        'h' => Some('ʰ'),
        'i' => Some('ⁱ'),
        'j' => Some('ʲ'),
        'k' => Some('ᵏ'),
        'l' => Some('ˡ'),
        'm' => Some('ᵐ'),
        'n' => Some('ⁿ'),
        'o' => Some('ᵒ'),
        'p' => Some('ᵖ'),
        'r' => Some('ʳ'),
        's' => Some('ˢ'),
        't' => Some('ᵗ'),
        'u' => Some('ᵘ'),
        'v' => Some('ᵛ'),
        'w' => Some('ʷ'),
        'x' => Some('ˣ'),
        'y' => Some('ʸ'),
        'z' => Some('ᶻ'),
        'A' => Some('ᴬ'),
        'B' => Some('ᴮ'),
        'D' => Some('ᴰ'),
        'E' => Some('ᴱ'),
        'G' => Some('ᴳ'),
        'H' => Some('ᴴ'),
        'I' => Some('ᴵ'),
        'J' => Some('ᴶ'),
        'K' => Some('ᴷ'),
        'L' => Some('ᴸ'),
        'M' => Some('ᴹ'),
        'N' => Some('ᴺ'),
        'O' => Some('ᴼ'),
        'P' => Some('ᴾ'),
        'R' => Some('ᴿ'),
        'T' => Some('ᵀ'),
        'U' => Some('ᵁ'),
        'V' => Some('ⱽ'),
        'W' => Some('ᵂ'),
        _ => None,
    }
}

/// Maps every character of `s` through `f`, or gives back `s` itself when
/// some character has no image.
pub open spec fn map_all_or_keep(s: Seq<char>, f: spec_fn(char) -> Option<char>) -> Seq<char> {
    if forall|k: int| 0 <= k < s.len() ==> (#[trigger] f(s[k])) is Some {
        s.map_values(|c: char| f(c)->0)
    } else {
        s
    }
}

fn subscript_for(c: char) -> (r: Option<char>)
    ensures
        r == subscript_of(c),
{
    match c {
        '0' => Some('₀'),
        '1' => Some('₁'),
        '2' => Some('₂'),
        '3' => Some('₃'),
        '4' => Some('₄'),
        '5' => Some('₅'),
        '6' => Some('₆'),
        '7' => Some('₇'),
        '8' => Some('₈'),
        '9' => Some('₉'),
        '+' => Some('₊'),
        '-' => Some('₋'),
        'a' => Some('ₐ'),
        'e' => Some('ₑ'),
        'o' => Some('ₒ'),
        'x' => Some('ₓ'),
        'ə' => Some('ₔ'),
        'h' => Some('ₕ'),
        'k' => Some('ₖ'),
        'l' => Some('ₗ'),
        'm' => Some('ₘ'),
        'n' => Some('ₙ'),
        'p' => Some('ₚ'),
        'r' => Some('ᵣ'),
        's' => Some('ₛ'),
        't' => Some('ₜ'),
        _ => None,
    }
}

fn superscript_for(c: char) -> (r: Option<char>)
    ensures
        r == superscript_of(c),
{
    match c {
        '0' => Some('⁰'),
        '1' => Some('¹'),
        '2' => Some('²'),
        '3' => Some('³'),
        '4' => Some('⁴'),
        '5' => Some('⁵'),
        '6' => Some('⁶'),
        '7' => Some('⁷'),
        '8' => Some('⁸'),
        '9' => Some('⁹'),
        '+' => Some('⁺'),
        '-' => Some('⁻'),
        'a' => Some('ᵃ'),
        'b' => Some('ᵇ'),
        'c' => Some('ᶜ'),
        'd' => Some('ᵈ'),
        'e' => Some('ᵉ'),
        'f' => Some('ᶠ'),
        'g' => Some('ᵍ'),
        'h' => Some('ʰ'),
        'i' => Some('ⁱ'),
        'j' => Some('ʲ'),
        'k' => Some('ᵏ'),
        'l' => Some('ˡ'),
        'm' => Some('ᵐ'),
        'n' => Some('ⁿ'),
        'o' => Some('ᵒ'),
        'p' => Some('ᵖ'),
        'r' => Some('ʳ'),
        's' => Some('ˢ'),
        't' => Some('ᵗ'),
        'u' => Some('ᵘ'),
        'v' => Some('ᵛ'),
        'w' => Some('ʷ'),
        'x' => Some('ˣ'),
        'y' => Some('ʸ'),
        'z' => Some('ᶻ'),
        'A' => Some('ᴬ'),
        'B' => Some('ᴮ'),
        'D' => Some('ᴰ'),
        'E' => Some('ᴱ'),
        'G' => Some('ᴳ'),
        'H' => Some('ᴴ'),
        'I' => Some('ᴵ'),
        'J' => Some('ᴶ'),
        'K' => Some('ᴷ'),
        'L' => Some('ᴸ'),
        'M' => Some('ᴹ'),
        'N' => Some('ᴺ'),
        'O' => Some('ᴼ'),
        'P' => Some('ᴾ'),
        'R' => Some('ᴿ'),
        'T' => Some('ᵀ'),
        'U' => Some('ᵁ'),
        'V' => Some('ⱽ'),
        'W' => Some('ᵂ'),
        _ => None,
    }
}

/// Convert a string to Unicode subscript characters, or return the input
/// unchanged if any character has no subscript form.
pub fn str_to_subscript_string(s: &str) -> (out: String)
    ensures
        out@ == map_all_or_keep(s@, |c: char| subscript_of(c)),
        out@.len() == s@.len(),
{
    let chars = chars_of(s);
    let mut out: Vec<char> = Vec::new();
    let mut i: usize = 0;
    while i < chars.len()
        invariant
            i <= chars.len(),
            chars@ == s@,
            out@.len() == i,
            forall|k: int| 0 <= k < i ==> (#[trigger] subscript_of(chars@[k])) is Some && out@[k]
                == subscript_of(chars@[k])->0,
        decreases chars.len() - i,
    {
        match subscript_for(chars[i]) {
            Some(sub) => out.push(sub),
            None => {
                proof {
                    let f = |c: char| subscript_of(c);
                    assert(f(s@[i as int]) is None);
                }
                return s.to_owned();
            },
        }
        i += 1;
    }
    assert(out@ =~= s@.map_values(|c: char| subscript_of(c)->0));
    string_of(&out)
}

/// Convert a string to Unicode superscript characters, or return the input
/// unchanged if any character has no superscript form.
pub fn str_to_post_script(s: &str) -> (out: String)
    ensures
        out@ == map_all_or_keep(s@, |c: char| superscript_of(c)),
        out@.len() == s@.len(),
{
    let chars = chars_of(s);
    let mut out: Vec<char> = Vec::new();
    let mut i: usize = 0;
    while i < chars.len()
        invariant
            i <= chars.len(),
            chars@ == s@,
            out@.len() == i,
            forall|k: int| 0 <= k < i ==> (#[trigger] superscript_of(chars@[k])) is Some && out@[k]
                == superscript_of(chars@[k])->0,
        decreases chars.len() - i,
    {
        match superscript_for(chars[i]) {
            Some(sup) => out.push(sup),
            None => {
                proof {
                    let f = |c: char| superscript_of(c);
                    assert(f(s@[i as int]) is None);
                }
                return s.to_owned();
            },
        }
        i += 1;
    }
    assert(out@ =~= s@.map_values(|c: char| superscript_of(c)->0));
    string_of(&out)
}

} // verus!
