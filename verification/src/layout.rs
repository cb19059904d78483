//! Page-text passes that work on strings alone: line tidying after grid
//! projection, joining page texts, and detection of broken CID text
//! layers.

use vstd::prelude::*;

use crate::ocr::char_is_alphanumeric;
use crate::text::{
    append_chars, chars_eq, chars_eq_str, chars_of, is_ws, join_seq, join_vecs, split_on,
    split_vec, string_of, trim, trim_end, trim_end_vec, trim_vec,
};

verus! {

/// `s` without one trailing `'\r'`.
pub open spec fn strip_cr(s: Seq<char>) -> Seq<char> {
    if s.len() > 0 && s.last() == '\r' {
        s.drop_last()
    } else {
        s
    }
}

/// The lines of `s`, as `str::lines` yields them: split at `'\n'`, no
/// final empty line for a trailing terminator, one trailing `'\r'`
/// removed from each line.
pub open spec fn lines_of(s: Seq<char>) -> Seq<Seq<char>> {
    let p = split_on(s, '\n');
    let q = if p.last().len() == 0 {
        p.drop_last()
    } else {
        p
    };
    q.map_values(|l: Seq<char>| strip_cr(l))
}

/// Exec form of [`lines_of`].
pub fn lines_vec(s: &Vec<char>) -> (r: Vec<Vec<char>>)
    ensures
        r@.map_values(|v: Vec<char>| v@) == lines_of(s@),
{
    let mut pieces = split_vec(s, '\n');
    let ghost p = pieces@.map_values(|v: Vec<char>| v@);
    if pieces[pieces.len() - 1].len() == 0 {
        pieces.pop();
        assert(pieces@.map_values(|v: Vec<char>| v@) =~= p.drop_last());
    }
    let ghost q = pieces@.map_values(|v: Vec<char>| v@);
    let mut out: Vec<Vec<char>> = Vec::new();
    let mut i: usize = 0;
    while i < pieces.len()
        invariant
            i <= pieces.len(),
            q == pieces@.map_values(|v: Vec<char>| v@),
            out@.len() == i,
            forall|k: int| 0 <= k < i ==> #[trigger] out@[k]@ == strip_cr(q[k]),
        decreases pieces.len() - i,
    {
        let l = &pieces[i];
        let mut m: Vec<char> = crate::text::copy_range(l, 0, l.len());
        assert(m@ =~= l@);
        if m.len() > 0 && m[m.len() - 1] == '\r' {
            m.pop();
        }
        assert(m@ == strip_cr(q[i as int]));
        out.push(m);
        i += 1;
    }
    assert(out@.map_values(|v: Vec<char>| v@) =~= q.map_values(|l: Seq<char>| strip_cr(l)));
    out
}

/// A line is blank when nothing but whitespace is on it.
pub open spec fn is_blank(line: Seq<char>) -> bool {
    trim_end(line).len() == 0
}

/// The lines a tidied layout keeps, in order: every line with its trailing
/// whitespace removed, except a blank line that directly follows another
/// blank line (so a run of blank lines becomes one).
pub open spec fn tidy_lines(lines: Seq<Seq<char>>) -> Seq<Seq<char>>
    decreases lines.len(),
{
    if lines.len() == 0 {
        Seq::empty()
    } else {
        let rest = tidy_lines(lines.drop_last());
        if is_blank(lines.last()) && lines.len() >= 2 && is_blank(lines[lines.len() - 2]) {
            rest
        } else {
            rest.push(trim_end(lines.last()))
        }
    }
}

/// What `tidy_layout` returns for the characters `s`: its kept lines
/// ([`tidy_lines`]) joined by line breaks. Intra-line column padding stays.
pub open spec fn tidy_layout_spec(s: Seq<char>) -> Seq<char> {
    join_seq(tidy_lines(lines_of(s)), "\n"@)
}

/// Strip trailing whitespace per line and collapse runs of blank lines
/// into one. Preserves intra-line column padding.
pub fn tidy_layout(input: &str) -> (r: String)
    ensures
        r@ == tidy_layout_spec(input@),
{
    let lines = lines_vec(&chars_of(input));
    let ghost ls = lines@.map_values(|v: Vec<char>| v@);
    let mut kept: Vec<Vec<char>> = Vec::new();
    let mut prev_blank = false;
    let mut i: usize = 0;
    while i < lines.len()
        invariant
            i <= lines.len(),
            ls == lines@.map_values(|v: Vec<char>| v@),
            kept@.map_values(|v: Vec<char>| v@) == tidy_lines(ls.take(i as int)),
            prev_blank == (i > 0 && is_blank(ls[i - 1])),
        decreases lines.len() - i,
    {
        proof {
            assert(ls.take(i + 1).drop_last() =~= ls.take(i as int));
            assert(ls.take(i + 1).last() == lines@[i as int]@);
            if i > 0 {
                assert(ls.take(i + 1)[i - 1] == ls[i - 1]);
            }
        }
        let trimmed = trim_end_vec(&lines[i]);
        let blank = trimmed.len() == 0;
        if !(blank && prev_blank) {
            let ghost before = kept@.map_values(|v: Vec<char>| v@);
            kept.push(trimmed);
            assert(kept@.map_values(|v: Vec<char>| v@) =~= before.push(trim_end(ls[i as int])));
        }
        prev_blank = blank;
        i += 1;
    }
    assert(ls.take(lines.len() as int) =~= ls);
    let out = join_vecs(&kept, "\n");
    string_of(&out)
}

/// The pieces of a split never hold the separator.
proof fn lemma_split_no_sep(s: Seq<char>, sep: char)
    ensures
        forall|i: int, k: int|
            0 <= i < split_on(s, sep).len() && 0 <= k < split_on(s, sep)[i].len()
                ==> #[trigger] split_on(s, sep)[i][k] != sep,
    decreases s.len(),
{
    if s.len() > 0 {
        lemma_split_no_sep(s.drop_last(), sep);
        crate::text::lemma_split_nonempty(s.drop_last(), sep);
        let r = split_on(s.drop_last(), sep);
        let p = split_on(s, sep);
        if s.last() == sep {
            assert forall|i: int, k: int| 0 <= i < p.len() && 0 <= k < p[i].len() implies #[trigger] p[i][k]
                != sep by {
                assert(p[i] == r.push(Seq::empty())[i]);
                if i < r.len() {
                    assert(p[i] == r[i]);
                }
            }
        } else {
            let last = r.last().push(s.last());
            assert forall|i: int, k: int| 0 <= i < p.len() && 0 <= k < p[i].len() implies #[trigger] p[i][k]
                != sep by {
                if i < r.len() - 1 {
                    assert(p[i] == r[i]);
                } else {
                    assert(p[i] == last);
                    if k < last.len() - 1 {
                        assert(last[k] == r.last()[k]);
                        assert(r[r.len() - 1][k] != sep);
                    }
                }
            }
        }
    }
}

/// The lines of a string hold no line break.
proof fn lemma_lines_no_newline(s: Seq<char>)
    ensures
        forall|i: int, k: int|
            0 <= i < lines_of(s).len() && 0 <= k < lines_of(s)[i].len() ==> #[trigger] lines_of(
                s,
            )[i][k] != '\n',
{
    lemma_split_no_sep(s, '\n');
    crate::text::lemma_split_nonempty(s, '\n');
    let p = split_on(s, '\n');
    let q = if p.last().len() == 0 {
        p.drop_last()
    } else {
        p
    };
    assert forall|i: int, k: int|
        0 <= i < lines_of(s).len() && 0 <= k < lines_of(s)[i].len() implies #[trigger] lines_of(
        s,
    )[i][k] != '\n' by {
        assert(lines_of(s)[i] == strip_cr(q[i]));
        assert(q[i] == p[i]);
        assert(strip_cr(q[i])[k] == q[i][k]);
    }
}

/// Kept lines are trimmed lines of the input, or the tail of the kept
/// lines of a shorter input.
proof fn lemma_tidy_lines_shape(lines: Seq<Seq<char>>)
    ensures
        forall|k: int|
            0 <= k < tidy_lines(lines).len() ==> exists|j: int|
                0 <= j < lines.len() && #[trigger] tidy_lines(lines)[k] == trim_end(lines[j]),
        forall|k: int|
            0 <= k < tidy_lines(lines).len() - 1 ==> !(#[trigger] tidy_lines(lines)[k].len() == 0
                && tidy_lines(lines)[k + 1].len() == 0),
        lines.len() > 0 && is_blank(lines.last()) ==> tidy_lines(lines).len() > 0
            && tidy_lines(lines).last().len() == 0,
        lines.len() > 0 && !is_blank(lines.last()) ==> tidy_lines(lines).len() > 0
            && tidy_lines(lines).last() == trim_end(lines.last()),
    decreases lines.len(),
{
    if lines.len() > 0 {
        let d = lines.drop_last();
        lemma_tidy_lines_shape(d);
        let rest = tidy_lines(d);
        let t = tidy_lines(lines);
        if is_blank(lines.last()) && lines.len() >= 2 && is_blank(lines[lines.len() - 2]) {
            assert(d.last() == lines[lines.len() - 2]);
            assert forall|k: int| 0 <= k < t.len() implies exists|j: int|
                0 <= j < lines.len() && #[trigger] t[k] == trim_end(lines[j]) by {
                let j = choose|j: int| 0 <= j < d.len() && rest[k] == trim_end(d[j]);
                assert(lines[j] == d[j]);
            }
        } else {
            assert forall|k: int| 0 <= k < t.len() implies exists|j: int|
                0 <= j < lines.len() && #[trigger] t[k] == trim_end(lines[j]) by {
                if k < rest.len() {
                    let j = choose|j: int| 0 <= j < d.len() && rest[k] == trim_end(d[j]);
                    assert(lines[j] == d[j]);
                    assert(t[k] == rest[k]);
                } else {
                    assert(t[k] == trim_end(lines[lines.len() - 1]));
                }
            }
            assert forall|k: int| 0 <= k < t.len() - 1 implies !(#[trigger] t[k].len() == 0
                && t[k + 1].len() == 0) by {
                assert(t[k] == rest[k]);
                if k + 1 < rest.len() {
                    assert(t[k + 1] == rest[k + 1]);
                } else if is_blank(lines.last()) {
                    assert(d.len() >= 1 ==> d.last() == lines[lines.len() - 2]);
                    assert(!is_blank(d.last()));
                    assert(rest.last() == trim_end(d.last()));
                }
            }
        }
    }
}

/// A tidied layout's kept lines carry no trailing whitespace and no line
/// break, and no two blank lines stand next to each other: runs of blank
/// lines are collapsed, never lengthened.
pub proof fn tidy_layout_lines_are_tidy(s: Seq<char>)
    ensures
        ({
            let t = tidy_lines(lines_of(s));
            &&& tidy_layout_spec(s) == join_seq(t, "\n"@)
            &&& forall|k: int| 0 <= k < t.len() ==> trim_end(#[trigger] t[k]) == t[k]
            &&& forall|k: int, m: int| 0 <= k < t.len() && 0 <= m < t[k].len() ==> #[trigger] t[k][m]
                != '\n'
            &&& forall|k: int|
                0 <= k < t.len() - 1 ==> !(#[trigger] t[k].len() == 0 && t[k + 1].len() == 0)
            &&& t.len() <= lines_of(s).len()
        }),
{
    let ls = lines_of(s);
    lemma_lines_no_newline(s);
    lemma_tidy_lines_shape(ls);
    lemma_tidy_lines_len(ls);
    let t = tidy_lines(ls);
    assert forall|k: int| 0 <= k < t.len() implies trim_end(#[trigger] t[k]) == t[k] by {
        let j = choose|j: int| 0 <= j < ls.len() && t[k] == trim_end(ls[j]);
        crate::text::lemma_trim_shape(ls[j]);
        lemma_trim_end_fixed(trim_end(ls[j]));
    }
    assert forall|k: int, m: int| 0 <= k < t.len() && 0 <= m < t[k].len() implies #[trigger] t[k][m]
        != '\n' by {
        let j = choose|j: int| 0 <= j < ls.len() && t[k] == trim_end(ls[j]);
        crate::text::lemma_trim_shape(ls[j]);
        assert(t[k][m] == ls[j][m]);
    }
}

proof fn lemma_tidy_lines_len(lines: Seq<Seq<char>>)
    ensures
        tidy_lines(lines).len() <= lines.len(),
    decreases lines.len(),
{
    if lines.len() > 0 {
        lemma_tidy_lines_len(lines.drop_last());
    }
}

/// Trimming the end of a line that does not end in whitespace changes
/// nothing.
proof fn lemma_trim_end_fixed(s: Seq<char>)
    requires
        s.len() == 0 || !is_ws(s.last()),
    ensures
        trim_end(s) == s,
{
}

/// Render a document's text: the page texts joined by a blank line.
pub fn format_text(page_texts: &Vec<String>) -> (r: String)
    ensures
        r@ == join_seq(page_texts@.map_values(|s: String| s@), "\n\n"@),
{
    crate::text::join_strings(page_texts, "\n\n")
}

/// The non-empty trimmed strings of `items`, in order.
pub open spec fn tokens(items: Seq<Seq<char>>) -> Seq<Seq<char>>
    decreases items.len(),
{
    if items.len() == 0 {
        Seq::empty()
    } else {
        let r = tokens(items.drop_last());
        let t = trim(items.last());
        if t.len() > 0 {
            r.push(t)
        } else {
            r
        }
    }
}

/// `s` without repeated elements, first occurrences kept in order.
pub open spec fn dedup(s: Seq<Seq<char>>) -> Seq<Seq<char>>
    decreases s.len(),
{
    if s.len() == 0 {
        Seq::empty()
    } else {
        let d = dedup(s.drop_last());
        if d.contains(s.last()) {
            d
        } else {
            d.push(s.last())
        }
    }
}

/// How many elements of `s` satisfy `p`.
pub open spec fn count_where(s: Seq<Seq<char>>, p: spec_fn(Seq<char>) -> bool) -> nat
    decreases s.len(),
{
    if s.len() == 0 {
        0
    } else {
        count_where(s.drop_last(), p) + if p(s.last()) {
            1nat
        } else {
            0nat
        }
    }
}

/// Tokens that a broken ToUnicode map makes pdfium emit: ligature names.
pub open spec fn ligature_tokens() -> Seq<Seq<char>> {
    seq![
        "fi"@,
        "fl"@,
        "ff"@,
        "ffi"@,
        "ffl"@,
        "ft"@,
        "st"@,
        "\u{fb00}"@,
        "\u{fb01}"@,
        "\u{fb02}"@,
        "\u{fb03}"@,
        "\u{fb04}"@,
    ]
}

/// A ligature token, or a single non-alphanumeric glyph.
pub open spec fn is_garbage_token(t: Seq<char>) -> bool {
    ligature_tokens().contains(t) || (t.len() == 1 && !char_is_alphanumeric(t[0]))
}

/// A page's text layer is CID garbage when it has at least twelve
/// non-empty items, fewer than five distinct ones, and more than 70 % of
/// them are ligature tokens or lone symbols. Below those thresholds the
/// layer is kept: a little noise is better than wiping a real page.
pub open spec fn is_cid_garbage_spec(items: Seq<Seq<char>>) -> bool {
    let toks = tokens(items);
    &&& toks.len() >= 12
    &&& dedup(toks).len() < 5
    &&& count_where(toks, |t: Seq<char>| is_garbage_token(t)) * 10 > toks.len() * 7
}

fn ligature_list() -> (v: Vec<&'static str>)
    ensures
        v@.map_values(|s: &'static str| s@) == ligature_tokens(),
{
    let v = vec![
        "fi",
        "fl",
        "ff",
        "ffi",
        "ffl",
        "ft",
        "st",
        "\u{fb00}",
        "\u{fb01}",
        "\u{fb02}",
        "\u{fb03}",
        "\u{fb04}",
    ];
    assert(v@.map_values(|s: &'static str| s@) =~= ligature_tokens());
    v
}

/// Whether a token counts as garbage.
fn is_garbage(t: &Vec<char>, ligatures: &Vec<&'static str>) -> (r: bool)
    requires
        ligatures@.map_values(|s: &'static str| s@) == ligature_tokens(),
    ensures
        r == is_garbage_token(t@),
{
    let mut k: usize = 0;
    while k < ligatures.len()
        invariant
            k <= ligatures.len(),
            ligatures@.map_values(|s: &'static str| s@) == ligature_tokens(),
            forall|j: int| 0 <= j < k ==> ligature_tokens()[j] != t@,
        decreases ligatures.len() - k,
    {
        assert(ligature_tokens()[k as int] == ligatures@[k as int]@);
        if chars_eq_str(t, ligatures[k]) {
            assert(ligature_tokens().contains(t@));
            return true;
        }
        k += 1;
    }
    if t.len() == 1 {
        !crate::ocr::is_alphanumeric(t[0])
    } else {
        false
    }
}

fn contains_chars(set: &Vec<Vec<char>>, t: &Vec<char>) -> (r: bool)
    ensures
        r == set@.map_values(|v: Vec<char>| v@).contains(t@),
{
    let ghost sv = set@.map_values(|v: Vec<char>| v@);
    let mut k: usize = 0;
    while k < set.len()
        invariant
            k <= set.len(),
            sv == set@.map_values(|v: Vec<char>| v@),
            forall|j: int| 0 <= j < k ==> sv[j] != t@,
        decreases set.len() - k,
    {
        if chars_eq(&set[k], t) {
            assert(sv[k as int] == t@);
            return true;
        }
        k += 1;
    }
    false
}

/// Detect a broken CID / missing-ToUnicode text layer from the strings of
/// a page's text items: pdfium then maps every glyph to a ligature name,
/// giving streams like `fi fi ff fi`.
pub fn is_cid_garbage_layer(item_texts: &Vec<String>) -> (r: bool)
    ensures
        r == is_cid_garbage_spec(item_texts@.map_values(|s: String| s@)),
{
    let ghost items = item_texts@.map_values(|s: String| s@);
    let ligatures = ligature_list();
    let mut total: usize = 0;
    let mut hits: usize = 0;
    let mut vocab: Vec<Vec<char>> = Vec::new();
    let mut i: usize = 0;
    while i < item_texts.len()
        invariant
            i <= item_texts.len(),
            items == item_texts@.map_values(|s: String| s@),
            ligatures@.map_values(|s: &'static str| s@) == ligature_tokens(),
            total as nat == tokens(items.take(i as int)).len(),
            hits as nat == count_where(tokens(items.take(i as int)), |t: Seq<char>| is_garbage_token(t)),
            vocab@.map_values(|v: Vec<char>| v@) == dedup(tokens(items.take(i as int))),
            total <= i,
            hits <= total,
        decreases item_texts.len() - i,
    {
        proof {
            assert(items.take(i + 1).drop_last() =~= items.take(i as int));
            assert(items.take(i + 1).last() == item_texts@[i as int]@);
        }
        let t = trim_vec(&chars_of(item_texts[i].as_str()));
        if t.len() > 0 {
            let ghost toks = tokens(items.take(i + 1));
            proof {
                assert(toks.drop_last() =~= tokens(items.take(i as int)));
                assert(toks.last() == t@);
            }
            total += 1;
            let ghost dv = vocab@.map_values(|v: Vec<char>| v@);
            if !contains_chars(&vocab, &t) {
                let c = crate::text::copy_range(&t, 0, t.len());
                assert(c@ =~= t@);
                vocab.push(c);
                assert(vocab@.map_values(|v: Vec<char>| v@) =~= dv.push(t@));
            }
            if is_garbage(&t, &ligatures) {
                hits += 1;
            }
        }
        i += 1;
    }
    assert(items.take(item_texts.len() as int) =~= items);
    total >= 12 && vocab.len() < 5 && (hits as u128) * 10 > (total as u128) * 7
}

} // verus!
