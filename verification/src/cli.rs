//! The command line's own decisions: language flags, batch file
//! selection and naming, and report formatting.

use vstd::prelude::*;

use crate::config::{Language, OutputFormat};
use crate::ocr::{ascii_lower, ascii_lowercase};
use crate::text::{append_str, chars_eq, chars_of, copy_range, is_whitespace, is_ws, string_of, trim,
    trim_vec};

verus! {

/// The language flags with blanks trimmed and empty ones dropped, in order.
pub open spec fn cleaned_values(vs: Seq<Seq<char>>) -> Seq<Seq<char>>
    decreases vs.len(),
{
    if vs.len() == 0 {
        Seq::empty()
    } else {
        let rest = cleaned_values(vs.drop_last());
        if trim(vs.last()).len() == 0 {
            rest
        } else {
            rest.push(trim(vs.last()))
        }
    }
}

/// Builds the OCR language setting from repeated `--ocr-language` values:
/// none when no value is left after trimming (so the default stands), one
/// language for a single value, else the list.
pub fn parse_language(values: &Vec<String>) -> (r: Option<Language>)
    ensures
        ({
            let c = cleaned_values(values@.map_values(|s: String| s@));
            &&& c.len() == 0 ==> r is None
            &&& c.len() == 1 ==> (r matches Some(Language::Single(s)) && s@ == c[0])
            &&& c.len() >= 2 ==> (r matches Some(Language::Multiple(v)) && v@.map_values(
                |s: String| s@,
            ) == c)
        }),
{
    let ghost vs = values@.map_values(|s: String| s@);
    let mut cleaned: Vec<String> = Vec::new();
    let mut i: usize = 0;
    while i < values.len()
        invariant
            i <= values@.len(),
            vs == values@.map_values(|s: String| s@),
            cleaned@.map_values(|s: String| s@) == cleaned_values(vs.take(i as int)),
        decreases values@.len() - i,
    {
        let t = trim_vec(&chars_of(values[i].as_str()));
        proof {
            assert(vs.take(i + 1).drop_last() =~= vs.take(i as int));
            assert(vs.take(i + 1).last() == values@[i as int]@);
        }
        if t.len() > 0 {
            let ghost before = cleaned@.map_values(|s: String| s@);
            cleaned.push(string_of(&t));
            assert(cleaned@.map_values(|s: String| s@) =~= before.push(t@));
        }
        i += 1;
    }
    assert(vs.take(values@.len() as int) =~= vs);
    let ghost c = cleaned_values(vs);
    if cleaned.len() == 0 {
        None
    } else if cleaned.len() == 1 {
        let first = cleaned.pop().unwrap();
        assert(c[0] == first@);
        Some(Language::Single(first))
    } else {
        Some(Language::Multiple(cleaned))
    }
}

/// The extension batch outputs are written with.
pub fn batch_output_extension(format: OutputFormat) -> (r: &'static str)
    ensures
        format == OutputFormat::Json ==> r@ == "json"@,
        format == OutputFormat::Text ==> r@ == "txt"@,
{
    match format {
        OutputFormat::Json => "json",
        OutputFormat::Text => "txt",
    }
}

/// Whether a batch takes a file with extension `have`, when only files
/// with extension `want` are asked for (compared ignoring ASCII case).
pub open spec fn batch_wants_spec(want: Option<Seq<char>>, have: Option<Seq<char>>) -> bool {
    match want {
        None => true,
        Some(w) => match have {
            Some(h) => ascii_lower(h) == ascii_lower(w),
            None => false,
        },
    }
}

/// Whether a batch takes a file with extension `have`.
pub fn batch_wants(want: Option<&str>, have: Option<&str>) -> (r: bool)
    ensures
        r == batch_wants_spec(
            match want {
                Some(w) => Some(w@),
                None => None,
            },
            match have {
                Some(h) => Some(h@),
                None => None,
            },
        ),
{
    match want {
        None => true,
        Some(w) => match have {
            Some(h) => chars_eq(&ascii_lowercase(&chars_of(h)), &ascii_lowercase(&chars_of(w))),
            None => false,
        },
    }
}

/// The file name a batch writes a parse to: the input's stem (or
/// `output`), a dot, and the output extension.
pub open spec fn batch_output_name_spec(stem: Option<Seq<char>>, ext: Seq<char>) -> Seq<char> {
    match stem {
        Some(s) => s + "."@ + ext,
        None => "output"@ + "."@ + ext,
    }
}

/// The file name a batch writes a parse to.
pub fn batch_output_name(stem: Option<&str>, ext: &str) -> (r: String)
    ensures
        r@ == batch_output_name_spec(
            match stem {
                Some(s) => Some(s@),
                None => None,
            },
            ext@,
        ),
{
    let mut v: Vec<char> = Vec::new();
    match stem {
        Some(s) => append_str(&mut v, s),
        None => append_str(&mut v, "output"),
    }
    append_str(&mut v, ".");
    append_str(&mut v, ext);
    assert(v@ =~= batch_output_name_spec(
        match stem {
            Some(s) => Some(s@),
            None => None,
        },
        ext@,
    ));
    string_of(&v)
}

/// `s` cut to at most `max` characters, the last one replaced by an
/// ellipsis when anything was cut.
pub open spec fn truncate_spec(s: Seq<char>, max: nat) -> Seq<char> {
    if s.len() <= max {
        s
    } else {
        s.take(max - 1) + seq!['…']
    }
}

/// Shortens a report cell to `max` characters. A string that needs
/// cutting needs room for the ellipsis.
pub fn truncate(s: &str, max: usize) -> (r: String)
    requires
        s@.len() <= max || max > 0,
    ensures
        r@ == truncate_spec(s@, max as nat),
        r@.len() <= max || s@.len() <= max,
{
    let v = chars_of(s);
    if v.len() <= max {
        string_of(&v)
    } else {
        let mut w = copy_range(&v, 0, max - 1);
        w.push('…');
        assert(w@ =~= v@.take(max - 1) + seq!['…']);
        string_of(&w)
    }
}


/// The characters of `s` that are not whitespace, in order.
pub open spec fn non_ws(s: Seq<char>) -> Seq<char> {
    s.filter(|c: char| !is_ws(c))
}

/// How many non-whitespace characters of `expected` are matched by
/// characters of `actual`, counted with multiplicity: the size of the
/// multiset intersection.
pub open spec fn overlap_count(expected: Seq<char>, actual: Seq<char>) -> nat {
    non_ws(expected).to_multiset().intersection_with(non_ws(actual).to_multiset()).len()
}

fn non_ws_chars(s: &str) -> (r: Vec<char>)
    ensures
        r@ == non_ws(s@),
{
    let v = chars_of(s);
    let mut out: Vec<char> = Vec::new();
    let mut i: usize = 0;
    while i < v.len()
        invariant
            i <= v@.len(),
            v@ == s@,
            out@ == v@.take(i as int).filter(|c: char| !is_ws(c)),
        decreases v@.len() - i,
    {
        proof {
            reveal(Seq::filter);
            assert(v@.take(i + 1).drop_last() =~= v@.take(i as int));
        }
        if !is_whitespace(v[i]) {
            out.push(v[i]);
        }
        i += 1;
    }
    assert(v@.take(v@.len() as int) =~= v@);
    out
}

/// Matching one more `c` of the expected side: it pairs with a `c` of the
/// remaining side when there is one, and the rest of the intersection is
/// what the two sides without it share.
proof fn lemma_intersection_step(x: vstd::multiset::Multiset<char>, y: vstd::multiset::Multiset<char>, c: char)
    requires
        x.count(c) >= 1,
    ensures
        y.count(c) >= 1 ==> x.intersection_with(y).len() == x.remove(c).intersection_with(
            y.remove(c),
        ).len() + 1,
        y.count(c) == 0 ==> x.intersection_with(y).len() == x.remove(c).intersection_with(y).len(),
{
    broadcast use vstd::multiset::group_multiset_axioms;
    broadcast use vstd::multiset::group_multiset_properties;

    if y.count(c) >= 1 {
        let lhs = x.intersection_with(y);
        let rhs = x.remove(c).intersection_with(y.remove(c)).insert(c);
        assert forall|d: char| lhs.count(d) == rhs.count(d) by {
            vstd::multiset::lemma_intersection_count(x, y, d);
            vstd::multiset::lemma_intersection_count(x.remove(c), y.remove(c), d);
        }
        assert(lhs =~= rhs);
    } else {
        let lhs = x.intersection_with(y);
        let rhs = x.remove(c).intersection_with(y);
        assert forall|d: char| lhs.count(d) == rhs.count(d) by {
            vstd::multiset::lemma_intersection_count(x, y, d);
            vstd::multiset::lemma_intersection_count(x.remove(c), y, d);
        }
        assert(lhs =~= rhs);
    }
}

/// The first index of `c` in `v`.
fn index_of(v: &Vec<char>, c: char) -> (r: Option<usize>)
    ensures
        match r {
            Some(j) => j < v@.len() && v@[j as int] == c,
            None => !v@.contains(c),
        },
{
    let mut j: usize = 0;
    while j < v.len()
        invariant
            j <= v@.len(),
            forall|k: int| 0 <= k < j ==> v@[k] != c,
        decreases v@.len() - j,
    {
        if v[j] == c {
            return Some(j);
        }
        j += 1;
    }
    None
}

/// Character overlap of two extractions: how many non-whitespace
/// characters of `expected` the non-whitespace characters of `actual`
/// match (with multiplicity), and how many there are in all.
pub fn char_overlap_counts(expected: &str, actual: &str) -> (r: (usize, usize))
    ensures
        r.0 == overlap_count(expected@, actual@),
        r.1 == non_ws(expected@).len(),
        r.0 <= r.1,
{
    let want = non_ws_chars(expected);
    let mut rest = non_ws_chars(actual);
    let n = want.len();
    let mut matched: usize = 0;
    let mut i: usize = 0;
    assert(want@.subrange(0, n as int) =~= want@);
    while i < n
        invariant
            n == want@.len(),
            i <= n,
            want@ == non_ws(expected@),
            matched <= i,
            matched + want@.subrange(i as int, n as int).to_multiset().intersection_with(
                rest@.to_multiset(),
            ).len() == overlap_count(expected@, actual@),
        decreases n - i,
    {
        let c = want[i];
        let ghost tail = want@.subrange(i as int, n as int);
        proof {
            broadcast use vstd::seq_lib::group_to_multiset_ensures;

            assert(tail.remove(0) =~= want@.subrange(i + 1, n as int));
            assert(tail[0] == c);
            assert(tail.contains(c));
            assert(tail.to_multiset().count(c) > 0);
            assert(tail.remove(0).to_multiset() =~= tail.to_multiset().remove(tail[0]));
        }
        match index_of(&rest, c) {
            Some(j) => {
                let ghost before = rest@;
                rest.remove(j);
                proof {
                    broadcast use vstd::seq_lib::group_to_multiset_ensures;

                    assert(before[j as int] == c);
                    assert(before.contains(c));
                    assert(before.to_multiset().count(c) > 0);
                    assert(before.remove(j as int).to_multiset() =~= before.to_multiset().remove(
                        before[j as int],
                    ));
                    lemma_intersection_step(tail.to_multiset(), before.to_multiset(), c);
                }
                matched += 1;
            },
            None => {
                proof {
                    broadcast use vstd::seq_lib::group_to_multiset_ensures;

                    assert(!(rest@.to_multiset().count(c) > 0));
                    lemma_intersection_step(tail.to_multiset(), rest@.to_multiset(), c);
                }
            },
        }
        i += 1;
    }
    proof {
        broadcast use vstd::multiset::group_multiset_axioms;
        broadcast use vstd::multiset::group_multiset_properties;
        broadcast use vstd::seq_lib::group_to_multiset_ensures;

        let e = want@.subrange(n as int, n as int).to_multiset();
        let both = e.intersection_with(rest@.to_multiset());
        assert(e.len() == 0);
        assert forall|d: char| both.count(d) == 0 by {
            vstd::multiset::lemma_intersection_count(e, rest@.to_multiset(), d);
        }
        assert(both =~= vstd::multiset::Multiset::empty());
    }
    (matched, n)
}

} // verus!
