//! Whitespace normalisation of raw extracted text: horizontal whitespace
//! collapses to one space, line structure survives, blank lines vanish.

use vstd::prelude::*;

use crate::text::{chars_of, is_whitespace, is_ws, join_seq, lemma_split_nonempty, split_on,
    string_of};

verus! {

/// Drops trailing `' '` characters.
pub open spec fn drop_trailing_spaces(s: Seq<char>) -> Seq<char>
    decreases s.len(),
{
    if s.len() > 0 && s.last() == ' ' {
        drop_trailing_spaces(s.drop_last())
    } else {
        s
    }
}

/// Drops trailing `' '` and `'\n'` characters.
pub open spec fn drop_trailing_breaks(s: Seq<char>) -> Seq<char>
    decreases s.len(),
{
    if s.len() > 0 && (s.last() == ' ' || s.last() == '\n') {
        drop_trailing_breaks(s.drop_last())
    } else {
        s
    }
}

/// One character of the normaliser. The state is the output so far and
/// the last character that was emitted or that reset the line (`'\n'`
/// at the start, so leading whitespace is skipped).
pub open spec fn clean_step(state: (Seq<char>, char), c: char) -> (Seq<char>, char) {
    let (out, last) = state;
    if c == '\n' {
        let o = drop_trailing_spaces(out);
        if o.len() > 0 && last != '\n' {
            (o.push('\n'), '\n')
        } else {
            (o, '\n')
        }
    } else if is_ws(c) {
        if last != ' ' && last != '\n' {
            (out.push(' '), ' ')
        } else {
            (out, last)
        }
    } else {
        (out.push(c), c)
    }
}

/// The normaliser run over all of `s`.
pub open spec fn clean_fold(s: Seq<char>) -> (Seq<char>, char)
    decreases s.len(),
{
    if s.len() == 0 {
        (Seq::empty(), '\n')
    } else {
        clean_step(clean_fold(s.drop_last()), s.last())
    }
}

/// What `clean_raw_text` returns for the characters `s`, as the normaliser
/// computes it character by character; [`clean_by_lines`] states the same
/// result line by line.
pub open spec fn clean_spec(s: Seq<char>) -> Seq<char> {
    drop_trailing_breaks(clean_fold(s).0)
}

/// Well-formed normalised text: no whitespace at either end, the only
/// whitespace characters are `' '` and `'\n'`, and no two whitespace
/// characters are adjacent.
pub open spec fn is_tidy(s: Seq<char>) -> bool {
    &&& s.len() > 0 ==> !is_ws(s[0]) && !is_ws(s.last())
    &&& forall|k: int| 0 <= k < s.len() && is_ws(#[trigger] s[k]) ==> s[k] == ' ' || s[k] == '\n'
    &&& forall|k: int|
        0 <= k < s.len() - 1 ==> !(is_ws(#[trigger] s[k]) && is_ws(s[k + 1]))
}

/// Invariant of the normaliser state.
spec fn state_ok(out: Seq<char>, last: char) -> bool {
    &&& out.len() > 0 ==> !is_ws(out[0])
    &&& forall|k: int|
        0 <= k < out.len() && is_ws(#[trigger] out[k]) ==> out[k] == ' ' || out[k] == '\n'
    &&& forall|k: int| 0 <= k < out.len() - 1 ==> !(is_ws(#[trigger] out[k]) && is_ws(out[k + 1]))
    &&& is_ws(last) ==> last == ' ' || last == '\n'
    &&& last == '\n' ==> out.len() == 0 || out.last() == '\n'
    &&& last == ' ' ==> out.len() > 0 && out.last() == ' '
    &&& !is_ws(last) ==> out.len() > 0 && out.last() == last
}

proof fn lemma_drop_trailing_spaces_prefix(s: Seq<char>)
    ensures
        drop_trailing_spaces(s).len() <= s.len(),
        drop_trailing_spaces(s) =~= s.subrange(0, drop_trailing_spaces(s).len() as int),
        drop_trailing_spaces(s).len() > 0 ==> drop_trailing_spaces(s).last() != ' ',
        forall|k: int|
            drop_trailing_spaces(s).len() <= k < s.len() ==> #[trigger] s[k] == ' ',
    decreases s.len(),
{
    if s.len() > 0 && s.last() == ' ' {
        lemma_drop_trailing_spaces_prefix(s.drop_last());
        let t = s.drop_last();
        assert forall|k: int| drop_trailing_spaces(s).len() <= k < s.len() implies #[trigger] s[k]
            == ' ' by {
            if k < s.len() - 1 {
                assert(s[k] == t[k]);
            }
        }
    } else {
        assert(s.subrange(0, s.len() as int) =~= s);
    }
}

proof fn lemma_drop_trailing_breaks_prefix(s: Seq<char>)
    ensures
        drop_trailing_breaks(s).len() <= s.len(),
        drop_trailing_breaks(s) =~= s.subrange(0, drop_trailing_breaks(s).len() as int),
        drop_trailing_breaks(s).len() > 0 ==> drop_trailing_breaks(s).last() != ' '
            && drop_trailing_breaks(s).last() != '\n',
    decreases s.len(),
{
    if s.len() > 0 && (s.last() == ' ' || s.last() == '\n') {
        lemma_drop_trailing_breaks_prefix(s.drop_last());
    } else {
        assert(s.subrange(0, s.len() as int) =~= s);
    }
}

proof fn lemma_step_keeps_state(out: Seq<char>, last: char, c: char)
    requires
        state_ok(out, last),
    ensures
        state_ok(clean_step((out, last), c).0, clean_step((out, last), c).1),
{
    if c == '\n' {
        let o = drop_trailing_spaces(out);
        lemma_drop_trailing_spaces_prefix(out);
        if o.len() > 0 && last != '\n' {
            // o ends with a non-whitespace character.
            if last == ' ' {
                assert(out.last() == ' ');
                if o.len() < out.len() {
                    let k = o.len() - 1;
                    assert(out[k] == o[k]);
                    if is_ws(out[k]) {
                        assert(out[k] != ' ');
                        assert(out[k] == '\n');
                        assert(out[k + 1] == ' ');
                        assert(false);
                    }
                }
            } else {
                assert(!is_ws(last));
                assert(o =~= out);
            }
            assert(!is_ws(o.last()));
            let n = o.push('\n');
            assert forall|k: int| 0 <= k < n.len() - 1 implies !(is_ws(#[trigger] n[k]) && is_ws(
                n[k + 1],
            )) by {
                if k < o.len() - 1 {
                    assert(n[k] == out[k] && n[k + 1] == out[k + 1]);
                }
            }
            assert forall|k: int| 0 <= k < n.len() && is_ws(#[trigger] n[k]) implies n[k] == ' '
                || n[k] == '\n' by {
                if k < o.len() {
                    assert(n[k] == out[k]);
                }
            }
        } else {
            assert forall|k: int| 0 <= k < o.len() - 1 implies !(is_ws(#[trigger] o[k]) && is_ws(
                o[k + 1],
            )) by {
                assert(o[k] == out[k] && o[k + 1] == out[k + 1]);
            }
            assert forall|k: int| 0 <= k < o.len() && is_ws(#[trigger] o[k]) implies o[k] == ' '
                || o[k] == '\n' by {
                assert(o[k] == out[k]);
            }
            if o.len() > 0 {
                assert(last == '\n');
                assert(o =~= out);
            }
        }
    } else if is_ws(c) {
        if last != ' ' && last != '\n' {
            let n = out.push(' ');
            assert forall|k: int| 0 <= k < n.len() - 1 implies !(is_ws(#[trigger] n[k]) && is_ws(
                n[k + 1],
            )) by {
                if k < out.len() - 1 {
                    assert(n[k] == out[k] && n[k + 1] == out[k + 1]);
                }
            }
            assert forall|k: int| 0 <= k < n.len() && is_ws(#[trigger] n[k]) implies n[k] == ' '
                || n[k] == '\n' by {
                if k < out.len() {
                    assert(n[k] == out[k]);
                }
            }
        }
    } else {
        let n = out.push(c);
        assert forall|k: int| 0 <= k < n.len() - 1 implies !(is_ws(#[trigger] n[k]) && is_ws(
            n[k + 1],
        )) by {
            if k < out.len() - 1 {
                assert(n[k] == out[k] && n[k + 1] == out[k + 1]);
            }
        }
        assert forall|k: int| 0 <= k < n.len() && is_ws(#[trigger] n[k]) implies n[k] == ' '
            || n[k] == '\n' by {
            if k < out.len() {
                assert(n[k] == out[k]);
            }
        }
    }
}

proof fn lemma_fold_state(s: Seq<char>)
    ensures
        state_ok(clean_fold(s).0, clean_fold(s).1),
    decreases s.len(),
{
    if s.len() > 0 {
        lemma_fold_state(s.drop_last());
        let st = clean_fold(s.drop_last());
        lemma_step_keeps_state(st.0, st.1, s.last());
    }
}

/// Every output of the normaliser is tidy.
pub proof fn lemma_clean_is_tidy(s: Seq<char>)
    ensures
        is_tidy(clean_spec(s)),
{
    lemma_fold_state(s);
    let out = clean_fold(s).0;
    lemma_drop_trailing_breaks_prefix(out);
    let r = clean_spec(s);
    assert forall|k: int| 0 <= k < r.len() - 1 implies !(is_ws(#[trigger] r[k]) && is_ws(
        r[k + 1],
    )) by {
        assert(r[k] == out[k] && r[k + 1] == out[k + 1]);
    }
    assert forall|k: int| 0 <= k < r.len() && is_ws(#[trigger] r[k]) implies r[k] == ' ' || r[k]
        == '\n' by {
        assert(r[k] == out[k]);
    }
    if r.len() > 0 {
        assert(r[0] == out[0]);
        let l = r.last();
        if is_ws(l) {
            assert(r[r.len() - 1] == out[r.len() - 1]);
            assert(l == ' ' || l == '\n');
        }
    }
}

/// On tidy input the normaliser reproduces every prefix unchanged.
proof fn lemma_tidy_fold(s: Seq<char>, i: int)
    requires
        is_tidy(s),
        0 <= i <= s.len(),
    ensures
        clean_fold(s.take(i)) == (s.take(i), if i == 0 {
            '\n'
        } else {
            s[i - 1]
        }),
    decreases i,
{
    if i > 0 {
        lemma_tidy_fold(s, i - 1);
        assert(s.take(i).drop_last() =~= s.take(i - 1));
        let c = s[i - 1];
        let prev = s.take(i - 1);
        if c == '\n' {
            assert(i - 1 > 0);
            assert(!is_ws(s[i - 2]));
            assert(drop_trailing_spaces(prev) == prev);
            assert(prev.push('\n') =~= s.take(i));
        } else if is_ws(c) {
            assert(c == ' ');
            assert(i - 1 > 0);
            assert(!is_ws(s[i - 2]));
            assert(prev.push(' ') =~= s.take(i));
        } else {
            assert(prev.push(c) =~= s.take(i));
        }
    }
}

/// Normalising already-normalised text changes nothing.
pub proof fn lemma_clean_fixes_tidy(s: Seq<char>)
    requires
        is_tidy(s),
    ensures
        clean_spec(s) == s,
{
    lemma_tidy_fold(s, s.len() as int);
    assert(s.take(s.len() as int) =~= s);
    if s.len() > 0 {
        assert(!is_ws(s.last()));
    }
}

/// `clean_raw_text` is idempotent: cleaning its output again changes
/// nothing.
pub proof fn clean_raw_text_idempotent(s: Seq<char>)
    ensures
        clean_by_lines(clean_by_lines(s)) == clean_by_lines(s),
        clean_spec(clean_spec(s)) == clean_spec(s),
{
    lemma_clean_is_tidy(s);
    lemma_clean_fixes_tidy(clean_spec(s));
    lemma_clean_by_lines(s);
    lemma_clean_by_lines(clean_spec(s));
}

/// The pieces of a line between its whitespace characters, empty pieces
/// included.
pub open spec fn split_ws(l: Seq<char>) -> Seq<Seq<char>>
    decreases l.len(),
{
    if l.len() == 0 {
        seq![Seq::empty()]
    } else {
        let r = split_ws(l.drop_last());
        if is_ws(l.last()) {
            r.push(Seq::empty())
        } else {
            r.update(r.len() - 1, r.last().push(l.last()))
        }
    }
}

/// The non-empty elements of `ps`, in order.
pub open spec fn non_empty(ps: Seq<Seq<char>>) -> Seq<Seq<char>>
    decreases ps.len(),
{
    if ps.len() == 0 {
        ps
    } else {
        let r = non_empty(ps.drop_last());
        if ps.last().len() > 0 {
            r.push(ps.last())
        } else {
            r
        }
    }
}

/// The words of a line: its non-empty runs of non-whitespace characters.
pub open spec fn words(l: Seq<char>) -> Seq<Seq<char>> {
    non_empty(split_ws(l))
}

/// A line with its words joined by single spaces.
pub open spec fn squeeze(l: Seq<char>) -> Seq<char> {
    join_seq(words(l), " "@)
}

/// Normalised text, line by line: each line of `s` (split at `'\n'`)
/// becomes its words joined by single spaces, lines left empty are
/// dropped, and the others are joined by `'\n'`.
pub open spec fn clean_by_lines(s: Seq<char>) -> Seq<char> {
    join_seq(non_empty(split_on(s, '\n').map_values(|l: Seq<char>| squeeze(l))), "\n"@)
}

proof fn lemma_split_ws_len(l: Seq<char>)
    ensures
        split_ws(l).len() >= 1,
    decreases l.len(),
{
    if l.len() > 0 {
        lemma_split_ws_len(l.drop_last());
    }
}

/// The last element of `non_empty(ps)` is not empty.
proof fn lemma_non_empty_last(ps: Seq<Seq<char>>)
    ensures
        non_empty(ps).len() > 0 ==> non_empty(ps).last().len() > 0,
    decreases ps.len(),
{
    if ps.len() > 0 && ps.last().len() == 0 {
        lemma_non_empty_last(ps.drop_last());
    }
}

/// When no element of `ps` ends in whitespace, neither does the last of
/// its non-empty ones.
proof fn lemma_non_empty_last_word(ps: Seq<Seq<char>>)
    requires
        forall|k: int| 0 <= k < ps.len() && (#[trigger] ps[k]).len() > 0 ==> !is_ws(ps[k].last()),
    ensures
        non_empty(ps).len() > 0 ==> !is_ws(non_empty(ps).last().last()),
    decreases ps.len(),
{
    if ps.len() > 0 {
        assert(ps.last() == ps[ps.len() - 1]);
        if ps.last().len() == 0 {
            lemma_non_empty_last_word(ps.drop_last());
        }
    }
}

/// A join whose last part is not empty ends with that part's last
/// character.
proof fn lemma_join_last(ps: Seq<Seq<char>>, sep: Seq<char>)
    requires
        ps.len() > 0,
        ps.last().len() > 0,
    ensures
        join_seq(ps, sep).len() > 0,
        join_seq(ps, sep).last() == ps.last().last(),
{
    if ps.len() > 1 {
        let j = join_seq(ps.drop_last(), sep) + sep;
        assert(join_seq(ps, sep) == j + ps.last());
        assert((j + ps.last()).last() == ps.last().last());
    }
}

/// Joining after one more part.
proof fn lemma_join_push(ps: Seq<Seq<char>>, sep: Seq<char>, x: Seq<char>)
    ensures
        join_seq(ps.push(x), sep) == if ps.len() == 0 {
            x
        } else {
            join_seq(ps, sep) + sep + x
        },
{
    assert(ps.push(x).drop_last() =~= ps);
    if ps.len() == 0 {
        assert(ps.push(x)[0] == x);
    }
}

/// What one more character does to a squeezed line.
proof fn lemma_squeeze_push(l: Seq<char>, c: char)
    ensures
        is_ws(c) ==> squeeze(l.push(c)) == squeeze(l),
        !is_ws(c) && l.len() > 0 && !is_ws(l.last()) ==> squeeze(l.push(c)) == squeeze(l).push(c),
        !is_ws(c) && squeeze(l).len() > 0 && l.len() > 0 && is_ws(l.last()) ==> squeeze(l.push(c))
            == squeeze(l) + " "@ + seq![c],
        !is_ws(c) && squeeze(l).len() == 0 ==> squeeze(l.push(c)) == seq![c],
        squeeze(l).len() > 0 ==> l.len() > 0,
{
    let lp = l.push(c);
    assert(lp.drop_last() =~= l);
    assert(lp.last() == c);
    lemma_split_ws_len(l);
    let r = split_ws(l);
    let w = non_empty(r.drop_last());
    reveal_strlit(" ");
    if l.len() == 0 {
        assert(split_ws(l) == seq![Seq::<char>::empty()]);
        assert(non_empty(r) == w);
        assert(r.drop_last().len() == 0);
        assert(w.len() == 0);
    }
    // `r.last()` is empty unless `l` ends with a non-whitespace character.
    if l.len() > 0 {
        let r0 = split_ws(l.drop_last());
        lemma_split_ws_len(l.drop_last());
        if is_ws(l.last()) {
            assert(r.last().len() == 0);
        } else {
            assert(r.last() == r0.last().push(l.last()));
            assert(r.last().len() > 0);
        }
    }
    if r.last().len() > 0 {
        assert(non_empty(r) == w.push(r.last()));
    } else {
        assert(non_empty(r) == w);
    }
    lemma_non_empty_last(r.drop_last());
    if w.len() > 0 {
        lemma_join_last(w, " "@);
    }
    if is_ws(c) {
        assert(split_ws(lp) == r.push(Seq::empty()));
        assert(split_ws(lp).drop_last() =~= r);
        assert(non_empty(split_ws(lp)) == non_empty(r));
    } else {
        let r2 = split_ws(lp);
        assert(r2 == r.update(r.len() - 1, r.last().push(c)));
        assert(r2.drop_last() =~= r.drop_last());
        assert(r2.last() == r.last().push(c));
        assert(words(lp) == w.push(r.last().push(c)));
        lemma_join_push(w, " "@, r.last().push(c));
        if r.last().len() > 0 {
            lemma_join_push(w, " "@, r.last());
            if w.len() == 0 {
            } else {
                assert(join_seq(w, " "@) + " "@ + r.last().push(c) =~= (join_seq(w, " "@) + " "@
                    + r.last()).push(c));
            }
        } else {
            assert(r.last() =~= Seq::<char>::empty());
            assert(r.last().push(c) =~= seq![c]);
        }
    }
}

/// A squeezed line ends with a non-whitespace character.
proof fn lemma_squeeze_last(l: Seq<char>)
    ensures
        squeeze(l).len() > 0 ==> !is_ws(squeeze(l).last()),
    decreases l.len(),
{
    if l.len() > 0 {
        let p = l.drop_last();
        assert(p.push(l.last()) =~= l);
        lemma_squeeze_last(p);
        lemma_squeeze_push(p, l.last());
    } else {
        lemma_squeeze_push(l, ' ');
    }
}

/// The completed lines of a normaliser run, each followed by its line
/// break.
spec fn line_block(done: Seq<Seq<char>>) -> Seq<char> {
    if done.len() == 0 {
        Seq::empty()
    } else {
        join_seq(done, "\n"@) + "\n"@
    }
}

/// What the normaliser holds of the line it is in: the squeezed line, and
/// a pending space once whitespace followed a word.
spec fn partial_line(l: Seq<char>) -> Seq<char> {
    if squeeze(l).len() > 0 && is_ws(l.last()) {
        squeeze(l) + " "@
    } else {
        squeeze(l)
    }
}

/// The normaliser's last character inside the line `l`.
spec fn partial_last(l: Seq<char>) -> char {
    if squeeze(l).len() == 0 {
        '\n'
    } else if is_ws(l.last()) {
        ' '
    } else {
        l.last()
    }
}

/// The squeezed, non-empty lines of `s` that a line break has closed.
spec fn done_lines(s: Seq<char>) -> Seq<Seq<char>> {
    non_empty(split_on(s, '\n').drop_last().map_values(|l: Seq<char>| squeeze(l)))
}

/// The state of the normaliser after `s`, line by line.
proof fn lemma_fold_by_lines(s: Seq<char>)
    ensures
        clean_fold(s) == (
            line_block(done_lines(s)) + partial_line(split_on(s, '\n').last()),
            partial_last(split_on(s, '\n').last()),
        ),
    decreases s.len(),
{
    reveal_strlit(" ");
    reveal_strlit("\n");
    lemma_split_nonempty(s, '\n');
    if s.len() == 0 {
        assert(split_on(s, '\n') == seq![Seq::<char>::empty()]);
        assert(split_on(s, '\n').drop_last().map_values(|l: Seq<char>| squeeze(l)).len() == 0);
        lemma_squeeze_push(Seq::<char>::empty(), ' ');
        assert(partial_line(Seq::<char>::empty()) =~= Seq::<char>::empty());
        assert(Seq::<char>::empty() + Seq::<char>::empty() =~= Seq::<char>::empty());
    } else {
        let p = s.drop_last();
        let c = s.last();
        lemma_fold_by_lines(p);
        lemma_split_nonempty(p, '\n');
        let pieces = split_on(p, '\n');
        let pl = pieces.last();
        let done = done_lines(p);
        let d = line_block(done);
        let out = clean_fold(p).0;
        let last = clean_fold(p).1;
        lemma_squeeze_last(pl);
        lemma_non_empty_last(pieces.drop_last().map_values(|l: Seq<char>| squeeze(l)));
        if done.len() > 0 {
            lemma_join_last(done, "\n"@);
        }
        if c == '\n' {
            let np = split_on(s, '\n');
            assert(np == pieces.push(Seq::empty()));
            assert(np.drop_last() =~= pieces);
            assert(np.last() == Seq::<char>::empty());
            lemma_squeeze_push(Seq::<char>::empty(), ' ');
            assert(partial_line(np.last()) =~= Seq::<char>::empty());
            let m = pieces.map_values(|l: Seq<char>| squeeze(l));
            assert(m.drop_last() =~= pieces.drop_last().map_values(|l: Seq<char>| squeeze(l)));
            assert(m.last() == squeeze(pl));
            let o = drop_trailing_spaces(out);
            if squeeze(pl).len() > 0 {
                assert(done_lines(s) == done.push(squeeze(pl)));
                lemma_join_push(done, "\n"@, squeeze(pl));
                if is_ws(pl.last()) {
                    assert(out == d + squeeze(pl) + " "@);
                    assert((d + squeeze(pl) + " "@).drop_last() =~= d + squeeze(pl));
                }
                assert((d + squeeze(pl)).last() == squeeze(pl).last());
                assert(drop_trailing_spaces(d + squeeze(pl)) == d + squeeze(pl));
                assert(o == d + squeeze(pl));
                assert(line_block(done_lines(s)) =~= (d + squeeze(pl)).push('\n'));
            } else {
                assert(done_lines(s) == done);
                assert(out =~= d);
                if done.len() > 0 {
                    assert(d.last() == '\n');
                }
                assert(o == d);
                assert(d + Seq::<char>::empty() =~= d);
            }
        } else {
            let np = split_on(s, '\n');
            assert(np == pieces.update(pieces.len() - 1, pl.push(c)));
            assert(np.drop_last() =~= pieces.drop_last());
            assert(np.last() == pl.push(c));
            lemma_squeeze_push(pl, c);
            let npl = pl.push(c);
            assert(npl.last() == c);
            if is_ws(c) {
                if squeeze(pl).len() > 0 && !is_ws(pl.last()) {
                    assert(out.push(' ') =~= d + (squeeze(pl) + " "@));
                } else {
                    assert(partial_line(npl) == partial_line(pl));
                }
            } else {
                if squeeze(pl).len() == 0 {
                    assert(out =~= d);
                } else if is_ws(pl.last()) {
                    assert(out.push(c) =~= d + (squeeze(pl) + " "@ + seq![c]));
                } else {
                    assert(out.push(c) =~= d + squeeze(pl).push(c));
                }
            }
        }
    }
}

/// The normaliser's character fold and the line-by-line reading agree.
proof fn lemma_clean_by_lines(s: Seq<char>)
    ensures
        clean_spec(s) == clean_by_lines(s),
{
    reveal_strlit(" ");
    reveal_strlit("\n");
    lemma_fold_by_lines(s);
    lemma_split_nonempty(s, '\n');
    let pieces = split_on(s, '\n');
    let pl = pieces.last();
    let done = done_lines(s);
    let d = line_block(done);
    let sq = squeeze(pl);
    let m = pieces.map_values(|l: Seq<char>| squeeze(l));
    assert(m.drop_last() =~= pieces.drop_last().map_values(|l: Seq<char>| squeeze(l)));
    assert(m.last() == sq);
    lemma_squeeze_last(pl);
    lemma_non_empty_last(pieces.drop_last().map_values(|l: Seq<char>| squeeze(l)));
    if done.len() > 0 {
        lemma_join_last(done, "\n"@);
    }
    let out = clean_fold(s).0;
    if sq.len() > 0 {
        assert(non_empty(m) == done.push(sq));
        lemma_join_push(done, "\n"@, sq);
        lemma_squeeze_push(pl, ' ');
        if is_ws(pl.last()) {
            assert(out == d + sq + " "@);
            assert((d + sq + " "@).drop_last() =~= d + sq);
        }
        assert((d + sq).last() == sq.last());
        assert(drop_trailing_breaks(d + sq) == d + sq);
        if done.len() == 0 {
            assert(d + sq =~= sq);
        } else {
            assert(d + sq =~= join_seq(done, "\n"@) + "\n"@ + sq);
        }
    } else {
        assert(non_empty(m) == done);
        assert(out =~= d);
        if done.len() > 0 {
            let j = join_seq(done, "\n"@);
            assert(d.drop_last() =~= j);
            let ms = pieces.drop_last().map_values(|l: Seq<char>| squeeze(l));
            assert forall|k: int| 0 <= k < ms.len() && (#[trigger] ms[k]).len() > 0 implies !is_ws(
                ms[k].last(),
            ) by {
                lemma_squeeze_last(pieces.drop_last()[k]);
            }
            lemma_non_empty_last_word(ms);
            assert(!is_ws(j.last()));
            assert(is_ws(' ') && is_ws('\n'));
            assert(drop_trailing_breaks(j) == j);
        }
    }
}

/// Collapse runs of whitespace while preserving newlines: horizontal
/// whitespace collapses to a single space, line breaks survive, blank lines
/// and whitespace at either end disappear.
pub fn clean_raw_text(text: &str) -> (out: String)
    ensures
        out@ == clean_by_lines(text@),
        out@ == clean_spec(text@),
        is_tidy(out@),
{
    let chars = chars_of(text);
    let mut out: Vec<char> = Vec::new();
    let mut last: char = '\n';
    let mut i: usize = 0;
    while i < chars.len()
        invariant
            i <= chars.len(),
            chars@ == text@,
            (out@, last) == clean_fold(chars@.take(i as int)),
        decreases chars.len() - i,
    {
        let ch = chars[i];
        proof {
            assert(chars@.take(i + 1).drop_last() =~= chars@.take(i as int));
        }
        if ch == '\n' {
            while out.len() > 0 && out[out.len() - 1] == ' '
                invariant
                    drop_trailing_spaces(out@) == drop_trailing_spaces(
                        clean_fold(chars@.take(i as int)).0,
                    ),
                decreases out.len(),
            {
                let ghost before = out@;
                out.pop();
                assert(out@ =~= before.drop_last());
            }
            proof {
                assert(drop_trailing_spaces(out@) == out@);
            }
            if out.len() > 0 && last != '\n' {
                out.push('\n');
            }
            last = '\n';
        } else if is_whitespace(ch) {
            if last != ' ' && last != '\n' {
                out.push(' ');
                last = ' ';
            }
        } else {
            out.push(ch);
            last = ch;
        }
        i += 1;
    }
    assert(chars@.take(chars.len() as int) =~= chars@);
    while out.len() > 0 && (out[out.len() - 1] == ' ' || out[out.len() - 1] == '\n')
        invariant
            drop_trailing_breaks(out@) == clean_spec(text@),
        decreases out.len(),
    {
        let ghost before = out@;
        out.pop();
        assert(out@ =~= before.drop_last());
    }
    proof {
        lemma_clean_is_tidy(text@);
        lemma_clean_by_lines(text@);
    }
    string_of(&out)
}

} // verus!
