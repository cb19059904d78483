//! Tesseract's TSV report: picking out the word rows. Each kept row still
//! carries its box and confidence as text; reading those numbers is left
//! to the caller.

use vstd::prelude::*;

use crate::layout::{lines_of, lines_vec};
use crate::pages::{parse_u32, parse_u32_spec};
use crate::text::{chars_of, split_on, split_vec, string_of, trim, trim_vec};

verus! {

/// One word row of the report, with the columns `left`, `top`, `width`,
/// `height` and `conf` as written, and the trimmed word.
#[derive(Debug, Clone)]
pub struct TsvWord {
    pub left: String,
    pub top: String,
    pub width: String,
    pub height: String,
    pub conf: String,
    pub text: String,
}

/// A row is a word row when its `level` column reads 5 (as an `i32`
/// parse reads it: an optional `+` and digits worth 5; a negative or
/// out-of-range number is never 5).
pub open spec fn is_word_level(level: Seq<char>) -> bool {
    parse_u32_spec(level) == Some(5u32)
}

/// The numeric columns and the word of a line, when it is a word row with
/// at least twelve columns and a non-blank word.
pub open spec fn word_row(line: Seq<char>) -> Option<(Seq<Seq<char>>, Seq<char>)> {
    let cols = split_on(line, '\t');
    if cols.len() >= 12 && is_word_level(cols[0]) && trim(cols[11]).len() > 0 {
        Some((cols.subrange(6, 11), trim(cols[11])))
    } else {
        None
    }
}

/// The word rows of a list of lines, in order.
pub open spec fn word_rows(lines: Seq<Seq<char>>) -> Seq<(Seq<Seq<char>>, Seq<char>)>
    decreases lines.len(),
{
    if lines.len() == 0 {
        Seq::empty()
    } else {
        let rest = word_rows(lines.drop_last());
        match word_row(lines.last()) {
            Some(w) => rest.push(w),
            None => rest,
        }
    }
}

/// A word row as sequences.
pub open spec fn word_view(w: TsvWord) -> (Seq<Seq<char>>, Seq<char>) {
    (seq![w.left@, w.top@, w.width@, w.height@, w.conf@], w.text@)
}

fn row_of(cols: &Vec<Vec<char>>) -> (r: Option<TsvWord>)
    requires
        cols@.len() >= 1,
    ensures
        match r {
            Some(w) => cols@.len() >= 12 && is_word_level(cols@[0]@) && trim(cols@[11]@).len() > 0
                && word_view(w) == (cols@.map_values(|v: Vec<char>| v@).subrange(6, 11), trim(
                cols@[11]@,
            )),
            None => !(cols@.len() >= 12 && is_word_level(cols@[0]@) && trim(cols@[11]@).len()
                > 0),
        },
{
    if cols.len() < 12 {
        return None;
    }
    if parse_u32(&cols[0]) != Some(5u32) {
        return None;
    }
    let text = trim_vec(&cols[11]);
    if text.len() == 0 {
        return None;
    }
    let w = TsvWord {
        left: string_of(&cols[6]),
        top: string_of(&cols[7]),
        width: string_of(&cols[8]),
        height: string_of(&cols[9]),
        conf: string_of(&cols[10]),
        text: string_of(&text),
    };
    let ghost cv = cols@.map_values(|v: Vec<char>| v@);
    assert(word_view(w).0 =~= cv.subrange(6, 11));
    Some(w)
}

/// The word rows of a Tesseract TSV report, in order: lines with at least
/// twelve tab-separated columns whose `level` is 5 and whose word is not
/// blank.
pub fn tsv_word_rows(tsv: &str) -> (r: Vec<TsvWord>)
    ensures
        r@.map_values(|w: TsvWord| word_view(w)) == word_rows(lines_of(tsv@)),
{
    let lines = lines_vec(&chars_of(tsv));
    let ghost ls = lines@.map_values(|v: Vec<char>| v@);
    let mut out: Vec<TsvWord> = Vec::new();
    let mut i: usize = 0;
    while i < lines.len()
        invariant
            i <= lines@.len(),
            ls == lines@.map_values(|v: Vec<char>| v@),
            ls == lines_of(tsv@),
            out@.map_values(|w: TsvWord| word_view(w)) == word_rows(ls.take(i as int)),
        decreases lines@.len() - i,
    {
        let cols = split_vec(&lines[i], '\t');
        let ghost cv = cols@.map_values(|v: Vec<char>| v@);
        proof {
            assert(ls.take(i + 1).drop_last() =~= ls.take(i as int));
            assert(ls.take(i + 1).last() == lines@[i as int]@);
            assert(cv == split_on(lines@[i as int]@, '\t'));
            if cols@.len() >= 12 {
                assert(cv[0] == cols@[0]@);
                assert(cv[11] == cols@[11]@);
            }
        }
        let ghost before = out@.map_values(|w: TsvWord| word_view(w));
        match row_of(&cols) {
            Some(w) => {
                out.push(w);
                assert(out@.map_values(|w: TsvWord| word_view(w)) =~= before.push(
                    word_view(out@[out@.len() - 1]),
                ));
            },
            None => {},
        }
        i += 1;
    }
    assert(ls.take(lines@.len() as int) =~= ls);
    out
}

} // verus!
