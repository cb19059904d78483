//! Running headers and footers: lines that repeat in the top or bottom
//! band of most pages of a document are dropped from its text.

use vstd::prelude::*;

use crate::layout::{dedup, lines_of, lines_vec};
use crate::ocr::{utf8_len, utf8_len_capped};
use crate::text::{chars_eq, chars_of, copy_range, is_digit, is_whitespace, is_ws, join_seq,
    join_vecs, string_of, trim, trim_vec};

verus! {

/// A text item of a page, reduced to what the header/footer pass reads:
/// whether it lies in the top band or in the bottom band of its page, and
/// its string. An item in neither band stands mid-page.
#[derive(Debug, Clone)]
pub struct BandItem {
    pub top: bool,
    pub bottom: bool,
    pub text: String,
}

/// A page's items and projected text.
#[derive(Debug, Clone)]
pub struct PageText {
    pub items: Vec<BandItem>,
    pub text: String,
}

/// What the pass does to one page: which items stay, and the new text.
#[derive(Debug, Clone)]
pub struct PageStrip {
    pub keep: Vec<bool>,
    pub text: String,
}

/// Every character is an ASCII digit or whitespace.
pub open spec fn digits_or_ws(s: Seq<char>) -> bool {
    forall|k: int| 0 <= k < s.len() ==> is_digit(#[trigger] s[k]) || is_ws(s[k])
}

/// The header/footer key of an item: its trimmed string, when it lies in
/// the band, is at least four bytes long and is not just a page number.
pub open spec fn item_key(item: (bool, Seq<char>)) -> Option<Seq<char>> {
    let key = trim(item.1);
    if item.0 && utf8_len(key) >= 4 && !digits_or_ws(key) {
        Some(key)
    } else {
        None
    }
}

/// The keys of a page's items, in order.
pub open spec fn page_keys(items: Seq<(bool, Seq<char>)>) -> Seq<Seq<char>>
    decreases items.len(),
{
    if items.len() == 0 {
        Seq::empty()
    } else {
        let r = page_keys(items.drop_last());
        match item_key(items.last()) {
            Some(k) => r.push(k),
            None => r,
        }
    }
}

/// The distinct keys of a page.
pub open spec fn page_candidates(items: Seq<(bool, Seq<char>)>) -> Seq<Seq<char>> {
    dedup(page_keys(items))
}

/// On how many pages `key` is a candidate.
pub open spec fn pages_with(cands: Seq<Seq<Seq<char>>>, key: Seq<char>) -> nat
    decreases cands.len(),
{
    if cands.len() == 0 {
        0
    } else {
        pages_with(cands.drop_last(), key) + if cands.last().contains(key) {
            1nat
        } else {
            0nat
        }
    }
}

/// A line must repeat on at least 60 % of the pages (rounded up).
pub open spec fn min_occurrences(n: nat) -> nat {
    (3 * n + 4) / 5
}

/// `key` repeats on enough pages of the document.
pub open spec fn is_repeating(cands: Seq<Seq<Seq<char>>>, key: Seq<char>) -> bool {
    pages_with(cands, key) >= min_occurrences(cands.len())
}

/// Some candidate of some page repeats.
pub open spec fn any_repeating(cands: Seq<Seq<Seq<char>>>) -> bool {
    exists|p: int, k: int|
        0 <= p < cands.len() && 0 <= k < cands[p].len() && is_repeating(cands, #[trigger] cands[p][k])
}

/// View of an item: whether it lies in a band, and its string.
pub open spec fn item_view(i: BandItem) -> (bool, Seq<char>) {
    (i.top || i.bottom, i.text@)
}

/// Candidates of every page.
pub open spec fn all_candidates(pages: Seq<PageText>) -> Seq<Seq<Seq<char>>> {
    pages.map_values(|p: PageText| page_candidates(p.items@.map_values(|i: BandItem| item_view(i))))
}

/// Whether an item stays on its page.
pub open spec fn keeps_item(cands: Seq<Seq<Seq<char>>>, item: (bool, Seq<char>)) -> bool {
    !(item.0 && is_repeating(cands, trim(item.1)))
}

/// How many of `items` lie in the top band with trimmed string `key`.
pub open spec fn top_count(items: Seq<BandItem>, key: Seq<char>) -> nat
    decreases items.len(),
{
    if items.len() == 0 {
        0
    } else {
        let i = items.last();
        top_count(items.drop_last(), key) + if i.top && trim(i.text@) == key {
            1nat
        } else {
            0nat
        }
    }
}

/// How many of `items` lie in the bottom band (and not the top one) with
/// trimmed string `key`.
pub open spec fn bottom_count(items: Seq<BandItem>, key: Seq<char>) -> nat
    decreases items.len(),
{
    if items.len() == 0 {
        0
    } else {
        let i = items.last();
        bottom_count(items.drop_last(), key) + if !i.top && i.bottom && trim(i.text@) == key {
            1nat
        } else {
            0nat
        }
    }
}

/// How many of `lines` read `key` once trimmed.
pub open spec fn lines_with(lines: Seq<Seq<char>>, key: Seq<char>) -> nat
    decreases lines.len(),
{
    if lines.len() == 0 {
        0
    } else {
        lines_with(lines.drop_last(), key) + if trim(lines.last()) == key {
            1nat
        } else {
            0nat
        }
    }
}

/// Line `j` of a page's text is a running header or footer line: its
/// trimmed text repeats across the document, and it is one of the first
/// lines with that text as many as the page has top-band items with it,
/// or one of the last as many as it has bottom-band items with it. The
/// other lines with that text come from mid-page items and stay.
pub open spec fn is_running_line(
    cands: Seq<Seq<Seq<char>>>,
    items: Seq<BandItem>,
    lines: Seq<Seq<char>>,
    j: int,
) -> bool {
    let key = trim(lines[j]);
    is_repeating(cands, key) && (lines_with(lines.take(j), key) < top_count(items, key)
        || lines_with(lines.skip(j + 1), key) < bottom_count(items, key))
}

/// The first `n` lines of a page's text, without its running lines.
pub open spec fn kept_lines(
    cands: Seq<Seq<Seq<char>>>,
    items: Seq<BandItem>,
    lines: Seq<Seq<char>>,
    n: nat,
) -> Seq<Seq<char>>
    decreases n,
{
    if n == 0 {
        Seq::empty()
    } else {
        let r = kept_lines(cands, items, lines, (n - 1) as nat);
        if is_running_line(cands, items, lines, n - 1) {
            r
        } else {
            r.push(lines[n - 1])
        }
    }
}

/// The page text with its running header and footer lines removed, the
/// other lines rejoined by `'\n'`.
pub open spec fn stripped_text(cands: Seq<Seq<Seq<char>>>, page: PageText) -> Seq<char> {
    let lines = lines_of(page.text@);
    join_seq(kept_lines(cands, page.items@, lines, lines.len()), "\n"@)
}

/// `None` when nothing changes (fewer than three pages, or no repeating
/// line); otherwise what happens to each page.
pub open spec fn strip_plan_ok(pages: Seq<PageText>, r: Option<Vec<PageStrip>>) -> bool {
    let cands = all_candidates(pages);
    if pages.len() < 3 || !any_repeating(cands) {
        r is None
    } else {
        r matches Some(v) && v@.len() == pages.len() && forall|p: int|
            0 <= p < pages.len() ==> {
                let items = (#[trigger] pages[p]).items@;
                &&& v@[p].keep@.len() == items.len()
                &&& forall|i: int|
                    0 <= i < items.len() ==> v@[p].keep@[i] == keeps_item(
                        cands,
                        #[trigger] item_view(items[i]),
                    )
                &&& v@[p].text@ == stripped_text(cands, pages[p])
            }
    }
}

/// The items of a page that a keep mask retains, in order.
pub open spec fn kept_items(items: Seq<BandItem>, keep: Seq<bool>) -> Seq<BandItem>
    decreases items.len(),
{
    if items.len() == 0 {
        Seq::empty()
    } else {
        let r = kept_items(items.drop_last(), keep);
        if keep[items.len() - 1] {
            r.push(items.last())
        } else {
            r
        }
    }
}

/// `next` is what `pages` become once a plan `r` is carried out: each
/// page keeps the items its mask retains and takes the new text.
pub open spec fn applies_plan(pages: Seq<PageText>, r: Option<Vec<PageStrip>>, next: Seq<PageText>) -> bool {
    match r {
        None => next == pages,
        Some(v) => next.len() == pages.len() && v@.len() == pages.len() && forall|p: int|
            0 <= p < pages.len() ==> {
                &&& (#[trigger] next[p]).items@ == kept_items(pages[p].items@, v@[p].keep@)
                &&& next[p].text@ == v@[p].text@
            },
    }
}

fn digits_or_whitespace(s: &Vec<char>) -> (r: bool)
    ensures
        r == digits_or_ws(s@),
{
    let mut k: usize = 0;
    while k < s.len()
        invariant
            k <= s.len(),
            forall|j: int| 0 <= j < k ==> is_digit(#[trigger] s@[j]) || is_ws(s@[j]),
        decreases s.len() - k,
    {
        let c = s[k];
        if !(('0' <= c && c <= '9') || is_whitespace(c)) {
            return false;
        }
        k += 1;
    }
    true
}

fn contains_key(set: &Vec<Vec<char>>, t: &Vec<char>) -> (r: bool)
    ensures
        r == set@.map_values(|v: Vec<char>| v@).contains(t@),
{
    let ghost sv = set@.map_values(|v: Vec<char>| v@);
    let mut k: usize = 0;
    while k < set.len()
        invariant
            k <= set.len(),
            sv == set@.map_values(|v: Vec<char>| v@),
            forall|j: int| 0 <= j < k ==> sv[j] != t@,
        decreases set.len() - k,
    {
        if chars_eq(&set[k], t) {
            assert(sv[k as int] == t@);
            return true;
        }
        k += 1;
    }
    false
}

fn key_of(item: &BandItem) -> (r: Option<Vec<char>>)
    ensures
        r matches Some(k) ==> item_key(item_view(*item)) == Some(k@),
        r is None ==> item_key(item_view(*item)) is None,
{
    if !(item.top || item.bottom) {
        return None;
    }
    let key = trim_vec(&chars_of(item.text.as_str()));
    let s = string_of(&key);
    if utf8_len_capped(s.as_str(), 4) < 4 {
        return None;
    }
    if digits_or_whitespace(&key) {
        return None;
    }
    Some(key)
}

fn candidates_of(page: &PageText) -> (r: Vec<Vec<char>>)
    ensures
        r@.map_values(|v: Vec<char>| v@) == page_candidates(
            page.items@.map_values(|i: BandItem| item_view(i)),
        ),
{
    let ghost items = page.items@.map_values(|i: BandItem| item_view(i));
    let mut out: Vec<Vec<char>> = Vec::new();
    let mut i: usize = 0;
    while i < page.items.len()
        invariant
            i <= page.items.len(),
            items == page.items@.map_values(|i: BandItem| item_view(i)),
            out@.map_values(|v: Vec<char>| v@) == dedup(page_keys(items.take(i as int))),
        decreases page.items.len() - i,
    {
        proof {
            assert(items.take(i + 1).drop_last() =~= items.take(i as int));
            assert(items.take(i + 1).last() == item_view(page.items@[i as int]));
        }
        match key_of(&page.items[i]) {
            Some(k) => {
                let ghost keys = page_keys(items.take(i + 1));
                assert(keys.drop_last() =~= page_keys(items.take(i as int)));
                let ghost ov = out@.map_values(|v: Vec<char>| v@);
                if !contains_key(&out, &k) {
                    out.push(k);
                    assert(out@.map_values(|v: Vec<char>| v@) =~= ov.push(keys.last()));
                }
            },
            None => {},
        }
        i += 1;
    }
    assert(items.take(page.items.len() as int) =~= items);
    out
}

fn count_pages_with(cands: &Vec<Vec<Vec<char>>>, key: &Vec<char>) -> (n: usize)
    ensures
        n as nat == pages_with(cands@.map_values(|c: Vec<Vec<char>>| c@.map_values(|v: Vec<char>| v@)), key@),
{
    let ghost cv = cands@.map_values(|c: Vec<Vec<char>>| c@.map_values(|v: Vec<char>| v@));
    let mut n: usize = 0;
    let mut p: usize = 0;
    while p < cands.len()
        invariant
            p <= cands.len(),
            cv == cands@.map_values(|c: Vec<Vec<char>>| c@.map_values(|v: Vec<char>| v@)),
            n as nat == pages_with(cv.take(p as int), key@),
            n <= p,
        decreases cands.len() - p,
    {
        proof {
            assert(cv.take(p + 1).drop_last() =~= cv.take(p as int));
            assert(cv.take(p + 1).last() == cands@[p as int]@.map_values(|v: Vec<char>| v@));
        }
        if contains_key(&cands[p], key) {
            n += 1;
        }
        p += 1;
    }
    assert(cv.take(cands.len() as int) =~= cv);
    n
}

fn count_lines_with(lines: &Vec<Vec<char>>, key: &Vec<char>, lo: usize, hi: usize) -> (n: usize)
    requires
        lo <= hi <= lines.len(),
    ensures
        n as nat == lines_with(lines@.map_values(|v: Vec<char>| v@).subrange(lo as int, hi as int), key@),
{
    let ghost lv = lines@.map_values(|v: Vec<char>| v@);
    let mut n: usize = 0;
    let mut i: usize = lo;
    while i < hi
        invariant
            lo <= i <= hi <= lines.len(),
            lv == lines@.map_values(|v: Vec<char>| v@),
            n as nat == lines_with(lv.subrange(lo as int, i as int), key@),
            n <= i - lo,
        decreases hi - i,
    {
        proof {
            assert(lv.subrange(lo as int, i + 1).drop_last() =~= lv.subrange(lo as int, i as int));
            assert(lv.subrange(lo as int, i + 1).last() == lines@[i as int]@);
        }
        let t = trim_vec(&lines[i]);
        if chars_eq(&t, key) {
            n += 1;
        }
        i += 1;
    }
    n
}

fn count_top(items: &Vec<BandItem>, key: &Vec<char>) -> (n: usize)
    ensures
        n as nat == top_count(items@, key@),
{
    let mut n: usize = 0;
    let mut i: usize = 0;
    while i < items.len()
        invariant
            i <= items.len(),
            n as nat == top_count(items@.take(i as int), key@),
            n <= i,
        decreases items.len() - i,
    {
        proof {
            assert(items@.take(i + 1).drop_last() =~= items@.take(i as int));
        }
        let it = &items[i];
        if it.top {
            let t = trim_vec(&chars_of(it.text.as_str()));
            if chars_eq(&t, key) {
                n += 1;
            }
        }
        i += 1;
    }
    assert(items@.take(items.len() as int) =~= items@);
    n
}

fn count_bottom(items: &Vec<BandItem>, key: &Vec<char>) -> (n: usize)
    ensures
        n as nat == bottom_count(items@, key@),
{
    let mut n: usize = 0;
    let mut i: usize = 0;
    while i < items.len()
        invariant
            i <= items.len(),
            n as nat == bottom_count(items@.take(i as int), key@),
            n <= i,
        decreases items.len() - i,
    {
        proof {
            assert(items@.take(i + 1).drop_last() =~= items@.take(i as int));
        }
        let it = &items[i];
        if !it.top && it.bottom {
            let t = trim_vec(&chars_of(it.text.as_str()));
            if chars_eq(&t, key) {
                n += 1;
            }
        }
        i += 1;
    }
    assert(items@.take(items.len() as int) =~= items@);
    n
}

/// Detect and strip running headers and footers: band items whose trimmed
/// text is the key of an item in the top or bottom band on at least 60 % of
/// the pages (three pages or more), and the text lines they stand for.
/// Mid-page occurrences of such a text are never stripped. Returns `None`
/// when nothing changes, and otherwise, per page, which items stay and the
/// text with the running lines removed.
pub fn strip_repeating_running_text(pages: &Vec<PageText>) -> (r: Option<Vec<PageStrip>>)
    ensures
        strip_plan_ok(pages@, r),
{
    let n_pages = pages.len();
    let ghost cands = all_candidates(pages@);
    if n_pages < 3 {
        return None;
    }
    let mut cs: Vec<Vec<Vec<char>>> = Vec::new();
    let mut p: usize = 0;
    while p < n_pages
        invariant
            p <= n_pages == pages.len(),
            cands == all_candidates(pages@),
            cs@.len() == p,
            forall|q: int| 0 <= q < p ==> cs@[q]@.map_values(|v: Vec<char>| v@) == #[trigger] cands[q],
        decreases n_pages - p,
    {
        let c = candidates_of(&pages[p]);
        cs.push(c);
        p += 1;
    }
    let ghost cv = cs@.map_values(|c: Vec<Vec<char>>| c@.map_values(|v: Vec<char>| v@));
    assert(cv =~= cands);
    let min_occ: usize = ((3 * (n_pages as u128) + 4) / 5) as usize;
    // Is any candidate repeating?
    let mut found = false;
    let mut q: usize = 0;
    while q < n_pages && !found
        invariant
            q <= n_pages == pages.len() == cs.len(),
            cv == cands,
            cv == cs@.map_values(|c: Vec<Vec<char>>| c@.map_values(|v: Vec<char>| v@)),
            min_occ as nat == min_occurrences(n_pages as nat),
            cands.len() == n_pages,
            found ==> any_repeating(cands),
            !found ==> forall|a: int, b: int|
                0 <= a < q && 0 <= b < cands[a].len() ==> !is_repeating(cands, #[trigger] cands[a][b]),
        decreases n_pages - q, if found { 0int } else { 1int },
    {
        let mut k: usize = 0;
        while k < cs[q].len() && !found
            invariant
                q < n_pages == pages.len() == cs.len(),
                cv == cands,
                cv == cs@.map_values(|c: Vec<Vec<char>>| c@.map_values(|v: Vec<char>| v@)),
                min_occ as nat == min_occurrences(n_pages as nat),
                cands.len() == n_pages,
                k <= cs@[q as int].len(),
                cands[q as int] == cs@[q as int]@.map_values(|v: Vec<char>| v@),
                found ==> any_repeating(cands),
                !found ==> forall|a: int, b: int|
                    0 <= a < q && 0 <= b < cands[a].len() ==> !is_repeating(cands, #[trigger] cands[a][b]),
                !found ==> forall|b: int| 0 <= b < k ==> !is_repeating(cands, #[trigger] cands[q as int][b]),
            decreases cs@[q as int].len() - k, if found { 0int } else { 1int },
        {
            let cnt = count_pages_with(&cs, &cs[q][k]);
            assert(cands[q as int][k as int] == cs@[q as int]@[k as int]@);
            if cnt >= min_occ {
                found = true;
                assert(is_repeating(cands, cands[q as int][k as int]));
            } else {
                k += 1;
            }
        }
        if !found {
            q += 1;
        }
    }
    if !found {
        return None;
    }
    let mut out: Vec<PageStrip> = Vec::new();
    let mut p: usize = 0;
    while p < n_pages
        invariant
            p <= n_pages == pages.len() == cs.len(),
            cv == cands,
            cv == cs@.map_values(|c: Vec<Vec<char>>| c@.map_values(|v: Vec<char>| v@)),
            min_occ as nat == min_occurrences(n_pages as nat),
            cands.len() == n_pages,
            out@.len() == p,
            forall|a: int|
                0 <= a < p ==> {
                    let items = (#[trigger] pages@[a]).items@;
                    &&& out@[a].keep@.len() == items.len()
                    &&& forall|i: int|
                        0 <= i < items.len() ==> out@[a].keep@[i] == keeps_item(
                            cands,
                            #[trigger] item_view(items[i]),
                        )
                    &&& out@[a].text@ == stripped_text(cands, pages@[a])
                },
        decreases n_pages - p,
    {
        let page = &pages[p];
        let mut keep: Vec<bool> = Vec::new();
        let mut i: usize = 0;
        while i < page.items.len()
            invariant
                i <= page.items.len(),
                cv == cands,
                cv == cs@.map_values(|c: Vec<Vec<char>>| c@.map_values(|v: Vec<char>| v@)),
                min_occ as nat == min_occurrences(n_pages as nat),
                cands.len() == n_pages,
                keep@.len() == i,
                forall|j: int|
                    0 <= j < i ==> keep@[j] == keeps_item(cands, #[trigger] item_view(page.items@[j])),
            decreases page.items.len() - i,
        {
            let item = &page.items[i];
            let k = if item.top || item.bottom {
                let key = trim_vec(&chars_of(item.text.as_str()));
                let cnt = count_pages_with(&cs, &key);
                !(cnt >= min_occ)
            } else {
                true
            };
            keep.push(k);
            i += 1;
        }
        let lines = lines_vec(&chars_of(page.text.as_str()));
        let ghost lv = lines@.map_values(|v: Vec<char>| v@);
        let mut kept: Vec<Vec<char>> = Vec::new();
        let mut j: usize = 0;
        while j < lines.len()
            invariant
                j <= lines.len(),
                cv == cands,
                cv == cs@.map_values(|c: Vec<Vec<char>>| c@.map_values(|v: Vec<char>| v@)),
                min_occ as nat == min_occurrences(n_pages as nat),
                cands.len() == n_pages,
                lv == lines@.map_values(|v: Vec<char>| v@),
                lv == lines_of(page.text@),
                kept@.map_values(|v: Vec<char>| v@) == kept_lines(cands, page.items@, lv, j as nat),
            decreases lines.len() - j,
        {
            let t = trim_vec(&lines[j]);
            assert(lv[j as int] == lines@[j as int]@);
            let cnt = count_pages_with(&cs, &t);
            let mut running = false;
            if cnt >= min_occ {
                let before = count_lines_with(&lines, &t, 0, j);
                let after = count_lines_with(&lines, &t, j + 1, lines.len());
                let top = count_top(&page.items, &t);
                let bottom = count_bottom(&page.items, &t);
                assert(lv.take(j as int) =~= lv.subrange(0, j as int));
                assert(lv.skip(j + 1) =~= lv.subrange(j + 1, lines.len() as int));
                running = before < top || after < bottom;
            }
            assert(running == is_running_line(cands, page.items@, lv, j as int));
            let ghost kv = kept@.map_values(|v: Vec<char>| v@);
            if !running {
                let c = copy_range(&lines[j], 0, lines[j].len());
                assert(c@ =~= lines@[j as int]@);
                kept.push(c);
                assert(kept@.map_values(|v: Vec<char>| v@) =~= kv.push(lines@[j as int]@));
            }
            j += 1;
        }
        let text = string_of(&join_vecs(&kept, "\n"));
        out.push(PageStrip { keep, text });
        p += 1;
    }
    Some(out)
}


/// Every key of a page is a real header/footer key: at least four bytes
/// and not just digits and blanks.
proof fn lemma_keys_are_real(items: Seq<(bool, Seq<char>)>)
    ensures
        forall|k: int|
            0 <= k < page_keys(items).len() ==> utf8_len(#[trigger] page_keys(items)[k]) >= 4
                && !digits_or_ws(page_keys(items)[k]),
    decreases items.len(),
{
    if items.len() > 0 {
        lemma_keys_are_real(items.drop_last());
        let r = page_keys(items.drop_last());
        match item_key(items.last()) {
            Some(k) => {
                assert(page_keys(items) == r.push(k));
                assert forall|j: int| 0 <= j < page_keys(items).len() implies utf8_len(
                    #[trigger] page_keys(items)[j],
                ) >= 4 && !digits_or_ws(page_keys(items)[j]) by {
                    if j < r.len() {
                        assert(page_keys(items)[j] == r[j]);
                    }
                }
            },
            None => {
                assert(page_keys(items) == r);
            },
        }
    }
}

/// Deduplication keeps only elements of its input.
proof fn lemma_dedup_subset(s: Seq<Seq<char>>, x: Seq<char>)
    ensures
        dedup(s).contains(x) ==> s.contains(x),
    decreases s.len(),
{
    if s.len() > 0 {
        lemma_dedup_subset(s.drop_last(), x);
        let d = dedup(s.drop_last());
        if dedup(s).contains(x) && x != s.last() {
            assert(d.contains(x)) by {
                let w = choose|w: int| 0 <= w < dedup(s).len() && dedup(s)[w] == x;
                if !d.contains(s.last()) {
                    assert(dedup(s) == d.push(s.last()));
                    assert(w < d.len());
                    assert(d[w] == x);
                }
            }
            let w = choose|w: int| 0 <= w < s.drop_last().len() && s.drop_last()[w] == x;
            assert(s[w] == x);
        }
        if x == s.last() {
            assert(s[s.len() - 1] == x);
        }
    }
}

/// A string that is no key of any page is on no page.
proof fn lemma_pages_with_zero(cands: Seq<Seq<Seq<char>>>, key: Seq<char>)
    requires
        forall|p: int| 0 <= p < cands.len() ==> !(#[trigger] cands[p]).contains(key),
    ensures
        pages_with(cands, key) == 0,
    decreases cands.len(),
{
    if cands.len() > 0 {
        assert(!cands[cands.len() - 1].contains(key));
        lemma_pages_with_zero(cands.drop_last(), key);
    }
}

/// What the header/footer pass never removes: items in the middle of the
/// page, and band items whose trimmed text is shorter than four bytes or
/// only digits and blanks (page numbers), in a document of any number of
/// pages.
pub proof fn running_text_keeps_body_and_page_numbers(pages: Seq<PageText>, item: (bool, Seq<char>))
    requires
        pages.len() > 0,
        !item.0 || utf8_len(trim(item.1)) < 4 || digits_or_ws(trim(item.1)),
    ensures
        keeps_item(all_candidates(pages), item),
{
    let cands = all_candidates(pages);
    if item.0 {
        let key = trim(item.1);
        assert forall|p: int| 0 <= p < cands.len() implies !(#[trigger] cands[p]).contains(key) by {
            let items = pages[p].items@.map_values(|i: BandItem| item_view(i));
            assert(cands[p] == dedup(page_keys(items)));
            lemma_keys_are_real(items);
            lemma_dedup_subset(page_keys(items), key);
            if page_keys(items).contains(key) {
                let w = choose|w: int| 0 <= w < page_keys(items).len() && page_keys(items)[w] == key;
                assert(utf8_len(page_keys(items)[w]) >= 4);
            }
        }
        lemma_pages_with_zero(cands, key);
        assert(min_occurrences(cands.len()) >= 1);
    }
}

/// Deduplication keeps every element of its input.
proof fn lemma_dedup_keeps(s: Seq<Seq<char>>, x: Seq<char>)
    ensures
        s.contains(x) ==> dedup(s).contains(x),
    decreases s.len(),
{
    if s.len() > 0 && s.contains(x) {
        let d = dedup(s.drop_last());
        if x == s.last() {
            if !d.contains(x) {
                assert(dedup(s) == d.push(x));
                assert(dedup(s)[d.len() as int] == x);
            }
        } else {
            let w = choose|w: int| 0 <= w < s.len() && s[w] == x;
            assert(s.drop_last()[w] == x);
            lemma_dedup_keeps(s.drop_last(), x);
            let u = choose|u: int| 0 <= u < d.len() && d[u] == x;
            if !d.contains(s.last()) {
                assert(dedup(s)[u] == x);
            }
        }
    }
}

/// The keys of the items a plan keeps are keys of the page that do not
/// repeat.
proof fn lemma_kept_keys(cands: Seq<Seq<Seq<char>>>, items: Seq<BandItem>, keep: Seq<bool>, x: Seq<char>)
    requires
        forall|i: int| 0 <= i < items.len() ==> keep[i] == keeps_item(cands, #[trigger] item_view(items[i])),
        page_keys(kept_items(items, keep).map_values(|i: BandItem| item_view(i))).contains(x),
    ensures
        page_keys(items.map_values(|i: BandItem| item_view(i))).contains(x),
        !is_repeating(cands, x),
    decreases items.len(),
{
    let kv = kept_items(items, keep).map_values(|i: BandItem| item_view(i));
    let iv = items.map_values(|i: BandItem| item_view(i));
    let r = kept_items(items.drop_last(), keep);
    let rv = r.map_values(|i: BandItem| item_view(i));
    assert(iv.drop_last() =~= items.drop_last().map_values(|i: BandItem| item_view(i)));
    assert(iv.last() == item_view(items.last()));
    if items.len() > 0 {
        let last = item_view(items.last());
        assert(keep[items.len() - 1] == keeps_item(cands, item_view(items[items.len() - 1])));
        let in_r = page_keys(rv).contains(x);
        if in_r {
            lemma_kept_keys(cands, items.drop_last(), keep, x);
        }
        if keep[items.len() - 1] {
            assert(kv =~= rv.push(last));
            assert(kv.drop_last() =~= rv);
            if !in_r {
                match item_key(last) {
                    Some(k) => {
                        assert(page_keys(kv) == page_keys(rv).push(k));
                        let w = choose|w: int| 0 <= w < page_keys(kv).len() && page_keys(kv)[w] == x;
                        assert(x == k);
                    },
                    None => {
                        assert(page_keys(kv) == page_keys(rv));
                    },
                }
            }
        } else {
            assert(kv =~= rv);
        }
        let pk = page_keys(iv.drop_last());
        if in_r {
            let w = choose|w: int| 0 <= w < pk.len() && pk[w] == x;
            match item_key(last) {
                Some(k) => {
                    assert(page_keys(iv) == pk.push(k));
                    assert(page_keys(iv)[w] == x);
                },
                None => {
                    assert(page_keys(iv) == pk);
                },
            }
        } else {
            assert(item_key(last) == Some(x));
            assert(page_keys(iv) == pk.push(x));
            assert(page_keys(iv)[pk.len() as int] == x);
        }
    } else {
        assert(kv.len() == 0);
    }
}

/// Fewer pages holding a key never makes it repeat more.
proof fn lemma_pages_with_mono(a: Seq<Seq<Seq<char>>>, b: Seq<Seq<Seq<char>>>, key: Seq<char>)
    requires
        a.len() == b.len(),
        forall|p: int| 0 <= p < a.len() && (#[trigger] a[p]).contains(key) ==> b[p].contains(key),
    ensures
        pages_with(a, key) <= pages_with(b, key),
    decreases a.len(),
{
    if a.len() > 0 {
        assert(a.last() == a[a.len() - 1]);
        lemma_pages_with_mono(a.drop_last(), b.drop_last(), key);
    }
}

/// The header/footer pass settles in one run: once its plan is carried
/// out, a second run over the result finds nothing more to strip.
pub proof fn running_text_second_pass_changes_nothing(
    pages: Seq<PageText>,
    r: Option<Vec<PageStrip>>,
    next: Seq<PageText>,
    again: Option<Vec<PageStrip>>,
)
    requires
        strip_plan_ok(pages, r),
        applies_plan(pages, r, next),
        strip_plan_ok(next, again),
    ensures
        again is None,
{
    if let Some(v) = r {
        let old_c = all_candidates(pages);
        let new_c = all_candidates(next);
        assert forall|p: int, k: int|
            0 <= p < new_c.len() && 0 <= k < new_c[p].len() implies !is_repeating(new_c, #[trigger] new_c[p][k]) by {
            let x = new_c[p][k];
            assert forall|q: int| 0 <= q < new_c.len() && (#[trigger] new_c[q]).contains(x) implies old_c[q].contains(x) by {
                let items = pages[q].items@;
                let keep = v@[q].keep@;
                assert forall|i: int| 0 <= i < items.len() implies keep[i] == keeps_item(old_c, #[trigger] item_view(items[i])) by {
                    assert(pages[q] == pages[q]);
                }
                let nk = page_keys(next[q].items@.map_values(|i: BandItem| item_view(i)));
                lemma_dedup_subset(nk, x);
                lemma_kept_keys(old_c, items, keep, x);
                lemma_dedup_keeps(page_keys(items.map_values(|i: BandItem| item_view(i))), x);
            }
            assert(new_c[p].contains(x)) by {
                assert(new_c[p][k] == x);
            }
            let items = pages[p].items@;
            let keep = v@[p].keep@;
            assert forall|i: int| 0 <= i < items.len() implies keep[i] == keeps_item(old_c, #[trigger] item_view(items[i])) by {
                assert(pages[p] == pages[p]);
            }
            let nk = page_keys(next[p].items@.map_values(|i: BandItem| item_view(i)));
            lemma_dedup_subset(nk, x);
            lemma_kept_keys(old_c, items, keep, x);
            lemma_pages_with_mono(new_c, old_c, x);
        }
    }
}

/// A key on some page's candidate list when it is on any page at all.
proof fn lemma_pages_with_positive(cands: Seq<Seq<Seq<char>>>, key: Seq<char>)
    requires
        pages_with(cands, key) > 0,
    ensures
        exists|p: int| 0 <= p < cands.len() && (#[trigger] cands[p]).contains(key),
    decreases cands.len(),
{
    if cands.last().contains(key) {
        assert(cands[cands.len() - 1].contains(key));
    } else {
        lemma_pages_with_positive(cands.drop_last(), key);
        let p = choose|p: int| 0 <= p < cands.drop_last().len() && (#[trigger] cands.drop_last()[p]).contains(key);
        assert(cands[p] == cands.drop_last()[p]);
    }
}

/// Running headers and footers are exactly the band texts found on at
/// least 60 % of the pages. In a document of three pages or more, an item
/// in the top or bottom band whose trimmed text is a candidate on `k` of
/// the `n` pages with `5k >= 3n` is stripped (so there is a plan), and one
/// whose text is a candidate on fewer pages (`5k < 3n`) stays.
pub proof fn running_text_threshold_is_sixty_percent(
    pages: Seq<PageText>,
    r: Option<Vec<PageStrip>>,
    p: int,
    i: int,
)
    requires
        strip_plan_ok(pages, r),
        pages.len() >= 3,
        0 <= p < pages.len(),
        0 <= i < pages[p].items@.len(),
        pages[p].items@[i].top || pages[p].items@[i].bottom,
    ensures
        5 * pages_with(all_candidates(pages), trim(pages[p].items@[i].text@)) >= 3 * pages.len() ==> (
        r matches Some(v) && !v@[p].keep@[i]),
        5 * pages_with(all_candidates(pages), trim(pages[p].items@[i].text@)) < 3 * pages.len() ==> (
        r matches Some(v) ==> v@[p].keep@[i]),
{
    let cands = all_candidates(pages);
    let item = pages[p].items@[i];
    let key = trim(item.text@);
    let k = pages_with(cands, key);
    let n = pages.len();
    assert(cands.len() == n);
    vstd::arithmetic::div_mod::lemma_fundamental_div_mod((3 * n + 4) as int, 5int);
    assert(is_repeating(cands, key) <==> 5 * k >= 3 * n);
    assert(item_view(item) == (true, item.text@));
    if 5 * k >= 3 * n {
        lemma_pages_with_positive(cands, key);
        let q = choose|q: int| 0 <= q < cands.len() && (#[trigger] cands[q]).contains(key);
        let j = choose|j: int| 0 <= j < cands[q].len() && cands[q][j] == key;
        assert(is_repeating(cands, cands[q][j]));
        assert(any_repeating(cands));
    }
    if let Some(v) = r {
        let items = pages[p].items@;
        assert(v@[p].keep@[i] == keeps_item(cands, item_view(items[i])));
    }
}

/// An item's key is among its page's keys.
proof fn lemma_key_in_page_keys(items: Seq<(bool, Seq<char>)>, i: int)
    requires
        0 <= i < items.len(),
        item_key(items[i]) is Some,
    ensures
        page_keys(items).contains(item_key(items[i])->0),
    decreases items.len(),
{
    let k = item_key(items[i])->0;
    let r = page_keys(items.drop_last());
    if i == items.len() - 1 {
        assert(page_keys(items) == r.push(k));
        assert(page_keys(items)[r.len() as int] == k);
    } else {
        assert(items.drop_last()[i] == items[i]);
        lemma_key_in_page_keys(items.drop_last(), i);
        let w = choose|w: int| 0 <= w < r.len() && r[w] == k;
        match item_key(items.last()) {
            Some(k2) => {
                assert(page_keys(items) == r.push(k2));
                assert(page_keys(items)[w] == k);
            },
            None => {
                assert(page_keys(items) == r);
            },
        }
    }
}

/// Every band text of at least four bytes that is not just digits and
/// blanks counts for its page: it is one of the page's candidates, so it
/// adds to the number of pages it is found on.
pub proof fn band_texts_are_candidates(pages: Seq<PageText>, p: int, i: int)
    requires
        0 <= p < pages.len(),
        0 <= i < pages[p].items@.len(),
        pages[p].items@[i].top || pages[p].items@[i].bottom,
        utf8_len(trim(pages[p].items@[i].text@)) >= 4,
        exists|k: int|
            0 <= k < trim(pages[p].items@[i].text@).len() && !('0' <= #[trigger] trim(
                pages[p].items@[i].text@,
            )[k] && trim(pages[p].items@[i].text@)[k] <= '9') && !is_ws(
                trim(pages[p].items@[i].text@)[k],
            ),
    ensures
        all_candidates(pages)[p].contains(trim(pages[p].items@[i].text@)),
{
    let items = pages[p].items@.map_values(|it: BandItem| item_view(it));
    let key = trim(pages[p].items@[i].text@);
    assert(items[i] == item_view(pages[p].items@[i]));
    let k = choose|k: int|
        0 <= k < key.len() && !('0' <= #[trigger] key[k] && key[k] <= '9') && !is_ws(key[k]);
    assert(!(is_digit(key[k]) || is_ws(key[k])));
    assert(item_key(items[i]) == Some(key));
    lemma_key_in_page_keys(items, i);
    lemma_dedup_keeps(page_keys(items), key);
}

} // verus!
