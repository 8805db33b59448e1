//! The text processing of `fs.edit`: finding the occurrences of a string,
//! replacing them, and describing the edited lines.
//!
//! Text is handled as characters. Occurrences of a well-formed needle in
//! well-formed UTF-8 start at character boundaries, so character positions
//! and byte offsets find the same occurrences and the same lines.

use vstd::prelude::*;

use crate::local_fs_tools::{normalize_rel_path, slash_normalized};
use crate::text::{chars_of, decimal, decimal_chars, extend_chars, extend_str, slice_chars, string_of};

verus! {

/// Whether `n` occurs in `h` at position `i`.
pub open spec fn matches_at(h: Seq<char>, n: Seq<char>, i: int) -> bool {
    0 <= i && i + n.len() <= h.len() && h.subrange(i, i + n.len()) == n
}

/// The first position at or after `from` where the non-empty `n` occurs in `h`.
pub open spec fn next_match(h: Seq<char>, n: Seq<char>, from: int) -> Option<int>
    decreases h.len() - from,
{
    if n.len() == 0 || from < 0 || from + n.len() > h.len() {
        None
    } else if matches_at(h, n, from) {
        Some(from)
    } else {
        next_match(h, n, from + 1)
    }
}

/// The positions of the non-overlapping occurrences of `n` in `h` at or
/// after `from`, each search resuming after the previous occurrence.
pub open spec fn occurrences_from(h: Seq<char>, n: Seq<char>, from: int) -> Seq<int>
    decreases h.len() - from,
{
    match next_match(h, n, from) {
        Some(i) => if from <= i && i + n.len() <= h.len() && n.len() > 0 {
            seq![i] + occurrences_from(h, n, i + n.len())
        } else {
            seq![]
        },
        None => seq![],
    }
}

/// `h[from..]` with every occurrence found by `occurrences_from` replaced by `r`.
pub open spec fn replace_from(h: Seq<char>, n: Seq<char>, r: Seq<char>, from: int) -> Seq<char>
    decreases h.len() - from,
{
    match next_match(h, n, from) {
        Some(i) => if from <= i && i + n.len() <= h.len() && n.len() > 0 {
            h.subrange(from, i) + r + replace_from(h, n, r, i + n.len())
        } else {
            h.subrange(from, h.len() as int)
        },
        None => h.subrange(from, h.len() as int),
    }
}

/// `h` with its first occurrence of `n` replaced by `r` (what `str::replacen`
/// does with a count of one).
pub open spec fn replace_first(h: Seq<char>, n: Seq<char>, r: Seq<char>) -> Seq<char> {
    match next_match(h, n, 0) {
        Some(i) => h.subrange(0, i) + r + h.subrange(i + n.len(), h.len() as int),
        None => h,
    }
}

/// What `next_match` finds: the first occurrence at or after `from`.
pub proof fn lemma_next_match(h: Seq<char>, n: Seq<char>, from: int)
    requires
        0 <= from,
    ensures
        match next_match(h, n, from) {
            Some(i) => from <= i && matches_at(h, n, i) && n.len() > 0 && forall|j: int|
                from <= j < i ==> !matches_at(h, n, j),
            None => n.len() == 0 || forall|j: int| from <= j ==> !matches_at(h, n, j),
        },
    decreases h.len() - from,
{
    if n.len() == 0 || from + n.len() > h.len() {
    } else if matches_at(h, n, from) {
    } else {
        lemma_next_match(h, n, from + 1);
    }
}

/// Every position of `occurrences_from` is an occurrence, in increasing order.
pub proof fn lemma_occurrences_sorted(h: Seq<char>, n: Seq<char>, from: int)
    requires
        0 <= from,
    ensures
        forall|k: int|
            0 <= k < occurrences_from(h, n, from).len() ==> from <= #[trigger] occurrences_from(
                h,
                n,
                from,
            )[k] && matches_at(h, n, occurrences_from(h, n, from)[k]),
        forall|k: int|
            0 <= k < occurrences_from(h, n, from).len() - 1 ==> #[trigger] occurrences_from(
                h,
                n,
                from,
            )[k] + n.len() <= occurrences_from(h, n, from)[k + 1],
    decreases h.len() - from,
{
    lemma_next_match(h, n, from);
    match next_match(h, n, from) {
        Some(i) => {
            if from <= i && i + n.len() <= h.len() && n.len() > 0 {
                let rest = occurrences_from(h, n, i + n.len());
                lemma_occurrences_sorted(h, n, i + n.len());
                let all = occurrences_from(h, n, from);
                assert(all == seq![i] + rest);
                assert forall|k: int| 0 <= k < all.len() implies from <= #[trigger] all[k]
                    && matches_at(h, n, all[k]) by {
                    if k > 0 {
                        assert(all[k] == rest[k - 1]);
                    }
                }
                assert forall|k: int| 0 <= k < all.len() - 1 implies #[trigger] all[k] + n.len()
                    <= all[k + 1] by {
                    if k > 0 {
                        assert(all[k] == rest[k - 1]);
                        assert(all[k + 1] == rest[k]);
                    } else {
                        assert(all[1] == rest[0]);
                    }
                }
            }
        },
        None => {},
    }
}

fn matches_here(h: &[char], n: &[char], i: usize) -> (r: bool)
    requires
        i + n@.len() <= h@.len(),
    ensures
        r == matches_at(h@, n@, i as int),
{
    let hl = h.len();
    let mut k: usize = 0;
    while k < n.len()
        invariant
            hl == h@.len(),
            i + n@.len() <= h@.len(),
            k <= n@.len(),
            forall|j: int| 0 <= j < k ==> h@[i + j] == n@[j],
        decreases n@.len() - k,
    {
        if h[i + k] != n[k] {
            assert(h@.subrange(i as int, i + n@.len())[k as int] != n@[k as int]);
            return false;
        }
        k += 1;
    }
    assert(h@.subrange(i as int, i + n@.len()) =~= n@);
    true
}

/// The first occurrence of `n` in `h` at or after `from`.
pub(crate) fn find_from(h: &[char], n: &[char], from: usize) -> (r: Option<usize>)
    ensures
        match r {
            Some(i) => next_match(h@, n@, from as int) == Some(i as int),
            None => next_match(h@, n@, from as int) is None,
        },
{
    if n.len() == 0 || n.len() > h.len() {
        return None;
    }
    let hl = h.len();
    let last = hl - n.len();
    let mut i = from;
    while i <= last
        invariant
            hl == h@.len(),
            last == h@.len() - n@.len(),
            n@.len() > 0,
            from <= i,
            next_match(h@, n@, from as int) == next_match(h@, n@, i as int),
        decreases last + 1 - i,
    {
        if matches_here(h, n, i) {
            return Some(i);
        }
        i += 1;
    }
    None
}

/// The positions as integers.
pub open spec fn positions_view(v: Seq<usize>) -> Seq<int> {
    v.map_values(|p: usize| p as int)
}

/// The positions of the non-overlapping occurrences of `n` in `h`
/// (none when `n` is empty).
pub fn find_occurrences(h: &[char], n: &[char]) -> (r: Vec<usize>)
    ensures
        positions_view(r@) == occurrences_from(h@, n@, 0),
{
    let mut out: Vec<usize> = Vec::new();
    if n.len() == 0 {
        return out;
    }
    let ghost total = occurrences_from(h@, n@, 0);
    let hl = h.len();
    let mut off: usize = 0;
    let mut done = false;
    while !done
        invariant
            hl == h@.len(),
            n@.len() > 0,
            off <= h@.len(),
            positions_view(out@) + occurrences_from(h@, n@, off as int) == total,
            done ==> occurrences_from(h@, n@, off as int) == Seq::<int>::empty(),
        decreases h@.len() - off + (if done {
            0int
        } else {
            1int
        }),
    {
        proof {
            lemma_next_match(h@, n@, off as int);
        }
        match find_from(h, n, off) {
            None => {
                done = true;
            },
            Some(i) => {
                let ghost before = out@;
                out.push(i);
                assert(positions_view(out@) =~= positions_view(before).push(i as int));
                assert(occurrences_from(h@, n@, off as int) == seq![i as int] + occurrences_from(
                    h@,
                    n@,
                    i + n@.len(),
                ));
                assert(positions_view(before).push(i as int) + occurrences_from(
                    h@,
                    n@,
                    i + n@.len(),
                ) =~= positions_view(before) + (seq![i as int] + occurrences_from(
                    h@,
                    n@,
                    i + n@.len(),
                )));
                off = i + n.len();
            },
        }
    }
    assert(positions_view(out@) =~= total);
    out
}

/// `h` with every occurrence of `n` replaced by `r` (what `str::replace` does).
pub(crate) fn replace_all_chars(h: &[char], n: &[char], r: &[char]) -> (out: Vec<char>)
    requires
        n@.len() > 0,
    ensures
        out@ == replace_from(h@, n@, r@, 0),
{
    let ghost total = replace_from(h@, n@, r@, 0);
    let mut out: Vec<char> = Vec::new();
    let hl = h.len();
    let mut off: usize = 0;
    let mut done = false;
    while !done
        invariant
            hl == h@.len(),
            n@.len() > 0,
            off <= h@.len(),
            !done ==> out@ + replace_from(h@, n@, r@, off as int) == total,
            done ==> out@ == total,
        decreases h@.len() - off + (if done {
            0int
        } else {
            1int
        }),
    {
        proof {
            lemma_next_match(h@, n@, off as int);
        }
        match find_from(h, n, off) {
            None => {
                let tail = slice_chars(h, off, h.len());
                let ghost before = out@;
                extend_chars(&mut out, tail.as_slice());
                done = true;
            },
            Some(i) => {
                let piece = slice_chars(h, off, i);
                let ghost before = out@;
                extend_chars(&mut out, piece.as_slice());
                extend_chars(&mut out, r);
                assert(replace_from(h@, n@, r@, off as int) == h@.subrange(off as int, i as int)
                    + r@ + replace_from(h@, n@, r@, i + n@.len()));
                assert(before + replace_from(h@, n@, r@, off as int) =~= out@ + replace_from(
                    h@,
                    n@,
                    r@,
                    i + n@.len(),
                ));
                off = i + n.len();
            },
        }
    }
    out
}

/// `h` with its first occurrence of `n` replaced by `r`.
fn replace_first_chars(h: &[char], n: &[char], r: &[char]) -> (out: Vec<char>)
    ensures
        out@ == replace_first(h@, n@, r@),
{
    proof {
        lemma_next_match(h@, n@, 0);
    }
    let hl = h.len();
    match find_from(h, n, 0) {
        None => slice_chars(h, 0, h.len()),
        Some(i) => {
            let mut out = slice_chars(h, 0, i);
            extend_chars(&mut out, r);
            let tail = slice_chars(h, i + n.len(), h.len());
            extend_chars(&mut out, tail.as_slice());
            out
        },
    }
}

/// The positions of the newline characters of `h`, in increasing order.
pub open spec fn newline_positions(h: Seq<char>) -> Seq<int>
    decreases h.len(),
{
    if h.len() == 0 {
        seq![]
    } else {
        let p = newline_positions(h.drop_last());
        if h.last() == '\n' {
            p.push(h.len() - 1)
        } else {
            p
        }
    }
}

/// How many elements of `s` are below `x`.
pub open spec fn count_below(s: Seq<int>, x: int) -> nat
    decreases s.len(),
{
    if s.len() == 0 {
        0
    } else {
        count_below(s.drop_last(), x) + if s.last() < x {
            1nat
        } else {
            0nat
        }
    }
}

/// The 1-based number of the line holding position `i` of `h`.
pub open spec fn line_at(h: Seq<char>, i: int) -> int {
    1 + count_below(newline_positions(h), i) as int
}

proof fn lemma_newline_positions(h: Seq<char>)
    ensures
        newline_positions(h).len() <= h.len(),
        forall|k: int|
            0 <= k < newline_positions(h).len() ==> k <= #[trigger] newline_positions(h)[k] < h.len()
                && h[newline_positions(h)[k]] == '\n',
        forall|a: int, b: int|
            0 <= a < b < newline_positions(h).len() ==> #[trigger] newline_positions(h)[a]
                < #[trigger] newline_positions(h)[b],
    decreases h.len(),
{
    if h.len() > 0 {
        let d = h.drop_last();
        lemma_newline_positions(d);
        let p = newline_positions(d);
        assert forall|k: int| 0 <= k < p.len() implies h[p[k]] == '\n' by {
            assert(d[p[k]] == h[p[k]]);
        }
    }
}

/// `count_below` of a sequence split by `x` at `lo`.
proof fn lemma_count_below_split(s: Seq<int>, x: int, lo: int)
    requires
        0 <= lo <= s.len(),
        forall|k: int| 0 <= k < lo ==> #[trigger] s[k] < x,
        forall|k: int| lo <= k < s.len() ==> #[trigger] s[k] >= x,
    ensures
        count_below(s, x) == lo,
    decreases s.len(),
{
    if s.len() > 0 {
        let d = s.drop_last();
        if lo == s.len() {
            assert(s[s.len() - 1] < x);
            lemma_count_below_split(d, x, lo - 1);
        } else {
            assert(s[s.len() - 1] >= x);
            lemma_count_below_split(d, x, lo);
        }
    }
}

/// The positions of the newlines of `h`.
fn newline_indices(h: &[char]) -> (r: Vec<usize>)
    ensures
        positions_view(r@) == newline_positions(h@),
{
    let mut r: Vec<usize> = Vec::new();
    let mut i: usize = 0;
    while i < h.len()
        invariant
            i <= h@.len(),
            positions_view(r@) == newline_positions(h@.take(i as int)),
        decreases h@.len() - i,
    {
        let ghost before = r@;
        assert(h@.take(i + 1).drop_last() =~= h@.take(i as int));
        if h[i] == '\n' {
            r.push(i);
            assert(positions_view(r@) =~= positions_view(before).push(i as int));
        }
        i += 1;
    }
    assert(h@.take(h@.len() as int) =~= h@);
    r
}

/// Binary search for the line of `index`: one more than the number of
/// newline positions below it.
fn line_number_at(newlines: &[usize], index: usize) -> (r: usize)
    requires
        index < usize::MAX,
        forall|a: int, b: int| 0 <= a < b < newlines@.len() ==> newlines@[a] < newlines@[b],
        forall|k: int| 0 <= k < newlines@.len() ==> k <= #[trigger] newlines@[k],
    ensures
        r == 1 + count_below(positions_view(newlines@), index as int),
{
    let mut lo: usize = 0;
    let mut hi: usize = newlines.len();
    while lo < hi
        invariant
            0 <= lo <= hi <= newlines@.len(),
            forall|a: int, b: int| 0 <= a < b < newlines@.len() ==> newlines@[a] < newlines@[b],
            forall|k: int| 0 <= k < lo ==> #[trigger] newlines@[k] < index,
            forall|k: int| hi <= k < newlines@.len() ==> #[trigger] newlines@[k] >= index,
        decreases hi - lo,
    {
        let mid = lo + (hi - lo) / 2;
        if newlines[mid] < index {
            assert forall|k: int| 0 <= k < mid + 1 implies #[trigger] newlines@[k] < index by {
                if k < mid {
                    assert(newlines@[k] < newlines@[mid as int]);
                }
            }
            lo = mid + 1;
        } else {
            assert forall|k: int| mid <= k < newlines@.len() implies #[trigger] newlines@[k]
                >= index by {
                if k > mid {
                    assert(newlines@[mid as int] < newlines@[k]);
                }
            }
            hi = mid;
        }
    }
    proof {
        let s = positions_view(newlines@);
        assert forall|k: int| 0 <= k < lo implies #[trigger] s[k] < index by {
            assert(newlines@[k] < index);
        }
        assert forall|k: int| lo <= k < s.len() implies #[trigger] s[k] >= index by {
            assert(newlines@[k] >= index);
        }
        lemma_count_below_split(s, index as int, lo as int);
        if lo > 0 {
            assert(newlines@[lo - 1] < index);
            assert(lo - 1 <= newlines@[lo - 1]);
        }
    }
    lo + 1
}

/// A range of line numbers touched by an edit, both ends included.
#[derive(Debug, Clone, Copy)]
pub struct LineRange {
    pub start: usize,
    pub end: usize,
}

/// The ranges as pairs of integers.
pub open spec fn ranges_view(v: Seq<LineRange>) -> Seq<(int, int)> {
    v.map_values(|r: LineRange| (r.start as int, r.end as int))
}

/// The lines spanned by each occurrence of a needle of length `span`.
pub open spec fn occurrence_lines(h: Seq<char>, positions: Seq<int>, span: int) -> Seq<(int, int)> {
    positions.map_values(|p: int| (line_at(h, p), line_at(h, p + span - 1)))
}

/// The line ranges of the occurrences at `positions` of a needle of length `span`.
fn build_line_ranges(h: &[char], positions: &Vec<usize>, span: usize) -> (r: Vec<LineRange>)
    requires
        span > 0,
        forall|k: int|
            0 <= k < positions@.len() ==> #[trigger] positions@[k] + span <= h@.len(),
    ensures
        ranges_view(r@) == occurrence_lines(h@, positions_view(positions@), span as int),
{
    let newlines = newline_indices(h);
    proof {
        lemma_newline_positions(h@);
        assert forall|a: int, b: int| 0 <= a < b < newlines@.len() implies newlines@[a]
            < newlines@[b] by {
            assert(positions_view(newlines@)[a] < positions_view(newlines@)[b]);
        }
        assert forall|k: int| 0 <= k < newlines@.len() implies k <= #[trigger] newlines@[k] by {
            assert(k <= positions_view(newlines@)[k]);
        }
    }
    let hl = h.len();
    let mut r: Vec<LineRange> = Vec::new();
    let mut i: usize = 0;
    while i < positions.len()
        invariant
            hl == h@.len(),
            span > 0,
            i <= positions@.len(),
            forall|k: int|
                0 <= k < positions@.len() ==> #[trigger] positions@[k] + span <= h@.len(),
            positions_view(newlines@) == newline_positions(h@),
            forall|a: int, b: int| 0 <= a < b < newlines@.len() ==> newlines@[a] < newlines@[b],
            forall|k: int| 0 <= k < newlines@.len() ==> k <= #[trigger] newlines@[k],
            ranges_view(r@) == occurrence_lines(h@, positions_view(positions@.take(i as int)), span as int),
        decreases positions@.len() - i,
    {
        let p = positions[i];
        assert(p + span <= h@.len());
        let start = line_number_at(newlines.as_slice(), p);
        let end = line_number_at(newlines.as_slice(), p + span - 1);
        let ghost before = r@;
        r.push(LineRange { start, end });
        assert(positions_view(positions@.take(i + 1)) =~= positions_view(positions@.take(i as int)).push(p as int));
        assert(ranges_view(r@) =~= ranges_view(before).push((start as int, end as int)));
        assert(occurrence_lines(h@, positions_view(positions@.take(i + 1)), span as int) =~= occurrence_lines(
            h@,
            positions_view(positions@.take(i as int)),
            span as int,
        ).push((line_at(h@, p as int), line_at(h@, p + span - 1))));
        i += 1;
    }
    assert(positions@.take(positions@.len() as int) =~= positions@);
    r
}

/// The ranges with each one that starts at most one line after the end of
/// the previous merged range folded into it.
pub open spec fn merge_ranges(rs: Seq<(int, int)>) -> Seq<(int, int)>
    decreases rs.len(),
{
    if rs.len() == 0 {
        seq![]
    } else {
        let m = merge_ranges(rs.drop_last());
        let r = rs.last();
        if m.len() > 0 && r.0 <= m.last().1 + 1 {
            if r.1 > m.last().1 {
                m.update(m.len() - 1, (m.last().0, r.1))
            } else {
                m
            }
        } else {
            m.push(r)
        }
    }
}

/// `a` for a one-line range, else `a-b`.
pub open spec fn range_text(r: (int, int)) -> Seq<char> {
    if r.0 == r.1 {
        decimal(r.0 as nat)
    } else {
        decimal(r.0 as nat) + "-"@ + decimal(r.1 as nat)
    }
}

/// The ranges' texts joined by commas.
pub open spec fn ranges_text(ms: Seq<(int, int)>) -> Seq<char>
    decreases ms.len(),
{
    if ms.len() == 0 {
        seq![]
    } else if ms.len() == 1 {
        range_text(ms[0])
    } else {
        ranges_text(ms.drop_last()) + ","@ + range_text(ms.last())
    }
}

proof fn lemma_merge_len(rs: Seq<(int, int)>)
    ensures
        merge_ranges(rs).len() <= rs.len(),
        rs.len() > 0 ==> merge_ranges(rs).len() > 0,
    decreases rs.len(),
{
    if rs.len() > 0 {
        lemma_merge_len(rs.drop_last());
    }
}

/// Merges the ranges and writes them as `a`, `a-b`, joined by commas.
fn format_line_ranges(ranges: Vec<LineRange>) -> (r: String)
    ensures
        r@ == ranges_text(merge_ranges(ranges_view(ranges@))),
{
    let ghost rv = ranges_view(ranges@);
    let mut merged: Vec<LineRange> = Vec::new();
    let mut i: usize = 0;
    while i < ranges.len()
        invariant
            i <= ranges@.len(),
            rv == ranges_view(ranges@),
            ranges_view(merged@) == merge_ranges(rv.take(i as int)),
        decreases ranges@.len() - i,
    {
        let range = ranges[i];
        let ghost m0 = merged@;
        assert(rv.take(i + 1).drop_last() =~= rv.take(i as int));
        assert(rv.take(i + 1).last() == (range.start as int, range.end as int));
        let n = merged.len();
        if n > 0 && (range.start <= merged[n - 1].end || range.start - 1 <= merged[n - 1].end) {
            let last = merged[n - 1];
            if range.end > last.end {
                merged.set(n - 1, LineRange { start: last.start, end: range.end });
                assert(ranges_view(merged@) =~= ranges_view(m0).update(
                    n - 1,
                    (last.start as int, range.end as int),
                ));
            }
        } else {
            merged.push(range);
            assert(ranges_view(merged@) =~= ranges_view(m0).push((range.start as int, range.end as int)));
        }
        i += 1;
    }
    assert(rv.take(rv.len() as int) =~= rv);
    let ghost mv = ranges_view(merged@);
    let mut out: Vec<char> = Vec::new();
    let mut k: usize = 0;
    while k < merged.len()
        invariant
            k <= merged@.len(),
            mv == ranges_view(merged@),
            out@ == ranges_text(mv.take(k as int)),
        decreases merged@.len() - k,
    {
        let range = merged[k];
        assert(mv.take(k + 1).drop_last() =~= mv.take(k as int));
        assert(mv.take(k + 1).last() == (range.start as int, range.end as int));
        if k > 0 {
            extend_str(&mut out, ",");
        }
        let a = decimal_chars(range.start as u64);
        extend_chars(&mut out, a.as_slice());
        if range.start != range.end {
            extend_str(&mut out, "-");
            let b = decimal_chars(range.end as u64);
            extend_chars(&mut out, b.as_slice());
        }
        if k == 0 {
            assert(mv.take(1) =~= seq![mv[0]]);
        }
        k += 1;
    }
    assert(mv.take(mv.len() as int) =~= mv);
    string_of(out.as_slice())
}

/// The summary of a successful edit.
pub open spec fn edit_summary(rel: Seq<char>, count: nat, lines: Seq<char>) -> Seq<char> {
    "Edited "@ + rel + " (replacements="@ + decimal(count) + ", lines "@ + lines + ")"@
}

/// The outcome of `fs.edit` on `h`: refused when `n` does not occur, or
/// occurs more than once without `replace_all`; else the updated text and a
/// summary of how many occurrences were replaced and on which lines.
pub open spec fn edit_result(rel: Seq<char>, h: Seq<char>, n: Seq<char>, r: Seq<char>, replace_all: bool) -> Result<
    (Seq<char>, Seq<char>),
    Seq<char>,
> {
    let occ = occurrences_from(h, n, 0);
    if occ.len() == 0 {
        Err("fs.edit: old_string not found"@)
    } else if !replace_all && occ.len() > 1 {
        Err("fs.edit: old_string appears multiple times"@)
    } else {
        Ok(
            (
                if replace_all {
                    replace_from(h, n, r, 0)
                } else {
                    replace_first(h, n, r)
                },
                edit_summary(
                    slash_normalized(rel),
                    occ.len(),
                    ranges_text(merge_ranges(occurrence_lines(h, occ, n.len() as int))),
                ),
            ),
        )
    }
}

/// The new contents of an edited file and the summary reported for it.
#[derive(Debug, Clone)]
pub struct EditOutcome {
    pub updated: String,
    pub summary: String,
}

/// Replaces `old_string` by `new_string` in `contents`: every occurrence
/// with `replace_all`, else the only one.
pub fn apply_edit(
    rel_path: &str,
    contents: &str,
    old_string: &str,
    new_string: &str,
    replace_all: bool,
) -> (r: Result<EditOutcome, String>)
    ensures
        match r {
            Ok(o) => edit_result(rel_path@, contents@, old_string@, new_string@, replace_all) == Ok::<
                (Seq<char>, Seq<char>),
                Seq<char>,
            >((o.updated@, o.summary@)),
            Err(e) => edit_result(rel_path@, contents@, old_string@, new_string@, replace_all)
                == Err::<(Seq<char>, Seq<char>), Seq<char>>(e@),
        },
{
    let h = chars_of(contents);
    let n = chars_of(old_string);
    let rep = chars_of(new_string);
    let matches = find_occurrences(h.as_slice(), n.as_slice());
    let ghost occ = occurrences_from(h@, n@, 0);
    if matches.len() == 0 {
        return Err(crate::text::owned("fs.edit: old_string not found"));
    }
    if !replace_all && matches.len() > 1 {
        return Err(crate::text::owned("fs.edit: old_string appears multiple times"));
    }
    proof {
        lemma_next_match(h@, n@, 0);
        lemma_occurrences_sorted(h@, n@, 0);
        assert(positions_view(matches@)[0] == occ[0]);
        assert(matches_at(h@, n@, occ[0]));
    }
    let applied = if replace_all {
        matches.clone()
    } else {
        let mut one: Vec<usize> = Vec::new();
        one.push(matches[0]);
        assert(one@ =~= matches@);
        one
    };
    assert(applied@ == matches@);
    let updated_chars = if replace_all {
        replace_all_chars(h.as_slice(), n.as_slice(), rep.as_slice())
    } else {
        replace_first_chars(h.as_slice(), n.as_slice(), rep.as_slice())
    };
    proof {
        assert forall|k: int| 0 <= k < applied@.len() implies #[trigger] applied@[k] + n@.len()
            <= h@.len() by {
            assert(positions_view(applied@)[k] == occ[k]);
            assert(matches_at(h@, n@, occ[k]));
        }
    }
    let ranges = build_line_ranges(h.as_slice(), &applied, n.len());
    let line_spec = format_line_ranges(ranges);
    let rel = normalize_rel_path(rel_path);
    let mut summary: Vec<char> = Vec::new();
    extend_str(&mut summary, "Edited ");
    let rc = chars_of(rel.as_str());
    extend_chars(&mut summary, rc.as_slice());
    extend_str(&mut summary, " (replacements=");
    let count = decimal_chars(applied.len() as u64);
    extend_chars(&mut summary, count.as_slice());
    extend_str(&mut summary, ", lines ");
    let lc = chars_of(line_spec.as_str());
    extend_chars(&mut summary, lc.as_slice());
    extend_str(&mut summary, ")");
    assert(applied@.len() == occ.len());
    Ok(EditOutcome { updated: string_of(updated_chars.as_slice()), summary: string_of(summary.as_slice()) })
}

/// With a single occurrence, replacing every occurrence and replacing the
/// first one give the same text.
pub proof fn lemma_single_occurrence_replace_agrees(h: Seq<char>, n: Seq<char>, r: Seq<char>)
    requires
        occurrences_from(h, n, 0).len() == 1,
    ensures
        replace_from(h, n, r, 0) == replace_first(h, n, r),
{
    lemma_next_match(h, n, 0);
    let i = next_match(h, n, 0)->Some_0;
    lemma_next_match(h, n, i + n.len());
    assert(occurrences_from(h, n, 0) == seq![i] + occurrences_from(h, n, i + n.len()));
    assert(occurrences_from(h, n, i + n.len()).len() == 0);
    assert(next_match(h, n, i + n.len()) is None);
    assert(replace_from(h, n, r, i + n.len()) == h.subrange(i + n.len(), h.len() as int));
    assert(replace_from(h, n, r, 0) == h.subrange(0, i) + r + replace_from(h, n, r, i + n.len()));
}

} // verus!
