//! Soft wrapping of composer lines for display.
//!
//! Wrapping is presentational: the rows of a line, one after the other, are
//! the line, so no wrap point can reach the text that is sent.

use vstd::prelude::*;
use unicode_width::UnicodeWidthChar;
use crate::text::{chars_of, is_whitespace, string_from};
#[allow(unused_imports)]
use crate::text::{is_space, texts};

verus! {

/// The number of terminal columns that a character takes by itself, as
/// `unicode-width` gives it; `None` for a control character.
pub uninterp spec fn glyph_width(c: char) -> Option<usize>;

/// Calls `unicode_width::UnicodeWidthChar::width`, whose result depends on the
/// character alone; `glyph_width` names it. Nothing is said of its value.
#[verifier::external_body]
fn unicode_columns(c: char) -> (w: Option<usize>)
    ensures
        w == glyph_width(c),
{
    c.width()
}

/// Columns that a character takes when lines are wrapped: at least one, so
/// that control and zero-width characters still advance.
pub open spec fn columns(c: char) -> nat {
    match glyph_width(c) {
        Some(w) => if w > 1 {
            w as nat
        } else {
            1
        },
        None => 1,
    }
}

/// Columns that a text takes.
pub open spec fn text_columns(s: Seq<char>) -> nat
    decreases s.len(),
{
    if s.len() == 0 {
        0
    } else {
        text_columns(s.take(s.len() - 1)) + columns(s[s.len() - 1])
    }
}

/// The length of the longest prefix of `s`, at most `k` long, that takes no
/// more than `width` columns; one character is taken in any case.
pub open spec fn fitting(s: Seq<char>, width: nat, k: nat) -> nat
    decreases k,
{
    if k <= 1 || text_columns(s.take(k as int)) <= width {
        k
    } else {
        fitting(s, width, (k - 1) as nat)
    }
}

/// The position just after the last white space among the first `k`
/// characters of `s`; 0 where there is none.
pub open spec fn after_last_space(s: Seq<char>, k: nat) -> nat
    decreases k,
{
    if k == 0 || is_space(s[k - 1]) {
        k
    } else {
        after_last_space(s, (k - 1) as nat)
    }
}

/// Where the first display row of `s` ends: after all of `s` where it fits,
/// else after the last white space that fits, else at the column limit.
pub open spec fn row_end(s: Seq<char>, width: nat) -> nat {
    let end = fitting(s, width, s.len());
    if end == s.len() || after_last_space(s, end) == 0 {
        end
    } else {
        after_last_space(s, end)
    }
}

/// The display rows of a line that is not empty.
pub open spec fn rows(s: Seq<char>, width: nat) -> Seq<Seq<char>>
    decreases s.len(),
{
    if s.len() == 0 {
        Seq::<Seq<char>>::empty()
    } else {
        let end = row_end(s, width);
        if 0 < end <= s.len() {
            seq![s.take(end as int)] + rows(s.skip(end as int), width)
        } else {
            Seq::<Seq<char>>::empty()
        }
    }
}

/// The display rows of a line; an empty line takes one empty row.
pub open spec fn wrapped(s: Seq<char>, width: nat) -> Seq<Seq<char>> {
    if s.len() == 0 {
        seq![Seq::<char>::empty()]
    } else {
        rows(s, width)
    }
}

/// The display rows of several lines, one line after the other.
pub open spec fn wrapped_lines(lines: Seq<Seq<char>>, width: nat) -> Seq<Seq<char>>
    decreases lines.len(),
{
    if lines.len() == 0 {
        Seq::<Seq<char>>::empty()
    } else {
        wrapped_lines(lines.take(lines.len() - 1), width) + wrapped(lines[lines.len() - 1], width)
    }
}

/// All rows one after the other.
pub open spec fn concatenated(parts: Seq<Seq<char>>) -> Seq<char>
    decreases parts.len(),
{
    if parts.len() == 0 {
        Seq::<char>::empty()
    } else {
        parts[0] + concatenated(parts.skip(1))
    }
}

/// Where column `col` of a line stands among the line's rows: the first row
/// that reaches it. A column behind the last row stands at its end.
pub open spec fn located(segments: Seq<Seq<char>>, col: nat) -> (nat, nat)
    decreases segments.len(),
{
    if segments.len() == 0 {
        (0, 0)
    } else if col <= segments[0].len() {
        (0, col)
    } else if segments.len() == 1 {
        (0, segments[0].len())
    } else {
        let (row, c) = located(segments.skip(1), (col - segments[0].len()) as nat);
        (row + 1, c)
    }
}

/// Where the cursor of a wrapped text is shown. The cursor of a row that the
/// text does not have is shown at the end of the last display row.
pub open spec fn shown_cursor(lines: Seq<Seq<char>>, row: nat, col: nat, width: nat) -> (nat, nat) {
    if row < lines.len() {
        let above = wrapped_lines(lines.take(row as int), width).len();
        let (r, c) = located(wrapped(lines[row as int], width), col);
        (above + r, c)
    } else {
        let all = wrapped_lines(lines, width);
        if all.len() == 0 {
            (0, 0)
        } else {
            ((all.len() - 1) as nat, all[all.len() - 1].len())
        }
    }
}

proof fn lemma_columns_grow(s: Seq<char>, i: int, j: int)
    requires
        0 <= i <= j <= s.len(),
    ensures
        text_columns(s.take(i)) + (j - i) <= text_columns(s.take(j)),
    decreases j - i,
{
    if i < j {
        lemma_columns_grow(s, i, j - 1);
        assert(s.take(j).take(j - 1) =~= s.take(j - 1));
    }
}

proof fn lemma_fitting(s: Seq<char>, width: nat, k: nat, end: nat)
    requires
        1 <= end <= k <= s.len(),
        end == 1 || text_columns(s.take(end as int)) <= width,
        end == s.len() || text_columns(s.take(end as int + 1)) > width,
    ensures
        fitting(s, width, k) == end,
    decreases k,
{
    if k > end {
        lemma_columns_grow(s, end as int + 1, k as int);
        lemma_fitting(s, width, (k - 1) as nat, end);
    }
}

pub proof fn lemma_fitting_range(s: Seq<char>, width: nat, k: nat)
    requires
        k <= s.len(),
    ensures
        fitting(s, width, k) <= k,
        k > 0 ==> fitting(s, width, k) > 0,
        fitting(s, width, k) > 1 ==> text_columns(s.take(fitting(s, width, k) as int)) <= width,
    decreases k,
{
    if !(k <= 1 || text_columns(s.take(k as int)) <= width) {
        lemma_fitting_range(s, width, (k - 1) as nat);
    }
}

proof fn lemma_after_last_space(s: Seq<char>, k: nat, at: nat)
    requires
        at <= k <= s.len(),
        at > 0 ==> is_space(s[at - 1]),
        forall|j: int| at <= j < k ==> !is_space(s[j]),
    ensures
        after_last_space(s, k) == at,
    decreases k,
{
    if k > at {
        lemma_after_last_space(s, (k - 1) as nat, at);
    }
}

pub proof fn lemma_row_end_range(s: Seq<char>, width: nat)
    requires
        s.len() > 0,
    ensures
        0 < row_end(s, width) <= fitting(s, width, s.len()) <= s.len(),
{
    lemma_fitting_range(s, width, s.len());
    lemma_after_last_space_range(s, fitting(s, width, s.len()));
}

proof fn lemma_after_last_space_range(s: Seq<char>, k: nat)
    ensures
        after_last_space(s, k) <= k,
    decreases k,
{
    if !(k == 0 || is_space(s[k - 1])) {
        lemma_after_last_space_range(s, (k - 1) as nat);
    }
}

/// Columns that a character takes, at least one.
pub fn char_display_width(c: char) -> (w: usize)
    ensures
        w == columns(c),
{
    match unicode_columns(c) {
        Some(w) => if w > 1 {
            w
        } else {
            1
        },
        None => 1,
    }
}

/// Where the row that starts at `start` stops fitting.
fn fit_end(chars: &Vec<char>, start: usize, width: usize) -> (end: usize)
    requires
        start < chars@.len(),
    ensures
        start < end <= chars@.len(),
        end - start == fitting(
            chars@.skip(start as int),
            width as nat,
            (chars@.len() - start) as nat,
        ),
{
    let ghost s = chars@.skip(start as int);
    let mut end: usize = start;
    let mut used: usize = 0;
    let mut full: bool = false;
    assert(s.take(0) =~= Seq::<char>::empty());
    while end < chars.len() && !full
        invariant
            start <= end <= chars@.len(),
            start < chars@.len(),
            s == chars@.skip(start as int),
            used == text_columns(s.take(end - start)),
            end > start + 1 ==> used <= width,
            full ==> start < end < chars@.len() && text_columns(s.take(end - start + 1)) > width,
        decreases chars@.len() - end + (if full { 0int } else { 1 }),
    {
        let w: usize = char_display_width(chars[end]);
        assert(s.take(end - start + 1).take(end - start) =~= s.take(end - start));
        if end > start && (used > width || w > width - used) {
            full = true;
        } else {
            used = used + w;
            end = end + 1;
        }
    }
    proof {
        lemma_fitting(s, width as nat, s.len(), (end - start) as nat);
    }
    end
}

/// Splits `line` into display rows of at most `width` columns, preferring to
/// break after white space.
pub fn wrap_line_for_width(line: &str, width: usize) -> (out: Vec<String>)
    ensures
        texts(out@) == wrapped(line@, width as nat),
        out@.len() > 0,
{
    let chars = chars_of(line);
    let mut out: Vec<String> = Vec::new();
    if chars.len() == 0 {
        out.push(String::new());
        assert(texts(out@) =~= wrapped(line@, width as nat));
        return out;
    }
    let mut start: usize = 0;
    assert(line@.skip(0) =~= line@);
    assert(texts(out@) + rows(line@.skip(0), width as nat) =~= rows(line@, width as nat));
    while start < chars.len()
        invariant
            chars@ == line@,
            start <= chars@.len(),
            chars@.len() > 0,
            start > 0 ==> out@.len() > 0,
            texts(out@) + rows(line@.skip(start as int), width as nat) == rows(
                line@,
                width as nat,
            ),
        decreases chars@.len() - start,
    {
        let ghost s = line@.skip(start as int);
        let end: usize = fit_end(&chars, start, width);
        let mut split_at: usize = end;
        if end < chars.len() {
            let mut i: usize = end;
            while i > start && !is_whitespace(chars[i - 1])
                invariant
                    chars@ == line@,
                    start <= i <= end <= chars@.len(),
                    forall|j: int| i <= j < end ==> !is_space(chars@[j]),
                decreases i,
            {
                i -= 1;
            }
            proof {
                assert forall|j: int| i - start <= j < end - start implies !is_space(s[j]) by {
                    assert(s[j] == chars@[j + start]);
                }
                lemma_after_last_space(s, (end - start) as nat, (i - start) as nat);
            }
            if i > start {
                split_at = i;
            }
        }
        assert(split_at - start == row_end(s, width as nat));
        let ghost out0 = out@;
        out.push(string_from(&chars, start, split_at));
        proof {
            let e = split_at - start;
            assert(chars@.subrange(start as int, split_at as int) =~= s.take(e));
            assert(s.skip(e) =~= line@.skip(split_at as int));
            assert(texts(out@) =~= texts(out0).push(s.take(e)));
            assert(texts(out@) + rows(s.skip(e), width as nat) =~= texts(out0) + (seq![s.take(e)]
                + rows(s.skip(e), width as nat)));
        }
        start = split_at;
    }
    assert(texts(out@) + rows(line@.skip(start as int), width as nat) =~= texts(out@));
    out
}

/// Number of characters of a text.
pub fn char_count(s: &str) -> (n: usize)
    ensures
        n == s@.len(),
{
    s.unicode_len()
}

/// The row and column at which column `cursor_col` of a wrapped line is shown.
pub fn map_cursor_col_to_wrapped_segments(segments: &Vec<String>, cursor_col: usize) -> (at: (
    usize,
    usize,
))
    requires
        segments@.len() > 0,
    ensures
        (at.0 as nat, at.1 as nat) == located(texts(segments@), cursor_col as nat),
        at.0 < segments@.len(),
        at.1 <= segments@[at.0 as int]@.len(),
{
    let ghost all = texts(segments@);
    let mut remaining: usize = cursor_col;
    let mut idx: usize = 0;
    assert(all.skip(0) =~= all);
    while idx < segments.len()
        invariant
            all == texts(segments@),
            segments@.len() > 0,
            idx <= segments@.len(),
            idx == segments@.len() ==> located(all, cursor_col as nat) == (
                (segments@.len() - 1) as nat,
                segments@[segments@.len() - 1]@.len(),
            ),
            idx < segments@.len() ==> ({
                let (r, c) = located(all.skip(idx as int), remaining as nat);
                located(all, cursor_col as nat) == (r + idx as nat, c)
            }),
        decreases segments@.len() - idx,
    {
        let len: usize = char_count(segments[idx].as_str());
        assert(all.skip(idx as int)[0] == segments@[idx as int]@);
        if remaining <= len {
            return (idx, remaining);
        }
        assert(all.skip(idx as int).skip(1) =~= all.skip(idx + 1));
        remaining = remaining - len;
        idx = idx + 1;
    }
    let last: usize = segments.len() - 1;
    (last, char_count(segments[last].as_str()))
}

/// A wrapped text and the place at which its cursor is shown.
pub struct Wrapped {
    pub lines: Vec<String>,
    pub row: usize,
    pub col: usize,
}

proof fn lemma_located_range(segments: Seq<Seq<char>>, col: nat)
    requires
        segments.len() > 0,
    ensures
        located(segments, col).0 < segments.len(),
        located(segments, col).1 <= segments[located(segments, col).0 as int].len(),
    decreases segments.len(),
{
    if col > segments[0].len() && segments.len() > 1 {
        lemma_located_range(segments.skip(1), (col - segments[0].len()) as nat);
    }
}

pub proof fn lemma_wrapped_nonempty(s: Seq<char>, width: nat)
    ensures
        wrapped(s, width).len() > 0,
{
    if s.len() > 0 {
        lemma_row_end_range(s, width);
    }
}

proof fn lemma_wrapped_lines_prefix(lines: Seq<Seq<char>>, width: nat, k: int)
    requires
        0 <= k < lines.len(),
    ensures
        ({
            let above = wrapped_lines(lines.take(k), width).len();
            let own = wrapped(lines[k], width);
            let all = wrapped_lines(lines, width);
            above + own.len() <= all.len() && forall|j: int|
                0 <= j < own.len() ==> #[trigger] all[above + j] == own[j]
        }),
    decreases lines.len(),
{
    let n = lines.len() as int;
    let head = lines.take(n - 1);
    if k == n - 1 {
        assert(lines.take(k) =~= head);
    } else {
        lemma_wrapped_lines_prefix(head, width, k);
        assert(head.take(k) =~= lines.take(k));
        let own = wrapped(lines[k], width);
        let above = wrapped_lines(lines.take(k), width).len();
        assert forall|j: int| 0 <= j < own.len() implies #[trigger] wrapped_lines(lines, width)[above
            + j] == own[j] by {
            assert(wrapped_lines(head, width)[above + j] == own[j]);
        }
    }
}

/// Wraps `lines` for a width of at least one column and finds where the cursor
/// at (`cursor_row`, `cursor_col`) is shown.
pub fn wrap_display(lines: &Vec<String>, cursor_row: usize, cursor_col: usize, width: usize) -> (w:
    Wrapped)
    requires
        lines@.len() > 0,
    ensures
        texts(w.lines@) == wrapped_lines(texts(lines@), width as nat),
        (w.row as nat, w.col as nat) == shown_cursor(
            texts(lines@),
            cursor_row as nat,
            cursor_col as nat,
            width as nat,
        ),
        w.row < w.lines@.len(),
        w.col <= w.lines@[w.row as int]@.len(),
{
    let ghost all = texts(lines@);
    let mut out: Vec<String> = Vec::new();
    let mut row: usize = 0;
    let mut col: usize = 0;
    let mut i: usize = 0;
    assert(texts(out@) =~= wrapped_lines(all.take(0), width as nat));
    while i < lines.len()
        invariant
            all == texts(lines@),
            i <= lines@.len(),
            i > 0 ==> out@.len() > 0,
            texts(out@) == wrapped_lines(all.take(i as int), width as nat),
            cursor_row < i ==> (row as nat, col as nat) == shown_cursor(
                all,
                cursor_row as nat,
                cursor_col as nat,
                width as nat,
            ),
        decreases lines@.len() - i,
    {
        let mut segments: Vec<String> = wrap_line_for_width(lines[i].as_str(), width);
        let above: usize = out.len();
        let here: (usize, usize) = map_cursor_col_to_wrapped_segments(&segments, cursor_col);
        let ghost before = out@;
        let ghost own = segments@;
        out.append(&mut segments);
        let total: usize = out.len();
        proof {
            let t = all.take(i + 1);
            assert(t.take(t.len() - 1) =~= all.take(i as int));
            assert(texts(out@) =~= texts(before) + texts(own));
            assert(texts(before).len() == above);
        }
        if i == cursor_row {
            assert(above + here.0 < total);
            row = above + here.0;
            col = here.1;
        }
        i = i + 1;
    }
    assert(all.take(all.len() as int) =~= all);
    if cursor_row < lines.len() {
        proof {
            let own = wrapped(all[cursor_row as int], width as nat);
            lemma_wrapped_nonempty(all[cursor_row as int], width as nat);
            lemma_located_range(own, cursor_col as nat);
            lemma_wrapped_lines_prefix(all, width as nat, cursor_row as int);
            let above = wrapped_lines(all.take(cursor_row as int), width as nat).len();
            let r = located(own, cursor_col as nat).0 as int;
            assert(texts(out@)[above + r] == own[r]);
        }
    } else {
        row = out.len() - 1;
        col = char_count(out[row].as_str());
    }
    Wrapped { lines: out, row, col }
}

/// The rows of a line, one after the other, are the line: wrapping adds and
/// drops nothing.
pub proof fn law_rows_are_the_line(s: Seq<char>, width: nat)
    ensures
        concatenated(wrapped(s, width)) == s,
{
    if s.len() == 0 {
        let w = wrapped(s, width);
        assert(w.skip(1) =~= Seq::<Seq<char>>::empty());
        assert(concatenated(w.skip(1)) =~= Seq::<char>::empty());
        assert(concatenated(w) =~= s);
    } else {
        lemma_rows_are_the_line(s, width);
    }
}

proof fn lemma_rows_are_the_line(s: Seq<char>, width: nat)
    ensures
        concatenated(rows(s, width)) == s,
    decreases s.len(),
{
    if s.len() == 0 {
        assert(concatenated(rows(s, width)) =~= s);
    } else {
        lemma_row_end_range(s, width);
        let end = row_end(s, width) as int;
        let rest = rows(s.skip(end), width);
        lemma_rows_are_the_line(s.skip(end), width);
        assert((seq![s.take(end)] + rest).skip(1) =~= rest);
        assert(s.take(end) + s.skip(end) =~= s);
    }
}

/// A display row of more than one character takes no more columns than the
/// width, and no row of a line that is not empty is empty.
pub proof fn law_rows_fit_the_width(s: Seq<char>, width: nat, i: int)
    requires
        s.len() > 0,
        0 <= i < wrapped(s, width).len(),
    ensures
        wrapped(s, width)[i].len() > 0,
        wrapped(s, width)[i].len() > 1 ==> text_columns(wrapped(s, width)[i]) <= width,
    decreases s.len(),
{
    lemma_row_end_range(s, width);
    let end = row_end(s, width) as int;
    let fit = fitting(s, width, s.len()) as int;
    if i == 0 {
        if end > 1 {
            lemma_fitting_range(s, width, s.len());
            lemma_columns_grow(s, end, fit);
        }
    } else {
        let rest = s.skip(end);
        assert(wrapped(s, width)[i] == rows(rest, width)[i - 1]);
        law_rows_fit_the_width(rest, width, i - 1);
    }
}

/// The place at which a column of a line is shown stands before exactly that
/// many characters of the line (or at the end of the line, where the column is
/// behind it): the cursor keeps its place in the text.
pub proof fn law_cursor_keeps_its_place(segments: Seq<Seq<char>>, col: nat)
    requires
        segments.len() > 0,
    ensures
        ({
            let (row, c) = located(segments, col);
            let place = concatenated(segments.take(row as int)).len() + c;
            let end = concatenated(segments).len();
            place == if col < end {
                col
            } else {
                end
            }
        }),
    decreases segments.len(),
{
    let rest = segments.skip(1);
    assert(segments.take(0) =~= Seq::<Seq<char>>::empty());
    if segments.len() == 1 {
        assert(rest =~= Seq::<Seq<char>>::empty());
        assert(concatenated(rest).len() == 0);
    } else if col > segments[0].len() {
        let c2 = (col - segments[0].len()) as nat;
        law_cursor_keeps_its_place(rest, c2);
        lemma_located_range(rest, c2);
        let r2 = located(rest, c2).0;
        assert(segments.take(r2 as int + 1)[0] == segments[0]);
        assert(segments.take(r2 as int + 1).skip(1) =~= rest.take(r2 as int));
    }
}

proof fn lemma_fitting_is_longest(s: Seq<char>, width: nat, k: nat)
    requires
        k <= s.len(),
    ensures
        fitting(s, width, k) < k ==> text_columns(s.take(fitting(s, width, k) as int + 1)) > width,
    decreases k,
{
    if !(k <= 1 || text_columns(s.take(k as int)) <= width) {
        lemma_fitting_is_longest(s, width, (k - 1) as nat);
        lemma_fitting_range(s, width, (k - 1) as nat);
    }
}

proof fn lemma_after_last_space_is_last(s: Seq<char>, k: nat)
    requires
        k <= s.len(),
    ensures
        after_last_space(s, k) <= k,
        after_last_space(s, k) > 0 ==> is_space(s[after_last_space(s, k) - 1]),
        forall|j: int| after_last_space(s, k) <= j < k ==> !is_space(s[j]),
    decreases k,
{
    if !(k == 0 || is_space(s[k - 1])) {
        lemma_after_last_space_is_last(s, (k - 1) as nat);
    }
}

/// A line that fits stays on one row.
pub proof fn law_short_lines_stay_whole(s: Seq<char>, width: nat)
    requires
        text_columns(s) <= width,
    ensures
        wrapped(s, width) == seq![s],
{
    if s.len() > 0 {
        assert(s.take(s.len() as int) =~= s);
        assert(row_end(s, width) == s.len());
        assert(s.skip(s.len() as int) =~= Seq::<char>::empty());
        assert(rows(s.skip(s.len() as int), width) =~= Seq::<Seq<char>>::empty());
        assert(wrapped(s, width) =~= seq![s]);
    } else {
        assert(s =~= Seq::<char>::empty());
    }
}

/// A line that does not fit is broken after white space where there is any before the
/// limit, as late as that allows, and at the limit itself only where there is none. No
/// break comes earlier than it has to.
pub proof fn law_lines_break_as_late_as_they_can(s: Seq<char>, width: nat)
    requires
        s.len() > 0,
        row_end(s, width) < s.len(),
    ensures
        ({
            let end = row_end(s, width) as int;
            let fit = fitting(s, width, s.len()) as int;
            &&& 0 < end <= fit < s.len()
            &&& fit > 1 ==> text_columns(s.take(fit)) <= width
            &&& text_columns(s.take(fit + 1)) > width
            &&& is_space(s[end - 1]) || end == fit
            &&& (exists|i: int| 0 <= i < fit && is_space(#[trigger] s[i])) ==> is_space(s[end - 1])
            &&& is_space(s[end - 1]) ==> forall|i: int| end <= i < fit ==> !is_space(#[trigger] s[i])
        }),
{
    let fit = fitting(s, width, s.len());
    lemma_row_end_range(s, width);
    lemma_fitting_range(s, width, s.len());
    lemma_fitting_is_longest(s, width, s.len());
    lemma_after_last_space_is_last(s, fit);
    if fit == s.len() {
        assert(row_end(s, width) == s.len());
    }
}

/// Lines are wrapped one after the other, each by itself.
pub proof fn law_lines_are_wrapped_one_by_one(
    a: Seq<Seq<char>>,
    b: Seq<Seq<char>>,
    line: Seq<char>,
    width: nat,
)
    ensures
        wrapped_lines(a + b, width) == wrapped_lines(a, width) + wrapped_lines(b, width),
        wrapped_lines(seq![line], width) == wrapped(line, width),
    decreases b.len(),
{
    let none = Seq::<Seq<char>>::empty();
    assert(seq![line].take(0) =~= none);
    assert(wrapped_lines(seq![line].take(0), width) =~= none);
    assert(wrapped_lines(seq![line], width) =~= wrapped(line, width));
    if b.len() == 0 {
        assert(a + b =~= a);
        assert(wrapped_lines(a, width) + wrapped_lines(b, width) =~= wrapped_lines(a, width));
    } else {
        let n = b.len() - 1;
        law_lines_are_wrapped_one_by_one(a, b.take(n), line, width);
        assert((a + b).take((a + b).len() - 1) =~= a + b.take(n));
        assert(wrapped_lines(a + b, width) =~= wrapped_lines(a, width) + wrapped_lines(b, width));
    }
}

/// The cursor is shown among the rows of its own line, behind those of the lines above
/// it, and where its line is not wrapped, in its own column.
pub proof fn law_cursor_is_shown_in_its_line(
    lines: Seq<Seq<char>>,
    row: nat,
    col: nat,
    width: nat,
)
    requires
        row < lines.len(),
    ensures
        ({
            let above = wrapped_lines(lines.take(row as int), width).len();
            let own = wrapped(lines[row as int], width);
            let (r, c) = shown_cursor(lines, row, col, width);
            &&& above <= r < above + own.len()
            &&& c <= own[r - above].len()
            &&& wrapped_lines(lines, width)[r as int] == own[r - above]
            &&& text_columns(lines[row as int]) <= width && col <= lines[row as int].len() ==> r
                == above && c == col
        }),
{
    let own = wrapped(lines[row as int], width);
    lemma_wrapped_nonempty(lines[row as int], width);
    lemma_located_range(own, col);
    lemma_wrapped_lines_prefix(lines, width, row as int);
    let above = wrapped_lines(lines.take(row as int), width).len();
    let r = located(own, col).0 as int;
    assert(wrapped_lines(lines, width)[above + r] == own[r]);
    if text_columns(lines[row as int]) <= width && col <= lines[row as int].len() {
        law_short_lines_stay_whole(lines[row as int], width);
    }
}

/// A character takes as many columns as its glyph, and at least one.
pub proof fn law_characters_advance(c: char)
    ensures
        columns(c) >= 1,
        glyph_width(c) matches Some(w) ==> (w >= 1 ==> columns(c) == w),
        text_columns(seq![c]) == columns(c),
{
    assert(seq![c].take(0) =~= Seq::<char>::empty());
    assert(text_columns(seq![c].take(0)) == 0);
}

} // verus!
