//! Tables, drawn as an aligned grid.

use vstd::prelude::*;
use crate::text::{chars_of, repeat};
#[allow(unused_imports)]
use crate::text::repeated;
use crate::view::{line_of, plain_style, push_line, push_span, Color, Line, Style};
#[allow(unused_imports)]
use crate::view::{
    items_view, lemma_line_text_joined, lemma_line_text_push, line_text, line_view, lines_view, plain,
};

verus! {

/// The lines of a table.
pub open spec fn table_border() -> Color {
    Color::Rgb(82, 90, 110)
}

/// The style of a table's lines.
pub open spec fn border() -> Style {
    Style { fg: Some(table_border()), ..plain() }
}

pub fn border_style() -> (s: Style)
    ensures
        s == border(),
{
    Style { fg: Some(Color::Rgb(82, 90, 110)), ..plain_style() }
}

/// The text of a line of spans.
pub open spec fn flat(spans: Seq<(Seq<char>, Style)>) -> Seq<char>
    decreases spans.len(),
{
    if spans.len() == 0 {
        Seq::<char>::empty()
    } else {
        flat(spans.take(spans.len() - 1)) + spans[spans.len() - 1].0
    }
}

/// The number of characters of a cell.
pub open spec fn cell_width(cell: Seq<(Seq<char>, Style)>) -> nat {
    flat(cell).len()
}

/// The length of the longest row.
pub open spec fn column_count(rows: Seq<Seq<Seq<(Seq<char>, Style)>>>) -> nat
    decreases rows.len(),
{
    if rows.len() == 0 {
        0
    } else {
        let before = column_count(rows.take(rows.len() - 1));
        let len = rows[rows.len() - 1].len();
        if len > before {
            len
        } else {
            before
        }
    }
}

/// The width of the widest cell in column `c`.
pub open spec fn column_width(rows: Seq<Seq<Seq<(Seq<char>, Style)>>>, c: int) -> nat
    decreases rows.len(),
{
    if rows.len() == 0 {
        0
    } else {
        let before = column_width(rows.take(rows.len() - 1), c);
        let row = rows[rows.len() - 1];
        if c < row.len() && cell_width(row[c]) > before {
            cell_width(row[c])
        } else {
            before
        }
    }
}

/// The widths of all columns.
pub open spec fn column_widths(rows: Seq<Seq<Seq<(Seq<char>, Style)>>>) -> Seq<nat> {
    Seq::new(column_count(rows), |c: int| column_width(rows, c))
}

/// The width of the columns with their separators.
pub open spec fn grid_width(widths: Seq<nat>) -> nat
    decreases widths.len(),
{
    if widths.len() == 0 {
        0
    } else if widths.len() == 1 {
        widths[0]
    } else {
        grid_width(widths.take(widths.len() - 1)) + 3 + widths[widths.len() - 1]
    }
}

/// The spans that fill a cell up to the width of its column.
pub open spec fn padding(cell: Seq<(Seq<char>, Style)>, width: nat, base: Style) -> Seq<
    (Seq<char>, Style),
> {
    if cell_width(cell) < width {
        seq![(repeated(" "@, (width - cell_width(cell)) as nat), base)]
    } else {
        Seq::<(Seq<char>, Style)>::empty()
    }
}

/// A row: its cells, each filled up to the width of its column, with a separator
/// between neighbours.
pub open spec fn row_spans(row: Seq<Seq<(Seq<char>, Style)>>, widths: Seq<nat>, base: Style) -> Seq<
    (Seq<char>, Style),
>
    decreases row.len(),
{
    if row.len() == 0 {
        Seq::<(Seq<char>, Style)>::empty()
    } else {
        let n = row.len() - 1;
        let separator = if n > 0 {
            seq![(" │ "@, border())]
        } else {
            Seq::<(Seq<char>, Style)>::empty()
        };
        row_spans(row.take(n), widths, base) + separator + row[n] + padding(
            row[n],
            widths[n],
            base,
        )
    }
}

/// The first rows of a table, with a line under the first one.
pub open spec fn grid_rows(
    rows: Seq<Seq<Seq<(Seq<char>, Style)>>>,
    widths: Seq<nat>,
    base: Style,
) -> Seq<Seq<(Seq<char>, Style)>>
    decreases rows.len(),
{
    if rows.len() == 0 {
        Seq::<Seq<(Seq<char>, Style)>>::empty()
    } else {
        let n = rows.len() - 1;
        let with_row = grid_rows(rows.take(n), widths, base).push(
            row_spans(rows[n], widths, base),
        );
        if n == 0 {
            with_row.push(seq![(repeated("─"@, grid_width(widths)), border())])
        } else {
            with_row
        }
    }
}

/// A table as lines: nothing for one without cells, else its rows and an empty
/// line.
pub open spec fn grid(rows: Seq<Seq<Seq<(Seq<char>, Style)>>>, base: Style) -> Seq<
    Seq<(Seq<char>, Style)>,
> {
    if column_count(rows) == 0 {
        Seq::<Seq<(Seq<char>, Style)>>::empty()
    } else {
        grid_rows(rows, column_widths(rows), base).push(Seq::<(Seq<char>, Style)>::empty())
    }
}

fn text_of(cell: &Line) -> (s: String)
    ensures
        s@ == flat(line_view(cell@)),
{
    let mut s = String::new();
    let mut i: usize = 0;
    while i < cell.len()
        invariant
            i <= cell@.len(),
            s@ == flat(line_view(cell@).take(i as int)),
        decreases cell@.len() - i,
    {
        let ghost t = line_view(cell@).take(i + 1);
        assert(t.take(t.len() - 1) =~= line_view(cell@).take(i as int));
        s.append(cell[i].text.as_str());
        i += 1;
    }
    assert(line_view(cell@).take(i as int) =~= line_view(cell@));
    s
}

fn width_of(cell: &Line) -> (n: usize)
    ensures
        n == cell_width(line_view(cell@)),
{
    let text = text_of(cell);
    chars_of(text.as_str()).len()
}

fn count_columns(rows: &Vec<Vec<Line>>) -> (n: usize)
    ensures
        n == column_count(items_view(rows@)),
{
    let mut n: usize = 0;
    let mut i: usize = 0;
    while i < rows.len()
        invariant
            i <= rows@.len(),
            n == column_count(items_view(rows@).take(i as int)),
        decreases rows@.len() - i,
    {
        let ghost t = items_view(rows@).take(i + 1);
        assert(t.take(t.len() - 1) =~= items_view(rows@).take(i as int));
        if rows[i].len() > n {
            n = rows[i].len();
        }
        i += 1;
    }
    assert(items_view(rows@).take(i as int) =~= items_view(rows@));
    n
}

fn measure_column(rows: &Vec<Vec<Line>>, c: usize) -> (n: usize)
    ensures
        n == column_width(items_view(rows@), c as int),
{
    let mut n: usize = 0;
    let mut i: usize = 0;
    while i < rows.len()
        invariant
            i <= rows@.len(),
            n == column_width(items_view(rows@).take(i as int), c as int),
        decreases rows@.len() - i,
    {
        let ghost t = items_view(rows@).take(i + 1);
        assert(t.take(t.len() - 1) =~= items_view(rows@).take(i as int));
        if c < rows[i].len() {
            let w: usize = width_of(&rows[i][c]);
            if w > n {
                n = w;
            }
        }
        i += 1;
    }
    assert(items_view(rows@).take(i as int) =~= items_view(rows@));
    n
}

/// The widths as natural numbers.
pub open spec fn nats(widths: Seq<usize>) -> Seq<nat> {
    Seq::new(widths.len(), |i: int| widths[i] as nat)
}

fn measure_columns(rows: &Vec<Vec<Line>>, count: usize) -> (widths: Vec<usize>)
    requires
        count == column_count(items_view(rows@)),
    ensures
        nats(widths@) == column_widths(items_view(rows@)),
{
    let mut widths: Vec<usize> = Vec::new();
    let mut c: usize = 0;
    while c < count
        invariant
            c <= count,
            widths@.len() == c,
            forall|j: int|
                0 <= j < c ==> #[trigger] widths@[j] == column_width(items_view(rows@), j),
        decreases count - c,
    {
        widths.push(measure_column(rows, c));
        c += 1;
    }
    assert(nats(widths@) =~= column_widths(items_view(rows@)));
    widths
}

proof fn lemma_repeated_sum(s: Seq<char>, a: nat, b: nat)
    ensures
        repeated(s, a + b) == repeated(s, a) + repeated(s, b),
    decreases b,
{
    if b == 0 {
        assert(repeated(s, a) + repeated(s, 0) =~= repeated(s, a));
    } else {
        lemma_repeated_sum(s, a, (b - 1) as nat);
        assert((a + b - 1) as nat == a + (b - 1) as nat);
        assert(repeated(s, a) + repeated(s, (b - 1) as nat) + s =~= repeated(s, a) + repeated(s, b));
    }
}

/// The line under the first row.
fn rule_of(widths: &Vec<usize>) -> (s: String)
    ensures
        s@ == repeated("─"@, grid_width(nats(widths@))),
{
    let mut s = String::new();
    let mut i: usize = 0;
    while i < widths.len()
        invariant
            i <= widths@.len(),
            s@ == repeated("─"@, grid_width(nats(widths@).take(i as int))),
        decreases widths@.len() - i,
    {
        let ghost t = nats(widths@).take(i + 1);
        let ghost before = grid_width(nats(widths@).take(i as int));
        assert(t.take(t.len() - 1) =~= nats(widths@).take(i as int));
        if i > 0 {
            let separator = repeat("─", 3);
            s.append(separator.as_str());
            proof {
                lemma_repeated_sum("─"@, before, 3);
                lemma_repeated_sum("─"@, before + 3, widths@[i as int] as nat);
            }
        } else {
            proof {
                lemma_repeated_sum("─"@, 0, widths@[i as int] as nat);
            }
        }
        let part = repeat("─", widths[i]);
        s.append(part.as_str());
        i += 1;
    }
    assert(nats(widths@).take(i as int) =~= nats(widths@));
    s
}

fn push_cell(line: &mut Line, cell: &Line)
    ensures
        line_view(final(line)@) == line_view(old(line)@) + line_view(cell@),
{
    let ghost start = line_view(line@);
    let mut i: usize = 0;
    assert(line_view(line@) =~= start + line_view(cell@).take(0));
    while i < cell.len()
        invariant
            i <= cell@.len(),
            line_view(line@) == start + line_view(cell@).take(i as int),
        decreases cell@.len() - i,
    {
        push_span(line, cell[i].text.clone(), cell[i].style);
        assert(line_view(line@) =~= start + line_view(cell@).take(i + 1));
        i += 1;
    }
    assert(line_view(cell@).take(i as int) =~= line_view(cell@));
}

fn draw_row(row: &Vec<Line>, widths: &Vec<usize>, base: Style) -> (line: Line)
    requires
        row@.len() <= widths@.len(),
    ensures
        line_view(line@) == row_spans(lines_view(row@), nats(widths@), base),
{
    let mut line: Line = Vec::new();
    let mut i: usize = 0;
    assert(line_view(line@) =~= row_spans(lines_view(row@).take(0), nats(widths@), base));
    while i < row.len()
        invariant
            i <= row@.len() <= widths@.len(),
            line_view(line@) == row_spans(lines_view(row@).take(i as int), nats(widths@), base),
        decreases row@.len() - i,
    {
        let ghost t = lines_view(row@).take(i + 1);
        assert(t.take(t.len() - 1) =~= lines_view(row@).take(i as int));
        if i > 0 {
            push_span(&mut line, " │ ".to_owned(), border_style());
        }
        push_cell(&mut line, &row[i]);
        let used: usize = width_of(&row[i]);
        if used < widths[i] {
            push_span(&mut line, repeat(" ", widths[i] - used), base);
        }
        assert(line_view(line@) =~= row_spans(t, nats(widths@), base));
        i += 1;
    }
    assert(lines_view(row@).take(i as int) =~= lines_view(row@));
    line
}

proof fn lemma_columns_cover(rows: Seq<Seq<Seq<(Seq<char>, Style)>>>, i: int)
    requires
        0 <= i < rows.len(),
    ensures
        rows[i].len() <= column_count(rows),
    decreases rows.len(),
{
    let n = rows.len() - 1;
    if i < n {
        lemma_columns_cover(rows.take(n), i);
    }
}

proof fn lemma_widths_cover(rows: Seq<Seq<Seq<(Seq<char>, Style)>>>, i: int, c: int)
    requires
        0 <= i < rows.len(),
        0 <= c < rows[i].len(),
    ensures
        cell_width(rows[i][c]) <= column_width(rows, c),
    decreases rows.len(),
{
    let n = rows.len() - 1;
    if i < n {
        lemma_widths_cover(rows.take(n), i, c);
    }
}

/// A table as lines.
pub fn draw_grid(rows: &Vec<Vec<Line>>, base: Style) -> (lines: Vec<Line>)
    ensures
        lines_view(lines@) == grid(items_view(rows@), base),
{
    let mut lines: Vec<Line> = Vec::new();
    let count: usize = count_columns(rows);
    let ghost all = items_view(rows@);
    if count == 0 {
        assert(lines_view(lines@) =~= grid(all, base));
        return lines;
    }
    let widths = measure_columns(rows, count);
    let ghost ws = column_widths(all);
    let mut i: usize = 0;
    assert(lines_view(lines@) =~= grid_rows(all.take(0), ws, base));
    while i < rows.len()
        invariant
            i <= rows@.len(),
            all == items_view(rows@),
            ws == column_widths(all),
            nats(widths@) == ws,
            lines_view(lines@) == grid_rows(all.take(i as int), ws, base),
        decreases rows@.len() - i,
    {
        let ghost t = all.take(i + 1);
        assert(t.take(t.len() - 1) =~= all.take(i as int));
        proof {
            lemma_columns_cover(all, i as int);
            assert(nats(widths@).len() == widths@.len());
        }
        let line = draw_row(&rows[i], &widths, base);
        push_line(&mut lines, line);
        if i == 0 {
            push_line(&mut lines, line_of(rule_of(&widths), border_style()));
        }
        assert(lines_view(lines@) =~= grid_rows(t, ws, base));
        i += 1;
    }
    assert(all.take(i as int) =~= all);
    let blank: Line = Vec::new();
    assert(line_view(blank@) =~= Seq::<(Seq<char>, Style)>::empty());
    push_line(&mut lines, blank);
    assert(lines_view(lines@) =~= grid(all, base));
    lines
}

proof fn lemma_flat_sum(a: Seq<(Seq<char>, Style)>, b: Seq<(Seq<char>, Style)>)
    ensures
        flat(a + b) == flat(a) + flat(b),
    decreases b.len(),
{
    if b.len() == 0 {
        assert(a + b =~= a);
        assert(flat(a) + flat(b) =~= flat(a));
    } else {
        let n = b.len() - 1;
        lemma_flat_sum(a, b.take(n));
        assert((a + b).take((a + b).len() - 1) =~= a + b.take(n));
        assert(flat(a) + flat(b.take(n)) + b[n].0 =~= flat(a) + flat(b));
    }
}

proof fn lemma_flat_one(span: (Seq<char>, Style))
    ensures
        flat(seq![span]) == span.0,
{
    reveal_with_fuel(flat, 2);
    assert(seq![span].take(0).len() == 0);
    assert(flat(seq![span]) =~= span.0);
}

proof fn lemma_repeated_len(s: Seq<char>, n: nat)
    ensures
        repeated(s, n).len() == n * s.len(),
    decreases n,
{
    if n > 0 {
        lemma_repeated_len(s, (n - 1) as nat);
        assert(n * s.len() == (n - 1) * s.len() + s.len()) by (nonlinear_arith)
            requires
                n > 0,
        ;
    } else {
        assert(0 * s.len() == 0) by (nonlinear_arith);
    }
}

proof fn lemma_row_width(row: Seq<Seq<(Seq<char>, Style)>>, widths: Seq<nat>, base: Style)
    requires
        row.len() <= widths.len(),
        forall|c: int| 0 <= c < row.len() ==> cell_width(#[trigger] row[c]) <= widths[c],
    ensures
        flat(row_spans(row, widths, base)).len() == grid_width(widths.take(row.len() as int)),
    decreases row.len(),
{
    if row.len() == 0 {
        assert(widths.take(0).len() == 0);
    } else {
        let n = row.len() - 1;
        let head = row_spans(row.take(n), widths, base);
        let separator = if n > 0 {
            seq![(" │ "@, border())]
        } else {
            Seq::<(Seq<char>, Style)>::empty()
        };
        let pad = padding(row[n], widths[n], base);
        lemma_row_width(row.take(n), widths, base);
        lemma_flat_sum(head, separator);
        lemma_flat_sum(head + separator, row[n]);
        lemma_flat_sum(head + separator + row[n], pad);
        reveal_strlit(" │ ");
        reveal_strlit(" ");
        lemma_repeated_len(" "@, (widths[n] - cell_width(row[n])) as nat);
        assert(flat(pad).len() + cell_width(row[n]) == widths[n]) by {
            if cell_width(row[n]) < widths[n] {
                lemma_flat_one(pad[0]);
            } else {
                assert(flat(pad).len() == 0);
            }
        }
        if n > 0 {
            lemma_flat_one(separator[0]);
        }
        let ws = widths.take(n + 1);
        assert(ws.take(n) =~= widths.take(n));
        assert(ws[n] == widths[n]);
    }
}

/// Every row that has a cell in each column is as wide as the line under the
/// first row.
pub proof fn law_full_rows_align(rows: Seq<Seq<Seq<(Seq<char>, Style)>>>, i: int, base: Style)
    requires
        0 <= i < rows.len(),
        rows[i].len() == column_count(rows),
    ensures
        flat(row_spans(rows[i], column_widths(rows), base)).len() == repeated(
            "─"@,
            grid_width(column_widths(rows)),
        ).len(),
{
    let ws = column_widths(rows);
    assert forall|c: int| 0 <= c < rows[i].len() implies cell_width(#[trigger] rows[i][c])
        <= ws[c] by {
        lemma_widths_cover(rows, i, c);
    }
    lemma_row_width(rows[i], ws, base);
    assert(ws.take(rows[i].len() as int) =~= ws);
    reveal_strlit("─");
    lemma_repeated_len("─"@, grid_width(ws));
}

proof fn lemma_flat_is_text(spans: Seq<(Seq<char>, Style)>)
    ensures
        flat(spans) == line_text(spans),
    decreases spans.len(),
{
    if spans.len() > 0 {
        assert(spans.drop_last() =~= spans.take(spans.len() - 1));
        lemma_flat_is_text(spans.drop_last());
    }
}

/// A column is as wide as the longest text of its cells, and no wider; the grid has as
/// many columns as its longest row.
pub proof fn law_columns_fit_their_cells(rows: Seq<Seq<Seq<(Seq<char>, Style)>>>, c: int)
    requires
        0 <= c,
    ensures
        forall|i: int|
            0 <= i < rows.len() ==> (#[trigger] rows[i]).len() <= column_count(rows) && (c
                < rows[i].len() ==> line_text(rows[i][c]).len() <= column_width(rows, c)),
        column_count(rows) > 0 ==> exists|i: int|
            0 <= i < rows.len() && (#[trigger] rows[i]).len() == column_count(rows),
        column_width(rows, c) > 0 ==> exists|i: int|
            0 <= i < rows.len() && c < (#[trigger] rows[i]).len() && line_text(rows[i][c]).len()
                == column_width(rows, c),
    decreases rows.len(),
{
    if rows.len() > 0 {
        let n = rows.len() - 1;
        let t = rows.take(n);
        law_columns_fit_their_cells(t, c);
        let row = rows[n];
        if c < row.len() {
            lemma_flat_is_text(row[c]);
        }
        assert forall|i: int| 0 <= i < rows.len() implies (#[trigger] rows[i]).len()
            <= column_count(rows) && (c < rows[i].len() ==> line_text(rows[i][c]).len()
            <= column_width(rows, c)) by {
            if i < n {
                assert(t[i] == rows[i]);
            }
        }
        if column_count(rows) > 0 {
            if row.len() > column_count(t) {
                assert(rows[n].len() == column_count(rows));
            } else {
                let i = choose|i: int|
                    0 <= i < t.len() && (#[trigger] t[i]).len() == column_count(t);
                assert(rows[i].len() == column_count(rows));
            }
        }
        if column_width(rows, c) > 0 {
            if c < row.len() && cell_width(row[c]) > column_width(t, c) {
                assert(line_text(rows[n][c]).len() == column_width(rows, c));
            } else {
                let i = choose|i: int|
                    0 <= i < t.len() && c < (#[trigger] t[i]).len() && line_text(t[i][c]).len()
                        == column_width(t, c);
                assert(line_text(rows[i][c]).len() == column_width(rows, c));
            }
        }
    }
}

/// A row reads its cells in order, a bar between neighbours, each filled with blanks
/// up to the width of its column; the spans of a cell keep their styles.
pub proof fn law_rows_read_their_cells(
    row: Seq<Seq<(Seq<char>, Style)>>,
    cell: Seq<(Seq<char>, Style)>,
    widths: Seq<nat>,
    base: Style,
)
    requires
        row.len() < widths.len(),
    ensures
        ({
            let before = row_spans(row, widths, base);
            let all = row_spans(row.push(cell), widths, base);
            let width = widths[row.len() as int];
            let blanks = if line_text(cell).len() < width {
                (width - line_text(cell).len()) as nat
            } else {
                0
            };
            let bar = if row.len() > 0 {
                1int
            } else {
                0
            };
            let from = before.len() + bar;
            &&& line_text(all) == line_text(before) + (if row.len() > 0 {
                seq![' ', '│', ' ']
            } else {
                Seq::<char>::empty()
            }) + line_text(cell) + Seq::new(blanks, |i: int| ' ')
            &&& all.subrange(from, from + cell.len()) == cell
        }),
        row_spans(Seq::<Seq<(Seq<char>, Style)>>::empty(), widths, base).len() == 0,
{
    reveal_strlit(" │ ");
    reveal_strlit(" ");
    let more = row.push(cell);
    assert(more.take(more.len() - 1) =~= row);
    let before = row_spans(row, widths, base);
    let width = widths[row.len() as int];
    let separator = if row.len() > 0 {
        seq![(" │ "@, border())]
    } else {
        Seq::<(Seq<char>, Style)>::empty()
    };
    let pad = padding(cell, width, base);
    let all = row_spans(more, widths, base);
    lemma_flat_is_text(cell);
    lemma_line_text_joined(before, separator);
    lemma_line_text_joined(before + separator, cell);
    lemma_line_text_joined(before + separator + cell, pad);
    let blanks = if line_text(cell).len() < width {
        (width - line_text(cell).len()) as nat
    } else {
        0
    };
    lemma_blanks(blanks);
    let none = Seq::<(Seq<char>, Style)>::empty();
    assert(line_text(none).len() == 0);
    if row.len() > 0 {
        lemma_line_text_push(none, separator[0]);
        assert(none.push(separator[0]) =~= separator);
        assert(line_text(separator) =~= seq![' ', '│', ' ']);
    } else {
        assert(line_text(separator) =~= Seq::<char>::empty());
    }
    if blanks > 0 {
        lemma_line_text_push(none, pad[0]);
        assert(none.push(pad[0]) =~= pad);
        assert(line_text(pad) =~= Seq::new(blanks, |i: int| ' '));
    } else {
        assert(line_text(pad) =~= Seq::new(blanks, |i: int| ' '));
    }
    let from = before.len() + separator.len();
    assert(all.subrange(from as int, (from + cell.len()) as int) =~= cell);
}

proof fn lemma_blanks(n: nat)
    ensures
        repeated(" "@, n) == Seq::new(n, |i: int| ' '),
    decreases n,
{
    reveal_strlit(" ");
    if n > 0 {
        lemma_blanks((n - 1) as nat);
        assert(repeated(" "@, n) =~= Seq::new(n, |i: int| ' '));
    } else {
        assert(repeated(" "@, n) =~= Seq::new(n, |i: int| ' '));
    }
}

/// A table is drawn row by row in order, with one line of dashes under the first row
/// and an empty line behind the last.
pub proof fn law_grid_draws_every_row(rows: Seq<Seq<Seq<(Seq<char>, Style)>>>, base: Style, i: int)
    requires
        0 <= i < rows.len(),
        column_count(rows) > 0,
    ensures
        grid(rows, base).len() == rows.len() + 2,
        grid(rows, base)[(if i == 0 {
            0
        } else {
            i + 1
        })] == row_spans(rows[i], column_widths(rows), base),
        forall|k: int|
            0 <= k < line_text(grid(rows, base)[1]).len() ==> #[trigger] line_text(
                grid(rows, base)[1],
            )[k] == '─',
        grid(rows, base).last().len() == 0,
{
    lemma_grid_rows(rows, column_widths(rows), base, i);
    let lines = grid(rows, base);
    let rule = lines[1];
    let n = grid_width(column_widths(rows));
    assert(rule == grid_rows(rows, column_widths(rows), base)[1]);
    lemma_dashes(n);
    let none = Seq::<(Seq<char>, Style)>::empty();
    lemma_line_text_push(none, rule[0]);
    assert(none.push(rule[0]) =~= rule);
    assert(line_text(rule) =~= repeated("─"@, n));
}

proof fn lemma_dashes(n: nat)
    ensures
        forall|k: int| 0 <= k < repeated("─"@, n).len() ==> #[trigger] repeated("─"@, n)[k] == '─',
    decreases n,
{
    reveal_strlit("─");
    if n > 0 {
        lemma_dashes((n - 1) as nat);
        let before = repeated("─"@, (n - 1) as nat);
        assert forall|k: int| 0 <= k < repeated("─"@, n).len() implies #[trigger] repeated("─"@, n)[k]
            == '─' by {
            if k < before.len() {
                assert(repeated("─"@, n)[k] == before[k]);
            }
        }
    }
}

proof fn lemma_grid_rows(
    rows: Seq<Seq<Seq<(Seq<char>, Style)>>>,
    widths: Seq<nat>,
    base: Style,
    i: int,
)
    requires
        0 <= i < rows.len(),
    ensures
        grid_rows(rows, widths, base).len() == rows.len() + 1,
        grid_rows(rows, widths, base)[(if i == 0 {
            0
        } else {
            i + 1
        })] == row_spans(rows[i], widths, base),
        grid_rows(rows, widths, base)[1] == seq![(repeated("─"@, grid_width(widths)), border())],
    decreases rows.len(),
{
    let n = rows.len() - 1;
    let t = rows.take(n);
    if n > 0 {
        if i < n {
            lemma_grid_rows(t, widths, base, i);
        } else {
            lemma_grid_rows(t, widths, base, 0);
        }
    } else {
        assert(t.len() == 0);
        reveal_with_fuel(grid_rows, 2);
    }
}

} // verus!
