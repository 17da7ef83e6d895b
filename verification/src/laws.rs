//! What holds of every table, proved from the definitions of the layout.

use crate::chars::count_of;
use crate::chars::free_of;
use crate::chars::is_digit;
use crate::chars::lemma_count_concat;
use crate::chars::lemma_count_free;
use crate::chars::lemma_free_concat;
use crate::chars::lemma_free_painted;
use crate::chars::lemma_free_repeated;
use crate::chars::lemma_visible_concat;
use crate::chars::lemma_visible_painted;
use crate::chars::style_char;
use crate::chars::visible_width;
use crate::chars::ends_inside;
use crate::clock::date_of_day;
use crate::clock::timestamp_text;
use crate::color::lemma_painted_default;
use crate::color::Color;
use crate::layout::active_columns;
use crate::layout::blanks;
use crate::layout::cell;
use crate::layout::cell_text;
use crate::layout::cells_of;
use crate::layout::divider;
use crate::layout::fill_count;
use crate::layout::frame_line;
use crate::layout::frame_text;
use crate::layout::header_line;
use crate::layout::joined;
use crate::layout::kind_label;
use crate::layout::label;
use crate::layout::lemma_frame_width;
use crate::layout::lemma_header_width;
use crate::layout::lemma_row_width;
use crate::layout::name_role;
use crate::layout::planned;
use crate::layout::rendered;
use crate::layout::rendered_lines;
use crate::layout::row_line;
use crate::layout::rows_for;
use crate::layout::shown;
use crate::layout::span_width;
use crate::layout::styled;
use crate::layout::styled_lines;
use crate::layout::table_lines;
use crate::layout::widest;
use crate::layout::with_cell;
use crate::layout::Cells;
use crate::layout::Column;
use crate::layout::PlanView;
use crate::layout::Role;
use crate::layout::Span;
use crate::number::decimal_text;
use crate::number::two_digits;
use crate::printer::Printer;
use crate::record::PathKind;
use crate::record::PathRecordView;
use crate::symbols::glyph_text;
use crate::symbols::BorderGlyph;
use crate::text::repeated;
use vstd::prelude::*;

verus! {

/// A table has one line for each record and three more: the top border,
/// the labels and the bottom border. Without records it has those three.
pub proof fn lemma_line_count(show_size: bool, records: Seq<PathRecordView>)
    ensures
        rendered_lines(show_size, records).len() == records.len() + 3,
{
}

/// The records are drawn in the order of the listing, each in a line of
/// its own below the labels, with its position counted from 0.
pub proof fn lemma_row_of_record(show_size: bool, records: Seq<PathRecordView>, i: int)
    requires
        0 <= i < records.len(),
    ensures
        rendered_lines(show_size, records)[i + 2] == row_line(
            planned(rows_for(records), show_size),
            cells_of(i as nat, records[i]),
        ),
{
}

/// Every line of a table is as wide as the table, whatever the plan and
/// whatever the rows hold.
pub proof fn lemma_table_lines_width(plan: PlanView, rows: Seq<Cells>, i: int)
    requires
        0 <= i < table_lines(plan, rows).len(),
    ensures
        span_width(table_lines(plan, rows)[i]) == plan.table_width(),
{
    let width = plan.table_width();
    lemma_frame_width(BorderGlyph::TopLeft, BorderGlyph::TopRight, width);
    lemma_frame_width(BorderGlyph::BottomLeft, BorderGlyph::BottomRight, width);
    lemma_header_width(plan);
    if 2 <= i < 2 + rows.len() {
        lemma_row_width(plan, rows[i - 2]);
    }
}

/// All lines of the table of a listing have the same width.
pub proof fn lemma_lines_share_width(
    show_size: bool,
    records: Seq<PathRecordView>,
    i: int,
    j: int,
)
    requires
        0 <= i < records.len() + 3,
        0 <= j < records.len() + 3,
    ensures
        span_width(rendered_lines(show_size, records)[i]) == span_width(
            rendered_lines(show_size, records)[j],
        ),
{
    let rows = rows_for(records);
    lemma_table_lines_width(planned(rows, show_size), rows, i);
    lemma_table_lines_width(planned(rows, show_size), rows, j);
}

/// No column is narrower than its label.
pub proof fn lemma_widest_covers_label(rows: Seq<Cells>, col: Column)
    ensures
        label(col).len() <= widest(rows, col),
    decreases rows.len(),
{
    if rows.len() > 0 {
        lemma_widest_covers_label(rows.drop_last(), col);
    }
}

/// No column is narrower than any of its cells.
pub proof fn lemma_widest_covers(rows: Seq<Cells>, col: Column, i: int)
    requires
        0 <= i < rows.len(),
    ensures
        cell_text(rows[i], col).len() <= widest(rows, col),
    decreases rows.len(),
{
    if i < rows.len() - 1 {
        lemma_widest_covers(rows.drop_last(), col, i);
    }
}

/// With the planned widths nothing is cut: every cell and every label is
/// shown in full, however long one of them is.
pub proof fn lemma_nothing_cut(rows: Seq<Cells>, show_size: bool, col: Column, i: int)
    requires
        0 <= i < rows.len(),
        col != Column::Size || show_size,
    ensures
        shown(cell_text(rows[i], col), planned(rows, show_size).content_width(col)) == cell_text(
            rows[i],
            col,
        ),
        shown(label(col), planned(rows, show_size).content_width(col)) == label(col),
{
    lemma_widest_covers(rows, col, i);
    lemma_widest_covers_label(rows, col);
}

/// Leaving the size column out takes exactly one column away, and with it
/// that column's width and divider; the other columns keep their widths.
pub proof fn lemma_size_column(rows: Seq<Cells>)
    ensures
        planned(rows, true).column_count() == planned(rows, false).column_count() + 1,
        planned(rows, true).column_count() == active_columns(true).len(),
        planned(rows, false).column_count() == active_columns(false).len(),
        !active_columns(false).contains(Column::Size),
        planned(rows, true).table_width() == planned(rows, false).table_width() + widest(
            rows,
            Column::Size,
        ) + 3,
        planned(rows, false) == (PlanView { size: None, ..planned(rows, true) }),
{
    let without = active_columns(false);
    assert(without.len() == 4);
    assert(without[0] == Column::Index);
    assert(without[1] == Column::Name);
    assert(without[2] == Column::Type);
    assert(without[3] == Column::Modified);
    assert(active_columns(true).len() == 5);
}

/// The text of a table is a function of the printer and the records: two
/// strings that both hold it are the same text.
pub proof fn lemma_render_repeatable(
    printer: Printer,
    records: Seq<PathRecordView>,
    first: String,
    second: String,
)
    requires
        first@ == rendered(printer, records),
        second@ == rendered(printer, records),
    ensures
        first@ == second@,
{
}

/// The plan of a table without rows: every column as wide as its label.
pub open spec fn empty_plan(show_size: bool) -> PlanView {
    PlanView {
        index: label(Column::Index).len(),
        name: label(Column::Name).len(),
        kind: label(Column::Type).len(),
        size: if show_size {
            Some(label(Column::Size).len())
        } else {
            None
        },
        modified: label(Column::Modified).len(),
    }
}

/// The table of an empty listing: the top border, the labels and the
/// bottom border, each column as wide as its label and its two margins.
pub proof fn lemma_empty_listing(show_size: bool)
    ensures
        rendered_lines(show_size, Seq::<PathRecordView>::empty()) =~= seq![
            frame_line(
                BorderGlyph::TopLeft,
                BorderGlyph::TopRight,
                empty_plan(show_size).table_width(),
            ),
            header_line(empty_plan(show_size)),
            frame_line(
                BorderGlyph::BottomLeft,
                BorderGlyph::BottomRight,
                empty_plan(show_size).table_width(),
            ),
        ],
        planned(rows_for(Seq::<PathRecordView>::empty()), show_size) == empty_plan(show_size),
        empty_plan(show_size).table_width() == if show_size {
            37nat
        } else {
            30nat
        },
{
    reveal_strlit("#");
    reveal_strlit("Name");
    reveal_strlit("Type");
    reveal_strlit("Size");
    reveal_strlit("modified");
    let rows = rows_for(Seq::<PathRecordView>::empty());
    assert(rows.len() == 0);
}

/// The text of a line with nothing painted.
pub open spec fn unpainted(line: Seq<Span>) -> Seq<char>
    decreases line.len(),
{
    if line.len() == 0 {
        Seq::<char>::empty()
    } else {
        unpainted(line.drop_last()) + line.last().text
    }
}

/// A printer that paints nothing draws the bare text of a line, which has
/// exactly as many characters as the line is wide.
pub proof fn lemma_unpainted_length(printer: Printer, line: Seq<Span>)
    requires
        printer.folder_color == Color::Default,
        printer.files_color == Color::Default,
        printer.border_color == Color::Default,
    ensures
        styled(printer, line) =~= unpainted(line),
        styled(printer, line).len() == span_width(line),
    decreases line.len(),
{
    if line.len() > 0 {
        lemma_unpainted_length(printer, line.drop_last());
        lemma_painted_default(line.last().text);
    }
}

/// A printer that paints nothing draws every line of the table of a
/// listing with the same number of characters: the width of the table.
pub proof fn lemma_unpainted_lines_share_length(
    printer: Printer,
    records: Seq<PathRecordView>,
    i: int,
)
    requires
        printer.folder_color == Color::Default,
        printer.files_color == Color::Default,
        printer.border_color == Color::Default,
        0 <= i < records.len() + 3,
    ensures
        styled_lines(printer, rendered_lines(printer.show_size, records))[i].len() == planned(
            rows_for(records),
            printer.show_size,
        ).table_width(),
{
    let rows = rows_for(records);
    let plan = planned(rows, printer.show_size);
    lemma_table_lines_width(plan, rows, i);
    lemma_unpainted_length(printer, table_lines(plan, rows)[i]);
}

/// The characters of the texts that a table draws of its own accord,
/// whatever it lists: the frame, the margins, the labels, and the digits
/// and signs of numbers and dates. The letters that only the label of the
/// size column has belong to them only in a table with that column.
pub open spec fn text_char(with_size: bool, c: char) -> bool {
    ||| is_digit(c)
    ||| c == ' ' || c == '-' || c == ':' || c == '#'
    ||| c == '─' || c == '│' || c == '┌' || c == '┐' || c == '└' || c == '┘'
    ||| c == 'N' || c == 'a' || c == 'm' || c == 'e' || c == 'T' || c == 'y' || c == 'p'
    ||| c == 'o' || c == 'd' || c == 'i' || c == 'f' || c == 'l' || c == 'r'
    ||| with_size && (c == 'S' || c == 'z')
}

/// No span of a line has the character `c` in its text.
pub open spec fn spans_free_of(line: Seq<Span>, c: char) -> bool {
    forall|k: int| 0 <= k < line.len() ==> free_of(#[trigger] line[k].text, c)
}

/// A number in decimal notation consists of digits.
pub proof fn lemma_free_decimal(n: nat, c: char)
    requires
        !is_digit(c),
    ensures
        free_of(decimal_text(n), c),
    decreases n,
{
    if n >= 10 {
        lemma_free_decimal(n / 10, c);
    }
}

/// A point in time as text consists of digits, hyphens, colons and a
/// space.
pub proof fn lemma_free_timestamp(secs: nat, c: char)
    requires
        !is_digit(c),
        c != '-',
        c != ':',
        c != ' ',
    ensures
        free_of(timestamp_text(secs), c),
{
    let date = date_of_day(secs / 86400);
    let time = secs % 86400;
    lemma_free_decimal(date.year as nat, c);
    let t1 = decimal_text(date.year as nat) + seq!['-'];
    let t2 = t1 + two_digits(date.month as nat);
    let t3 = t2 + seq!['-'];
    let t4 = t3 + two_digits(date.day as nat);
    let t5 = t4 + seq![' '];
    let t6 = t5 + two_digits(time / 3600);
    let t7 = t6 + seq![':'];
    let t8 = t7 + two_digits((time % 3600) / 60);
    let t9 = t8 + seq![':'];
    lemma_free_concat(decimal_text(date.year as nat), seq!['-'], c);
    lemma_free_concat(t1, two_digits(date.month as nat), c);
    lemma_free_concat(t2, seq!['-'], c);
    lemma_free_concat(t3, two_digits(date.day as nat), c);
    lemma_free_concat(t4, seq![' '], c);
    lemma_free_concat(t5, two_digits(time / 3600), c);
    lemma_free_concat(t6, seq![':'], c);
    lemma_free_concat(t7, two_digits((time % 3600) / 60), c);
    lemma_free_concat(t8, seq![':'], c);
    lemma_free_concat(t9, two_digits(time % 60), c);
}

/// A label consists of characters of the table's own.
pub proof fn lemma_free_label(col: Column, with_size: bool, c: char)
    requires
        !text_char(with_size, c),
        col != Column::Size || with_size,
    ensures
        free_of(label(col), c),
{
    reveal_strlit("#");
    reveal_strlit("Name");
    reveal_strlit("Type");
    reveal_strlit("Size");
    reveal_strlit("modified");
}

/// What the type column shows consists of characters of the table's own.
pub proof fn lemma_free_kind_label(kind: PathKind, with_size: bool, c: char)
    requires
        !text_char(with_size, c),
    ensures
        free_of(kind_label(kind), c),
{
    reveal_strlit("folder");
    reveal_strlit("file");
}

/// A line with one more span is free of a character if the line and the
/// span are.
pub proof fn lemma_spans_push(line: Seq<Span>, span: Span, c: char)
    requires
        spans_free_of(line, c),
        free_of(span.text, c),
    ensures
        spans_free_of(line.push(span), c),
{
    assert forall|k: int| 0 <= k < line.push(span).len() implies free_of(
        #[trigger] line.push(span)[k].text,
        c,
    ) by {
        if k < line.len() {
            assert(line.push(span)[k] == line[k]);
        }
    }
}

/// Adding a cell and its divider to a line adds, besides what is shown of
/// the cell's text, only spaces and the divider.
pub proof fn lemma_spans_with_cell(
    line: Seq<Span>,
    role: Role,
    text: Seq<char>,
    width: nat,
    c: char,
)
    requires
        spans_free_of(line, c),
        free_of(text, c),
        c != ' ',
        c != '│',
    ensures
        spans_free_of(with_cell(line, role, text, width), c),
{
    let body = shown(text, width);
    let pad = blanks((width - body.len()) as nat);
    let a = Span { role: Role::Plain, text: seq![' '] };
    let b = Span { role: role, text: body };
    let d = Span { role: Role::Plain, text: pad + seq![' '] };
    assert(free_of(body, c));
    lemma_free_repeated(seq![' '], (width - body.len()) as nat, c);
    lemma_free_concat(pad, seq![' '], c);
    lemma_spans_push(line, a, c);
    lemma_spans_push(line.push(a), b, c);
    lemma_spans_push(line.push(a).push(b), d, c);
    lemma_spans_push(line.push(a).push(b).push(d), divider(), c);
    assert(with_cell(line, role, text, width) =~= line.push(a).push(b).push(d).push(divider()));
}

/// A border consists of glyphs of the frame.
pub proof fn lemma_spans_frame(left: BorderGlyph, right: BorderGlyph, width: nat, c: char)
    requires
        !text_char(false, c),
        left == BorderGlyph::TopLeft || left == BorderGlyph::BottomLeft,
        right == BorderGlyph::TopRight || right == BorderGlyph::BottomRight,
    ensures
        spans_free_of(frame_line(left, right, width), c),
{
    let fill = repeated(glyph_text(BorderGlyph::Horizontal), fill_count(width));
    lemma_free_repeated(glyph_text(BorderGlyph::Horizontal), fill_count(width), c);
    lemma_free_concat(glyph_text(left), fill, c);
    lemma_free_concat(glyph_text(left) + fill, glyph_text(right), c);
    lemma_spans_push(
        Seq::<Span>::empty(),
        Span { role: Role::Border, text: frame_text(left, right, width) },
        c,
    );
}

/// The line of labels consists of characters of the table's own. Without
/// a size column it has neither of the letters that only the label of that
/// column has, so that label is not in it.
pub proof fn lemma_spans_header(plan: PlanView, c: char)
    requires
        !text_char(plan.size is Some, c),
    ensures
        spans_free_of(header_line(plan), c),
{
    let with_size = plan.size is Some;
    let start = seq![divider()];
    lemma_spans_push(Seq::<Span>::empty(), divider(), c);
    lemma_free_label(Column::Index, with_size, c);
    lemma_free_label(Column::Name, with_size, c);
    lemma_free_label(Column::Type, with_size, c);
    lemma_free_label(Column::Modified, with_size, c);
    let a = with_cell(start, Role::Plain, label(Column::Index), plan.index);
    lemma_spans_with_cell(start, Role::Plain, label(Column::Index), plan.index, c);
    let b = with_cell(a, Role::Plain, label(Column::Name), plan.name);
    lemma_spans_with_cell(a, Role::Plain, label(Column::Name), plan.name, c);
    let d = with_cell(b, Role::Plain, label(Column::Type), plan.kind);
    lemma_spans_with_cell(b, Role::Plain, label(Column::Type), plan.kind, c);
    let e = match plan.size {
        Some(w) => with_cell(d, Role::Plain, label(Column::Size), w),
        None => d,
    };
    if let Some(w) = plan.size {
        lemma_free_label(Column::Size, with_size, c);
        lemma_spans_with_cell(d, Role::Plain, label(Column::Size), w, c);
    }
    lemma_spans_with_cell(e, Role::Plain, label(Column::Modified), plan.modified, c);
}

/// The line of a row has, besides the characters of its cells, only
/// characters of the table's own.
pub proof fn lemma_spans_row(plan: PlanView, cells: Cells, c: char)
    requires
        !text_char(plan.size is Some, c),
        free_of(cells.index, c),
        free_of(cells.name, c),
        free_of(cells.size, c),
        free_of(cells.modified, c),
    ensures
        spans_free_of(row_line(plan, cells), c),
{
    let with_size = plan.size is Some;
    let start = seq![divider()];
    lemma_spans_push(Seq::<Span>::empty(), divider(), c);
    lemma_free_kind_label(cells.kind, with_size, c);
    let a = with_cell(start, Role::Plain, cells.index, plan.index);
    lemma_spans_with_cell(start, Role::Plain, cells.index, plan.index, c);
    let b = with_cell(a, name_role(cells.kind), cells.name, plan.name);
    lemma_spans_with_cell(a, name_role(cells.kind), cells.name, plan.name, c);
    let d = with_cell(b, Role::Plain, kind_label(cells.kind), plan.kind);
    lemma_spans_with_cell(b, Role::Plain, kind_label(cells.kind), plan.kind, c);
    let e = match plan.size {
        Some(w) => with_cell(d, Role::Plain, cells.size, w),
        None => d,
    };
    if let Some(w) = plan.size {
        lemma_spans_with_cell(d, Role::Plain, cells.size, w, c);
    }
    lemma_spans_with_cell(e, Role::Plain, cells.modified, plan.modified, c);
}

/// Every character that a table draws, colors aside, is one of a name or
/// one of the table's own: a character that is neither is in no span of
/// any line.
pub proof fn lemma_spans_rendered(
    show_size: bool,
    records: Seq<PathRecordView>,
    c: char,
    i: int,
)
    requires
        !text_char(show_size, c),
        forall|k: int| 0 <= k < records.len() ==> free_of(#[trigger] records[k].name, c),
        0 <= i < records.len() + 3,
    ensures
        spans_free_of(rendered_lines(show_size, records)[i], c),
{
    let rows = rows_for(records);
    let plan = planned(rows, show_size);
    let width = plan.table_width();
    if i == 0 {
        lemma_spans_frame(BorderGlyph::TopLeft, BorderGlyph::TopRight, width, c);
    } else if i == 1 {
        lemma_spans_header(plan, c);
    } else if i < 2 + records.len() {
        let k = i - 2;
        let record = records[k];
        assert(free_of(record.name, c));
        lemma_free_decimal(k as nat, c);
        lemma_free_decimal(record.size_bytes, c);
        lemma_free_timestamp(record.modified, c);
        lemma_spans_row(plan, rows[k], c);
    } else {
        lemma_spans_frame(BorderGlyph::BottomLeft, BorderGlyph::BottomRight, width, c);
    }
}

/// Painting a line adds style characters only.
pub proof fn lemma_free_styled(printer: Printer, line: Seq<Span>, c: char)
    requires
        spans_free_of(line, c),
        !style_char(c),
    ensures
        free_of(styled(printer, line), c),
    decreases line.len(),
{
    if line.len() > 0 {
        let before = line.drop_last();
        assert forall|k: int| 0 <= k < before.len() implies free_of(
            #[trigger] before[k].text,
            c,
        ) by {
            assert(before[k] == line[k]);
        }
        lemma_free_styled(printer, before, c);
        assert(free_of(line[line.len() - 1].text, c));
        lemma_free_painted(printer.color_of(line.last().role), line.last().text, c);
        lemma_free_concat(
            styled(printer, before),
            crate::color::painted(printer.color_of(line.last().role), line.last().text),
            c,
        );
    }
}

/// Every character of the text of a table is one of a name, one of the
/// table's own or one of a control sequence: a character that is none of
/// these is in no line.
pub proof fn lemma_rendered_chars(printer: Printer, records: Seq<PathRecordView>, c: char, i: int)
    requires
        !text_char(printer.show_size, c),
        !style_char(c),
        forall|k: int| 0 <= k < records.len() ==> free_of(#[trigger] records[k].name, c),
        0 <= i < records.len() + 3,
    ensures
        free_of(styled_lines(printer, rendered_lines(printer.show_size, records))[i], c),
{
    lemma_spans_rendered(printer.show_size, records, c, i);
    lemma_free_styled(printer, rendered_lines(printer.show_size, records)[i], c);
}

/// A table without a size column has no `S` but in names: the label of
/// the size column is nowhere in it.
pub proof fn lemma_no_size_label(printer: Printer, records: Seq<PathRecordView>, i: int)
    requires
        !printer.show_size,
        forall|k: int| 0 <= k < records.len() ==> free_of(#[trigger] records[k].name, 'S'),
        0 <= i < records.len() + 3,
    ensures
        free_of(styled_lines(printer, rendered_lines(false, records))[i], 'S'),
{
    lemma_rendered_chars(printer, records, 'S', i);
}

/// Lines that hold no line feed, joined, hold one line feed fewer than
/// there are lines.
pub proof fn lemma_count_joined(lines: Seq<Seq<char>>)
    requires
        lines.len() > 0,
        forall|i: int| 0 <= i < lines.len() ==> free_of(#[trigger] lines[i], '\n'),
    ensures
        count_of(joined(lines), '\n') == lines.len() - 1,
    decreases lines.len(),
{
    if lines.len() == 1 {
        lemma_count_free(lines[0], '\n');
    } else {
        let before = lines.drop_last();
        assert forall|i: int| 0 <= i < before.len() implies free_of(#[trigger] before[i], '\n') by {
            assert(before[i] == lines[i]);
        }
        lemma_count_joined(before);
        lemma_count_free(lines.last(), '\n');
        lemma_count_concat(joined(before), seq!['\n'], '\n');
        lemma_count_concat(joined(before) + seq!['\n'], lines.last(), '\n');
        assert(seq!['\n'].drop_last() =~= Seq::<char>::empty());
        assert(count_of(Seq::<char>::empty(), '\n') == 0);
        assert(count_of(seq!['\n'], '\n') == 1);
    }
}

/// As long as no name holds a line feed, the text of a table holds one
/// line feed for each record and two more: it falls into one line for each
/// record and three more.
pub proof fn lemma_line_feeds(printer: Printer, records: Seq<PathRecordView>)
    requires
        forall|k: int| 0 <= k < records.len() ==> free_of(#[trigger] records[k].name, '\n'),
    ensures
        count_of(rendered(printer, records), '\n') == records.len() + 2,
{
    let lines = styled_lines(printer, rendered_lines(printer.show_size, records));
    assert forall|i: int| 0 <= i < lines.len() implies free_of(#[trigger] lines[i], '\n') by {
        lemma_rendered_chars(printer, records, '\n', i);
    }
    lemma_count_joined(lines);
}

/// Of a painted line exactly the texts of its spans take up room, as long
/// as none of them has an escape character: on a terminal the line is as
/// wide as its spans say.
pub proof fn lemma_visible_styled(printer: Printer, line: Seq<Span>)
    requires
        spans_free_of(line, '\x1b'),
    ensures
        visible_width(styled(printer, line), false) == span_width(line),
        !ends_inside(styled(printer, line), false),
    decreases line.len(),
{
    if line.len() > 0 {
        let before = line.drop_last();
        assert forall|k: int| 0 <= k < before.len() implies free_of(
            #[trigger] before[k].text,
            '\x1b',
        ) by {
            assert(before[k] == line[k]);
        }
        lemma_visible_styled(printer, before);
        assert(free_of(line[line.len() - 1].text, '\x1b'));
        lemma_visible_painted(printer.color_of(line.last().role), line.last().text);
        lemma_visible_concat(
            styled(printer, before),
            crate::color::painted(printer.color_of(line.last().role), line.last().text),
            false,
        );
    }
}

/// As long as no name holds an escape character, every line of the text
/// of a table takes up the same room, whatever the colors: the width of
/// the table.
pub proof fn lemma_lines_share_visible_width(
    printer: Printer,
    records: Seq<PathRecordView>,
    i: int,
)
    requires
        forall|k: int| 0 <= k < records.len() ==> free_of(#[trigger] records[k].name, '\x1b'),
        0 <= i < records.len() + 3,
    ensures
        visible_width(
            styled_lines(printer, rendered_lines(printer.show_size, records))[i],
            false,
        ) == planned(rows_for(records), printer.show_size).table_width(),
{
    let rows = rows_for(records);
    let plan = planned(rows, printer.show_size);
    lemma_spans_rendered(printer.show_size, records, '\x1b', i);
    lemma_visible_styled(printer, table_lines(plan, rows)[i]);
    lemma_table_lines_width(plan, rows, i);
}

} // verus!
