//! The table as a mathematical object.
//!
//! A line of the table is a sequence of spans. A span is a piece of text
//! together with the role it plays, and the role decides the color it is
//! painted in. The width of a line counts the characters of its spans; the
//! control sequences that painting adds take up no room. Everything the
//! printer draws is stated against the functions of this module.

use crate::color::lemma_painted_default;
use crate::color::painted;
use crate::color::Color;
use crate::printer::Printer;
use crate::clock::timestamp_text;
use crate::number::decimal_text;
use crate::record::PathKind;
use crate::record::PathRecordView;
use crate::symbols::glyph_char;
use crate::symbols::glyph_text;
use crate::symbols::BorderGlyph;
use crate::text::repeated;
use vstd::prelude::*;

verus! {

/// The columns a table can have, in the order in which they are drawn.
#[derive(Clone, Copy, Debug, PartialEq, Eq, Structural)]
pub enum Column {
    Index,
    Name,
    Type,
    Size,
    Modified,
}

/// What a span of text is, which decides its color.
#[derive(Clone, Copy, Debug, PartialEq, Eq, Structural)]
pub enum Role {
    /// Labels, numbers, padding: never painted.
    Plain,
    /// A glyph of the frame.
    Border,
    /// The name of a folder.
    Folder,
    /// The name of a file.
    File,
}

/// A piece of a line.
pub ghost struct Span {
    pub role: Role,
    pub text: Seq<char>,
}

/// The texts of one row, before they are fitted into their columns.
pub ghost struct Cells {
    pub index: Seq<char>,
    pub name: Seq<char>,
    pub kind: PathKind,
    pub size: Seq<char>,
    pub modified: Seq<char>,
}

/// A column plan: for each column of the table the width of its content,
/// margins not counted. `size` is `None` when the table has no size column.
pub ghost struct PlanView {
    pub index: nat,
    pub name: nat,
    pub kind: nat,
    pub size: Option<nat>,
    pub modified: nat,
}

/// The column plan that the printer works with. Its view is the plan.
#[derive(Clone, Copy, Debug, PartialEq, Eq)]
pub struct ColumnPlan {
    pub index: usize,
    pub name: usize,
    pub kind: usize,
    pub size: Option<usize>,
    pub modified: usize,
}

impl View for ColumnPlan {
    type V = PlanView;

    open spec fn view(&self) -> PlanView {
        PlanView {
            index: self.index as nat,
            name: self.name as nat,
            kind: self.kind as nat,
            size: match self.size {
                Some(w) => Some(w as nat),
                None => None,
            },
            modified: self.modified as nat,
        }
    }
}

/// The texts of one row as the printer holds them. Its view is the row.
#[derive(Debug, PartialEq, Eq)]
pub struct DrawItem {
    pub index: String,
    pub name: String,
    pub kind: PathKind,
    pub size: String,
    pub modified: String,
}

impl View for DrawItem {
    type V = Cells;

    open spec fn view(&self) -> Cells {
        Cells {
            index: self.index@,
            name: self.name@,
            kind: self.kind,
            size: self.size@,
            modified: self.modified@,
        }
    }
}

/// The rows that a sequence of draw items stands for.
pub open spec fn rows_of(items: Seq<DrawItem>) -> Seq<Cells> {
    Seq::new(items.len(), |i: int| items[i]@)
}

/// The label in the header of a column.
pub open spec fn label(col: Column) -> Seq<char> {
    match col {
        Column::Index => "#"@,
        Column::Name => "Name"@,
        Column::Type => "Type"@,
        Column::Size => "Size"@,
        Column::Modified => "modified"@,
    }
}

/// What the type column shows for a kind.
pub open spec fn kind_label(kind: PathKind) -> Seq<char> {
    match kind {
        PathKind::Folder => "folder"@,
        PathKind::File => "file"@,
    }
}

/// The role of the name of an entry of a kind.
pub open spec fn name_role(kind: PathKind) -> Role {
    match kind {
        PathKind::Folder => Role::Folder,
        PathKind::File => Role::File,
    }
}

/// The text of a row in a column.
pub open spec fn cell_text(cells: Cells, col: Column) -> Seq<char> {
    match col {
        Column::Index => cells.index,
        Column::Name => cells.name,
        Column::Type => kind_label(cells.kind),
        Column::Size => cells.size,
        Column::Modified => cells.modified,
    }
}

/// The columns of a table with or without the size column.
pub open spec fn active_columns(show_size: bool) -> Seq<Column> {
    if show_size {
        seq![Column::Index, Column::Name, Column::Type, Column::Size, Column::Modified]
    } else {
        seq![Column::Index, Column::Name, Column::Type, Column::Modified]
    }
}

impl PlanView {
    /// The number of columns.
    pub open spec fn column_count(self) -> nat {
        if self.size is Some {
            5
        } else {
            4
        }
    }

    /// The content width of a column, 0 for a column that the plan lacks.
    pub open spec fn content_width(self, col: Column) -> nat {
        match col {
            Column::Index => self.index,
            Column::Name => self.name,
            Column::Type => self.kind,
            Column::Size => match self.size {
                Some(w) => w,
                None => 0,
            },
            Column::Modified => self.modified,
        }
    }

    /// The width of every line of the table: each column with a margin of
    /// one space on either side, a divider between neighbours and one at
    /// each end.
    pub open spec fn table_width(self) -> nat {
        let size = match self.size {
            Some(w) => w + 2,
            None => 0,
        };
        (self.index + 2) + (self.name + 2) + (self.kind + 2) + size + (self.modified + 2)
            + self.column_count() + 1
    }
}

/// The part of `text` that a cell of content width `width` shows: all of
/// it if it fits, else its first `width` characters.
pub open spec fn shown(text: Seq<char>, width: nat) -> Seq<char> {
    if text.len() <= width {
        text
    } else {
        text.take(width as int)
    }
}

/// `count` spaces.
pub open spec fn blanks(count: nat) -> Seq<char> {
    repeated(seq![' '], count)
}

/// A cell: a margin, the text as far as it fits, painted by its role, then
/// padding up to the column's width and the other margin.
pub open spec fn cell(role: Role, text: Seq<char>, width: nat) -> Seq<Span> {
    let body = shown(text, width);
    seq![
        Span { role: Role::Plain, text: seq![' '] },
        Span { role: role, text: body },
        Span { role: Role::Plain, text: blanks((width - body.len()) as nat) + seq![' '] },
    ]
}

/// The divider between two cells and at either end of a line.
pub open spec fn divider() -> Span {
    Span { role: Role::Border, text: glyph_text(BorderGlyph::Vertical) }
}

/// `line` with one more cell and the divider that closes it.
pub open spec fn with_cell(line: Seq<Span>, role: Role, text: Seq<char>, width: nat) -> Seq<Span> {
    (line + cell(role, text, width)).push(divider())
}

/// The text of a horizontal border of a given width: a corner, the fill
/// and the other corner. A width under two still gets both corners and no
/// fill.
pub open spec fn frame_text(left: BorderGlyph, right: BorderGlyph, width: nat) -> Seq<char> {
    glyph_text(left) + repeated(glyph_text(BorderGlyph::Horizontal), fill_count(width))
        + glyph_text(right)
}

/// The number of fill glyphs between the corners of a border.
pub open spec fn fill_count(width: nat) -> nat {
    if width >= 2 {
        (width - 2) as nat
    } else {
        0
    }
}

/// A horizontal border as a line.
pub open spec fn frame_line(left: BorderGlyph, right: BorderGlyph, width: nat) -> Seq<Span> {
    seq![Span { role: Role::Border, text: frame_text(left, right, width) }]
}

/// The line that holds the column labels.
pub open spec fn header_line(plan: PlanView) -> Seq<Span> {
    let a = with_cell(seq![divider()], Role::Plain, label(Column::Index), plan.index);
    let b = with_cell(a, Role::Plain, label(Column::Name), plan.name);
    let c = with_cell(b, Role::Plain, label(Column::Type), plan.kind);
    let d = match plan.size {
        Some(w) => with_cell(c, Role::Plain, label(Column::Size), w),
        None => c,
    };
    with_cell(d, Role::Plain, label(Column::Modified), plan.modified)
}

/// The line of one row.
pub open spec fn row_line(plan: PlanView, cells: Cells) -> Seq<Span> {
    let a = with_cell(seq![divider()], Role::Plain, cells.index, plan.index);
    let b = with_cell(a, name_role(cells.kind), cells.name, plan.name);
    let c = with_cell(b, Role::Plain, kind_label(cells.kind), plan.kind);
    let d = match plan.size {
        Some(w) => with_cell(c, Role::Plain, cells.size, w),
        None => c,
    };
    with_cell(d, Role::Plain, cells.modified, plan.modified)
}

/// The lines of the rows, in order.
pub open spec fn row_lines(plan: PlanView, rows: Seq<Cells>) -> Seq<Seq<Span>> {
    Seq::new(rows.len(), |i: int| row_line(plan, rows[i]))
}

/// The lines below the header: the rows, then the bottom border.
pub open spec fn body_lines(plan: PlanView, rows: Seq<Cells>) -> Seq<Seq<Span>> {
    row_lines(plan, rows).push(
        frame_line(BorderGlyph::BottomLeft, BorderGlyph::BottomRight, plan.table_width()),
    )
}

/// The two lines of the header: the top border and the labels.
pub open spec fn head_lines(plan: PlanView) -> Seq<Seq<Span>> {
    seq![
        frame_line(BorderGlyph::TopLeft, BorderGlyph::TopRight, plan.table_width()),
        header_line(plan),
    ]
}

/// All lines of the table, top to bottom.
pub open spec fn table_lines(plan: PlanView, rows: Seq<Cells>) -> Seq<Seq<Span>> {
    head_lines(plan) + body_lines(plan, rows)
}

/// The width of a line: the number of characters in its spans.
pub open spec fn span_width(line: Seq<Span>) -> nat
    decreases line.len(),
{
    if line.len() == 0 {
        0
    } else {
        span_width(line.drop_last()) + line.last().text.len()
    }
}

/// The characters of a line once each span is painted in the color that the
/// printer gives its role.
pub open spec fn styled(printer: Printer, line: Seq<Span>) -> Seq<char>
    decreases line.len(),
{
    if line.len() == 0 {
        Seq::<char>::empty()
    } else {
        styled(printer, line.drop_last()) + painted(
            printer.color_of(line.last().role),
            line.last().text,
        )
    }
}

/// Each line as characters.
pub open spec fn styled_lines(printer: Printer, lines: Seq<Seq<Span>>) -> Seq<Seq<char>> {
    Seq::new(lines.len(), |i: int| styled(printer, lines[i]))
}

/// Lines put together with a line feed between neighbours and none at
/// the end.
pub open spec fn joined(lines: Seq<Seq<char>>) -> Seq<char>
    decreases lines.len(),
{
    if lines.len() == 0 {
        Seq::<char>::empty()
    } else if lines.len() == 1 {
        lines[0]
    } else {
        joined(lines.drop_last()) + seq!['\n'] + lines.last()
    }
}

/// The table as text.
pub open spec fn table_text(printer: Printer, plan: PlanView, rows: Seq<Cells>) -> Seq<char> {
    joined(styled_lines(printer, table_lines(plan, rows)))
}

/// The widest text of a column: its label or the longest cell of a row.
pub open spec fn widest(rows: Seq<Cells>, col: Column) -> nat
    decreases rows.len(),
{
    if rows.len() == 0 {
        label(col).len()
    } else {
        let before = widest(rows.drop_last(), col);
        let here = cell_text(rows.last(), col).len();
        if here > before {
            here
        } else {
            before
        }
    }
}

/// The plan for a set of rows: every column as wide as its widest text.
pub open spec fn planned(rows: Seq<Cells>, show_size: bool) -> PlanView {
    PlanView {
        index: widest(rows, Column::Index),
        name: widest(rows, Column::Name),
        kind: widest(rows, Column::Type),
        size: if show_size {
            Some(widest(rows, Column::Size))
        } else {
            None
        },
        modified: widest(rows, Column::Modified),
    }
}

/// The texts of the row of a record that stands at a position of the
/// listing: the position counted from 0, the name, the size in bytes and
/// the time of the last change, each as text.
pub open spec fn cells_of(position: nat, record: PathRecordView) -> Cells {
    Cells {
        index: decimal_text(position),
        name: record.name,
        kind: record.kind,
        size: decimal_text(record.size_bytes),
        modified: timestamp_text(record.modified),
    }
}

/// The rows of a listing, in its order.
pub open spec fn rows_for(records: Seq<PathRecordView>) -> Seq<Cells> {
    Seq::new(records.len(), |i: int| cells_of(i as nat, records[i]))
}

/// The lines of the table of a listing, each column as wide as its widest
/// text.
pub open spec fn rendered_lines(show_size: bool, records: Seq<PathRecordView>) -> Seq<Seq<Span>> {
    table_lines(planned(rows_for(records), show_size), rows_for(records))
}

/// The table of a listing as text.
pub open spec fn rendered(printer: Printer, records: Seq<PathRecordView>) -> Seq<char> {
    joined(styled_lines(printer, rendered_lines(printer.show_size, records)))
}

/// The length of a repetition.
pub proof fn lemma_repeated_len(unit: Seq<char>, count: nat)
    ensures
        repeated(unit, count).len() == count * unit.len(),
    decreases count,
{
    if count > 0 {
        lemma_repeated_len(unit, (count - 1) as nat);
        assert(count * unit.len() == (count - 1) * unit.len() + unit.len()) by (nonlinear_arith);
    } else {
        assert(count * unit.len() == 0) by (nonlinear_arith)
            requires
                count == 0,
        ;
    }
}

/// A character written `count` times is `count` characters long.
pub proof fn lemma_repeated_char_len(c: char, count: nat)
    ensures
        repeated(seq![c], count).len() == count,
{
    lemma_repeated_len(seq![c], count);
    assert(seq![c].len() == 1);
    assert(count * 1 == count) by (nonlinear_arith);
}

/// One more span adds the length of its text to the width.
pub proof fn lemma_span_width_push(line: Seq<Span>, span: Span)
    ensures
        span_width(line.push(span)) == span_width(line) + span.text.len(),
{
    assert(line.push(span).drop_last() =~= line);
}

/// The width of two lines set side by side is the sum of their widths.
pub proof fn lemma_span_width_concat(a: Seq<Span>, b: Seq<Span>)
    ensures
        span_width(a + b) == span_width(a) + span_width(b),
    decreases b.len(),
{
    if b.len() == 0 {
        assert(a + b =~= a);
    } else {
        assert((a + b).drop_last() =~= a + b.drop_last());
        lemma_span_width_concat(a, b.drop_last());
    }
}

/// One more span adds its painted text to the characters.
pub proof fn lemma_styled_push(printer: Printer, line: Seq<Span>, span: Span)
    ensures
        styled(printer, line.push(span)) == styled(printer, line) + painted(
            printer.color_of(span.role),
            span.text,
        ),
{
    assert(line.push(span).drop_last() =~= line);
}

/// The characters of two lines set side by side are those of the first
/// followed by those of the second.
pub proof fn lemma_styled_concat(printer: Printer, a: Seq<Span>, b: Seq<Span>)
    ensures
        styled(printer, a + b) == styled(printer, a) + styled(printer, b),
    decreases b.len(),
{
    if b.len() == 0 {
        assert(a + b =~= a);
        assert(styled(printer, a) + styled(printer, b) =~= styled(printer, a));
    } else {
        assert((a + b).drop_last() =~= a + b.drop_last());
        lemma_styled_concat(printer, a, b.drop_last());
        assert(styled(printer, a + b) =~= styled(printer, a) + styled(printer, b));
    }
}

/// A cell is two characters wider than its column's content, whatever its
/// text.
pub proof fn lemma_cell_width(role: Role, text: Seq<char>, width: nat)
    ensures
        span_width(cell(role, text, width)) == width + 2,
{
    let body = shown(text, width);
    let a = Span { role: Role::Plain, text: seq![' '] };
    let b = Span { role: role, text: body };
    let pad = blanks((width - body.len()) as nat);
    let c = Span { role: Role::Plain, text: pad + seq![' '] };
    assert(body.len() <= width);
    lemma_repeated_char_len(' ', (width - body.len()) as nat);
    assert(c.text.len() == width - body.len() + 1);
    assert(a.text.len() == 1);
    assert(span_width(Seq::<Span>::empty()) == 0);
    let one = Seq::<Span>::empty().push(a);
    let two = one.push(b);
    lemma_span_width_push(Seq::<Span>::empty(), a);
    lemma_span_width_push(one, b);
    lemma_span_width_push(two, c);
    assert(cell(role, text, width) =~= two.push(c));
}

/// Adding a cell to a line adds the cell's width and the divider.
pub proof fn lemma_with_cell_width(line: Seq<Span>, role: Role, text: Seq<char>, width: nat)
    ensures
        span_width(with_cell(line, role, text, width)) == span_width(line) + width + 3,
{
    lemma_cell_width(role, text, width);
    lemma_span_width_concat(line, cell(role, text, width));
    lemma_span_width_push(line + cell(role, text, width), divider());
}

/// A border is as wide as asked, and never narrower than its two corners.
pub proof fn lemma_frame_width(left: BorderGlyph, right: BorderGlyph, width: nat)
    ensures
        frame_text(left, right, width).len() == if width >= 2 {
            width
        } else {
            2
        },
        span_width(frame_line(left, right, width)) == frame_text(left, right, width).len(),
{
    lemma_repeated_char_len(glyph_char(BorderGlyph::Horizontal), fill_count(width));
    assert(glyph_text(left).len() == 1);
    assert(glyph_text(right).len() == 1);
    lemma_span_width_push(
        Seq::<Span>::empty(),
        Span { role: Role::Border, text: frame_text(left, right, width) },
    );
}

/// The header line is as wide as the table.
pub proof fn lemma_header_width(plan: PlanView)
    ensures
        span_width(header_line(plan)) == plan.table_width(),
{
    let start = seq![divider()];
    lemma_span_width_push(Seq::<Span>::empty(), divider());
    let a = with_cell(start, Role::Plain, label(Column::Index), plan.index);
    lemma_with_cell_width(start, Role::Plain, label(Column::Index), plan.index);
    let b = with_cell(a, Role::Plain, label(Column::Name), plan.name);
    lemma_with_cell_width(a, Role::Plain, label(Column::Name), plan.name);
    let c = with_cell(b, Role::Plain, label(Column::Type), plan.kind);
    lemma_with_cell_width(b, Role::Plain, label(Column::Type), plan.kind);
    let d = match plan.size {
        Some(w) => with_cell(c, Role::Plain, label(Column::Size), w),
        None => c,
    };
    if let Some(w) = plan.size {
        lemma_with_cell_width(c, Role::Plain, label(Column::Size), w);
    }
    lemma_with_cell_width(d, Role::Plain, label(Column::Modified), plan.modified);
}

/// A row's line is as wide as the table, whatever the row holds.
pub proof fn lemma_row_width(plan: PlanView, cells: Cells)
    ensures
        span_width(row_line(plan, cells)) == plan.table_width(),
{
    let start = seq![divider()];
    lemma_span_width_push(Seq::<Span>::empty(), divider());
    let a = with_cell(start, Role::Plain, cells.index, plan.index);
    lemma_with_cell_width(start, Role::Plain, cells.index, plan.index);
    let b = with_cell(a, name_role(cells.kind), cells.name, plan.name);
    lemma_with_cell_width(a, name_role(cells.kind), cells.name, plan.name);
    let c = with_cell(b, Role::Plain, kind_label(cells.kind), plan.kind);
    lemma_with_cell_width(b, Role::Plain, kind_label(cells.kind), plan.kind);
    let d = match plan.size {
        Some(w) => with_cell(c, Role::Plain, cells.size, w),
        None => c,
    };
    if let Some(w) = plan.size {
        lemma_with_cell_width(c, Role::Plain, cells.size, w);
    }
    lemma_with_cell_width(d, Role::Plain, cells.modified, plan.modified);
}

/// What a cell comes to as characters: the margin, the shown text in the
/// color of its role, the padding and the other margin.
pub proof fn lemma_styled_cell(printer: Printer, role: Role, text: Seq<char>, width: nat)
    ensures
        styled(printer, cell(role, text, width)) == seq![' '] + painted(
            printer.color_of(role),
            shown(text, width),
        ) + blanks((width - shown(text, width).len()) as nat) + seq![' '],
{
    let body = shown(text, width);
    let pad = blanks((width - body.len()) as nat);
    let a = Span { role: Role::Plain, text: seq![' '] };
    let b = Span { role: role, text: body };
    let c = Span { role: Role::Plain, text: pad + seq![' '] };
    let one = Seq::<Span>::empty().push(a);
    let two = one.push(b);
    lemma_styled_push(printer, Seq::<Span>::empty(), a);
    lemma_styled_push(printer, one, b);
    lemma_styled_push(printer, two, c);
    assert(cell(role, text, width) =~= two.push(c));
    lemma_painted_default(a.text);
    lemma_painted_default(c.text);
    assert(styled(printer, two.push(c)) =~= seq![' '] + painted(printer.color_of(role), body) + pad
        + seq![' ']);
}

/// What a line comes to once a cell and its divider are added.
pub proof fn lemma_styled_with_cell(
    printer: Printer,
    line: Seq<Span>,
    role: Role,
    text: Seq<char>,
    width: nat,
)
    ensures
        styled(printer, with_cell(line, role, text, width)) == styled(printer, line) + styled(
            printer,
            cell(role, text, width),
        ) + painted(printer.border_color, glyph_text(BorderGlyph::Vertical)),
{
    lemma_styled_concat(printer, line, cell(role, text, width));
    lemma_styled_push(printer, line + cell(role, text, width), divider());
}

/// A line of one span comes to that span, painted.
pub proof fn lemma_styled_single(printer: Printer, span: Span)
    ensures
        styled(printer, seq![span]) == painted(printer.color_of(span.role), span.text),
{
    lemma_styled_push(printer, Seq::<Span>::empty(), span);
    assert(styled(printer, seq![span]) =~= painted(printer.color_of(span.role), span.text));
}

/// Joining one more line adds a line feed and the line, unless it is the
/// first.
pub proof fn lemma_joined_push(lines: Seq<Seq<char>>, line: Seq<char>)
    ensures
        joined(lines.push(line)) == if lines.len() == 0 {
            line
        } else {
            joined(lines) + seq!['\n'] + line
        },
{
    assert(lines.push(line).drop_last() =~= lines);
}

/// Joining two runs of lines, neither empty, is joining each and putting a
/// line feed between them.
pub proof fn lemma_joined_concat(a: Seq<Seq<char>>, b: Seq<Seq<char>>)
    requires
        a.len() > 0,
        b.len() > 0,
    ensures
        joined(a + b) == joined(a) + seq!['\n'] + joined(b),
    decreases b.len(),
{
    assert((a + b).drop_last() =~= a + b.drop_last());
    if b.len() == 1 {
        assert(a + b.drop_last() =~= a);
    } else {
        lemma_joined_concat(a, b.drop_last());
        assert(joined(a + b) =~= joined(a) + seq!['\n'] + joined(b));
    }
}

} // verus!
