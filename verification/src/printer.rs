//! The printer: a display configuration and the functions that draw a
//! table with it.

use crate::color::paint;
use crate::color::push_painted;
use crate::color::Color;
use crate::color::RenderError;
use crate::clock::format_timestamp;
use crate::layout::body_lines;
use crate::layout::cell;
use crate::layout::cells_of;
use crate::layout::divider;
use crate::layout::frame_text;
use crate::layout::head_lines;
use crate::layout::header_line;
use crate::layout::joined;
use crate::layout::kind_label;
use crate::layout::label;
use crate::layout::lemma_joined_concat;
use crate::layout::lemma_joined_push;
use crate::layout::lemma_styled_cell;
use crate::layout::lemma_styled_single;
use crate::layout::lemma_styled_with_cell;
use crate::layout::name_role;
use crate::layout::planned;
use crate::layout::rendered;
use crate::layout::row_line;
use crate::layout::rows_for;
use crate::layout::rows_of;
use crate::layout::styled;
use crate::layout::styled_lines;
use crate::layout::table_lines;
use crate::layout::widest;
use crate::layout::with_cell;
use crate::layout::Cells;
use crate::layout::Column;
use crate::layout::ColumnPlan;
use crate::layout::DrawItem;
use crate::layout::Role;
use crate::layout::Span;
use crate::number::format_decimal;
use crate::record::record_views;
use crate::record::PathKind;
use crate::record::PathRecord;
use crate::symbols::glyph;
use crate::symbols::BorderGlyph;
use crate::text::texts;
use crate::text::TextBuilder;
use vstd::prelude::*;

verus! {

/// The display configuration of a table.
#[derive(Clone, Copy, Debug, PartialEq, Eq)]
pub struct Printer {
    /// The color of folder names.
    pub folder_color: Color,
    /// The color of file names.
    pub files_color: Color,
    /// The color of the frame.
    pub border_color: Color,
    /// Whether the table has a size column.
    pub show_size: bool,
}

impl Printer {
    /// The color that text of a role is painted in.
    pub open spec fn color_of(self, role: Role) -> Color {
        match role {
            Role::Plain => Color::Default,
            Role::Border => self.border_color,
            Role::Folder => self.folder_color,
            Role::File => self.files_color,
        }
    }

    /// A printer with the given colors, with or without a size column.
    pub fn new(folder_color: Color, files_color: Color, border_color: Color, show_size: bool) -> (p:
        Printer)
        ensures
            p.folder_color == folder_color,
            p.files_color == files_color,
            p.border_color == border_color,
            p.show_size == show_size,
    {
        Printer { folder_color, files_color, border_color, show_size }
    }

    /// A printer from the identifiers of its three colors. An identifier
    /// that names no color is an error, whichever of the three it is; no
    /// printer is made then, so nothing can be drawn with a configuration
    /// that is not valid.
    pub fn from_names(folder_color: &str, files_color: &str, border_color: &str, show_size: bool) -> (made:
        Result<Printer, RenderError>)
        ensures
            made == match (
                Color::named(folder_color@),
                Color::named(files_color@),
                Color::named(border_color@),
            ) {
                (Some(folder), Some(files), Some(border)) => Ok::<Printer, RenderError>(
                    Printer {
                        folder_color: folder,
                        files_color: files,
                        border_color: border,
                        show_size: show_size,
                    },
                ),
                _ => Err::<Printer, RenderError>(RenderError::InvalidColor),
            },
    {
        let folder = match Color::from_name(folder_color) {
            Ok(color) => color,
            Err(error) => {
                return Err(error);
            },
        };
        let files = match Color::from_name(files_color) {
            Ok(color) => color,
            Err(error) => {
                return Err(error);
            },
        };
        let border = match Color::from_name(border_color) {
            Ok(color) => color,
            Err(error) => {
                return Err(error);
            },
        };
        Ok(Printer::new(folder, files, border, show_size))
    }

    /// The table of a listing as text: the top border, the line of labels,
    /// one line for each record in the order of the listing, and the bottom
    /// border, with a line feed between neighbours and none at the end.
    /// Every column is as wide as its widest text, so nothing is cut.
    pub fn render(&self, records: &Vec<PathRecord>) -> (s: String)
        ensures
            s@ == rendered(*self, record_views(records@)),
    {
        let items = self.create_draw_items(records);
        let plan = self.plan_columns(&items);
        let mut parts: Vec<String> = Vec::new();
        parts.push(self.draw_header(&plan));
        parts.push(self.draw_body(&plan, &items));
        proof {
            let rows = rows_of(items@);
            let head = styled_lines(*self, head_lines(plan@));
            let body = styled_lines(*self, body_lines(plan@, rows));
            assert(styled_lines(*self, table_lines(plan@, rows)) =~= head + body);
            lemma_joined_concat(head, body);
            let first = Seq::<Seq<char>>::empty().push(joined(head));
            assert(texts(parts@) =~= first.push(joined(body)));
            lemma_joined_push(first, joined(body));
        }
        Self::draw_input_vertically(parts)
    }

    /// The texts of the rows of a listing.
    pub fn create_draw_items(&self, records: &Vec<PathRecord>) -> (items: Vec<DrawItem>)
        ensures
            rows_of(items@) == rows_for(record_views(records@)),
    {
        let mut items: Vec<DrawItem> = Vec::new();
        let mut i: usize = 0;
        while i < records.len()
            invariant
                i <= records.len(),
                items.len() == i,
                forall|k: int|
                    0 <= k < i ==> (#[trigger] items@[k])@ == cells_of(k as nat, records@[k]@),
            decreases records.len() - i,
        {
            let record = &records[i];
            items.push(
                DrawItem {
                    index: format_decimal(i as u64),
                    name: record.name().to_owned(),
                    kind: record.kind(),
                    size: format_decimal(record.size_bytes()),
                    modified: format_timestamp(record.modified()),
                },
            );
            i = i + 1;
        }
        assert(rows_of(items@) =~= rows_for(record_views(records@)));
        items
    }

    /// Plans the columns: each as wide as the widest of its label and its
    /// cells, and a size column only if the printer shows sizes.
    pub fn plan_columns(&self, items: &Vec<DrawItem>) -> (plan: ColumnPlan)
        ensures
            plan@ == planned(rows_of(items@), self.show_size),
    {
        let mut index: usize = column_label(Column::Index).unicode_len();
        let mut name: usize = column_label(Column::Name).unicode_len();
        let mut kind: usize = column_label(Column::Type).unicode_len();
        let mut size: usize = column_label(Column::Size).unicode_len();
        let mut modified: usize = column_label(Column::Modified).unicode_len();
        let ghost rows = rows_of(items@);
        let mut i: usize = 0;
        assert(rows.take(0) =~= Seq::<Cells>::empty());
        while i < items.len()
            invariant
                i <= items.len(),
                rows == rows_of(items@),
                index == widest(rows.take(i as int), Column::Index),
                name == widest(rows.take(i as int), Column::Name),
                kind == widest(rows.take(i as int), Column::Type),
                size == widest(rows.take(i as int), Column::Size),
                modified == widest(rows.take(i as int), Column::Modified),
            decreases items.len() - i,
        {
            let item = &items[i];
            proof {
                assert(rows.take(i + 1).drop_last() =~= rows.take(i as int));
                assert(rows.take(i + 1).last() == item@);
            }
            index = wider(index, item.index.as_str().unicode_len());
            name = wider(name, item.name.as_str().unicode_len());
            kind = wider(kind, kind_text(item.kind).unicode_len());
            size = wider(size, item.size.as_str().unicode_len());
            modified = wider(modified, item.modified.as_str().unicode_len());
            i = i + 1;
        }
        assert(rows.take(i as int) =~= rows);
        ColumnPlan {
            index,
            name,
            kind,
            size: if self.show_size {
                Some(size)
            } else {
                None
            },
            modified,
        }
    }

    /// The color that text of a role is painted in.
    pub fn color_for(&self, role: Role) -> (c: Color)
        ensures
            c == self.color_of(role),
    {
        match role {
            Role::Plain => Color::Default,
            Role::Border => self.border_color,
            Role::Folder => self.folder_color,
            Role::File => self.files_color,
        }
    }

    /// Appends one cell to a line under construction.
    fn push_cell(&self, out: &mut TextBuilder, role: Role, text: &str, width: usize)
        requires
            old(out).wf(),
        ensures
            final(out).wf(),
            final(out)@ == old(out)@ + styled(*self, cell(role, text@, width as nat)),
    {
        proof {
            reveal_strlit(" ");
            assert(" "@ =~= seq![' ']);
            lemma_styled_cell(*self, role, text@, width as nat);
        }
        let len: usize = text.unicode_len();
        let (body, padding): (&str, usize) = if len <= width {
            (text, width - len)
        } else {
            (text.substring_char(0, width), 0)
        };
        out.push_str(" ");
        push_painted(out, self.color_for(role), body);
        out.push_repeated(" ", padding as u128);
        out.push_str(" ");
        assert(out@ =~= old(out)@ + styled(*self, cell(role, text@, width as nat)));
    }

    /// Appends one cell and the divider behind it to a line under
    /// construction.
    fn add_cell(
        &self,
        out: &mut TextBuilder,
        Ghost(line): Ghost<Seq<Span>>,
        role: Role,
        text: &str,
        width: usize,
    )
        requires
            old(out).wf(),
            old(out)@ == styled(*self, line),
        ensures
            final(out).wf(),
            final(out)@ == styled(*self, with_cell(line, role, text@, width as nat)),
    {
        proof {
            lemma_styled_with_cell(*self, line, role, text@, width as nat);
        }
        self.push_cell(out, role, text, width);
        push_painted(out, self.border_color, glyph(BorderGlyph::Vertical));
    }

    /// Starts a line with its left divider.
    fn start_line(&self) -> (out: TextBuilder)
        ensures
            out.wf(),
            out@ == styled(*self, seq![divider()]),
    {
        let mut out = TextBuilder::new();
        push_painted(&mut out, self.border_color, glyph(BorderGlyph::Vertical));
        proof {
            lemma_styled_single(*self, divider());
            assert(out@ =~= styled(*self, seq![divider()]));
        }
        out
    }

    /// The line that holds the column labels.
    pub fn draw_labels(&self, plan: &ColumnPlan) -> (s: String)
        ensures
            s@ == styled(*self, header_line(plan@)),
    {
        let mut out = self.start_line();
        let ghost start = seq![divider()];
        let ghost a = with_cell(start, Role::Plain, label(Column::Index), plan@.index);
        let ghost b = with_cell(a, Role::Plain, label(Column::Name), plan@.name);
        let ghost c = with_cell(b, Role::Plain, label(Column::Type), plan@.kind);
        self.add_cell(&mut out, Ghost(start), Role::Plain, column_label(Column::Index), plan.index);
        self.add_cell(&mut out, Ghost(a), Role::Plain, column_label(Column::Name), plan.name);
        self.add_cell(&mut out, Ghost(b), Role::Plain, column_label(Column::Type), plan.kind);
        let ghost d = c;
        match plan.size {
            Some(w) => {
                self.add_cell(&mut out, Ghost(c), Role::Plain, column_label(Column::Size), w);
                proof {
                    d = with_cell(c, Role::Plain, label(Column::Size), w as nat);
                }
            },
            None => {},
        }
        self.add_cell(&mut out, Ghost(d), Role::Plain, column_label(Column::Modified), plan.modified);
        out.finish()
    }

    /// The line of one row.
    pub fn draw_row(&self, plan: &ColumnPlan, item: &DrawItem) -> (s: String)
        ensures
            s@ == styled(*self, row_line(plan@, item@)),
    {
        let mut out = self.start_line();
        let ghost cells = item@;
        let ghost start = seq![divider()];
        let ghost a = with_cell(start, Role::Plain, cells.index, plan@.index);
        let ghost b = with_cell(a, name_role(cells.kind), cells.name, plan@.name);
        let ghost c = with_cell(b, Role::Plain, kind_label(cells.kind), plan@.kind);
        self.add_cell(&mut out, Ghost(start), Role::Plain, item.index.as_str(), plan.index);
        self.add_cell(&mut out, Ghost(a), role_of_name(item.kind), item.name.as_str(), plan.name);
        self.add_cell(&mut out, Ghost(b), Role::Plain, kind_text(item.kind), plan.kind);
        let ghost d = c;
        match plan.size {
            Some(w) => {
                self.add_cell(&mut out, Ghost(c), Role::Plain, item.size.as_str(), w);
                proof {
                    d = with_cell(c, Role::Plain, cells.size, w as nat);
                }
            },
            None => {},
        }
        self.add_cell(&mut out, Ghost(d), Role::Plain, item.modified.as_str(), plan.modified);
        out.finish()
    }

    /// The bottom border of a table of the given width, unpainted. A width
    /// under two gives the two corners with nothing between them.
    pub fn draw_bottom(width: u128) -> (s: String)
        ensures
            s@ == frame_text(BorderGlyph::BottomLeft, BorderGlyph::BottomRight, width as nat),
    {
        draw_frame(BorderGlyph::BottomLeft, BorderGlyph::BottomRight, width)
    }

    /// The header of the table: the top border, then the line of labels.
    pub fn draw_header(&self, plan: &ColumnPlan) -> (s: String)
        ensures
            s@ == joined(styled_lines(*self, head_lines(plan@))),
    {
        let top = draw_frame(BorderGlyph::TopLeft, BorderGlyph::TopRight, table_width(plan));
        let mut lines: Vec<String> = Vec::new();
        lines.push(paint(self.border_color, top.as_str()));
        lines.push(self.draw_labels(plan));
        proof {
            lemma_styled_single(
                *self,
                Span {
                    role: Role::Border,
                    text: frame_text(
                        BorderGlyph::TopLeft,
                        BorderGlyph::TopRight,
                        plan@.table_width(),
                    ),
                },
            );
            assert(texts(lines@) =~= styled_lines(*self, head_lines(plan@)));
        }
        Self::draw_input_vertically(lines)
    }

    /// The body of the table: one line for each item, in order, then the
    /// bottom border.
    pub fn draw_body(&self, plan: &ColumnPlan, items: &Vec<DrawItem>) -> (s: String)
        ensures
            s@ == joined(styled_lines(*self, body_lines(plan@, rows_of(items@)))),
    {
        let mut to_draw: Vec<String> = Vec::new();
        let mut i: usize = 0;
        while i < items.len()
            invariant
                i <= items.len(),
                to_draw.len() == i,
                forall|k: int|
                    0 <= k < i ==> (#[trigger] to_draw@[k])@ == styled(
                        *self,
                        row_line(plan@, items@[k]@),
                    ),
            decreases items.len() - i,
        {
            to_draw.push(self.draw_row(plan, &items[i]));
            i = i + 1;
        }
        let bottom = Self::draw_bottom(table_width(plan));
        to_draw.push(paint(self.border_color, bottom.as_str()));
        proof {
            lemma_styled_single(
                *self,
                Span {
                    role: Role::Border,
                    text: frame_text(
                        BorderGlyph::BottomLeft,
                        BorderGlyph::BottomRight,
                        plan@.table_width(),
                    ),
                },
            );
            assert(texts(to_draw@) =~= styled_lines(*self, body_lines(plan@, rows_of(items@))));
        }
        Self::draw_input_vertically(to_draw)
    }

    /// Puts lines below one another: a line feed between neighbours, none
    /// at the end.
    pub fn draw_input_vertically(input: Vec<String>) -> (s: String)
        ensures
            s@ == joined(texts(input@)),
    {
        let mut out = TextBuilder::new();
        let mut i: usize = 0;
        proof {
            reveal_strlit("\n");
            assert("\n"@ =~= seq!['\n']);
            assert(texts(input@).take(0) =~= Seq::<Seq<char>>::empty());
        }
        while i < input.len()
            invariant
                i <= input.len(),
                out.wf(),
                "\n"@ == seq!['\n'],
                out@ == joined(texts(input@).take(i as int)),
            decreases input.len() - i,
        {
            if i > 0 {
                out.push_str("\n");
            }
            out.push_str(input[i].as_str());
            proof {
                let before = texts(input@).take(i as int);
                assert(texts(input@).take(i + 1) =~= before.push(input@[i as int]@));
                lemma_joined_push(before, input@[i as int]@);
                assert(Seq::<char>::empty() + input@[i as int]@ =~= input@[i as int]@);
            }
            i = i + 1;
        }
        assert(texts(input@).take(i as int) =~= texts(input@));
        out.finish()
    }
}

/// The larger of two widths.
fn wider(a: usize, b: usize) -> (w: usize)
    ensures
        w == if b > a {
            b
        } else {
            a
        },
{
    if b > a {
        b
    } else {
        a
    }
}

/// The label in the header of a column.
pub fn column_label(col: Column) -> (s: &'static str)
    ensures
        s@ == label(col),
{
    match col {
        Column::Index => "#",
        Column::Name => "Name",
        Column::Type => "Type",
        Column::Size => "Size",
        Column::Modified => "modified",
    }
}

/// What the type column shows for a kind.
pub fn kind_text(kind: PathKind) -> (s: &'static str)
    ensures
        s@ == kind_label(kind),
{
    match kind {
        PathKind::Folder => "folder",
        PathKind::File => "file",
    }
}

/// The role of the name of an entry of a kind.
pub fn role_of_name(kind: PathKind) -> (role: Role)
    ensures
        role == name_role(kind),
{
    match kind {
        PathKind::Folder => Role::Folder,
        PathKind::File => Role::File,
    }
}

/// The width of every line of a table drawn to a plan.
pub fn table_width(plan: &ColumnPlan) -> (width: u128)
    ensures
        width == plan@.table_width(),
{
    let size: u128 = match plan.size {
        Some(w) => w as u128 + 3,
        None => 0,
    };
    (plan.index as u128 + 3) + (plan.name as u128 + 3) + (plan.kind as u128 + 3) + size + (
    plan.modified as u128 + 3) + 1
}

/// A horizontal border of the given width, unpainted: a corner, the fill,
/// the other corner.
fn draw_frame(left: BorderGlyph, right: BorderGlyph, width: u128) -> (s: String)
    ensures
        s@ == frame_text(left, right, width as nat),
{
    let mut out = TextBuilder::new();
    out.push_str(glyph(left));
    out.push_repeated(glyph(BorderGlyph::Horizontal), width.saturating_sub(2));
    out.push_str(glyph(right));
    assert(out@ =~= frame_text(left, right, width as nat));
    out.finish()
}

} // verus!
