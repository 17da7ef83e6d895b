use dirtable::color::Color;
use dirtable::layout::ColumnPlan;
use dirtable::layout::DrawItem;
use dirtable::printer::table_width;
use dirtable::printer::Printer;
use dirtable::record::PathKind;
use dirtable::record::PathRecord;

fn plain(show_size: bool) -> Printer {
    Printer::new(Color::Default, Color::Default, Color::Default, show_size)
}

fn sample() -> Vec<PathRecord> {
    vec![
        PathRecord::new("src".to_string(), PathKind::Folder, 0, 1_700_000_000).unwrap(),
        PathRecord::new("main.rs".to_string(), PathKind::File, 412, 951_782_400).unwrap(),
    ]
}

#[test]
fn two_records_with_sizes() {
    let out = plain(true).render(&sample());
    let expected = format!(
        "{}\n{}\n{}\n{}\n{}",
        format!("┌{}┐", "─".repeat(51)),
        "│ # │ Name    │ Type   │ Size │ modified            │",
        "│ 0 │ src     │ folder │ 0    │ 2023-11-14 22:13:20 │",
        "│ 1 │ main.rs │ file   │ 412  │ 2000-02-29 00:00:00 │",
        format!("└{}┘", "─".repeat(51)),
    );
    assert_eq!(out, expected);
}

#[test]
fn two_records_without_sizes() {
    let out = plain(false).render(&sample());
    let expected = format!(
        "{}\n{}\n{}\n{}\n{}",
        format!("┌{}┐", "─".repeat(44)),
        "│ # │ Name    │ Type   │ modified            │",
        "│ 0 │ src     │ folder │ 2023-11-14 22:13:20 │",
        "│ 1 │ main.rs │ file   │ 2000-02-29 00:00:00 │",
        format!("└{}┘", "─".repeat(44)),
    );
    assert_eq!(out, expected);
}

#[test]
fn empty_listing_has_three_lines() {
    let out = plain(true).render(&Vec::new());
    let expected = format!(
        "{}\n{}\n{}",
        format!("┌{}┐", "─".repeat(35)),
        "│ # │ Name │ Type │ Size │ modified │",
        format!("└{}┘", "─".repeat(35)),
    );
    assert_eq!(out, expected);
}

#[test]
fn one_line_for_each_record_and_three_more() {
    let mut records = Vec::new();
    for i in 0..12u64 {
        assert_eq!(plain(true).render(&records).lines().count(), 3 + records.len());
        let kind = if i % 2 == 0 { PathKind::File } else { PathKind::Folder };
        records.push(PathRecord::new(format!("entry-{}", i), kind, i * 1000, i * 86_400).unwrap());
    }
    assert_eq!(plain(false).render(&records).lines().count(), 15);
}

#[test]
fn every_line_is_as_wide_as_the_others() {
    let records = vec![
        PathRecord::new("a".to_string(), PathKind::File, 1, 0).unwrap(),
        PathRecord::new("a-name-far-wider-than-any-other".to_string(), PathKind::Folder, 0, 1).unwrap(),
        PathRecord::new("größe.txt".to_string(), PathKind::File, u64::MAX, u64::MAX).unwrap(),
    ];
    for show_size in [true, false] {
        let out = plain(show_size).render(&records);
        let widths: Vec<usize> = out.lines().map(|line| line.chars().count()).collect();
        assert_eq!(widths.len(), 6);
        assert!(widths.iter().all(|w| *w == widths[0]));
    }
}

#[test]
fn size_label_only_with_size_column() {
    let with = plain(true).render(&sample());
    let without = plain(false).render(&sample());
    assert!(with.contains("Size"));
    assert!(!without.contains("Size"));
    let dividers = |text: &str| text.lines().nth(1).unwrap().matches('│').count();
    assert_eq!(dividers(&with), 6);
    assert_eq!(dividers(&without), 5);
}

#[test]
fn rendering_twice_gives_the_same_text() {
    let printer = Printer::new(Color::Blue, Color::Green, Color::Red, true);
    let records = sample();
    assert_eq!(printer.render(&records), printer.render(&records));
}

#[test]
fn no_line_feed_after_the_bottom_border() {
    let out = plain(true).render(&sample());
    assert!(out.ends_with('┘'));
    assert!(out.starts_with('┌'));
}

#[test]
fn names_and_frame_are_painted() {
    let printer = Printer::new(Color::Blue, Color::Green, Color::Red, false);
    let out = printer.render(&sample());
    let bar = "\x1b[31m│\x1b[0m";
    let expected = format!(
        "{}\n{}\n{}\n{}\n{}",
        format!("\x1b[31m┌{}┐\x1b[0m", "─".repeat(44)),
        format!("{bar} # {bar} Name    {bar} Type   {bar} modified            {bar}"),
        format!("{bar} 0 {bar} \x1b[34msrc\x1b[0m     {bar} folder {bar} 2023-11-14 22:13:20 {bar}"),
        format!("{bar} 1 {bar} \x1b[32mmain.rs\x1b[0m {bar} file   {bar} 2000-02-29 00:00:00 {bar}"),
        format!("\x1b[31m└{}┘\x1b[0m", "─".repeat(44)),
    );
    assert_eq!(out, expected);
}

#[test]
fn bottom_border_never_underflows() {
    assert_eq!(Printer::draw_bottom(0), "└┘");
    assert_eq!(Printer::draw_bottom(1), "└┘");
    assert_eq!(Printer::draw_bottom(2), "└┘");
    assert_eq!(Printer::draw_bottom(3), "└─┘");
    assert_eq!(Printer::draw_bottom(7), "└─────┘");
}

#[test]
fn lines_are_joined_without_a_trailing_line_feed() {
    assert_eq!(Printer::draw_input_vertically(Vec::new()), "");
    assert_eq!(Printer::draw_input_vertically(vec!["one".to_string()]), "one");
    assert_eq!(
        Printer::draw_input_vertically(vec!["one".to_string(), "".to_string(), "3".to_string()]),
        "one\n\n3"
    );
}

#[test]
fn a_narrow_plan_cuts_and_keeps_the_width() {
    let printer = plain(true);
    let plan = ColumnPlan { index: 1, name: 3, kind: 0, size: Some(2), modified: 4 };
    let item = DrawItem {
        index: "10".to_string(),
        name: "main.rs".to_string(),
        kind: PathKind::File,
        size: "412".to_string(),
        modified: "2000-02-29 00:00:00".to_string(),
    };
    let row = printer.draw_row(&plan, &item);
    assert_eq!(row, "│ 1 │ mai │  │ 41 │ 2000 │");
    assert_eq!(row.chars().count() as u128, table_width(&plan));
    let labels = printer.draw_labels(&plan);
    assert_eq!(labels, "│ # │ Nam │  │ Si │ modi │");
    assert_eq!(printer.draw_header(&plan), format!("┌{}┐\n{}", "─".repeat(24), labels));
}

#[test]
fn planned_columns_fit_the_widest_text() {
    let printer = plain(true);
    let items = printer.create_draw_items(&sample());
    assert_eq!(items.len(), 2);
    assert_eq!(items[1].index, "1");
    assert_eq!(items[1].name, "main.rs");
    assert_eq!(items[1].size, "412");
    assert_eq!(items[0].modified, "2023-11-14 22:13:20");
    let plan = printer.plan_columns(&items);
    assert_eq!((plan.index, plan.name, plan.kind, plan.size, plan.modified), (1, 7, 6, Some(4), 19));
    assert_eq!(table_width(&plan), 53);
    let narrow = plain(false).plan_columns(&Vec::new());
    assert_eq!((narrow.index, narrow.name, narrow.kind, narrow.size, narrow.modified), (1, 4, 4, None, 8));
    assert_eq!(table_width(&narrow), 30);
}

#[test]
fn body_ends_with_the_bottom_border() {
    let printer = plain(false);
    let items = printer.create_draw_items(&sample());
    let plan = printer.plan_columns(&items);
    let body = printer.draw_body(&plan, &items);
    let expected = format!(
        "{}\n{}\n{}",
        "│ 0 │ src     │ folder │ 2023-11-14 22:13:20 │",
        "│ 1 │ main.rs │ file   │ 2000-02-29 00:00:00 │",
        format!("└{}┘", "─".repeat(44)),
    );
    assert_eq!(body, expected);
    assert_eq!(printer.draw_body(&plan, &Vec::new()), format!("└{}┘", "─".repeat(44)));
}

fn room(line: &str) -> usize {
    let mut inside = false;
    let mut width = 0;
    for c in line.chars() {
        if inside {
            inside = c != 'm';
        } else if c == '\x1b' {
            inside = true;
        } else {
            width += 1;
        }
    }
    width
}

#[test]
fn painted_lines_take_up_the_same_room() {
    let records = vec![
        PathRecord::new("docs".to_string(), PathKind::Folder, 0, 86_400 * 366).unwrap(),
        PathRecord::new("a-much-longer-name.tar.gz".to_string(), PathKind::File, 123_456_789, 1).unwrap(),
        PathRecord::new("ü".to_string(), PathKind::File, 5, 2).unwrap(),
    ];
    let colors = [
        Color::Default,
        Color::Black,
        Color::Red,
        Color::Green,
        Color::Yellow,
        Color::Blue,
        Color::Magenta,
        Color::Cyan,
        Color::White,
    ];
    for (i, folder) in colors.iter().enumerate() {
        let file = colors[(i + 3) % colors.len()];
        let border = colors[(i + 5) % colors.len()];
        let printer = Printer::new(*folder, file, border, i % 2 == 0);
        let plan = printer.plan_columns(&printer.create_draw_items(&records));
        let out = printer.render(&records);
        assert_eq!(out.lines().count(), 6);
        for line in out.lines() {
            assert_eq!(room(line) as u128, table_width(&plan));
        }
    }
}

#[test]
fn cutting_counts_characters_not_bytes() {
    let printer = Printer::new(Color::Yellow, Color::Cyan, Color::Default, false);
    let plan = ColumnPlan { index: 1, name: 3, kind: 4, size: None, modified: 0 };
    let item = DrawItem {
        index: "7".to_string(),
        name: "größe.txt".to_string(),
        kind: PathKind::File,
        size: "1".to_string(),
        modified: "x".to_string(),
    };
    assert_eq!(printer.draw_row(&plan, &item), "│ 7 │ \x1b[36mgrö\x1b[0m │ file │  │");
    let folder = DrawItem { kind: PathKind::Folder, name: "ab".to_string(), ..item };
    assert_eq!(printer.draw_row(&plan, &folder), "│ 7 │ \x1b[33mab\x1b[0m  │ fold │  │");
}

#[test]
fn a_wide_cell_widens_its_column_for_every_row() {
    let records = vec![
        PathRecord::new("a".to_string(), PathKind::File, 1, 0).unwrap(),
        PathRecord::new("abcdefghijklmnop".to_string(), PathKind::File, 22, 0).unwrap(),
    ];
    let out = plain(true).render(&records);
    let lines: Vec<&str> = out.lines().collect();
    assert_eq!(lines[1], "│ # │ Name             │ Type │ Size │ modified            │");
    assert_eq!(lines[2], "│ 0 │ a                │ file │ 1    │ 1970-01-01 00:00:00 │");
    assert_eq!(lines[3], "│ 1 │ abcdefghijklmnop │ file │ 22   │ 1970-01-01 00:00:00 │");
}

#[test]
fn records_can_be_copied() {
    let record = PathRecord::new("copy.me".to_string(), PathKind::File, 3, 4).unwrap();
    let copy = record.clone();
    assert_eq!(copy, record);
    assert_eq!(copy.name(), "copy.me");
    assert_eq!(copy.kind(), PathKind::File);
    assert_eq!(copy.size_bytes(), 3);
    assert_eq!(copy.modified(), 4);
}
