use dirtable::clock::civil_from_days;
use dirtable::clock::days_in_month;
use dirtable::clock::days_in_year;
use dirtable::clock::format_timestamp;
use dirtable::clock::leap_year;
use dirtable::clock::CivilDate;
use dirtable::color::paint;
use dirtable::color::Color;
use dirtable::color::RenderError;
use dirtable::number::format_decimal;
use dirtable::printer::Printer;
use dirtable::symbols::glyph;
use dirtable::symbols::BorderGlyph;
use dirtable::text::same_text;

#[test]
fn decimal_notation() {
    assert_eq!(format_decimal(0), "0");
    assert_eq!(format_decimal(7), "7");
    assert_eq!(format_decimal(10), "10");
    assert_eq!(format_decimal(412), "412");
    assert_eq!(format_decimal(1_000_000), "1000000");
    assert_eq!(format_decimal(9_876_543_210), "9876543210");
    assert_eq!(format_decimal(u64::MAX), "18446744073709551615");
    for n in 0..2000u64 {
        assert_eq!(format_decimal(n), n.to_string());
    }
}

#[test]
fn timestamps_as_text() {
    assert_eq!(format_timestamp(0), "1970-01-01 00:00:00");
    assert_eq!(format_timestamp(59), "1970-01-01 00:00:59");
    assert_eq!(format_timestamp(86_399), "1970-01-01 23:59:59");
    assert_eq!(format_timestamp(86_400), "1970-01-02 00:00:00");
    assert_eq!(format_timestamp(951_782_400), "2000-02-29 00:00:00");
    assert_eq!(format_timestamp(1_700_000_000), "2023-11-14 22:13:20");
    assert_eq!(format_timestamp(2_147_483_647), "2038-01-19 03:14:07");
    assert_eq!(format_timestamp(4_102_444_800), "2100-01-01 00:00:00");
    assert_eq!(format_timestamp(253_402_300_799), "9999-12-31 23:59:59");
    assert_eq!(format_timestamp(253_402_300_800), "10000-01-01 00:00:00");
}

#[test]
fn dates_from_day_numbers() {
    assert_eq!(civil_from_days(0), CivilDate { year: 1970, month: 1, day: 1 });
    assert_eq!(civil_from_days(30), CivilDate { year: 1970, month: 1, day: 31 });
    assert_eq!(civil_from_days(31), CivilDate { year: 1970, month: 2, day: 1 });
    assert_eq!(civil_from_days(58), CivilDate { year: 1970, month: 2, day: 28 });
    assert_eq!(civil_from_days(59), CivilDate { year: 1970, month: 3, day: 1 });
    assert_eq!(civil_from_days(364), CivilDate { year: 1970, month: 12, day: 31 });
    assert_eq!(civil_from_days(365), CivilDate { year: 1971, month: 1, day: 1 });
    assert_eq!(civil_from_days(789), CivilDate { year: 1972, month: 2, day: 29 });
    assert_eq!(civil_from_days(11_016), CivilDate { year: 2000, month: 2, day: 29 });
    assert_eq!(civil_from_days(47_540), CivilDate { year: 2100, month: 2, day: 28 });
    assert_eq!(civil_from_days(47_541), CivilDate { year: 2100, month: 3, day: 1 });
    assert_eq!(civil_from_days(146_096), CivilDate { year: 2369, month: 12, day: 31 });
    assert_eq!(civil_from_days(146_097), CivilDate { year: 2370, month: 1, day: 1 });
    let last = civil_from_days(u64::MAX / 86_400);
    assert_eq!(last, CivilDate { year: 584_554_051_223, month: 11, day: 9 });
}

#[test]
fn consecutive_days_are_consecutive_dates() {
    let mut before = civil_from_days(0);
    for day in 1..200_000u64 {
        let date = civil_from_days(day);
        if date.day == 1 {
            assert_eq!(before.day, days_in_month(before.year, before.month));
            if date.month == 1 {
                assert_eq!((before.year + 1, before.month), (date.year, 12));
            } else {
                assert_eq!((before.year, before.month + 1), (date.year, date.month));
            }
        } else {
            assert_eq!((before.year, before.month, before.day + 1), (date.year, date.month, date.day));
        }
        before = date;
    }
}

#[test]
fn leap_years() {
    assert!(leap_year(1972));
    assert!(leap_year(2000));
    assert!(leap_year(2024));
    assert!(!leap_year(1970));
    assert!(!leap_year(1900));
    assert!(!leap_year(2100));
    assert_eq!(days_in_year(2000), 366);
    assert_eq!(days_in_year(2001), 365);
    assert_eq!(days_in_month(2024, 2), 29);
    assert_eq!(days_in_month(2023, 2), 28);
    assert_eq!(days_in_month(2023, 4), 30);
    assert_eq!(days_in_month(2023, 12), 31);
}

#[test]
fn color_identifiers() {
    assert_eq!(Color::from_name("default"), Ok(Color::Default));
    assert_eq!(Color::from_name("black"), Ok(Color::Black));
    assert_eq!(Color::from_name("red"), Ok(Color::Red));
    assert_eq!(Color::from_name("green"), Ok(Color::Green));
    assert_eq!(Color::from_name("yellow"), Ok(Color::Yellow));
    assert_eq!(Color::from_name("blue"), Ok(Color::Blue));
    assert_eq!(Color::from_name("magenta"), Ok(Color::Magenta));
    assert_eq!(Color::from_name("cyan"), Ok(Color::Cyan));
    assert_eq!(Color::from_name("white"), Ok(Color::White));
}

#[test]
fn unknown_color_identifiers_are_refused() {
    assert_eq!(Color::from_name(""), Err(RenderError::InvalidColor));
    assert_eq!(Color::from_name("Red"), Err(RenderError::InvalidColor));
    assert_eq!(Color::from_name("red "), Err(RenderError::InvalidColor));
    assert_eq!(Color::from_name("re"), Err(RenderError::InvalidColor));
    assert_eq!(Color::from_name("purple"), Err(RenderError::InvalidColor));
    assert_eq!(Color::from_name("#ff0000"), Err(RenderError::InvalidColor));
}

#[test]
fn painting() {
    assert_eq!(paint(Color::Default, "plain"), "plain");
    assert_eq!(paint(Color::Red, "alert"), "\x1b[31malert\x1b[0m");
    assert_eq!(paint(Color::Black, ""), "\x1b[30m\x1b[0m");
    assert_eq!(paint(Color::White, "w"), "\x1b[37mw\x1b[0m");
    assert_eq!(Color::Cyan.start_code(), "\x1b[36m");
    assert_eq!(Color::Cyan.end_code(), "\x1b[0m");
    assert_eq!(Color::Default.start_code(), "");
    assert_eq!(Color::Default.end_code(), "");
}

#[test]
fn glyph_table() {
    assert_eq!(glyph(BorderGlyph::Horizontal), "─");
    assert_eq!(glyph(BorderGlyph::Vertical), "│");
    assert_eq!(glyph(BorderGlyph::TopLeft), "┌");
    assert_eq!(glyph(BorderGlyph::BottomLeft), "└");
    assert_eq!(glyph(BorderGlyph::TopRight), "┐");
    assert_eq!(glyph(BorderGlyph::BottomRight), "┘");
    assert_eq!(glyph(BorderGlyph::TDown), "┬");
    assert_eq!(glyph(BorderGlyph::TUp), "┴");
    assert_eq!(glyph(BorderGlyph::TLeft), "├");
    assert_eq!(glyph(BorderGlyph::TRight), "┤");
    assert_eq!(glyph(BorderGlyph::Cross), "┼");
}

#[test]
fn comparing_text() {
    assert!(same_text("", ""));
    assert!(same_text("größe", "größe"));
    assert!(!same_text("a", "b"));
    assert!(!same_text("a", "ab"));
    assert!(!same_text("ab", "a"));
}

#[test]
fn printer_from_identifiers() {
    assert_eq!(
        Printer::from_names("blue", "default", "red", true),
        Ok(Printer::new(Color::Blue, Color::Default, Color::Red, true))
    );
    assert_eq!(
        Printer::from_names("white", "white", "white", false),
        Ok(Printer::new(Color::White, Color::White, Color::White, false))
    );
    assert_eq!(Printer::from_names("bleu", "default", "red", true), Err(RenderError::InvalidColor));
    assert_eq!(Printer::from_names("blue", "", "red", true), Err(RenderError::InvalidColor));
    assert_eq!(Printer::from_names("blue", "default", "RED", false), Err(RenderError::InvalidColor));
}
