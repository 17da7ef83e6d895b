use dirtable::text::TextBuilder;

#[test]
fn empty_builder_gives_empty_string() {
    let tb = TextBuilder::new();
    assert_eq!(tb.finish(), "");
}

#[test]
fn pushed_pieces_come_out_in_order() {
    let mut tb = TextBuilder::new();
    tb.push_str("┌");
    tb.push_repeated("─", 3);
    tb.push_str("┐");
    assert_eq!(tb.finish(), "┌───┐");
}

#[test]
fn repeating_zero_times_adds_nothing() {
    let mut tb = TextBuilder::new();
    tb.push_str("a");
    tb.push_repeated("xyz", 0);
    tb.push_repeated("bc", 2);
    assert_eq!(tb.finish(), "abcbc");
}
