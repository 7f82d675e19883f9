use cliproc::help::Help;

#[test]
fn new_help_is_blank() {
    let help = Help::new();
    assert_eq!(help.get_quick_text(), "");
    assert_eq!(help.get_usage(), None);
    assert_eq!(help.get_summary(), None);
    assert_eq!(help.get_long_text(), None);
}

#[test]
fn builders_set_their_field_only() {
    let help = Help::new()
        .summary("Adds two numbers together.")
        .quick_text("quick")
        .long_text("long")
        .usage("add <left> <right>");
    assert_eq!(help.get_summary(), Some("Adds two numbers together."));
    assert_eq!(help.get_quick_text(), "quick");
    assert_eq!(help.get_long_text(), Some("long"));
    assert_eq!(help.get_usage(), Some("add <left> <right>"));
    let again = help.quick_text("other");
    assert_eq!(again.get_quick_text(), "other");
    assert_eq!(again.get_usage(), Some("add <left> <right>"));
    assert_eq!(again.get_summary(), Some("Adds two numbers together."));
}

#[test]
fn ref_usage_round_trip() {
    let help = Help::new().quick_text("L0\nL1\nL2\nL3\n").ref_usage(1..3);
    assert_eq!(help.get_usage(), Some("L1\nL2"));
    assert_eq!(help.get_quick_text(), "L0\nL1\nL2\nL3\n");
}

#[test]
fn ref_usage_from_first_line() {
    let help = Help::new().quick_text("L0\nL1\nL2\nL3\n").ref_usage(0..1);
    assert_eq!(help.get_usage(), Some("L0"));
    let all = Help::new().quick_text("L0\nL1\nL2\nL3\n").ref_usage(0..4);
    assert_eq!(all.get_usage(), Some("L0\nL1\nL2\nL3"));
}

#[test]
fn ref_usage_end_out_of_range_keeps_usage() {
    let blank = Help::new().quick_text("L0\nL1\nL2\nL3\n").ref_usage(1..5);
    assert_eq!(blank.get_usage(), None);
    let authored = Help::new().quick_text("L0\nL1\nL2\nL3\n").usage("prior").ref_usage(1..5);
    assert_eq!(authored.get_usage(), Some("prior"));
    let far = Help::new().quick_text("L0\n").usage("prior").ref_usage(7..9);
    assert_eq!(far.get_usage(), Some("prior"));
}

#[test]
fn ref_usage_empty_or_reversed_range_keeps_usage() {
    let text = "L0\nL1\nL2\nL3\n";
    assert_eq!(Help::new().quick_text(text).usage("prior").ref_usage(2..2).get_usage(), Some("prior"));
    assert_eq!(Help::new().quick_text(text).usage("prior").ref_usage(3..1).get_usage(), Some("prior"));
    assert_eq!(Help::new().quick_text(text).usage("prior").ref_usage(0..0).get_usage(), Some("prior"));
    assert_eq!(Help::new().quick_text(text).ref_usage(2..1).get_usage(), None);
}

#[test]
fn ref_usage_on_empty_text_keeps_usage() {
    assert_eq!(Help::new().ref_usage(0..1).get_usage(), None);
    assert_eq!(Help::new().usage("prior").ref_usage(0..1).get_usage(), Some("prior"));
}

#[test]
fn ref_usage_last_line_without_terminator() {
    let help = Help::new().quick_text("a\nbc").ref_usage(1..2);
    assert_eq!(help.get_usage(), Some("bc"));
    let both = Help::new().quick_text("a\nbc").ref_usage(0..2);
    assert_eq!(both.get_usage(), Some("a\nbc"));
    let past = Help::new().quick_text("a\nbc").ref_usage(1..3);
    assert_eq!(past.get_usage(), None);
}

#[test]
fn ref_usage_final_terminator_opens_no_line() {
    let help = Help::new().quick_text("a\nb\n").ref_usage(2..3);
    assert_eq!(help.get_usage(), None);
}

#[test]
fn ref_usage_empty_lines_count() {
    let help = Help::new().quick_text("a\n\nb\n").ref_usage(1..2);
    assert_eq!(help.get_usage(), Some(""));
    let two = Help::new().quick_text("a\n\nb\n").ref_usage(1..3);
    assert_eq!(two.get_usage(), Some("\nb"));
    let only = Help::new().quick_text("\n").ref_usage(0..1);
    assert_eq!(only.get_usage(), Some(""));
}

#[test]
fn ref_usage_counts_characters_not_bytes() {
    let help = Help::new().quick_text("\u{e9}t\u{e9}\n\u{df}1\nL2\n").ref_usage(1..2);
    assert_eq!(help.get_usage(), Some("\u{df}1"));
    let tail = Help::new().quick_text("\u{e9}t\u{e9}\n\u{df}1\nL2\n").ref_usage(1..3);
    assert_eq!(tail.get_usage(), Some("\u{df}1\nL2"));
}

#[test]
fn ref_usage_replaces_an_earlier_excerpt() {
    let help = Help::new().quick_text("L0\nL1\nL2\n").ref_usage(0..1).ref_usage(2..3);
    assert_eq!(help.get_usage(), Some("L2"));
}

#[test]
fn ref_usage_of_a_help_block() {
    let text = "\
Adds two numbers together.

Usage:
    add [options] <left> <right> 

Args:
    <left>       left-hand operand
";
    let help = Help::new().quick_text(text).ref_usage(2..4);
    assert_eq!(help.get_usage(), Some("Usage:\n    add [options] <left> <right> "));
}
