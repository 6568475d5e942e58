use ksi::buffer::AdaptiveBuffer;
use ksi::policy::Factor;
use ksi::session::Session;
use ksi::style::{display_entry, display_line, number_label};

#[test]
fn listing_with_and_without_colours() {
    let expansion = Factor::new(500, 1).unwrap();
    let shrink = Factor::new(1, 2).unwrap();
    let mut buffer = AdaptiveBuffer::new(10, expansion, shrink);
    buffer.load("alpha\n\ngamma");
    let session = Session::new(buffer);

    colored::control::set_override(false);
    assert_eq!(number_label(12), "12");
    assert_eq!(display_line(3, "delta"), "3 delta");
    assert_eq!(session.listing(), vec!["1 alpha", "2 ", "3 gamma"]);

    colored::control::set_override(true);
    assert_eq!(number_label(12), "\u{1b}[3;36m12\u{1b}[0m");
    assert_eq!(display_line(3, "delta"), "\u{1b}[3;36m3\u{1b}[0m delta");
    assert_eq!(
        session.listing(),
        vec!["\u{1b}[3;36m1\u{1b}[0m alpha", "\u{1b}[3;36m2\u{1b}[0m ", "\u{1b}[3;36m3\u{1b}[0m gamma"]
    );

    colored::control::unset_override();
    let label = number_label(7);
    assert!(label == "7" || label == "\u{1b}[3;36m7\u{1b}[0m");
}

#[test]
fn display_entry_puts_a_space_between() {
    assert_eq!(display_entry("1", "alpha"), "1 alpha");
    assert_eq!(display_entry("", ""), " ");
    assert_eq!(display_entry("12", ""), "12 ");
    assert_eq!(display_entry("\u{1b}[3;36m1\u{1b}[0m", "x y"), "\u{1b}[3;36m1\u{1b}[0m x y");
}

#[test]
fn listing_of_an_empty_buffer_is_empty() {
    let expansion = Factor::new(500, 1).unwrap();
    let shrink = Factor::new(1, 2).unwrap();
    let session = Session::new(AdaptiveBuffer::new(10, expansion, shrink));
    assert!(session.listing().is_empty());
}
