use ksi::buffer::AdaptiveBuffer;
use ksi::policy::Factor;
use ksi::session::{is_end_of_block, Reply, Session};

fn session_over(text: &str) -> Session {
    let expansion = Factor::new(500, 1).unwrap();
    let shrink = Factor::new(1, 2).unwrap();
    let mut buffer = AdaptiveBuffer::new(10, expansion, shrink);
    buffer.load(text);
    Session::new(buffer)
}

fn contents(session: &Session) -> Vec<String> {
    session.buffer().lines().clone()
}

#[test]
fn new_session_awaits_a_command() {
    let session = session_over("alpha\nbeta");
    assert!(!session.is_appending());
    assert_eq!(contents(&session), vec!["alpha", "beta"]);
    assert_eq!(session.buffer().capacity(), 10);
}

#[test]
fn quit_and_list_change_nothing() {
    let mut session = session_over("alpha\nbeta");
    assert_eq!(session.step("n\n"), Reply::List);
    assert_eq!(session.step("q\n"), Reply::Quit);
    assert!(!session.is_appending());
    assert_eq!(contents(&session), vec!["alpha", "beta"]);
    assert_eq!(session.buffer().capacity(), 10);
}

#[test]
fn delete_counts_lines_from_one() {
    let mut session = session_over("alpha\nbeta\ngamma");
    assert_eq!(session.step("d 1\n"), Reply::Continue);
    assert_eq!(contents(&session), vec!["beta", "gamma"]);
    assert_eq!(session.step("d 2\n"), Reply::Continue);
    assert_eq!(contents(&session), vec!["beta"]);
}

#[test]
fn delete_of_a_missing_line_is_reported() {
    let mut session = session_over("alpha\nbeta\ngamma");
    assert_eq!(session.step("d 4\n"), Reply::OutOfRange);
    assert_eq!(session.step(&format!("d {}\n", usize::MAX)), Reply::OutOfRange);
    assert_eq!(contents(&session), vec!["alpha", "beta", "gamma"]);
    assert_eq!(session.buffer().capacity(), 10);
    let mut empty = session_over("");
    assert_eq!(empty.step("d 1\n"), Reply::OutOfRange);
}

#[test]
fn malformed_delete_is_reported() {
    let mut session = session_over("alpha\nbeta\ngamma");
    assert_eq!(session.step("d\n"), Reply::DeleteUsage);
    assert_eq!(session.step("d two\n"), Reply::DeleteUsage);
    assert_eq!(session.step("d 0\n"), Reply::DeleteUsage);
    assert_eq!(session.step("d -1\n"), Reply::DeleteUsage);
    assert_eq!(contents(&session), vec!["alpha", "beta", "gamma"]);
    assert_eq!(session.buffer().capacity(), 10);
}

#[test]
fn unknown_commands_are_reported() {
    let mut session = session_over("alpha");
    assert_eq!(session.step("x\n"), Reply::InvalidCommand);
    assert_eq!(session.step("\n"), Reply::InvalidCommand);
    assert_eq!(session.step(""), Reply::InvalidCommand);
    assert_eq!(session.step("delete 1\n"), Reply::InvalidCommand);
    assert_eq!(contents(&session), vec!["alpha"]);
}

#[test]
fn append_adds_the_block_as_one_line_at_the_end() {
    let mut session = session_over("alpha");
    assert_eq!(session.step("a\n"), Reply::Continue);
    assert!(session.is_appending());
    assert_eq!(session.step("  one \n"), Reply::Continue);
    assert_eq!(session.step("two\n"), Reply::Continue);
    assert!(session.is_appending());
    assert_eq!(contents(&session), vec!["alpha"]);
    assert_eq!(session.step(".\n"), Reply::Continue);
    assert!(!session.is_appending());
    assert_eq!(contents(&session), vec!["alpha", "one\ntwo"]);
    assert_eq!(session.buffer().serialize(), "alpha\none\ntwo");
}

#[test]
fn commands_are_plain_lines_inside_a_block() {
    let mut session = session_over("alpha\nbeta");
    assert_eq!(session.step("a\n"), Reply::Continue);
    assert_eq!(session.step("q\n"), Reply::Continue);
    assert_eq!(session.step("d 1\n"), Reply::Continue);
    assert_eq!(session.step("n\n"), Reply::Continue);
    assert_eq!(session.step("..\n"), Reply::Continue);
    assert_eq!(session.step("\n"), Reply::Continue);
    assert_eq!(session.step(" . \n"), Reply::Continue);
    assert!(!session.is_appending());
    assert_eq!(contents(&session), vec!["alpha", "beta", "q\nd 1\nn\n..\n"]);
}

#[test]
fn empty_block_appends_an_empty_line() {
    let mut session = session_over("alpha");
    assert_eq!(session.step("a\n"), Reply::Continue);
    assert_eq!(session.step(".\n"), Reply::Continue);
    assert_eq!(contents(&session), vec!["alpha", ""]);
    assert_eq!(session.buffer().serialize(), "alpha\n");
}

#[test]
fn each_block_starts_empty() {
    let mut session = session_over("");
    assert_eq!(session.step("a\n"), Reply::Continue);
    assert_eq!(session.step("first\n"), Reply::Continue);
    assert_eq!(session.step(".\n"), Reply::Continue);
    assert_eq!(session.step("a\n"), Reply::Continue);
    assert_eq!(session.step("second\n"), Reply::Continue);
    assert_eq!(session.step(".\n"), Reply::Continue);
    assert_eq!(contents(&session), vec!["first", "second"]);
}

#[test]
fn append_grows_a_full_buffer() {
    let expansion = Factor::new(6, 5).unwrap();
    let shrink = Factor::new(1, 2).unwrap();
    let mut session = Session::new(AdaptiveBuffer::new(1, expansion, shrink));
    for round in 0..5 {
        assert_eq!(session.step("a\n"), Reply::Continue);
        assert_eq!(session.step("x\n"), Reply::Continue);
        assert_eq!(session.step(".\n"), Reply::Continue);
        assert_eq!(session.buffer().len(), round + 1);
        assert_eq!(session.buffer().capacity(), round + 1);
    }
}

#[test]
fn end_of_block_is_a_single_dot() {
    assert!(is_end_of_block("."));
    assert!(!is_end_of_block(""));
    assert!(!is_end_of_block(".."));
    assert!(!is_end_of_block(". "));
    assert!(!is_end_of_block("x"));
    assert!(!is_end_of_block("\u{3002}"));
}

#[test]
fn replies_have_their_messages() {
    assert_eq!(Reply::Quit.message(), None);
    assert_eq!(Reply::Continue.message(), None);
    assert_eq!(Reply::List.message(), None);
    assert_eq!(Reply::InvalidCommand.message(), Some("Invalid command"));
    assert_eq!(Reply::DeleteUsage.message(), Some("Invalid command. Usage: d <line number>"));
    assert_eq!(Reply::OutOfRange.message(), Some("Line number out of range"));
}

#[test]
fn into_buffer_hands_the_buffer_out() {
    let mut session = session_over("alpha\nbeta");
    assert_eq!(session.step("d 1\n"), Reply::Continue);
    let buffer = session.into_buffer();
    assert_eq!(buffer.serialize(), "beta");
    assert_eq!(buffer.capacity(), 5);
}

#[test]
fn listed_numbers_are_what_delete_takes() {
    colored::control::set_override(false);
    for position in 0usize..12 {
        let text = "l1\nl2\nl3\nl4\nl5\nl6\nl7\nl8\nl9\nl10\nl11\nl12";
        let mut session = session_over(text);
        let before = contents(&session);
        let shown = session.listing();
        let number = shown[position].split(' ').next().unwrap().to_string();
        assert_eq!(number, (position + 1).to_string());
        assert_eq!(session.step(&format!("d {}", number)), Reply::Continue);
        let mut expected = before.clone();
        expected.remove(position);
        assert_eq!(contents(&session), expected);
        assert!(!session.is_appending());
    }
}
