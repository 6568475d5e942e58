use ksi::command::{parse_command, Command};

#[test]
fn single_letter_commands() {
    assert_eq!(parse_command("q"), Command::Quit);
    assert_eq!(parse_command("n"), Command::List);
    assert_eq!(parse_command("a"), Command::Append);
    assert_eq!(parse_command("q\n"), Command::Quit);
    assert_eq!(parse_command("  n \r\n"), Command::List);
    assert_eq!(parse_command("\ta\n"), Command::Append);
}

#[test]
fn only_the_command_word_decides() {
    assert_eq!(parse_command("q now"), Command::Quit);
    assert_eq!(parse_command("n 3"), Command::List);
    assert_eq!(parse_command("a b c"), Command::Append);
    assert_eq!(parse_command("q "), Command::Quit);
}

#[test]
fn delete_with_a_line_number() {
    assert_eq!(parse_command("d 2"), Command::Delete(2));
    assert_eq!(parse_command("d 1\n"), Command::Delete(1));
    assert_eq!(parse_command("  d 17  \n"), Command::Delete(17));
    assert_eq!(parse_command("d +3"), Command::Delete(3));
    assert_eq!(parse_command("d 007"), Command::Delete(7));
    let max = format!("d {}", usize::MAX);
    assert_eq!(parse_command(&max), Command::Delete(usize::MAX));
}

#[test]
fn delete_without_a_line_number() {
    assert_eq!(parse_command("d"), Command::DeleteUsage);
    assert_eq!(parse_command("d\n"), Command::DeleteUsage);
    assert_eq!(parse_command("d x"), Command::DeleteUsage);
    assert_eq!(parse_command("d -1"), Command::DeleteUsage);
    assert_eq!(parse_command("d 2 3"), Command::DeleteUsage);
    assert_eq!(parse_command("d  2"), Command::DeleteUsage);
    assert_eq!(parse_command("d 2x"), Command::DeleteUsage);
    assert_eq!(parse_command("d 1.5"), Command::DeleteUsage);
    assert_eq!(parse_command("d 0"), Command::DeleteUsage);
    assert_eq!(parse_command("d +0"), Command::DeleteUsage);
    assert_eq!(parse_command("d 99999999999999999999999999"), Command::DeleteUsage);
}

#[test]
fn anything_else_is_unknown() {
    assert_eq!(parse_command(""), Command::Unknown);
    assert_eq!(parse_command("\n"), Command::Unknown);
    assert_eq!(parse_command("   "), Command::Unknown);
    assert_eq!(parse_command("x"), Command::Unknown);
    assert_eq!(parse_command("quit"), Command::Unknown);
    assert_eq!(parse_command("d2"), Command::Unknown);
    assert_eq!(parse_command("Q"), Command::Unknown);
    assert_eq!(parse_command("."), Command::Unknown);
    assert_eq!(parse_command("d\t2"), Command::Unknown);
    assert_eq!(parse_command("nn"), Command::Unknown);
}
