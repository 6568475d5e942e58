use ksi::buffer::AdaptiveBuffer;
use ksi::policy::Factor;
use ksi::session::{Reply, Session};

#[test]
fn delete_append_list_and_save() {
    colored::control::set_override(false);
    let expansion = Factor::new(500, 1).unwrap();
    let shrink = Factor::new(1, 2).unwrap();
    let mut buffer = AdaptiveBuffer::new(10, expansion, shrink);
    buffer.load("alpha\nbeta\ngamma");
    let mut session = Session::new(buffer);

    assert_eq!(session.step("d 2\n"), Reply::Continue);
    assert_eq!(session.buffer().lines(), &vec!["alpha".to_string(), "gamma".to_string()]);

    assert_eq!(session.step("a\n"), Reply::Continue);
    assert_eq!(session.step("delta\n"), Reply::Continue);
    assert_eq!(session.step(".\n"), Reply::Continue);
    assert_eq!(
        session.buffer().lines(),
        &vec!["alpha".to_string(), "gamma".to_string(), "delta".to_string()]
    );

    assert_eq!(session.step("n\n"), Reply::List);
    assert_eq!(session.listing(), vec!["1 alpha", "2 gamma", "3 delta"]);

    assert_eq!(session.step("q\n"), Reply::Quit);
    assert_eq!(session.buffer().serialize(), "alpha\ngamma\ndelta");
}
