use rucline::completion::{Basic, Completer, Suggester};
use rucline::Buffer;

#[test]
fn should_not_complete_if_empty() {
    let list = ["some programmer was here", "some developer was there"];
    assert_eq!(list.complete_for(&Buffer::new()), None);
}

#[test]
fn should_not_complete_if_context_is_different() {
    let list = ["some programmer was here", "some developer was there"];
    assert_eq!(list.complete_for(&Buffer::from_str("a")), None);
}

#[test]
fn complete_the_first_match() {
    let list = ["zz", "b3", "b2"];
    let expected = String::from("3");
    assert_eq!(list.complete_for(&Buffer::from_str("b")), Some(expected));
}

#[test]
fn only_complete_the_remainder() {
    let list = ["abcd", "abc"];
    let expected = String::from("d");
    assert_eq!(list.complete_for(&Buffer::from_str("abc")), Some(expected));
}

#[test]
fn always_suggest() {
    let list = ["a", "b", "c"];
    let expected = vec!["a", "b", "c"];
    assert_eq!(&list.suggest_for(&Buffer::new()), &expected);
    assert_eq!(&list.suggest_for(&Buffer::from_str("a")), &expected);
    assert_eq!(&list.suggest_for(&Buffer::from_str("z")), &expected);
}

#[test]
fn basic_list_completes_and_suggests() {
    let basic = Basic::new(&["rust-lang.org", "docs.rs"]);
    assert_eq!(basic.complete_for(&Buffer::from_str("rust")), Some(String::from("-lang.org")));
    assert_eq!(basic.complete_for(&Buffer::from_str("zzz")), None);
    assert_eq!(basic.complete_for(&Buffer::new()), None);
    let suggested = basic.suggest_for(&Buffer::from_str("anything"));
    assert_eq!(suggested, vec![String::from("rust-lang.org"), String::from("docs.rs")]);
}

#[test]
fn completion_respects_multibyte_prefixes() {
    let list = ["🇧🇷asil", "🇧🇷avo"];
    let buffer = Buffer::from_str("🇧🇷as");
    assert_eq!(list.complete_for(&buffer), Some(String::from("il")));
    let half_flag = Buffer::from_str("🇧");
    assert_eq!(list.complete_for(&half_flag), Some(String::from("🇷asil")));
}
