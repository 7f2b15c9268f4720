use rucline::actions::{
    action_for, default_action, Action, Direction, Event, KeyBindings, KeyCode, KeyModifiers,
    Range, Scope,
};
use rucline::actions::Action::{Accept, Cancel, Complete, Delete, Move, NoOp, Suggest, Write};
use rucline::actions::Direction::{Backward, Forward};
use rucline::actions::KeyCode::{Char, End, Right};
use rucline::actions::Range::{Line, Single, Word};
use rucline::actions::Scope::{Relative, WholeLine, WholeWord};
use rucline::builder::EventClosure;
use rucline::Buffer;

#[test]
fn should_complete_if_at_end() {
    let mut c = Buffer::from_str("a");

    assert_eq!(default_action(Event::from(Right), &c), Complete(Line));
    assert_eq!(default_action(Event::from(End), &c), Complete(Line));
    assert_eq!(
        default_action(Event::new(Char('f'), KeyModifiers::Control), &c),
        Complete(Line)
    );
    assert_eq!(
        default_action(Event::new(Char('f'), KeyModifiers::Alt), &c),
        Complete(Word)
    );

    c.set_cursor(0).unwrap();

    assert_eq!(default_action(Event::from(Right), &c), Move(Single, Forward));
    assert_eq!(default_action(Event::from(End), &c), Move(Line, Forward));
    assert_eq!(
        default_action(Event::new(Char('f'), KeyModifiers::Control), &c),
        Move(Single, Forward)
    );
    assert_eq!(
        default_action(Event::new(Char('f'), KeyModifiers::Alt), &c),
        Move(Word, Forward)
    );
}

#[test]
fn actions_should_default_if_no_mapping() {
    let action = action_for::<KeyBindings>(None, Event::from(KeyCode::Tab), &Buffer::new());
    assert_eq!(action, Action::Suggest(Direction::Forward));
}

#[test]
fn actions_should_default_if_event_missing_form_mapping() {
    let overrider = KeyBindings::new();
    let action = action_for(Some(&overrider), Event::from(KeyCode::Tab), &Buffer::new());
    assert_eq!(action, Action::Suggest(Direction::Forward));

    let overrider = EventClosure::new(|_, _: &Buffer| None);
    let action = action_for(Some(&overrider), Event::from(KeyCode::Tab), &Buffer::new());
    assert_eq!(action, Action::Suggest(Direction::Forward));
}

#[test]
fn actions_should_override_if_defined() {
    let mut bindings = KeyBindings::new();
    bindings.insert(Event::from(KeyCode::Tab), Action::Write('\t'));
    let action = action_for(Some(&bindings), Event::from(KeyCode::Tab), &Buffer::new());
    assert_eq!(action, Action::Write('\t'));

    let overrider = EventClosure::new(|e, _: &Buffer| {
        if e == Event::from(KeyCode::Tab) {
            Some(Action::Write('\t'))
        } else {
            None
        }
    });
    let action = action_for(Some(&overrider), Event::from(KeyCode::Tab), &Buffer::new());
    assert_eq!(action, Action::Write('\t'));
}

#[test]
fn key_bindings_should_default_if_no_mapping() {
    let action = action_for::<KeyBindings>(None, Event::from(KeyCode::Tab), &Buffer::new());
    assert_eq!(action, Action::Suggest(Direction::Forward));
}

#[test]
fn key_bindings_should_default_if_event_missing_form_mapping() {
    let bindings = KeyBindings::new();
    let action = action_for(Some(&bindings), Event::from(KeyCode::Tab), &Buffer::new());
    assert_eq!(action, Action::Suggest(Direction::Forward));
}

#[test]
fn key_bindings_should_override_if_defined() {
    let mut bindings = KeyBindings::new();
    bindings.insert(Event::from(KeyCode::Tab), Action::Write('\t'));
    let action = action_for(Some(&bindings), Event::from(KeyCode::Tab), &Buffer::new());
    assert_eq!(action, Action::Write('\t'));
}

#[test]
fn default_mapping_matches_the_table() {
    let away = Buffer::new();

    assert_eq!(default_action(Event::from(KeyCode::Enter), &away), Accept);
    assert_eq!(default_action(Event::from(KeyCode::Esc), &away), Cancel);
    assert_eq!(default_action(Event::from(KeyCode::Tab), &away), Suggest(Forward));
    assert_eq!(default_action(Event::from(KeyCode::BackTab), &away), Suggest(Backward));
    assert_eq!(
        default_action(Event::from(KeyCode::Backspace), &away),
        Delete(Relative(Single, Backward))
    );
    assert_eq!(
        default_action(Event::from(KeyCode::Delete), &away),
        Delete(Relative(Single, Forward))
    );
    assert_eq!(default_action(Event::from(KeyCode::Left), &away), Move(Single, Backward));
    assert_eq!(default_action(Event::from(KeyCode::Home), &away), Move(Line, Backward));

    let ctrl = |c: char| Event::new(KeyCode::Char(c), KeyModifiers::Control);
    assert_eq!(default_action(ctrl('m'), &away), Accept);
    assert_eq!(default_action(ctrl('d'), &away), Accept);
    assert_eq!(default_action(ctrl('c'), &away), Cancel);
    assert_eq!(default_action(ctrl('b'), &away), Move(Single, Backward));
    assert_eq!(default_action(ctrl('a'), &away), Move(Line, Backward));
    assert_eq!(default_action(ctrl('j'), &away), Delete(Relative(Word, Backward)));
    assert_eq!(default_action(ctrl('k'), &away), Delete(Relative(Word, Forward)));
    assert_eq!(default_action(ctrl('h'), &away), Delete(Relative(Line, Backward)));
    assert_eq!(default_action(ctrl('l'), &away), Delete(Relative(Line, Forward)));
    assert_eq!(default_action(ctrl('w'), &away), Delete(WholeWord));
    assert_eq!(default_action(ctrl('u'), &away), Delete(WholeLine));
    assert_eq!(default_action(ctrl('q'), &away), NoOp);

    let alt = |c: char| Event::new(KeyCode::Char(c), KeyModifiers::Alt);
    assert_eq!(default_action(alt('b'), &away), Move(Word, Backward));
    assert_eq!(default_action(alt('q'), &away), NoOp);

    assert_eq!(
        default_action(Event::new(KeyCode::Char('x'), KeyModifiers::Plain), &away),
        Write('x')
    );
    assert_eq!(default_action(Event::from(KeyCode::PageUp), &away), NoOp);
    assert_eq!(default_action(Event::from(KeyCode::F(5)), &away), NoOp);
}
