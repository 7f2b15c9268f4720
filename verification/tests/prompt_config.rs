use rucline::actions::{Action, Event, KeyBindings, KeyCode, Overrider};
use rucline::builder::{Builder, ChainedLineReader, Prompt};
use rucline::completion::{Completer, Suggester};
use rucline::prompt::{EventSource, InputEvent, Outcome, ScriptedEvents};
use rucline::render::{Error, Style, TerminalSink};
use rucline::Buffer;

struct NullSink;

impl TerminalSink for NullSink {
    fn enable_raw(&mut self) -> Result<(), Error> {
        Ok(())
    }
    fn disable_raw(&mut self) -> Result<(), Error> {
        Ok(())
    }
    fn move_left(&mut self, _n: u16) -> Result<(), Error> {
        Ok(())
    }
    fn move_right(&mut self, _n: u16) -> Result<(), Error> {
        Ok(())
    }
    fn move_up(&mut self, _n: u16) -> Result<(), Error> {
        Ok(())
    }
    fn move_to_column(&mut self, _column: u16) -> Result<(), Error> {
        Ok(())
    }
    fn position(&mut self) -> Result<(u16, u16), Error> {
        Ok((0, 0))
    }
    fn clear_from_cursor_down(&mut self) -> Result<(), Error> {
        Ok(())
    }
    fn print(&mut self, _text: &str) -> Result<(), Error> {
        Ok(())
    }
    fn print_styled(&mut self, _text: &str, _style: Style) -> Result<(), Error> {
        Ok(())
    }
    fn flush(&mut self) -> Result<(), Error> {
        Ok(())
    }
}

#[test]
fn can_reuse_prompt() {
    let mut prompt = Prompt::new().erase_after_read(true);
    assert!(prompt.erase_after_read);

    prompt = prompt.erase_after_read(false);
    assert!(!prompt.erase_after_read);
}

#[test]
fn remove_text() {
    let mut prompt = Prompt::new();
    assert!(prompt.text.is_none());

    prompt = prompt.text("Bla");
    match &prompt.text {
        Some(text) => assert_eq!(text, "Bla"),
        None => panic!(),
    };

    prompt = prompt.remove_text();
    assert!(prompt.text.is_none());
}

#[test]
fn builder_accept_decorated_prompt() {
    let decorated = "\u{1b}[32mMy prompt\u{1b}[0m";
    let mut prompt = Prompt::from_str(decorated);

    assert_eq!(prompt.text.take().unwrap().len(), decorated.len());
}

#[test]
fn reads_through_the_builder_chain() {
    let events = vec![
        InputEvent::Key(Event::from(KeyCode::Char('h'))),
        InputEvent::Key(Event::from(KeyCode::Char('i'))),
        InputEvent::Key(Event::from(KeyCode::Enter)),
    ];
    let mut source = ScriptedEvents::new(events);
    let outcome = Prompt::from_str("> ")
        .erase_after_read(false)
        .read_line(NullSink, &mut source)
        .unwrap();
    assert!(outcome.was_accepted());
    assert_eq!(outcome.unwrap(), "hi");
}

struct MockBuilder;

struct MockOverrider;

impl Overrider for MockOverrider {
    fn override_for(&self, _event: Event, _buffer: &Buffer) -> Option<Action> {
        Some(Action::Cancel)
    }
}

impl ChainedLineReader for MockBuilder {
    fn chain_read_line<O, C, S, T, E>(
        self,
        overrider: Option<&O>,
        completer: Option<&C>,
        suggester: Option<&S>,
        _sink: T,
        _events: &mut E,
    ) -> Result<Outcome, Error>
    where
        O: Overrider + ?Sized,
        C: Completer + ?Sized,
        S: Suggester + ?Sized,
        T: TerminalSink,
        E: EventSource,
    {
        assert_eq!(
            overrider
                .unwrap()
                .override_for(Event::from(KeyCode::Tab), &Buffer::new())
                .unwrap(),
            Action::Accept
        );
        assert_eq!(
            completer.unwrap().complete_for(&Buffer::from_str("-")).unwrap(),
            "expected"
        );
        assert_eq!(suggester.unwrap().suggest_for(&Buffer::from_str("-"))[0], "-expected");
        Ok(Outcome::Accepted(String::new()))
    }
}

impl Builder for MockBuilder {
    fn buffer(self, _buffer: Buffer) -> Self {
        panic!()
    }

    fn erase_after_read(self, _erase_after_read: bool) -> Self {
        panic!()
    }
}

#[test]
fn last_hook_is_used() {
    let mut source = ScriptedEvents::new(Vec::new());
    MockBuilder {}
        .overrider_ref(&MockOverrider)
        .overrider(MockOverrider)
        .overrider_fn(|_, _| Some(Action::Accept))
        .completer_fn(|_| Some(String::from("-unexpected")))
        .completer(vec!["-unexpected"])
        .completer_ref(&vec!["-expected"])
        .suggester(vec!["-unexpected"])
        .suggester_fn(|_| vec![String::from("-unexpected")])
        .suggester_ref(&vec!["-expected"])
        .chain_read_line::<KeyBindings, Vec<&str>, Vec<&str>, NullSink, ScriptedEvents>(
            None,
            None,
            None,
            NullSink,
            &mut source,
        )
        .unwrap();
}

struct FailingSink;

impl TerminalSink for FailingSink {
    fn enable_raw(&mut self) -> Result<(), Error> {
        Ok(())
    }
    fn disable_raw(&mut self) -> Result<(), Error> {
        Ok(())
    }
    fn move_left(&mut self, _n: u16) -> Result<(), Error> {
        Ok(())
    }
    fn move_right(&mut self, _n: u16) -> Result<(), Error> {
        Ok(())
    }
    fn move_up(&mut self, _n: u16) -> Result<(), Error> {
        Ok(())
    }
    fn move_to_column(&mut self, _column: u16) -> Result<(), Error> {
        Ok(())
    }
    fn position(&mut self) -> Result<(u16, u16), Error> {
        Ok((0, 0))
    }
    fn clear_from_cursor_down(&mut self) -> Result<(), Error> {
        Ok(())
    }
    fn print(&mut self, _text: &str) -> Result<(), Error> {
        Err(Error::new(String::from("sink failed")))
    }
    fn print_styled(&mut self, _text: &str, _style: Style) -> Result<(), Error> {
        Ok(())
    }
    fn flush(&mut self) -> Result<(), Error> {
        Ok(())
    }
}

#[test]
fn sink_failures_propagate_out_of_the_read() {
    let events = vec![InputEvent::Key(Event::from(KeyCode::Enter))];
    let mut source = ScriptedEvents::new(events);
    let result = Prompt::from_str("> ").read_line(FailingSink, &mut source);
    match result {
        Ok(_) => panic!(),
        Err(error) => assert_eq!(error.message(), "sink failed"),
    }
}

#[test]
fn a_prepopulated_buffer_starts_the_read() {
    let events = vec![
        InputEvent::Key(Event::from(KeyCode::Char('!'))),
        InputEvent::Key(Event::from(KeyCode::Enter)),
    ];
    let mut source = ScriptedEvents::new(events);
    let outcome = Prompt::new()
        .buffer(rucline::Buffer::from_str("pre"))
        .read_line(NullSink, &mut source)
        .unwrap();
    assert_eq!(outcome.unwrap(), "pre!");
}

#[test]
fn last_buffer_assignment_wins() {
    let prompt = Prompt::new()
        .buffer(rucline::Buffer::from_str("first"))
        .buffer(rucline::Buffer::from_str("second"));
    assert_eq!(prompt.buffer.unwrap().as_str(), "second");
    assert!(prompt.text.is_none());
}

#[test]
fn hooks_can_be_removed_again() {
    let completions = vec!["yes", "no"];
    let chain = Prompt::new()
        .erase_after_read(true)
        .completer_ref(&completions)
        .remove_completer()
        .suggester(vec!["a"])
        .remove_suggester()
        .overrider(KeyBindings::new())
        .remove_overrider();
    assert!(chain.erase_after_read);
    assert!(chain.text.is_none());
}
