use std::cell::RefCell;
use std::rc::Rc;

use rucline::actions::{Action, Direction, Event, KeyBindings, KeyCode, Range, Scope};
use rucline::prompt::{read_line, InputEvent, Outcome, ScriptedEvents, Suggestions};
use rucline::render::{Error, Renderer, Style, TerminalSink, Writer};
use rucline::Buffer;
use unicode_segmentation::UnicodeSegmentation;

#[derive(Default)]
struct Trace {
    prints: Vec<(String, usize, Option<String>)>,
    panels: Vec<(usize, Vec<String>)>,
}

#[derive(Clone)]
struct RecordingWriter {
    trace: Rc<RefCell<Trace>>,
}

impl RecordingWriter {
    fn new() -> (RecordingWriter, Rc<RefCell<Trace>>) {
        let trace = Rc::new(RefCell::new(Trace::default()));
        (RecordingWriter { trace: trace.clone() }, trace)
    }
}

impl Writer for RecordingWriter {
    fn begin(&mut self) -> Result<(), Error> {
        Ok(())
    }

    fn print(&mut self, buffer: &Buffer, completion: Option<&str>) -> Result<(), Error> {
        self.trace.borrow_mut().prints.push((
            buffer.as_str().to_string(),
            buffer.cursor(),
            completion.map(|c| c.to_string()),
        ));
        Ok(())
    }

    fn print_suggestions(
        &mut self,
        selected_index: usize,
        suggestions: &[String],
    ) -> Result<(), Error> {
        self.trace.borrow_mut().panels.push((selected_index, suggestions.to_vec()));
        Ok(())
    }

    fn finish(&mut self) -> Result<(), Error> {
        Ok(())
    }
}

fn keys(codes: &[KeyCode]) -> ScriptedEvents {
    let mut events = Vec::new();
    for code in codes {
        events.push(InputEvent::Key(Event::from(*code)));
    }
    ScriptedEvents::new(events)
}

fn no_override() -> Option<&'static KeyBindings> {
    None
}

#[test]
fn inline_completion_is_shown_then_taken_by_end() {
    // Prompt "> ", completer list ["rust-lang.org"], suggester list [],
    // keys: r u s Tab; Tab on an empty suggestion list is a no-op; then End
    // takes the whole completion.
    let completions = vec!["rust-lang.org"];
    let suggestions: Vec<&str> = Vec::new();
    let (writer, trace) = RecordingWriter::new();
    let mut events = keys(&[
        KeyCode::Char('r'),
        KeyCode::Char('u'),
        KeyCode::Char('s'),
        KeyCode::Tab,
        KeyCode::End,
        KeyCode::Enter,
    ]);
    let outcome = read_line(
        None,
        no_override(),
        Some(&completions),
        Some(&suggestions),
        writer,
        &mut events,
    )
    .unwrap();
    assert_eq!(outcome.unwrap(), "rust-lang.org");

    let trace = trace.borrow();
    assert!(trace.panels.is_empty());
    // After `s` was written the completion tail is displayed.
    assert!(trace
        .prints
        .iter()
        .any(|(text, _, completion)| text == "rus"
            && completion.as_deref() == Some("t-lang.org")));
    // After End the buffer holds the whole candidate with the cursor at its end.
    let last = trace.prints.last().unwrap();
    assert_eq!(last.0, "rust-lang.org");
    assert_eq!(last.1, "rust-lang.org".len());
}

#[test]
fn suggestions_cycle_through_the_panel() {
    // Empty buffer, suggester list ["yes", "no"], keys: Tab Tab. The overlay
    // opens on "yes" and cycles to "no".
    let completions: Vec<&str> = Vec::new();
    let suggestions = vec!["yes", "no"];
    let (writer, trace) = RecordingWriter::new();
    let mut events = keys(&[KeyCode::Tab, KeyCode::Tab, KeyCode::Enter]);
    let outcome = read_line(
        None,
        no_override(),
        Some(&completions),
        Some(&suggestions),
        writer,
        &mut events,
    )
    .unwrap();
    // Accepting materializes the selected suggestion.
    assert_eq!(outcome.unwrap(), "no");

    let trace = trace.borrow();
    assert_eq!(trace.panels.len(), 2);
    assert_eq!(trace.panels[0], (0, vec!["yes".to_string(), "no".to_string()]));
    assert_eq!(trace.panels[1], (1, vec!["yes".to_string(), "no".to_string()]));
}

#[test]
fn cancel_while_suggesting_restores_the_original_buffer() {
    let completions: Vec<&str> = Vec::new();
    let suggestions = vec!["alpha", "beta"];
    let (writer, _trace) = RecordingWriter::new();
    let mut events = keys(&[
        KeyCode::Char('a'),
        KeyCode::Char('b'),
        KeyCode::Tab,
        KeyCode::Esc,
        KeyCode::Enter,
    ]);
    let outcome = read_line(
        None,
        no_override(),
        Some(&completions),
        Some(&suggestions),
        writer,
        &mut events,
    )
    .unwrap();
    // The Tab showed "alpha", Esc dropped the overlay, and the original
    // buffer came back byte for byte.
    assert_eq!(outcome.unwrap(), "ab");
}

#[test]
fn writing_while_suggesting_materializes_the_selection() {
    let completions: Vec<&str> = Vec::new();
    let suggestions = vec!["yes", "no"];
    let (writer, _trace) = RecordingWriter::new();
    let mut events = keys(&[KeyCode::Tab, KeyCode::Char('x'), KeyCode::Enter]);
    let outcome = read_line(
        None,
        no_override(),
        Some(&completions),
        Some(&suggestions),
        writer,
        &mut events,
    )
    .unwrap();
    assert_eq!(outcome.unwrap(), "yesx");
}

#[test]
fn whole_word_delete_preserves_one_space() {
    // With the cursor just past "c", Ctrl-W removes "c" while keeping one
    // surrounding space.
    let mut buffer = Buffer::new_with_cursor("ab c d", 4).unwrap();
    buffer.delete(Scope::WholeWord);
    assert_eq!(buffer.as_str(), "ab d");
    assert_eq!(buffer.cursor(), 3);
}

#[test]
fn backspace_removes_one_scalar_of_a_flag() {
    // Buffer "🇧🇷|": Backspace removes one scalar, leaving half the flag;
    // a second Backspace empties the buffer.
    let mut buffer = Buffer::from_str("🇧🇷");
    buffer.delete(Scope::Relative(Range::Single, Direction::Backward));
    assert_eq!(buffer.as_str(), "🇧");
    buffer.delete(Scope::Relative(Range::Single, Direction::Backward));
    assert_eq!(buffer.as_str(), "");
    assert_eq!(buffer.cursor(), 0);
}

#[test]
fn overridden_tab_writes_a_literal_tab() {
    // An override mapping Tab to Write('\t') wins over the suggester: the
    // buffer receives a literal tab and the overlay never opens.
    let completions: Vec<&str> = Vec::new();
    let suggestions = vec!["yes", "no"];
    let mut bindings = KeyBindings::new();
    bindings.insert(Event::from(KeyCode::Tab), Action::Write('\t'));
    let (writer, trace) = RecordingWriter::new();
    let mut events = keys(&[KeyCode::Tab, KeyCode::Enter]);
    let outcome = read_line(
        None,
        Some(&bindings),
        Some(&completions),
        Some(&suggestions),
        writer,
        &mut events,
    )
    .unwrap();
    assert_eq!(outcome.unwrap(), "\t");
    assert!(trace.borrow().panels.is_empty());
}

#[test]
fn right_at_the_end_takes_the_completion() {
    // Buffer "hello|", completer ["hello world"], Right: the cursor is at the
    // end, so the key completes the line instead of moving.
    let completions = vec!["hello world"];
    let suggestions: Vec<&str> = Vec::new();
    let (writer, _trace) = RecordingWriter::new();
    let mut events = keys(&[KeyCode::Right, KeyCode::Enter]);
    let outcome = read_line(
        Some(Buffer::from_str("hello")),
        no_override(),
        Some(&completions),
        Some(&suggestions),
        writer,
        &mut events,
    )
    .unwrap();
    assert_eq!(outcome.unwrap(), "hello world");
}

#[test]
fn cancel_returns_the_buffer_as_it_stands() {
    let completions: Vec<&str> = Vec::new();
    let suggestions: Vec<&str> = Vec::new();
    let (writer, _trace) = RecordingWriter::new();
    let mut events = keys(&[KeyCode::Char('a'), KeyCode::Char('b'), KeyCode::Esc]);
    let outcome = read_line(
        None,
        no_override(),
        Some(&completions),
        Some(&suggestions),
        writer,
        &mut events,
    )
    .unwrap();
    assert!(!outcome.was_accepted());
    match outcome.ok() {
        Ok(_) => panic!(),
        Err(buffer) => {
            assert_eq!(buffer.as_str(), "ab");
            assert_eq!(buffer.cursor(), 2);
        }
    }
}

#[test]
fn an_exhausted_event_source_reports_an_error() {
    let completions: Vec<&str> = Vec::new();
    let suggestions: Vec<&str> = Vec::new();
    let (writer, _trace) = RecordingWriter::new();
    let mut events = ScriptedEvents::new(Vec::new());
    let result = read_line(
        None,
        no_override(),
        Some(&completions),
        Some(&suggestions),
        writer,
        &mut events,
    );
    match result {
        Ok(_) => panic!(),
        Err(error) => assert_eq!(error.message(), "event source exhausted"),
    }
}

#[test]
fn outcome_conversions() {
    let accepted = Outcome::Accepted(String::from("text"));
    assert!(accepted.was_accepted());
    let canceled = Outcome::Canceled(Buffer::from_str("left"));
    assert!(!canceled.was_accepted());

    assert_eq!(Outcome::Accepted(String::from("text")).some(), Some(String::from("text")));
    assert_eq!(Outcome::Canceled(Buffer::new()).some(), None);

    assert_eq!(Outcome::Accepted(String::from("text")).ok(), Ok(String::from("text")));
    match Outcome::Canceled(Buffer::from_str("left")).ok() {
        Ok(_) => panic!(),
        Err(buffer) => assert_eq!(buffer.as_str(), "left"),
    }

    assert_eq!(Outcome::Accepted(String::from("text")).unwrap(), "text");
}

#[test]
fn invalid_cursor_positions_are_rejected() {
    assert!(Buffer::new_with_cursor("🇧🇷", 1).is_err());
    assert!(Buffer::new_with_cursor("🇧🇷", 4).is_ok());
    let mut buffer = Buffer::from_str("🇧🇷");
    assert!(buffer.set_cursor(3).is_err());
    assert_eq!(buffer.cursor(), "🇧🇷".len());
    assert!(buffer.set_cursor(0).is_ok());
    assert_eq!(buffer.cursor(), 0);
}

#[test]
fn delete_forward_then_rewrite_restores_the_text() {
    let mut buffer = Buffer::new_with_cursor("a😀b", 1).unwrap();
    let deleted = '😀';
    buffer.delete(Scope::Relative(Range::Single, Direction::Forward));
    assert_eq!(buffer.as_str(), "ab");
    buffer.write(deleted);
    assert_eq!(buffer.as_str(), "a😀b");
}

#[test]
fn line_moves_are_idempotent_at_the_ends() {
    let mut buffer = Buffer::new_with_cursor("some words", 4).unwrap();
    buffer.move_cursor(Range::Line, Direction::Forward);
    assert_eq!(buffer.cursor(), buffer.len());
    buffer.move_cursor(Range::Line, Direction::Forward);
    assert_eq!(buffer.cursor(), buffer.len());
    buffer.move_cursor(Range::Line, Direction::Backward);
    assert_eq!(buffer.cursor(), 0);
}

#[test]
fn word_round_trip_never_moves_left() {
    let text = "AddZ AdZ  AZ😀AZ \t  O AZ";
    let mut pivot = 0;
    while pivot <= text.len() {
        if text.is_char_boundary(pivot) {
            let back = rucline::navigation::previous_word(pivot, text);
            let forth = rucline::navigation::next_word(back, text);
            assert!(forth >= pivot);
        }
        pivot += 1;
    }
}

#[test]
fn renderer_accounts_in_graphemes() {
    // The flag counts as one grapheme though it is two scalars; the counters
    // follow grapheme tallies, not bytes or scalars.
    let mut renderer = Renderer::new(NullSink, false, Some("> "));
    let buffer = Buffer::from_str("a🇧🇷b");
    renderer.print_line(&buffer, None).unwrap();
    assert_eq!(renderer.printed_length(), "a🇧🇷b".graphemes(true).count());
    assert_eq!(renderer.printed_length(), 3);
    assert_eq!(renderer.cursor_offset(), 0);

    let mid = Buffer::new_with_cursor("a🇧🇷b", 1).unwrap();
    renderer.print_line(&mid, Some("tail")).unwrap();
    assert_eq!(renderer.printed_length(), "a🇧🇷btail".graphemes(true).count());
    assert_eq!(renderer.cursor_offset(), "🇧🇷btail".graphemes(true).count());

    let options = vec![String::from("🇧🇷 flag"), String::from("plain")];
    renderer.print_suggestion_panel(0, &options).unwrap();
    assert_eq!(renderer.printed_length(), "🇧🇷 flag".graphemes(true).count());
    assert_eq!(renderer.cursor_offset(), 0);
}

struct NullSink;

impl TerminalSink for NullSink {
    fn enable_raw(&mut self) -> Result<(), Error> {
        Ok(())
    }
    fn disable_raw(&mut self) -> Result<(), Error> {
        Ok(())
    }
    fn move_left(&mut self, _n: u16) -> Result<(), Error> {
        Ok(())
    }
    fn move_right(&mut self, _n: u16) -> Result<(), Error> {
        Ok(())
    }
    fn move_up(&mut self, _n: u16) -> Result<(), Error> {
        Ok(())
    }
    fn move_to_column(&mut self, _column: u16) -> Result<(), Error> {
        Ok(())
    }
    fn position(&mut self) -> Result<(u16, u16), Error> {
        Ok((0, 0))
    }
    fn clear_from_cursor_down(&mut self) -> Result<(), Error> {
        Ok(())
    }
    fn print(&mut self, _text: &str) -> Result<(), Error> {
        Ok(())
    }
    fn print_styled(&mut self, _text: &str, _style: Style) -> Result<(), Error> {
        Ok(())
    }
    fn flush(&mut self) -> Result<(), Error> {
        Ok(())
    }
}

#[test]
fn interleaved_edits_keep_the_cursor_on_boundaries() {
    // A fixed interleaving of writes, deletes, and moves over multi-byte
    // scalars, combining marks, and regional indicators: after every step the
    // cursor stays within the text, on a scalar boundary.
    let steps: Vec<Box<dyn Fn(&mut Buffer)>> = vec![
        Box::new(|b| b.write('🇧')),
        Box::new(|b| b.write_str("e\u{301}tude")),
        Box::new(|b| b.move_cursor(Range::Word, Direction::Backward)),
        Box::new(|b| b.write('🇷')),
        Box::new(|b| b.delete(Scope::Relative(Range::Single, Direction::Backward))),
        Box::new(|b| b.move_cursor(Range::Single, Direction::Forward)),
        Box::new(|b| b.write_str("  😀 ")),
        Box::new(|b| b.delete(Scope::WholeWord)),
        Box::new(|b| b.move_cursor(Range::Line, Direction::Backward)),
        Box::new(|b| b.delete(Scope::Relative(Range::Word, Direction::Forward))),
        Box::new(|b| b.write_range("🈎x", Range::Single)),
        Box::new(|b| b.move_cursor(Range::Single, Direction::Backward)),
        Box::new(|b| b.delete(Scope::Relative(Range::Line, Direction::Forward))),
        Box::new(|b| b.write_range("two words", Range::Word)),
        Box::new(|b| b.delete(Scope::Relative(Range::Single, Direction::Forward))),
        Box::new(|b| b.move_cursor(Range::Word, Direction::Forward)),
        Box::new(|b| b.delete(Scope::Relative(Range::Line, Direction::Backward))),
        Box::new(|b| b.write_range("tail", Range::Line)),
        Box::new(|b| b.delete(Scope::WholeLine)),
    ];
    let mut buffer = Buffer::from_str("start 🇧🇷 mark\u{300}s");
    buffer.set_cursor(6).unwrap();
    for (index, step) in steps.iter().enumerate() {
        step(&mut buffer);
        assert!(buffer.cursor() <= buffer.len(), "step {}", index);
        assert!(buffer.as_str().is_char_boundary(buffer.cursor()), "step {}", index);
    }
}

#[test]
fn cycling_past_the_end_shows_the_original_and_wraps() {
    // Forward cycling runs: first option, second option, no selection (the
    // original buffer again), and back to the first option.
    let completions: Vec<&str> = Vec::new();
    let suggestions = vec!["yes", "no"];
    let (writer, trace) = RecordingWriter::new();
    let mut events = keys(&[
        KeyCode::Char('q'),
        KeyCode::Tab,
        KeyCode::Tab,
        KeyCode::Tab,
        KeyCode::Tab,
        KeyCode::Enter,
    ]);
    let outcome = read_line(
        None,
        no_override(),
        Some(&completions),
        Some(&suggestions),
        writer,
        &mut events,
    )
    .unwrap();
    assert_eq!(outcome.unwrap(), "yes");

    let trace = trace.borrow();
    let selections: Vec<usize> = trace.panels.iter().map(|(i, _)| *i).collect();
    assert_eq!(selections, vec![0, 1, 0]);
    // The step with no selection redrew the original buffer.
    assert!(trace.prints.iter().any(|(text, _, _)| text == "q"));
}

#[test]
fn backward_cycling_opens_on_the_last_option() {
    let completions: Vec<&str> = Vec::new();
    let suggestions = vec!["yes", "no"];
    let (writer, trace) = RecordingWriter::new();
    let mut events = Vec::new();
    events.push(InputEvent::Key(Event::from(KeyCode::BackTab)));
    events.push(InputEvent::Key(Event::from(KeyCode::Enter)));
    let mut source = ScriptedEvents::new(events);
    let outcome = read_line(
        None,
        no_override(),
        Some(&completions),
        Some(&suggestions),
        writer,
        &mut source,
    )
    .unwrap();
    assert_eq!(outcome.unwrap(), "no");
    assert_eq!(trace.borrow().panels[0].0, 1);
}

#[test]
fn word_range_completion_takes_one_word() {
    // From "rus" the completion tail is "t-lang.org"; taking a word of it
    // appends only up to the first word boundary.
    let completions = vec!["rust-lang.org"];
    let suggestions: Vec<&str> = Vec::new();
    let (writer, _trace) = RecordingWriter::new();
    let mut events = Vec::new();
    events.push(InputEvent::Key(Event::from(KeyCode::Char('r'))));
    events.push(InputEvent::Key(Event::from(KeyCode::Char('u'))));
    events.push(InputEvent::Key(Event::from(KeyCode::Char('s'))));
    events.push(InputEvent::Key(Event::new(
        KeyCode::Char('f'),
        rucline::actions::KeyModifiers::Alt,
    )));
    events.push(InputEvent::Key(Event::from(KeyCode::Enter)));
    let mut source = ScriptedEvents::new(events);
    let outcome = read_line(
        None,
        no_override(),
        Some(&completions),
        Some(&suggestions),
        writer,
        &mut source,
    )
    .unwrap();
    assert_eq!(outcome.unwrap(), "rust");
}

#[test]
fn resize_events_are_ignored() {
    let completions: Vec<&str> = Vec::new();
    let suggestions: Vec<&str> = Vec::new();
    let (writer, _trace) = RecordingWriter::new();
    let mut events = Vec::new();
    events.push(InputEvent::Key(Event::from(KeyCode::Char('o'))));
    events.push(InputEvent::Resize(80, 24));
    events.push(InputEvent::Key(Event::from(KeyCode::Char('k'))));
    events.push(InputEvent::Key(Event::from(KeyCode::Enter)));
    let mut source = ScriptedEvents::new(events);
    let outcome = read_line(
        None,
        no_override(),
        Some(&completions),
        Some(&suggestions),
        writer,
        &mut source,
    )
    .unwrap();
    assert_eq!(outcome.unwrap(), "ok");
}

#[test]
fn overlay_cycling_follows_the_table() {
    let options = vec![String::from("yes"), String::from("no")];

    // Forward from the front: first, second, no selection, first again.
    let mut overlay = Suggestions::new(options.clone(), Direction::Forward);
    assert_eq!(overlay.selected(), Some(0));
    overlay.cycle(Direction::Forward);
    assert_eq!(overlay.selected(), Some(1));
    overlay.cycle(Direction::Forward);
    assert_eq!(overlay.selected(), None);
    overlay.cycle(Direction::Forward);
    assert_eq!(overlay.selected(), Some(0));

    // Backward from the first selection: no selection, then the last.
    overlay.cycle(Direction::Backward);
    assert_eq!(overlay.selected(), None);
    overlay.cycle(Direction::Backward);
    assert_eq!(overlay.selected(), Some(1));
    overlay.cycle(Direction::Backward);
    assert_eq!(overlay.selected(), Some(0));

    // Opened backward, the last option is selected.
    let overlay = Suggestions::new(options, Direction::Backward);
    assert_eq!(overlay.selected(), Some(1));
}
