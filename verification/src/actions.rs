use vstd::prelude::*;

verus! {

/// A key delivered by the event source.
#[derive(Clone, Copy, PartialEq, Eq, Hash, Debug, Structural)]
pub enum KeyCode {
    Backspace,
    Enter,
    Left,
    Right,
    Up,
    Down,
    Home,
    End,
    PageUp,
    PageDown,
    Tab,
    BackTab,
    Delete,
    Insert,
    F(u8),
    Char(char),
    Null,
    Esc,
}

/// The modifier state a key event carries.
#[derive(Clone, Copy, PartialEq, Eq, Hash, Debug, Structural)]
pub enum KeyModifiers {
    Plain,
    Shift,
    Control,
    Alt,
}

/// A key press: a key code together with its modifier state.
#[derive(Clone, Copy, PartialEq, Eq, Hash, Debug, Structural)]
pub struct Event {
    pub code: KeyCode,
    pub modifiers: KeyModifiers,
}

impl Event {
    /// A key press of `code` with the given modifiers.
    pub fn new(code: KeyCode, modifiers: KeyModifiers) -> (e: Event)
        ensures
            e == (Event { code, modifiers }),
    {
        Event { code, modifiers }
    }
}

impl From<KeyCode> for Event {
    /// A key press of `code` without modifiers.
    fn from(code: KeyCode) -> (e: Event) {
        Event { code, modifiers: KeyModifiers::Plain }
    }
}

impl vstd::std_specs::convert::FromSpecImpl<KeyCode> for Event {
    open spec fn obeys_from_spec() -> bool {
        true
    }

    open spec fn from_spec(code: KeyCode) -> Event {
        Event { code, modifiers: KeyModifiers::Plain }
    }
}

/// An action that can be performed while reading a line.
#[derive(Clone, Copy, PartialEq, Eq, Hash, Debug, Structural)]
pub enum Action {
    /// Write a single character where the cursor is.
    Write(char),
    /// Delete a section around the cursor, described by a [`Scope`].
    Delete(Scope),
    /// Move the cursor by a [`Range`] in a [`Direction`].
    Move(Range, Direction),
    /// Cycle the drop-down suggestions in a [`Direction`].
    Suggest(Direction),
    /// Take a [`Range`] of the inline completion presented, if any.
    Complete(Range),
    /// Accept the current line.
    Accept,
    /// Drop the suggestions, if any are showing; else discard the whole line.
    Cancel,
    /// Do nothing and wait for the next [`Event`].
    NoOp,
}

/// The scope an [`Action`] applies to.
#[derive(Clone, Copy, PartialEq, Eq, Hash, Debug, Structural)]
pub enum Scope {
    /// The whole line.
    WholeLine,
    /// The whole word under the cursor.
    WholeWord,
    /// A relative scope, with a [`Range`] and a [`Direction`].
    Relative(Range, Direction),
}

/// The range an [`Action`] extends over.
#[derive(Clone, Copy, PartialEq, Eq, Hash, Debug, Structural)]
pub enum Range {
    /// The remainder of the line.
    Line,
    /// A single word.
    Word,
    /// A single character.
    Single,
}

/// The direction an [`Action`] takes.
#[derive(Clone, Copy, PartialEq, Eq, Hash, Debug, Structural)]
pub enum Direction {
    /// Rightwards, or downwards.
    Forward,
    /// Leftwards, or upwards.
    Backward,
}


use crate::buffer::{Buffer, BufferView};

/// The table of key bindings that overrides the default mapping.
pub type KeyBindings = std::collections::HashMap<Event, Action>;

/// Overrides the behavior for a given [`Event`].
///
/// Returning `None` falls back to the default mapping; returning
/// [`Action::NoOp`] suppresses the default.
pub trait Overrider {
    /// The action to take for `event`, given the current buffer; `None` to
    /// use the default mapping.
    fn override_for(&self, event: Event, buffer: &Buffer) -> Option<Action>;
}

impl Overrider for KeyBindings {
    fn override_for(&self, event: Event, _buffer: &Buffer) -> Option<Action> {
        match self.get(&event) {
            Some(action) => Some(*action),
            None => None,
        }
    }
}

/// Completing rather than moving when the cursor already sits at the end of
/// the line: `Word` completes a word, any other range the whole line.
pub open spec fn complete_if_at_end_spec(v: BufferView, range: Range) -> Action {
    if v.cursor == v.len() {
        if range == Range::Word {
            Action::Complete(Range::Word)
        } else {
            Action::Complete(Range::Line)
        }
    } else {
        Action::Move(range, Direction::Forward)
    }
}

/// The default mapping from key events to actions.
pub open spec fn default_action_spec(event: Event, v: BufferView) -> Action {
    match event.code {
        KeyCode::Enter => Action::Accept,
        KeyCode::Esc => Action::Cancel,
        KeyCode::Tab => Action::Suggest(Direction::Forward),
        KeyCode::BackTab => Action::Suggest(Direction::Backward),
        KeyCode::Backspace => Action::Delete(Scope::Relative(Range::Single, Direction::Backward)),
        KeyCode::Delete => Action::Delete(Scope::Relative(Range::Single, Direction::Forward)),
        KeyCode::Right => complete_if_at_end_spec(v, Range::Single),
        KeyCode::Left => Action::Move(Range::Single, Direction::Backward),
        KeyCode::Home => Action::Move(Range::Line, Direction::Backward),
        KeyCode::End => complete_if_at_end_spec(v, Range::Line),
        KeyCode::Char(c) => {
            if event.modifiers == KeyModifiers::Control {
                match c {
                    'm' | 'd' => Action::Accept,
                    'c' => Action::Cancel,
                    'b' => Action::Move(Range::Single, Direction::Backward),
                    'f' => complete_if_at_end_spec(v, Range::Single),
                    'a' => Action::Move(Range::Line, Direction::Backward),
                    'e' => complete_if_at_end_spec(v, Range::Line),
                    'j' => Action::Delete(Scope::Relative(Range::Word, Direction::Backward)),
                    'k' => Action::Delete(Scope::Relative(Range::Word, Direction::Forward)),
                    'h' => Action::Delete(Scope::Relative(Range::Line, Direction::Backward)),
                    'l' => Action::Delete(Scope::Relative(Range::Line, Direction::Forward)),
                    'w' => Action::Delete(Scope::WholeWord),
                    'u' => Action::Delete(Scope::WholeLine),
                    _ => Action::NoOp,
                }
            } else if event.modifiers == KeyModifiers::Alt {
                match c {
                    'b' => Action::Move(Range::Word, Direction::Backward),
                    'f' => complete_if_at_end_spec(v, Range::Word),
                    _ => Action::NoOp,
                }
            } else {
                Action::Write(c)
            }
        },
        _ => Action::NoOp,
    }
}

fn complete_if_at_end_else_move(buffer: &Buffer, range: Range) -> (a: Action)
    ensures
        a == complete_if_at_end_spec(buffer@, range),
{
    if buffer.cursor() == buffer.len() {
        if range == Range::Word {
            Action::Complete(Range::Word)
        } else {
            Action::Complete(Range::Line)
        }
    } else {
        Action::Move(range, Direction::Forward)
    }
}

/// The action the default mapping assigns to `event` in the given buffer.
pub fn default_action(event: Event, buffer: &Buffer) -> (a: Action)
    ensures
        a == default_action_spec(event, buffer@),
{
    match event.code {
        KeyCode::Enter => Action::Accept,
        KeyCode::Esc => Action::Cancel,
        KeyCode::Tab => Action::Suggest(Direction::Forward),
        KeyCode::BackTab => Action::Suggest(Direction::Backward),
        KeyCode::Backspace => Action::Delete(Scope::Relative(Range::Single, Direction::Backward)),
        KeyCode::Delete => Action::Delete(Scope::Relative(Range::Single, Direction::Forward)),
        KeyCode::Right => complete_if_at_end_else_move(buffer, Range::Single),
        KeyCode::Left => Action::Move(Range::Single, Direction::Backward),
        KeyCode::Home => Action::Move(Range::Line, Direction::Backward),
        KeyCode::End => complete_if_at_end_else_move(buffer, Range::Line),
        KeyCode::Char(c) => {
            if event.modifiers == KeyModifiers::Control {
                match c {
                    'm' | 'd' => Action::Accept,
                    'c' => Action::Cancel,
                    'b' => Action::Move(Range::Single, Direction::Backward),
                    'f' => complete_if_at_end_else_move(buffer, Range::Single),
                    'a' => Action::Move(Range::Line, Direction::Backward),
                    'e' => complete_if_at_end_else_move(buffer, Range::Line),
                    'j' => Action::Delete(Scope::Relative(Range::Word, Direction::Backward)),
                    'k' => Action::Delete(Scope::Relative(Range::Word, Direction::Forward)),
                    'h' => Action::Delete(Scope::Relative(Range::Line, Direction::Backward)),
                    'l' => Action::Delete(Scope::Relative(Range::Line, Direction::Forward)),
                    'w' => Action::Delete(Scope::WholeWord),
                    'u' => Action::Delete(Scope::WholeLine),
                    _ => Action::NoOp,
                }
            } else if event.modifiers == KeyModifiers::Alt {
                match c {
                    'b' => Action::Move(Range::Word, Direction::Backward),
                    'f' => complete_if_at_end_else_move(buffer, Range::Word),
                    _ => Action::NoOp,
                }
            } else {
                Action::Write(c)
            }
        },
        _ => Action::NoOp,
    }
}

/// The rule for resolving an event against an override's answer: an answer
/// wins as it stands, so answering `NoOp` suppresses the default, and no
/// answer falls back to the default mapping.
pub fn resolve_action(answer: Option<Action>, event: Event, buffer: &Buffer) -> (a: Action)
    ensures
        a == match answer {
            Some(action) => action,
            None => default_action_spec(event, buffer@),
        },
{
    match answer {
        Some(action) => action,
        None => default_action(event, buffer),
    }
}

/// The action to take for `event`: the overrider's answer resolved by
/// [`resolve_action`], or the default mapping when there is no overrider.
pub fn action_for<O: Overrider + ?Sized>(
    overrider: Option<&O>,
    event: Event,
    buffer: &Buffer,
) -> (a: Action)
    ensures
        overrider is None ==> a == default_action_spec(event, buffer@),
{
    match overrider {
        Some(o) => {
            let answer = o.override_for(event, buffer);
            resolve_action(answer, event, buffer)
        },
        None => resolve_action(None, event, buffer),
    }
}


} // verus!
