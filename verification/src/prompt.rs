use vstd::prelude::*;

verus! {

use vstd::utf8::encode_utf8;
use vstd::string::{StringExecFns, StringSliceAdditionalSpecFns};
use crate::actions::{action_for, Action, Direction, Overrider, Range, Scope};
use crate::buffer::{
    Buffer, BufferView, write_spec, write_range_spec, delete_spec, move_spec,
};
use crate::completion::{Completer, Suggester};
use crate::render::{Error, Writer};

broadcast use vstd::utf8::group_utf8_lib;

/// The outcome of a read: the accepted text, or the buffer as it stood when
/// the user cancelled.
#[derive(Debug)]
pub enum Outcome {
    /// The user accepted the input; the accepted text.
    Accepted(String),
    /// The user cancelled; the rejected buffer, text and cursor intact.
    Canceled(Buffer),
}

impl Outcome {
    /// Whether the outcome was accepted.
    pub fn was_accepted(&self) -> (r: bool)
        ensures
            r == (self is Accepted),
    {
        match self {
            Outcome::Accepted(_) => true,
            Outcome::Canceled(_) => false,
        }
    }

    /// The accepted text; only an accepted outcome can be unwrapped.
    pub fn unwrap(self) -> (r: String)
        requires
            self is Accepted,
        ensures
            self == Outcome::Accepted(r),
    {
        match self {
            Outcome::Accepted(string) => string,
            Outcome::Canceled(_) => String::new(),
        }
    }

    /// The accepted text, or nothing when the input was cancelled.
    pub fn some(self) -> (r: Option<String>)
        ensures
            match self {
                Outcome::Accepted(s) => r == Some(s),
                Outcome::Canceled(_) => r is None,
            },
    {
        match self {
            Outcome::Accepted(string) => Some(string),
            Outcome::Canceled(_) => None,
        }
    }

    /// The accepted text, or the cancelled buffer as the failure value.
    pub fn ok(self) -> (r: Result<String, Buffer>)
        ensures
            self == match r {
                Ok(s) => Outcome::Accepted(s),
                Err(b) => Outcome::Canceled(b),
            },
    {
        match self {
            Outcome::Accepted(string) => Ok(string),
            Outcome::Canceled(buffer) => Err(buffer),
        }
    }
}

/// An event delivered by the event source: a key press, or a notification the
/// reader ignores.
#[derive(Clone, Copy, PartialEq, Eq, Debug, Structural)]
pub enum InputEvent {
    /// A key press.
    Key(crate::actions::Event),
    /// The terminal was resized to the given number of columns and rows.
    Resize(u16, u16),
}

/// A blocking source of input events; implement this over the actual terminal.
///
/// The stream handed to one read is modelled as a finite sequence of pending
/// events, delivered in order. A source that runs dry reports an error
/// instead.
pub trait EventSource {
    /// The events this source will still deliver, in order.
    spec fn pending(&self) -> Seq<InputEvent>;

    /// Blocks until the next event arrives: the head of the pending events,
    /// or an error when the source fails or runs dry.
    fn read(&mut self) -> (r: Result<InputEvent, Error>)
        ensures
            r is Ok ==> old(self).pending().len() > 0 && r == Ok::<InputEvent, Error>(
                old(self).pending().first(),
            ) && final(self).pending() == old(self).pending().drop_first(),
    ;
}

/// An event source that replays a fixed script of events, then fails.
pub struct ScriptedEvents {
    events: Vec<InputEvent>,
    next: usize,
}

impl ScriptedEvents {
    /// A source that will deliver the given events in order.
    pub fn new(events: Vec<InputEvent>) -> (r: ScriptedEvents)
        ensures
            r.pending() == events@,
    {
        let r = ScriptedEvents { events, next: 0 };
        proof {
            assert(r.pending() =~= r.events@);
        }
        r
    }
}

impl EventSource for ScriptedEvents {
    /// The scripted events not yet delivered, in order.
    closed spec fn pending(&self) -> Seq<InputEvent> {
        if self.next <= self.events@.len() {
            self.events@.subrange(self.next as int, self.events@.len() as int)
        } else {
            Seq::<InputEvent>::empty()
        }
    }

    /// The next scripted event, or an error once the script is exhausted.
    fn read(&mut self) -> (r: Result<InputEvent, Error>)
        ensures
            old(self).pending().len() > 0 ==> r == Ok::<InputEvent, Error>(
                old(self).pending().first(),
            ) && final(self).pending() == old(self).pending().drop_first(),
            old(self).pending().len() == 0 ==> r is Err,
    {
        if self.next < self.events.len() {
            let event = self.events[self.next];
            self.next = self.next + 1;
            proof {
                assert(final(self).pending() =~= old(self).pending().drop_first());
            }
            Ok(event)
        } else {
            Err(Error::new(String::from_str("event source exhausted")))
        }
    }
}

/// The suggestion overlay: the candidates being cycled and which of them is
/// selected, if any.
pub struct Suggestions {
    options: Vec<String>,
    index: Option<usize>,
}

/// The mathematical content of the overlay.
pub struct OverlayView {
    pub options: Seq<Seq<char>>,
    pub index: Option<int>,
}

impl OverlayView {
    /// The overlay invariants: there is at least one option, and the selected
    /// index, when there is one, points at an option.
    pub open spec fn wf(self) -> bool {
        self.options.len() > 0 && match self.index {
            Some(k) => 0 <= k < self.options.len(),
            None => true,
        }
    }
}

impl View for Suggestions {
    type V = OverlayView;

    closed spec fn view(&self) -> OverlayView {
        OverlayView {
            options: self.options.deep_view(),
            index: match self.index {
                Some(i) => Some(i as int),
                None => None,
            },
        }
    }
}

/// One step of cycling the overlay: forward runs up the list and then to "no
/// selection"; backward runs the same ring the other way.
pub open spec fn cycle_spec(o: OverlayView, direction: Direction) -> OverlayView {
    let last = o.options.len() - 1;
    let index = match (direction, o.index) {
        (Direction::Forward, None) => Some(0int),
        (Direction::Forward, Some(i)) => if i < last {
            Some(i + 1)
        } else {
            None
        },
        (Direction::Backward, None) => Some(last as int),
        (Direction::Backward, Some(i)) => if i == 0 {
            None
        } else {
            Some(i - 1)
        },
    };
    OverlayView { options: o.options, index }
}

impl Suggestions {
    #[verifier::type_invariant]
    spec fn type_inv(self) -> bool {
        self@.wf()
    }

    /// A fresh overlay over `options`, selecting the first of them when opened
    /// cycling forward and the last when opened cycling backward.
    pub fn new(options: Vec<String>, direction: Direction) -> (r: Suggestions)
        requires
            options@.len() > 0,
        ensures
            r@.options == options.deep_view(),
            r@.index == Some(
                match direction {
                    Direction::Forward => 0int,
                    Direction::Backward => options@.len() - 1,
                },
            ),
    {
        let index: usize = match direction {
            Direction::Forward => 0,
            Direction::Backward => options.len() - 1,
        };
        Suggestions { options, index: Some(index) }
    }

    /// The selected position, if any.
    pub fn selected(&self) -> (r: Option<usize>)
        ensures
            r is Some <==> self@.index is Some,
            r is Some ==> r->0 as int == self@.index->0,
    {
        self.index
    }

    /// Cycles the selection one step in the given direction.
    pub fn cycle(&mut self, direction: Direction)
        ensures
            final(self)@ == cycle_spec(old(self)@, direction),
    {
        proof {
            use_type_invariant(&*self);
        }
        let last = self.options.len() - 1;
        let index = match (direction, self.index) {
            (Direction::Forward, None) => Some(0),
            (Direction::Forward, Some(i)) => if i < last {
                Some(i + 1)
            } else {
                None
            },
            (Direction::Backward, None) => Some(last),
            (Direction::Backward, Some(i)) => if i == 0 {
                None
            } else {
                Some(i - 1)
            },
        };
        self.index = index;
    }

    /// The selected option as a fresh buffer with the cursor at its end, or
    /// nothing when no option is selected.
    fn take(self) -> (r: Option<Buffer>)
        ensures
            match self@.index {
                Some(k) => r is Some && r->0@.chars == self@.options[k] && r->0@.cursor
                    == encode_utf8(self@.options[k]).len(),
                None => r is None,
            },
    {
        proof {
            use_type_invariant(&self);
        }
        match self.index {
            Some(index) => {
                let chosen = &self.options[index];
                Some(Buffer::from_str(chosen.as_str()))
            },
            None => None,
        }
    }
}

/// The mathematical content of a session: the buffer, the inline completion
/// being previewed, and the suggestion overlay.
pub struct ContextView {
    pub buffer: BufferView,
    pub completion: Option<Seq<char>>,
    pub overlay: Option<OverlayView>,
}

/// The buffer with its cursor moved to the end of the text.
pub open spec fn at_end(v: BufferView) -> BufferView {
    BufferView { chars: v.chars, cursor: encode_utf8(v.chars).len() as int }
}

/// Materializing the overlay: when an option is selected it replaces the
/// buffer, with the cursor at its end; either way the overlay closes.
pub open spec fn materialize_spec(v: ContextView) -> ContextView {
    match v.overlay {
        Some(o) => ContextView {
            buffer: match o.index {
                Some(k) => BufferView {
                    chars: o.options[k],
                    cursor: encode_utf8(o.options[k]).len() as int,
                },
                None => v.buffer,
            },
            completion: v.completion,
            overlay: None,
        },
        None => v,
    }
}

/// Opening the overlay over the options a suggester produced: the first is
/// selected cycling forward, the last cycling backward; an empty list leaves
/// the session as it was.
pub open spec fn open_overlay_spec(
    v: ContextView,
    options: Seq<Seq<char>>,
    direction: Direction,
) -> ContextView {
    if options.len() == 0 {
        v
    } else {
        ContextView {
            buffer: v.buffer,
            completion: v.completion,
            overlay: Some(
                OverlayView {
                    options,
                    index: Some(
                        match direction {
                            Direction::Forward => 0int,
                            Direction::Backward => options.len() - 1,
                        },
                    ),
                },
            ),
        }
    }
}

/// Discarding the overlay; the buffer and the completion stay as they are.
pub open spec fn cancel_spec(v: ContextView) -> ContextView {
    ContextView { buffer: v.buffer, completion: v.completion, overlay: None }
}

/// One read's worth of editing state: the session owns the buffer and the
/// overlay, borrows the completion hooks, and drives the writer after every
/// mutation.
pub struct Context<'c, 's, C: Completer + ?Sized, S: Suggester + ?Sized, W: Writer> {
    writer: W,
    buffer: Buffer,
    completer: Option<&'c C>,
    completion: Option<String>,
    suggester: Option<&'s S>,
    suggestions: Option<Suggestions>,
}

impl<'c, 's, C: Completer + ?Sized, S: Suggester + ?Sized, W: Writer> View for Context<
    'c,
    's,
    C,
    S,
    W,
> {
    type V = ContextView;

    closed spec fn view(&self) -> ContextView {
        ContextView {
            buffer: self.buffer@,
            completion: match self.completion {
                Some(c) => Some(c@),
                None => None,
            },
            overlay: match self.suggestions {
                Some(s) => Some(s@),
                None => None,
            },
        }
    }
}

impl<'c, 's, C: Completer + ?Sized, S: Suggester + ?Sized, W: Writer> Context<'c, 's, C, S, W> {
    /// Whether an inline completion hook was supplied.
    pub closed spec fn has_completer(&self) -> bool {
        self.completer is Some
    }

    /// Whether a drop-down suggestion hook was supplied.
    pub closed spec fn has_suggester(&self) -> bool {
        self.suggester is Some
    }

    /// A fresh session over the given writer and hooks, with the supplied
    /// buffer or an empty one, the completion the completer offers for it,
    /// and no overlay.
    pub fn new(
        writer: W,
        buffer: Option<Buffer>,
        completer: Option<&'c C>,
        suggester: Option<&'s S>,
    ) -> (r: Self)
        ensures
            r@.buffer == match buffer {
                Some(b) => b@,
                None => BufferView { chars: Seq::<char>::empty(), cursor: 0int },
            },
            completer is None ==> r@.completion is None,
            r@.overlay is None,
            r.has_completer() == (completer is Some),
            r.has_suggester() == (suggester is Some),
    {
        let buffer = match buffer {
            Some(b) => b,
            None => Buffer::new(),
        };
        let mut context = Context {
            writer,
            buffer,
            completer,
            completion: None,
            suggester,
            suggestions: None,
        };
        context.update_completion();
        context
    }

    /// A read-only view of the buffer.
    pub fn buffer_ref(&self) -> (b: &Buffer)
        ensures
            b@ == self@.buffer,
    {
        &self.buffer
    }

    /// Surrenders the buffer as it stands, overlay discarded unmaterialized.
    pub fn into_buffer(self) -> (b: Buffer)
        ensures
            b@ == self@.buffer,
    {
        self.buffer
    }

    fn try_take_suggestion(&mut self)
        ensures
            final(self)@ == materialize_spec(old(self)@),
            final(self).has_completer() == old(self).has_completer(),
            final(self).has_suggester() == old(self).has_suggester(),
    {
        let taken = self.suggestions.take();
        match taken {
            Some(suggestions) => {
                match suggestions.take() {
                    Some(buffer) => {
                        self.buffer = buffer;
                    },
                    None => {},
                }
            },
            None => {},
        }
    }

    fn update_completion(&mut self)
        ensures
            final(self)@.buffer == old(self)@.buffer,
            final(self)@.overlay == old(self)@.overlay,
            !old(self).has_completer() ==> final(self)@.completion == old(self)@.completion,
            final(self).has_completer() == old(self).has_completer(),
            final(self).has_suggester() == old(self).has_suggester(),
    {
        match self.completer {
            Some(completer) => {
                self.completion = completer.complete_for(&self.buffer);
            },
            None => {},
        }
    }

    fn redraw(&mut self) -> (res: Result<(), Error>)
        ensures
            final(self)@ == old(self)@,
            final(self).has_completer() == old(self).has_completer(),
            final(self).has_suggester() == old(self).has_suggester(),
    {
        let completion = match &self.completion {
            Some(c) => Some(c.as_str()),
            None => None,
        };
        self.writer.print(&self.buffer, completion)
    }

    /// Shows the prompt.
    pub fn begin(&mut self) -> (res: Result<(), Error>)
        ensures
            final(self)@ == old(self)@,
            final(self).has_completer() == old(self).has_completer(),
            final(self).has_suggester() == old(self).has_suggester(),
    {
        self.writer.begin()
    }

    /// Redraws the current state.
    pub fn print(&mut self) -> (res: Result<(), Error>)
        ensures
            final(self)@ == old(self)@,
            final(self).has_completer() == old(self).has_completer(),
            final(self).has_suggester() == old(self).has_suggester(),
    {
        self.redraw()
    }

    /// Takes the display down.
    pub fn finish(&mut self) -> (res: Result<(), Error>)
        ensures
            final(self)@ == old(self)@,
            final(self).has_completer() == old(self).has_completer(),
            final(self).has_suggester() == old(self).has_suggester(),
    {
        self.writer.finish()
    }

    /// Materializes any selected suggestion, writes the character at the
    /// cursor, refreshes the completion, and redraws.
    pub fn write(&mut self, c: char) -> (res: Result<(), Error>)
        ensures
            final(self)@.buffer == write_spec(materialize_spec(old(self)@).buffer, c),
            final(self)@.overlay is None,
            !old(self).has_completer() ==> final(self)@.completion == old(self)@.completion,
            final(self).has_completer() == old(self).has_completer(),
            final(self).has_suggester() == old(self).has_suggester(),
    {
        self.try_take_suggestion();
        self.buffer.write(c);
        self.update_completion();
        self.redraw()
    }

    /// Materializes any selected suggestion, deletes the scope from the
    /// buffer, refreshes the completion, and redraws.
    pub fn delete(&mut self, scope: Scope) -> (res: Result<(), Error>)
        ensures
            final(self)@.buffer == delete_spec(materialize_spec(old(self)@).buffer, scope),
            final(self)@.overlay is None,
            !old(self).has_completer() ==> final(self)@.completion == old(self)@.completion,
            final(self).has_completer() == old(self).has_completer(),
            final(self).has_suggester() == old(self).has_suggester(),
    {
        self.try_take_suggestion();
        self.buffer.delete(scope);
        self.update_completion();
        self.redraw()
    }

    /// Materializes any selected suggestion, moves the cursor, and redraws;
    /// the completion is not refreshed by a pure movement.
    pub fn move_cursor(&mut self, range: Range, direction: Direction) -> (res: Result<(), Error>)
        ensures
            final(self)@.buffer == move_spec(materialize_spec(old(self)@).buffer, range, direction),
            final(self)@.overlay is None,
            final(self)@.completion == old(self)@.completion,
            final(self).has_completer() == old(self).has_completer(),
            final(self).has_suggester() == old(self).has_suggester(),
    {
        self.try_take_suggestion();
        self.buffer.move_cursor(range, direction);
        self.redraw()
    }

    /// Materializes any selected suggestion, moves the cursor to the end, and
    /// takes the given range of the completion into the buffer, if one is
    /// being shown; then refreshes the completion and redraws.
    pub fn complete(&mut self, range: Range) -> (res: Result<(), Error>)
        ensures
            ({
                let m = materialize_spec(old(self)@);
                let moved = at_end(m.buffer);
                match m.completion {
                    Some(t) => if t.len() > 0 {
                        final(self)@.buffer == write_range_spec(moved, t, range)
                    } else {
                        final(self)@.buffer == moved && final(self)@.completion == m.completion
                    },
                    None => final(self)@.buffer == moved && final(self)@.completion
                        == m.completion,
                }
            }),
            final(self)@.overlay is None,
            !old(self).has_completer() ==> final(self)@.completion == old(self)@.completion,
            final(self).has_completer() == old(self).has_completer(),
            final(self).has_suggester() == old(self).has_suggester(),
    {
        self.try_take_suggestion();
        self.buffer.go_to_end();
        let has_completion = match &self.completion {
            Some(completion) => !completion.as_str().is_empty(),
            None => false,
        };
        if has_completion {
            let completion = self.completion.take();
            match completion {
                Some(text) => {
                    self.buffer.write_range(text.as_str(), range);
                    self.completion = Some(text);
                },
                None => {},
            }
            self.update_completion();
            self.redraw()
        } else {
            Ok(())
        }
    }

    /// Cycles the overlay when it is open; otherwise asks the suggester and
    /// opens the overlay on what it produced, if anything; redraws either the
    /// panel or the buffer.
    pub fn suggest(&mut self, direction: Direction) -> (res: Result<(), Error>)
        ensures
            final(self)@.buffer == old(self)@.buffer,
            final(self)@.completion == old(self)@.completion,
            match old(self)@.overlay {
                Some(o) => {
                    &&& (old(self).has_suggester() ==> final(self)@.overlay == Some(
                        cycle_spec(o, direction),
                    ))
                    &&& (!old(self).has_suggester() ==> final(self)@.overlay == old(self)@.overlay)
                },
                None => {
                    &&& (!old(self).has_suggester() ==> final(self)@.overlay is None)
                    &&& (final(self)@.overlay is Some ==> exists|opts: Seq<Seq<char>>|
                        opts.len() > 0 && final(self)@ == open_overlay_spec(
                            old(self)@,
                            opts,
                            direction,
                        ))
                },
            },
            final(self).has_completer() == old(self).has_completer(),
            final(self).has_suggester() == old(self).has_suggester(),
    {
        let suggester = self.suggester;
        match suggester {
            Some(suggester) => {
                let open = self.suggestions.is_some();
                if open {
                    match &mut self.suggestions {
                        Some(sug) => {
                            sug.cycle(direction);
                        },
                        None => {},
                    }
                    let selected = match &self.suggestions {
                        Some(sug) => sug.selected(),
                        None => None,
                    };
                    match selected {
                        Some(index) => {
                            let res = match &self.suggestions {
                                Some(sug) => self.writer.print_suggestions(
                                    index,
                                    sug.options.as_slice(),
                                ),
                                None => Ok(()),
                            };
                            return res;
                        },
                        None => {},
                    }
                } else {
                    let options = suggester.suggest_for(&self.buffer);
                    if options.len() > 0 {
                        let ghost opts = options.deep_view();
                        let sug = Suggestions::new(options, direction);
                        let index = match sug.selected() {
                            Some(i) => i,
                            None => 0,
                        };
                        self.suggestions = Some(sug);
                        let res = match &self.suggestions {
                            Some(sug) => self.writer.print_suggestions(
                                index,
                                sug.options.as_slice(),
                            ),
                            None => Ok(()),
                        };
                        proof {
                            assert(opts.len() > 0 && final(self)@ == open_overlay_spec(
                                old(self)@,
                                opts,
                                direction,
                            ));
                        }
                        return res;
                    }
                }
            },
            None => {},
        }
        self.redraw()
    }

    /// Whether the suggestion overlay is open.
    pub fn is_suggesting(&self) -> (r: bool)
        ensures
            r == (self@.overlay is Some),
    {
        self.suggestions.is_some()
    }

    /// Discards the overlay and redraws the buffer it had been covering.
    pub fn cancel_suggestion(&mut self) -> (res: Result<(), Error>)
        ensures
            final(self)@ == cancel_spec(old(self)@),
            final(self).has_completer() == old(self).has_completer(),
            final(self).has_suggester() == old(self).has_suggester(),
    {
        self.suggestions = None;
        self.redraw()
    }

    /// Materializes any selected suggestion and hands out the buffer text.
    pub fn buffer_as_string(&mut self) -> (r: String)
        ensures
            r@ == materialize_spec(old(self)@).buffer.chars,
            final(self)@ == materialize_spec(old(self)@),
            final(self).has_completer() == old(self).has_completer(),
            final(self).has_suggester() == old(self).has_suggester(),
    {
        self.try_take_suggestion();
        String::from_str(self.buffer.as_str())
    }
}

/// Opening the suggestion overlay and cancelling it leaves the buffer exactly
/// as it was; opening it and then writing a character materializes the first
/// option with that character appended.
pub proof fn lemma_overlay_round_trip(v: ContextView, opts: Seq<Seq<char>>, c: char)
    requires
        v.overlay is None,
        opts.len() > 0,
    ensures
        cancel_spec(open_overlay_spec(v, opts, Direction::Forward)).buffer == v.buffer,
        write_spec(
            materialize_spec(open_overlay_spec(v, opts, Direction::Forward)).buffer,
            c,
        ).chars == opts[0].push(c),
{
    let o = open_overlay_spec(v, opts, Direction::Forward);
    let m = materialize_spec(o).buffer;
    assert(m.chars == opts[0]);
    assert(m.cursor == encode_utf8(opts[0]).len());
    let w = write_spec(m, c);
    let b = m.bytes();
    let enc = vstd::utf8::encode_scalar(c as u32);
    assert(b.subrange(0, m.cursor) =~= b);
    assert(b.subrange(m.cursor, b.len() as int) =~= Seq::<u8>::empty());
    assert(b + enc + Seq::<u8>::empty() =~= b + enc);
    crate::buffer::lemma_encode_concat(opts[0], seq![c]);
    assert(seq![c].drop_first() =~= Seq::<char>::empty());
    assert(encode_utf8(Seq::<char>::empty()) =~= Seq::<u8>::empty());
    assert(encode_utf8(seq![c]) =~= enc);
    assert(encode_utf8(opts[0] + seq![c]) == b + enc);
    assert(w.chars == vstd::utf8::decode_utf8(b + enc));
    assert(vstd::utf8::decode_utf8(encode_utf8(opts[0] + seq![c])) == opts[0] + seq![c]);
    assert(opts[0] + seq![c] =~= opts[0].push(c));
}


/// How one resolved action steps the session, per the editing state machine:
/// edits materialize any selected suggestion and then transform the buffer,
/// `Suggest` only touches the overlay, `Cancel` first closes an open overlay,
/// and `Accept`, or `Cancel` outside the overlay, settles the read. The
/// answers of the completion and suggestion hooks are left free.
pub open spec fn action_step(
    pre: ContextView,
    action: Action,
    post: ContextView,
    settled: Option<Outcome>,
) -> bool {
    match action {
        Action::Write(c) => {
            &&& post.buffer == write_spec(materialize_spec(pre).buffer, c)
            &&& post.overlay is None
            &&& settled is None
        },
        Action::Delete(scope) => {
            &&& post.buffer == delete_spec(materialize_spec(pre).buffer, scope)
            &&& post.overlay is None
            &&& settled is None
        },
        Action::Move(range, direction) => {
            &&& post.buffer == move_spec(materialize_spec(pre).buffer, range, direction)
            &&& post.overlay is None
            &&& post.completion == pre.completion
            &&& settled is None
        },
        Action::Complete(range) => {
            &&& ({
                let m = materialize_spec(pre);
                let moved = at_end(m.buffer);
                match m.completion {
                    Some(t) => if t.len() > 0 {
                        post.buffer == write_range_spec(moved, t, range)
                    } else {
                        post.buffer == moved
                    },
                    None => post.buffer == moved,
                }
            })
            &&& post.overlay is None
            &&& settled is None
        },
        Action::Suggest(_) => {
            &&& post.buffer == pre.buffer
            &&& post.completion == pre.completion
            &&& settled is None
        },
        Action::NoOp => {
            &&& post == pre
            &&& settled is None
        },
        Action::Cancel => if pre.overlay is Some {
            &&& post == cancel_spec(pre)
            &&& settled is None
        } else {
            &&& post == pre
            &&& match settled {
                Some(Outcome::Canceled(b)) => b@ == pre.buffer,
                _ => false,
            }
        },
        Action::Accept => {
            &&& post == materialize_spec(pre)
            &&& match settled {
                Some(Outcome::Accepted(s)) => s@ == materialize_spec(pre).buffer.chars,
                _ => false,
            }
        },
    }
}

/// A run of the session loop from `pre` over `events` that settles in `out`:
/// resize notifications are skipped, and each key event is resolved to an
/// action — the default mapping's when no override stands, any action at all
/// when one does — that steps the state per [`action_step`] until one settles
/// the read.
pub open spec fn session_run(
    pre: ContextView,
    events: Seq<InputEvent>,
    overridden: bool,
    out: Outcome,
) -> bool
    decreases events.len(),
{
    if events.len() == 0 {
        false
    } else {
        match events.first() {
            InputEvent::Resize(_, _) => session_run(pre, events.drop_first(), overridden, out),
            InputEvent::Key(e) => exists|action: Action, post: ContextView, settled: Option<
                Outcome,
            >|
                {
                    &&& (overridden || action == crate::actions::default_action_spec(e, pre.buffer))
                    &&& #[trigger] action_step(pre, action, post, settled)
                    &&& match settled {
                        Some(o) => o == out,
                        None => session_run(post, events.drop_first(), overridden, out),
                    }
                },
        }
    }
}

/// A run whose every action comes from the default mapping is in particular
/// a run whose actions are unconstrained.
pub proof fn lemma_session_run_weaken(pre: ContextView, events: Seq<InputEvent>, out: Outcome)
    requires
        session_run(pre, events, false, out),
    ensures
        session_run(pre, events, true, out),
    decreases events.len(),
{
    match events.first() {
        InputEvent::Resize(_, _) => {
            lemma_session_run_weaken(pre, events.drop_first(), out);
        },
        InputEvent::Key(e) => {
            let (action, post, settled) = choose|action: Action, post: ContextView, settled: Option<
                Outcome,
            >|
                {
                    &&& (false || action == crate::actions::default_action_spec(e, pre.buffer))
                    &&& #[trigger] action_step(pre, action, post, settled)
                    &&& match settled {
                        Some(o) => o == out,
                        None => session_run(post, events.drop_first(), false, out),
                    }
                };
            if settled is None {
                lemma_session_run_weaken(post, events.drop_first(), out);
            }
            assert(action_step(pre, action, post, settled));
        },
    }
}

/// Applies one resolved action to the session: on success, the session steps
/// per [`action_step`], and the settled outcome is handed back.
fn apply_action<'c, 's, C, S, W>(
    context: &mut Context<'c, 's, C, S, W>,
    action: Action,
) -> (res: Result<Option<Outcome>, Error>) where
    C: Completer + ?Sized,
    S: Suggester + ?Sized,
    W: Writer,
    ensures
        res is Ok ==> action_step(old(context)@, action, final(context)@, res->Ok_0),
{
    match action {
        Action::Write(c) => match context.write(c) {
            Ok(()) => Ok(None),
            Err(e) => Err(e),
        },
        Action::Delete(scope) => match context.delete(scope) {
            Ok(()) => Ok(None),
            Err(e) => Err(e),
        },
        Action::Move(range, direction) => match context.move_cursor(range, direction) {
            Ok(()) => Ok(None),
            Err(e) => Err(e),
        },
        Action::Complete(range) => match context.complete(range) {
            Ok(()) => Ok(None),
            Err(e) => Err(e),
        },
        Action::Suggest(direction) => match context.suggest(direction) {
            Ok(()) => Ok(None),
            Err(e) => Err(e),
        },
        Action::NoOp => Ok(None),
        Action::Cancel => {
            if context.is_suggesting() {
                match context.cancel_suggestion() {
                    Ok(()) => Ok(None),
                    Err(e) => Err(e),
                }
            } else {
                let buffer = context.buffer_ref().clone();
                Ok(Some(Outcome::Canceled(buffer)))
            }
        },
        Action::Accept => Ok(Some(Outcome::Accepted(context.buffer_as_string()))),
    }
}

fn run_session<'c, 's, O, C, S, W, E>(
    context: &mut Context<'c, 's, C, S, W>,
    overrider: Option<&O>,
    events: &mut E,
) -> (res: Result<Outcome, Error>) where
    O: Overrider + ?Sized,
    C: Completer + ?Sized,
    S: Suggester + ?Sized,
    W: Writer,
    E: EventSource,
    ensures
        res is Ok ==> session_run(
            old(context)@,
            old(events).pending(),
            overrider is Some,
            res->Ok_0,
        ),
{
    let ghost pre0 = context@;
    let ghost pending0 = events.pending();
    let ghost overridden = overrider is Some;
    match context.print() {
        Ok(()) => {},
        Err(e) => {
            return Err(e);
        },
    }
    loop
        invariant
            pre0 == old(context)@,
            pending0 == old(events).pending(),
            overridden == (overrider is Some),
            forall|out: Outcome|
                session_run(context@, events.pending(), overridden, out) ==> #[trigger] session_run(
                    pre0,
                    pending0,
                    overridden,
                    out,
                ),
        decreases events.pending().len(),
    {
        let ghost state_before = context@;
        let ghost pending_before = events.pending();
        let event = match events.read() {
            Ok(InputEvent::Key(event)) => event,
            Ok(InputEvent::Resize(_, _)) => {
                proof {
                    assert forall|out: Outcome|
                        session_run(context@, events.pending(), overridden, out) implies #[trigger] session_run(
                        pre0,
                        pending0,
                        overridden,
                        out,
                    ) by {
                        assert(session_run(state_before, pending_before, overridden, out));
                    }
                }
                continue;
            },
            Err(e) => {
                return Err(e);
            },
        };
        let action = action_for(overrider, event, context.buffer_ref());
        proof {
            assert(overridden || action == crate::actions::default_action_spec(
                event,
                context@.buffer,
            ));
        }
        let ghost key_state = context@;
        match apply_action(context, action) {
            Ok(None) => {
                proof {
                    assert forall|out: Outcome|
                        session_run(context@, events.pending(), overridden, out) implies #[trigger] session_run(
                        pre0,
                        pending0,
                        overridden,
                        out,
                    ) by {
                        assert(action_step(key_state, action, context@, None::<Outcome>));
                        assert(session_run(state_before, pending_before, overridden, out));
                    }
                }
            },
            Ok(Some(outcome)) => {
                proof {
                    assert(action_step(key_state, action, context@, Some(outcome)));
                    assert(session_run(state_before, pending_before, overridden, outcome));
                }
                return Ok(outcome);
            },
            Err(e) => {
                return Err(e);
            },
        }
    }
}

/// Blocks until the user commits an input: shows the prompt, feeds each key
/// event through the override hook and the default mapping, applies the
/// resulting action to the session, and redraws, until the input is accepted
/// or cancelled. A returned outcome settles a [`session_run`] over the
/// delivered events, starting from the given buffer with no overlay; failures
/// of the writer or the event source are propagated. The display is taken
/// down on every exit path.
pub fn read_line<'c, 's, O, C, S, W, E>(
    buffer: Option<Buffer>,
    overrider: Option<&O>,
    completer: Option<&'c C>,
    suggester: Option<&'s S>,
    writer: W,
    events: &mut E,
) -> (res: Result<Outcome, Error>) where
    O: Overrider + ?Sized,
    C: Completer + ?Sized,
    S: Suggester + ?Sized,
    W: Writer,
    E: EventSource,
    ensures
        res is Ok ==> exists|pre: ContextView|
            {
                &&& pre.buffer == match buffer {
                    Some(b) => b@,
                    None => BufferView { chars: Seq::<char>::empty(), cursor: 0int },
                }
                &&& pre.overlay is None
                &&& #[trigger] session_run(pre, old(events).pending(), overrider is Some, res->Ok_0)
            },
{
    let mut context = Context::new(writer, buffer, completer, suggester);
    match context.begin() {
        Ok(()) => {},
        Err(e) => {
            return Err(e);
        },
    }
    let outcome = run_session(&mut context, overrider, events);
    let teardown = context.finish();
    match (outcome, teardown) {
        (Ok(o), Ok(())) => Ok(o),
        (Ok(_), Err(e)) => Err(e),
        (Err(e), _) => Err(e),
    }
}


} // verus!
