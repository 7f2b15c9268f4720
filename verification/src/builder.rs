use vstd::prelude::*;

verus! {

use vstd::string::StringExecFns;
use crate::actions::{Action, Event, Overrider};
use crate::buffer::Buffer;
use crate::completion::{Completer, Suggester};
use crate::prompt::{read_line, lemma_session_run_weaken, session_run, ContextView, EventSource, Outcome};
use crate::buffer::BufferView;
use crate::render::{Error, Renderer, TerminalSink, Writer};

/// The base configuration of a read: the prompt text, an optional
/// prepopulated buffer, and whether to erase the display afterwards.
pub struct Prompt {
    /// The text shown before the input area.
    pub text: Option<String>,
    /// The buffer the read starts from; empty when absent.
    pub buffer: Option<Buffer>,
    /// Whether the prompt and the input are erased once the read ends.
    pub erase_after_read: bool,
}

impl Prompt {
    /// A prompt with no text, no prepopulated buffer, and no erasure.
    pub fn new() -> (p: Prompt)
        ensures
            p.text is None,
            p.buffer is None,
            !p.erase_after_read,
    {
        Prompt { text: None, buffer: None, erase_after_read: false }
    }

    /// A prompt showing the given text.
    pub fn from_str(text: &str) -> (p: Prompt)
        ensures
            p.text is Some && p.text->0@ == text@,
            p.buffer is None,
            !p.erase_after_read,
    {
        Prompt { text: Some(String::from_str(text)), buffer: None, erase_after_read: false }
    }

    /// The same prompt with its text replaced.
    pub fn text(self, string: &str) -> (p: Prompt)
        ensures
            p.text is Some && p.text->0@ == string@,
            p.buffer == self.buffer,
            p.erase_after_read == self.erase_after_read,
    {
        Prompt {
            text: Some(String::from_str(string)),
            buffer: self.buffer,
            erase_after_read: self.erase_after_read,
        }
    }

    /// The same prompt with its text removed.
    pub fn remove_text(self) -> (p: Prompt)
        ensures
            p.text is None,
            p.buffer == self.buffer,
            p.erase_after_read == self.erase_after_read,
    {
        Prompt { text: None, buffer: self.buffer, erase_after_read: self.erase_after_read }
    }
}

impl Default for Prompt {
    /// A prompt with no text, no prepopulated buffer, and no erasure.
    fn default() -> (p: Self)
        ensures
            p.text is None,
            p.buffer is None,
            !p.erase_after_read,
    {
        Prompt::new()
    }
}

/// The terminal step of a builder chain: hands the accumulated hooks down to
/// [`read_line`], letting a hook set later in the chain win over an earlier
/// one for the same role.
pub trait ChainedLineReader {
    /// The base options the chain has accumulated so far; builders that carry
    /// base options define this over them.
    open spec fn base_spec(&self) -> BaseOptions {
        BaseOptions { text: None, buffer: None, erase_after_read: false }
    }

    /// Reads a line with the given hooks, preferring those already supplied:
    /// a returned outcome settles a [`session_run`] over the delivered
    /// events, starting from the accumulated buffer with no overlay.
    fn chain_read_line<O, C, S, T, E>(
        self,
        overrider: Option<&O>,
        completer: Option<&C>,
        suggester: Option<&S>,
        sink: T,
        events: &mut E,
    ) -> (res: Result<Outcome, Error>) where
        O: Overrider + ?Sized,
        C: Completer + ?Sized,
        S: Suggester + ?Sized,
        T: TerminalSink,
        E: EventSource,
        ensures
            res is Ok ==> exists|pre: ContextView|
                {
                    &&& pre.buffer == match self.base_spec().buffer {
                        Some(b) => b,
                        None => (BufferView { chars: Seq::<char>::empty(), cursor: 0int }),
                    }
                    &&& pre.overlay is None
                    &&& #[trigger] session_run(pre, old(events).pending(), true, res->Ok_0)
                },
    ;
}

struct Dummy;

impl Overrider for Dummy {
    fn override_for(&self, _event: Event, _buffer: &Buffer) -> Option<Action> {
        None
    }
}

impl Completer for Dummy {
    fn complete_for(&self, _buffer: &Buffer) -> Option<String> {
        None
    }
}

impl Suggester for Dummy {
    fn suggest_for(&self, _buffer: &Buffer) -> Vec<String> {
        Vec::new()
    }
}

/// An inline completion or suggestion hook made from a closure over the
/// buffer.
#[verifier::reject_recursive_types(R)]
pub struct Closure<F: Fn(&Buffer) -> R, R> {
    closure: F,
}

impl<F: Fn(&Buffer) -> R, R> Closure<F, R> {
    #[verifier::type_invariant]
    spec fn type_inv(self) -> bool {
        forall|b: &Buffer| call_requires(self.closure, (b,))
    }

    /// A hook that answers with whatever the closure returns.
    pub fn new(closure: F) -> (r: Closure<F, R>)
        requires
            forall|b: &Buffer| call_requires(closure, (b,)),
    {
        Closure { closure }
    }
}

impl<F: Fn(&Buffer) -> Option<String>> Completer for Closure<F, Option<String>> {
    fn complete_for(&self, buffer: &Buffer) -> Option<String> {
        proof {
            use_type_invariant(&*self);
        }
        (self.closure)(buffer)
    }
}

impl<F: Fn(&Buffer) -> Vec<String>> Suggester for Closure<F, Vec<String>> {
    fn suggest_for(&self, buffer: &Buffer) -> Vec<String> {
        proof {
            use_type_invariant(&*self);
        }
        (self.closure)(buffer)
    }
}

/// An override hook made from a closure over the event and the buffer.
pub struct EventClosure<F: Fn(Event, &Buffer) -> Option<Action>> {
    closure: F,
}

impl<F: Fn(Event, &Buffer) -> Option<Action>> EventClosure<F> {
    #[verifier::type_invariant]
    spec fn type_inv(self) -> bool {
        forall|e: Event, b: &Buffer| call_requires(self.closure, (e, b))
    }

    /// A hook that answers with whatever the closure returns.
    pub fn new(closure: F) -> (r: EventClosure<F>)
        requires
            forall|e: Event, b: &Buffer| call_requires(closure, (e, b)),
    {
        EventClosure { closure }
    }
}

impl<F: Fn(Event, &Buffer) -> Option<Action>> Overrider for EventClosure<F> {
    fn override_for(&self, event: Event, buffer: &Buffer) -> Option<Action> {
        proof {
            use_type_invariant(&*self);
        }
        (self.closure)(event, buffer)
    }
}

/// A builder extended with an owned override hook.
pub struct WithOverrider<O: Overrider, B: Builder> {
    base: B,
    overrider: O,
}

/// A builder extended with an owned inline completion hook.
pub struct WithCompleter<C: Completer, B: Builder> {
    base: B,
    completer: C,
}

/// A builder extended with an owned drop-down suggestion hook.
pub struct WithSuggester<S: Suggester, B: Builder> {
    base: B,
    suggester: S,
}

/// A builder extended with a borrowed override hook.
pub struct WithRefOverrider<'o, O: Overrider + ?Sized, B: Builder> {
    base: B,
    overrider: &'o O,
}

/// A builder extended with a borrowed inline completion hook.
pub struct WithRefCompleter<'c, C: Completer + ?Sized, B: Builder> {
    base: B,
    completer: &'c C,
}

/// A builder extended with a borrowed drop-down suggestion hook.
pub struct WithRefSuggester<'s, S: Suggester + ?Sized, B: Builder> {
    base: B,
    suggester: &'s S,
}

/// The base options a builder chain has accumulated: the prompt text, the
/// starting buffer, and whether the display is erased after the read.
pub struct BaseOptions {
    pub text: Option<Seq<char>>,
    pub buffer: Option<crate::buffer::BufferView>,
    pub erase_after_read: bool,
}

impl<O: Overrider, B: Builder> WithOverrider<O, B> {
    /// Drops this override hook, returning to the chain beneath it.
    pub fn remove_overrider(self) -> (r: B)
        ensures
            r.base_spec() == self.base_spec(),
    {
        self.base
    }
}

impl<C: Completer, B: Builder> WithCompleter<C, B> {
    /// Drops this completion hook, returning to the chain beneath it.
    pub fn remove_completer(self) -> (r: B)
        ensures
            r.base_spec() == self.base_spec(),
    {
        self.base
    }
}

impl<S: Suggester, B: Builder> WithSuggester<S, B> {
    /// Drops this suggestion hook, returning to the chain beneath it.
    pub fn remove_suggester(self) -> (r: B)
        ensures
            r.base_spec() == self.base_spec(),
    {
        self.base
    }
}

impl<'o, O: Overrider + ?Sized, B: Builder> WithRefOverrider<'o, O, B> {
    /// Drops this override hook, returning to the chain beneath it.
    pub fn remove_overrider(self) -> (r: B)
        ensures
            r.base_spec() == self.base_spec(),
    {
        self.base
    }
}

impl<'c, C: Completer + ?Sized, B: Builder> WithRefCompleter<'c, C, B> {
    /// Drops this completion hook, returning to the chain beneath it.
    pub fn remove_completer(self) -> (r: B)
        ensures
            r.base_spec() == self.base_spec(),
    {
        self.base
    }
}

impl<'s, S: Suggester + ?Sized, B: Builder> WithRefSuggester<'s, S, B> {
    /// Drops this suggestion hook, returning to the chain beneath it.
    pub fn remove_suggester(self) -> (r: B)
        ensures
            r.base_spec() == self.base_spec(),
    {
        self.base
    }
}

/// Chains the configuration of a read: base options, hooks, and finally the
/// read itself over a terminal sink and an event source.
pub trait Builder: ChainedLineReader + Sized {
    /// Starts the read from the given buffer; a buffer set later in the chain
    /// wins.
    fn buffer(self, buffer: Buffer) -> (r: Self)
        ensures
            r.base_spec().buffer == Some(buffer@),
            r.base_spec().text == self.base_spec().text,
            r.base_spec().erase_after_read == self.base_spec().erase_after_read,
    ;

    /// Chooses whether the prompt and the input are erased after the read;
    /// the last assignment wins.
    fn erase_after_read(self, erase_after_read: bool) -> (r: Self)
        ensures
            r.base_spec().erase_after_read == erase_after_read,
            r.base_spec().text == self.base_spec().text,
            r.base_spec().buffer == self.base_spec().buffer,
    ;

    /// Extends the chain with an owned override hook.
    fn overrider<O: Overrider>(self, overrider: O) -> WithOverrider<O, Self> {
        WithOverrider { base: self, overrider }
    }

    /// Extends the chain with an override hook made from a closure.
    fn overrider_fn<F: Fn(Event, &Buffer) -> Option<Action>>(self, closure: F) -> WithOverrider<
        EventClosure<F>,
        Self,
    >
        requires
            forall|e: Event, b: &Buffer| call_requires(closure, (e, b)),
    {
        WithOverrider { base: self, overrider: EventClosure::new(closure) }
    }

    /// Extends the chain with a borrowed override hook.
    fn overrider_ref<'o, O: Overrider + ?Sized>(self, overrider: &'o O) -> WithRefOverrider<
        'o,
        O,
        Self,
    > {
        WithRefOverrider { base: self, overrider }
    }

    /// Extends the chain with an owned inline completion hook.
    fn completer<C: Completer>(self, completer: C) -> WithCompleter<C, Self> {
        WithCompleter { base: self, completer }
    }

    /// Extends the chain with an inline completion hook made from a closure.
    fn completer_fn<F: Fn(&Buffer) -> Option<String>>(self, closure: F) -> WithCompleter<
        Closure<F, Option<String>>,
        Self,
    >
        requires
            forall|b: &Buffer| call_requires(closure, (b,)),
    {
        WithCompleter { base: self, completer: Closure::new(closure) }
    }

    /// Extends the chain with a borrowed inline completion hook.
    fn completer_ref<'c, C: Completer + ?Sized>(self, completer: &'c C) -> WithRefCompleter<
        'c,
        C,
        Self,
    > {
        WithRefCompleter { base: self, completer }
    }

    /// Extends the chain with an owned drop-down suggestion hook.
    fn suggester<S: Suggester>(self, suggester: S) -> WithSuggester<S, Self> {
        WithSuggester { base: self, suggester }
    }

    /// Extends the chain with a drop-down suggestion hook made from a closure.
    fn suggester_fn<F: Fn(&Buffer) -> Vec<String>>(self, closure: F) -> WithSuggester<
        Closure<F, Vec<String>>,
        Self,
    >
        requires
            forall|b: &Buffer| call_requires(closure, (b,)),
    {
        WithSuggester { base: self, suggester: Closure::new(closure) }
    }

    /// Extends the chain with a borrowed drop-down suggestion hook.
    fn suggester_ref<'s, S: Suggester + ?Sized>(self, suggester: &'s S) -> WithRefSuggester<
        's,
        S,
        Self,
    > {
        WithRefSuggester { base: self, suggester }
    }

    /// Reads a line over the given terminal sink and event source, with the
    /// hooks accumulated along the chain: a returned outcome settles a
    /// [`session_run`] over the delivered events, starting from the
    /// accumulated buffer with no overlay.
    fn read_line<T: TerminalSink, E: EventSource>(self, sink: T, events: &mut E) -> (res: Result<
        Outcome,
        Error,
    >)
        ensures
            res is Ok ==> exists|pre: ContextView|
                {
                    &&& pre.buffer == match self.base_spec().buffer {
                        Some(b) => b,
                        None => (BufferView { chars: Seq::<char>::empty(), cursor: 0int }),
                    }
                    &&& pre.overlay is None
                    &&& #[trigger] session_run(pre, old(events).pending(), true, res->Ok_0)
                },
    {
        self.chain_read_line::<Dummy, Dummy, Dummy, T, E>(None, None, None, sink, events)
    }
}

impl ChainedLineReader for Prompt {
    open spec fn base_spec(&self) -> BaseOptions {
        BaseOptions {
            text: match self.text {
                Some(t) => Some(t@),
                None => None,
            },
            buffer: match self.buffer {
                Some(b) => Some(b@),
                None => None,
            },
            erase_after_read: self.erase_after_read,
        }
    }

    fn chain_read_line<O, C, S, T, E>(
        self,
        overrider: Option<&O>,
        completer: Option<&C>,
        suggester: Option<&S>,
        sink: T,
        events: &mut E,
    ) -> Result<Outcome, Error> where
        O: Overrider + ?Sized,
        C: Completer + ?Sized,
        S: Suggester + ?Sized,
        T: TerminalSink,
        E: EventSource,
    {
        let ghost pending0 = events.pending();
        let text = match &self.text {
            Some(t) => Some(t.as_str()),
            None => None,
        };
        let writer = Renderer::new(sink, self.erase_after_read, text);
        let res = read_line(self.buffer, overrider, completer, suggester, writer, events);
        proof {
            if res is Ok && overrider is None {
                let r = res->Ok_0;
                let pre = choose|pre: ContextView|
                    {
                        &&& pre.buffer == match self.buffer {
                            Some(b) => b@,
                            None => (BufferView { chars: Seq::<char>::empty(), cursor: 0int }),
                        }
                        &&& pre.overlay is None
                        &&& #[trigger] session_run(pre, pending0, false, r)
                    };
                lemma_session_run_weaken(pre, pending0, r);
            }
        }
        res
    }
}

impl Builder for Prompt {
    fn buffer(self, buffer: Buffer) -> Self {
        Prompt { text: self.text, buffer: Some(buffer), erase_after_read: self.erase_after_read }
    }

    fn erase_after_read(self, erase_after_read: bool) -> Self {
        Prompt { text: self.text, buffer: self.buffer, erase_after_read }
    }
}

impl<O2: Overrider, B: Builder> ChainedLineReader for WithOverrider<O2, B> {
    closed spec fn base_spec(&self) -> BaseOptions {
        self.base.base_spec()
    }

    fn chain_read_line<O, C, S, T, E>(
        self,
        overrider: Option<&O>,
        completer: Option<&C>,
        suggester: Option<&S>,
        sink: T,
        events: &mut E,
    ) -> Result<Outcome, Error> where
        O: Overrider + ?Sized,
        C: Completer + ?Sized,
        S: Suggester + ?Sized,
        T: TerminalSink,
        E: EventSource,
    {
        match overrider {
            Some(_) => self.base.chain_read_line(overrider, completer, suggester, sink, events),
            None => self.base.chain_read_line(
                Some(&self.overrider),
                completer,
                suggester,
                sink,
                events,
            ),
        }
    }
}

impl<O2: Overrider, B: Builder> Builder for WithOverrider<O2, B> {
    fn buffer(self, buffer: Buffer) -> Self {
        WithOverrider { base: self.base.buffer(buffer), overrider: self.overrider }
    }

    fn erase_after_read(self, erase_after_read: bool) -> Self {
        WithOverrider { base: self.base.erase_after_read(erase_after_read), overrider: self.overrider }
    }
}

impl<C2: Completer, B: Builder> ChainedLineReader for WithCompleter<C2, B> {
    closed spec fn base_spec(&self) -> BaseOptions {
        self.base.base_spec()
    }

    fn chain_read_line<O, C, S, T, E>(
        self,
        overrider: Option<&O>,
        completer: Option<&C>,
        suggester: Option<&S>,
        sink: T,
        events: &mut E,
    ) -> Result<Outcome, Error> where
        O: Overrider + ?Sized,
        C: Completer + ?Sized,
        S: Suggester + ?Sized,
        T: TerminalSink,
        E: EventSource,
    {
        match completer {
            Some(_) => self.base.chain_read_line(overrider, completer, suggester, sink, events),
            None => self.base.chain_read_line(
                overrider,
                Some(&self.completer),
                suggester,
                sink,
                events,
            ),
        }
    }
}

impl<C2: Completer, B: Builder> Builder for WithCompleter<C2, B> {
    fn buffer(self, buffer: Buffer) -> Self {
        WithCompleter { base: self.base.buffer(buffer), completer: self.completer }
    }

    fn erase_after_read(self, erase_after_read: bool) -> Self {
        WithCompleter { base: self.base.erase_after_read(erase_after_read), completer: self.completer }
    }
}

impl<S2: Suggester, B: Builder> ChainedLineReader for WithSuggester<S2, B> {
    closed spec fn base_spec(&self) -> BaseOptions {
        self.base.base_spec()
    }

    fn chain_read_line<O, C, S, T, E>(
        self,
        overrider: Option<&O>,
        completer: Option<&C>,
        suggester: Option<&S>,
        sink: T,
        events: &mut E,
    ) -> Result<Outcome, Error> where
        O: Overrider + ?Sized,
        C: Completer + ?Sized,
        S: Suggester + ?Sized,
        T: TerminalSink,
        E: EventSource,
    {
        match suggester {
            Some(_) => self.base.chain_read_line(overrider, completer, suggester, sink, events),
            None => self.base.chain_read_line(
                overrider,
                completer,
                Some(&self.suggester),
                sink,
                events,
            ),
        }
    }
}

impl<S2: Suggester, B: Builder> Builder for WithSuggester<S2, B> {
    fn buffer(self, buffer: Buffer) -> Self {
        WithSuggester { base: self.base.buffer(buffer), suggester: self.suggester }
    }

    fn erase_after_read(self, erase_after_read: bool) -> Self {
        WithSuggester { base: self.base.erase_after_read(erase_after_read), suggester: self.suggester }
    }
}

impl<'o, O2: Overrider + ?Sized, B: Builder> ChainedLineReader for WithRefOverrider<'o, O2, B> {
    closed spec fn base_spec(&self) -> BaseOptions {
        self.base.base_spec()
    }

    fn chain_read_line<O, C, S, T, E>(
        self,
        overrider: Option<&O>,
        completer: Option<&C>,
        suggester: Option<&S>,
        sink: T,
        events: &mut E,
    ) -> Result<Outcome, Error> where
        O: Overrider + ?Sized,
        C: Completer + ?Sized,
        S: Suggester + ?Sized,
        T: TerminalSink,
        E: EventSource,
    {
        match overrider {
            Some(_) => self.base.chain_read_line(overrider, completer, suggester, sink, events),
            None => self.base.chain_read_line(
                Some(self.overrider),
                completer,
                suggester,
                sink,
                events,
            ),
        }
    }
}

impl<'o, O2: Overrider + ?Sized, B: Builder> Builder for WithRefOverrider<'o, O2, B> {
    fn buffer(self, buffer: Buffer) -> Self {
        WithRefOverrider { base: self.base.buffer(buffer), overrider: self.overrider }
    }

    fn erase_after_read(self, erase_after_read: bool) -> Self {
        WithRefOverrider {
            base: self.base.erase_after_read(erase_after_read),
            overrider: self.overrider,
        }
    }
}

impl<'c, C2: Completer + ?Sized, B: Builder> ChainedLineReader for WithRefCompleter<'c, C2, B> {
    closed spec fn base_spec(&self) -> BaseOptions {
        self.base.base_spec()
    }

    fn chain_read_line<O, C, S, T, E>(
        self,
        overrider: Option<&O>,
        completer: Option<&C>,
        suggester: Option<&S>,
        sink: T,
        events: &mut E,
    ) -> Result<Outcome, Error> where
        O: Overrider + ?Sized,
        C: Completer + ?Sized,
        S: Suggester + ?Sized,
        T: TerminalSink,
        E: EventSource,
    {
        match completer {
            Some(_) => self.base.chain_read_line(overrider, completer, suggester, sink, events),
            None => self.base.chain_read_line(
                overrider,
                Some(self.completer),
                suggester,
                sink,
                events,
            ),
        }
    }
}

impl<'c, C2: Completer + ?Sized, B: Builder> Builder for WithRefCompleter<'c, C2, B> {
    fn buffer(self, buffer: Buffer) -> Self {
        WithRefCompleter { base: self.base.buffer(buffer), completer: self.completer }
    }

    fn erase_after_read(self, erase_after_read: bool) -> Self {
        WithRefCompleter {
            base: self.base.erase_after_read(erase_after_read),
            completer: self.completer,
        }
    }
}

impl<'s, S2: Suggester + ?Sized, B: Builder> ChainedLineReader for WithRefSuggester<'s, S2, B> {
    closed spec fn base_spec(&self) -> BaseOptions {
        self.base.base_spec()
    }

    fn chain_read_line<O, C, S, T, E>(
        self,
        overrider: Option<&O>,
        completer: Option<&C>,
        suggester: Option<&S>,
        sink: T,
        events: &mut E,
    ) -> Result<Outcome, Error> where
        O: Overrider + ?Sized,
        C: Completer + ?Sized,
        S: Suggester + ?Sized,
        T: TerminalSink,
        E: EventSource,
    {
        match suggester {
            Some(_) => self.base.chain_read_line(overrider, completer, suggester, sink, events),
            None => self.base.chain_read_line(
                overrider,
                completer,
                Some(self.suggester),
                sink,
                events,
            ),
        }
    }
}

impl<'s, S2: Suggester + ?Sized, B: Builder> Builder for WithRefSuggester<'s, S2, B> {
    fn buffer(self, buffer: Buffer) -> Self {
        WithRefSuggester { base: self.base.buffer(buffer), suggester: self.suggester }
    }

    fn erase_after_read(self, erase_after_read: bool) -> Self {
        WithRefSuggester {
            base: self.base.erase_after_read(erase_after_read),
            suggester: self.suggester,
        }
    }
}


} // verus!
