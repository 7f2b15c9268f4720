use vstd::prelude::*;

verus! {

use vstd::utf8::{encode_utf8, decode_utf8, is_char_boundary};
use vstd::string::{StringSliceAdditionalSpecFns, StringExecFns};
use crate::buffer::{Buffer, BufferView};

broadcast use vstd::utf8::group_utf8_lib;

/// An opaque failure reported by the terminal sink or the event source.
#[derive(Debug)]
pub struct Error {
    message: String,
}

impl Error {
    /// An error carrying the given description.
    pub fn new(message: String) -> (e: Error)
        ensures
            e@ == message@,
    {
        Error { message }
    }

    /// The description of the failure.
    pub fn message(&self) -> (r: &str)
        ensures
            r@ == self@,
    {
        self.message.as_str()
    }
}

impl View for Error {
    type V = Seq<char>;

    closed spec fn view(&self) -> Seq<char> {
        self.message@
    }
}

/// How a run of text is to be shown.
#[derive(Clone, Copy, PartialEq, Eq, Debug, Structural)]
pub enum Style {
    /// The terminal's ordinary style.
    Plain,
    /// A dimmed color, used for the inline completion preview.
    Dim,
    /// Bold, used for the selected suggestion.
    Bold,
}

/// The terminal operations the renderer relies on; implement this over the
/// actual terminal.
pub trait TerminalSink {
    /// Puts the terminal into raw mode.
    fn enable_raw(&mut self) -> Result<(), Error>;

    /// Restores the terminal from raw mode.
    fn disable_raw(&mut self) -> Result<(), Error>;

    /// Moves the cursor `n` columns to the left.
    fn move_left(&mut self, n: u16) -> Result<(), Error>;

    /// Moves the cursor `n` columns to the right.
    fn move_right(&mut self, n: u16) -> Result<(), Error>;

    /// Moves the cursor `n` lines up.
    fn move_up(&mut self, n: u16) -> Result<(), Error>;

    /// Moves the cursor to the given column of the current line.
    fn move_to_column(&mut self, column: u16) -> Result<(), Error>;

    /// The current cursor position, as a column and a row.
    fn position(&mut self) -> Result<(u16, u16), Error>;

    /// Clears the screen from the cursor to the bottom.
    fn clear_from_cursor_down(&mut self) -> Result<(), Error>;

    /// Prints a run of text in the ordinary style.
    fn print(&mut self, text: &str) -> Result<(), Error>;

    /// Prints a run of text in the given style.
    fn print_styled(&mut self, text: &str, style: Style) -> Result<(), Error>;

    /// Flushes any queued output.
    fn flush(&mut self) -> Result<(), Error>;
}

/// Presents the state of the line reader on a display; implemented by the
/// [`Renderer`] and by whatever stands in for it.
pub trait Writer {
    /// Shows the prompt, leaving the cursor ready for user input.
    fn begin(&mut self) -> Result<(), Error>;

    /// Shows the user input, followed by the completion, if any.
    fn print(&mut self, buffer: &Buffer, completion: Option<&str>) -> Result<(), Error>;

    /// Shows the list of suggestions, with the selected one highlighted and
    /// standing in for the user input.
    fn print_suggestions(&mut self, selected_index: usize, suggestions: &[String]) -> Result<
        (),
        Error,
    >;

    /// Takes the display down: either erases the prompt and the input, or
    /// moves past them so following output starts cleanly.
    fn finish(&mut self) -> Result<(), Error>;
}

/// The number of extended grapheme clusters in a text.
pub uninterp spec fn grapheme_tally(s: Seq<char>) -> usize;

/// Relies on unicode_segmentation::UnicodeSegmentation::graphemes: the number
/// of extended grapheme clusters of the text, which depends on the text alone.
#[verifier::external_body]
fn count_graphemes(string: &str) -> (r: usize)
    ensures
        r == grapheme_tally(string@),
{
    unicode_segmentation::UnicodeSegmentation::graphemes(string, true).count()
}

/// Moves the cursor left by `amount` columns, issued in chunks no larger than
/// what a single terminal move can express.
fn rewind_cursor<T: TerminalSink>(sink: &mut T, amount: usize) -> Result<(), Error> {
    if amount == 0 {
        return Ok(());
    }
    let chunk = u16::MAX as usize;
    let mut remaining = amount;
    while remaining > chunk
        invariant
            chunk == u16::MAX as usize,
        decreases remaining,
    {
        match sink.move_left(u16::MAX) {
            Ok(()) => {},
            Err(e) => {
                return Err(e);
            },
        }
        remaining = remaining - chunk;
    }
    sink.move_left(remaining as u16)
}

/// Moves the cursor right by `amount` columns, issued in chunks no larger than
/// what a single terminal move can express.
fn fast_forward_cursor<T: TerminalSink>(sink: &mut T, amount: usize) -> Result<(), Error> {
    if amount == 0 {
        return Ok(());
    }
    let chunk = u16::MAX as usize;
    let mut remaining = amount;
    while remaining > chunk
        invariant
            chunk == u16::MAX as usize,
        decreases remaining,
    {
        match sink.move_right(u16::MAX) {
            Ok(()) => {},
            Err(e) => {
                return Err(e);
            },
        }
        remaining = remaining - chunk;
    }
    sink.move_right(remaining as u16)
}

/// The characters the completion argument shows, if any.
pub open spec fn completion_chars(completion: Option<&str>) -> Seq<char> {
    match completion {
        Some(c) => c@,
        None => Seq::<char>::empty(),
    }
}

/// The characters of the buffer from the cursor to its end.
pub open spec fn cursor_tail_chars(v: BufferView) -> Seq<char> {
    decode_utf8(v.bytes().subrange(v.cursor, v.len()))
}


/// The cursor of a well-formed buffer lies within its text.
proof fn navigation_boundary_note(v: BufferView)
    requires
        v.wf(),
    ensures
        0 <= v.cursor <= v.len(),
{
    crate::navigation::lemma_boundary_in_range(v.bytes(), v.cursor);
}

/// Reconciles the line reader's state against the terminal, keeping just
/// enough accounting to erase what it drew last: the grapheme tally of the
/// content shown, and the grapheme distance from the cursor to its end.
pub struct Renderer<T> {
    sink: T,
    prompt: Option<String>,
    prompt_length: usize,
    erase_after_read: bool,
    printed_length: usize,
    cursor_offset: usize,
}

impl<T: TerminalSink> Renderer<T> {
    /// The grapheme tally of the content most recently drawn.
    pub closed spec fn spec_printed_length(&self) -> int {
        self.printed_length as int
    }

    /// The grapheme distance from the cursor to the end of the drawn content.
    pub closed spec fn spec_cursor_offset(&self) -> int {
        self.cursor_offset as int
    }

    /// The prompt text shown before the input area.
    pub closed spec fn spec_prompt(&self) -> Option<Seq<char>> {
        match self.prompt {
            Some(p) => Some(p@),
            None => None,
        }
    }

    /// A renderer over the given sink, with nothing drawn yet.
    pub fn new(sink: T, erase_after_read: bool, prompt: Option<&str>) -> (r: Renderer<T>)
        ensures
            r.spec_printed_length() == 0,
            r.spec_cursor_offset() == 0,
            r.spec_prompt() == match prompt {
                Some(p) => Some(p@),
                None => None::<Seq<char>>,
            },
    {
        let (owned, prompt_length): (Option<String>, usize) = match prompt {
            Some(p) => (Some(String::from_str(p)), count_graphemes(p)),
            None => (None, 0),
        };
        Renderer {
            sink,
            prompt: owned,
            prompt_length,
            erase_after_read,
            printed_length: 0,
            cursor_offset: 0,
        }
    }

    /// The grapheme tally of the content most recently drawn.
    pub fn printed_length(&self) -> (r: usize)
        ensures
            r as int == self.spec_printed_length(),
    {
        self.printed_length
    }

    /// The grapheme distance from the cursor to the end of the drawn content.
    pub fn cursor_offset(&self) -> (r: usize)
        ensures
            r as int == self.spec_cursor_offset(),
    {
        self.cursor_offset
    }

    fn rewind_to_start(&mut self) -> (res: Result<(), Error>)
        ensures
            final(self).spec_printed_length() == old(self).spec_printed_length(),
            final(self).spec_cursor_offset() == old(self).spec_cursor_offset(),
            final(self).spec_prompt() == old(self).spec_prompt(),
    {
        let back = if self.cursor_offset <= self.printed_length {
            self.printed_length - self.cursor_offset
        } else {
            0
        };
        rewind_cursor(&mut self.sink, back)
    }

    /// Redraws the buffer and the optional completion preview, updating the
    /// accounting: afterwards, the printed length is the grapheme tally of the
    /// text together with the completion, and the cursor offset is the
    /// grapheme tally of what lies from the cursor to the end of that content.
    pub fn print_line(&mut self, buffer: &Buffer, completion: Option<&str>) -> (res: Result<
        (),
        Error,
    >)
        ensures
            res is Ok ==> final(self).spec_printed_length() == grapheme_tally(
                buffer@.chars + completion_chars(completion),
            ),
            res is Ok ==> final(self).spec_cursor_offset() == grapheme_tally(
                cursor_tail_chars(buffer@) + completion_chars(completion),
            ),
            final(self).spec_prompt() == old(self).spec_prompt(),
    {
        proof {
            use_type_invariant(buffer);
            navigation_boundary_note(buffer@);
        }
        match self.rewind_to_start() {
            Ok(()) => {},
            Err(e) => {
                return Err(e);
            },
        }
        match self.sink.clear_from_cursor_down() {
            Ok(()) => {},
            Err(e) => {
                return Err(e);
            },
        }
        match self.sink.print(buffer.as_str()) {
            Ok(()) => {},
            Err(e) => {
                return Err(e);
            },
        }
        let mut shown = String::from_str(buffer.as_str());
        let (_, tail) = buffer.as_str().split_at(buffer.cursor());
        let mut shown_tail = String::from_str(tail);
        proof {
            vstd::utf8::decode_utf8_encode_utf8(tail.spec_bytes());
        }
        match completion {
            Some(comp) => {
                match self.sink.print_styled(comp, Style::Dim) {
                    Ok(()) => {},
                    Err(e) => {
                        return Err(e);
                    },
                }
                let comp_len = count_graphemes(comp);
                match rewind_cursor(&mut self.sink, comp_len) {
                    Ok(()) => {},
                    Err(e) => {
                        return Err(e);
                    },
                }
                shown.append(comp);
                shown_tail.append(comp);
            },
            None => {},
        }
        let suffix_len = count_graphemes(tail);
        match rewind_cursor(&mut self.sink, suffix_len) {
            Ok(()) => {},
            Err(e) => {
                return Err(e);
            },
        }
        let printed_length = count_graphemes(shown.as_str());
        let cursor_offset = count_graphemes(shown_tail.as_str());
        proof {
            assert(shown@ =~= buffer@.chars + completion_chars(completion));
            assert(shown_tail@ =~= cursor_tail_chars(buffer@) + completion_chars(completion));
        }
        self.printed_length = printed_length;
        self.cursor_offset = cursor_offset;
        self.sink.flush()
    }

    /// Draws the selected suggestion in place of the buffer and the list of
    /// options below it; afterwards the accounting covers the selected option,
    /// with the cursor at its end. Out-of-range selections draw nothing.
    pub fn print_suggestion_panel(
        &mut self,
        selected_index: usize,
        suggestions: &[String],
    ) -> (res: Result<(), Error>)
        ensures
            res is Ok && selected_index < suggestions@.len() ==> final(self).spec_printed_length()
                == grapheme_tally(suggestions@[selected_index as int]@),
            res is Ok && selected_index < suggestions@.len() ==> final(self).spec_cursor_offset()
                == 0,
            selected_index >= suggestions@.len() ==> final(self).spec_printed_length() == old(
                self,
            ).spec_printed_length() && final(self).spec_cursor_offset() == old(
                self,
            ).spec_cursor_offset(),
    {
        if selected_index >= suggestions.len() {
            return Ok(());
        }
        match self.rewind_to_start() {
            Ok(()) => {},
            Err(e) => {
                return Err(e);
            },
        }
        match self.sink.clear_from_cursor_down() {
            Ok(()) => {},
            Err(e) => {
                return Err(e);
            },
        }
        let shown = &suggestions[selected_index];
        match self.sink.print(shown.as_str()) {
            Ok(()) => {},
            Err(e) => {
                return Err(e);
            },
        }
        self.printed_length = count_graphemes(shown.as_str());
        self.cursor_offset = 0;
        let end_column = match self.sink.position() {
            Ok((column, _)) => column,
            Err(e) => {
                return Err(e);
            },
        };
        let ghost shown_tally = grapheme_tally(suggestions@[selected_index as int]@);
        let mut i: usize = 0;
        while i < suggestions.len()
            invariant
                0 <= i <= suggestions@.len(),
                selected_index < suggestions@.len(),
                self.printed_length == shown_tally,
                self.cursor_offset == 0,
            decreases suggestions@.len() - i,
        {
            let option = &suggestions[i];
            let outcome = if i == selected_index {
                self.sink.print_styled("\n", Style::Plain)
            } else {
                self.sink.print("\n")
            };
            match outcome {
                Ok(()) => {},
                Err(e) => {
                    return Err(e);
                },
            }
            match self.sink.move_to_column(0) {
                Ok(()) => {},
                Err(e) => {
                    return Err(e);
                },
            }
            let styled = if i == selected_index {
                self.sink.print_styled(option.as_str(), Style::Bold)
            } else {
                self.sink.print(option.as_str())
            };
            match styled {
                Ok(()) => {},
                Err(e) => {
                    return Err(e);
                },
            }
            i = i + 1;
        }
        let mut j: usize = suggestions.len();
        while j > 0
            invariant
                0 <= j <= suggestions@.len(),
                selected_index < suggestions@.len(),
                self.printed_length == shown_tally,
                self.cursor_offset == 0,
            decreases j,
        {
            let option = &suggestions[j - 1];
            let width = count_graphemes(option.as_str());
            match rewind_cursor(&mut self.sink, width) {
                Ok(()) => {},
                Err(e) => {
                    return Err(e);
                },
            }
            match self.sink.move_up(1) {
                Ok(()) => {},
                Err(e) => {
                    return Err(e);
                },
            }
            j = j - 1;
        }
        match self.sink.move_to_column(end_column) {
            Ok(()) => {},
            Err(e) => {
                return Err(e);
            },
        }
        self.sink.flush()
    }

    /// Puts the terminal into raw mode and shows the prompt; the accounting
    /// and the prompt are untouched.
    pub fn start(&mut self) -> (res: Result<(), Error>)
        ensures
            final(self).spec_printed_length() == old(self).spec_printed_length(),
            final(self).spec_cursor_offset() == old(self).spec_cursor_offset(),
            final(self).spec_prompt() == old(self).spec_prompt(),
    {
        match self.sink.enable_raw() {
            Ok(()) => {},
            Err(e) => {
                return Err(e);
            },
        }
        match &self.prompt {
            Some(p) => {
                match self.sink.print(p.as_str()) {
                    Ok(()) => {},
                    Err(e) => {
                        return Err(e);
                    },
                }
            },
            None => {},
        }
        self.sink.flush()
    }

    /// Restores the terminal: leaves raw mode, then either erases the prompt
    /// and everything drawn, or moves past the drawn content and starts a
    /// fresh line; the accounting and the prompt are untouched.
    pub fn teardown(&mut self) -> (res: Result<(), Error>)
        ensures
            final(self).spec_printed_length() == old(self).spec_printed_length(),
            final(self).spec_cursor_offset() == old(self).spec_cursor_offset(),
            final(self).spec_prompt() == old(self).spec_prompt(),
    {
        match self.sink.disable_raw() {
            Ok(()) => {},
            Err(e) => {
                return Err(e);
            },
        }
        if self.erase_after_read {
            let back = if self.cursor_offset <= self.printed_length {
                self.printed_length - self.cursor_offset
            } else {
                0
            };
            match rewind_cursor(&mut self.sink, back) {
                Ok(()) => {},
                Err(e) => {
                    return Err(e);
                },
            }
            match rewind_cursor(&mut self.sink, self.prompt_length) {
                Ok(()) => {},
                Err(e) => {
                    return Err(e);
                },
            }
            match self.sink.clear_from_cursor_down() {
                Ok(()) => {},
                Err(e) => {
                    return Err(e);
                },
            }
        } else {
            match fast_forward_cursor(&mut self.sink, self.cursor_offset) {
                Ok(()) => {},
                Err(e) => {
                    return Err(e);
                },
            }
            match self.sink.clear_from_cursor_down() {
                Ok(()) => {},
                Err(e) => {
                    return Err(e);
                },
            }
            match self.sink.print("\n") {
                Ok(()) => {},
                Err(e) => {
                    return Err(e);
                },
            }
            match self.sink.move_to_column(0) {
                Ok(()) => {},
                Err(e) => {
                    return Err(e);
                },
            }
        }
        self.sink.flush()
    }
}

impl<T: TerminalSink> Writer for Renderer<T> {
    fn begin(&mut self) -> Result<(), Error> {
        self.start()
    }

    fn print(&mut self, buffer: &Buffer, completion: Option<&str>) -> Result<(), Error> {
        self.print_line(buffer, completion)
    }

    fn print_suggestions(&mut self, selected_index: usize, suggestions: &[String]) -> Result<
        (),
        Error,
    > {
        self.print_suggestion_panel(selected_index, suggestions)
    }

    fn finish(&mut self) -> Result<(), Error> {
        self.teardown()
    }
}

} // verus!
