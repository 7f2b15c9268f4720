use vstd::prelude::*;

verus! {

use vstd::utf8::{
    encode_utf8, decode_utf8, is_char_boundary, valid_utf8, encode_scalar, valid_first_scalar,
    is_continuation_byte,
};
use vstd::string::{StringSliceAdditionalSpecFns, StringExecFns, StrSliceExecFns};
use crate::actions::{Direction, Range, Scope};
use crate::navigation;

broadcast use vstd::utf8::group_utf8_lib;

/// Relies on String::push: appends the given character to the end of the string.
pub assume_specification[ String::push ](s: &mut String, c: char)
    ensures
        final(s)@ == old(s)@.push(c),
;

/// The error returned when a requested cursor position does not fall on a
/// Unicode scalar boundary of the text.
#[derive(Clone, Copy, PartialEq, Eq, Debug, Structural)]
pub struct InvalidIndex;

/// The mathematical content of a [`Buffer`]: its characters and the byte
/// offset of its cursor within their UTF-8 encoding.
pub struct BufferView {
    pub chars: Seq<char>,
    pub cursor: int,
}

impl BufferView {
    /// The UTF-8 encoding of the text.
    pub open spec fn bytes(self) -> Seq<u8> {
        encode_utf8(self.chars)
    }

    /// The byte length of the text.
    pub open spec fn len(self) -> int {
        self.bytes().len() as int
    }

    /// The buffer invariants: the cursor lies within the text, on a Unicode
    /// scalar boundary.
    pub open spec fn wf(self) -> bool {
        is_char_boundary(self.bytes(), self.cursor)
    }
}

/// An owned line of text that also keeps track of its cursor position.
///
/// The cursor is a byte offset into the UTF-8 encoding of the text and always
/// lies on a Unicode scalar boundary.
#[derive(Debug)]
pub struct Buffer {
    string: String,
    cursor: usize,
}

impl View for Buffer {
    type V = BufferView;

    closed spec fn view(&self) -> BufferView {
        BufferView { chars: self.string@, cursor: self.cursor as int }
    }
}

/// A non-empty valid UTF-8 sequence starts with a leading byte.
proof fn lemma_first_not_continuation(s: Seq<u8>)
    requires
        valid_utf8(s),
        s.len() > 0,
    ensures
        !is_continuation_byte(s[0]),
{
    assert(valid_first_scalar(s));
}

/// Concatenating valid UTF-8 sequences yields a valid sequence with a scalar
/// boundary at the join.
pub proof fn lemma_boundary_at_join(p: Seq<u8>, s: Seq<u8>)
    requires
        valid_utf8(p),
        valid_utf8(s),
    ensures
        valid_utf8(p + s),
        is_char_boundary(p + s, p.len() as int),
{
    if s.len() == 0 {
        assert(p + s =~= p);
    } else {
        lemma_first_not_continuation(s);
        assert((p + s)[p.len() as int] == s[0]);
    }
}

/// The bytes of a buffer after inserting `ins` at the cursor, and the cursor
/// moved past the insertion.
pub open spec fn insert_bytes(v: BufferView, ins: Seq<u8>) -> BufferView {
    let b = v.bytes();
    BufferView {
        chars: decode_utf8(b.subrange(0, v.cursor) + ins + b.subrange(v.cursor, b.len() as int)),
        cursor: v.cursor + ins.len(),
    }
}

/// The buffer after writing one character at the cursor.
pub open spec fn write_spec(v: BufferView, c: char) -> BufferView {
    insert_bytes(v, encode_scalar(c as u32))
}

/// The buffer after writing a string at the cursor.
pub open spec fn write_str_spec(v: BufferView, s: Seq<char>) -> BufferView {
    insert_bytes(v, encode_utf8(s))
}

/// The buffer after removing the bytes in `[start, end)`, with the cursor
/// placed at `cur`.
pub open spec fn remove_bytes(v: BufferView, start: int, end: int, cur: int) -> BufferView {
    let b = v.bytes();
    BufferView {
        chars: decode_utf8(b.subrange(0, start) + b.subrange(end, b.len() as int)),
        cursor: cur,
    }
}

impl Buffer {
    /// The invariant every reachable buffer satisfies: its view is
    /// well-formed, so the cursor lies within the text on a scalar boundary.
    #[verifier::type_invariant]
    pub open spec fn type_inv(self) -> bool {
        self@.wf()
    }

    /// An empty buffer with the cursor at the start.
    pub fn new() -> (b: Buffer)
        ensures
            b@.chars == Seq::<char>::empty(),
            b@.cursor == 0,
    {
        Buffer { string: String::new(), cursor: 0 }
    }

    /// A buffer holding `string`, with the cursor at its end.
    pub fn from_str(string: &str) -> (b: Buffer)
        ensures
            b@.chars == string@,
            b@.cursor == string.spec_bytes().len(),
    {
        let cursor = string.as_bytes().len();
        Buffer { string: String::from_str(string), cursor }
    }

    /// The text of the buffer.
    pub fn as_str(&self) -> (r: &str)
        ensures
            r@ == self@.chars,
    {
        self.string.as_str()
    }

    /// The byte length of the text.
    pub fn len(&self) -> (r: usize)
        ensures
            r as int == self@.len(),
    {
        self.string.as_str().as_bytes().len()
    }

    /// Whether the buffer holds no text.
    pub fn is_empty(&self) -> (r: bool)
        ensures
            r == (self@.chars.len() == 0),
    {
        self.string.as_str().is_empty()
    }

    /// The byte offset of the cursor.
    pub fn cursor(&self) -> (r: usize)
        ensures
            r as int == self@.cursor,
    {
        self.cursor
    }

    /// Places the cursor at `cursor`, unless that offset falls inside the
    /// encoding of a character, in which case nothing changes.
    pub fn set_cursor(&mut self, cursor: usize) -> (res: Result<(), InvalidIndex>)
        ensures
            final(self)@.chars == old(self)@.chars,
            res is Ok <==> is_char_boundary(old(self)@.bytes(), cursor as int),
            res is Ok ==> final(self)@.cursor == cursor,
            res is Err ==> final(self)@.cursor == old(self)@.cursor,
    {
        proof {
            use_type_invariant(&*self);
        }
        if self.string.as_str().is_char_boundary(cursor) {
            self.cursor = cursor;
            Ok(())
        } else {
            Err(InvalidIndex)
        }
    }

    /// A buffer holding `string` with the cursor at `cursor`, unless that
    /// offset falls inside the encoding of a character.
    pub fn new_with_cursor(string: &str, cursor: usize) -> (res: Result<Buffer, InvalidIndex>)
        ensures
            res is Ok <==> is_char_boundary(string.spec_bytes(), cursor as int),
            res is Ok ==> res->Ok_0@.chars == string@ && res->Ok_0@.cursor == cursor,
    {
        let mut buffer = Buffer::from_str(string);
        match buffer.set_cursor(cursor) {
            Ok(()) => Ok(buffer),
            Err(e) => Err(e),
        }
    }

    /// Puts the cursor at the end of the text.
    pub fn go_to_end(&mut self)
        ensures
            final(self)@.chars == old(self)@.chars,
            final(self)@.cursor == old(self)@.len(),
    {
        proof {
            use_type_invariant(&*self);
        }
        self.cursor = self.string.as_str().as_bytes().len();
    }

    /// Empties the text and returns the cursor to the start.
    pub fn clear(&mut self)
        ensures
            final(self)@.chars == Seq::<char>::empty(),
            final(self)@.cursor == 0,
    {
        *self = Buffer { string: String::new(), cursor: 0 };
    }

    /// Inserts the character at the cursor and advances the cursor past it.
    pub fn write(&mut self, c: char)
        ensures
            final(self)@ == write_spec(old(self)@, c),
    {
        proof {
            use_type_invariant(&*self);
        }
        let ghost v = self@;
        let (a, b) = self.string.as_str().split_at(self.cursor);
        let mut t = String::from_str(a);
        t.push(c);
        let new_cursor = t.as_str().as_bytes().len();
        t.append(b);
        proof {
            lemma_insert_glue(v, a@, seq![c], b@);
            assert(seq![c].drop_first() =~= Seq::<char>::empty());
            assert(encode_utf8(Seq::<char>::empty()) =~= Seq::<u8>::empty());
            assert(encode_utf8(seq![c]) =~= encode_scalar(c as u32));
            assert(a@.push(c) =~= a@ + seq![c]);
            assert(a@.push(c) + b@ =~= a@ + seq![c] + b@);
        }
        *self = Buffer { string: t, cursor: new_cursor };
    }

    /// Inserts the string at the cursor and advances the cursor past it.
    pub fn write_str(&mut self, string: &str)
        ensures
            final(self)@ == write_str_spec(old(self)@, string@),
    {
        proof {
            use_type_invariant(&*self);
        }
        let ghost v = self@;
        let (a, b) = self.string.as_str().split_at(self.cursor);
        let mut t = String::from_str(a);
        t.append(string);
        let new_cursor = t.as_str().as_bytes().len();
        t.append(b);
        proof {
            lemma_insert_glue(v, a@, string@, b@);
        }
        *self = Buffer { string: t, cursor: new_cursor };
    }
}

/// How the pieces of an insertion at the cursor fit back together: the new
/// character sequence is what `insert_bytes` describes, its encoding splits
/// around the insertion, and the new cursor lands on a scalar boundary.
proof fn lemma_insert_glue(v: BufferView, a: Seq<char>, mid: Seq<char>, b: Seq<char>)
    requires
        v.wf(),
        encode_utf8(a) == v.bytes().subrange(0, v.cursor),
        encode_utf8(b) == v.bytes().subrange(v.cursor, v.len()),
    ensures
        ({
            let ins = encode_utf8(mid);
            let w = insert_bytes(v, ins);
            &&& w.chars == a + mid + b
            &&& encode_utf8(a + mid) == encode_utf8(a) + ins
            &&& encode_utf8(a + mid + b) == encode_utf8(a) + ins + encode_utf8(b)
            &&& w.cursor == v.cursor + ins.len()
            &&& w.wf()
        }),
{
    let ins = encode_utf8(mid);
    let w = insert_bytes(v, ins);
    lemma_encode_concat(a, mid);
    lemma_encode_concat(a + mid, b);
    assert((a + mid) + b =~= a + mid + b);
    let nb = encode_utf8(a) + ins + encode_utf8(b);
    assert(encode_utf8(a + mid + b) == nb);
    assert(valid_utf8(nb));
    assert(w.chars == decode_utf8(nb));
    assert(decode_utf8(encode_utf8(a + mid + b)) == a + mid + b);
    assert(w.chars == a + mid + b);
    assert(w.bytes() == nb);
    lemma_boundary_at_join(encode_utf8(a) + ins, encode_utf8(b));
    assert((encode_utf8(a) + ins) + encode_utf8(b) =~= nb);
    navigation::lemma_boundary_in_range(v.bytes(), v.cursor);
    assert(encode_utf8(a).len() == v.cursor);
    assert(is_char_boundary(nb, v.cursor + ins.len()));
}

/// Encoding a concatenation encodes the parts in order.
pub proof fn lemma_encode_concat(s: Seq<char>, t: Seq<char>)
    ensures
        encode_utf8(s + t) == encode_utf8(s) + encode_utf8(t),
    decreases s.len(),
{
    if s.len() == 0 {
        assert(s + t =~= t);
        assert(encode_utf8(s) =~= Seq::<u8>::empty());
        assert(encode_utf8(s) + encode_utf8(t) =~= encode_utf8(t));
    } else {
        lemma_encode_concat(s.drop_first(), t);
        assert((s + t).drop_first() =~= s.drop_first() + t);
        assert(encode_utf8(s + t) == encode_scalar((s + t)[0] as u32) + encode_utf8(
            (s + t).drop_first(),
        ));
        assert((s + t)[0] == s[0]);
        assert(encode_scalar(s[0] as u32) + (encode_utf8(s.drop_first()) + encode_utf8(t))
            =~= (encode_scalar(s[0] as u32) + encode_utf8(s.drop_first())) + encode_utf8(t));
    }
}


/// A boundary of the whole text is a boundary of a suffix cut at a boundary.
proof fn lemma_boundary_in_suffix(bytes: Seq<u8>, start: int, end: int)
    requires
        valid_utf8(bytes),
        is_char_boundary(bytes, start),
        is_char_boundary(bytes, end),
        start <= end,
    ensures
        is_char_boundary(bytes.subrange(start, bytes.len() as int), end - start),
{
    let suffix = bytes.subrange(start, bytes.len() as int);
    navigation::lemma_boundary_in_range(bytes, end);
    assert(valid_utf8(suffix));
    if end == bytes.len() {
        assert(end - start == suffix.len());
    } else {
        assert(!is_continuation_byte(bytes[end]));
        assert(suffix[end - start] == bytes[end]);
    }
}

/// The text with the bytes in `[start, end)` cut out, when both ends lie on
/// scalar boundaries.
fn spliced(string: &str, start: usize, end: usize) -> (t: String)
    requires
        is_char_boundary(string.spec_bytes(), start as int),
        is_char_boundary(string.spec_bytes(), end as int),
        start <= end,
    ensures
        ({
            let b = string.spec_bytes();
            let nb = b.subrange(0, start as int) + b.subrange(end as int, b.len() as int);
            &&& encode_utf8(t@) == nb
            &&& t@ == decode_utf8(nb)
        }),
{
    let ghost bytes = string.spec_bytes();
    proof {
        navigation::lemma_boundary_in_range(bytes, end as int);
        lemma_boundary_in_suffix(bytes, start as int, end as int);
    }
    let (a, rest) = string.split_at(start);
    let (_, b) = rest.split_at(end - start);
    let mut t = String::from_str(a);
    t.append(b);
    proof {
        lemma_encode_concat(a@, b@);
        assert(encode_utf8(b@) =~= bytes.subrange(end as int, bytes.len() as int));
        assert(encode_utf8(t@) =~= bytes.subrange(0, start as int) + bytes.subrange(
            end as int,
            bytes.len() as int,
        ));
    }
    t
}

/// Removing a byte range that lies between scalar boundaries keeps the buffer
/// invariants when the cursor moves to the left edge of the removed span.
pub proof fn lemma_remove_wf(v: BufferView, start: int, end: int)
    requires
        v.wf(),
        is_char_boundary(v.bytes(), start),
        is_char_boundary(v.bytes(), end),
        start <= end,
    ensures
        ({
            let w = remove_bytes(v, start, end, start);
            &&& w.bytes() == v.bytes().subrange(0, start) + v.bytes().subrange(
                end,
                v.bytes().len() as int,
            )
            &&& w.wf()
        }),
{
    let b = v.bytes();
    navigation::lemma_boundary_in_range(b, end);
    let pre = b.subrange(0, start);
    let suf = b.subrange(end, b.len() as int);
    assert(valid_utf8(pre));
    assert(valid_utf8(suf));
    lemma_boundary_at_join(pre, suf);
    let w = remove_bytes(v, start, end, start);
    assert(w.chars == decode_utf8(pre + suf));
    assert(encode_utf8(decode_utf8(pre + suf)) == pre + suf);
    assert(pre.len() == start);
}

/// Where a `WholeWord` delete reaches: from the end of the previous word to the
/// start of the next, keeping one white-space scalar at the outer side when the
/// cursor does not sit at the start of the text.
pub open spec fn whole_word_span(v: BufferView) -> (int, int) {
    let b = v.bytes();
    let start = navigation::previous_word_end_spec(v.chars, v.cursor);
    let end = navigation::next_word_spec(v.chars, v.cursor);
    if start > 0 {
        if navigation::whitespace(navigation::char_at(b, start)) {
            (navigation::next_scalar_spec(b, start), end)
        } else if end > 0 && navigation::whitespace(
            navigation::char_at(b, navigation::prev_scalar_spec(b, end)),
        ) {
            (start, navigation::prev_scalar_spec(b, end))
        } else {
            (start, end)
        }
    } else {
        (start, end)
    }
}

/// The buffer after deleting the given scope, per the deletion table: the span
/// is anchored at the cursor and the cursor moves to its left edge.
pub open spec fn delete_spec(v: BufferView, scope: Scope) -> BufferView {
    let b = v.bytes();
    match scope {
        Scope::Relative(Range::Single, Direction::Backward) => {
            if v.cursor == 0 {
                v
            } else {
                remove_bytes(v, navigation::prev_scalar_spec(b, v.cursor), v.cursor,
                    navigation::prev_scalar_spec(b, v.cursor))
            }
        },
        Scope::Relative(Range::Single, Direction::Forward) => {
            if v.cursor == v.len() {
                v
            } else {
                remove_bytes(v, v.cursor, navigation::next_scalar_spec(b, v.cursor), v.cursor)
            }
        },
        Scope::Relative(Range::Word, Direction::Backward) => {
            remove_bytes(v, navigation::previous_word_spec(v.chars, v.cursor), v.cursor,
                navigation::previous_word_spec(v.chars, v.cursor))
        },
        Scope::Relative(Range::Word, Direction::Forward) => {
            remove_bytes(v, v.cursor, navigation::next_word_spec(v.chars, v.cursor), v.cursor)
        },
        Scope::Relative(Range::Line, Direction::Backward) => remove_bytes(v, 0, v.cursor, 0),
        Scope::Relative(Range::Line, Direction::Forward) => remove_bytes(
            v,
            v.cursor,
            v.len(),
            v.cursor,
        ),
        Scope::WholeWord => {
            let (start, end) = whole_word_span(v);
            remove_bytes(v, start, end, start)
        },
        Scope::WholeLine => BufferView { chars: Seq::<char>::empty(), cursor: 0 },
    }
}

/// Where the cursor stands after moving by a range in a direction.
pub open spec fn move_spec(v: BufferView, range: Range, direction: Direction) -> BufferView {
    let b = v.bytes();
    let c = match (range, direction) {
        (Range::Single, Direction::Backward) => navigation::prev_scalar_spec(b, v.cursor),
        (Range::Single, Direction::Forward) => navigation::next_scalar_spec(b, v.cursor),
        (Range::Word, Direction::Backward) => navigation::previous_word_spec(v.chars, v.cursor),
        (Range::Word, Direction::Forward) => navigation::next_word_spec(v.chars, v.cursor),
        (Range::Line, Direction::Backward) => 0,
        (Range::Line, Direction::Forward) => v.len(),
    };
    BufferView { chars: v.chars, cursor: c }
}

/// The buffer after inserting the leading range of a string at the cursor: the
/// whole string for `Line`, its leading word for `Word`, its first character
/// for `Single`.
pub open spec fn write_range_spec(v: BufferView, s: Seq<char>, range: Range) -> BufferView {
    match range {
        Range::Line => write_str_spec(v, s),
        Range::Word => insert_bytes(
            v,
            encode_utf8(s).subrange(0, navigation::next_word_spec(s, 0)),
        ),
        Range::Single => if s.len() == 0 {
            v
        } else {
            write_spec(v, s[0])
        },
    }
}

impl Buffer {
    /// Inserts the leading range of `string` at the cursor and advances the
    /// cursor past it: the whole string for `Line`, up to the first word
    /// boundary for `Word`, the first character for `Single`.
    pub fn write_range(&mut self, string: &str, range: Range)
        ensures
            final(self)@ == write_range_spec(old(self)@, string@, range),
    {
        match range {
            Range::Line => {
                self.write_str(string);
            },
            Range::Word => {
                let index = navigation::next_word(0, string);
                let (prefix, _) = string.split_at(index);
                self.write_str(prefix);
            },
            Range::Single => {
                if !string.is_empty() {
                    let c = string.get_char(0);
                    self.write(c);
                }
            },
        }
    }

    /// Deletes the given scope from the text: the span is anchored at the
    /// cursor per the deletion table, and the cursor moves to its left edge.
    pub fn delete(&mut self, scope: Scope)
        ensures
            final(self)@ == delete_spec(old(self)@, scope),
    {
        proof {
            use_type_invariant(&*self);
        }
        let ghost v = self@;
        let ghost b = v.bytes();
        proof {
            navigation::lemma_boundary_in_range(b, v.cursor);
        }
        match scope {
            Scope::Relative(Range::Single, Direction::Backward) => {
                if self.cursor > 0 {
                    let start = navigation::previous_scalar_value(self.cursor, self.string.as_str());
                    let cursor = self.cursor;
                    let t = spliced(self.string.as_str(), start, cursor);
                    proof {
                        lemma_remove_wf(v, start as int, cursor as int);
                    }
                    *self = Buffer { string: t, cursor: start };
                }
            },
            Scope::Relative(Range::Single, Direction::Forward) => {
                if self.cursor < self.string.as_str().as_bytes().len() {
                    let end = navigation::next_scalar_value(self.cursor, self.string.as_str());
                    let cursor = self.cursor;
                    let t = spliced(self.string.as_str(), cursor, end);
                    proof {
                        lemma_remove_wf(v, cursor as int, end as int);
                    }
                    *self = Buffer { string: t, cursor };
                }
            },
            Scope::Relative(Range::Word, Direction::Backward) => {
                let start = navigation::previous_word(self.cursor, self.string.as_str());
                let cursor = self.cursor;
                let t = spliced(self.string.as_str(), start, cursor);
                proof {
                    lemma_remove_wf(v, start as int, cursor as int);
                }
                *self = Buffer { string: t, cursor: start };
            },
            Scope::Relative(Range::Word, Direction::Forward) => {
                let end = navigation::next_word(self.cursor, self.string.as_str());
                let cursor = self.cursor;
                let t = spliced(self.string.as_str(), cursor, end);
                proof {
                    lemma_remove_wf(v, cursor as int, end as int);
                }
                *self = Buffer { string: t, cursor };
            },
            Scope::Relative(Range::Line, Direction::Backward) => {
                let cursor = self.cursor;
                let t = spliced(self.string.as_str(), 0, cursor);
                proof {
                    lemma_remove_wf(v, 0, cursor as int);
                }
                *self = Buffer { string: t, cursor: 0 };
            },
            Scope::Relative(Range::Line, Direction::Forward) => {
                let cursor = self.cursor;
                let end = self.string.as_str().as_bytes().len();
                let t = spliced(self.string.as_str(), cursor, end);
                proof {
                    lemma_remove_wf(v, cursor as int, end as int);
                }
                *self = Buffer { string: t, cursor };
            },
            Scope::WholeWord => {
                let mut start = navigation::previous_word_end(self.cursor, self.string.as_str());
                let mut end = navigation::next_word(self.cursor, self.string.as_str());
                if start > 0 {
                    let (_, suffix) = self.string.as_str().split_at(start);
                    proof {
                        navigation::lemma_suffix_chars(b, suffix@, start as int);
                    }
                    let c = suffix.get_char(0);
                    if c.is_whitespace() {
                        start = navigation::next_scalar_value(start, self.string.as_str());
                    } else if end > 0 {
                        let p = navigation::previous_scalar_value(end, self.string.as_str());
                        let (_, tail) = self.string.as_str().split_at(p);
                        proof {
                            navigation::lemma_suffix_chars(b, tail@, p as int);
                        }
                        let c2 = tail.get_char(0);
                        if c2.is_whitespace() {
                            end = p;
                        }
                    }
                }
                proof {
                    if start as int != navigation::previous_word_end_spec(v.chars, v.cursor) {
                        navigation::lemma_next_scalar_least(b, navigation::previous_word_end_spec(v.chars, v.cursor), v.cursor);
                    }
                    if end as int != navigation::next_word_spec(v.chars, v.cursor) {
                        navigation::lemma_prev_scalar_greatest(b, navigation::next_word_spec(v.chars, v.cursor), start as int);
                    }
                    assert(start as int <= end as int);
                }
                let t = spliced(self.string.as_str(), start, end);
                proof {
                    lemma_remove_wf(v, start as int, end as int);
                }
                *self = Buffer { string: t, cursor: start };
            },
            Scope::WholeLine => {
                self.clear();
            },
        }
    }

    /// Moves the cursor by one unit of the range in the given direction; the
    /// cursor does not move past either end of the text.
    pub fn move_cursor(&mut self, range: Range, direction: Direction)
        ensures
            final(self)@ == move_spec(old(self)@, range, direction),
    {
        proof {
            use_type_invariant(&*self);
            navigation::lemma_boundary_in_range(self@.bytes(), self@.cursor);
        }
        match (range, direction) {
            (Range::Single, Direction::Backward) => {
                self.cursor = navigation::previous_scalar_value(self.cursor, self.string.as_str());
            },
            (Range::Single, Direction::Forward) => {
                self.cursor = navigation::next_scalar_value(self.cursor, self.string.as_str());
            },
            (Range::Word, Direction::Backward) => {
                self.cursor = navigation::previous_word(self.cursor, self.string.as_str());
            },
            (Range::Word, Direction::Forward) => {
                self.cursor = navigation::next_word(self.cursor, self.string.as_str());
            },
            (Range::Line, Direction::Backward) => {
                self.cursor = 0;
            },
            (Range::Line, Direction::Forward) => {
                self.cursor = self.string.as_str().as_bytes().len();
            },
        }
    }
}

impl Clone for Buffer {
    /// An identical copy of the buffer.
    fn clone(&self) -> (r: Self)
        ensures
            r@ == self@,
    {
        proof {
            use_type_invariant(&*self);
        }
        Buffer { string: self.string.clone(), cursor: self.cursor }
    }
}

impl PartialEq for Buffer {
    fn eq(&self, other: &Buffer) -> (r: bool) {
        self.cursor == other.cursor && self.string == other.string
    }
}

impl vstd::std_specs::cmp::PartialEqSpecImpl for Buffer {
    open spec fn obeys_eq_spec() -> bool {
        true
    }

    open spec fn eq_spec(&self, other: &Buffer) -> bool {
        self@.chars == other@.chars && self@.cursor == other@.cursor
    }
}

impl Default for Buffer {
    /// An empty buffer with the cursor at the start.
    fn default() -> (r: Self)
        ensures
            r@.chars == Seq::<char>::empty(),
            r@.cursor == 0,
    {
        Buffer::new()
    }
}


/// Inserting valid UTF-8 at the cursor keeps the buffer invariants, and the
/// new bytes are the old ones with the insertion spliced in at the cursor.
pub proof fn lemma_insert_preserves_wf(v: BufferView, ins: Seq<u8>)
    requires
        v.wf(),
        valid_utf8(ins),
    ensures
        ({
            let w = insert_bytes(v, ins);
            &&& w.wf()
            &&& w.bytes() == v.bytes().subrange(0, v.cursor) + ins + v.bytes().subrange(
                v.cursor,
                v.len(),
            )
        }),
{
    let b = v.bytes();
    navigation::lemma_boundary_in_range(b, v.cursor);
    let pre = b.subrange(0, v.cursor);
    let suf = b.subrange(v.cursor, b.len() as int);
    assert(valid_utf8(pre));
    assert(valid_utf8(suf));
    let nb = pre + ins + suf;
    lemma_boundary_at_join(pre, ins);
    lemma_boundary_at_join(pre + ins, suf);
    assert((pre + ins) + suf =~= nb);
    assert(valid_utf8(nb));
    let w = insert_bytes(v, ins);
    assert(w.chars == decode_utf8(nb));
    assert(encode_utf8(decode_utf8(nb)) == nb);
    assert(is_char_boundary(nb, (pre + ins).len() as int));
}

/// Writing a character or a string keeps the buffer invariants.
pub proof fn lemma_write_preserves_wf(v: BufferView, c: char, s: Seq<char>)
    requires
        v.wf(),
    ensures
        write_spec(v, c).wf(),
        write_str_spec(v, s).wf(),
{
    vstd::utf8::char_is_scalar(c);
    assert(seq![c].drop_first() =~= Seq::<char>::empty());
    assert(encode_utf8(Seq::<char>::empty()) =~= Seq::<u8>::empty());
    assert(encode_utf8(seq![c]) =~= encode_scalar(c as u32));
    assert(valid_utf8(encode_utf8(seq![c])));
    lemma_insert_preserves_wf(v, encode_scalar(c as u32));
    lemma_insert_preserves_wf(v, encode_utf8(s));
}

/// The span of a `WholeWord` delete lies between scalar boundaries of the text.
pub proof fn lemma_whole_word_span_props(v: BufferView)
    requires
        v.wf(),
    ensures
        ({
            let (start, end) = whole_word_span(v);
            &&& is_char_boundary(v.bytes(), start)
            &&& is_char_boundary(v.bytes(), end)
            &&& 0 <= start <= end <= v.len()
        }),
{
    let b = v.bytes();
    navigation::lemma_boundary_in_range(b, v.cursor);
    let s0 = navigation::previous_word_end_spec(v.chars, v.cursor);
    let e0 = navigation::next_word_spec(v.chars, v.cursor);
    navigation::lemma_previous_word_end_spec_props(v.chars, v.cursor);
    navigation::lemma_next_word_spec_props(v.chars, v.cursor);
    if s0 > 0 {
        if navigation::whitespace(navigation::char_at(b, s0)) {
            navigation::lemma_next_scalar_spec_props(b, s0);
            navigation::lemma_next_scalar_least(b, s0, v.cursor);
        } else if e0 > 0 && navigation::whitespace(
            navigation::char_at(b, navigation::prev_scalar_spec(b, e0)),
        ) {
            navigation::lemma_prev_scalar_spec_props(b, e0);
            navigation::lemma_prev_scalar_greatest(b, e0, s0);
        }
    }
}

/// Deleting any scope keeps the buffer invariants.
pub proof fn lemma_delete_preserves_wf(v: BufferView, scope: Scope)
    requires
        v.wf(),
    ensures
        delete_spec(v, scope).wf(),
{
    let b = v.bytes();
    navigation::lemma_boundary_in_range(b, v.cursor);
    match scope {
        Scope::Relative(Range::Single, Direction::Backward) => {
            if v.cursor != 0 {
                navigation::lemma_prev_scalar_spec_props(b, v.cursor);
                lemma_remove_wf(v, navigation::prev_scalar_spec(b, v.cursor), v.cursor);
            }
        },
        Scope::Relative(Range::Single, Direction::Forward) => {
            if v.cursor != v.len() {
                navigation::lemma_next_scalar_spec_props(b, v.cursor);
                lemma_remove_wf(v, v.cursor, navigation::next_scalar_spec(b, v.cursor));
            }
        },
        Scope::Relative(Range::Word, Direction::Backward) => {
            navigation::lemma_previous_word_spec_props(v.chars, v.cursor);
            lemma_remove_wf(v, navigation::previous_word_spec(v.chars, v.cursor), v.cursor);
        },
        Scope::Relative(Range::Word, Direction::Forward) => {
            navigation::lemma_next_word_spec_props(v.chars, v.cursor);
            lemma_remove_wf(v, v.cursor, navigation::next_word_spec(v.chars, v.cursor));
        },
        Scope::Relative(Range::Line, Direction::Backward) => {
            lemma_remove_wf(v, 0, v.cursor);
        },
        Scope::Relative(Range::Line, Direction::Forward) => {
            lemma_remove_wf(v, v.cursor, v.len());
        },
        Scope::WholeWord => {
            lemma_whole_word_span_props(v);
            let (start, end) = whole_word_span(v);
            lemma_remove_wf(v, start, end);
        },
        Scope::WholeLine => {
            assert(encode_utf8(Seq::<char>::empty()) =~= Seq::<u8>::empty());
        },
    }
}

/// Moving the cursor keeps the buffer invariants; together with the write and
/// delete lemmas, every edit keeps the cursor inside the text and on a Unicode
/// scalar boundary.
pub proof fn lemma_move_preserves_wf(v: BufferView, range: Range, direction: Direction)
    requires
        v.wf(),
    ensures
        move_spec(v, range, direction).wf(),
        move_spec(v, range, direction).chars == v.chars,
{
    let b = v.bytes();
    navigation::lemma_boundary_in_range(b, v.cursor);
    match (range, direction) {
        (Range::Single, Direction::Backward) => {
            navigation::lemma_prev_scalar_spec_props(b, v.cursor);
        },
        (Range::Single, Direction::Forward) => {
            navigation::lemma_next_scalar_spec_props(b, v.cursor);
        },
        (Range::Word, Direction::Backward) => {
            navigation::lemma_previous_word_spec_props(v.chars, v.cursor);
        },
        (Range::Word, Direction::Forward) => {
            navigation::lemma_next_word_spec_props(v.chars, v.cursor);
        },
        (Range::Line, Direction::Backward) => {
        },
        (Range::Line, Direction::Forward) => {
        },
    }
}

/// Deleting the character after the cursor and writing it back restores the
/// original text.
pub proof fn lemma_delete_forward_write_round_trip(v: BufferView)
    requires
        v.wf(),
        v.cursor < v.len(),
    ensures
        ({
            let c = navigation::char_at(v.bytes(), v.cursor);
            write_spec(delete_spec(v, Scope::Relative(Range::Single, Direction::Forward)), c).chars
                == v.chars
        }),
{
    let b = v.bytes();
    let cur = v.cursor;
    navigation::lemma_boundary_in_range(b, cur);
    let suffix = b.subrange(cur, b.len() as int);
    assert(valid_utf8(suffix));
    let w0 = vstd::utf8::length_of_first_scalar(suffix);
    navigation::lemma_next_scalar_is_first_len(b, cur);
    navigation::lemma_next_scalar_spec_props(b, cur);
    let end = navigation::next_scalar_spec(b, cur);
    assert(end == cur + w0);
    let c = navigation::char_at(b, cur);
    assert(decode_utf8(suffix) == seq![vstd::utf8::decode_first_scalar(suffix) as char]
        + decode_utf8(vstd::utf8::pop_first_scalar(suffix)));
    assert(c == vstd::utf8::decode_first_scalar(suffix) as char);
    vstd::utf8::decode_utf8_first_scalar(suffix);
    assert(encode_scalar(c as u32) == vstd::utf8::take_first_scalar(suffix));
    let d = delete_spec(v, Scope::Relative(Range::Single, Direction::Forward));
    lemma_remove_wf(v, cur, end);
    let pre = b.subrange(0, cur);
    let suf = b.subrange(end, b.len() as int);
    assert(d.bytes() == pre + suf);
    assert(d.cursor == cur);
    let wv = write_spec(d, c);
    assert(d.bytes().subrange(0, cur) =~= pre);
    assert(d.bytes().subrange(cur, d.bytes().len() as int) =~= suf);
    assert(wv.chars == decode_utf8(pre + encode_scalar(c as u32) + suf));
    assert(vstd::utf8::take_first_scalar(suffix) =~= b.subrange(cur, end));
    assert(pre + encode_scalar(c as u32) + suf =~= b);
    assert(decode_utf8(b) == v.chars);
}

/// Moving to the end of the line and then to its start puts the cursor at
/// zero; moving to the end twice is the same as moving once.
pub proof fn lemma_move_line_round_trip(v: BufferView)
    requires
        v.wf(),
    ensures
        ({
            let fwd = move_spec(v, Range::Line, Direction::Forward);
            &&& move_spec(fwd, Range::Line, Direction::Backward).cursor == 0
            &&& move_spec(fwd, Range::Line, Direction::Backward).chars == v.chars
            &&& move_spec(fwd, Range::Line, Direction::Forward) == fwd
        }),
{
    let fwd = move_spec(v, Range::Line, Direction::Forward);
    assert(move_spec(fwd, Range::Line, Direction::Forward) =~= fwd);
}

} // verus!
