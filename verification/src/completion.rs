use vstd::prelude::*;

verus! {

use vstd::utf8::{
    encode_utf8, decode_utf8, is_char_boundary, valid_utf8, valid_first_scalar,
    length_of_first_scalar, pop_first_scalar,
};
use vstd::string::{StringSliceAdditionalSpecFns, StringExecFns, StrSliceExecFns};
use crate::buffer::Buffer;

broadcast use vstd::utf8::group_utf8_lib;

/// Completes the buffer inline.
///
/// Whenever the line is edited, the reader asks the `Completer` for a tail to
/// render past the cursor; the buffer itself is unchanged until a
/// [`Complete`](crate::actions::Action::Complete) action takes the tail in.
pub trait Completer {
    /// The tail to append to the buffer, if any.
    fn complete_for(&self, buffer: &Buffer) -> Option<String>;
}

/// Produces candidate replacements for the whole buffer, usually cycled with
/// the `Tab` key.
pub trait Suggester {
    /// The candidates offered to replace the buffer, in order.
    fn suggest_for(&self, buffer: &Buffer) -> Vec<String>;
}

/// Whether `p` is a prefix of `s`.
pub open spec fn is_prefix(p: Seq<char>, s: Seq<char>) -> bool {
    p.len() <= s.len() && s.subrange(0, p.len() as int) == p
}

/// If a valid UTF-8 sequence begins with another valid sequence, the border
/// between them is a character boundary.
proof fn lemma_byte_prefix_boundary(p: Seq<u8>, bytes: Seq<u8>)
    requires
        valid_utf8(p),
        valid_utf8(bytes),
        p.len() <= bytes.len(),
        bytes.subrange(0, p.len() as int) == p,
    ensures
        is_char_boundary(bytes, p.len() as int),
    decreases p.len(),
{
    if p.len() > 0 {
        assert(valid_first_scalar(p));
        assert(bytes[0] == p[0]);
        assert(valid_first_scalar(bytes));
        let w = length_of_first_scalar(bytes);
        assert(w == length_of_first_scalar(p));
        assert(w <= p.len());
        let p2 = pop_first_scalar(p);
        let b2 = pop_first_scalar(bytes);
        assert(b2.subrange(0, p2.len() as int) =~= p2);
        lemma_byte_prefix_boundary(p2, b2);
    }
}

/// A prefix of the characters is exactly a prefix of the encoded bytes, the
/// border is a character boundary, and the bytes past it decode to the
/// characters past the prefix.
pub proof fn lemma_char_prefix(p: Seq<char>, s: Seq<char>)
    ensures
        is_prefix(p, s) <==> (encode_utf8(p).len() <= encode_utf8(s).len() && encode_utf8(
            s,
        ).subrange(0, encode_utf8(p).len() as int) == encode_utf8(p)),
        is_prefix(p, s) ==> is_char_boundary(encode_utf8(s), encode_utf8(p).len() as int)
            && decode_utf8(
            encode_utf8(s).subrange(encode_utf8(p).len() as int, encode_utf8(s).len() as int),
        ) == s.subrange(p.len() as int, s.len() as int),
{
    let pb = encode_utf8(p);
    let sb = encode_utf8(s);
    if is_prefix(p, s) {
        let rest = s.subrange(p.len() as int, s.len() as int);
        assert(s =~= p + rest);
        crate::buffer::lemma_encode_concat(p, rest);
        assert(sb.subrange(0, pb.len() as int) =~= pb);
        assert(sb.subrange(pb.len() as int, sb.len() as int) =~= encode_utf8(rest));
        lemma_byte_prefix_boundary(pb, sb);
        assert(decode_utf8(encode_utf8(rest)) == rest);
    }
    if pb.len() <= sb.len() && sb.subrange(0, pb.len() as int) == pb {
        lemma_byte_prefix_boundary(pb, sb);
        vstd::utf8::decode_utf8_split(sb, pb.len() as int);
        assert(decode_utf8(sb) == s);
        assert(decode_utf8(pb) == p);
        assert(s == p + decode_utf8(sb.subrange(pb.len() as int, sb.len() as int)));
        assert(s.subrange(0, p.len() as int) =~= p);
    }
}

/// Whether the text of `string` begins with the text of `prefix`.
fn starts_with_chars(string: &str, prefix: &str) -> (r: bool)
    ensures
        r == is_prefix(prefix@, string@),
{
    proof {
        lemma_char_prefix(prefix@, string@);
    }
    let sb = string.as_bytes();
    let pb = prefix.as_bytes();
    if pb.len() > sb.len() {
        return false;
    }
    let mut i: usize = 0;
    while i < pb.len()
        invariant
            0 <= i <= pb@.len() <= sb@.len(),
            pb@ == prefix.spec_bytes(),
            sb@ == string.spec_bytes(),
            forall|j: int| 0 <= j < i ==> pb@[j] == sb@[j],
        decreases pb@.len() - i,
    {
        if pb[i] != sb[i] {
            proof {
                lemma_char_prefix(prefix@, string@);
                let pbs = prefix.spec_bytes();
                let sbs = string.spec_bytes();
                if is_prefix(prefix@, string@) {
                    assert(sbs.subrange(0, pbs.len() as int) == pbs);
                    assert(sbs.subrange(0, pbs.len() as int)[i as int] == sbs[i as int]);
                    assert(false);
                }
            }
            return false;
        }
        i = i + 1;
    }
    proof {
        assert(string.spec_bytes().subrange(0, prefix.spec_bytes().len() as int)
            =~= prefix.spec_bytes());
    }
    true
}

/// The first candidate from `options[k..]` that begins with the buffer text,
/// shortened to the part past that text.
pub open spec fn list_completion_from(
    options: Seq<Seq<char>>,
    buffer: Seq<char>,
    k: int,
) -> Option<Seq<char>>
    decreases options.len() - k,
{
    if k < 0 || k >= options.len() {
        None
    } else if is_prefix(buffer, options[k]) {
        Some(options[k].subrange(buffer.len() as int, options[k].len() as int))
    } else {
        list_completion_from(options, buffer, k + 1)
    }
}

/// The tail an ordered list of candidates offers for a buffer: the remainder
/// of the first candidate that begins with the buffer text; none for an empty
/// buffer.
pub open spec fn list_completion(options: Seq<Seq<char>>, buffer: Seq<char>) -> Option<Seq<char>> {
    if buffer.len() == 0 {
        None
    } else {
        list_completion_from(options, buffer, 0)
    }
}

/// The remainder of `cand` past the buffer text, when the buffer text is its
/// prefix.
fn completion_tail(cand: &str, buffer: &Buffer) -> (r: Option<String>)
    ensures
        r is Some <==> is_prefix(buffer@.chars, cand@),
        r is Some ==> r->0@ == cand@.subrange(buffer@.chars.len() as int, cand@.len() as int),
{
    if starts_with_chars(cand, buffer.as_str()) {
        proof {
            lemma_char_prefix(buffer@.chars, cand@);
        }
        let (_, tail) = cand.split_at(buffer.len());
        Some(String::from_str(tail))
    } else {
        None
    }
}

impl Completer for [String] {
    /// The remainder of the first candidate that begins with the buffer text;
    /// none for an empty buffer.
    fn complete_for(&self, buffer: &Buffer) -> (r: Option<String>)
        ensures
            r is Some <==> list_completion(self.deep_view(), buffer@.chars) is Some,
            r is Some ==> r->0@ == list_completion(self.deep_view(), buffer@.chars)->0,
    {
        if buffer.is_empty() {
            return None;
        }
        let ghost opts = self.deep_view();
        let mut i: usize = 0;
        while i < self.len()
            invariant
                0 <= i <= self@.len(),
                opts == self.deep_view(),
                opts.len() == self@.len(),
                forall|j: int| 0 <= j < self@.len() ==> opts[j] == self@[j]@,
                buffer@.chars.len() > 0,
                list_completion_from(opts, buffer@.chars, 0) == list_completion_from(
                    opts,
                    buffer@.chars,
                    i as int,
                ),
            decreases self@.len() - i,
        {
            let cand = &self[i];
            match completion_tail(cand.as_str(), buffer) {
                Some(tail) => {
                    return Some(tail);
                },
                None => {
                },
            }
            i = i + 1;
        }
        None
    }
}

impl Completer for [&str] {
    /// The remainder of the first candidate that begins with the buffer text;
    /// none for an empty buffer.
    fn complete_for(&self, buffer: &Buffer) -> (r: Option<String>)
        ensures
            r is Some <==> list_completion(self.deep_view(), buffer@.chars) is Some,
            r is Some ==> r->0@ == list_completion(self.deep_view(), buffer@.chars)->0,
    {
        if buffer.is_empty() {
            return None;
        }
        let ghost opts = self.deep_view();
        let mut i: usize = 0;
        while i < self.len()
            invariant
                0 <= i <= self@.len(),
                opts == self.deep_view(),
                opts.len() == self@.len(),
                forall|j: int| 0 <= j < self@.len() ==> opts[j] == self@[j]@,
                buffer@.chars.len() > 0,
                list_completion_from(opts, buffer@.chars, 0) == list_completion_from(
                    opts,
                    buffer@.chars,
                    i as int,
                ),
            decreases self@.len() - i,
        {
            let cand = self[i];
            match completion_tail(cand, buffer) {
                Some(tail) => {
                    return Some(tail);
                },
                None => {
                },
            }
            i = i + 1;
        }
        None
    }
}

impl Completer for Vec<String> {
    /// The remainder of the first candidate that begins with the buffer text;
    /// none for an empty buffer.
    fn complete_for(&self, buffer: &Buffer) -> (r: Option<String>)
        ensures
            r is Some <==> list_completion(self.deep_view(), buffer@.chars) is Some,
            r is Some ==> r->0@ == list_completion(self.deep_view(), buffer@.chars)->0,
    {
        self.as_slice().complete_for(buffer)
    }
}

impl Completer for Vec<&str> {
    /// The remainder of the first candidate that begins with the buffer text;
    /// none for an empty buffer.
    fn complete_for(&self, buffer: &Buffer) -> (r: Option<String>)
        ensures
            r is Some <==> list_completion(self.deep_view(), buffer@.chars) is Some,
            r is Some ==> r->0@ == list_completion(self.deep_view(), buffer@.chars)->0,
    {
        self.as_slice().complete_for(buffer)
    }
}

/// Copies of the strings of a slice, in order.
fn strings_of_slice(options: &[&str]) -> (r: Vec<String>)
    ensures
        r.deep_view() == options.deep_view(),
{
    let mut r: Vec<String> = Vec::new();
    let mut i: usize = 0;
    while i < options.len()
        invariant
            0 <= i <= options@.len(),
            r@.len() == i,
            forall|j: int| 0 <= j < i ==> #[trigger] r@[j]@ == options@[j]@,
        decreases options@.len() - i,
    {
        r.push(String::from_str(options[i]));
        i = i + 1;
    }
    proof {
        assert(r.deep_view() =~= options.deep_view());
    }
    r
}

/// Copies of the strings of a slice of owned strings, in order.
fn strings_of_string_slice(options: &[String]) -> (r: Vec<String>)
    ensures
        r.deep_view() == options.deep_view(),
{
    let mut r: Vec<String> = Vec::new();
    let mut i: usize = 0;
    while i < options.len()
        invariant
            0 <= i <= options@.len(),
            r@.len() == i,
            forall|j: int| 0 <= j < i ==> #[trigger] r@[j]@ == options@[j]@,
        decreases options@.len() - i,
    {
        r.push(options[i].clone());
        i = i + 1;
    }
    proof {
        assert(r.deep_view() =~= options.deep_view());
    }
    r
}

impl Suggester for [String] {
    /// The whole list, verbatim, whatever the buffer holds.
    fn suggest_for(&self, _buffer: &Buffer) -> (r: Vec<String>)
        ensures
            r.deep_view() == self.deep_view(),
    {
        strings_of_string_slice(self)
    }
}

impl Suggester for [&str] {
    /// The whole list, verbatim, whatever the buffer holds.
    fn suggest_for(&self, _buffer: &Buffer) -> (r: Vec<String>)
        ensures
            r.deep_view() == self.deep_view(),
    {
        strings_of_slice(self)
    }
}

impl Suggester for Vec<String> {
    /// The whole list, verbatim, whatever the buffer holds.
    fn suggest_for(&self, buffer: &Buffer) -> (r: Vec<String>)
        ensures
            r.deep_view() == self.deep_view(),
    {
        self.as_slice().suggest_for(buffer)
    }
}

impl Suggester for Vec<&str> {
    /// The whole list, verbatim, whatever the buffer holds.
    fn suggest_for(&self, buffer: &Buffer) -> (r: Vec<String>)
        ensures
            r.deep_view() == self.deep_view(),
    {
        self.as_slice().suggest_for(buffer)
    }
}

/// A fixed, ordered list of candidates, usable both for inline completion and
/// for drop-down suggestion.
pub struct Basic {
    options: Vec<String>,
}

impl View for Basic {
    type V = Seq<Seq<char>>;

    closed spec fn view(&self) -> Seq<Seq<char>> {
        self.options.deep_view()
    }
}

impl Basic {
    /// A list holding copies of the given candidates, in order.
    pub fn new(options: &[&str]) -> (b: Basic)
        ensures
            b@ == options.deep_view(),
    {
        Basic { options: strings_of_slice(options) }
    }
}

impl Completer for Basic {
    /// The remainder of the first candidate that begins with the buffer text;
    /// none for an empty buffer.
    fn complete_for(&self, buffer: &Buffer) -> (r: Option<String>)
        ensures
            r is Some <==> list_completion(self@, buffer@.chars) is Some,
            r is Some ==> r->0@ == list_completion(self@, buffer@.chars)->0,
    {
        self.options.as_slice().complete_for(buffer)
    }
}

impl Suggester for Basic {
    /// The whole list, verbatim, whatever the buffer holds.
    fn suggest_for(&self, buffer: &Buffer) -> (r: Vec<String>)
        ensures
            r.deep_view() == self@,
    {
        self.options.as_slice().suggest_for(buffer)
    }
}

} // verus!
