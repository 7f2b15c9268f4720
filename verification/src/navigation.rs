use vstd::prelude::*;

verus! {

use vstd::utf8::{
    encode_utf8, decode_utf8, is_char_boundary, valid_utf8, is_continuation_byte,
    is_leading_byte_width_1, is_leading_byte_width_2, is_leading_byte_width_3,
    is_leading_byte_width_4, valid_first_scalar, length_of_first_scalar, pop_first_scalar,
};
use vstd::string::StringSliceAdditionalSpecFns;

broadcast use vstd::utf8::group_utf8_lib;

/// The character that starts at byte offset `off` of `bytes`.
pub open spec fn char_at(bytes: Seq<u8>, off: int) -> char {
    decode_utf8(bytes.subrange(off, bytes.len() as int)).first()
}

/// The byte offset of the scalar boundary that follows `i`, clamped to the length.
pub open spec fn next_scalar_spec(bytes: Seq<u8>, i: int) -> int
    decreases bytes.len() - i,
{
    if i >= bytes.len() {
        bytes.len() as int
    } else if is_char_boundary(bytes, i + 1) {
        i + 1
    } else {
        next_scalar_spec(bytes, i + 1)
    }
}

/// The byte offset of the scalar boundary that precedes `i`, clamped to zero.
pub open spec fn prev_scalar_spec(bytes: Seq<u8>, i: int) -> int
    decreases i,
{
    if i <= 0 {
        0
    } else if is_char_boundary(bytes, i - 1) {
        i - 1
    } else {
        prev_scalar_spec(bytes, i - 1)
    }
}

/// A character boundary always lies between the start and the end of the sequence.
pub proof fn lemma_boundary_in_range(bytes: Seq<u8>, i: int)
    requires
        valid_utf8(bytes),
        is_char_boundary(bytes, i),
    ensures
        0 <= i <= bytes.len(),
    decreases bytes.len(),
{
    if i != 0 {
        lemma_boundary_in_range(
            pop_first_scalar(bytes),
            i - length_of_first_scalar(bytes),
        );
    }
}

proof fn lemma_next_scalar_reaches(bytes: Seq<u8>, i: int, r: int)
    requires
        i < r <= bytes.len(),
        is_char_boundary(bytes, r),
        forall|j: int| i < j < r ==> !is_char_boundary(bytes, j),
    ensures
        next_scalar_spec(bytes, i) == r,
    decreases r - i,
{
    if i + 1 < r {
        lemma_next_scalar_reaches(bytes, i + 1, r);
    }
}

proof fn lemma_prev_scalar_reaches(bytes: Seq<u8>, i: int, r: int)
    requires
        0 <= r < i,
        is_char_boundary(bytes, r),
        forall|j: int| r < j < i ==> !is_char_boundary(bytes, j),
    ensures
        prev_scalar_spec(bytes, i) == r,
    decreases i - r,
{
    if r < i - 1 {
        lemma_prev_scalar_reaches(bytes, i - 1, r);
    }
}

/// At a boundary strictly inside a valid sequence, the leading byte determines
/// the width of the scalar that starts there, the bytes it covers up to the next
/// boundary are continuation bytes, and the next boundary is `i + width`.
pub proof fn lemma_scalar_at(bytes: Seq<u8>, i: int)
    requires
        valid_utf8(bytes),
        is_char_boundary(bytes, i),
        0 <= i < bytes.len(),
    ensures
        ({
            let w = length_of_first_scalar(bytes.subrange(i, bytes.len() as int));
            &&& 1 <= w <= 4
            &&& i + w <= bytes.len()
            &&& is_char_boundary(bytes, i + w)
            &&& forall|j: int| i < j < i + w ==> !is_char_boundary(bytes, j)
            &&& (w == 1 <==> bytes[i] < 0x80)
            &&& (w == 2 <==> 0xc0 <= bytes[i] <= 0xdf)
            &&& (w == 3 <==> 0xe0 <= bytes[i] <= 0xef)
            &&& (w == 4 <==> 0xf0 <= bytes[i] <= 0xf7)
        }),
{
    let suffix = bytes.subrange(i, bytes.len() as int);
    assert(valid_utf8(suffix));
    assert(valid_first_scalar(suffix));
    let w = length_of_first_scalar(suffix);
    assert(suffix[0] == bytes[i]);
    assert(forall|k: int| 1 <= k < w ==> is_continuation_byte(#[trigger] suffix[k]));
    assert(forall|j: int| i < j < i + w ==> is_continuation_byte(#[trigger] bytes[j])) by {
        assert(forall|j: int| i < j < i + w ==> bytes[j] == suffix[j - i]);
    }
    if i + w < bytes.len() {
        let rest = pop_first_scalar(suffix);
        assert(valid_utf8(rest));
        assert(rest.len() > 0);
        assert(valid_first_scalar(rest));
        assert(rest[0] == bytes[i + w]);
        assert(!is_continuation_byte(bytes[i + w]));
    }
}

/// The byte offsets at which the Unicode word-bound segments of a text begin.
pub uninterp spec fn word_starts(s: Seq<char>) -> Seq<usize>;

/// Whether a character has the Unicode white-space property.
pub uninterp spec fn whitespace(c: char) -> bool;

/// Relies on char::is_whitespace: whether the character has the Unicode
/// White_Space property, which depends on the character alone.
pub assume_specification[ char::is_whitespace ](c: char) -> (r: bool)
    ensures
        r == whitespace(c),
;

/// Each offset lies on a character boundary strictly inside the text, and the
/// offsets increase.
pub open spec fn starts_shape(starts: Seq<usize>, bytes: Seq<u8>) -> bool {
    &&& (forall|i: int|
        0 <= i < starts.len() ==> (#[trigger] starts[i] as int) < bytes.len()
            && is_char_boundary(bytes, starts[i] as int))
    &&& (forall|i: int, j: int|
        0 <= i < j < starts.len() ==> (#[trigger] starts[i] as int) < (#[trigger] starts[j] as int))
}

/// What the word-bound offsets of a text look like: they cover the text exactly
/// when it is non-empty, they begin at zero, and they keep their shape.
pub open spec fn starts_wf(starts: Seq<usize>, bytes: Seq<u8>) -> bool {
    &&& (starts.len() > 0 <==> bytes.len() > 0)
    &&& (starts.len() > 0 ==> starts[0] == 0)
    &&& starts_shape(starts, bytes)
}

/// The guarded word-bound offsets always keep their shape.
pub broadcast proof fn lemma_word_starts_ok_shape(s: Seq<char>)
    ensures
        starts_shape(#[trigger] word_starts_ok(s), encode_utf8(s)),
{
}

/// The word-bound offsets of a text, guarded by their shape, so that every
/// consequence drawn from the shape holds of the spec unconditionally.
pub open spec fn word_starts_ok(s: Seq<char>) -> Seq<usize> {
    if starts_wf(word_starts(s), encode_utf8(s)) {
        word_starts(s)
    } else {
        Seq::empty()
    }
}

/// Relies on unicode_segmentation::UnicodeSegmentation::split_word_bound_indices:
/// the byte offsets of the word-bound segments of the text, which depend on the
/// text alone. The segments are non-empty, consecutive, and concatenate back to
/// the text, so their offsets start at zero, increase strictly, and each lies on
/// a character boundary inside the text.
#[verifier::external_body]
fn word_bound_starts(string: &str) -> (r: Vec<usize>)
    ensures
        r@ == word_starts(string@),
        starts_wf(r@, string.spec_bytes()),
{
    unicode_segmentation::UnicodeSegmentation::split_word_bound_indices(string)
        .map(|pair: (usize, &str)| pair.0)
        .collect()
}

/// The first offset among `starts[k..]` past `pivot` where a segment begins
/// with a non-white-space character; the length of the text when none does.
pub open spec fn next_word_at(starts: Seq<usize>, bytes: Seq<u8>, pivot: int, k: int) -> int
    decreases starts.len() - k,
{
    if k < 0 || k >= starts.len() {
        bytes.len() as int
    } else if starts[k] > pivot && !whitespace(char_at(bytes, starts[k] as int)) {
        starts[k] as int
    } else {
        next_word_at(starts, bytes, pivot, k + 1)
    }
}

/// The smallest word-bound offset strictly past `pivot` whose segment does not
/// begin with white space; the length of the text when there is none.
pub open spec fn next_word_spec(s: Seq<char>, pivot: int) -> int {
    let bytes = encode_utf8(s);
    if pivot == bytes.len() {
        pivot
    } else {
        next_word_at(word_starts_ok(s), bytes, pivot, 0)
    }
}

/// The last offset among `starts[..k]` before `pivot` where a segment begins
/// with a non-white-space character; zero when none does.
pub open spec fn prev_word_upto(starts: Seq<usize>, bytes: Seq<u8>, pivot: int, k: int) -> int
    decreases k,
{
    if k <= 0 || k > starts.len() {
        0
    } else if (starts[k - 1] as int) < pivot && !whitespace(
        char_at(bytes, starts[k - 1] as int),
    ) {
        starts[k - 1] as int
    } else {
        prev_word_upto(starts, bytes, pivot, k - 1)
    }
}

/// The greatest word-bound offset strictly before `pivot` whose segment does
/// not begin with white space; zero when there is none.
pub open spec fn previous_word_spec(s: Seq<char>, pivot: int) -> int {
    if pivot == 0 {
        0
    } else {
        prev_word_upto(
            word_starts_ok(s),
            encode_utf8(s),
            pivot,
            word_starts_ok(s).len() as int,
        )
    }
}

/// Where the word-bound segment that begins at `starts[k]` ends.
pub open spec fn seg_end(starts: Seq<usize>, bytes: Seq<u8>, k: int) -> int {
    if k + 1 < starts.len() {
        starts[k + 1] as int
    } else {
        bytes.len() as int
    }
}

/// The last segment end among `starts[..k]` before `pivot` whose segment does
/// not begin with white space; zero when none qualifies.
pub open spec fn prev_word_end_upto(starts: Seq<usize>, bytes: Seq<u8>, pivot: int, k: int) -> int
    decreases k,
{
    if k <= 0 || k > starts.len() {
        0
    } else if seg_end(starts, bytes, k - 1) < pivot && !whitespace(
        char_at(bytes, starts[k - 1] as int),
    ) {
        seg_end(starts, bytes, k - 1)
    } else {
        prev_word_end_upto(starts, bytes, pivot, k - 1)
    }
}

/// The greatest end of a non-white-space word-bound segment that lies strictly
/// before `pivot`; zero when there is none.
pub open spec fn previous_word_end_spec(s: Seq<char>, pivot: int) -> int {
    if pivot == 0 {
        0
    } else {
        prev_word_end_upto(
            word_starts_ok(s),
            encode_utf8(s),
            pivot,
            word_starts_ok(s).len() as int,
        )
    }
}

/// Moves one Unicode scalar forward from `index`; yields the length at the end.
pub fn next_scalar_value(index: usize, string: &str) -> (r: usize)
    requires
        is_char_boundary(string.spec_bytes(), index as int),
    ensures
        r as int == next_scalar_spec(string.spec_bytes(), index as int),
        is_char_boundary(string.spec_bytes(), r as int),
        index < string.spec_bytes().len() ==> index < r,
        index as int == string.spec_bytes().len() ==> r == index,
        r <= string.spec_bytes().len(),
{
    let ghost bytes = string.spec_bytes();
    let bs = string.as_bytes();
    let n = bs.len();
    proof {
        lemma_boundary_in_range(bytes, index as int);
    }
    if index >= n {
        return n;
    }
    let b = bs[index];
    proof {
        lemma_scalar_at(bytes, index as int);
    }
    let w: usize = if b < 0x80 {
        1
    } else if b < 0xe0 {
        2
    } else if b < 0xf0 {
        3
    } else {
        4
    };
    proof {
        let sw = length_of_first_scalar(bytes.subrange(index as int, bytes.len() as int));
        assert(!is_continuation_byte(b));
        assert(w == sw);
        lemma_next_scalar_reaches(bytes, index as int, index as int + sw);
    }
    index + w
}

/// Moves one Unicode scalar backward from `index`; yields zero at the start.
pub fn previous_scalar_value(index: usize, string: &str) -> (r: usize)
    requires
        is_char_boundary(string.spec_bytes(), index as int),
    ensures
        r as int == prev_scalar_spec(string.spec_bytes(), index as int),
        is_char_boundary(string.spec_bytes(), r as int),
        index > 0 ==> r < index,
        index == 0 ==> r == 0,
{
    let ghost bytes = string.spec_bytes();
    if index == 0 {
        return 0;
    }
    let bs = string.as_bytes();
    let mut j: usize = index - 1;
    while bs[j] >= 0x80 && bs[j] <= 0xbf
        invariant
            0 <= j < index,
            index as int <= bytes.len(),
            bs@ == bytes,
            valid_utf8(bytes),
            forall|k: int| j < k < index ==> !is_char_boundary(bytes, k),
        decreases j,
    {
        proof {
            assert(is_continuation_byte(bytes[j as int]));
            assert(!is_char_boundary(bytes, j as int));
            if j == 0 {
                assert(is_char_boundary(bytes, 0));
            }
        }
        j = j - 1;
    }
    proof {
        assert(!is_continuation_byte(bytes[j as int]));
        assert(is_char_boundary(bytes, j as int));
        lemma_prev_scalar_reaches(bytes, index as int, j as int);
    }
    j
}

/// No boundary lies between a position and the next scalar boundary.
pub proof fn lemma_next_scalar_least(bytes: Seq<u8>, i: int, j: int)
    requires
        is_char_boundary(bytes, j),
        i < j,
    ensures
        next_scalar_spec(bytes, i) <= j,
    decreases j - i,
{
    if !is_char_boundary(bytes, i + 1) && i + 1 < j {
        lemma_next_scalar_least(bytes, i + 1, j);
    }
}

/// No boundary lies between the previous scalar boundary and a position.
pub proof fn lemma_prev_scalar_greatest(bytes: Seq<u8>, i: int, j: int)
    requires
        is_char_boundary(bytes, j),
        0 <= j < i,
    ensures
        prev_scalar_spec(bytes, i) >= j,
    decreases i - j,
{
    if !is_char_boundary(bytes, i - 1) && j < i - 1 {
        lemma_prev_scalar_greatest(bytes, i - 1, j);
    }
}

/// A suffix cut at a character boundary is non-empty and begins with the
/// character that starts at that boundary.
pub proof fn lemma_suffix_chars(bytes: Seq<u8>, suffix: Seq<char>, off: int)
    requires
        valid_utf8(bytes),
        0 <= off < bytes.len(),
        encode_utf8(suffix) == bytes.subrange(off, bytes.len() as int),
    ensures
        suffix.len() > 0,
        suffix[0] == char_at(bytes, off),
{
    let sub = bytes.subrange(off, bytes.len() as int);
    assert(decode_utf8(encode_utf8(suffix)) == suffix);
    if suffix.len() == 0 {
        assert(encode_utf8(suffix) == Seq::<u8>::empty());
    }
    assert(char_at(bytes, off) == decode_utf8(sub).first());
}

/// The smallest word-bound offset past `pivot` that starts a word, or the end.
pub fn next_word(pivot: usize, string: &str) -> (r: usize)
    requires
        pivot as int <= string.spec_bytes().len(),
    ensures
        r as int == next_word_spec(string@, pivot as int),
        is_char_boundary(string.spec_bytes(), r as int),
        r as int <= string.spec_bytes().len(),
        (pivot as int) < string.spec_bytes().len() ==> pivot < r,
        pivot as int == string.spec_bytes().len() ==> r == pivot,
{
    let ghost bytes = string.spec_bytes();
    let n = string.as_bytes().len();
    if pivot >= n {
        return pivot;
    }
    let starts = word_bound_starts(string);
    let ghost sts = word_starts_ok(string@);
    let ghost goal = next_word_at(sts, bytes, pivot as int, 0);
    let mut k: usize = 0;
    while k < starts.len()
        invariant
            0 <= k <= starts@.len(),
            sts == starts@,
            sts == word_starts_ok(string@),
            starts_wf(sts, bytes),
            bytes == string.spec_bytes(),
            n as int == bytes.len(),
            (pivot as int) < bytes.len(),
            goal == next_word_at(sts, bytes, pivot as int, 0),
            goal == next_word_at(sts, bytes, pivot as int, k as int),
        decreases starts@.len() - k,
    {
        let off = starts[k];
        if off > pivot {
            let (_, suffix) = string.split_at(off);
            let c = suffix.get_char(0);
            proof {
                lemma_suffix_chars(bytes, suffix@, off as int);
            }
            if !c.is_whitespace() {
                proof {
                    assert(!whitespace(char_at(bytes, off as int)));
                    assert(next_word_at(sts, bytes, pivot as int, k as int) == off as int);
                }
                return off;
            }
        }
        k = k + 1;
    }
    n
}

/// The greatest word-bound offset before `pivot` that starts a word, or zero.
pub fn previous_word(pivot: usize, string: &str) -> (r: usize)
    requires
        pivot as int <= string.spec_bytes().len(),
    ensures
        r as int == previous_word_spec(string@, pivot as int),
        is_char_boundary(string.spec_bytes(), r as int),
        r <= pivot,
        pivot > 0 ==> r < pivot,
{
    let ghost bytes = string.spec_bytes();
    proof {
        assert(valid_utf8(bytes));
    }
    if pivot == 0 {
        return 0;
    }
    let starts = word_bound_starts(string);
    let ghost sts = word_starts_ok(string@);
    let ghost goal = prev_word_upto(sts, bytes, pivot as int, sts.len() as int);
    let mut k: usize = starts.len();
    while k > 0
        invariant
            0 <= k <= starts@.len(),
            sts == starts@,
            sts == word_starts_ok(string@),
            starts_wf(sts, bytes),
            bytes == string.spec_bytes(),
            pivot > 0,
            goal == prev_word_upto(sts, bytes, pivot as int, sts.len() as int),
            goal == prev_word_upto(sts, bytes, pivot as int, k as int),
        decreases k,
    {
        let off = starts[k - 1];
        if off < pivot {
            let (_, suffix) = string.split_at(off);
            let c = suffix.get_char(0);
            proof {
                lemma_suffix_chars(bytes, suffix@, off as int);
            }
            if !c.is_whitespace() {
                proof {
                    assert(!whitespace(char_at(bytes, off as int)));
                    assert(prev_word_upto(sts, bytes, pivot as int, k as int) == off as int);
                }
                return off;
            }
        }
        k = k - 1;
    }
    0
}

/// The greatest end of a word before `pivot`, or zero.
pub fn previous_word_end(pivot: usize, string: &str) -> (r: usize)
    requires
        pivot as int <= string.spec_bytes().len(),
    ensures
        r as int == previous_word_end_spec(string@, pivot as int),
        is_char_boundary(string.spec_bytes(), r as int),
        r <= pivot,
        pivot > 0 ==> r < pivot,
{
    let ghost bytes = string.spec_bytes();
    proof {
        assert(valid_utf8(bytes));
    }
    if pivot == 0 {
        return 0;
    }
    let n = string.as_bytes().len();
    let starts = word_bound_starts(string);
    let ghost sts = word_starts_ok(string@);
    let ghost goal = prev_word_end_upto(sts, bytes, pivot as int, sts.len() as int);
    let mut k: usize = starts.len();
    while k > 0
        invariant
            0 <= k <= starts@.len(),
            sts == starts@,
            sts == word_starts_ok(string@),
            starts_wf(sts, bytes),
            bytes == string.spec_bytes(),
            n as int == bytes.len(),
            pivot > 0,
            pivot as int <= bytes.len(),
            goal == prev_word_end_upto(sts, bytes, pivot as int, sts.len() as int),
            goal == prev_word_end_upto(sts, bytes, pivot as int, k as int),
        decreases k,
    {
        let e = if k < starts.len() {
            starts[k]
        } else {
            n
        };
        proof {
            assert(e as int == seg_end(sts, bytes, k as int - 1));
        }
        if e < pivot {
            let off = starts[k - 1];
            let (_, suffix) = string.split_at(off);
            let c = suffix.get_char(0);
            proof {
                lemma_suffix_chars(bytes, suffix@, off as int);
            }
            if !c.is_whitespace() {
                proof {
                    assert(!whitespace(char_at(bytes, off as int)));
                    assert(prev_word_end_upto(sts, bytes, pivot as int, k as int) == e as int);
                }
                return e;
            }
        }
        k = k - 1;
    }
    0
}


/// Where the walk behind `prev_word_upto` can land, and that it lands on the
/// greatest qualifying offset.
proof fn lemma_prev_upto_props(starts: Seq<usize>, bytes: Seq<u8>, pivot: int, k: int)
    requires
        0 <= k <= starts.len(),
        starts_shape(starts, bytes),
    ensures
        ({
            let r = prev_word_upto(starts, bytes, pivot, k);
            &&& r == 0 || exists|j: int|
                0 <= j < k && starts[j] as int == r && r < pivot && !whitespace(
                    #[trigger] char_at(bytes, starts[j] as int),
                )
            &&& forall|j: int|
                0 <= j < k && (starts[j] as int) < pivot && !whitespace(
                    #[trigger] char_at(bytes, starts[j] as int),
                ) ==> r >= starts[j] as int
        }),
    decreases k,
{
    if k > 0 {
        lemma_prev_upto_props(starts, bytes, pivot, k - 1);
        let r = prev_word_upto(starts, bytes, pivot, k);
        if (starts[k - 1] as int) < pivot && !whitespace(char_at(bytes, starts[k - 1] as int)) {
            assert(starts[k - 1] as int == r);
            assert(forall|j: int| 0 <= j < k - 1 ==> (#[trigger] starts[j] as int) < starts[k - 1] as int);
        }
    }
}

/// Where the walk behind `next_word_at` can land, and that it lands on the
/// smallest qualifying offset.
proof fn lemma_next_at_props(starts: Seq<usize>, bytes: Seq<u8>, pivot: int, k: int)
    requires
        0 <= k <= starts.len(),
        starts_shape(starts, bytes),
    ensures
        ({
            let r = next_word_at(starts, bytes, pivot, k);
            &&& r == bytes.len() || exists|j: int|
                k <= j < starts.len() && starts[j] as int == r && r > pivot && !whitespace(
                    #[trigger] char_at(bytes, starts[j] as int),
                )
            &&& forall|j: int|
                k <= j < starts.len() && (starts[j] as int) > pivot && !whitespace(
                    #[trigger] char_at(bytes, starts[j] as int),
                ) ==> r <= starts[j] as int
        }),
    decreases starts.len() - k,
{
    if k < starts.len() {
        lemma_next_at_props(starts, bytes, pivot, k + 1);
        let r = next_word_at(starts, bytes, pivot, k);
        if (starts[k] as int) > pivot && !whitespace(char_at(bytes, starts[k] as int)) {
            assert(starts[k] as int == r);
            assert(forall|j: int| k < j < starts.len() ==> (#[trigger] starts[j] as int) > starts[k] as int);
        }
    }
}

/// The word the cursor lands on when moving backward begins on or before it,
/// and each word-navigation result is a scalar boundary of the text.
pub proof fn lemma_word_round_trip(s: Seq<char>, pivot: int)
    requires
        0 <= pivot <= encode_utf8(s).len(),
    ensures
        next_word_spec(s, previous_word_spec(s, pivot)) >= pivot,
        is_char_boundary(encode_utf8(s), previous_word_spec(s, pivot)),
        is_char_boundary(encode_utf8(s), next_word_spec(s, previous_word_spec(s, pivot))),
{
    let sts = word_starts_ok(s);
    let bytes = encode_utf8(s);
    lemma_word_starts_ok_shape(s);
    assert(valid_utf8(bytes));
    let p = previous_word_spec(s, pivot);
    lemma_prev_upto_props(sts, bytes, pivot, sts.len() as int);
    assert(0 <= p < pivot || p == 0);
    let r = next_word_spec(s, p);
    if pivot == 0 {
        assert(p == 0);
        if bytes.len() == 0 {
            assert(r == 0);
        } else {
            lemma_next_at_props(sts, bytes, p, 0);
        }
    } else {
        assert(p < pivot);
        assert(p < bytes.len());
        lemma_next_at_props(sts, bytes, p, 0);
        let rr = next_word_at(sts, bytes, p, 0);
        assert(r == rr);
        if rr != bytes.len() {
            let j = choose|j: int|
                0 <= j < sts.len() && sts[j] as int == rr && rr > p && !whitespace(
                    #[trigger] char_at(bytes, sts[j] as int),
                );
            if rr < pivot {
                assert(prev_word_upto(sts, bytes, pivot, sts.len() as int) >= sts[j] as int);
                assert(false);
            }
        }
    }
}


/// Where the scalar-boundary walks land: always on a boundary, inside the text.
pub proof fn lemma_prev_scalar_spec_props(bytes: Seq<u8>, i: int)
    requires
        valid_utf8(bytes),
        0 <= i,
    ensures
        is_char_boundary(bytes, prev_scalar_spec(bytes, i)),
        0 <= prev_scalar_spec(bytes, i),
        i > 0 ==> prev_scalar_spec(bytes, i) < i,
        i == 0 ==> prev_scalar_spec(bytes, i) == 0,
    decreases i,
{
    if i > 0 && !is_char_boundary(bytes, i - 1) {
        lemma_prev_scalar_spec_props(bytes, i - 1);
    }
}

/// Where the forward scalar walk lands: on a boundary, past `i`, at most the end.
pub proof fn lemma_next_scalar_spec_props(bytes: Seq<u8>, i: int)
    requires
        valid_utf8(bytes),
        0 <= i <= bytes.len(),
    ensures
        is_char_boundary(bytes, next_scalar_spec(bytes, i)),
        next_scalar_spec(bytes, i) <= bytes.len(),
        i < bytes.len() ==> i < next_scalar_spec(bytes, i),
        i == bytes.len() ==> next_scalar_spec(bytes, i) == i,
    decreases bytes.len() - i,
{
    if i < bytes.len() && !is_char_boundary(bytes, i + 1) {
        lemma_next_scalar_spec_props(bytes, i + 1);
    }
}

/// At a boundary inside the text, the next scalar boundary lies exactly one
/// encoded scalar further.
pub proof fn lemma_next_scalar_is_first_len(bytes: Seq<u8>, i: int)
    requires
        valid_utf8(bytes),
        is_char_boundary(bytes, i),
        0 <= i < bytes.len(),
    ensures
        next_scalar_spec(bytes, i) == i + length_of_first_scalar(
            bytes.subrange(i, bytes.len() as int),
        ),
{
    lemma_scalar_at(bytes, i);
    let w = length_of_first_scalar(bytes.subrange(i, bytes.len() as int));
    lemma_next_scalar_reaches(bytes, i, i + w);
}

/// Where the word-start walk lands: on a boundary, never past the cursor.
pub proof fn lemma_previous_word_spec_props(s: Seq<char>, pivot: int)
    requires
        0 <= pivot,
    ensures
        is_char_boundary(encode_utf8(s), previous_word_spec(s, pivot)),
        0 <= previous_word_spec(s, pivot) <= pivot,
        pivot > 0 ==> previous_word_spec(s, pivot) < pivot,
        previous_word_spec(s, pivot) <= encode_utf8(s).len(),
{
    let sts = word_starts_ok(s);
    let bytes = encode_utf8(s);
    lemma_word_starts_ok_shape(s);
    assert(valid_utf8(bytes));
    if pivot > 0 {
        lemma_prev_upto_props(sts, bytes, pivot, sts.len() as int);
    }
}

/// Where the forward word walk lands: on a boundary, past the cursor, at most
/// the end of the text.
pub proof fn lemma_next_word_spec_props(s: Seq<char>, pivot: int)
    requires
        0 <= pivot <= encode_utf8(s).len(),
    ensures
        is_char_boundary(encode_utf8(s), next_word_spec(s, pivot)),
        pivot <= next_word_spec(s, pivot) <= encode_utf8(s).len(),
        pivot < encode_utf8(s).len() ==> pivot < next_word_spec(s, pivot),
        pivot == encode_utf8(s).len() ==> next_word_spec(s, pivot) == pivot,
{
    let sts = word_starts_ok(s);
    let bytes = encode_utf8(s);
    lemma_word_starts_ok_shape(s);
    assert(valid_utf8(bytes));
    if pivot < bytes.len() {
        lemma_next_at_props(sts, bytes, pivot, 0);
    }
}

/// Where the walk behind `prev_word_end_upto` can land.
proof fn lemma_prev_end_upto_props(starts: Seq<usize>, bytes: Seq<u8>, pivot: int, k: int)
    requires
        0 <= k <= starts.len(),
        starts_shape(starts, bytes),
    ensures
        ({
            let r = prev_word_end_upto(starts, bytes, pivot, k);
            &&& r == 0 || r == bytes.len() || exists|j: int|
                0 <= j < starts.len() && starts[j] as int == r
            &&& r == 0 || r < pivot
        }),
    decreases k,
{
    if k > 0 {
        lemma_prev_end_upto_props(starts, bytes, pivot, k - 1);
        let r = prev_word_end_upto(starts, bytes, pivot, k);
        if seg_end(starts, bytes, k - 1) < pivot && !whitespace(
            char_at(bytes, starts[k - 1] as int),
        ) {
            if k < starts.len() {
                assert(starts[k as int] as int == r);
            }
        }
    }
}

/// Where the backward word-end walk lands: on a boundary, before the cursor.
pub proof fn lemma_previous_word_end_spec_props(s: Seq<char>, pivot: int)
    requires
        0 <= pivot,
    ensures
        is_char_boundary(encode_utf8(s), previous_word_end_spec(s, pivot)),
        0 <= previous_word_end_spec(s, pivot) <= pivot,
        pivot > 0 ==> previous_word_end_spec(s, pivot) < pivot,
        previous_word_end_spec(s, pivot) <= encode_utf8(s).len(),
{
    let sts = word_starts_ok(s);
    let bytes = encode_utf8(s);
    lemma_word_starts_ok_shape(s);
    assert(valid_utf8(bytes));
    if pivot > 0 {
        lemma_prev_end_upto_props(sts, bytes, pivot, sts.len() as int);
    }
}

} // verus!
