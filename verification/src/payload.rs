//! Framing of the payload line that follows a push opcode.
//!
//! The transport delivers the line as it arrived: the text, and the line
//! terminator if the peer sent one. The payload is the text without it, and its
//! length is counted in bytes of UTF-8.

use vstd::prelude::*;
use vstd::string::*;
use vstd::utf8::*;

verus! {

/// Longest payload, in bytes of UTF-8, that a push accepts.
pub const MAX_PAYLOAD_LEN: usize = 4096;

/// The characters that end a line: line feed and carriage return.
pub open spec fn is_line_terminator(c: char) -> bool {
    c == '\n' || c == '\r'
}

/// The line without the line terminators at its end.
pub open spec fn spec_strip_terminator(line: Seq<char>) -> Seq<char>
    decreases line.len(),
{
    if line.len() > 0 && is_line_terminator(line.last()) {
        spec_strip_terminator(line.drop_last())
    } else {
        line
    }
}

/// The length of a text on the wire: the number of bytes of its UTF-8 encoding.
pub open spec fn spec_payload_len(text: Seq<char>) -> nat {
    encode_utf8(text).len()
}

/// Whether a payload is short enough to be pushed.
pub open spec fn spec_fits(text: Seq<char>) -> bool {
    spec_payload_len(text) <= MAX_PAYLOAD_LEN
}

/// Whether a text comes through framing as it is: it does not end in a line
/// terminator.
pub open spec fn spec_is_framed(text: Seq<char>) -> bool {
    text.len() > 0 ==> !is_line_terminator(text.last())
}

/// Whether every character of a text is a line terminator.
pub open spec fn spec_is_terminator_run(tail: Seq<char>) -> bool {
    forall|i: int| 0 <= i < tail.len() ==> is_line_terminator(#[trigger] tail[i])
}

/// The bytes that encode the line terminators.
spec fn is_terminator_byte(b: u8) -> bool {
    b == 0x0A || b == 0x0D
}

/// What stripping does to a line: it keeps a prefix, everything it drops is a
/// line terminator, and what it keeps does not end in one.
pub proof fn lemma_strip_terminator_shape(line: Seq<char>)
    ensures
        spec_strip_terminator(line).len() <= line.len(),
        spec_strip_terminator(line) == line.subrange(0, spec_strip_terminator(line).len() as int),
        forall|i: int|
            spec_strip_terminator(line).len() <= i < line.len() ==> is_line_terminator(
                #[trigger] line[i],
            ),
        spec_is_framed(spec_strip_terminator(line)),
    decreases line.len(),
{
    if line.len() > 0 && is_line_terminator(line.last()) {
        let shorter = line.drop_last();
        lemma_strip_terminator_shape(shorter);
        let kept = spec_strip_terminator(shorter);
        assert forall|i: int| kept.len() <= i < line.len() implies is_line_terminator(
            #[trigger] line[i],
        ) by {
            if i < shorter.len() {
                assert(line[i] == shorter[i]);
            }
        }
    }
}

/// Stripping is the only way to cut a line into a part that does not end in a
/// line terminator and a tail of line terminators.
pub proof fn lemma_strip_terminator_unique(text: Seq<char>, tail: Seq<char>)
    requires
        spec_is_framed(text),
        spec_is_terminator_run(tail),
    ensures
        spec_strip_terminator(text + tail) == text,
    decreases tail.len(),
{
    if tail.len() > 0 {
        assert((text + tail).drop_last() =~= text + tail.drop_last());
        lemma_strip_terminator_unique(text, tail.drop_last());
    }
}

/// The encoding of a concatenation is the concatenation of the encodings.
proof fn lemma_encode_concat(a: Seq<char>, b: Seq<char>)
    ensures
        encode_utf8(a + b) == encode_utf8(a) + encode_utf8(b),
    decreases a.len(),
{
    if a.len() > 0 {
        lemma_encode_concat(a.drop_first(), b);
        assert((a + b).drop_first() =~= a.drop_first() + b);
    }
}

/// The last byte of a character's encoding is a terminator byte exactly when
/// the character is a line terminator.
proof fn lemma_scalar_last_byte(c: char)
    ensures
        encode_scalar(c as u32).len() > 0,
        is_terminator_byte(encode_scalar(c as u32).last()) <==> is_line_terminator(c),
{
    let s = c as u32;
    char_is_scalar(c);
    if has_width_1_encoding(s) {
        assert((s & 0x7F) as u8 == s) by (bit_vector)
            requires
                s <= 0x7F,
        ;
    } else {
        let low = (s & 0x3F) as u8;
        assert(0x80u8 | low >= 0x80) by (bit_vector);
    }
}

/// The encoding of a text that does not end in a line terminator does not end
/// in a terminator byte.
proof fn lemma_encode_last_byte(text: Seq<char>)
    requires
        text.len() > 0,
        !is_line_terminator(text.last()),
    ensures
        encode_utf8(text).len() > 0,
        !is_terminator_byte(encode_utf8(text).last()),
{
    let front = text.drop_last();
    let back = seq![text.last()];
    assert(text =~= front + back);
    lemma_encode_concat(front, back);
    assert(encode_utf8(back.drop_first()) =~= Seq::<u8>::empty());
    lemma_scalar_last_byte(text.last());
}

/// The encoding of a run of line terminators is a run of terminator bytes, one
/// byte for each character.
proof fn lemma_encode_terminators(tail: Seq<char>)
    requires
        forall|i: int| 0 <= i < tail.len() ==> is_line_terminator(#[trigger] tail[i]),
    ensures
        encode_utf8(tail).len() == tail.len(),
        forall|i: int| 0 <= i < tail.len() ==> is_terminator_byte(#[trigger] encode_utf8(tail)[i]),
{
    is_ascii_chars_encode_utf8(tail);
}

/// Where the payload ends in the bytes of a line: the bytes of the payload come
/// first, only terminator bytes follow, and the payload's last byte is none.
proof fn lemma_payload_bytes(line: Seq<char>)
    ensures
        spec_payload_len(spec_strip_terminator(line)) <= encode_utf8(line).len(),
        encode_utf8(line).subrange(0, spec_payload_len(spec_strip_terminator(line)) as int)
            == encode_utf8(spec_strip_terminator(line)),
        forall|i: int|
            spec_payload_len(spec_strip_terminator(line)) <= i < encode_utf8(line).len()
                ==> is_terminator_byte(#[trigger] encode_utf8(line)[i]),
        spec_payload_len(spec_strip_terminator(line)) > 0 ==> !is_terminator_byte(
            encode_utf8(line)[spec_payload_len(spec_strip_terminator(line)) - 1],
        ),
{
    let kept = spec_strip_terminator(line);
    let tail = line.subrange(kept.len() as int, line.len() as int);
    lemma_strip_terminator_shape(line);
    assert(line =~= kept + tail);
    lemma_encode_concat(kept, tail);
    lemma_encode_terminators(tail);
    if kept.len() > 0 {
        lemma_encode_last_byte(kept);
    }
}

/// Takes the line terminators off the end of a line.
pub fn strip_line_terminator(line: &str) -> (payload: String)
    ensures
        payload@ == spec_strip_terminator(line@),
{
    let bytes = line.as_bytes();
    let ghost keep: int = spec_payload_len(spec_strip_terminator(line@)) as int;
    proof {
        lemma_payload_bytes(line@);
    }
    let mut end: usize = bytes.len();
    while end > 0 && (bytes[end - 1] == 0x0A || bytes[end - 1] == 0x0D)
        invariant
            bytes@ == encode_utf8(line@),
            0 <= keep <= end <= bytes@.len(),
            forall|i: int| keep <= i < bytes@.len() ==> is_terminator_byte(#[trigger] bytes@[i]),
            keep > 0 ==> !is_terminator_byte(bytes@[keep - 1]),
        decreases end,
    {
        end = end - 1;
    }
    proof {
        assert(end == keep);
        encode_utf8_valid_utf8(line@);
        if end < bytes@.len() {
            is_char_boundary_iff_not_is_continuation_byte(bytes@, end as int);
        } else {
            is_char_boundary_start_end_of_seq(bytes@);
        }
    }
    let (head, _) = line.split_at(end);
    proof {
        encode_utf8_decode_utf8(head@);
        encode_utf8_decode_utf8(spec_strip_terminator(line@));
    }
    head.to_owned()
}

/// A text that a push may carry: at most [`MAX_PAYLOAD_LEN`] bytes long.
#[derive(Debug, PartialEq, Eq)]
pub struct Payload {
    text: String,
}

impl View for Payload {
    type V = Seq<char>;

    closed spec fn view(&self) -> Seq<char> {
        self.text@
    }
}

impl Clone for Payload {
    fn clone(&self) -> (copy: Self)
        ensures
            copy@ == self@,
    {
        proof {
            use_type_invariant(self);
        }
        Payload { text: self.text.clone() }
    }
}

impl Payload {
    #[verifier::type_invariant]
    spec fn fits(&self) -> bool {
        spec_fits(self.text@)
    }

    /// Frames the line that followed a push opcode: takes the line terminators
    /// off its end and accepts what is left if it is short enough.
    pub fn parse(line: &str) -> (payload: Option<Payload>)
        ensures
            payload is Some <==> spec_fits(spec_strip_terminator(line@)),
            payload matches Some(p) ==> p@ == spec_strip_terminator(line@),
    {
        let text = strip_line_terminator(line);
        if text.as_str().as_bytes().len() <= MAX_PAYLOAD_LEN {
            Some(Payload { text })
        } else {
            None
        }
    }

    /// The text of the payload, which is never longer than the cap.
    pub fn as_str(&self) -> (text: &str)
        ensures
            text@ == self@,
            spec_fits(self@),
    {
        proof {
            use_type_invariant(self);
        }
        self.text.as_str()
    }

    /// The bytes of the payload as they go over the wire.
    pub fn to_bytes(&self) -> (bytes: Vec<u8>)
        ensures
            bytes@ == encode_utf8(self@),
            bytes@.len() <= MAX_PAYLOAD_LEN,
    {
        proof {
            use_type_invariant(self);
        }
        self.text.as_str().as_bytes_vec()
    }
}

} // verus!
