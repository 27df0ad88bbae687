//! The framed line protocol: an inbound frame ends at three consecutive `!`
//! characters, and its payload decodes to input events.

use crate::input::Input;
use vstd::prelude::*;

verus! {

/// The outcome of one attempt to read a framed message from a stream.
pub enum StreamReadResult {
    /// A complete frame was read; this is its payload.
    ValidMessage(String),
    /// The buffer holds no complete frame, or an empty payload.
    InvalidMessage,
    /// The stream failed; the connection is gone.
    StreamError(String),
    /// Nothing to read yet; try again next poll.
    NotReady,
}

/// The outcome of one attempt to write to a stream.
pub enum StreamWriteResult {
    Sent,
    SocketClosed,
    OtherError(String),
}

/// A frame terminator — three consecutive `!` characters — starts at
/// position `i` of `s`.
pub open spec fn frame_terminator_at(s: Seq<char>, i: int) -> bool {
    0 <= i && i + 2 < s.len() && s[i] == '!' && s[i + 1] == '!' && s[i + 2] == '!'
}

/// `s` contains a frame terminator somewhere.
pub open spec fn has_frame_terminator(s: Seq<char>) -> bool {
    exists|i: int| frame_terminator_at(s, i)
}

/// The length of the frame payload in `msg`: the position of the first
/// frame terminator. A buffer may hold the tail of more than one frame; the
/// payload always ends at the leftmost terminator. Returns 0 when the buffer
/// holds no terminator — the frame is incomplete — and also when the
/// terminator sits at the very start, i.e. the payload is empty.
pub fn find_stream_end_chars(msg: &str) -> (r: usize)
    ensures
        has_frame_terminator(msg@) ==> frame_terminator_at(msg@, r as int) && (forall|j: int|
            0 <= j < r ==> !frame_terminator_at(msg@, j)),
        !has_frame_terminator(msg@) ==> r == 0,
{
    let len = msg.unicode_len();
    if len < 3 {
        return 0;
    }
    let mut i: usize = 0;
    while i + 2 < len
        invariant
            len == msg@.len(),
            i + 2 <= len,
            forall|j: int| 0 <= j < i ==> !frame_terminator_at(msg@, j),
        decreases len - i,
    {
        if msg.get_char(i) == '!' && msg.get_char(i + 1) == '!' && msg.get_char(i + 2) == '!' {
            return i;
        }
        i += 1;
    }
    proof {
        assert forall|j: int| !frame_terminator_at(msg@, j) by {
            if 0 <= j < i {
            } else {
                assert(!(j + 2 < msg@.len() && j >= 0));
            }
        }
    }
    0
}

/// Decodes the frame at the start of a read buffer. The message is the text
/// before the first frame terminator; whatever follows the terminator is
/// discarded. A buffer without a terminator, or with an empty payload, is
/// not (yet) a valid message.
pub fn decode_buffer(msg: &str) -> (r: StreamReadResult)
    ensures
        match r {
            StreamReadResult::ValidMessage(m) => exists|i: int|
                frame_terminator_at(msg@, i) && i > 0 && (forall|j: int|
                    0 <= j < i ==> !frame_terminator_at(msg@, j)) && m@ == msg@.subrange(0, i),
            StreamReadResult::InvalidMessage => !has_frame_terminator(msg@)
                || frame_terminator_at(msg@, 0),
            _ => false,
        },
{
    let n = find_stream_end_chars(msg);
    if n == 0 {
        StreamReadResult::InvalidMessage
    } else {
        let m = msg.substring_char(0, n).to_owned();
        StreamReadResult::ValidMessage(m)
    }
}

/// One decoded client message: the pointer clicks and key events it carries.
pub struct InputMessage {
    pub keys: Vec<char>,
    pub clicks: Vec<(u32, u32)>,
}

/// Relies on `char`'s `ToString` (through `Display`): the returned string
/// holds exactly the one character.
#[verifier::external_body]
fn char_to_string(c: char) -> (r: String)
    ensures
        r@ == seq![c],
{
    c.to_string()
}

/// The input events a message decodes to: one click event per click, in
/// order, followed by one key event per key character, in order.
pub fn input_events(msg: &InputMessage) -> (r: Vec<Input>)
    ensures
        r@.len() == msg.clicks@.len() + msg.keys@.len(),
        forall|i: int|
            0 <= i < msg.clicks@.len() ==> r@[i] == (Input::Click {
                x: msg.clicks@[i].0,
                y: msg.clicks@[i].1,
            }),
        forall|i: int|
            0 <= i < msg.keys@.len() ==> ((#[trigger] r@[msg.clicks@.len() + i]) matches Input::Key(
                k,
            ) && k@ == seq![msg.keys@[i]]),
{
    let mut r: Vec<Input> = Vec::new();
    let mut i: usize = 0;
    while i < msg.clicks.len()
        invariant
            i <= msg.clicks@.len(),
            r@.len() == i,
            forall|j: int|
                0 <= j < i ==> r@[j] == (Input::Click {
                    x: msg.clicks@[j].0,
                    y: msg.clicks@[j].1,
                }),
        decreases msg.clicks@.len() - i,
    {
        let (x, y) = msg.clicks[i];
        r.push(Input::Click { x, y });
        i += 1;
    }
    let mut j: usize = 0;
    while j < msg.keys.len()
        invariant
            j <= msg.keys@.len(),
            r@.len() == msg.clicks@.len() + j,
            forall|t: int|
                0 <= t < msg.clicks@.len() ==> r@[t] == (Input::Click {
                    x: msg.clicks@[t].0,
                    y: msg.clicks@[t].1,
                }),
            forall|t: int|
                0 <= t < j ==> ((#[trigger] r@[msg.clicks@.len() + t]) matches Input::Key(k)
                    && k@ == seq![msg.keys@[t]]),
        decreases msg.keys@.len() - j,
    {
        let s = char_to_string(msg.keys[j]);
        r.push(Input::Key(s));
        j += 1;
    }
    r
}

} // verus!