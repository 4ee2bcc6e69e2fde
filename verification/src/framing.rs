//! Wire framing: every message travels as one block of exactly `MSG_SIZE`
//! bytes.
//!
//! A frame holds the UTF-8 bytes of its text, cut after `MSG_SIZE` bytes and
//! padded with zero bytes. There is no length prefix: the text of a frame is
//! what stands before its first zero byte.

use vstd::prelude::*;
use vstd::utf8::*;

verus! {

/// Length in bytes of every frame on the wire.
pub const MSG_SIZE: usize = 32;

/// The frame made from `payload`: its first `MSG_SIZE` bytes, followed by
/// zero bytes where the payload is shorter.
pub open spec fn frame_of(payload: Seq<u8>) -> Seq<u8> {
    Seq::new(
        MSG_SIZE as nat,
        |i: int|
            if i < payload.len() {
                payload[i]
            } else {
                0u8
            },
    )
}

/// Number of bytes of `bytes` that precede its first zero byte; its whole
/// length if no byte is zero.
pub open spec fn payload_len(bytes: Seq<u8>) -> nat
    decreases bytes.len(),
{
    if bytes.len() == 0 || bytes[0] == 0 {
        0
    } else {
        1 + payload_len(bytes.drop_first())
    }
}

/// The leading run of non-zero bytes of `bytes`.
pub open spec fn payload_of(bytes: Seq<u8>) -> Seq<u8> {
    bytes.take(payload_len(bytes) as int)
}

/// The bytes of the frame that carries the text `message`.
pub open spec fn encoded(message: Seq<char>) -> Seq<u8> {
    frame_of(encode_utf8(message))
}

/// The text that a frame with the bytes `frame` carries: what its payload
/// spells in UTF-8, or `None` where the payload is not valid UTF-8.
pub open spec fn decoded(frame: Seq<u8>) -> Option<Seq<char>> {
    if valid_utf8(payload_of(frame)) {
        Some(decode_utf8(payload_of(frame)))
    } else {
        None
    }
}

/// `payload_len` is the one position that ends a run of non-zero bytes at a
/// zero byte or at the end of `bytes`.
pub proof fn lemma_payload_len_unique(bytes: Seq<u8>, n: int)
    requires
        0 <= n <= bytes.len(),
        forall|i: int| 0 <= i < n ==> bytes[i] != 0,
        n < bytes.len() ==> bytes[n] == 0,
    ensures
        payload_len(bytes) == n,
    decreases n,
{
    if n > 0 {
        let rest = bytes.drop_first();
        assert forall|i: int| 0 <= i < n - 1 implies rest[i] != 0 by {
            assert(rest[i] == bytes[i + 1]);
        }
        lemma_payload_len_unique(rest, n - 1);
    }
}

/// The payload stops at the first zero byte and holds none itself.
pub proof fn lemma_payload_len_bounds(bytes: Seq<u8>)
    ensures
        payload_len(bytes) <= bytes.len(),
        forall|i: int| 0 <= i < payload_len(bytes) ==> bytes[i] != 0,
        payload_len(bytes) < bytes.len() ==> bytes[payload_len(bytes) as int] == 0,
    decreases bytes.len(),
{
    if bytes.len() != 0 && bytes[0] != 0 {
        let rest = bytes.drop_first();
        lemma_payload_len_bounds(rest);
        assert forall|i: int| 0 <= i < payload_len(bytes) implies bytes[i] != 0 by {
            if i > 0 {
                assert(rest[i - 1] == bytes[i]);
            }
        }
        if payload_len(bytes) < bytes.len() {
            assert(rest[payload_len(rest) as int] == bytes[payload_len(bytes) as int]);
        }
    }
}

/// Trusted, not proved: the error type of `String::from_utf8`, of which
/// nothing is known here but that it exists.
#[verifier::external_type_specification]
#[verifier::external_body]
pub struct ExFromUtf8Error(std::string::FromUtf8Error);

/// Trusted, not proved: `String::from_utf8` succeeds on exactly the byte
/// vectors that are valid UTF-8, and the string it then returns has the
/// vector's bytes as its UTF-8 encoding.
pub assume_specification[ String::from_utf8 ](vec: Vec<u8>) -> (result: Result<
    String,
    std::string::FromUtf8Error,
>)
    ensures
        result is Ok <==> valid_utf8(vec@),
        result matches Ok(text) ==> encode_utf8(text@) == vec@,
;

/// A frame whose payload is not valid UTF-8 text.
#[derive(Clone, Copy, Debug, PartialEq, Eq, Structural)]
pub struct DecodeError;

/// A fixed-size block of bytes as exchanged on the wire.
#[derive(Clone, Copy, Debug, PartialEq, Eq)]
pub struct Frame {
    pub bytes: [u8; MSG_SIZE],
}

impl View for Frame {
    type V = Seq<u8>;

    /// The `MSG_SIZE` bytes of the frame.
    open spec fn view(&self) -> Seq<u8> {
        self.bytes@
    }
}

impl Frame {
    /// Takes `bytes` as a frame where they are exactly one frame long.
    pub fn from_bytes(bytes: &[u8]) -> (frame: Option<Frame>)
        ensures
            frame is Some <==> bytes@.len() == MSG_SIZE,
            frame matches Some(f) ==> f@ == bytes@,
    {
        if bytes.len() != MSG_SIZE {
            return None;
        }
        let mut block = [0u8; MSG_SIZE];
        let mut i: usize = 0;
        while i < MSG_SIZE
            invariant
                i <= MSG_SIZE,
                bytes@.len() == MSG_SIZE,
                forall|j: int| 0 <= j < i ==> block@[j] == bytes@[j],
            decreases MSG_SIZE - i,
        {
            block[i] = bytes[i];
            i += 1;
        }
        assert(block@ =~= bytes@);
        Some(Frame { bytes: block })
    }

    /// The bytes of the frame up to its first zero byte.
    pub fn payload(&self) -> (payload: Vec<u8>)
        ensures
            payload@ == payload_of(self@),
    {
        let mut payload: Vec<u8> = Vec::new();
        let mut i: usize = 0;
        while i < MSG_SIZE && self.bytes[i] != 0
            invariant
                i <= MSG_SIZE,
                payload@ == self@.take(i as int),
                forall|j: int| 0 <= j < i ==> self@[j] != 0,
            decreases MSG_SIZE - i,
        {
            payload.push(self.bytes[i]);
            assert(self@.take(i as int).push(self@[i as int]) =~= self@.take(i + 1));
            i += 1;
        }
        proof {
            lemma_payload_len_unique(self@, i as int);
        }
        payload
    }
}

/// Frames `message`: its UTF-8 bytes, cut after `MSG_SIZE` bytes and padded
/// with zero bytes. Never fails; a longer message is cut without notice.
pub fn encode(message: &str) -> (frame: Frame)
    ensures
        frame@ == encoded(message@),
{
    let text = message.as_bytes();
    let mut bytes = [0u8; MSG_SIZE];
    let mut i: usize = 0;
    while i < MSG_SIZE && i < text.len()
        invariant
            i <= MSG_SIZE,
            i <= text@.len(),
            text@ == encode_utf8(message@),
            forall|j: int| 0 <= j < i ==> bytes@[j] == text@[j],
            forall|j: int| i <= j < MSG_SIZE ==> bytes@[j] == 0u8,
        decreases MSG_SIZE - i,
    {
        bytes[i] = text[i];
        i += 1;
    }
    assert(bytes@ =~= encoded(message@));
    Frame { bytes }
}

/// Reads the text that `frame` carries: the bytes before its first zero byte,
/// as UTF-8. Fails exactly where those bytes are not valid UTF-8.
pub fn decode(frame: &Frame) -> (result: Result<String, DecodeError>)
    ensures
        match result {
            Ok(message) => decoded(frame@) == Some(message@),
            Err(_) => decoded(frame@) is None,
        },
{
    match String::from_utf8(frame.payload()) {
        Ok(message) => {
            proof {
                encode_utf8_decode_utf8(message@);
            }
            Ok(message)
        },
        Err(_) => Err(DecodeError),
    }
}

} // verus!
