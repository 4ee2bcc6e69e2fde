//! What survives one trip over the wire: theorems that relate `encode` and
//! `decode` through the spec functions their contracts are stated in.

use crate::framing::{
    decoded, encoded, frame_of, lemma_payload_len_bounds, lemma_payload_len_unique, payload_len,
    payload_of, MSG_SIZE,
};
use vstd::prelude::*;
use vstd::utf8::*;

verus! {

/// Setting a high marker bit leaves no byte zero.
proof fn lemma_marked_byte_nonzero(x: u8)
    by (bit_vector)
    ensures
        0x80u8 | x != 0,
        0xC0u8 | x != 0,
        0xE0u8 | x != 0,
        0xF0u8 | x != 0,
{
}

/// A one-byte scalar is its own encoding.
proof fn lemma_low_seven_bits(scalar: u32)
    by (bit_vector)
    requires
        scalar <= 0x7F,
    ensures
        (scalar & 0x7F) as u8 == scalar,
{
}

/// Only the scalar zero has a zero byte in its UTF-8 encoding, and its
/// encoding is that one byte.
proof fn lemma_encode_scalar_zero(scalar: u32)
    requires
        is_scalar(scalar),
    ensures
        scalar == 0 ==> encode_scalar(scalar) == seq![0u8],
        scalar != 0 ==> forall|i: int|
            0 <= i < encode_scalar(scalar).len() ==> encode_scalar(scalar)[i] != 0,
        1 <= encode_scalar(scalar).len() <= 4,
{
    if has_width_1_encoding(scalar) {
        lemma_low_seven_bits(scalar);
    } else if has_width_2_encoding(scalar) {
        lemma_marked_byte_nonzero(((scalar >> 6) & 0x1F) as u8);
        lemma_marked_byte_nonzero((scalar & 0x3F) as u8);
    } else if has_width_3_encoding(scalar) {
        lemma_marked_byte_nonzero(((scalar >> 12) & 0x0F) as u8);
        lemma_marked_byte_nonzero(((scalar >> 6) & 0x3F) as u8);
        lemma_marked_byte_nonzero((scalar & 0x3F) as u8);
    } else {
        lemma_marked_byte_nonzero(((scalar >> 18) & 0x7) as u8);
        lemma_marked_byte_nonzero(((scalar >> 12) & 0x3F) as u8);
        lemma_marked_byte_nonzero(((scalar >> 6) & 0x3F) as u8);
        lemma_marked_byte_nonzero((scalar & 0x3F) as u8);
    }
}

/// The UTF-8 bytes of a text hold a zero byte exactly where the text holds
/// the character NUL.
pub proof fn lemma_zero_byte_iff_nul(text: Seq<char>)
    ensures
        encode_utf8(text).contains(0u8) <==> text.contains('\0'),
    decreases text.len(),
{
    let bytes = encode_utf8(text);
    if text.len() == 0 {
    } else {
        let head = encode_scalar(text[0] as u32);
        let rest = text.drop_first();
        let tail = encode_utf8(rest);
        char_is_scalar(text[0]);
        lemma_encode_scalar_zero(text[0] as u32);
        lemma_zero_byte_iff_nul(rest);
        assert(bytes == head + tail);
        if text.contains('\0') {
            let k = choose|k: int| 0 <= k < text.len() && text[k] == '\0';
            if k == 0 {
                assert(bytes[0] == 0u8);
            } else {
                assert(rest[k - 1] == '\0');
                let j = choose|j: int| 0 <= j < tail.len() && tail[j] == 0u8;
                assert(bytes[head.len() + j] == 0u8);
            }
        }
        if bytes.contains(0u8) {
            let j = choose|j: int| 0 <= j < bytes.len() && bytes[j] == 0u8;
            if j < head.len() {
                assert(head[j] == 0u8);
                assert(text[0] as u32 == 0);
                char_u32_cast(text[0], 0u32);
                char_u32_cast('\0', 0u32);
                assert(text[0] == '\0');
            } else {
                assert(tail[j - head.len()] == 0u8);
                let k = choose|k: int| 0 <= k < rest.len() && rest[k] == '\0';
                assert(text[k + 1] == '\0');
            }
        }
    }
}

/// A frame carries the leading non-zero bytes of the first `MSG_SIZE` bytes
/// it was made from, whatever followed them.
pub proof fn lemma_payload_of_frame(bytes: Seq<u8>)
    ensures
        bytes.len() <= MSG_SIZE ==> payload_of(frame_of(bytes)) == payload_of(bytes),
        bytes.len() > MSG_SIZE ==> payload_of(frame_of(bytes)) == payload_of(
            bytes.take(MSG_SIZE as int),
        ),
{
    let frame = frame_of(bytes);
    let kept = if bytes.len() <= MSG_SIZE {
        bytes
    } else {
        bytes.take(MSG_SIZE as int)
    };
    let n = payload_len(kept) as int;
    lemma_payload_len_bounds(kept);
    assert forall|i: int| 0 <= i < n implies frame[i] != 0 by {
        assert(frame[i] == kept[i]);
    }
    lemma_payload_len_unique(frame, n);
    assert(frame.take(n) =~= kept.take(n));
}

/// Round trip: a text of at most `MSG_SIZE` bytes that holds no NUL
/// character is decoded as it was encoded.
pub proof fn lemma_round_trip(message: Seq<char>)
    requires
        encode_utf8(message).len() <= MSG_SIZE,
        !message.contains('\0'),
    ensures
        decoded(encoded(message)) == Some(message),
{
    let bytes = encode_utf8(message);
    lemma_zero_byte_iff_nul(message);
    lemma_payload_of_frame(bytes);
    lemma_payload_len_unique(bytes, bytes.len() as int);
    assert(payload_of(bytes) =~= bytes);
    encode_utf8_valid_utf8(message);
    encode_utf8_decode_utf8(message);
}

/// No other text comes back unchanged: one that does fits a frame and holds
/// no NUL character.
pub proof fn lemma_round_trip_only(message: Seq<char>)
    requires
        decoded(encoded(message)) == Some(message),
    ensures
        encode_utf8(message).len() <= MSG_SIZE,
        !message.contains('\0'),
{
    let payload = payload_of(encoded(message));
    lemma_payload_len_bounds(encoded(message));
    decode_utf8_encode_utf8(payload);
    assert(encode_utf8(message) == payload);
    assert forall|i: int| 0 <= i < payload.len() implies payload[i] != 0u8 by {
        assert(payload[i] == encoded(message)[i]);
    }
    lemma_zero_byte_iff_nul(message);
}

/// Truncation: a text longer than `MSG_SIZE` bytes is decoded as the text of
/// its first `MSG_SIZE` bytes, where those bytes hold no zero byte and end
/// between two characters. That text is a prefix of the message.
pub proof fn lemma_truncation(message: Seq<char>)
    requires
        encode_utf8(message).len() > MSG_SIZE,
        is_char_boundary(encode_utf8(message), MSG_SIZE as int),
        !encode_utf8(message).take(MSG_SIZE as int).contains(0u8),
    ensures
        decoded(encoded(message)) == Some(decode_utf8(encode_utf8(message).take(MSG_SIZE as int))),
        decoded(encoded(message)) matches Some(text) && text == message.take(text.len() as int)
            && encode_utf8(text) == encode_utf8(message).take(MSG_SIZE as int),
{
    let bytes = encode_utf8(message);
    let kept = bytes.take(MSG_SIZE as int);
    let dropped = bytes.subrange(MSG_SIZE as int, bytes.len() as int);
    lemma_payload_of_frame(bytes);
    lemma_payload_len_unique(kept, MSG_SIZE as int);
    assert(payload_of(kept) =~= kept);
    encode_utf8_valid_utf8(message);
    encode_utf8_decode_utf8(message);
    assert(kept == bytes.subrange(0, MSG_SIZE as int));
    valid_utf8_split(bytes, MSG_SIZE as int);
    decode_utf8_split(bytes, MSG_SIZE as int);
    decode_utf8_encode_utf8(kept);
    let text = decode_utf8(kept);
    assert(message == text + decode_utf8(dropped));
    assert(text =~= message.take(text.len() as int));
}

/// A prefix of valid UTF-8 that is valid UTF-8 itself ends between two
/// characters.
proof fn lemma_valid_prefix_ends_on_boundary(bytes: Seq<u8>, index: int)
    requires
        valid_utf8(bytes),
        0 <= index <= bytes.len(),
        valid_utf8(bytes.take(index)),
    ensures
        is_char_boundary(bytes, index),
    decreases bytes.len(),
{
    if index > 0 {
        let prefix = bytes.take(index);
        let width = length_of_first_scalar(prefix);
        assert(prefix[0] == bytes[0]);
        assert(width == length_of_first_scalar(bytes));
        assert(pop_first_scalar(prefix) =~= pop_first_scalar(bytes).take(index - width));
        lemma_valid_prefix_ends_on_boundary(pop_first_scalar(bytes), index - width);
    }
}

/// No other long text is cut to its first `MSG_SIZE` bytes: where the decoded
/// text spells exactly those bytes, they hold no zero byte and end between
/// two characters.
pub proof fn lemma_truncation_only(message: Seq<char>)
    requires
        encode_utf8(message).len() > MSG_SIZE,
        decoded(encoded(message)) matches Some(text) && encode_utf8(text) == encode_utf8(
            message,
        ).take(MSG_SIZE as int),
    ensures
        is_char_boundary(encode_utf8(message), MSG_SIZE as int),
        !encode_utf8(message).take(MSG_SIZE as int).contains(0u8),
{
    let bytes = encode_utf8(message);
    let kept = bytes.take(MSG_SIZE as int);
    let payload = payload_of(encoded(message));
    lemma_payload_len_bounds(encoded(message));
    decode_utf8_encode_utf8(payload);
    assert(payload == kept);
    assert forall|i: int| 0 <= i < kept.len() implies kept[i] != 0u8 by {
        assert(payload[i] == encoded(message)[i]);
    }
    encode_utf8_valid_utf8(message);
    lemma_valid_prefix_ends_on_boundary(bytes, MSG_SIZE as int);
}

} // verus!
