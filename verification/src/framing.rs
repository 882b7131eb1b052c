//! Framing: every structured message travels as an 8-byte little-endian
//! count of its bytes, followed by exactly that many bytes.

use vstd::prelude::*;
use vstd::slice::{slice_subrange, slice_to_vec};
use crate::error::SyncError;

verus! {

/// The number of bytes of a length prefix.
pub const PREFIX_LEN: usize = 8;

/// The `count` lowest base-256 digits of `value`, lowest first.
pub open spec fn le_digits(value: nat, count: nat) -> Seq<u8>
    decreases count,
{
    if count == 0 {
        Seq::empty()
    } else {
        seq![(value % 256) as u8] + le_digits(value / 256, (count - 1) as nat)
    }
}

/// The number whose base-256 digits, lowest first, are `bytes`.
pub open spec fn le_value(bytes: Seq<u8>) -> nat
    decreases bytes.len(),
{
    if bytes.len() == 0 {
        0
    } else {
        bytes[0] as nat + 256 * le_value(bytes.drop_first())
    }
}

/// 256 to the power of `count`.
pub open spec fn radix_power(count: nat) -> nat
    decreases count,
{
    if count == 0 {
        1
    } else {
        256 * radix_power((count - 1) as nat)
    }
}

/// A message on the wire: the length prefix of `payload`, then `payload`.
pub open spec fn frame_of(payload: Seq<u8>) -> Seq<u8> {
    le_digits(payload.len(), 8) + payload
}

/// The payload length that the first eight bytes of `input` announce.
pub open spec fn announced(input: Seq<u8>) -> nat {
    le_value(input.subrange(0, 8))
}

/// `input` begins with a whole message: a length prefix and as many bytes as
/// it announces.
pub open spec fn starts_with_frame(input: Seq<u8>) -> bool {
    input.len() >= 8 && input.len() - 8 >= announced(input)
}

/// The payload of the message that `input` begins with.
pub open spec fn frame_payload(input: Seq<u8>) -> Seq<u8> {
    input.subrange(8, 8 + announced(input) as int)
}

/// `byteorder::LittleEndian::write_u64` on a buffer of eight bytes: the
/// eight base-256 digits of `value`, lowest first.
#[verifier::external_body]
fn write_le_u64(value: u64) -> (bytes: [u8; 8])
    ensures
        bytes@ == le_digits(value as nat, 8),
{
    let mut bytes = [0u8; 8];
    <byteorder::LittleEndian as byteorder::ByteOrder>::write_u64(&mut bytes, value);
    bytes
}

/// `byteorder::LittleEndian::read_u64`: the number whose base-256 digits,
/// lowest first, are the first eight bytes of `bytes`. It needs eight bytes.
#[verifier::external_body]
fn read_le_u64(bytes: &[u8]) -> (value: u64)
    requires
        bytes@.len() >= 8,
    ensures
        value == le_value(bytes@.subrange(0, 8)),
{
    <byteorder::LittleEndian as byteorder::ByteOrder>::read_u64(bytes)
}

/// The digits of a number below `256^count` give the number back.
pub proof fn lemma_le_value_of_digits(value: nat, count: nat)
    requires
        value < radix_power(count),
    ensures
        le_digits(value, count).len() == count,
        le_value(le_digits(value, count)) == value,
    decreases count,
{
    if count > 0 {
        let rest = le_digits(value / 256, (count - 1) as nat);
        lemma_le_value_of_digits(value / 256, (count - 1) as nat);
        assert(le_digits(value, count).drop_first() =~= rest);
    }
}

/// Eight digits hold every `u64`, and nothing more.
pub proof fn lemma_radix_power_8()
    ensures
        radix_power(8) == 0x1_0000_0000_0000_0000,
{
    reveal_with_fuel(radix_power, 9);
}

/// The message that carries `payload`.
pub fn encode_frame(payload: &[u8]) -> (frame: Vec<u8>)
    ensures
        frame@ == frame_of(payload@),
{
    let prefix = write_le_u64(payload.len() as u64);
    let mut frame = slice_to_vec(prefix.as_slice());
    frame.extend_from_slice(payload);
    assert(frame@ =~= prefix@ + payload@);
    frame
}

/// The payload length that a length prefix announces. A prefix that is cut
/// short is a network error.
pub fn announced_length(prefix: &[u8]) -> (length: Result<u64, SyncError>)
    ensures
        match length {
            Ok(n) => prefix@.len() >= 8 && n == announced(prefix@),
            Err(error) => error == SyncError::Network && prefix@.len() < 8,
        },
{
    if prefix.len() < PREFIX_LEN {
        Err(SyncError::Network)
    } else {
        Ok(read_le_u64(prefix))
    }
}

/// Takes the message that `input` begins with: gives its payload, and how
/// many bytes of `input` the message occupies. Where `input` ends before the
/// prefix or before the announced payload is complete, that is a network
/// error, and nothing is taken.
pub fn decode_frame(input: &[u8]) -> (decoded: Result<(Vec<u8>, usize), SyncError>)
    ensures
        match decoded {
            Ok((payload, used)) => starts_with_frame(input@) && payload@ == frame_payload(input@)
                && used == 8 + announced(input@),
            Err(error) => error == SyncError::Network && !starts_with_frame(input@),
        },
{
    if input.len() < PREFIX_LEN {
        return Err(SyncError::Network);
    }
    let length = read_le_u64(input);
    let available = input.len() - PREFIX_LEN;
    if length > available as u64 {
        return Err(SyncError::Network);
    }
    let end = PREFIX_LEN + length as usize;
    let payload = slice_to_vec(slice_subrange(input, PREFIX_LEN, end));
    Ok((payload, end))
}

/// A message that was framed is taken off the wire as it was: whatever
/// follows it, decoding gives back the payload and leaves exactly what
/// follows.
pub proof fn lemma_frame_round_trip(payload: Seq<u8>, rest: Seq<u8>)
    requires
        payload.len() <= u64::MAX,
    ensures
        starts_with_frame(frame_of(payload) + rest),
        frame_payload(frame_of(payload) + rest) == payload,
        (frame_of(payload) + rest).skip(8 + announced(frame_of(payload) + rest) as int) == rest,
{
    let wire = frame_of(payload) + rest;
    lemma_radix_power_8();
    lemma_le_value_of_digits(payload.len(), 8);
    assert(wire.subrange(0, 8) =~= le_digits(payload.len(), 8));
    assert(wire.subrange(8, 8 + payload.len() as int) =~= payload);
    assert(wire.skip(8 + payload.len() as int) =~= rest);
}

/// A message that is cut short anywhere is not taken for a shorter one:
/// no proper prefix of a framed message begins with a whole message.
pub proof fn lemma_truncated_frame_is_refused(payload: Seq<u8>, kept: int)
    requires
        payload.len() <= u64::MAX,
        0 <= kept < frame_of(payload).len(),
    ensures
        !starts_with_frame(frame_of(payload).take(kept)),
{
    let wire = frame_of(payload);
    let cut = wire.take(kept);
    lemma_radix_power_8();
    lemma_le_value_of_digits(payload.len(), 8);
    if kept >= 8 {
        assert(cut.subrange(0, 8) =~= le_digits(payload.len(), 8));
    }
}

} // verus!
