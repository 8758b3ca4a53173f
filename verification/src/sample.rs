//! Conversions between the sample representations of the wire, the buffer
//! and the device. The buffer holds signed 16-bit PCM; every conversion here
//! goes to or from that.

use dasp_sample::Sample;
use vstd::prelude::*;

verus! {

/// Unsigned 8-bit PCM, centred on 128, as signed 16-bit PCM.
pub open spec fn widen_u8(s: u8) -> i16 {
    ((s as int - 128) * 256) as i16
}

/// Signed 16-bit PCM as unsigned 16-bit PCM, centred on 32768.
pub open spec fn offset_u16(s: i16) -> u16 {
    (s as int + 32768) as u16
}

/// Signed 16-bit PCM as unsigned 8-bit PCM, centred on 128: the high byte,
/// rounded down.
pub open spec fn narrow_u8(s: i16) -> u8 {
    (s as int / 256 + 128) as u8
}

/// `dasp_sample`'s conversion from `u8` to `i16` (`Sample::from_sample`,
/// which goes to `conv::u8::to_i16`): the sample is moved to the signed range
/// and shifted left by eight bits. Nothing is lost; the result is a multiple
/// of 256 between -32768 and 32512.
#[verifier::external_body]
pub(crate) fn pcm_from_u8(s: u8) -> (r: i16)
    ensures
        r == widen_u8(s),
{
    i16::from_sample(s)
}

/// `dasp_sample`'s conversion from `i16` to `u16` (`Sample::from_sample`,
/// which goes to `conv::i16::to_u16`): 32768 is added, so that silence lies
/// at the middle of the unsigned range.
#[verifier::external_body]
pub(crate) fn pcm_to_u16(s: i16) -> (r: u16)
    ensures
        r == offset_u16(s),
{
    u16::from_sample(s)
}

/// `dasp_sample`'s conversion from `i16` to `u8` (`Sample::from_sample`,
/// which goes to `conv::i16::to_u8`): an arithmetic shift right by eight
/// bits, then 128 is added.
#[verifier::external_body]
pub(crate) fn pcm_to_u8(s: i16) -> (r: u8)
    ensures
        r == narrow_u8(s),
{
    u8::from_sample(s)
}

/// A big-endian pair of bytes as a signed 16-bit sample.
pub open spec fn signed_be16(high: u8, low: u8) -> i16 {
    if high < 128 {
        (high as int * 256 + low as int) as i16
    } else {
        (high as int * 256 + low as int - 65536) as i16
    }
}

/// Reads a signed 16-bit sample from two bytes, high byte first.
pub fn i16_from_be(high: u8, low: u8) -> (r: i16)
    ensures
        r == signed_be16(high, low),
{
    let raw: i32 = (high as i32) * 256 + (low as i32);
    if high < 128 {
        raw as i16
    } else {
        (raw - 65536) as i16
    }
}

} // verus!
