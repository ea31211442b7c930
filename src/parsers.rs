//! Parsers for the scalar values that attributes carry.
use vstd::prelude::*;
use vstd::string::StringSliceAdditionalSpecFns;
use vstd::utf8::{decode_utf8, encode_utf8, valid_utf8};

use crate::error::{DecodeError, ErrorKind};
use crate::wire::{get_u16, get_u32, get_u64, i32_at, u16_at, u32_at, u64_at};

verus! {

broadcast use {vstd::utf8::group_utf8_lib, vstd::slice::group_slice_axioms};

pub fn parse_u8(payload: &[u8]) -> (r: Result<u8, DecodeError>)
    ensures
        r is Ok <==> payload@.len() == 1,
        r is Ok ==> r->Ok_0 == payload@[0],
        r is Err ==> r->Err_0.kind == ErrorKind::InvalidValue,
{
    if payload.len() != 1 {
        return Err(DecodeError::new(ErrorKind::InvalidValue).context("invalid u8"));
    }
    Ok(payload[0])
}

pub fn parse_u16(payload: &[u8]) -> (r: Result<u16, DecodeError>)
    ensures
        r is Ok <==> payload@.len() == 2,
        r is Ok ==> r->Ok_0 == u16_at(payload@, 0),
        r is Err ==> r->Err_0.kind == ErrorKind::InvalidValue,
{
    if payload.len() != 2 {
        return Err(DecodeError::new(ErrorKind::InvalidValue).context("invalid u16"));
    }
    Ok(get_u16(payload, 0))
}

pub fn parse_u32(payload: &[u8]) -> (r: Result<u32, DecodeError>)
    ensures
        r is Ok <==> payload@.len() == 4,
        r is Ok ==> r->Ok_0 == u32_at(payload@, 0),
        r is Err ==> r->Err_0.kind == ErrorKind::InvalidValue,
{
    if payload.len() != 4 {
        return Err(DecodeError::new(ErrorKind::InvalidValue).context("invalid u32"));
    }
    Ok(get_u32(payload, 0))
}

pub fn parse_i32(payload: &[u8]) -> (r: Result<i32, DecodeError>)
    ensures
        r is Ok <==> payload@.len() == 4,
        r is Ok ==> r->Ok_0 == i32_at(payload@, 0),
        r is Err ==> r->Err_0.kind == ErrorKind::InvalidValue,
{
    if payload.len() != 4 {
        return Err(DecodeError::new(ErrorKind::InvalidValue).context("invalid i32"));
    }
    Ok(get_u32(payload, 0) as i32)
}

pub fn parse_u64(payload: &[u8]) -> (r: Result<u64, DecodeError>)
    ensures
        r is Ok <==> payload@.len() == 8,
        r is Ok ==> r->Ok_0 == u64_at(payload@, 0),
        r is Err ==> r->Err_0.kind == ErrorKind::InvalidValue,
{
    if payload.len() != 8 {
        return Err(DecodeError::new(ErrorKind::InvalidValue).context("invalid u64"));
    }
    Ok(get_u64(payload, 0))
}

/// The bytes of a string value: without its terminating nul, if it has one.
pub open spec fn string_body(v: Seq<u8>) -> Seq<u8> {
    if v.len() > 0 && v.last() == 0 {
        v.drop_last()
    } else {
        v
    }
}

/// The characters a string value holds, or `None` when it is not UTF-8.
pub open spec fn string_of(v: Seq<u8>) -> Option<Seq<char>> {
    if valid_utf8(string_body(v)) {
        Some(decode_utf8(string_body(v)))
    } else {
        None
    }
}

/// The encoding of a string value: its UTF-8 bytes and a nul.
pub open spec fn string_bytes(s: Seq<char>) -> Seq<u8> {
    encode_utf8(s).push(0u8)
}

/// A string value decodes to the string it encodes.
pub proof fn lemma_string_round_trip(s: Seq<char>)
    ensures
        string_of(string_bytes(s)) == Some(s),
{
    assert(string_bytes(s).drop_last() =~= encode_utf8(s));
}

/// Relies on std::str::from_utf8: it succeeds exactly on valid UTF-8, and the
/// string slice it returns has the given bytes.
#[verifier::external_body]
fn utf8_str(b: &[u8]) -> (r: Option<&str>)
    ensures
        r is Some <==> valid_utf8(b@),
        r is Some ==> r->Some_0.spec_bytes() == b@,
{
    std::str::from_utf8(b).ok()
}

/// A string value: its bytes up to an optional terminating nul, as UTF-8.
pub fn parse_string(payload: &[u8]) -> (r: Result<String, DecodeError>)
    ensures
        r is Ok <==> string_of(payload@) is Some,
        r is Ok ==> r->Ok_0@ == string_of(payload@)->Some_0,
        r is Err ==> r->Err_0.kind == ErrorKind::InvalidValue,
{
    let n = payload.len();
    let body = if n > 0 && payload[n - 1] == 0 {
        vstd::slice::slice_subrange(payload, 0, n - 1)
    } else {
        payload
    };
    assert(body@ == string_body(payload@));
    match utf8_str(body) {
        Some(s) => {
            proof {
                vstd::utf8::encode_utf8_decode_utf8(s@);
            }
            Ok(s.to_owned())
        },
        None => Err(DecodeError::new(ErrorKind::InvalidValue).context("invalid string")),
    }
}

/// The byte length of a string value: its UTF-8 bytes and a nul.
pub fn string_value_len(s: &String) -> (r: usize)
    requires
        string_bytes(s@).len() <= usize::MAX,
    ensures
        r == string_bytes(s@).len(),
{
    s.as_str().len() + 1
}

/// Appends a string value: its UTF-8 bytes and a nul.
pub fn push_string(out: &mut Vec<u8>, s: &String)
    ensures
        final(out)@ == old(out)@ + string_bytes(s@),
{
    let b = s.as_str().as_bytes();
    crate::wire::push_bytes(out, b);
    out.push(0u8);
    assert(final(out)@ =~= old(out)@ + string_bytes(s@));
}

} // verus!
