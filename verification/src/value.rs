//! Record leaf values and their encoding as path tokens.
//!
//! A [`Value`] is one leaf of a request record.  Encoding turns one value
//! into one percent-encoded text token, or fails with
//! [`UrlError::ValueNotSupported`] for composite kinds.  The rules are fixed:
//! booleans render as `true`/`false`, integers as canonical base-10 text,
//! a single Unicode scalar as its percent-encoded UTF-8 bytes, text and raw
//! bytes percent-encoded, absent or unit values as the empty token, an
//! enumerated unit tag as its declared name, and a single-field wrapper as
//! whatever its inner value encodes to.

use vstd::prelude::*;
use vstd::string::StringSliceAdditionalSpecFns;
use vstd::utf8::{encode_scalar, encode_utf8};

use crate::error::{push_bytes, UrlError};
use crate::percent::{percent_encode, percent_encoded};

verus! {

/// The canonical base-10 digits of a natural number, most significant first,
/// with no leading zero (a single `0` for zero).
pub open spec fn dec_digits(n: nat) -> Seq<u8>
    decreases n,
{
    if n < 10 {
        seq![(0x30 + n) as u8]
    } else {
        dec_digits(n / 10).push((0x30 + n % 10) as u8)
    }
}

/// The canonical base-10 text of an integer: a minus sign for negatives,
/// then the digits of the magnitude.
pub open spec fn dec_int(i: int) -> Seq<u8> {
    if i < 0 {
        seq![0x2du8] + dec_digits((-i) as nat)
    } else {
        dec_digits(i as nat)
    }
}

/// Formats an unsigned integer as its canonical base-10 digits.
pub fn fmt_u64(n: u64) -> (out: Vec<u8>)
    ensures
        out@ == dec_digits(n as nat),
    decreases n,
{
    if n < 10 {
        let mut out: Vec<u8> = Vec::new();
        out.push(0x30 + (n as u8));
        out
    } else {
        let mut out = fmt_u64(n / 10);
        out.push(0x30 + ((n % 10) as u8));
        out
    }
}

/// Formats a signed integer as its canonical base-10 text.
pub fn fmt_i64(i: i64) -> (out: Vec<u8>)
    ensures
        out@ == dec_int(i as int),
{
    if i >= 0 {
        fmt_u64(i as u64)
    } else {
        let magnitude: u64 = (-(i as i128)) as u64;
        let mut out: Vec<u8> = Vec::new();
        out.push(0x2d);
        let digits = fmt_u64(magnitude);
        push_bytes(&mut out, digits.as_slice());
        proof {
            assert(out@ =~= seq![0x2du8] + dec_digits(magnitude as nat));
        }
        out
    }
}

/// Encodes one Unicode scalar as its UTF-8 bytes.
pub fn utf8_of_char(c: char) -> (out: Vec<u8>)
    ensures
        out@ == encode_scalar(c as u32),
{
    let v = c as u32;
    let mut out: Vec<u8> = Vec::new();
    if v < 0x80 {
        out.push((v & 0x7F) as u8);
    } else if v < 0x800 {
        out.push(0xC0 | (((v >> 6) & 0x1F) as u8));
        out.push(0x80 | ((v & 0x3F) as u8));
    } else if v < 0x10000 {
        out.push(0xE0 | (((v >> 12) & 0x0F) as u8));
        out.push(0x80 | (((v >> 6) & 0x3F) as u8));
        out.push(0x80 | ((v & 0x3F) as u8));
    } else {
        out.push(0xF0 | (((v >> 18) & 0x7) as u8));
        out.push(0x80 | (((v >> 12) & 0x3F) as u8));
        out.push(0x80 | (((v >> 6) & 0x3F) as u8));
        out.push(0x80 | ((v & 0x3F) as u8));
    }
    proof {
        assert(out@ =~= encode_scalar(c as u32));
    }
    out
}

/// The composite value kinds, none of which encodes as a single token.
#[derive(Debug, Clone, Copy, PartialEq, Eq)]
pub enum CompositeKind {
    Sequence,
    Tuple,
    TupleStruct,
    TupleVariant,
    Mapping,
    Record,
    RecordVariant,
}

/// One leaf value of a request record.
///
/// A float is carried as its already-rendered shortest round-trippable
/// decimal text, since the engine itself never computes with floats.
#[derive(Debug, PartialEq)]
pub enum Value {
    Bool(bool),
    I8(i8),
    I16(i16),
    I32(i32),
    I64(i64),
    U8(u8),
    U16(u16),
    U32(u32),
    U64(u64),
    /// The decimal text of a float, e.g. `-2.5`.
    Float(String),
    Char(char),
    Text(String),
    Bytes(Vec<u8>),
    /// An absent optional.
    Absent,
    /// A unit value or an empty record.
    Unit,
    /// An enumerated unit tag, carried as its declared textual name.
    UnitVariant(String),
    /// A single-field wrapper around another value.
    Wrapped(Box<Value>),
    /// A composite value, which no token can carry.
    Composite(CompositeKind),
}

/// The token that a value encodes to, or `None` for composite kinds.
pub open spec fn encode_spec(v: Value) -> Option<Seq<u8>>
    decreases v,
{
    match v {
        Value::Bool(b) => Some(
            percent_encoded(if b { ("true").spec_bytes() } else { ("false").spec_bytes() }),
        ),
        Value::I8(x) => Some(percent_encoded(dec_int(x as int))),
        Value::I16(x) => Some(percent_encoded(dec_int(x as int))),
        Value::I32(x) => Some(percent_encoded(dec_int(x as int))),
        Value::I64(x) => Some(percent_encoded(dec_int(x as int))),
        Value::U8(x) => Some(percent_encoded(dec_digits(x as nat))),
        Value::U16(x) => Some(percent_encoded(dec_digits(x as nat))),
        Value::U32(x) => Some(percent_encoded(dec_digits(x as nat))),
        Value::U64(x) => Some(percent_encoded(dec_digits(x as nat))),
        Value::Float(text) => Some(percent_encoded(encode_utf8(text@))),
        Value::Char(c) => Some(percent_encoded(encode_scalar(c as u32))),
        Value::Text(s) => Some(percent_encoded(encode_utf8(s@))),
        Value::Bytes(b) => Some(percent_encoded(b@)),
        Value::Absent => Some(Seq::empty()),
        Value::Unit => Some(Seq::empty()),
        Value::UnitVariant(name) => Some(percent_encoded(encode_utf8(name@))),
        Value::Wrapped(inner) => encode_spec(*inner),
        Value::Composite(_) => None,
    }
}

/// Encodes one value into one percent-encoded token.
///
/// Succeeds on every scalar/leaf kind; fails with `ValueNotSupported` on
/// every composite kind, and on nothing else.
pub fn encode_value(v: &Value) -> (r: Result<Vec<u8>, UrlError>)
    ensures
        match r {
            Ok(token) => encode_spec(*v) == Some(token@),
            Err(e) => encode_spec(*v) is None && e == UrlError::ValueNotSupported,
        },
    decreases *v,
{
    match v {
        Value::Bool(b) => {
            let text: &str = if *b {
                "true"
            } else {
                "false"
            };
            Ok(percent_encode(text.as_bytes()))
        },
        Value::I8(x) => Ok(percent_encode(fmt_i64(*x as i64).as_slice())),
        Value::I16(x) => Ok(percent_encode(fmt_i64(*x as i64).as_slice())),
        Value::I32(x) => Ok(percent_encode(fmt_i64(*x as i64).as_slice())),
        Value::I64(x) => Ok(percent_encode(fmt_i64(*x).as_slice())),
        Value::U8(x) => Ok(percent_encode(fmt_u64(*x as u64).as_slice())),
        Value::U16(x) => Ok(percent_encode(fmt_u64(*x as u64).as_slice())),
        Value::U32(x) => Ok(percent_encode(fmt_u64(*x as u64).as_slice())),
        Value::U64(x) => Ok(percent_encode(fmt_u64(*x).as_slice())),
        Value::Float(text) => Ok(percent_encode(text.as_str().as_bytes())),
        Value::Char(c) => Ok(percent_encode(utf8_of_char(*c).as_slice())),
        Value::Text(s) => Ok(percent_encode(s.as_str().as_bytes())),
        Value::Bytes(b) => Ok(percent_encode(b.as_slice())),
        Value::Absent => Ok(Vec::new()),
        Value::Unit => Ok(Vec::new()),
        Value::UnitVariant(name) => Ok(percent_encode(name.as_str().as_bytes())),
        Value::Wrapped(inner) => encode_value(inner),
        Value::Composite(_) => Err(UrlError::ValueNotSupported),
    }
}

} // verus!
