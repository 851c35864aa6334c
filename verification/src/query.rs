//! Form encoding of query parameters.
//!
//! The query string is produced by a separate form-encoding pass with its
//! own escaping rules, distinct from path encoding: a space becomes `+`,
//! and every byte outside `A`-`Z`, `a`-`z`, `0`-`9`, `*`, `-`, `.` and `_`
//! becomes `%XX` (uppercase hexadecimal).  Fields render as `name=token`
//! pairs joined by `&`; an absent optional field is skipped entirely.

use vstd::prelude::*;
use vstd::utf8::{encode_scalar, encode_utf8};

use crate::error::{push_bytes, UrlError, UrlErrorView};
use crate::percent::hex_upper;
use crate::url::{bare_outcome, FieldView, Params, ParamsView};
use crate::value::{dec_digits, dec_int, fmt_i64, fmt_u64, utf8_of_char, CompositeKind, Value};
use vstd::string::StringSliceAdditionalSpecFns;

verus! {

/// True for the bytes that pass through a form-encoded token unchanged.
pub open spec fn form_safe(b: u8) -> bool {
    ||| 0x41 <= b <= 0x5a
    ||| 0x61 <= b <= 0x7a
    ||| 0x30 <= b <= 0x39
    ||| b == 0x2a
    ||| b == 0x2d
    ||| b == 0x2e
    ||| b == 0x5f
}

/// What one byte contributes to a form-encoded token.
pub open spec fn form_escape_byte(b: u8) -> Seq<u8> {
    if b == 0x20 {
        seq![0x2bu8]
    } else if form_safe(b) {
        seq![b]
    } else {
        seq![0x25u8, hex_upper(b / 16), hex_upper(b % 16)]
    }
}

/// The form-encoded token of a byte sequence.
pub open spec fn form_encoded(s: Seq<u8>) -> Seq<u8>
    decreases s.len(),
{
    if s.len() == 0 {
        seq![]
    } else {
        form_escape_byte(s[0]) + form_encoded(s.drop_first())
    }
}

/// Appending one byte to the input appends its escape to the output.
pub proof fn lemma_form_encoded_push(s: Seq<u8>, b: u8)
    ensures
        form_encoded(s.push(b)) == form_encoded(s) + form_escape_byte(b),
    decreases s.len(),
{
    if s.len() == 0 {
        assert(form_encoded(Seq::<u8>::empty()) =~= Seq::<u8>::empty());
        assert(s.push(b).drop_first() =~= Seq::<u8>::empty());
        assert(s.push(b)[0] == b);
        assert(form_encoded(s.push(b)) =~= form_escape_byte(b));
        assert(form_encoded(s) + form_escape_byte(b) =~= form_escape_byte(b));
    } else {
        assert(s.push(b).drop_first() =~= s.drop_first().push(b));
        assert(s.push(b)[0] == s[0]);
        lemma_form_encoded_push(s.drop_first(), b);
        assert(form_encoded(s.push(b)) =~= form_encoded(s) + form_escape_byte(b));
    }
}

/// Form-encodes raw bytes into a query token.
pub fn form_encode(input: &[u8]) -> (out: Vec<u8>)
    ensures
        out@ == form_encoded(input@),
{
    let mut out: Vec<u8> = Vec::new();
    let mut i: usize = 0;
    while i < input.len()
        invariant
            i <= input@.len(),
            out@ == form_encoded(input@.subrange(0, i as int)),
        decreases input@.len() - i,
    {
        let b = input[i];
        if b == 0x20 {
            out.push(0x2b);
        } else if (0x41 <= b && b <= 0x5a) || (0x61 <= b && b <= 0x7a) || (0x30 <= b && b <= 0x39)
            || b == 0x2a || b == 0x2d || b == 0x2e || b == 0x5f {
            out.push(b);
        } else {
            out.push(0x25);
            out.push(crate::percent::hex_digit(b / 16));
            out.push(crate::percent::hex_digit(b % 16));
        }
        proof {
            let prefix = input@.subrange(0, i as int);
            lemma_form_encoded_push(prefix, input@[i as int]);
            assert(input@.subrange(0, i + 1) =~= prefix.push(input@[i as int]));
            assert(out@ =~= form_encoded(prefix) + form_escape_byte(input@[i as int]));
        }
        i = i + 1;
    }
    proof {
        assert(input@.subrange(0, input@.len() as int) =~= input@);
    }
    out
}

/// The form token of one present field value, or `None` for composite
/// kinds.  A unit value renders as the empty token; a wrapper renders as
/// its inner value.
pub open spec fn form_value_spec(v: Value) -> Option<Seq<u8>>
    decreases v,
{
    match v {
        Value::Bool(b) => Some(
            form_encoded(if b { ("true").spec_bytes() } else { ("false").spec_bytes() }),
        ),
        Value::I8(x) => Some(form_encoded(dec_int(x as int))),
        Value::I16(x) => Some(form_encoded(dec_int(x as int))),
        Value::I32(x) => Some(form_encoded(dec_int(x as int))),
        Value::I64(x) => Some(form_encoded(dec_int(x as int))),
        Value::U8(x) => Some(form_encoded(dec_digits(x as nat))),
        Value::U16(x) => Some(form_encoded(dec_digits(x as nat))),
        Value::U32(x) => Some(form_encoded(dec_digits(x as nat))),
        Value::U64(x) => Some(form_encoded(dec_digits(x as nat))),
        Value::Float(text) => Some(form_encoded(encode_utf8(text@))),
        Value::Char(c) => Some(form_encoded(encode_scalar(c as u32))),
        Value::Text(s) => Some(form_encoded(encode_utf8(s@))),
        Value::Bytes(b) => Some(form_encoded(b@)),
        Value::Absent => Some(Seq::empty()),
        Value::Unit => Some(Seq::empty()),
        Value::UnitVariant(name) => Some(form_encoded(encode_utf8(name@))),
        Value::Wrapped(inner) => form_value_spec(*inner),
        Value::Composite(_) => None,
    }
}

/// Encodes one present field value as a form token.
pub fn form_value(v: &Value) -> (r: Result<Vec<u8>, UrlError>)
    ensures
        match r {
            Ok(token) => form_value_spec(*v) == Some(token@),
            Err(e) => form_value_spec(*v) is None && e == UrlError::ValueNotSupported,
        },
    decreases *v,
{
    match v {
        Value::Bool(b) => {
            let text: &str = if *b {
                "true"
            } else {
                "false"
            };
            Ok(form_encode(text.as_bytes()))
        },
        Value::I8(x) => Ok(form_encode(fmt_i64(*x as i64).as_slice())),
        Value::I16(x) => Ok(form_encode(fmt_i64(*x as i64).as_slice())),
        Value::I32(x) => Ok(form_encode(fmt_i64(*x as i64).as_slice())),
        Value::I64(x) => Ok(form_encode(fmt_i64(*x).as_slice())),
        Value::U8(x) => Ok(form_encode(fmt_u64(*x as u64).as_slice())),
        Value::U16(x) => Ok(form_encode(fmt_u64(*x as u64).as_slice())),
        Value::U32(x) => Ok(form_encode(fmt_u64(*x as u64).as_slice())),
        Value::U64(x) => Ok(form_encode(fmt_u64(*x).as_slice())),
        Value::Float(text) => Ok(form_encode(text.as_str().as_bytes())),
        Value::Char(c) => Ok(form_encode(utf8_of_char(*c).as_slice())),
        Value::Text(s) => Ok(form_encode(s.as_str().as_bytes())),
        Value::Bytes(b) => Ok(form_encode(b.as_slice())),
        Value::Absent => Ok(Vec::new()),
        Value::Unit => Ok(Vec::new()),
        Value::UnitVariant(name) => Ok(form_encode(name.as_str().as_bytes())),
        Value::Wrapped(inner) => form_value(inner),
        Value::Composite(_) => Err(UrlError::ValueNotSupported),
    }
}

/// Renders the fields from index zero onwards after `acc`, skipping absent
/// fields and joining `name=token` pairs with `&`.
pub open spec fn query_fields_spec(fields: Seq<FieldView>, acc: Seq<u8>) -> Result<
    Seq<u8>,
    UrlErrorView,
>
    decreases fields.len(),
{
    if fields.len() == 0 {
        Ok(acc)
    } else {
        let f = fields[0];
        if f.value is Absent {
            query_fields_spec(fields.drop_first(), acc)
        } else {
            match form_value_spec(f.value) {
                None => Err(UrlErrorView::ValueNotSupported),
                Some(token) => {
                    let pair = form_encoded(f.name) + seq![0x3du8] + token;
                    let acc2 = if acc.len() == 0 {
                        pair
                    } else {
                        acc + seq![0x26u8] + pair
                    };
                    query_fields_spec(fields.drop_first(), acc2)
                },
            }
        }
    }
}

/// The whole query string of a params value: empty for an accepted bare
/// value, the joined pairs for a record.
pub open spec fn query_string_spec(params: ParamsView) -> Result<Seq<u8>, UrlErrorView> {
    match params {
        ParamsView::Record(fields) => query_fields_spec(fields, Seq::empty()),
        ParamsView::Bare(v) => match bare_outcome(v) {
            None => Ok(Seq::empty()),
            Some(e) => Err(e),
        },
    }
}

/// Checks a bare (non-record) query value, which contributes nothing.
fn check_bare_query(v: &Value) -> (r: Result<(), UrlError>)
    ensures
        match r {
            Ok(()) => bare_outcome(*v) is None,
            Err(e) => bare_outcome(*v) == Some(e@),
        },
    decreases *v,
{
    match v {
        Value::Absent => Ok(()),
        Value::Unit => Ok(()),
        Value::Wrapped(inner) => check_bare_query(inner),
        Value::Composite(k) => match k {
            CompositeKind::Sequence | CompositeKind::Mapping => Err(UrlError::TopLevel),
            _ => Err(UrlError::ValueNotSupported),
        },
        _ => Err(UrlError::TopLevel),
    }
}

/// Form-encodes a params value into the query string.
pub fn query_string(params: &Params) -> (r: Result<Vec<u8>, UrlError>)
    ensures
        match r {
            Ok(q) => query_string_spec(params@) == Ok::<_, UrlErrorView>(q@),
            Err(e) => query_string_spec(params@) == Err::<Seq<u8>, _>(e@),
        },
{
    match params {
        Params::Bare(v) => {
            let checked = check_bare_query(v);
            match checked {
                Ok(()) => Ok(Vec::new()),
                Err(e) => Err(e),
            }
        },
        Params::Record(fields) => {
            let ghost fv = fields@.map_values(|f: crate::url::Field| f@);
            let mut out: Vec<u8> = Vec::new();
            let mut i: usize = 0;
            proof {
                assert(fv.skip(0) =~= fv);
            }
            while i < fields.len()
                invariant
                    i <= fields@.len(),
                    fv == fields@.map_values(|f: crate::url::Field| f@),
                    fv.len() == fields@.len(),
                    query_fields_spec(fv, Seq::empty()) == query_fields_spec(
                        fv.skip(i as int),
                        out@,
                    ),
                decreases fields@.len() - i,
            {
                let field = &fields[i];
                let ghost rest = fv.skip(i as int);
                proof {
                    assert(rest[0] == fv[i as int]);
                    assert(fv[i as int] == fields@[i as int]@);
                    assert(rest.drop_first() =~= fv.skip(i + 1));
                }
                let skip_field = match &field.value {
                    Value::Absent => true,
                    _ => false,
                };
                if !skip_field {
                    let token = match form_value(&field.value) {
                        Ok(token) => token,
                        Err(e) => {
                            proof {
                                assert(query_fields_spec(rest, out@) == Err::<Seq<u8>, UrlErrorView>(
                                    e@,
                                ));
                            }
                            return Err(e);
                        },
                    };
                    let name_token = form_encode(field.name.as_str().as_bytes());
                    let ghost acc0 = out@;
                    if out.len() > 0 {
                        out.push(0x26);
                    }
                    push_bytes(&mut out, name_token.as_slice());
                    out.push(0x3d);
                    push_bytes(&mut out, token.as_slice());
                    proof {
                        let pair = form_encoded(fv[i as int].name) + seq![0x3du8] + token@;
                        if acc0.len() == 0 {
                            assert(out@ =~= pair);
                        } else {
                            assert(out@ =~= acc0 + seq![0x26u8] + pair);
                        }
                        assert(query_fields_spec(rest, acc0) == query_fields_spec(
                            fv.skip(i + 1),
                            out@,
                        ));
                    }
                } else {
                    proof {
                        assert(rest[0].value is Absent);
                        assert(query_fields_spec(rest, out@) == query_fields_spec(
                            fv.skip(i + 1),
                            out@,
                        ));
                    }
                }
                i = i + 1;
            }
            proof {
                assert(fv.skip(fv.len() as int) =~= Seq::<FieldView>::empty());
            }
            Ok(out)
        },
    }
}

} // verus!
