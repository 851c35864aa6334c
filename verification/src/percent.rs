//! Percent-encoding of path tokens.
//!
//! A path token is produced from raw bytes by escaping every byte of the
//! path-unsafe set as `%XX` (uppercase hexadecimal) and passing every other
//! byte through unchanged.  The unsafe set is fixed: the control bytes
//! (`0x00`..=`0x1F` and `0x7F`), the space, `"`, `#`, `<`, `>`, `?`, the
//! backtick, `{`, `}`, and every byte at or above `0x80` — so the bytes of
//! multi-byte UTF-8 sequences are escaped, single Unicode scalar included.

use vstd::prelude::*;

verus! {

/// True for the bytes that a path token must escape.
pub open spec fn path_unsafe(b: u8) -> bool {
    ||| b < 0x20
    ||| b == 0x7f
    ||| b == 0x20
    ||| b == 0x22
    ||| b == 0x23
    ||| b == 0x3c
    ||| b == 0x3e
    ||| b == 0x3f
    ||| b == 0x60
    ||| b == 0x7b
    ||| b == 0x7d
    ||| b >= 0x80
}

/// The uppercase hexadecimal digit for a value below 16.
pub open spec fn hex_upper(n: u8) -> u8
    recommends
        n < 16,
{
    if n < 10 {
        (0x30 + n) as u8
    } else {
        (0x37 + n) as u8
    }
}

/// What one byte contributes to a path token: itself, or `%` followed by
/// its two hexadecimal digits.
pub open spec fn escape_byte(b: u8) -> Seq<u8> {
    if path_unsafe(b) {
        seq![0x25u8, hex_upper(b / 16), hex_upper(b % 16)]
    } else {
        seq![b]
    }
}

/// The path token encoding a byte sequence.
pub open spec fn percent_encoded(s: Seq<u8>) -> Seq<u8>
    decreases s.len(),
{
    if s.len() == 0 {
        seq![]
    } else {
        escape_byte(s[0]) + percent_encoded(s.drop_first())
    }
}

/// Appending one byte to the input appends its escape to the output.
pub proof fn lemma_percent_encoded_push(s: Seq<u8>, b: u8)
    ensures
        percent_encoded(s.push(b)) == percent_encoded(s) + escape_byte(b),
    decreases s.len(),
{
    if s.len() == 0 {
        assert(percent_encoded(Seq::<u8>::empty()) =~= Seq::<u8>::empty());
        assert(s.push(b).drop_first() =~= Seq::<u8>::empty());
        assert(s.push(b)[0] == b);
        assert(percent_encoded(s.push(b)) =~= escape_byte(b));
        assert(percent_encoded(s) + escape_byte(b) =~= escape_byte(b));
    } else {
        assert(s.push(b).drop_first() =~= s.drop_first().push(b));
        assert(s.push(b)[0] == s[0]);
        lemma_percent_encoded_push(s.drop_first(), b);
        assert(percent_encoded(s.push(b)) =~= percent_encoded(s) + escape_byte(b));
    }
}

/// An encoded token never contains a brace byte.
pub proof fn lemma_percent_encoded_no_braces(s: Seq<u8>)
    ensures
        forall|i: int|
            0 <= i < percent_encoded(s).len() ==> percent_encoded(s)[i] != 0x7b
                && percent_encoded(s)[i] != 0x7d,
    decreases s.len(),
{
    if s.len() != 0 {
        lemma_percent_encoded_no_braces(s.drop_first());
        assert forall|i: int| 0 <= i < percent_encoded(s).len() implies percent_encoded(s)[i]
            != 0x7b && percent_encoded(s)[i] != 0x7d by {
            let head = escape_byte(s[0]);
            if i < head.len() {
                assert(percent_encoded(s)[i] == head[i]);
            } else {
                assert(percent_encoded(s)[i] == percent_encoded(s.drop_first())[i - head.len()]);
            }
        }
    }
}

/// Whether a byte belongs to the path-unsafe set.
fn is_path_unsafe(b: u8) -> (r: bool)
    ensures
        r == path_unsafe(b),
{
    b < 0x20 || b == 0x7f || b == 0x20 || b == 0x22 || b == 0x23 || b == 0x3c || b == 0x3e || b
        == 0x3f || b == 0x60 || b == 0x7b || b == 0x7d || b >= 0x80
}

/// The uppercase hexadecimal digit for a value below 16.
pub fn hex_digit(n: u8) -> (r: u8)
    requires
        n < 16,
    ensures
        r == hex_upper(n),
{
    if n < 10 {
        0x30 + n
    } else {
        0x37 + n
    }
}

/// Percent-encodes raw bytes into a path token.
pub fn percent_encode(input: &[u8]) -> (out: Vec<u8>)
    ensures
        out@ == percent_encoded(input@),
{
    let mut out: Vec<u8> = Vec::new();
    let mut i: usize = 0;
    while i < input.len()
        invariant
            i <= input@.len(),
            out@ == percent_encoded(input@.subrange(0, i as int)),
        decreases input@.len() - i,
    {
        let b = input[i];
        if is_path_unsafe(b) {
            out.push(0x25);
            out.push(hex_digit(b / 16));
            out.push(hex_digit(b % 16));
        } else {
            out.push(b);
        }
        proof {
            let prefix = input@.subrange(0, i as int);
            lemma_percent_encoded_push(prefix, input@[i as int]);
            assert(input@.subrange(0, i + 1) =~= prefix.push(input@[i as int]));
            assert(out@ =~= percent_encoded(prefix) + escape_byte(input@[i as int]));
        }
        i = i + 1;
    }
    proof {
        assert(input@.subrange(0, input@.len() as int) =~= input@);
    }
    out
}

} // verus!
