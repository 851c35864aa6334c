//! Replacement of emoji shortcodes inside text.
//!
//! An [`EmojiString`] holds text in which every `:name:` shortcode with a
//! known expansion has been replaced by the emoji itself.  The scan walks
//! the text left to right: of each candidate pair of colons, the name
//! between them is looked up; a known name is replaced and the scan resumes
//! after the closing colon, while an unknown name leaves the text as it was
//! and the scan resumes at that same closing colon, which may open the next
//! candidate.

use vstd::prelude::*;
use vstd::string::StringSliceAdditionalSpecFns;

use crate::error::push_bytes;

verus! {

/// The first index at or after `from` holding the byte `b`.
pub open spec fn find_byte(s: Seq<u8>, b: u8, from: int) -> Option<int>
    decreases s.len() - from,
{
    if from < 0 || from >= s.len() {
        None
    } else if s[from] == b {
        Some(from)
    } else {
        find_byte(s, b, from + 1)
    }
}

/// What [`find_byte`] returns: the first index at or after `from` holding
/// `b`, or `None` when no index at or after `from` holds it.
pub proof fn lemma_find_byte(s: Seq<u8>, b: u8, from: int)
    requires
        0 <= from,
    ensures
        match find_byte(s, b, from) {
            Some(j) => from <= j < s.len() && s[j] == b && forall|l: int|
                from <= l < j ==> s[l] != b,
            None => forall|l: int| from <= l < s.len() ==> s[l] != b,
        },
    decreases s.len() - from,
{
    if from < s.len() && s[from] != b {
        lemma_find_byte(s, b, from + 1);
    }
}

/// Searching a suffix finds the same colon as searching the whole text
/// from the corresponding position.
pub proof fn lemma_find_byte_shift(s: Seq<u8>, b: u8, pos: int, from: int)
    requires
        0 <= pos,
        0 <= from,
        pos + from <= s.len(),
    ensures
        find_byte(s.subrange(pos, s.len() as int), b, from) == match find_byte(s, b, pos + from) {
            Some(j) => Some(j - pos),
            None => None::<int>,
        },
    decreases s.len() - (pos + from),
{
    let suffix = s.subrange(pos, s.len() as int);
    if pos + from >= s.len() {
        assert(from >= suffix.len());
    } else {
        assert(suffix[from] == s[pos + from]);
        if s[pos + from] != b {
            lemma_find_byte_shift(s, b, pos, from + 1);
        }
    }
}

/// The expansion of an emoji shortcode name, if the name is known.
pub uninterp spec fn shortcode_expansion(name: Seq<u8>) -> Option<Seq<u8>>;

/// Relies on `emojis::get_by_shortcode`: the emoji with the given
/// shortcode name, whose expansion depends on the name alone (the crate
/// holds a fixed table), converted to its UTF-8 bytes.
#[verifier::external_body]
fn emoji_by_shortcode(name: &[u8]) -> (r: Option<Vec<u8>>)
    ensures
        match r {
            Some(e) => shortcode_expansion(name@) == Some(e@),
            None => shortcode_expansion(name@) is None,
        },
{
    std::str::from_utf8(name)
        .ok()
        .and_then(emojis::get_by_shortcode)
        .map(|e| e.as_str().as_bytes().to_vec())
}

/// The text with every known `:name:` shortcode replaced by its expansion.
pub open spec fn emoji_replace(s: Seq<u8>) -> Seq<u8>
    decreases s.len(),
{
    match find_byte(s, 0x3a, 0) {
        None => s,
        Some(i) => match find_byte(s, 0x3a, i + 1) {
            None => s,
            Some(n) => {
                proof {
                    lemma_find_byte(s, 0x3a, 0);
                    lemma_find_byte(s, 0x3a, i + 1);
                }
                match shortcode_expansion(s.subrange(i + 1, n)) {
                    Some(e) => s.subrange(0, i) + e + emoji_replace(
                        s.subrange(n + 1, s.len() as int),
                    ),
                    None => s.subrange(0, n) + emoji_replace(s.subrange(n, s.len() as int)),
                }
            },
        },
    }
}

/// Text whose emoji shortcodes have been replaced by the emoji characters
/// themselves.
#[derive(Debug, Clone, PartialEq, Eq, Hash)]
pub struct EmojiString(Vec<u8>);

impl View for EmojiString {
    type V = Seq<u8>;

    closed spec fn view(&self) -> Seq<u8> {
        self.0@
    }
}

/// Finds the first colon at or after `from`.
fn find_colon(bytes: &[u8], from: usize) -> (r: Option<usize>)
    requires
        from <= bytes@.len(),
    ensures
        match r {
            Some(j) => find_byte(bytes@, 0x3a, from as int) == Some(j as int) && from <= j
                < bytes@.len(),
            None => find_byte(bytes@, 0x3a, from as int) is None,
        },
{
    proof {
        lemma_find_byte(bytes@, 0x3a, from as int);
    }
    let mut i: usize = from;
    while i < bytes.len()
        invariant
            from <= i <= bytes@.len(),
            forall|l: int| from <= l < i ==> bytes@[l] != 0x3a,
        decreases bytes@.len() - i,
    {
        if bytes[i] == 0x3a {
            return Some(i);
        }
        i = i + 1;
    }
    None
}

impl EmojiString {
    /// Builds the string from text, replacing its shortcodes.
    pub fn new(s: &str) -> (r: EmojiString)
        ensures
            r@ == emoji_replace(s.spec_bytes()),
    {
        let bytes = s.as_bytes();
        let len = bytes.len();
        let ghost t = bytes@;
        let mut out: Vec<u8> = Vec::new();
        let mut pos: usize = 0;
        proof {
            assert(t.subrange(0, t.len() as int) =~= t);
        }
        loop
            invariant
                pos <= t.len(),
                bytes@ == t,
                len == t.len(),
                emoji_replace(t) == out@ + emoji_replace(t.subrange(pos as int, t.len() as int)),
            decreases t.len() - pos,
        {
            let ghost rest = t.subrange(pos as int, t.len() as int);
            let first = find_colon(bytes, pos);
            let i = match first {
                Some(i) => i,
                None => {
                    proof {
                        lemma_find_byte_shift(t, 0x3a, pos as int, 0);
                        assert(find_byte(rest, 0x3a, 0) is None);
                        assert(emoji_replace(rest) == rest);
                    }
                    push_bytes(&mut out, &bytes[pos..len]);
                    return EmojiString(out);
                },
            };
            let ghost i_rel = i - pos;
            proof {
                lemma_find_byte_shift(t, 0x3a, pos as int, 0);
                assert(find_byte(rest, 0x3a, 0) == Some(i_rel));
            }
            let second = find_colon(bytes, i + 1);
            let n = match second {
                Some(n) => n,
                None => {
                    proof {
                        lemma_find_byte_shift(t, 0x3a, pos as int, i_rel + 1);
                        assert(find_byte(rest, 0x3a, i_rel + 1) is None);
                        assert(emoji_replace(rest) == rest);
                    }
                    push_bytes(&mut out, &bytes[pos..len]);
                    return EmojiString(out);
                },
            };
            let ghost n_rel = n - pos;
            proof {
                lemma_find_byte_shift(t, 0x3a, pos as int, i_rel + 1);
                assert(find_byte(rest, 0x3a, i_rel + 1) == Some(n_rel));
            }
            let name = &bytes[i + 1..n];
            let expansion = emoji_by_shortcode(name);
            proof {
                assert(name@ =~= rest.subrange(i_rel + 1, n_rel));
            }
            match expansion {
                Some(e) => {
                    push_bytes(&mut out, &bytes[pos..i]);
                    push_bytes(&mut out, e.as_slice());
                    proof {
                        assert(t.subrange(pos as int, i as int) =~= rest.subrange(0, i_rel));
                        assert(t.subrange(n + 1, t.len() as int) =~= rest.subrange(
                            n_rel + 1,
                            rest.len() as int,
                        ));
                        assert(emoji_replace(rest) =~= rest.subrange(0, i_rel) + e@
                            + emoji_replace(rest.subrange(n_rel + 1, rest.len() as int)));
                    }
                    pos = n + 1;
                },
                None => {
                    push_bytes(&mut out, &bytes[pos..n]);
                    proof {
                        assert(t.subrange(pos as int, n as int) =~= rest.subrange(0, n_rel));
                        assert(t.subrange(n as int, t.len() as int) =~= rest.subrange(
                            n_rel,
                            rest.len() as int,
                        ));
                        assert(emoji_replace(rest) =~= rest.subrange(0, n_rel) + emoji_replace(
                            rest.subrange(n_rel, rest.len() as int),
                        ));
                    }
                    pos = n;
                },
            }
        }
    }

    /// The replaced text, as bytes.
    pub fn as_bytes(&self) -> (r: &Vec<u8>)
        ensures
            r@ == self@,
    {
        &self.0
    }

    /// Gives the replaced text up, as bytes.
    pub fn into_bytes(self) -> (r: Vec<u8>)
        ensures
            r@ == self@,
    {
        self.0
    }

    /// Wraps already-replaced text.
    pub fn from_replaced(bytes: Vec<u8>) -> (r: EmojiString)
        ensures
            r@ == bytes@,
    {
        EmojiString(bytes)
    }
}

} // verus!
