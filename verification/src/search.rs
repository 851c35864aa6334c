//! The search item-kind set.
//!
//! A [`SearchType`] is a set of item kinds carried as one bit per kind.
//! In a URL it renders as the declared names of its kinds, in declaration
//! order, comma-joined — `movie,show` — or as an absent value when the set
//! is empty.

use vstd::prelude::*;
use vstd::string::StrSliceExecFns;
use vstd::string::StringExecFns;

use crate::value::Value;

verus! {

/// The bit naming movies.
pub const SEARCH_MOVIE: u8 = 0x01;

/// The bit naming shows.
pub const SEARCH_SHOW: u8 = 0x02;

/// The bit naming episodes.
pub const SEARCH_EPISODE: u8 = 0x04;

/// The bit naming people.
pub const SEARCH_PERSON: u8 = 0x08;

/// The bit naming lists.
pub const SEARCH_LIST: u8 = 0x10;

/// A set of item kinds to search for, one bit per kind.
#[derive(Debug, Copy, Clone, Eq, PartialEq, Hash, Structural)]
pub struct SearchType {
    pub bits: u8,
}

/// The declared names of the kinds in the set, in declaration order.
pub open spec fn search_type_names(bits: u8) -> Seq<Seq<char>> {
    let n0 = Seq::<Seq<char>>::empty();
    let n1 = if bits & SEARCH_MOVIE != 0 {
        n0.push("movie"@)
    } else {
        n0
    };
    let n2 = if bits & SEARCH_SHOW != 0 {
        n1.push("show"@)
    } else {
        n1
    };
    let n3 = if bits & SEARCH_EPISODE != 0 {
        n2.push("episode"@)
    } else {
        n2
    };
    let n4 = if bits & SEARCH_PERSON != 0 {
        n3.push("person"@)
    } else {
        n3
    };
    if bits & SEARCH_LIST != 0 {
        n4.push("list"@)
    } else {
        n4
    }
}

/// The names joined by commas.
pub open spec fn comma_joined(names: Seq<Seq<char>>) -> Seq<char>
    decreases names.len(),
{
    if names.len() == 0 {
        Seq::empty()
    } else if names.len() == 1 {
        names.last()
    } else {
        comma_joined(names.drop_last()) + ","@ + names.last()
    }
}

/// Joining one more name appends a comma and the name, or just the name
/// when nothing was joined yet.
pub proof fn lemma_comma_joined_push(names: Seq<Seq<char>>, x: Seq<char>)
    ensures
        comma_joined(names.push(x)) == if names.len() == 0 {
            x
        } else {
            comma_joined(names) + ","@ + x
        },
{
    assert(names.push(x).drop_last() =~= names);
    assert(names.push(x).last() == x);
}

/// Appends one name to a comma-joined text: a comma first when some name
/// was already written.
fn append_name(out: &mut String, name: &str, names: Ghost<Seq<Seq<char>>>)
    requires
        old(out)@ == comma_joined(names@),
        names@.len() > 0 ==> old(out)@.len() > 0,
        name@.len() > 0,
    ensures
        final(out)@ == comma_joined(names@.push(name@)),
        final(out)@.len() > 0,
{
    proof {
        lemma_comma_joined_push(names@, name@);
    }
    if out.as_str().is_empty() {
        proof {
            assert(names@.len() == 0);
        }
        out.append(name);
        proof {
            assert(out@ =~= name@);
        }
    } else {
        out.append(",");
        out.append(name);
        proof {
            assert(out@ =~= comma_joined(names@) + ","@ + name@);
        }
    }
}

impl SearchType {
    /// The empty set.
    pub fn empty() -> (r: SearchType)
        ensures
            r.bits == 0,
    {
        SearchType { bits: 0 }
    }

    /// The set holding the kinds of both arguments.
    pub fn union(self, other: SearchType) -> (r: SearchType)
        ensures
            r.bits == self.bits | other.bits,
    {
        SearchType { bits: self.bits | other.bits }
    }

    /// The comma-joined declared names of the kinds in the set.
    pub fn joined_names(&self) -> (r: String)
        ensures
            r@ == comma_joined(search_type_names(self.bits)),
    {
        let mut out = String::new();
        let ghost mut names = Seq::<Seq<char>>::empty();
        proof {
            assert(out@ =~= comma_joined(names));
        }
        if self.bits & SEARCH_MOVIE != 0 {
            proof {
                reveal_strlit("movie");
            }
            append_name(&mut out, "movie", Ghost(names));
            proof {
                names = names.push("movie"@);
            }
        }
        if self.bits & SEARCH_SHOW != 0 {
            proof {
                reveal_strlit("show");
            }
            append_name(&mut out, "show", Ghost(names));
            proof {
                names = names.push("show"@);
            }
        }
        if self.bits & SEARCH_EPISODE != 0 {
            proof {
                reveal_strlit("episode");
            }
            append_name(&mut out, "episode", Ghost(names));
            proof {
                names = names.push("episode"@);
            }
        }
        if self.bits & SEARCH_PERSON != 0 {
            proof {
                reveal_strlit("person");
            }
            append_name(&mut out, "person", Ghost(names));
            proof {
                names = names.push("person"@);
            }
        }
        if self.bits & SEARCH_LIST != 0 {
            proof {
                reveal_strlit("list");
            }
            append_name(&mut out, "list", Ghost(names));
            proof {
                names = names.push("list"@);
            }
        }
        proof {
            assert(names =~= search_type_names(self.bits));
        }
        out
    }

    /// The value the set substitutes into a URL: absent when empty, else
    /// the comma-joined names as text.
    pub fn to_value(&self) -> (r: Value)
        ensures
            self.bits == 0 ==> r == Value::Absent,
            self.bits != 0 ==> (r matches Value::Text(t) && t@ == comma_joined(
                search_type_names(self.bits),
            )),
    {
        if self.bits == 0 {
            Value::Absent
        } else {
            Value::Text(self.joined_names())
        }
    }
}

} // verus!
