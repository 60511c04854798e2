use vstd::prelude::*;
use std::cmp::Ordering;
use vstd::string::StringExecFns;

use crate::text::push_char;

verus! {

/// The kind of a Unity release, from the least to the most stable.
#[derive(Debug, Clone, Copy, PartialEq, Eq, Structural, Hash, Ord)]
pub enum VersionType {
    Alpha,
    Beta,
    Patch,
    Final,
}

/// The position of a release type in the order `Alpha < Beta < Patch < Final`.
pub open spec fn release_rank(t: VersionType) -> int {
    match t {
        VersionType::Alpha => 0,
        VersionType::Beta => 1,
        VersionType::Patch => 2,
        VersionType::Final => 3,
    }
}

/// The three-way comparison of two integers.
pub open spec fn int_order(a: int, b: int) -> Ordering {
    if a < b {
        Ordering::Less
    } else if a == b {
        Ordering::Equal
    } else {
        Ordering::Greater
    }
}

/// The three-way comparison of two unsigned integers.
pub open spec fn u64_order(a: u64, b: u64) -> Ordering {
    if a < b {
        Ordering::Less
    } else if a == b {
        Ordering::Equal
    } else {
        Ordering::Greater
    }
}

/// How two release types compare.
pub open spec fn release_order(a: VersionType, b: VersionType) -> Ordering {
    int_order(release_rank(a), release_rank(b))
}

/// The letter that stands for a release type in a version string.
pub open spec fn release_char(t: VersionType) -> char {
    match t {
        VersionType::Final => 'f',
        VersionType::Patch => 'p',
        VersionType::Beta => 'b',
        VersionType::Alpha => 'a',
    }
}

/// The full name of a release type.
pub open spec fn release_name(t: VersionType) -> Seq<char> {
    match t {
        VersionType::Final => seq!['f', 'i', 'n', 'a', 'l'],
        VersionType::Patch => seq!['p', 'a', 't', 'c', 'h'],
        VersionType::Beta => seq!['b', 'e', 't', 'a'],
        VersionType::Alpha => seq!['a', 'l', 'p', 'h', 'a'],
    }
}

/// The release type that a letter of a version string stands for.
pub open spec fn release_of_char(c: char) -> Option<VersionType> {
    if c == 'f' {
        Some(VersionType::Final)
    } else if c == 'p' {
        Some(VersionType::Patch)
    } else if c == 'b' {
        Some(VersionType::Beta)
    } else if c == 'a' {
        Some(VersionType::Alpha)
    } else {
        None
    }
}

/// The release types go from the least to the most stable: alpha, beta,
/// patch, final.
pub proof fn lemma_release_type_order()
    ensures
        release_rank(VersionType::Alpha) < release_rank(VersionType::Beta),
        release_rank(VersionType::Beta) < release_rank(VersionType::Patch),
        release_rank(VersionType::Patch) < release_rank(VersionType::Final),
        release_order(VersionType::Alpha, VersionType::Beta) == Ordering::Less,
        release_order(VersionType::Beta, VersionType::Patch) == Ordering::Less,
        release_order(VersionType::Patch, VersionType::Final) == Ordering::Less,
        forall|t: VersionType| #[trigger] release_order(t, t) == Ordering::Equal,
        forall|t: VersionType, u: VersionType|
            release_rank(t) == release_rank(u) ==> t == u,
{
}

/// The full name of a release type starts with its letter, and different
/// release types have different names.
pub proof fn lemma_release_name(t: VersionType, u: VersionType)
    ensures
        release_name(t).len() >= 4,
        release_name(t)[0] == release_char(t),
        t != u ==> release_name(t) != release_name(u),
{
    if t != u {
        assert(release_name(t)[0] != release_name(u)[0]);
    }
}

/// Reading the letter of a release type gives that release type back; the
/// letters are `f`, `p`, `b` and `a`, and no other letter is read as a
/// release type.
pub proof fn lemma_release_char_roundtrip(t: VersionType)
    ensures
        release_of_char(release_char(t)) == Some(t),
        release_char(VersionType::Final) == 'f' && release_char(VersionType::Patch) == 'p'
            && release_char(VersionType::Beta) == 'b' && release_char(VersionType::Alpha) == 'a',
        forall|c: char|
            #![trigger release_of_char(c)]
            release_of_char(c) is Some <==> (c == 'f' || c == 'p' || c == 'b' || c == 'a'),
{
}

impl VersionType {
    /// The one-letter form of the release type, as in `1.2.3f4`.
    pub fn to_string(&self) -> (s: String)
        ensures
            s@ == seq![release_char(*self)],
    {
        let mut s = String::new();
        let c = self.letter();
        push_char(&mut s, c);
        proof {
            assert(Seq::<char>::empty().push(c) =~= seq![c]);
        }
        s
    }

    /// The letter that stands for the release type in a version string.
    pub fn letter(&self) -> (c: char)
        ensures
            c == release_char(*self),
    {
        match self {
            VersionType::Final => 'f',
            VersionType::Patch => 'p',
            VersionType::Beta => 'b',
            VersionType::Alpha => 'a',
        }
    }

    /// The full name of the release type (`final`, `patch`, `beta`, `alpha`).
    pub fn to_alternate_string(&self) -> (s: String)
        ensures
            s@ == release_name(*self),
    {
        match self {
            VersionType::Final => {
                proof {
                    reveal_strlit("final");
                }
                String::from_str("final")
            },
            VersionType::Patch => {
                proof {
                    reveal_strlit("patch");
                }
                String::from_str("patch")
            },
            VersionType::Beta => {
                proof {
                    reveal_strlit("beta");
                }
                String::from_str("beta")
            },
            VersionType::Alpha => {
                proof {
                    reveal_strlit("alpha");
                }
                String::from_str("alpha")
            },
        }
    }

    /// The release type that the letter `c` stands for, if any.
    pub fn from_release_char(c: char) -> (r: Option<VersionType>)
        ensures
            r == release_of_char(c),
    {
        if c == 'f' {
            Some(VersionType::Final)
        } else if c == 'p' {
            Some(VersionType::Patch)
        } else if c == 'b' {
            Some(VersionType::Beta)
        } else if c == 'a' {
            Some(VersionType::Alpha)
        } else {
            None
        }
    }

    fn rank(&self) -> (r: u8)
        ensures
            r == release_rank(*self),
    {
        match self {
            VersionType::Alpha => 0,
            VersionType::Beta => 1,
            VersionType::Patch => 2,
            VersionType::Final => 3,
        }
    }
}

impl PartialOrd for VersionType {
    fn partial_cmp(&self, other: &VersionType) -> (r: Option<Ordering>) {
        let a = self.rank();
        let b = other.rank();
        if a < b {
            Some(Ordering::Less)
        } else if a == b {
            Some(Ordering::Equal)
        } else {
            Some(Ordering::Greater)
        }
    }
}

impl vstd::std_specs::cmp::PartialOrdSpecImpl for VersionType {
    open spec fn obeys_partial_cmp_spec() -> bool {
        true
    }

    open spec fn partial_cmp_spec(&self, other: &VersionType) -> Option<Ordering> {
        Some(release_order(*self, *other))
    }
}

impl Default for VersionType {
    fn default() -> (r: VersionType)
        ensures
            r == VersionType::Final,
    {
        VersionType::Final
    }
}

} // verus!
