use vstd::prelude::*;
use std::cmp::Ordering;

verus! {

/// A pre-release identifier of a semantic version: a number, or text.
#[derive(Debug, Clone)]
pub enum Identifier {
    Numeric(u64),
    AlphaNumeric(String),
}

/// The mathematical value of an [`Identifier`].
pub enum IdentifierView {
    Numeric(u64),
    AlphaNumeric(Seq<char>),
}

impl View for Identifier {
    type V = IdentifierView;

    open spec fn view(&self) -> IdentifierView {
        match self {
            Identifier::Numeric(n) => IdentifierView::Numeric(*n),
            Identifier::AlphaNumeric(s) => IdentifierView::AlphaNumeric(s@),
        }
    }
}

/// A semantic version `major.minor.patch`, with its pre-release identifiers.
#[derive(Debug, Clone)]
pub struct SemVer {
    pub major: u64,
    pub minor: u64,
    pub patch: u64,
    pub pre: Vec<Identifier>,
}

/// The mathematical value of a [`SemVer`].
pub struct SemVerView {
    pub major: u64,
    pub minor: u64,
    pub patch: u64,
    pub pre: Seq<IdentifierView>,
}

impl View for SemVer {
    type V = SemVerView;

    open spec fn view(&self) -> SemVerView {
        SemVerView {
            major: self.major,
            minor: self.minor,
            patch: self.patch,
            pre: self.pre@.map_values(|id: Identifier| id@),
        }
    }
}

/// How two texts compare, character by character; a proper prefix comes first.
pub open spec fn text_order(a: Seq<char>, b: Seq<char>) -> Ordering
    decreases a.len(),
{
    if a.len() == 0 {
        if b.len() == 0 {
            Ordering::Equal
        } else {
            Ordering::Less
        }
    } else if b.len() == 0 {
        Ordering::Greater
    } else if a[0] < b[0] {
        Ordering::Less
    } else if a[0] > b[0] {
        Ordering::Greater
    } else {
        text_order(a.drop_first(), b.drop_first())
    }
}

/// How two pre-release identifiers compare: numbers come before text, numbers
/// compare by value and texts character by character.
pub open spec fn identifier_order(a: IdentifierView, b: IdentifierView) -> Ordering {
    match (a, b) {
        (IdentifierView::Numeric(x), IdentifierView::Numeric(y)) => if x < y {
            Ordering::Less
        } else if x == y {
            Ordering::Equal
        } else {
            Ordering::Greater
        },
        (IdentifierView::Numeric(_), IdentifierView::AlphaNumeric(_)) => Ordering::Less,
        (IdentifierView::AlphaNumeric(_), IdentifierView::Numeric(_)) => Ordering::Greater,
        (IdentifierView::AlphaNumeric(x), IdentifierView::AlphaNumeric(y)) => text_order(x, y),
    }
}

/// How two lists of pre-release identifiers compare: identifier by identifier;
/// a proper prefix comes first.
pub open spec fn identifiers_order(a: Seq<IdentifierView>, b: Seq<IdentifierView>) -> Ordering
    decreases a.len(),
{
    if a.len() == 0 {
        if b.len() == 0 {
            Ordering::Equal
        } else {
            Ordering::Less
        }
    } else if b.len() == 0 {
        Ordering::Greater
    } else if identifier_order(a[0], b[0]) != Ordering::Equal {
        identifier_order(a[0], b[0])
    } else {
        identifiers_order(a.drop_first(), b.drop_first())
    }
}

/// Semantic-version precedence: by major, minor and patch number; then a
/// version without pre-release identifiers comes after one with them; then the
/// pre-release identifiers decide.
pub open spec fn semver_precedence(a: SemVerView, b: SemVerView) -> Ordering {
    if a.major != b.major {
        if a.major < b.major {
            Ordering::Less
        } else {
            Ordering::Greater
        }
    } else if a.minor != b.minor {
        if a.minor < b.minor {
            Ordering::Less
        } else {
            Ordering::Greater
        }
    } else if a.patch != b.patch {
        if a.patch < b.patch {
            Ordering::Less
        } else {
            Ordering::Greater
        }
    } else if a.pre.len() == 0 && b.pre.len() == 0 {
        Ordering::Equal
    } else if a.pre.len() == 0 {
        Ordering::Greater
    } else if b.pre.len() == 0 {
        Ordering::Less
    } else {
        identifiers_order(a.pre, b.pre)
    }
}

} // verus!
