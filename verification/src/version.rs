use vstd::prelude::*;
use std::cmp::Ordering;

use crate::semantic::{
    identifier_order, identifiers_order, semver_precedence, text_order, Identifier, IdentifierView,
    SemVer, SemVerView,
};
use crate::text::{decimal_digits, push_char, push_decimal};
use crate::version_type::{release_char, release_order, release_rank, u64_order, VersionType};

verus! {

/// A Unity editor version such as `2019.3.0f1`: a semantic `major.minor.patch`
/// base, a release type and a revision number.
#[derive(Debug, Clone, Copy, PartialEq, Eq, Structural, Hash, Ord)]
pub struct Version {
    major: u64,
    minor: u64,
    patch: u64,
    release_type: VersionType,
    revision: u64,
}

/// The mathematical value of a [`Version`].
pub struct VersionView {
    pub major: u64,
    pub minor: u64,
    pub patch: u64,
    pub release_type: VersionType,
    pub revision: u64,
}

impl View for Version {
    type V = VersionView;

    closed spec fn view(&self) -> VersionView {
        VersionView {
            major: self.major,
            minor: self.minor,
            patch: self.patch,
            release_type: self.release_type,
            revision: self.revision,
        }
    }
}

/// The value of the version with the given components.
pub open spec fn version_view(
    major: u64,
    minor: u64,
    patch: u64,
    release_type: VersionType,
    revision: u64,
) -> VersionView {
    VersionView { major, minor, patch, release_type, revision }
}

/// How two versions compare: by major, then minor, then patch number, then
/// release type (`Alpha < Beta < Patch < Final`), then revision.
pub open spec fn version_order(a: VersionView, b: VersionView) -> Ordering {
    if a.major != b.major {
        u64_order(a.major, b.major)
    } else if a.minor != b.minor {
        u64_order(a.minor, b.minor)
    } else if a.patch != b.patch {
        u64_order(a.patch, b.patch)
    } else if a.release_type != b.release_type {
        release_order(a.release_type, b.release_type)
    } else {
        u64_order(a.revision, b.revision)
    }
}

/// The textual form of a version, as in `1.2.3f4`.
pub open spec fn version_text(v: VersionView) -> Seq<char> {
    decimal_digits(v.major as nat) + seq!['.'] + decimal_digits(v.minor as nat) + seq!['.']
        + decimal_digits(v.patch as nat) + seq![release_char(v.release_type)] + decimal_digits(
        v.revision as nat,
    )
}

/// The semantic version `major.minor.patch` of a version, without pre-release.
pub open spec fn base_semver(v: VersionView) -> SemVerView {
    SemVerView { major: v.major, minor: v.minor, patch: v.patch, pre: Seq::empty() }
}

/// The semantic version of a version with its release type and revision as
/// pre-release identifiers, as in `1.2.3-b.4`.
pub open spec fn prerelease_semver(v: VersionView) -> SemVerView {
    SemVerView {
        major: v.major,
        minor: v.minor,
        patch: v.patch,
        pre: seq![
            IdentifierView::AlphaNumeric(seq![release_char(v.release_type)]),
            IdentifierView::Numeric(v.revision),
        ],
    }
}

/// The semantic version that stands for a version: final releases are plain
/// `major.minor.patch`, the others carry their release type and revision.
pub open spec fn semver_of(v: VersionView) -> SemVerView {
    if v.release_type == VersionType::Final {
        base_semver(v)
    } else {
        prerelease_semver(v)
    }
}

/// The semantic forms of a version keep its major, minor and patch numbers.
/// The base has no pre-release identifiers; the pre-release form carries the
/// release letter and then the revision; the form that stands for the version
/// is the base for a final release and the pre-release form otherwise.
pub proof fn lemma_semver_forms(v: VersionView)
    ensures
        base_semver(v).major == v.major && base_semver(v).minor == v.minor && base_semver(v).patch
            == v.patch,
        base_semver(v).pre.len() == 0,
        prerelease_semver(v).major == v.major && prerelease_semver(v).minor == v.minor
            && prerelease_semver(v).patch == v.patch,
        prerelease_semver(v).pre =~= seq![
            IdentifierView::AlphaNumeric(seq![release_char(v.release_type)]),
            IdentifierView::Numeric(v.revision),
        ],
        v.release_type == VersionType::Final ==> semver_of(v) == base_semver(v),
        v.release_type != VersionType::Final ==> semver_of(v) == prerelease_semver(v),
{
}

impl Version {
    /// The version whose value is `v`.
    pub closed spec fn from_view(v: VersionView) -> Version {
        Version {
            major: v.major,
            minor: v.minor,
            patch: v.patch,
            release_type: v.release_type,
            revision: v.revision,
        }
    }

    /// [`Version::from_view`] builds the version with the given value.
    pub proof fn lemma_from_view(v: VersionView)
        ensures
            Version::from_view(v)@ == v,
    {
    }

    /// Two versions with the same value are the same version.
    pub proof fn lemma_view_injective(a: Version, b: Version)
        ensures
            a@ == b@ <==> a == b,
    {
    }

    pub fn new(major: u64, minor: u64, patch: u64, release_type: VersionType, revision: u64) -> (v:
        Version)
        ensures
            v@ == version_view(major, minor, patch, release_type, revision),
    {
        Version { major, minor, patch, release_type, revision }
    }

    /// An alpha release.
    pub fn a(major: u64, minor: u64, patch: u64, revision: u64) -> (v: Version)
        ensures
            v@ == version_view(major, minor, patch, VersionType::Alpha, revision),
    {
        Version { major, minor, patch, release_type: VersionType::Alpha, revision }
    }

    /// A beta release.
    pub fn b(major: u64, minor: u64, patch: u64, revision: u64) -> (v: Version)
        ensures
            v@ == version_view(major, minor, patch, VersionType::Beta, revision),
    {
        Version { major, minor, patch, release_type: VersionType::Beta, revision }
    }

    /// A patch release.
    pub fn p(major: u64, minor: u64, patch: u64, revision: u64) -> (v: Version)
        ensures
            v@ == version_view(major, minor, patch, VersionType::Patch, revision),
    {
        Version { major, minor, patch, release_type: VersionType::Patch, revision }
    }

    /// A final release.
    pub fn f(major: u64, minor: u64, patch: u64, revision: u64) -> (v: Version)
        ensures
            v@ == version_view(major, minor, patch, VersionType::Final, revision),
    {
        Version { major, minor, patch, release_type: VersionType::Final, revision }
    }

    pub fn release_type(&self) -> (t: &VersionType)
        ensures
            *t == self@.release_type,
    {
        &self.release_type
    }

    pub fn major(&self) -> (n: u64)
        ensures
            n == self@.major,
    {
        self.major
    }

    pub fn minor(&self) -> (n: u64)
        ensures
            n == self@.minor,
    {
        self.minor
    }

    pub fn patch(&self) -> (n: u64)
        ensures
            n == self@.patch,
    {
        self.patch
    }

    pub fn revision(&self) -> (n: u64)
        ensures
            n == self@.revision,
    {
        self.revision
    }

    /// The semantic version `major.minor.patch`, without pre-release.
    pub fn base(&self) -> (s: SemVer)
        ensures
            s@ == base_semver(self@),
    {
        let s = SemVer { major: self.major, minor: self.minor, patch: self.patch, pre: Vec::new() };
        proof {
            assert(s@.pre =~= Seq::<IdentifierView>::empty());
        }
        s
    }

    /// The semantic version with the release type and revision as pre-release.
    pub(crate) fn with_prerelease(&self) -> (s: SemVer)
        ensures
            s@ == prerelease_semver(self@),
    {
        let mut pre: Vec<Identifier> = Vec::new();
        pre.push(Identifier::AlphaNumeric(self.release_type.to_string()));
        pre.push(Identifier::Numeric(self.revision));
        let s = SemVer { major: self.major, minor: self.minor, patch: self.patch, pre };
        proof {
            assert(s@.pre =~= prerelease_semver(self@).pre);
        }
        s
    }

    /// The semantic version that stands for this version: final releases are
    /// plain `major.minor.patch`, the others carry release type and revision as
    /// pre-release identifiers.
    pub fn as_semver(&self) -> (s: SemVer)
        ensures
            s@ == semver_of(self@),
    {
        match self.release_type {
            VersionType::Final => self.base(),
            _ => self.with_prerelease(),
        }
    }

    /// The textual form of the version, as in `1.2.3f4`.
    pub fn to_string(&self) -> (s: String)
        ensures
            s@ == version_text(self@),
    {
        let mut s = String::new();
        push_decimal(&mut s, self.major);
        push_char(&mut s, '.');
        push_decimal(&mut s, self.minor);
        push_char(&mut s, '.');
        push_decimal(&mut s, self.patch);
        push_char(&mut s, self.release_type.letter());
        push_decimal(&mut s, self.revision);
        proof {
            assert(s@ =~= version_text(self@));
        }
        s
    }
}

/// The opposite outcome of a comparison.
pub open spec fn reversed(o: Ordering) -> Ordering {
    match o {
        Ordering::Less => Ordering::Greater,
        Ordering::Equal => Ordering::Equal,
        Ordering::Greater => Ordering::Less,
    }
}

/// Two versions compare as equal exactly when they are the same version.
pub proof fn lemma_order_equal_iff_same(a: VersionView, b: VersionView)
    ensures
        version_order(a, b) == Ordering::Equal <==> a == b,
{
}

/// Swapping the operands reverses the comparison.
pub proof fn lemma_order_antisymmetric(a: VersionView, b: VersionView)
    ensures
        version_order(b, a) == reversed(version_order(a, b)),
{
}

/// The order of versions is transitive.
pub proof fn lemma_order_transitive(a: VersionView, b: VersionView, c: VersionView)
    requires
        version_order(a, b) != Ordering::Greater,
        version_order(b, c) != Ordering::Greater,
    ensures
        version_order(a, c) != Ordering::Greater,
        version_order(a, b) == Ordering::Less || version_order(b, c) == Ordering::Less
            ==> version_order(a, c) == Ordering::Less,
{
}

/// With equal numbers, a final release is newer than a patch release, which is
/// newer than a beta, which is newer than an alpha, whatever their revisions.
pub proof fn lemma_release_precedence(
    major: u64,
    minor: u64,
    patch: u64,
    revision: u64,
    other_revision: u64,
)
    ensures
        version_order(
            version_view(major, minor, patch, VersionType::Final, revision),
            version_view(major, minor, patch, VersionType::Patch, other_revision),
        ) == Ordering::Greater,
        version_order(
            version_view(major, minor, patch, VersionType::Patch, revision),
            version_view(major, minor, patch, VersionType::Beta, other_revision),
        ) == Ordering::Greater,
        version_order(
            version_view(major, minor, patch, VersionType::Beta, revision),
            version_view(major, minor, patch, VersionType::Alpha, other_revision),
        ) == Ordering::Greater,
{
}

/// The numbers dominate: a smaller major, minor or patch number (with the
/// preceding numbers equal) makes a version older, whatever the release types
/// and revisions.
pub proof fn lemma_numbers_dominate(a: VersionView, b: VersionView)
    ensures
        a.major < b.major ==> version_order(a, b) == Ordering::Less,
        a.major == b.major && a.minor < b.minor ==> version_order(a, b) == Ordering::Less,
        a.major == b.major && a.minor == b.minor && a.patch < b.patch ==> version_order(a, b)
            == Ordering::Less,
{
}

/// With equal numbers and release type, the larger revision is the newer
/// version, and equal revisions make the same version.
pub proof fn lemma_revision_order(a: VersionView, b: VersionView)
    requires
        a.major == b.major,
        a.minor == b.minor,
        a.patch == b.patch,
        a.release_type == b.release_type,
    ensures
        a.revision < b.revision ==> version_order(a, b) == Ordering::Less,
        a.revision > b.revision ==> version_order(a, b) == Ordering::Greater,
        a.revision == b.revision ==> version_order(a, b) == Ordering::Equal,
{
}

/// `a` is older than `b` exactly when it has a smaller major number, or the
/// same major and a smaller minor, or the same major and minor and a smaller
/// patch, or the same numbers and a less stable release type, or the same
/// numbers and release type and a smaller revision.
pub proof fn lemma_version_order_fields(a: VersionView, b: VersionView)
    ensures
        version_order(a, b) == Ordering::Less <==> {
            ||| a.major < b.major
            ||| a.major == b.major && a.minor < b.minor
            ||| a.major == b.major && a.minor == b.minor && a.patch < b.patch
            ||| a.major == b.major && a.minor == b.minor && a.patch == b.patch && release_rank(
                a.release_type,
            ) < release_rank(b.release_type)
            ||| a.major == b.major && a.minor == b.minor && a.patch == b.patch && a.release_type
                == b.release_type && a.revision < b.revision
        },
        version_order(a, b) == Ordering::Equal <==> a == b,
        version_order(a, b) == Ordering::Greater <==> version_order(b, a) == Ordering::Less,
{
}

/// `a` is older than `b`.
pub open spec fn version_lt(a: VersionView, b: VersionView) -> bool {
    version_order(a, b) == Ordering::Less
}

/// `a` is older than `b`, or the same version.
pub open spec fn version_le(a: VersionView, b: VersionView) -> bool {
    version_order(a, b) != Ordering::Greater
}

/// Of two versions, one is at most the other; and `<=` is transitive.
pub proof fn lemma_le_total_transitive(a: VersionView, b: VersionView, c: VersionView)
    ensures
        !version_lt(a, b) ==> version_le(b, a),
        version_le(a, b) && version_le(b, c) ==> version_le(a, c),
{
}

/// The semantic version that stands for a version keeps the order of versions:
/// a version at most another stands for a semantic version of at most the
/// other's precedence. (Final releases that differ only in revision stand for
/// the same semantic version.)
pub proof fn lemma_semver_of_monotone(a: VersionView, b: VersionView)
    requires
        version_le(a, b),
    ensures
        semver_precedence(semver_of(a), semver_of(b)) != Ordering::Greater,
{
    let sa = semver_of(a);
    let sb = semver_of(b);
    if a.major == b.major && a.minor == b.minor && a.patch == b.patch
        && a.release_type != VersionType::Final && b.release_type != VersionType::Final {
        let la = seq![release_char(a.release_type)];
        let lb = seq![release_char(b.release_type)];
        assert(sa.pre[0] == IdentifierView::AlphaNumeric(la));
        assert(sb.pre[0] == IdentifierView::AlphaNumeric(lb));
        assert(la.drop_first() =~= Seq::<char>::empty());
        assert(lb.drop_first() =~= Seq::<char>::empty());
        assert(text_order(Seq::<char>::empty(), Seq::<char>::empty()) == Ordering::Equal);
        if a.release_type == b.release_type {
            assert(identifier_order(sa.pre[0], sb.pre[0]) == Ordering::Equal);
            assert(sa.pre.drop_first() =~= seq![IdentifierView::Numeric(a.revision)]);
            assert(sb.pre.drop_first() =~= seq![IdentifierView::Numeric(b.revision)]);
            assert(sa.pre.drop_first().drop_first() =~= Seq::<IdentifierView>::empty());
            assert(sb.pre.drop_first().drop_first() =~= Seq::<IdentifierView>::empty());
            assert(identifiers_order(Seq::<IdentifierView>::empty(), Seq::<IdentifierView>::empty())
                == Ordering::Equal);
            assert(identifiers_order(sa.pre.drop_first(), sb.pre.drop_first()) != Ordering::Greater);
        } else {
            assert(identifier_order(sa.pre[0], sb.pre[0]) == Ordering::Less);
        }
    }
}

fn u64_three_way(a: u64, b: u64) -> (r: Ordering)
    ensures
        r == u64_order(a, b),
{
    if a < b {
        Ordering::Less
    } else if a == b {
        Ordering::Equal
    } else {
        Ordering::Greater
    }
}

impl Version {
    /// How this version compares with `other` (see [`version_order`]).
    pub fn order_with(&self, other: &Version) -> (r: Ordering)
        ensures
            r == version_order(self@, other@),
    {
        if self.major != other.major {
            u64_three_way(self.major, other.major)
        } else if self.minor != other.minor {
            u64_three_way(self.minor, other.minor)
        } else if self.patch != other.patch {
            u64_three_way(self.patch, other.patch)
        } else if self.release_type != other.release_type {
            if self.release_type < other.release_type {
                Ordering::Less
            } else {
                Ordering::Greater
            }
        } else {
            u64_three_way(self.revision, other.revision)
        }
    }
}

impl From<(u64, u64, u64, u64)> for Version {
    /// The final release `(major, minor, patch, revision)`.
    fn from(tuple: (u64, u64, u64, u64)) -> (v: Version) {
        let (major, minor, patch, revision) = tuple;
        Version::f(major, minor, patch, revision)
    }
}

impl vstd::std_specs::convert::FromSpecImpl<(u64, u64, u64, u64)> for Version {
    open spec fn obeys_from_spec() -> bool {
        true
    }

    open spec fn from_spec(tuple: (u64, u64, u64, u64)) -> Version {
        Version::from_view(version_view(tuple.0, tuple.1, tuple.2, VersionType::Final, tuple.3))
    }
}

impl PartialOrd for Version {
    fn partial_cmp(&self, other: &Version) -> (r: Option<Ordering>) {
        Some(self.order_with(other))
    }
}

impl vstd::std_specs::cmp::PartialOrdSpecImpl for Version {
    open spec fn obeys_partial_cmp_spec() -> bool {
        true
    }

    open spec fn partial_cmp_spec(&self, other: &Version) -> Option<Ordering> {
        Some(version_order(self@, other@))
    }
}

} // verus!
