use vstd::prelude::*;

use crate::requirement::{semver_requirement_matches, VersionRequirement};
use crate::semantic::{IdentifierView, SemVer, SemVerView};
use crate::version::{
    base_semver, lemma_le_total_transitive, lemma_order_antisymmetric, lemma_order_equal_iff_same,
    prerelease_semver, version_le, Version, VersionView,
};
use crate::version_type::{release_char, release_rank, VersionType};

verus! {

/// The semantic version that `v` is held against a requirement as, when
/// releases of type `release_type` are asked for: a version of a less stable
/// release type carries its release type and revision as pre-release
/// identifiers (so that only requirements that name pre-releases admit it);
/// the others are their plain `major.minor.patch`.
pub open spec fn matching_semver(v: VersionView, release_type: VersionType) -> SemVerView {
    if release_rank(v.release_type) < release_rank(release_type) {
        prerelease_semver(v)
    } else {
        base_semver(v)
    }
}

/// Whether `v` is admitted by the requirement written `requirement` when
/// releases of type `release_type` are asked for.
pub open spec fn admitted(v: VersionView, requirement: Seq<char>, release_type: VersionType) -> bool {
    semver_requirement_matches(requirement, matching_semver(v, release_type))
}

/// `v` is one of `versions`, is admitted, and is at least as new as every
/// admitted one of `versions`.
pub open spec fn newest_admitted(
    versions: Seq<Version>,
    requirement: Seq<char>,
    release_type: VersionType,
    v: Version,
) -> bool {
    &&& versions.contains(v)
    &&& admitted(v@, requirement, release_type)
    &&& forall|i: int|
        0 <= i < versions.len() && #[trigger] admitted(versions[i]@, requirement, release_type)
            ==> version_le(versions[i]@, v@)
}

/// A list has at most one newest admitted version, so which one is chosen does
/// not depend on the order of the list.
pub proof fn lemma_newest_admitted_unique(
    versions: Seq<Version>,
    requirement: Seq<char>,
    release_type: VersionType,
    a: Version,
    b: Version,
)
    requires
        newest_admitted(versions, requirement, release_type, a),
        newest_admitted(versions, requirement, release_type, b),
    ensures
        a == b,
{
    let i = choose|i: int| 0 <= i < versions.len() && versions[i] == a;
    let j = choose|j: int| 0 <= j < versions.len() && versions[j] == b;
    assert(version_le(versions[i]@, b@));
    assert(version_le(versions[j]@, a@));
    lemma_order_antisymmetric(a@, b@);
    lemma_order_equal_iff_same(a@, b@);
    Version::lemma_view_injective(a, b);
}

/// A version is held against a requirement with its own major, minor and patch
/// numbers; with no pre-release identifiers when its release type is at least
/// as stable as the one asked for, and otherwise with its release letter and
/// revision as the pre-release identifiers. It is admitted exactly when the
/// requirement admits that semantic version.
pub proof fn lemma_matching_semver_form(v: VersionView, requirement: Seq<char>, rt: VersionType)
    ensures
        matching_semver(v, rt).major == v.major,
        matching_semver(v, rt).minor == v.minor,
        matching_semver(v, rt).patch == v.patch,
        release_rank(v.release_type) >= release_rank(rt) ==> matching_semver(v, rt).pre
            =~= Seq::<IdentifierView>::empty(),
        release_rank(v.release_type) < release_rank(rt) ==> matching_semver(v, rt).pre =~= seq![
            IdentifierView::AlphaNumeric(seq![release_char(v.release_type)]),
            IdentifierView::Numeric(v.revision),
        ],
        admitted(v, requirement, rt) == semver_requirement_matches(
            requirement,
            SemVerView {
                major: v.major,
                minor: v.minor,
                patch: v.patch,
                pre: if release_rank(v.release_type) >= release_rank(rt) {
                    Seq::empty()
                } else {
                    seq![
                        IdentifierView::AlphaNumeric(seq![release_char(v.release_type)]),
                        IdentifierView::Numeric(v.revision),
                    ]
                },
            },
        ),
{
    assert(matching_semver(v, rt) == SemVerView {
        major: v.major,
        minor: v.minor,
        patch: v.patch,
        pre: if release_rank(v.release_type) >= release_rank(rt) {
            Seq::empty()
        } else {
            seq![
                IdentifierView::AlphaNumeric(seq![release_char(v.release_type)]),
                IdentifierView::Numeric(v.revision),
            ]
        },
    });
}

/// The requirement written `requirement` admits no semantic version with
/// pre-release identifiers.
pub open spec fn admits_no_prerelease(requirement: Seq<char>) -> bool {
    forall|s: SemVerView| s.pre.len() > 0 ==> !#[trigger] semver_requirement_matches(requirement, s)
}

/// Asking for less stable releases only adds candidates, when the requirement
/// admits no pre-release: every version admitted for `rt2` is admitted for a
/// release type `rt1` at most `rt2`, so the newest version admitted for `rt1`
/// is at least as new as the newest admitted for `rt2`.
pub proof fn lemma_lower_release_type_not_older(
    versions: Seq<Version>,
    requirement: Seq<char>,
    rt1: VersionType,
    rt2: VersionType,
    v1: Version,
    v2: Version,
)
    requires
        release_rank(rt1) <= release_rank(rt2),
        admits_no_prerelease(requirement),
        newest_admitted(versions, requirement, rt1, v1),
        newest_admitted(versions, requirement, rt2, v2),
    ensures
        version_le(v2@, v1@),
{
    lemma_admitted_for_lower_release_type(requirement, rt1, rt2, v2@);
    let j = choose|j: int| 0 <= j < versions.len() && versions[j] == v2;
    assert(admitted(versions[j]@, requirement, rt1));
}

/// When the requirement admits no pre-release, a version admitted for `rt2` is
/// admitted for any release type `rt1` at most `rt2`.
pub proof fn lemma_admitted_for_lower_release_type(
    requirement: Seq<char>,
    rt1: VersionType,
    rt2: VersionType,
    v: VersionView,
)
    requires
        release_rank(rt1) <= release_rank(rt2),
        admits_no_prerelease(requirement),
    ensures
        admitted(v, requirement, rt2) ==> admitted(v, requirement, rt1),
{
    if release_rank(v.release_type) < release_rank(rt2) {
        assert(matching_semver(v, rt2).pre.len() > 0);
    }
}

impl Version {
    /// The semantic version that this version is held against a requirement
    /// as, when releases of type `release_type` are asked for.
    pub fn matching_semver(&self, release_type: VersionType) -> (s: SemVer)
        ensures
            s@ == matching_semver(self@, release_type),
    {
        if *self.release_type() < release_type {
            self.with_prerelease()
        } else {
            self.base()
        }
    }
}

/// The newest of `versions` that `version_req` admits when releases of type
/// `release_type` are asked for; `None` when it admits none of them.
pub fn fetch_matching_version(
    versions: &Vec<Version>,
    version_req: &VersionRequirement,
    release_type: VersionType,
) -> (r: Option<Version>)
    ensures
        r is None <==> forall|i: int|
            0 <= i < versions@.len() ==> !#[trigger] admitted(
                versions@[i]@,
                version_req@,
                release_type,
            ),
        r matches Some(v) ==> newest_admitted(versions@, version_req@, release_type, v),
{
    let mut best: Option<Version> = None;
    let mut i: usize = 0;
    while i < versions.len()
        invariant
            i <= versions@.len(),
            best is None <==> forall|j: int|
                0 <= j < i ==> !#[trigger] admitted(versions@[j]@, version_req@, release_type),
            best matches Some(v) ==> exists|j: int|
                0 <= j < i && #[trigger] versions@[j] == v && admitted(
                    v@,
                    version_req@,
                    release_type,
                ),
            best matches Some(v) ==> forall|j: int|
                0 <= j < i && #[trigger] admitted(versions@[j]@, version_req@, release_type)
                    ==> version_le(versions@[j]@, v@),
        decreases versions@.len() - i,
    {
        let candidate = versions[i];
        let semver = candidate.matching_semver(release_type);
        let ok = version_req.matches(&semver);
        if ok {
            match best {
                None => {
                    best = Some(candidate);
                },
                Some(b) => {
                    if !(candidate < b) {
                        proof {
                            lemma_le_total_transitive(candidate@, b@, candidate@);
                            assert forall|j: int|
                                0 <= j < i && #[trigger] admitted(
                                    versions@[j]@,
                                    version_req@,
                                    release_type,
                                ) implies version_le(versions@[j]@, candidate@) by {
                                lemma_le_total_transitive(versions@[j]@, b@, candidate@);
                            }
                        }
                        best = Some(candidate);
                    }
                },
            }
        }
        proof {
            assert(versions@[i as int] == candidate);
            assert(admitted(versions@[i as int]@, version_req@, release_type) == ok);
        }
        i = i + 1;
    }
    best
}

} // verus!
