use vstd::prelude::*;

use crate::semantic::{Identifier, SemVer, SemVerView};

verus! {

/// Whether `semver::VersionReq::parse` accepts the text `text`.
pub uninterp spec fn semver_requirement_parses(text: Seq<char>) -> bool;

/// Whether the semantic-version requirement written `requirement` is met by
/// `version`, as `semver::VersionReq::matches` decides it on what
/// `semver::VersionReq::parse` makes of that text.
pub uninterp spec fn semver_requirement_matches(requirement: Seq<char>, version: SemVerView) -> bool;

/// `semver::VersionReq::parse`: whether `text` is a requirement. Which texts
/// are is named, not stated here.
#[verifier::external_body]
fn parse_semver_requirement(text: &str) -> (b: bool)
    ensures
        b == semver_requirement_parses(text@),
{
    semver::VersionReq::parse(text).is_ok()
}

/// `semver::VersionReq::matches` on the requirement that `requirement` writes,
/// as `semver::VersionReq::parse` reads it, and the semantic version `version`;
/// `false` where the text is no requirement. What it decides is named, not
/// stated: it depends on the text and the version alone.
#[verifier::external_body]
fn semver_requirement_match(requirement: &str, version: &SemVer) -> (b: bool)
    ensures
        b == semver_requirement_matches(requirement@, version@),
        !semver_requirement_parses(requirement@) ==> !b,
{
    let pre = version.pre.iter().map(|id| match id {
        Identifier::Numeric(n) => semver::Identifier::Numeric(*n),
        Identifier::AlphaNumeric(s) => semver::Identifier::AlphaNumeric(s.clone()),
    }).collect();
    let (major, minor, patch) = (version.major, version.minor, version.patch);
    let v = semver::Version { major, minor, patch, pre, build: Vec::new() };
    match semver::VersionReq::parse(requirement) {
        Ok(r) => r.matches(&v),
        Err(_) => false,
    }
}

/// A semantic-version requirement such as `>= 2018.1, < 2019`, kept as the
/// text that writes it: every match reads the requirement from that text.
pub struct VersionRequirement {
    text: String,
}

impl View for VersionRequirement {
    type V = Seq<char>;

    closed spec fn view(&self) -> Seq<char> {
        self.text@
    }
}

impl VersionRequirement {
    /// A requirement's text is always one that `semver` reads as a requirement.
    #[verifier::type_invariant]
    spec fn text_parses(self) -> bool {
        semver_requirement_parses(self.text@)
    }

    /// Reads a semantic-version requirement; `None` where `text` is not one.
    pub fn parse(text: &str) -> (r: Option<VersionRequirement>)
        ensures
            r is Some <==> semver_requirement_parses(text@),
            r matches Some(q) ==> q@ == text@,
    {
        if parse_semver_requirement(text) {
            Some(VersionRequirement { text: text.to_owned() })
        } else {
            None
        }
    }

    /// The text that the requirement was read from.
    pub fn as_str(&self) -> (s: &str)
        ensures
            s@ == self@,
            semver_requirement_parses(self@),
    {
        proof {
            use_type_invariant(self);
        }
        self.text.as_str()
    }

    /// Whether `version` meets the requirement.
    pub fn matches(&self, version: &SemVer) -> (b: bool)
        ensures
            b == semver_requirement_matches(self@, version@),
            semver_requirement_parses(self@),
    {
        proof {
            use_type_invariant(self);
        }
        semver_requirement_match(self.text.as_str(), version)
    }
}

} // verus!
