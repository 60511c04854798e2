//! Unity editor versions: the version model, its textual form, its ordering,
//! and the selection of versions against semantic-version requirements, with
//! the parts of the Android module that each editor version takes.

mod error;
mod fetch;
mod hub;
mod module;
mod pattern;
mod platform;
mod requirement;
mod semantic;
mod text;
mod version;
mod version_type;

pub use error::{error_message, UvmVersionError};
pub use fetch::{
    admits_no_prerelease, admitted, fetch_matching_version, lemma_admitted_for_lower_release_type,
    lemma_lower_release_type_not_older, lemma_matching_semver_form, lemma_newest_admitted_unique, matching_semver,
    newest_admitted,
};
pub use hub::{
    installation_binary, join_path, lemma_join_path, EditorInstallation, Installation, InstallationView,
};
pub use module::{
    first_r19_editor, get_android_open_jdk_download_info, lemma_ndk_r19_threshold, get_android_sdk_ndk_download_info,
    optional_text, part_is, takes_ndk_r19, Component, ModulePart,
};
pub use pattern::{
    assembled_text, captured_version, digit_free, framed_version_text, read_at, spelled_at, spells, captures_of, closed_field, field_value,
    find_version_pattern, has_version_pattern, leftmost_match, lemma_assembled_text_parses,
    lemma_leftmost_unique, lemma_padded_text_parses, lemma_pattern_unique_at, lemma_text_roundtrip,
    open_field, padded_digits, pattern_at, short_number, Captures,
};
pub use platform::read_version_from_path;
pub use requirement::{semver_requirement_matches, semver_requirement_parses, VersionRequirement};
pub use semantic::{
    identifier_order, identifiers_order, semver_precedence, text_order, Identifier, IdentifierView,
    SemVer, SemVerView,
};
pub use text::{
    all_digits, chars_of, decimal_digits, decimal_value, digit_char, digit_value, digits_value,
    is_digit, lemma_decimal_digits, pow10, push_decimal,
};
pub use version::{
    base_semver, lemma_le_total_transitive, lemma_numbers_dominate, lemma_order_antisymmetric,
    lemma_order_equal_iff_same, lemma_order_transitive, lemma_release_precedence,
    lemma_revision_order, lemma_semver_forms, lemma_semver_of_monotone, lemma_version_order_fields,
    prerelease_semver, reversed, semver_of, version_le, version_lt, version_order, version_text,
    version_view, Version, VersionView,
};
pub use version_type::{
    int_order, lemma_release_char_roundtrip, lemma_release_name, lemma_release_type_order, release_char, release_name, release_of_char,
    release_order, release_rank, u64_order, VersionType,
};
