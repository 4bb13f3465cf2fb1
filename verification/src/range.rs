//! Semantic versions and the ranges that select them.
//!
//! Both are the `semver` crate's. The library never looks inside either: it
//! parses text into them and asks whether a range admits a version.

use semver::{Version, VersionReq};
use vstd::prelude::*;

verus! {

/// `semver::VersionReq`, a range of versions. Nothing inside it is seen here.
#[verifier::external_type_specification]
#[verifier::external_body]
pub struct ExVersionReq(VersionReq);

/// `semver::Version`, one version. Nothing inside it is seen here.
#[verifier::external_type_specification]
#[verifier::external_body]
pub struct ExVersion(Version);

/// `semver::Error`, which says why a text is no version or no range. It is
/// handed on as it comes.
#[verifier::external_type_specification]
#[verifier::external_body]
pub struct ExSemverError(semver::Error);

/// The range that `text` writes, if it writes one.
pub uninterp spec fn parsed_requirement(text: Seq<char>) -> Option<VersionReq>;

/// The version that `text` writes, if it writes one.
pub uninterp spec fn parsed_version(text: Seq<char>) -> Option<Version>;

/// Whether `version` lies in `requirement`.
pub uninterp spec fn requirement_admits(requirement: VersionReq, version: Version) -> bool;

/// `VersionReq::parse` is a function of the text alone: it gives the range
/// that the text writes, or an error where it writes none.
pub assume_specification[ VersionReq::parse ](text: &str) -> (parsed: Result<
    VersionReq,
    semver::Error,
>)
    ensures
        match parsed {
            Ok(requirement) => parsed_requirement(text@) == Some(requirement),
            Err(_) => parsed_requirement(text@).is_none(),
        },
;

/// `Version::parse` is a function of the text alone: it gives the version
/// that the text writes, or an error where it writes none.
pub assume_specification[ Version::parse ](text: &str) -> (parsed: Result<Version, semver::Error>)
    ensures
        match parsed {
            Ok(version) => parsed_version(text@) == Some(version),
            Err(_) => parsed_version(text@).is_none(),
        },
;

/// `VersionReq::matches` depends on the range and the version alone.
pub assume_specification[ VersionReq::matches ](
    requirement: &VersionReq,
    version: &Version,
) -> (admitted: bool)
    ensures
        admitted == requirement_admits(*requirement, *version),
;

} // verus!
