//! Tool versions and the decision whether a remote manifest announces a
//! newer release.
//!
//! A version is held as plain numbers plus a pre-release flag. The text of a
//! version and the `version` field of a manifest document are read through
//! the semver and JSON collaborators; the comparison and the notice decision
//! are verified here.
use vstd::prelude::*;

use crate::update::{dec_of, render_u64};

verus! {

/// A semantic version: major, minor and patch numbers, and whether the text
/// carried a pre-release tag.
#[derive(Clone, Copy, PartialEq, Eq, Structural, Debug)]
pub struct Version {
    pub major: u64,
    pub minor: u64,
    pub patch: u64,
    pub prerelease: bool,
}

/// The plain quadruple a version is made of.
pub open spec fn version_tuple(v: Version) -> (u64, u64, u64, bool) {
    (v.major, v.minor, v.patch, v.prerelease)
}

/// What parsing a version text yields: the major, minor and patch numbers
/// and the presence of a pre-release tag, or nothing on a malformed text.
pub uninterp spec fn semver_of(s: Seq<char>) -> Option<(u64, u64, u64, bool)>;

/// Relies on semver::Version::parse: whether a text is a well-formed
/// semantic version, its three numbers and whether a pre-release tag is
/// present are functions of the text alone.
#[verifier::external_body]
fn parse_semver(s: &str) -> (r: Option<Version>)
    ensures
        (match r {
            Some(v) => Some(version_tuple(v)),
            None => None,
        }) == semver_of(s@),
{
    match semver::Version::parse(s) {
        Ok(v) => Some(Version {
            major: v.major,
            minor: v.minor,
            patch: v.patch,
            prerelease: !v.pre.is_empty(),
        }),
        Err(_) => None,
    }
}

/// What the `version` string field of a manifest document holds: the parsed
/// field for a JSON text whose top value carries one, nothing otherwise.
pub uninterp spec fn manifest_version_of(s: Seq<char>) -> Option<Seq<char>>;

/// Relies on serde_json::from_str and serde_json::Value::{get, as_str}: the
/// `version` string field of a JSON text is a function of the text alone.
#[verifier::external_body]
fn manifest_version_field(s: &str) -> (r: Option<String>)
    ensures
        (match r {
            Some(t) => Some(t@),
            None => None,
        }) == manifest_version_of(s@),
{
    let parsed: serde_json::Value = match serde_json::from_str(s) {
        Ok(v) => v,
        Err(_) => return None,
    };
    match parsed.get("version") {
        Some(field) => field.as_str().map(|t| t.to_string()),
        None => None,
    }
}

/// Whether `remote` announces a release strictly newer than `current`: the
/// number triple is lexicographically greater and the remote version is a
/// release, not a pre-release.
pub open spec fn version_newer(remote: Version, current: Version) -> bool {
    &&& !remote.prerelease
    &&& (remote.major > current.major || (remote.major == current.major && (remote.minor
        > current.minor || (remote.minor == current.minor && remote.patch > current.patch))))
}

/// The version a manifest effectively reports: its parsed `version` field,
/// or `0.0.0` when the field is missing or unparseable, so a malformed
/// manifest never announces anything.
pub open spec fn reported_version(field: Option<Seq<char>>) -> (u64, u64, u64, bool) {
    match field {
        Some(text) => match semver_of(text) {
            Some(t) => t,
            None => (0u64, 0u64, 0u64, false),
        },
        None => (0u64, 0u64, 0u64, false),
    }
}

/// `reported_version`, as a `Version` value.
pub open spec fn reported_as_version(field: Option<Seq<char>>) -> Version {
    Version {
        major: reported_version(field).0,
        minor: reported_version(field).1,
        patch: reported_version(field).2,
        prerelease: reported_version(field).3,
    }
}

impl Version {
    /// Decides whether `self` is a strictly newer release than `current`.
    pub fn newer_than(&self, current: &Version) -> (r: bool)
        ensures
            r == version_newer(*self, *current),
    {
        !self.prerelease && (self.major > current.major || (self.major == current.major
            && (self.minor > current.minor || (self.minor == current.minor && self.patch
            > current.patch))))
    }

    /// Renders the version as `major.minor.patch` text bytes.
    pub fn render(&self) -> (r: Vec<u8>)
        ensures
            r@ == version_bytes(*self),
    {
        let mut v = render_u64(self.major);
        let mut part: Vec<u8> = Vec::new();
        part.push(46);
        v.append(&mut part);
        let mut part = render_u64(self.minor);
        v.append(&mut part);
        let mut part: Vec<u8> = Vec::new();
        part.push(46);
        v.append(&mut part);
        let mut part = render_u64(self.patch);
        v.append(&mut part);
        proof {
            assert(v@ =~= version_bytes(*self));
        }
        v
    }
}

/// The `major.minor.patch` text of a version, as bytes.
pub open spec fn version_bytes(v: Version) -> Seq<u8> {
    dec_of(v.major as nat) + seq![46u8] + dec_of(v.minor as nat) + seq![46u8] + dec_of(
        v.patch as nat,
    )
}

/// Reads a manifest document and decides whether it announces a release
/// strictly newer than `current`. Returns that version when it does, and
/// nothing otherwise; a manifest without a well-formed `version` field
/// counts as reporting `0.0.0`.
pub fn evaluate_manifest(manifest_text: &str, current: &Version) -> (r: Option<Version>)
    ensures
        ({
            let reported = reported_as_version(manifest_version_of(manifest_text@));
            if version_newer(reported, *current) {
                r matches Some(v) && v == reported
            } else {
                r is None
            }
        }),
{
    let remote = match manifest_version_field(manifest_text) {
        Some(text) => match parse_semver(text.as_str()) {
            Some(v) => v,
            None => Version { major: 0, minor: 0, patch: 0, prerelease: false },
        },
        None => Version { major: 0, minor: 0, patch: 0, prerelease: false },
    };
    if remote.newer_than(current) {
        Some(remote)
    } else {
        None
    }
}

} // verus!
