//! Three-component semantic versions and the release version policy.

use vstd::prelude::*;

use crate::text::{dec_str, u64_to_string};

verus! {

/// The text of a version: the three components in decimal, dot-separated.
pub open spec fn version_text(v: Version) -> Seq<char> {
    dec_str(v.major as nat) + "."@ + dec_str(v.minor as nat) + "."@ + dec_str(v.patch as nat)
}

/// A semantic version made of three numeric components, ordered
/// lexicographically by `(major, minor, patch)`.
#[derive(Debug, Clone, Copy, PartialEq, Eq, Structural)]
pub struct Version {
    pub major: u64,
    pub minor: u64,
    pub patch: u64,
}

/// Lexicographic order on the `(major, minor, patch)` triple.
pub open spec fn version_lt(a: Version, b: Version) -> bool {
    ||| a.major < b.major
    ||| (a.major == b.major && a.minor < b.minor)
    ||| (a.major == b.major && a.minor == b.minor && a.patch < b.patch)
}

impl Version {
    pub fn new(major: u64, minor: u64, patch: u64) -> (r: Version)
        ensures
            r == (Version { major, minor, patch }),
    {
        Version { major, minor, patch }
    }

    /// Strict `(major, minor, patch)` lexicographic comparison.
    pub fn lt(&self, other: &Version) -> (r: bool)
        ensures
            r == version_lt(*self, *other),
    {
        self.major < other.major || (self.major == other.major && (self.minor < other.minor
            || (self.minor == other.minor && self.patch < other.patch)))
    }

    /// Renders the version as `major.minor.patch`.
    pub fn to_text(&self) -> (s: String)
        ensures
            s@ == version_text(*self),
    {
        let mut s = u64_to_string(self.major);
        s.append(".");
        let minor_s = u64_to_string(self.minor);
        s.append(minor_s.as_str());
        s.append(".");
        let patch_s = u64_to_string(self.patch);
        s.append(patch_s.as_str());
        assert(s@ =~= version_text(*self));
        s
    }

    /// Whether this version is exactly `0.0.0`.
    pub fn is_zero(&self) -> (r: bool)
        ensures
            r == (self.major == 0 && self.minor == 0 && self.patch == 0),
    {
        self.major == 0 && self.minor == 0 && self.patch == 0
    }
}

/// What `next_version` must return: the policy of the decision table,
/// with pre-1.0 versions treated as unstable.
pub open spec fn spec_next_version(last: Version, has_major: bool, has_minor: bool) -> Version {
    let unstable = last.major == 0;
    if has_major {
        if unstable {
            Version { major: last.major, minor: (last.minor + 1) as u64, patch: 0 }
        } else {
            Version { major: (last.major + 1) as u64, minor: 0, patch: 0 }
        }
    } else if has_minor {
        if unstable {
            Version { major: last.major, minor: last.minor, patch: (last.patch + 1) as u64 }
        } else {
            Version { major: last.major, minor: (last.minor + 1) as u64, patch: 0 }
        }
    } else {
        Version { major: last.major, minor: last.minor, patch: (last.patch + 1) as u64 }
    }
}

/// Computes the version of the next release from the previous release's
/// version and the impact categories present among the new commits.
///
/// A breaking change bumps the major component, a feature the minor one,
/// anything else the patch one; below 1.0.0 each impact acts one level
/// lower, so pre-release lines never leave major 0 on their own.
pub fn next_version(last: &Version, has_major: bool, has_minor: bool) -> (r: Version)
    requires
        last.major < u64::MAX,
        last.minor < u64::MAX,
        last.patch < u64::MAX,
    ensures
        r == spec_next_version(*last, has_major, has_minor),
{
    let unstable = last.major == 0;
    if has_major {
        if unstable {
            Version { major: last.major, minor: last.minor + 1, patch: 0 }
        } else {
            Version { major: last.major + 1, minor: 0, patch: 0 }
        }
    } else if has_minor {
        if unstable {
            Version { major: last.major, minor: last.minor, patch: last.patch + 1 }
        } else {
            Version { major: last.major, minor: last.minor + 1, patch: 0 }
        }
    } else {
        Version { major: last.major, minor: last.minor, patch: last.patch + 1 }
    }
}

/// The next version is always strictly above the previous one, so the
/// `new_version > last_version` invariant holds for every computed version.
pub proof fn lemma_next_version_increases(last: Version, has_major: bool, has_minor: bool)
    requires
        last.major < u64::MAX,
        last.minor < u64::MAX,
        last.patch < u64::MAX,
    ensures
        version_lt(last, spec_next_version(last, has_major, has_minor)),
{
}

} // verus!
