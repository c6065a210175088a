//! Build-time information for Embucket binaries.
use vstd::prelude::*;
use crate::text::{concat, str_eq};

verus! {

/// Build information for Embucket binaries.
pub struct BuildInfo;

impl BuildInfo {
    /// Version of the package.
    pub const VERSION: &'static str = "0.1.0";

    /// Full git commit hash; "unknown" when the build did not record it.
    pub const GIT_SHA: &'static str = "unknown";

    /// Short git commit hash; "unknown" when the build did not record it.
    pub const GIT_SHA_SHORT: &'static str = "unknown";

    /// Git branch name; "unknown" when the build did not record it.
    pub const GIT_BRANCH: &'static str = "unknown";

    /// Git describe output; "unknown" when the build did not record it.
    pub const GIT_DESCRIBE: &'static str = "unknown";

    /// Whether the repository had uncommitted changes ("true" or "false").
    pub const GIT_DIRTY: &'static str = "false";

    /// Build timestamp in RFC 3339 format; "unknown" when not recorded.
    pub const BUILD_TIMESTAMP: &'static str = "unknown";

    /// Whether the recorded dirty flag is the literal text "true".
    pub open spec fn spec_is_dirty() -> bool {
        Self::GIT_DIRTY@ == "true"@
    }

    /// "<version> (<short sha>[-dirty]) on <branch> built <timestamp>"
    pub open spec fn spec_full_version() -> Seq<char> {
        let suffix = if Self::spec_is_dirty() { "-dirty"@ } else { ""@ };
        Self::VERSION@ + " ("@ + Self::GIT_SHA_SHORT@ + suffix + ") on "@ + Self::GIT_BRANCH@
            + " built "@ + Self::BUILD_TIMESTAMP@
    }

    /// Returns a formatted version string with git metadata.
    pub fn full_version() -> (r: String)
        ensures
            r@ == Self::spec_full_version(),
    {
        let dirty_suffix = if Self::is_dirty() {
            "-dirty"
        } else {
            ""
        };
        let s = concat(Self::VERSION, " (");
        let s = concat(s.as_str(), Self::GIT_SHA_SHORT);
        let s = concat(s.as_str(), dirty_suffix);
        let s = concat(s.as_str(), ") on ");
        let s = concat(s.as_str(), Self::GIT_BRANCH);
        let s = concat(s.as_str(), " built ");
        concat(s.as_str(), Self::BUILD_TIMESTAMP)
    }

    /// Returns true if the repository had uncommitted changes at build time.
    pub fn is_dirty() -> (r: bool)
        ensures
            r == Self::spec_is_dirty(),
    {
        str_eq(Self::GIT_DIRTY, "true")
    }
}

} // verus!
