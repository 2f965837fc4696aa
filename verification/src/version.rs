//! The seeder's version and build information.

use vstd::prelude::*;
use crate::clock::now_nanos;

verus! {

/// The package version.
pub const PACKAGE_VERSION: &'static str = "0.1.0";

/// Version and build information.
#[derive(Clone, Debug)]
pub struct VersionInfo {
    pub version: String,
    pub git_commit: String,
    pub build_date: String,
    pub rust_version: String,
}

/// The RFC 3339 text of the instant `secs` seconds and `nsecs` nanoseconds
/// after the Unix epoch, in UTC.
pub uninterp spec fn rfc3339_text(secs: i64, nsecs: u32) -> Seq<char>;

/// The latest second since the epoch that a `u64` of nanoseconds reaches.
pub const MAX_CLOCK_SECS: i64 = 18_446_744_073;

/// `chrono::DateTime::from_timestamp`, then `to_rfc3339`: the RFC 3339
/// text of the instant, none when `from_timestamp` rejects it. It accepts
/// every second from the epoch to `MAX_CLOCK_SECS` with a nanosecond below
/// one second (its range of days reaches past year 200000), and the text is
/// never empty.
#[verifier::external_body]
fn rfc3339(secs: i64, nsecs: u32) -> (r: Option<String>)
    ensures
        r matches Some(t) ==> t@ == rfc3339_text(secs, nsecs) && t@.len() > 0,
        0 <= secs <= MAX_CLOCK_SECS && nsecs < 1_000_000_000 ==> r is Some,
{
    chrono::DateTime::from_timestamp(secs, nsecs).map(|d| d.to_rfc3339())
}

/// The RFC 3339 text of the clock reading `t` (nanoseconds since the Unix epoch).
pub open spec fn date_of(t: u64) -> Seq<char> {
    rfc3339_text((t / 1_000_000_000) as i64, (t % 1_000_000_000) as u32)
}

/// The current time as RFC 3339 text.
fn utc_now_rfc3339() -> (r: String)
    ensures
        r@.len() > 0,
        exists|t: u64| r@ == #[trigger] date_of(t),
{
    let t = now_nanos();
    let secs: i64 = (t / 1_000_000_000) as i64;
    let nsecs: u32 = (t % 1_000_000_000) as u32;
    match rfc3339(secs, nsecs) {
        Some(text) => {
            assert(text@ == date_of(t));
            text
        },
        None => {
            proof {
                assert(false);
            }
            String::new()
        },
    }
}

impl VersionInfo {
    /// The information of this build: the package version, an unknown
    /// commit and compiler version, and the current time as build date.
    pub fn new() -> (r: VersionInfo)
        ensures
            r.version@ == PACKAGE_VERSION@,
            r.git_commit@ == "unknown"@,
            r.build_date@.len() > 0,
            exists|t: u64| r.build_date@ == #[trigger] date_of(t),
            r.rust_version@ == "unknown"@,
    {
        VersionInfo {
            version: PACKAGE_VERSION.to_owned(),
            git_commit: "unknown".to_owned(),
            build_date: utc_now_rfc3339(),
            rust_version: "unknown".to_owned(),
        }
    }

    /// The version.
    pub fn version(&self) -> (r: &str)
        ensures
            r@ == self.version@,
    {
        self.version.as_str()
    }

    /// The commit.
    pub fn git_commit(&self) -> (r: &str)
        ensures
            r@ == self.git_commit@,
    {
        self.git_commit.as_str()
    }

    /// The build date.
    pub fn build_date(&self) -> (r: &str)
        ensures
            r@ == self.build_date@,
    {
        self.build_date.as_str()
    }

    /// The compiler version.
    pub fn rust_version(&self) -> (r: &str)
        ensures
            r@ == self.rust_version@,
    {
        self.rust_version.as_str()
    }

    /// One line describing the build:
    /// `tondi_seeder v{version} (commit: {commit}, built: {date}, rust: {rust})`.
    pub fn to_string(&self) -> (r: String)
        ensures
            r@ == "tondi_seeder v"@ + self.version@ + " (commit: "@ + self.git_commit@ + ", built: "@
                + self.build_date@ + ", rust: "@ + self.rust_version@ + ")"@,
    {
        let mut r = "tondi_seeder v".to_owned();
        r.append(self.version.as_str());
        r.append(" (commit: ");
        r.append(self.git_commit.as_str());
        r.append(", built: ");
        r.append(self.build_date.as_str());
        r.append(", rust: ");
        r.append(self.rust_version.as_str());
        r.append(")");
        r
    }
}

impl Default for VersionInfo {
    /// The package version, everything else unknown.
    fn default() -> (r: VersionInfo)
        ensures
            r.version@ == PACKAGE_VERSION@,
            r.git_commit@ == "unknown"@,
            r.build_date@ == "unknown"@,
            r.rust_version@ == "unknown"@,
    {
        VersionInfo {
            version: PACKAGE_VERSION.to_owned(),
            git_commit: "unknown".to_owned(),
            build_date: "unknown".to_owned(),
            rust_version: "unknown".to_owned(),
        }
    }
}

/// The package version.
pub fn version() -> (r: &'static str)
    ensures
        r@ == PACKAGE_VERSION@,
{
    PACKAGE_VERSION
}

/// The information of this build.
pub fn version_info() -> (r: VersionInfo)
    ensures
        r.version@ == PACKAGE_VERSION@,
        r.git_commit@ == "unknown"@,
        r.build_date@.len() > 0,
        exists|t: u64| r.build_date@ == #[trigger] date_of(t),
        r.rust_version@ == "unknown"@,
{
    VersionInfo::new()
}

} // verus!
