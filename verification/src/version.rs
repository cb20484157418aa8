//! The line that tells which build of the tool is running.

use vstd::prelude::*;

verus! {

/// What is known of a build: the package, the source revision, and where and
/// when it was built.
#[derive(Debug)]
pub struct BuildInfo {
    pub pkg_name: String,
    pub pkg_version: String,
    pub git_version: Option<String>,
    pub profile: String,
    pub cfg_os: String,
    pub cfg_target_arch: String,
    pub built_time_utc: String,
}

/// The source revision of a build, or `unknown`.
pub open spec fn revision_of(info: BuildInfo) -> Seq<char> {
    match info.git_version {
        Some(revision) => revision@,
        None => "unknown"@,
    }
}

/// The version line of a build: name and version, then in brackets the
/// revision, the profile, the system with its architecture, and the time.
pub open spec fn version_of(info: BuildInfo) -> Seq<char> {
    info.pkg_name@ + " "@ + info.pkg_version@ + " ("@ + revision_of(info) + ", "@ + info.profile@
        + " build, "@ + info.cfg_os@ + " ["@ + info.cfg_target_arch@ + "], "@
        + info.built_time_utc@ + ")"@
}

/// The version line of the build that `info` describes.
pub fn version(info: &BuildInfo) -> (line: String)
    ensures
        line@ == version_of(*info),
{
    let mut line = String::new();
    line.append(info.pkg_name.as_str());
    line.append(" ");
    line.append(info.pkg_version.as_str());
    line.append(" (");
    match &info.git_version {
        Some(revision) => line.append(revision.as_str()),
        None => line.append("unknown"),
    }
    line.append(", ");
    line.append(info.profile.as_str());
    line.append(" build, ");
    line.append(info.cfg_os.as_str());
    line.append(" [");
    line.append(info.cfg_target_arch.as_str());
    line.append("], ");
    line.append(info.built_time_utc.as_str());
    line.append(")");
    line
}

} // verus!
