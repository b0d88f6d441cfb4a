//! `cb update`: whether to install the newest release, where the package
//! manager has to do it instead, and which file to download.
use vstd::prelude::*;

use std::cmp::Ordering;

use crate::domain::semver::{compare_versions, version_order};
use crate::platform::update::{Channel, REPO};
use crate::text::{chars_of, owned, skip_leading, str_eq, string_of, strip_leading};

verus! {

/// What `cb update` does with the newest tag.
#[derive(Debug, Clone, Copy, PartialEq, Eq, Structural)]
pub enum UpdateStep {
    /// The running version is the newest: nothing to do.
    UpToDate,
    /// The running version is newer than the newest stable one (a beta):
    /// staying is safer than a silent downgrade.
    AheadOfStable,
    /// Install the tag; `reinstall` when forced onto the same version.
    Install { reinstall: bool },
}

/// The decision for `current` against `latest` (the tag without its
/// leading 'v's): without `--force` only a newer release installs; with
/// it everything installs.
pub open spec fn update_step_spec(current: Seq<char>, latest: Seq<char>, force: bool) -> UpdateStep {
    let o = version_order(current, latest);
    if !force {
        if o == 0 {
            UpdateStep::UpToDate
        } else if o > 0 {
            UpdateStep::AheadOfStable
        } else {
            UpdateStep::Install { reinstall: false }
        }
    } else {
        UpdateStep::Install { reinstall: o == 0 }
    }
}

pub fn update_step(current: &str, latest_tag: &str, force: bool) -> (r: UpdateStep)
    ensures
        r == update_step_spec(current@, strip_leading(latest_tag@, 'v'), force),
{
    let v = chars_of(latest_tag);
    let i = skip_leading(v.as_slice(), 'v');
    let latest = string_of(v.as_slice(), i, v.len());
    let o = compare_versions(current, latest.as_str());
    match o {
        Ordering::Equal => {
            if force {
                UpdateStep::Install { reinstall: true }
            } else {
                UpdateStep::UpToDate
            }
        },
        Ordering::Greater => {
            if force {
                UpdateStep::Install { reinstall: false }
            } else {
                UpdateStep::AheadOfStable
            }
        },
        Ordering::Less => UpdateStep::Install { reinstall: false },
    }
}

/// Without `--force`, `cb update` never installs a version that is not
/// newer than the running one: no silent downgrade, no needless reinstall.
pub proof fn law_no_silent_downgrade(current: Seq<char>, latest: Seq<char>)
    ensures
        update_step_spec(current, latest, false) is Install ==> version_order(current, latest) < 0,
        update_step_spec(current, latest, false) is Install ==> !update_step_spec(current, latest, false)->reinstall,
{
}

/// The upgrade command to point to when a package manager installed the
/// program (updating in place would desync its records); `None` when
/// `cb update` may replace the binary itself.
pub fn package_manager_command(channel: Channel) -> (r: Option<&'static str>)
    ensures
        match channel {
            Channel::Brew => r matches Some(c) && c@ == "brew upgrade erchoc/tap/cb"@,
            Channel::Npm => r matches Some(c) && c@ == "npm install -g @erchoc/chatbot@latest"@,
            _ => r is None,
        },
{
    match channel {
        Channel::Brew => Some("brew upgrade erchoc/tap/cb"),
        Channel::Npm => Some("npm install -g @erchoc/chatbot@latest"),
        _ => None,
    }
}

/// The release file for the platform: one universal macOS build, and
/// Linux builds for x86_64 and arm64.
pub open spec fn artifact_spec(os: Seq<char>, arch: Seq<char>) -> Option<Seq<char>> {
    if os == "macos"@ {
        Some("cb-macos-universal"@)
    } else if os == "linux"@ && arch == "x86_64"@ {
        Some("cb-linux-x86_64"@)
    } else if os == "linux"@ && arch == "aarch64"@ {
        Some("cb-linux-arm64"@)
    } else {
        None
    }
}

/// The release file for `os`/`arch`, or the message for an unsupported
/// platform.
pub fn artifact_for(os: &str, arch: &str) -> (r: Result<&'static str, String>)
    ensures
        match r {
            Ok(a) => artifact_spec(os@, arch@) == Some(a@),
            Err(m) => artifact_spec(os@, arch@) is None && m@ == "不支持的平台: "@ + os@ + "/"@
                + arch@,
        },
{
    if str_eq(os, "macos") {
        Ok("cb-macos-universal")
    } else if str_eq(os, "linux") && str_eq(arch, "x86_64") {
        Ok("cb-linux-x86_64")
    } else if str_eq(os, "linux") && str_eq(arch, "aarch64") {
        Ok("cb-linux-arm64")
    } else {
        let mut m = owned("不支持的平台: ");
        m.append(os);
        m.append("/");
        m.append(arch);
        Err(m)
    }
}

/// Where the release file is downloaded from.
pub fn download_url(tag: &str, artifact: &str) -> (r: String)
    ensures
        r@ == "https://github.com/"@ + REPO@ + "/releases/download/"@ + tag@ + "/"@ + artifact@,
{
    let mut s = owned("https://github.com/");
    s.append(REPO);
    s.append("/releases/download/");
    s.append(tag);
    s.append("/");
    s.append(artifact);
    s
}

} // verus!
