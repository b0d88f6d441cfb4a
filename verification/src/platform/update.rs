//! Release checks: how the program was installed (from its own path), the
//! upgrade command to suggest, when to check again, and when a newer
//! release is worth announcing. Fetching and the cache file stay with the
//! program.
use vstd::prelude::*;

use crate::domain::semver::{major_minor, parse_major_minor};
use crate::text::{chars_of, ends_with, has_infix, has_suffix, owned, skip_leading, str_contains, string_of, strip_leading};

verus! {

pub const REPO: &'static str = "erchoc/chatbot";

/// Seconds between two release checks: a day.
pub const CHECK_INTERVAL_SECS: u64 = 86400;

/// The cache file's name (in the configuration directory).
pub const CACHE_FILE: &'static str = "update_check.json";

/// How this binary was installed.
#[derive(Debug, Clone, Copy, PartialEq, Eq, Structural)]
pub enum Channel {
    Curl,
    Brew,
    Npm,
    Direct,
}

/// The channel a canonical executable path points to: Homebrew's Cellar
/// or linuxbrew, an npm package, the install script's locations, or a
/// binary put somewhere by hand.
pub open spec fn channel_spec(path: Seq<char>) -> Channel {
    if has_infix(path, "/Cellar/cb/"@) || has_infix(path, "/linuxbrew/"@) {
        Channel::Brew
    } else if has_infix(path, "/node_modules/@erchoc/"@) || has_infix(path, "/node_modules/chatbot/"@) {
        Channel::Npm
    } else if has_suffix(path, "/.local/bin/cb"@) || has_suffix(path, "/usr/local/bin/cb"@) {
        Channel::Curl
    } else {
        Channel::Direct
    }
}

/// The channel of the executable at `exe_path` (canonical path); the
/// program passes `None` when it cannot resolve its own path.
pub fn channel_of(exe_path: Option<&str>) -> (r: Channel)
    ensures
        r == match exe_path {
            Some(p) => channel_spec(p@),
            None => Channel::Direct,
        },
{
    let s = match exe_path {
        Some(p) => p,
        None => return Channel::Direct,
    };
    if str_contains(s, "/Cellar/cb/") || str_contains(s, "/linuxbrew/") {
        Channel::Brew
    } else if str_contains(s, "/node_modules/@erchoc/") || str_contains(s, "/node_modules/chatbot/") {
        Channel::Npm
    } else {
        let v = chars_of(s);
        let a = chars_of("/.local/bin/cb");
        let b = chars_of("/usr/local/bin/cb");
        if ends_with(v.as_slice(), a.as_slice()) || ends_with(v.as_slice(), b.as_slice()) {
            Channel::Curl
        } else {
            Channel::Direct
        }
    }
}

/// The upgrade command for a channel: package managers upgrade through
/// themselves, so their bookkeeping stays right.
pub open spec fn hint_spec(c: Channel) -> Seq<char> {
    match c {
        Channel::Brew => "brew upgrade erchoc/tap/cb"@,
        Channel::Npm => "npm install -g @erchoc/chatbot@latest"@,
        Channel::Curl => "cb update"@,
        Channel::Direct => "从 https://github.com/"@ + REPO@ + "/releases/latest 下载新二进制"@,
    }
}

pub fn upgrade_hint(channel: Channel) -> (r: String)
    ensures
        r@ == hint_spec(channel),
{
    match channel {
        Channel::Brew => owned("brew upgrade erchoc/tap/cb"),
        Channel::Npm => owned("npm install -g @erchoc/chatbot@latest"),
        Channel::Curl => owned("cb update"),
        Channel::Direct => {
            let mut s = owned("从 https://github.com/");
            s.append(REPO);
            s.append("/releases/latest 下载新二进制");
            s
        },
    }
}

/// A cached release is announced when its major or minor version is
/// newer than the running one; patch-only differences stay silent.
pub open spec fn notice_spec(current: Seq<char>, cached: Seq<char>) -> Option<Seq<char>> {
    match (major_minor(current), major_minor(cached)) {
        (Some((cm, cn)), Some((nm, nn))) => if nm > cm || (nm == cm && nn > cn) {
            Some(cached)
        } else {
            None
        },
        _ => None,
    }
}

/// The version to announce, given the running version and the cached
/// latest one.
pub fn pending_notice(current: &str, cached_latest: &str) -> (r: Option<String>)
    ensures
        match r {
            Some(v) => notice_spec(current@, cached_latest@) == Some(v@),
            None => notice_spec(current@, cached_latest@) is None,
        },
{
    let (cm, cn) = match parse_major_minor(current) {
        Some(x) => x,
        None => return None,
    };
    let (nm, nn) = match parse_major_minor(cached_latest) {
        Some(x) => x,
        None => return None,
    };
    if nm > cm || (nm == cm && nn > cn) {
        Some(owned(cached_latest))
    } else {
        None
    }
}

/// Whether a day has passed since the last check (always, without one).
pub fn should_check(now_secs: u64, last_check_at: Option<u64>) -> (r: bool)
    ensures
        r == match last_check_at {
            Some(l) => now_secs >= l && now_secs - l >= 86400,
            None => true,
        },
{
    match last_check_at {
        Some(l) => now_secs.saturating_sub(l) >= CHECK_INTERVAL_SECS,
        None => true,
    }
}

/// The release endpoint: the newest release of any kind (betas too), or
/// the latest stable one.
pub open spec fn releases_url_spec(include_prerelease: bool) -> Seq<char> {
    if include_prerelease {
        "https://api.github.com/repos/"@ + REPO@ + "/releases?per_page=1"@
    } else {
        "https://api.github.com/repos/"@ + REPO@ + "/releases/latest"@
    }
}

pub fn releases_url(include_prerelease: bool) -> (r: String)
    ensures
        r@ == releases_url_spec(include_prerelease),
{
    let mut s = owned("https://api.github.com/repos/");
    s.append(REPO);
    if include_prerelease {
        s.append("/releases?per_page=1");
    } else {
        s.append("/releases/latest");
    }
    s
}

/// A release tag without its leading 'v's, as the cache stores it.
pub fn version_of_tag(tag: &str) -> (r: String)
    ensures
        r@ == strip_leading(tag@, 'v'),
{
    let v = chars_of(tag);
    let i = skip_leading(v.as_slice(), 'v');
    string_of(v.as_slice(), i, v.len())
}

/// What the release check remembers.
#[derive(Debug, Clone)]
pub struct Cache {
    pub last_check_at: u64,
    pub latest_version: String,
}

} // verus!
