//! The daemon (launchd on macOS, systemd on Linux): where its files live
//! and what its recent output says about its health. Starting, stopping
//! and querying it stay with the program.
use vstd::prelude::*;

use crate::domain::health::{build_health_warnings, health_warnings, lines_view};
use crate::text::{has_prefix, lines, lines_of, owned};

verus! {

pub const SERVICE_LABEL: &'static str = "com.erchoc.chatbot";
pub const SERVICE_DESC: &'static str = "chatbot voice assistant daemon";
pub const SYSTEMD_UNIT: &'static str = "chatbot.service";

/// Lines of daemon output read for the health check.
pub const LOG_TAIL_LINES: usize = 80;

// ─── Outside: dirs ──────────────────────────────────────────────────────────

/// `dirs::home_dir()`, as text. It comes from the environment and the
/// user database; nothing is claimed of it.
#[verifier::external_body]
pub(crate) fn home_dir() -> Option<String> {
    dirs::home_dir().map(|p| p.to_string_lossy().into_owned())
}

/// `dirs::config_dir()`, as text. It comes from the environment; nothing
/// is claimed of it.
#[verifier::external_body]
pub(crate) fn config_dir() -> Option<String> {
    dirs::config_dir().map(|p| p.to_string_lossy().into_owned())
}

// ─── Paths ──────────────────────────────────────────────────────────────────

/// `PathBuf::join` on text: an absolute `b` replaces `a`; otherwise a
/// separator goes between them unless `a` is empty or already ends in one.
pub open spec fn joined(a: Seq<char>, b: Seq<char>) -> Seq<char> {
    if has_prefix(b, "/"@) {
        b
    } else if a.len() == 0 || a.last() == '/' {
        a + b
    } else {
        a + "/"@ + b
    }
}

pub fn join(a: &str, b: &str) -> (r: String)
    ensures
        r@ == joined(a@, b@),
{
    proof {
        reveal_strlit("/");
    }
    let bv = crate::text::chars_of(b);
    let av = crate::text::chars_of(a);
    if bv.len() > 0 && bv[0] == '/' {
        assert(b@.subrange(0, 1) =~= "/"@);
        return owned(b);
    }
    assert(!has_prefix(b@, "/"@)) by {
        if has_prefix(b@, "/"@) {
            assert(b@.subrange(0, 1)[0] == '/');
        }
    }
    let mut s = owned(a);
    if !(av.len() == 0 || av[av.len() - 1] == '/') {
        s.append("/");
    }
    s.append(b);
    s
}

/// The home directory, or "~" when it cannot be found.
pub open spec fn home_or_tilde(home: Option<Seq<char>>) -> Seq<char> {
    match home {
        Some(h) => h,
        None => "~"@,
    }
}

pub open spec fn opt_text(o: Option<String>) -> Option<Seq<char>> {
    match o {
        Some(s) => Some(s@),
        None => None,
    }
}

fn home_text(home: Option<String>) -> (r: String)
    ensures
        r@ == home_or_tilde(opt_text(home)),
{
    match home {
        Some(h) => h,
        None => owned("~"),
    }
}

/// `~/Library/LaunchAgents/com.erchoc.chatbot.plist`.
pub open spec fn plist_path_spec(home: Option<Seq<char>>) -> Seq<char> {
    joined(joined(home_or_tilde(home), "Library/LaunchAgents"@), "com.erchoc.chatbot.plist"@)
}

pub fn plist_path_in(home: Option<String>) -> (r: String)
    ensures
        r@ == plist_path_spec(opt_text(home)),
{
    let h = home_text(home);
    let a = join(h.as_str(), "Library/LaunchAgents");
    let mut name = owned(SERVICE_LABEL);
    name.append(".plist");
    proof {
        reveal_strlit("com.erchoc.chatbot");
        reveal_strlit(".plist");
        reveal_strlit("com.erchoc.chatbot.plist");
    }
    assert(name@ =~= "com.erchoc.chatbot.plist"@);
    join(a.as_str(), name.as_str())
}

/// The launchd job file (reads the home directory).
pub fn launchd_plist_path() -> (r: String)
    ensures
        exists|h: Option<Seq<char>>| r@ == plist_path_spec(h),
{
    let home = home_dir();
    let ghost h = opt_text(home);
    plist_path_in(home)
}

/// `~/Library/Logs/chatbot`.
pub open spec fn log_dir_spec(home: Option<Seq<char>>) -> Seq<char> {
    joined(home_or_tilde(home), "Library/Logs/chatbot"@)
}

pub fn log_dir_in(home: Option<String>) -> (r: String)
    ensures
        r@ == log_dir_spec(opt_text(home)),
{
    let h = home_text(home);
    join(h.as_str(), "Library/Logs/chatbot")
}

/// The daemon's log directory on macOS (reads the home directory).
pub fn launchd_log_dir() -> (r: String)
    ensures
        exists|h: Option<Seq<char>>| r@ == log_dir_spec(h),
{
    let home = home_dir();
    let ghost h = opt_text(home);
    log_dir_in(home)
}

/// The daemon's standard-error file on macOS (reads the home directory).
pub fn launchd_stderr_log() -> (r: String)
    ensures
        exists|h: Option<Seq<char>>| r@ == joined(log_dir_spec(h), "cb.stderr.log"@),
{
    let home = home_dir();
    let ghost h = opt_text(home);
    let d = log_dir_in(home);
    join(d.as_str(), "cb.stderr.log")
}

/// `<config dir>/systemd/user/chatbot.service`, the config dir falling
/// back to `~/.config`.
pub open spec fn unit_path_spec(config: Option<Seq<char>>, home: Option<Seq<char>>) -> Seq<char> {
    let base = match config {
        Some(c) => c,
        None => joined(home_or_tilde(home), ".config"@),
    };
    joined(joined(base, "systemd/user"@), "chatbot.service"@)
}

pub fn unit_path_in(config: Option<String>, home: Option<String>) -> (r: String)
    ensures
        r@ == unit_path_spec(opt_text(config), opt_text(home)),
{
    let base = match config {
        Some(c) => c,
        None => {
            let h = home_text(home);
            join(h.as_str(), ".config")
        },
    };
    let a = join(base.as_str(), "systemd/user");
    join(a.as_str(), SYSTEMD_UNIT)
}

/// The systemd user unit file (reads the config and home directories).
pub fn systemd_service_path() -> (r: String)
    ensures
        exists|c: Option<Seq<char>>, h: Option<Seq<char>>| r@ == unit_path_spec(c, h),
{
    let config = config_dir();
    let ghost c = opt_text(config);
    let home = if config.is_none() {
        home_dir()
    } else {
        None
    };
    let ghost h = opt_text(home);
    unit_path_in(config, home)
}

// ─── Health ─────────────────────────────────────────────────────────────────

/// The last `n` items (all of them when fewer).
pub open spec fn tail<A>(s: Seq<A>, n: nat) -> Seq<A> {
    if s.len() <= n {
        s
    } else {
        s.subrange(s.len() - n, s.len() as int)
    }
}

/// The last 80 lines of the daemon's output.
pub fn log_tail(output: &str) -> (r: Vec<String>)
    ensures
        r@.map_values(|l: String| l@) == tail(lines_of(output@), 80),
{
    let all = lines(output);
    let n = all.len();
    let start = if n > LOG_TAIL_LINES {
        n - LOG_TAIL_LINES
    } else {
        0
    };
    let mut r: Vec<String> = Vec::new();
    let mut k = start;
    while k < n
        invariant
            start <= k <= n,
            n == all@.len(),
            r@.map_values(|l: String| l@) == all@.map_values(|l: String| l@).subrange(
                start as int,
                k as int,
            ),
        decreases n - k,
    {
        let ghost before = r@;
        let l = all[k].clone();
        r.push(l);
        assert(r@.map_values(|l: String| l@) =~= before.map_values(|l: String| l@).push(l@));
        assert(r@.map_values(|l: String| l@) =~= all@.map_values(|l: String| l@).subrange(
            start as int,
            k + 1,
        ));
        k += 1;
    }
    assert(all@.map_values(|l: String| l@).subrange(start as int, n as int) =~= tail(
        lines_of(output@),
        80,
    ));
    r
}

/// Health warnings from the daemon's recent output (empty = healthy).
pub fn daemon_health_warnings(output: &str) -> (r: Vec<String>)
    ensures
        r@.map_values(|s: String| s@) == health_warnings(tail(lines_of(output@), 80)),
{
    let t = log_tail(output);
    let mut refs: Vec<&str> = Vec::new();
    let mut i: usize = 0;
    while i < t.len()
        invariant
            i <= t@.len(),
            lines_view(refs@) == t@.map_values(|l: String| l@).subrange(0, i as int),
        decreases t.len() - i,
    {
        let ghost before = refs@;
        refs.push(t[i].as_str());
        assert(lines_view(refs@) =~= lines_view(before).push(t@[i as int]@));
        assert(t@.map_values(|l: String| l@).subrange(0, i + 1) =~= t@.map_values(|l: String| l@).subrange(
            0,
            i as int,
        ).push(t@[i as int]@));
        i += 1;
    }
    assert(t@.map_values(|l: String| l@).subrange(0, t@.len() as int) =~= t@.map_values(
        |l: String| l@,
    ));
    build_health_warnings(refs.as_slice())
}

} // verus!
