//! Structured event log: the events, the file each one belongs to, the
//! entry's clock fields, rotation of files that grew too large, and how
//! entries read back are listed.
//!
//! Three append-only JSON-lines files per date, each with a size cap:
//! `turns-YYYY-MM-DD.jsonl` (10 MB), `errors-…` (2 MB), `events-…` (5 MB).
//! A file over its cap loses its oldest 30 % of lines.
use vstd::prelude::*;

use crate::calendar::{hms_text, is_date_text, padded, push_clock, push_date, ymd_text};
use crate::domain::semver::{
    lemma_lex_order_antisym, lemma_lex_order_eq, lemma_lex_order_trans,
    lex_order, tags_order,
};
use crate::ui::theme::{BOLD, BR_MAGENTA, BR_RED, BR_YELLOW, MUTED, RESET};
use crate::text::{
    char_pos, char_width_of, chars_of, ends_with, find_char, has_prefix, has_suffix, lines, lines_of, owned,
    push_decimal, push_zero_padded, decimal, starts_with, string_of, utf8_len, utf8_len_capped,
};

verus! {

/// Unix time in milliseconds (`SystemTime::now()` since the epoch; 0 if the
/// clock reads before it). Nothing is claimed of the value: it is the
/// machine's clock.
#[verifier::external_body]
pub fn now_millis() -> u64 {
    std::time::SystemTime::now()
        .duration_since(std::time::UNIX_EPOCH)
        .unwrap_or_default()
        .as_millis() as u64
}

// ─── Files ──────────────────────────────────────────────────────────────────

pub const MAX_TURNS_BYTES: u64 = 10485760;
pub const MAX_ERRORS_BYTES: u64 = 2097152;
pub const MAX_EVENTS_BYTES: u64 = 5242880;

/// Which file an event goes to.
#[derive(Debug, Clone, Copy, PartialEq, Eq, Structural)]
pub enum Bucket {
    Turns,
    Errors,
    Events,
}

impl Bucket {
    pub open spec fn prefix_spec(self) -> Seq<char> {
        match self {
            Bucket::Turns => "turns"@,
            Bucket::Errors => "errors"@,
            Bucket::Events => "events"@,
        }
    }

    /// The file name's prefix.
    pub fn prefix(self) -> (r: &'static str)
        ensures
            r@ == self.prefix_spec(),
    {
        match self {
            Bucket::Turns => "turns",
            Bucket::Errors => "errors",
            Bucket::Events => "events",
        }
    }

    /// The file's size cap in bytes.
    pub fn max_bytes(self) -> (r: u64)
        ensures
            r == match self {
                Bucket::Turns => 10485760u64,
                Bucket::Errors => 2097152u64,
                Bucket::Events => 5242880u64,
            },
    {
        match self {
            Bucket::Turns => MAX_TURNS_BYTES,
            Bucket::Errors => MAX_ERRORS_BYTES,
            Bucket::Events => MAX_EVENTS_BYTES,
        }
    }
}

/// `<prefix>-<date>.jsonl`.
pub open spec fn bucket_file_spec(b: Bucket, date: Seq<char>) -> Seq<char> {
    b.prefix_spec() + "-"@ + date + ".jsonl"@
}

pub fn bucket_file_name(bucket: Bucket, date: &str) -> (r: String)
    ensures
        r@ == bucket_file_spec(bucket, date@),
{
    let mut s = owned(bucket.prefix());
    s.append("-");
    s.append(date);
    s.append(".jsonl");
    s
}

/// The date a log file's name carries: `turns-`, `errors-` or `events-`,
/// ten bytes holding a '-', then `.jsonl`.
pub open spec fn file_date(name: Seq<char>, prefix: Seq<char>) -> Option<Seq<char>> {
    if has_prefix(name, prefix) && has_suffix(name, ".jsonl"@) && prefix.len() + 6 <= name.len() {
        let date = name.subrange(prefix.len() as int, name.len() - 6);
        if utf8_len(date) == 10 && char_pos(date, '-') < date.len() {
            Some(date)
        } else {
            None
        }
    } else {
        None
    }
}

pub open spec fn log_file_date(name: Seq<char>) -> Option<Seq<char>> {
    match file_date(name, "turns-"@) {
        Some(d) => Some(d),
        None => match file_date(name, "errors-"@) {
            Some(d) => Some(d),
            None => file_date(name, "events-"@),
        },
    }
}

fn date_with_prefix(v: &[char], prefix: &str) -> (r: Option<String>)
    ensures
        match r {
            Some(d) => file_date(v@, prefix@) == Some(d@),
            None => file_date(v@, prefix@) is None,
        },
{
    let p = chars_of(prefix);
    let suffix = chars_of(".jsonl");
    proof {
        reveal_strlit(".jsonl");
    }
    if !starts_with(v, p.as_slice()) || !ends_with(v, suffix.as_slice()) || v.len() < 6 || p.len() > v.len() - 6 {
        return None;
    }
    let date = string_of(v, p.len(), v.len() - 6);
    let dv = chars_of(date.as_str());
    let has_dash = find_char(dv.as_slice(), '-') < dv.len();
    if utf8_len_capped(dv.as_slice(), 10) == 10 && has_dash {
        Some(date)
    } else {
        None
    }
}

/// The date in a log file's name, if it is one of the three log files.
pub fn date_of_log_file(name: &str) -> (r: Option<String>)
    ensures
        match r {
            Some(d) => log_file_date(name@) == Some(d@),
            None => log_file_date(name@) is None,
        },
{
    let v = chars_of(name);
    match date_with_prefix(v.as_slice(), "turns-") {
        Some(d) => Some(d),
        None => match date_with_prefix(v.as_slice(), "errors-") {
            Some(d) => Some(d),
            None => date_with_prefix(v.as_slice(), "events-"),
        },
    }
}

// ─── Events ─────────────────────────────────────────────────────────────────

/// A logged event (conversation turns, which carry timings, are logged by
/// the program beside these).
#[derive(Debug, Clone)]
pub enum LogEvent {
    SessionStart { session_id: String, model: String, voice: String, language: String },
    /// A skipped utterance: "too_short", "empty_asr", "wake_word",
    /// "user_deactivated", "interrupted", ...
    Skip { session_id: String, reason: String, asr: Option<String> },
    /// A failure at a stage: "asr", "llm", "tts" or "audio".
    Error { session_id: String, stage: String, msg: String },
    SessionEnd { session_id: String, turn_count: usize },
}

impl LogEvent {
    /// Errors go to the errors file, the rest to the events file.
    pub fn bucket(&self) -> (r: Bucket)
        ensures
            r == if self is Error {
                Bucket::Errors
            } else {
                Bucket::Events
            },
    {
        match self {
            LogEvent::Error { .. } => Bucket::Errors,
            _ => Bucket::Events,
        }
    }
}

/// Local wall-clock fields (from `localtime_r`), already offset: the
/// year in full, month 1 to 12.
#[derive(Debug, Clone, Copy)]
pub struct LocalTime {
    pub year: u64,
    pub month: u64,
    pub day: u64,
    pub hour: u64,
    pub minute: u64,
    pub second: u64,
}

/// "HH:MM:SS" of `ms`: in local time when known, else in UTC.
pub open spec fn time_text(ms: u64, local: Option<LocalTime>) -> Seq<char> {
    match local {
        Some(t) => padded(t.hour as nat, 2) + ":"@ + padded(t.minute as nat, 2) + ":"@ + padded(
            t.second as nat,
            2,
        ),
        None => hms_text(((ms / 1000) % 86400) as nat),
    }
}

/// Unix milliseconds to "HH:MM:SS", in the local time zone when `local`
/// gives it (the program reads it with `localtime_r`), else in UTC.
pub fn millis_to_time(ms: u64, local: Option<LocalTime>) -> (r: String)
    ensures
        r@ == time_text(ms, local),
{
    let mut s = String::new();
    match local {
        Some(t) => {
            push_zero_padded(&mut s, t.hour, 2);
            s.append(":");
            push_zero_padded(&mut s, t.minute, 2);
            s.append(":");
            push_zero_padded(&mut s, t.second, 2);
        },
        None => {
            push_clock(&mut s, (ms / 1000) % 86400);
        },
    }
    assert(s@ =~= time_text(ms, local));
    s
}

/// Unix milliseconds to "YYYY-MM-DD", local when `local` gives the date,
/// else the UTC date. Files are grouped by this value.
pub fn millis_to_date(ms: u64, local: Option<LocalTime>) -> (r: String)
    ensures
        match local {
            Some(t) => r@ == ymd_text(t.year as nat, t.month as nat, t.day as nat),
            None => is_date_text(r@, (ms / 1000) as int / 86400),
        },
{
    let mut s = String::new();
    match local {
        Some(t) => {
            push_zero_padded(&mut s, t.year, 4);
            s.append("-");
            push_zero_padded(&mut s, t.month, 2);
            s.append("-");
            push_zero_padded(&mut s, t.day, 2);
            assert(s@ =~= ymd_text(t.year as nat, t.month as nat, t.day as nat));
        },
        None => {
            push_date(&mut s, (ms / 1000) / 86400);
            assert(s@ =~= Seq::<char>::empty() + s@);
        },
    }
    s
}

/// One log line: Unix milliseconds (authoritative), the local "HH:MM:SS"
/// at write time (display code recomputes from `ts`), the file date, and
/// the event.
#[derive(Debug, Clone)]
pub struct LogEntry {
    pub ts: u64,
    pub time: String,
    pub date: String,
    pub event: LogEvent,
}

/// The entry for `event` written at `now`.
pub fn make_entry(now: u64, local: Option<LocalTime>, event: LogEvent) -> (r: LogEntry)
    ensures
        r.ts == now,
        r.time@ == time_text(now, local),
        match local {
            Some(t) => r.date@ == ymd_text(t.year as nat, t.month as nat, t.day as nat),
            None => is_date_text(r.date@, (now / 1000) as int / 86400),
        },
        r.event == event,
{
    LogEntry { ts: now, time: millis_to_time(now, local), date: millis_to_date(now, local), event }
}

/// Writes the events of one session.
pub struct EventLogger {
    session_id: String,
}

impl EventLogger {
    /// The session's id.
    pub closed spec fn id(&self) -> Seq<char> {
        self.session_id@
    }

    pub fn new(session_id: String) -> (r: Self)
        ensures
            r.id() == session_id@,
    {
        EventLogger { session_id }
    }

    pub fn session_id(&self) -> (r: &str)
        ensures
            r@ == self.id(),
    {
        self.session_id.as_str()
    }

    /// The session-start event: model, voice and language.
    pub fn session_start(&self, model: &str, voice: &str, language: &str) -> (r: LogEvent)
        ensures
            r matches LogEvent::SessionStart { session_id, model: m, voice: v, language: l }
                && session_id@ == self.id() && m@ == model@ && v@ == voice@ && l@ == language@,
    {
        LogEvent::SessionStart {
            session_id: self.session_id.clone(),
            model: owned(model),
            voice: owned(voice),
            language: owned(language),
        }
    }

    /// A skipped utterance, with its transcript when there is one.
    pub fn skip(&self, reason: &str, asr: Option<&str>) -> (r: LogEvent)
        ensures
            r matches LogEvent::Skip { session_id, reason: rs, asr: a } && session_id@ == self.id()
                && rs@ == reason@ && match asr {
                Some(x) => a matches Some(y) && y@ == x@,
                None => a is None,
            },
    {
        LogEvent::Skip {
            session_id: self.session_id.clone(),
            reason: owned(reason),
            asr: match asr {
                Some(x) => Some(owned(x)),
                None => None,
            },
        }
    }

    /// A failure at `stage`.
    pub fn error(&self, stage: &str, msg: &str) -> (r: LogEvent)
        ensures
            r matches LogEvent::Error { session_id, stage: st, msg: m } && session_id@ == self.id()
                && st@ == stage@ && m@ == msg@,
    {
        LogEvent::Error { session_id: self.session_id.clone(), stage: owned(stage), msg: owned(msg) }
    }

    /// The session-end event with the number of turns.
    pub fn session_end(&self, turn_count: usize) -> (r: LogEvent)
        ensures
            r matches LogEvent::SessionEnd { session_id, turn_count: n } && session_id@ == self.id()
                && n == turn_count,
    {
        LogEvent::SessionEnd { session_id: self.session_id.clone(), turn_count }
    }
}

/// The transcript of a skip, or nothing.
pub open spec fn asr_text(asr: Option<String>) -> Seq<char> {
    match asr {
        Some(a) => a@,
        None => Seq::empty(),
    }
}

/// How `cb logs` shows an event (the time recomputed from `ts`).
pub open spec fn event_lines(time: Seq<char>, e: LogEvent) -> Seq<Seq<char>> {
    match e {
        LogEvent::SessionStart { session_id, model, voice, language } => seq![
            "   "@
            + BR_MAGENTA@
            + time
            + RESET@
            + "  "@
            + BOLD@
            + "● session start"@
            + RESET@
            + "  "@
            + MUTED@
            + session_id@
            + RESET@,
            "           "@
            + MUTED@
            + "model="@
            + model@
            + "  voice="@
            + voice@
            + "  lang="@
            + language@
            + RESET@,
        ],
        LogEvent::SessionEnd { turn_count, .. } => seq![
            "   "@
            + MUTED@
            + time
            + "  ● session end  ("@
            + decimal(turn_count as nat)
            + " turns)"@
            + RESET@,
        ],
        LogEvent::Skip { reason, asr, .. } => seq![
            "   "@
            + BR_YELLOW@
            + time
            + RESET@
            + "  ⏭ "@
            + reason@
            + "  "@
            + MUTED@
            + asr_text(asr)
            + RESET@,
        ],
        LogEvent::Error { stage, msg, .. } => seq![
            "   "@
            + BR_RED@
            + time
            + RESET@
            + "  ❌ ["@
            + stage@
            + "] "@
            + msg@,
        ],
    }
}

pub fn entry_lines(time: &str, event: &LogEvent) -> (r: Vec<String>)
    ensures
        r@.map_values(|l: String| l@) == event_lines(time@, *event),
{
    let mut r: Vec<String> = Vec::new();
    match event {
        LogEvent::SessionStart { session_id, model, voice, language } => {
            let mut s = String::new();
            s.append("   ");
            s.append(BR_MAGENTA);
            s.append(time);
            s.append(RESET);
            s.append("  ");
            s.append(BOLD);
            s.append("● session start");
            s.append(RESET);
            s.append("  ");
            s.append(MUTED);
            s.append(session_id.as_str());
            s.append(RESET);
            let mut t = String::new();
            t.append("           ");
            t.append(MUTED);
            t.append("model=");
            t.append(model.as_str());
            t.append("  voice=");
            t.append(voice.as_str());
            t.append("  lang=");
            t.append(language.as_str());
            t.append(RESET);
            assert(s@ =~= "   "@
            + BR_MAGENTA@
            + time@
            + RESET@
            + "  "@
            + BOLD@
            + "● session start"@
            + RESET@
            + "  "@
            + MUTED@
            + session_id@
            + RESET@);
            assert(t@ =~= "           "@
            + MUTED@
            + "model="@
            + model@
            + "  voice="@
            + voice@
            + "  lang="@
            + language@
            + RESET@);
            r.push(s);
            r.push(t);
        },
        LogEvent::SessionEnd { turn_count, .. } => {
            let mut s = String::new();
            s.append("   ");
            s.append(MUTED);
            s.append(time);
            s.append("  ● session end  (");
            push_decimal(&mut s, *turn_count as u64);
            s.append(" turns)");
            s.append(RESET);
            assert(s@ =~= "   "@
            + MUTED@
            + time@
            + "  ● session end  ("@
            + decimal(*turn_count as nat)
            + " turns)"@
            + RESET@);
            r.push(s);
        },
        LogEvent::Skip { reason, asr, .. } => {
            let asr_str: &str = match asr {
                Some(a) => a.as_str(),
                None => "",
            };
            let mut s = String::new();
            s.append("   ");
            s.append(BR_YELLOW);
            s.append(time);
            s.append(RESET);
            s.append("  ⏭ ");
            s.append(reason.as_str());
            s.append("  ");
            s.append(MUTED);
            s.append(asr_str);
            s.append(RESET);
            proof {
                reveal_strlit("");
            }
            assert(asr_str@ == asr_text(*asr));
            assert(s@ =~= "   "@
            + BR_YELLOW@
            + time@
            + RESET@
            + "  ⏭ "@
            + reason@
            + "  "@
            + MUTED@
            + asr_text(*asr)
            + RESET@);
            r.push(s);
        },
        LogEvent::Error { stage, msg, .. } => {
            let mut s = String::new();
            s.append("   ");
            s.append(BR_RED);
            s.append(time);
            s.append(RESET);
            s.append("  ❌ [");
            s.append(stage.as_str());
            s.append("] ");
            s.append(msg.as_str());
            assert(s@ =~= "   "@
            + BR_RED@
            + time@
            + RESET@
            + "  ❌ ["@
            + stage@
            + "] "@
            + msg@);
            r.push(s);
        },
    }
    assert(r@.map_values(|l: String| l@) =~= event_lines(time@, *event));
    r
}

/// `k` characters are the longest prefix of `s` that fits in `cap` bytes
/// of UTF-8 (where `str::floor_char_boundary(cap)` cuts).
pub open spec fn cut_point(s: Seq<char>, cap: nat, k: int) -> bool {
    &&& 0 <= k <= s.len()
    &&& utf8_len(s.subrange(0, k)) <= cap
    &&& k < s.len() ==> utf8_len(s.subrange(0, k + 1)) > cap
}

/// A turn's reply as `cb logs` shows it: over 80 bytes, cut at the last
/// character boundary within 77 bytes and ended with "...".
pub fn reply_preview(reply: &str) -> (r: String)
    ensures
        utf8_len(reply@) <= 80 ==> r@ == reply@,
        utf8_len(reply@) > 80 ==> exists|k: int|
            cut_point(reply@, 77, k) && r@ == reply@.subrange(0, k) + "..."@,
{
    let v = chars_of(reply);
    if utf8_len_capped(v.as_slice(), 80) <= 80 {
        return owned(reply);
    }
    let mut n: u64 = 0;
    let mut i: usize = 0;
    while i < v.len() && n + char_width_of(v[i]) <= 77
        invariant
            i <= v@.len(),
            n == utf8_len(v@.subrange(0, i as int)),
            n <= 77,
        decreases v.len() - i,
    {
        assert(v@.subrange(0, i + 1).drop_last() =~= v@.subrange(0, i as int));
        n = n + char_width_of(v[i]);
        i += 1;
    }
    proof {
        if i < v@.len() {
            assert(v@.subrange(0, i + 1).drop_last() =~= v@.subrange(0, i as int));
        }
        assert(cut_point(reply@, 77, i as int));
    }
    let mut s = string_of(v.as_slice(), 0, i);
    s.append("...");
    s
}

// ─── Rotation ───────────────────────────────────────────────────────────────

/// The non-empty lines, in order.
pub open spec fn nonempty(ls: Seq<Seq<char>>) -> Seq<Seq<char>>
    decreases ls.len(),
{
    if ls.len() == 0 {
        Seq::empty()
    } else {
        let r = nonempty(ls.drop_last());
        if ls.last().len() == 0 {
            r
        } else {
            r.push(ls.last())
        }
    }
}

/// Lines kept when a file is rotated: 70 % of them, rounded up.
pub open spec fn keep_count(n: nat) -> nat {
    ((7 * n + 9) / 10) as nat
}

/// The lines a rotated file keeps: the newest `keep_count` of its
/// non-empty lines, in order. Nothing when it has none.
pub open spec fn rotation_spec(content: Seq<char>) -> Option<Seq<Seq<char>>> {
    let ls = nonempty(lines_of(content));
    if ls.len() == 0 {
        None
    } else {
        Some(ls.subrange(ls.len() - keep_count(ls.len()), ls.len() as int))
    }
}

/// The lines to write back when a file has outgrown its cap: the oldest
/// 30 % are dropped. `None` when the file holds no lines.
pub fn rotated_lines(content: &str) -> (r: Option<Vec<String>>)
    ensures
        match r {
            Some(v) => rotation_spec(content@) == Some(v@.map_values(|l: String| l@)),
            None => rotation_spec(content@) is None,
        },
{
    let all = lines(content);
    let ghost ls = lines_of(content@);
    let mut kept: Vec<String> = Vec::new();
    let mut i: usize = 0;
    while i < all.len()
        invariant
            i <= all@.len(),
            all@.map_values(|l: String| l@) == ls,
            kept@.map_values(|l: String| l@) == nonempty(ls.subrange(0, i as int)),
            kept@.len() <= i,
        decreases all.len() - i,
    {
        assert(ls.subrange(0, i + 1).drop_last() =~= ls.subrange(0, i as int));
        assert(ls.subrange(0, i + 1).last() == all@[i as int]@);
        if !all[i].as_str().is_empty() {
            let ghost before = kept@;
            let line = all[i].clone();
            kept.push(line);
            assert(kept@.map_values(|l: String| l@) =~= before.map_values(|l: String| l@).push(
                line@,
            ));
        }
        i += 1;
    }
    assert(ls.subrange(0, ls.len() as int) =~= ls);
    let n = kept.len();
    if n == 0 {
        return None;
    }
    let keep: usize = n - (3 * (n / 10) + (3 * (n % 10)) / 10);
    assert(keep == keep_count(n as nat)) by {
        let q = n / 10;
        let r = n % 10;
        assert(n == 10 * q + r);
        assert((7 * n + 9) / 10 == 7 * q + (7 * r + 9) / 10);
    }
    let drop = n - keep;
    let mut out: Vec<String> = Vec::new();
    let mut k: usize = drop;
    while k < n
        invariant
            drop <= k <= n,
            n == kept@.len(),
            out@.map_values(|l: String| l@) == kept@.map_values(|l: String| l@).subrange(
                drop as int,
                k as int,
            ),
        decreases n - k,
    {
        let ghost before = out@;
        let line = kept[k].clone();
        out.push(line);
        assert(out@.map_values(|l: String| l@) =~= before.map_values(|l: String| l@).push(line@));
        assert(out@.map_values(|l: String| l@) =~= kept@.map_values(|l: String| l@).subrange(
            drop as int,
            k + 1,
        ));
        k += 1;
    }
    Some(out)
}

/// Rotation keeps the newest lines, in order: never all of them are
/// lost, at least 70 % stay, and no more than needed for that.
pub proof fn law_rotation_keeps_newest_seventy_percent(content: Seq<char>)
    ensures
        rotation_spec(content) matches Some(kept) ==> ({
            let ls = nonempty(lines_of(content));
            &&& 1 <= kept.len() <= ls.len()
            &&& 10 * kept.len() >= 7 * ls.len()
            &&& 10 * (kept.len() - 1) < 7 * ls.len()
            &&& kept == ls.subrange(ls.len() - kept.len(), ls.len() as int)
        }),
{
}

// ─── Listing ────────────────────────────────────────────────────────────────

/// `lex_order` is -1, 0 or 1.
proof fn lemma_lex_range(x: Seq<char>, y: Seq<char>)
    ensures
        -1 <= lex_order(x, y) <= 1,
    decreases x.len(),
{
    if x.len() > 0 && y.len() > 0 && x[0] == y[0] {
        lemma_lex_range(x.drop_first(), y.drop_first());
    }
}

/// "Greater than" is transitive.
proof fn lemma_gt_trans(a: Seq<char>, b: Seq<char>, c: Seq<char>)
    requires
        lex_order(a, b) == 1,
        lex_order(b, c) == 1,
    ensures
        lex_order(a, c) == 1,
{
    lemma_lex_order_antisym(a, b);
    lemma_lex_order_antisym(b, c);
    lemma_lex_order_antisym(a, c);
    lemma_lex_order_trans(c, b, a);
    lemma_lex_range(a, c);
    if lex_order(c, a) == 0 {
        lemma_lex_order_eq(c, a);
    }
}

/// The texts of strings.
pub open spec fn views(v: Seq<String>) -> Seq<Seq<char>> {
    v.map_values(|d: String| d@)
}

/// Strictly decreasing (newest date first, no repeats).
pub open spec fn strictly_desc(s: Seq<Seq<char>>) -> bool {
    forall|i: int, j: int| 0 <= i < j < s.len() ==> lex_order(#[trigger] s[i], #[trigger] s[j]) == 1
}

/// The dates newest first, each once (dates compare as text).
pub fn newest_first(dates: &[String]) -> (r: Vec<String>)
    ensures
        strictly_desc(views(r@)),
        forall|x: Seq<char>|
            #[trigger] views(r@).contains(x) <==> views(dates@).contains(x),
{
    let ghost input = views(dates@);
    let mut r: Vec<String> = Vec::new();
    let mut i: usize = 0;
    while i < dates.len()
        invariant
            i <= dates@.len(),
            input == views(dates@),
            strictly_desc(views(r@)),
            forall|x: Seq<char>|
                #[trigger] views(r@).contains(x) <==> input.subrange(
                    0,
                    i as int,
                ).contains(x),
        decreases dates.len() - i,
    {
        let ghost rv = views(r@);
        assert(forall|x: Seq<char>| #[trigger] rv.contains(x) <==> input.subrange(
            0,
            i as int,
        ).contains(x));
        let d = chars_of(dates[i].as_str());
        assert(d@ == input[i as int]);
        // first position whose date is not newer than d
        let mut p: usize = 0;
        let mut stop = false;
        let mut eq = false;
        while p < r.len() && !stop
            invariant
                p <= r@.len(),
                rv == views(r@),
                strictly_desc(rv),
                forall|k: int| 0 <= k < p ==> lex_order(#[trigger] rv[k], d@) == 1,
                stop ==> p < r@.len() && lex_order(rv[p as int], d@) <= 0 && (eq <==> lex_order(
                    rv[p as int],
                    d@,
                ) == 0),
                !stop ==> !eq,
            decreases r.len() - p + (if stop { 0int } else { 1int }),
        {
            let rp = chars_of(r[p].as_str());
            assert(rp@ == rv[p as int]);
            let o = tags_order(rp.as_slice(), d.as_slice());
            if o <= 0 {
                stop = true;
                eq = o == 0;
            } else {
                p += 1;
            }
        }
        proof {
            if eq {
                lemma_lex_order_eq(rv[p as int], d@);
            }
        }
        let ghost before = rv;
        if !eq {
            proof {
                // everything from p on is older than d
                assert forall|k: int| p <= k < rv.len() implies lex_order(d@, #[trigger] rv[k]) == 1 by {
                    lemma_lex_range(rv[p as int], d@);
                    lemma_lex_order_antisym(rv[p as int], d@);
                    assert(lex_order(d@, rv[p as int]) == 1);
                    if k > p {
                        assert(lex_order(rv[p as int], rv[k]) == 1);
                        lemma_gt_trans(d@, rv[p as int], rv[k]);
                    }
                }
            }
            let s = dates[i].clone();
            r.insert(p, s);
            proof {
                let nv = views(r@);
                assert(nv =~= before.insert(p as int, d@));
                assert forall|a: int, b: int| 0 <= a < b < nv.len() implies lex_order(
                    #[trigger] nv[a],
                    #[trigger] nv[b],
                ) == 1 by {
                    if b < p {
                    } else if a < p && b == p {
                    } else if a < p && b > p {
                        assert(nv[b] == before[b - 1]);
                        assert(lex_order(before[a], before[b - 1]) == 1);
                    } else if a == p {
                        assert(nv[b] == before[b - 1]);
                    } else {
                        assert(nv[a] == before[a - 1] && nv[b] == before[b - 1]);
                    }
                }
                assert forall|x: Seq<char>| #[trigger] nv.contains(x) <==> input.subrange(
                    0,
                    i + 1,
                ).contains(x) by {
                    assert(input.subrange(0, i + 1) =~= input.subrange(0, i as int).push(d@));
                    let inp = input.subrange(0, i + 1);
                    if nv.contains(x) {
                        let k = choose|k: int| 0 <= k < nv.len() && nv[k] == x;
                        if k != p {
                            if k < p {
                                assert(before[k] == x);
                            } else {
                                assert(before[k - 1] == x);
                            }
                            assert(before.contains(x));
                            assert(input.subrange(0, i as int).contains(x));
                            let k2 = choose|k2: int| 0 <= k2 < i && input.subrange(0, i as int)[k2] == x;
                            assert(inp[k2] == x);
                        } else {
                            assert(inp[i as int] == x);
                        }
                    }
                    if input.subrange(0, i + 1).contains(x) && x != d@ {
                        assert(input.subrange(0, i as int).contains(x));
                        assert(before.contains(x));
                        let k = choose|k: int| 0 <= k < before.len() && before[k] == x;
                        if k < p {
                            assert(nv[k] == x);
                        } else {
                            assert(nv[k + 1] == x);
                        }
                    }
                    if x == d@ {
                        assert(nv[p as int] == x);
                    }
                }
            }
        } else {
            proof {
                assert forall|x: Seq<char>| #[trigger] before.contains(x) <==> input.subrange(
                    0,
                    i + 1,
                ).contains(x) by {
                    assert(input.subrange(0, i + 1) =~= input.subrange(0, i as int).push(d@));
                    if x == d@ {
                        assert(before[p as int] == x);
                    }
                }
            }
        }
        i += 1;
    }
    assert(input.subrange(0, input.len() as int) =~= input);
    r
}

/// Timestamped items in time order.
pub open spec fn by_time<T>(s: Seq<(u64, T)>) -> bool {
    forall|i: int, j: int| 0 <= i < j < s.len() ==> (#[trigger] s[i]).0 <= (#[trigger] s[j]).0
}

/// Whether an item carries time `t`.
pub open spec fn has_time<T>(t: u64) -> spec_fn((u64, T)) -> bool {
    |x: (u64, T)| x.0 == t
}

/// The items with time `t`, in their order.
pub open spec fn at_time<T>(s: Seq<(u64, T)>, t: u64) -> Seq<(u64, T)> {
    s.filter(has_time::<T>(t))
}

/// Inserting `e` after every item not later than it, and before the later
/// ones, appends it to the items of its time and leaves the other times
/// alone.
proof fn lemma_insert_keeps_times<T>(before: Seq<(u64, T)>, p: int, e: (u64, T), t: u64)
    requires
        0 <= p <= before.len(),
        by_time(before),
        forall|k: int| 0 <= k < p ==> (#[trigger] before[k]).0 <= e.0,
        p < before.len() ==> before[p].0 > e.0,
    ensures
        at_time(before.insert(p, e), t) == if t == e.0 {
            at_time(before, t).push(e)
        } else {
            at_time(before, t)
        },
{
    let f = has_time::<T>(t);
    let b0 = before.subrange(0, p);
    let b1 = before.subrange(p, before.len() as int);
    let one = Seq::<(u64, T)>::empty().push(e);
    assert(before.insert(p, e) =~= (b0 + one) + b1);
    assert(before =~= b0 + b1);
    Seq::filter_distributes_over_add(b0 + one, b1, f);
    Seq::filter_distributes_over_add(b0, one, f);
    Seq::filter_distributes_over_add(b0, b1, f);
    Seq::<(u64, T)>::empty().lemma_filter_push(e, f);
    assert(Seq::<(u64, T)>::empty().filter(f) =~= Seq::<(u64, T)>::empty()) by {
        reveal(Seq::filter);
    }
    if t == e.0 {
        assert(b1.all(|x: (u64, T)| !f(x))) by {
            assert forall|k: int| 0 <= k < b1.len() implies !f(#[trigger] b1[k]) by {
                assert(b1[k] == before[p + k]);
                if k > 0 {
                    assert(before[p].0 <= before[p + k].0);
                }
            }
        }
        b1.lemma_all_neg_filter_empty(f);
        assert(b1.filter(f) =~= Seq::<(u64, T)>::empty());
        assert(at_time(before.insert(p, e), t) =~= at_time(before, t).push(e));
    } else {
        assert(at_time(before.insert(p, e), t) =~= at_time(before, t));
    }
}

/// Timestamped items (the entries of a date's three files, read one file
/// after another) merged into time order. The sort is stable: items with
/// the same time keep the order they were read in.
pub fn sort_by_time<T>(entries: Vec<(u64, T)>) -> (r: Vec<(u64, T)>)
    ensures
        by_time(r@),
        forall|t: u64| #[trigger] at_time(r@, t) == at_time(entries@, t),
        r@.to_multiset() == entries@.to_multiset(),
{
    let ghost input = entries@;
    let mut rest = entries;
    let mut r: Vec<(u64, T)> = Vec::new();
    let ghost mut i: int = 0;
    assert(r@ =~= input.subrange(0, 0));
    proof {
        assert forall|t: u64| #[trigger] at_time(r@, t) == at_time(input.subrange(0, 0), t) by {
            assert(r@ =~= input.subrange(0, 0));
        }
    }
    while rest.len() > 0
        invariant
            0 <= i <= input.len(),
            rest@ == input.subrange(i, input.len() as int),
            by_time(r@),
            forall|t: u64| #[trigger] at_time(r@, t) == at_time(input.subrange(0, i), t),
            r@.to_multiset() == input.subrange(0, i).to_multiset(),
        decreases rest.len(),
    {
        let e = rest.remove(0);
        assert(e == input[i]);
        let mut p: usize = 0;
        while p < r.len() && r[p].0 <= e.0
            invariant
                p <= r@.len(),
                forall|k: int| 0 <= k < p ==> (#[trigger] r@[k]).0 <= e.0,
            decreases r.len() - p,
        {
            p += 1;
        }
        let ghost before = r@;
        r.insert(p, e);
        proof {
            assert(r@ == before.insert(p as int, e));
            assert forall|a: int, b: int| 0 <= a < b < r@.len() implies (#[trigger] r@[a]).0 <= (
            #[trigger] r@[b]).0 by {
                if p < before.len() {
                    assert(before[p as int].0 > e.0);
                }
                if a < p && b > p {
                    assert(r@[b] == before[b - 1]);
                } else if a == p && b > p {
                    assert(r@[b] == before[b - 1]);
                    assert(before[p as int].0 <= before[b - 1].0);
                } else if a > p {
                    assert(r@[a] == before[a - 1] && r@[b] == before[b - 1]);
                }
            }
            let ghost next = input.subrange(0, i + 1);
            assert(next =~= input.subrange(0, i).push(e));
            assert forall|t: u64| #[trigger] at_time(r@, t) == at_time(next, t) by {
                lemma_insert_keeps_times(before, p as int, e, t);
                input.subrange(0, i).lemma_filter_push(e, has_time::<T>(t));
            }
            vstd::seq_lib::to_multiset_insert(before, p as int, e);
            vstd::seq_lib::to_multiset_build(input.subrange(0, i), e);
            assert(rest@ =~= input.subrange(i + 1, input.len() as int));
            i = i + 1;
        }
    }
    assert(input.subrange(0, input.len() as int) =~= input);
    r
}

/// Following a log: which entries to print after the last printed time
/// `last_ts`, and the new last time. An entry is printed when it is later
/// than the last one printed so far.
pub open spec fn follow_spec(ts: Seq<u64>, last: u64) -> (Seq<int>, u64)
    decreases ts.len(),
{
    if ts.len() == 0 {
        (Seq::empty(), last)
    } else {
        let (shown, l) = follow_spec(ts.drop_last(), last);
        if ts.last() > l {
            (shown.push(ts.len() - 1), ts.last())
        } else {
            (shown, l)
        }
    }
}

pub fn follow_new(ts: &[u64], last_ts: u64) -> (r: (Vec<usize>, u64))
    ensures
        ({
            let (shown, l) = follow_spec(ts@, last_ts);
            &&& r.0@.map_values(|i: usize| i as int) == shown
            &&& r.1 == l
        }),
{
    let mut shown: Vec<usize> = Vec::new();
    let mut last = last_ts;
    let mut i: usize = 0;
    while i < ts.len()
        invariant
            i <= ts@.len(),
            ({
                let (s, l) = follow_spec(ts@.subrange(0, i as int), last_ts);
                &&& shown@.map_values(|k: usize| k as int) == s
                &&& last == l
            }),
        decreases ts.len() - i,
    {
        assert(ts@.subrange(0, i + 1).drop_last() =~= ts@.subrange(0, i as int));
        if ts[i] > last {
            let ghost before = shown@;
            shown.push(i);
            assert(shown@.map_values(|k: usize| k as int) =~= before.map_values(|k: usize| k as int).push(
                i as int,
            ));
            last = ts[i];
        }
        i += 1;
    }
    assert(ts@.subrange(0, ts@.len() as int) =~= ts@);
    (shown, last)
}

} // verus!
