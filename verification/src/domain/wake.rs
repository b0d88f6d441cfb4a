//! Wake-word session state machine and matching rules.
//!
//! While asleep the assistant only reacts to an utterance that starts with
//! the wake word (compared after dropping punctuation, or by pinyin so that
//! homophones count); once awake it stays awake for five minutes, renewed by
//! every exchange, until the user dismisses it.
use pinyin::ToPinyin;
use vstd::prelude::*;

use crate::log::now_millis;
use crate::text::{
    char_string, chars_of, copy_range, has_infix, has_prefix, lowercase, remove_all,
    remove_chars, skip_leading_set, starts_with, str_contains, string_of, strip_leading_set,
    to_lowercase, trim, trim_bounds,
};

verus! {

/// How long the assistant stays awake after the last exchange, in ms.
pub const WAKE_DURATION_MS: u64 = 300_000;

// ─── Outside: pinyin ────────────────────────────────────────────────────────

/// Toneless pinyin of a character, if the `pinyin` tables know it.
pub uninterp spec fn pinyin_of(c: char) -> Option<Seq<char>>;

/// `ToPinyin::to_pinyin` on one character followed by `Pinyin::plain`: the
/// toneless reading, or `None` for a character without one.
#[verifier::external_body]
fn char_pinyin(c: char) -> (r: Option<&'static str>)
    ensures
        match r {
            Some(p) => pinyin_of(c) == Some(p@),
            None => pinyin_of(c) is None,
        },
{
    c.to_pinyin().map(pinyin::Pinyin::plain)
}

// ─── Specification ──────────────────────────────────────────────────────────

/// Characters ignored when comparing against the wake word.
pub open spec fn wake_punct() -> Seq<char> {
    seq![',', '，', '、', '.', '!', '！', '?', '？', ' ', '\u{3000}']
}

/// Separators dropped between the wake word and the rest.
pub open spec fn rest_separators() -> Seq<char> {
    seq![',', '，', '、', ' ', '\u{3000}']
}

/// Lowercased, with punctuation and spaces removed.
pub open spec fn normalize(s: Seq<char>) -> Seq<char> {
    remove_chars(lowercase(s), wake_punct())
}

/// Concatenated toneless pinyin of the characters that have one.
pub open spec fn pinyin_concat(s: Seq<char>) -> Seq<char>
    decreases s.len(),
{
    if s.len() == 0 {
        Seq::empty()
    } else {
        pinyin_concat(s.drop_last()) + match pinyin_of(s.last()) {
            Some(p) => p,
            None => Seq::empty(),
        }
    }
}

/// Pinyin string of `s`; `None` when no character has a reading.
pub open spec fn pinyin_string(s: Seq<char>) -> Option<Seq<char>> {
    if pinyin_concat(s).len() == 0 {
        None
    } else {
        Some(pinyin_concat(s))
    }
}

/// Number of leading characters of `t` that cover `need` normalized characters.
pub open spec fn consumed(t: Seq<char>, need: int) -> nat
    decreases t.len(),
{
    if need <= 0 || t.len() == 0 {
        0
    } else {
        1 + consumed(t.drop_first(), need - normalize(seq![t[0]]).len())
    }
}

/// Whether `text` starts with the wake word, by characters or by pinyin.
pub open spec fn wake_match(text: Seq<char>, wake: Seq<char>) -> bool {
    let nt = normalize(text);
    let nw = normalize(wake);
    nw.len() > 0 && (has_prefix(nt, nw) || match (pinyin_string(wake), pinyin_string(text)) {
        (Some(pw), Some(pt)) => has_prefix(pt, pw),
        _ => false,
    })
}

/// What `strip_wake_word` returns.
pub open spec fn wake_strip(text: Seq<char>, wake: Seq<char>) -> Option<Seq<char>> {
    if wake_match(text, wake) {
        let k = consumed(text, normalize(wake).len() as int);
        Some(trim(strip_leading_set(text.subrange(k as int, text.len() as int), rest_separators())))
    } else {
        None
    }
}

/// The phrases that dismiss the assistant.
pub open spec fn dismiss_phrases() -> Seq<Seq<char>> {
    seq![
        "退下"@, "可以退下"@, "暂时退下"@, "先退下"@, "好了退下"@,
        "暂停"@, "先暂停"@, "休息"@, "先休息"@, "暂时休息"@,
        "不用了"@, "不需要了"@, "结束对话"@, "停止对话"@,
        "拜拜"@, "再见"@, "先这样"@, "就这样"@,
        "goodbye"@, "stoplistening"@, "goaway"@, "thatsenough"@,
        "dismiss"@, "sleep"@,
    ]
}

/// Characters ignored when looking for a dismissal.
pub open spec fn dismiss_punct() -> Seq<char> {
    seq![' ', '，', ',', '。', '.', '！', '!', '？', '?']
}

/// Whether `text` asks the assistant to go back to sleep.
pub open spec fn dismissal(text: Seq<char>) -> bool {
    let t = remove_chars(lowercase(text), dismiss_punct());
    exists|i: int| 0 <= i < dismiss_phrases().len() && has_infix(t, #[trigger] dismiss_phrases()[i])
}

// ─── Matching ───────────────────────────────────────────────────────────────

/// Lowercased `v` without wake-word punctuation.
fn normalize_str(s: &str) -> (r: Vec<char>)
    ensures
        r@ == normalize(s@),
{
    let low = to_lowercase(s);
    let lv = chars_of(low.as_str());
    let punct = [',', '，', '、', '.', '!', '！', '?', '？', ' ', '\u{3000}'];
    assert(punct@ =~= wake_punct());
    remove_all(lv.as_slice(), &punct)
}

/// Toneless pinyin string of `s`; `None` when no character has a reading.
fn to_pinyin_str(s: &str) -> (r: Option<String>)
    ensures
        match r {
            Some(p) => pinyin_string(s@) == Some(p@),
            None => pinyin_string(s@) is None,
        },
{
    let v = chars_of(s);
    let mut out = String::new();
    let mut i: usize = 0;
    while i < v.len()
        invariant
            i <= v@.len(),
            out@ == pinyin_concat(v@.subrange(0, i as int)),
        decreases v.len() - i,
    {
        assert(v@.subrange(0, i + 1).drop_last() == v@.subrange(0, i as int));
        match char_pinyin(v[i]) {
            Some(p) => {
                out.append(p);
            },
            None => {
                assert(out@ + Seq::<char>::empty() == out@);
            },
        }
        i += 1;
    }
    assert(v@.subrange(0, v@.len() as int) == v@);
    if out.as_str().is_empty() {
        None
    } else {
        Some(out)
    }
}

/// Whether `text` starts with the wake word, and if so the rest of `text`
/// after it (separators and surrounding whitespace removed).
///
/// Two passes: an exact match after dropping punctuation and spaces, then a
/// pinyin match where homophones count as equal ("黑小派" == "嘿小派").
pub fn strip_wake_word(text: &str, wake_word: &str) -> (r: Option<String>)
    ensures
        match r {
            Some(rest) => wake_strip(text@, wake_word@) == Some(rest@),
            None => wake_strip(text@, wake_word@) is None,
        },
{
    let norm_text = normalize_str(text);
    let norm_wake = normalize_str(wake_word);
    if norm_wake.len() == 0 {
        return None;
    }
    let char_match = starts_with(norm_text.as_slice(), norm_wake.as_slice());
    let pinyin_match = if char_match {
        false
    } else {
        match (to_pinyin_str(wake_word), to_pinyin_str(text)) {
            (Some(pw), Some(pt)) => {
                let pwv = chars_of(pw.as_str());
                let ptv = chars_of(pt.as_str());
                starts_with(ptv.as_slice(), pwv.as_slice())
            },
            _ => false,
        }
    };
    if !char_match && !pinyin_match {
        return None;
    }
    let tv = chars_of(text);
    let need = norm_wake.len();
    let mut remaining: usize = need;
    let mut k: usize = 0;
    assert(tv@.subrange(0, tv@.len() as int) == tv@);
    while k < tv.len() && remaining > 0
        invariant
            k <= tv@.len(),
            consumed(tv@, need as int) == k + consumed(
                tv@.subrange(k as int, tv@.len() as int),
                remaining as int,
            ),
        decreases tv.len() - k,
    {
        let one = char_string(tv[k]);
        let n = normalize_str(one.as_str()).len();
        assert(tv@.subrange(k as int, tv@.len() as int).drop_first() == tv@.subrange(
            k + 1,
            tv@.len() as int,
        ));
        assert(tv@.subrange(k as int, tv@.len() as int)[0] == tv@[k as int]);
        let ghost cur = tv@.subrange(k as int, tv@.len() as int);
        let ghost old_rem = remaining as int;
        assert(normalize(seq![cur[0]]).len() == n);
        assert(consumed(cur, old_rem) == 1 + consumed(cur.drop_first(), old_rem - n));
        if n >= remaining {
            remaining = 0;
            assert(consumed(cur.drop_first(), old_rem - n) == 0);
            assert(consumed(cur.drop_first(), 0) == 0);
        } else {
            remaining = remaining - n;
        }
        k += 1;
    }
    assert(consumed(tv@.subrange(k as int, tv@.len() as int), remaining as int) == 0);
    let seps = [',', '，', '、', ' ', '\u{3000}'];
    assert(seps@ =~= rest_separators());
    let s = skip_leading_set(tv.as_slice(), k, &seps);
    let tail = copy_range(tv.as_slice(), s, tv.len());
    let (a, b) = trim_bounds(tail.as_slice());
    Some(string_of(tail.as_slice(), a, b))
}

/// Whether the user is asking the assistant to go back to sleep.
pub fn is_deactivation(text: &str) -> (r: bool)
    ensures
        r == dismissal(text@),
{
    let low = to_lowercase(text);
    let lv = chars_of(low.as_str());
    let punct = [' ', '，', ',', '。', '.', '！', '!', '？', '?'];
    assert(punct@ =~= dismiss_punct());
    let t = remove_all(lv.as_slice(), &punct);
    let ts = string_of(t.as_slice(), 0, t.len());
    assert(t@.subrange(0, t@.len() as int) == t@);
    let phrases: [&str; 24] = [
        "退下", "可以退下", "暂时退下", "先退下", "好了退下",
        "暂停", "先暂停", "休息", "先休息", "暂时休息",
        "不用了", "不需要了", "结束对话", "停止对话",
        "拜拜", "再见", "先这样", "就这样",
        "goodbye", "stoplistening", "goaway", "thatsenough",
        "dismiss", "sleep",
    ];
    assert(phrases@.map_values(|p: &str| p@) =~= dismiss_phrases());
    let mut k: usize = 0;
    while k < 24
        invariant
            k <= 24,
            ts@ == remove_chars(lowercase(text@), dismiss_punct()),
            phrases@.map_values(|p: &str| p@) == dismiss_phrases(),
            forall|i: int| 0 <= i < k ==> !has_infix(ts@, #[trigger] dismiss_phrases()[i]),
        decreases 24 - k,
    {
        assert(phrases@[k as int]@ == dismiss_phrases()[k as int]);
        if str_contains(ts.as_str(), phrases[k]) {
            return true;
        }
        k += 1;
    }
    false
}


// ─── Session state machine ──────────────────────────────────────────────────

/// Wake-word session state. Times are milliseconds on the clock that
/// `now_millis` reads.
#[derive(Debug, Clone, Copy, PartialEq, Eq, Structural)]
pub enum WakeState {
    /// Waiting for the wake word.
    Sleeping,
    /// Awake; falls asleep at `expires_at` unless renewed.
    Awake { expires_at: u64 },
}

/// Expiry of a session woken or renewed at `now` (saturating).
pub open spec fn expiry_from(now: u64) -> u64 {
    if now <= u64::MAX - WAKE_DURATION_MS {
        (now + WAKE_DURATION_MS) as u64
    } else {
        u64::MAX
    }
}

/// Whether the state is awake at time `now`.
pub open spec fn awake_at(s: WakeState, now: u64) -> bool {
    match s {
        WakeState::Awake { expires_at } => now < expires_at,
        WakeState::Sleeping => false,
    }
}

/// The state after an exchange at `now`: an awake session is extended.
pub open spec fn renewed(s: WakeState, now: u64) -> WakeState {
    match s {
        WakeState::Awake { .. } => WakeState::Awake { expires_at: expiry_from(now) },
        WakeState::Sleeping => WakeState::Sleeping,
    }
}

fn expiry(now: u64) -> (r: u64)
    ensures
        r == expiry_from(now),
{
    if now <= u64::MAX - WAKE_DURATION_MS {
        now + WAKE_DURATION_MS
    } else {
        u64::MAX
    }
}

impl WakeState {
    /// Whether the session is awake at time `now`.
    pub fn is_awake_at(&self, now: u64) -> (r: bool)
        ensures
            r == awake_at(*self, now),
    {
        match self {
            WakeState::Awake { expires_at } => now < *expires_at,
            WakeState::Sleeping => false,
        }
    }

    /// Whether the session is awake now (reads the clock).
    pub fn is_awake(&self) -> (r: bool)
        ensures
            exists|now: u64| r == awake_at(*self, now),
            *self is Sleeping ==> !r,
    {
        let now = now_millis();
        self.is_awake_at(now)
    }

    /// Wakes the session at time `now`.
    pub fn wake_at(&mut self, now: u64)
        ensures
            *final(self) == (WakeState::Awake { expires_at: expiry_from(now) }),
    {
        *self = WakeState::Awake { expires_at: expiry(now) };
    }

    /// Wakes the session now (reads the clock).
    pub fn wake(&mut self)
        ensures
            exists|now: u64| *final(self) == (WakeState::Awake { expires_at: expiry_from(now) }),
    {
        let now = now_millis();
        self.wake_at(now);
    }

    /// Extends an awake session from time `now`; a sleeping one stays asleep.
    pub fn renew_at(&mut self, now: u64)
        ensures
            *final(self) == renewed(*old(self), now),
    {
        if let WakeState::Awake { .. } = self {
            *self = WakeState::Awake { expires_at: expiry(now) };
        }
    }

    /// Extends an awake session from now (reads the clock).
    pub fn renew(&mut self)
        ensures
            exists|now: u64| *final(self) == renewed(*old(self), now),
    {
        let now = now_millis();
        self.renew_at(now);
    }

    /// Puts the session to sleep.
    pub fn sleep(&mut self)
        ensures
            *final(self) == WakeState::Sleeping,
    {
        *self = WakeState::Sleeping;
    }
}

/// What the wake-word rules make of one recognized utterance.
#[derive(Debug, PartialEq, Eq)]
pub enum WakeDecision {
    /// Wake word off, or already awake: the text goes into the conversation.
    Proceed(String),
    /// The utterance started with the wake word; the rest (maybe empty).
    JustWoke(String),
    /// Awake, and the user said a dismissal phrase.
    Deactivate,
    /// Asleep, and no wake word was heard.
    Ignore,
}

/// Mathematical form of a `WakeDecision`.
pub enum DecisionView {
    Proceed(Seq<char>),
    JustWoke(Seq<char>),
    Deactivate,
    Ignore,
}

impl View for WakeDecision {
    type V = DecisionView;

    open spec fn view(&self) -> DecisionView {
        match self {
            WakeDecision::Proceed(t) => DecisionView::Proceed(t@),
            WakeDecision::JustWoke(t) => DecisionView::JustWoke(t@),
            WakeDecision::Deactivate => DecisionView::Deactivate,
            WakeDecision::Ignore => DecisionView::Ignore,
        }
    }
}

/// The decision and next state for `text` heard at time `now` in state `s`.
pub open spec fn decide_spec(
    s: WakeState,
    now: u64,
    enabled: bool,
    wake: Seq<char>,
    text: Seq<char>,
) -> (DecisionView, WakeState) {
    if !enabled {
        (DecisionView::Proceed(text), s)
    } else if awake_at(s, now) {
        if dismissal(text) {
            (DecisionView::Deactivate, WakeState::Sleeping)
        } else {
            (DecisionView::Proceed(text), renewed(s, now))
        }
    } else {
        match wake_strip(text, wake) {
            Some(rest) => (
                DecisionView::JustWoke(rest),
                WakeState::Awake { expires_at: expiry_from(now) },
            ),
            None => (DecisionView::Ignore, s),
        }
    }
}

/// Applies the wake-word rules to `text` heard at time `now`, advancing the
/// state machine.
pub fn decide_at(
    state: &mut WakeState,
    now: u64,
    enabled: bool,
    wake_word: &str,
    text: &str,
) -> (r: WakeDecision)
    ensures
        (r@, *final(state)) == decide_spec(*old(state), now, enabled, wake_word@, text@),
{
    if !enabled {
        return WakeDecision::Proceed(String::from_str(text));
    }
    if state.is_awake_at(now) {
        if is_deactivation(text) {
            state.sleep();
            return WakeDecision::Deactivate;
        }
        state.renew_at(now);
        return WakeDecision::Proceed(String::from_str(text));
    }
    match strip_wake_word(text, wake_word) {
        Some(rest) => {
            state.wake_at(now);
            WakeDecision::JustWoke(rest)
        },
        None => WakeDecision::Ignore,
    }
}

/// Applies the wake-word rules to `text` heard now (reads the clock).
pub fn decide(state: &mut WakeState, enabled: bool, wake_word: &str, text: &str) -> (r: WakeDecision)
    ensures
        exists|now: u64|
            (r@, *final(state)) == decide_spec(*old(state), now, enabled, wake_word@, text@),
{
    let now = now_millis();
    decide_at(state, now, enabled, wake_word, text)
}

// ─── Laws ───────────────────────────────────────────────────────────────────

/// With the wake word switched off every utterance goes through unchanged
/// and the state is left alone.
pub proof fn law_disabled_passes_through(s: WakeState, now: u64, wake: Seq<char>, text: Seq<char>)
    ensures
        decide_spec(s, now, false, wake, text) == (DecisionView::Proceed(text), s),
{
}

/// A session woken at `now` is awake at every later time within the wake
/// period (the last representable instant aside, where the expiry saturates).
pub proof fn law_woken_session_lasts(now: u64, later: u64)
    ensures
        now <= later && later < now + WAKE_DURATION_MS && later < u64::MAX ==> awake_at(
            WakeState::Awake { expires_at: expiry_from(now) },
            later,
        ),
        expiry_from(now) >= now,
        now + WAKE_DURATION_MS <= u64::MAX ==> expiry_from(now) == now + WAKE_DURATION_MS,
{
}

/// Renewing never wakes a sleeping session; an awake one is awake again for
/// the whole wake period from the renewal.
pub proof fn law_renew_extends_only_awake(s: WakeState, now: u64, later: u64)
    ensures
        s is Sleeping ==> renewed(s, now) == WakeState::Sleeping,
        s is Awake ==> renewed(s, now) == (WakeState::Awake { expires_at: expiry_from(now) }),
        s is Awake && now <= later && later < now + WAKE_DURATION_MS && later < u64::MAX ==> awake_at(
            renewed(s, now),
            later,
        ),
{
}

/// A text dismisses the assistant exactly when, lowercased and with spaces
/// and `，,。.！!？?` removed, it contains one of these phrases: 退下, 可以退下,
/// 暂时退下, 先退下, 好了退下, 暂停, 先暂停, 休息, 先休息, 暂时休息, 不用了,
/// 不需要了, 结束对话, 停止对话, 拜拜, 再见, 先这样, 就这样, goodbye,
/// stoplistening, goaway, thatsenough, dismiss, sleep.
pub proof fn law_dismissal_phrases(text: Seq<char>)
    ensures
        ({
            let t = remove_chars(lowercase(text), seq![' ', '，', ',', '。', '.', '！', '!', '？', '?']);
            dismissal(text) <==> exists|p: Seq<char>|
                #![trigger has_infix(t, p)]
                seq![
                    "退下"@, "可以退下"@, "暂时退下"@, "先退下"@, "好了退下"@,
                    "暂停"@, "先暂停"@, "休息"@, "先休息"@, "暂时休息"@,
                    "不用了"@, "不需要了"@, "结束对话"@, "停止对话"@,
                    "拜拜"@, "再见"@, "先这样"@, "就这样"@,
                    "goodbye"@, "stoplistening"@, "goaway"@, "thatsenough"@,
                    "dismiss"@, "sleep"@,
                ].contains(p) && has_infix(t, p)
        }),
{
    let listed: Seq<Seq<char>> = seq![
        "退下"@, "可以退下"@, "暂时退下"@, "先退下"@, "好了退下"@,
        "暂停"@, "先暂停"@, "休息"@, "先休息"@, "暂时休息"@,
        "不用了"@, "不需要了"@, "结束对话"@, "停止对话"@,
        "拜拜"@, "再见"@, "先这样"@, "就这样"@,
        "goodbye"@, "stoplistening"@, "goaway"@, "thatsenough"@,
        "dismiss"@, "sleep"@,
    ];
    let t = remove_chars(lowercase(text), seq![' ', '，', ',', '。', '.', '！', '!', '？', '?']);
    assert(listed =~= dismiss_phrases());
    assert(seq![' ', '，', ',', '。', '.', '！', '!', '？', '?'] =~= dismiss_punct());
    if dismissal(text) {
        let i = choose|i: int| 0 <= i < dismiss_phrases().len() && has_infix(t, #[trigger] dismiss_phrases()[i]);
        assert(listed.contains(listed[i]));
        assert(has_infix(t, listed[i]));
    }
    if exists|p: Seq<char>| #![trigger has_infix(t, p)] listed.contains(p) && has_infix(t, p) {
        let p = choose|p: Seq<char>| #![trigger has_infix(t, p)] listed.contains(p) && has_infix(t, p);
        let i = choose|i: int| 0 <= i < listed.len() && listed[i] == p;
        assert(has_infix(t, dismiss_phrases()[i]));
    }
}

/// Once woken, the assistant stays awake for the whole wake period.
pub proof fn law_wake_lasts(
    s: WakeState,
    now: u64,
    wake: Seq<char>,
    text: Seq<char>,
    later: u64,
)
    requires
        decide_spec(s, now, true, wake, text).0 is JustWoke,
        now <= later,
        later < now + WAKE_DURATION_MS,
        later < u64::MAX,
    ensures
        awake_at(decide_spec(s, now, true, wake, text).1, later),
{
}

/// While awake, an exchange that is not a dismissal goes through and
/// restarts the wake period from its own time.
pub proof fn law_exchange_renews(
    s: WakeState,
    now: u64,
    wake: Seq<char>,
    text: Seq<char>,
    later: u64,
)
    requires
        awake_at(s, now),
        !dismissal(text),
        now <= later,
        later < now + WAKE_DURATION_MS,
        later < u64::MAX,
    ensures
        decide_spec(s, now, true, wake, text).0 == DecisionView::Proceed(text),
        awake_at(decide_spec(s, now, true, wake, text).1, later),
{
}

/// A dismissal while awake puts the assistant to sleep at once.
pub proof fn law_dismissal_sleeps(s: WakeState, now: u64, wake: Seq<char>, text: Seq<char>, later: u64)
    requires
        awake_at(s, now),
        dismissal(text),
    ensures
        decide_spec(s, now, true, wake, text) == (DecisionView::Deactivate, WakeState::Sleeping),
        !awake_at(decide_spec(s, now, true, wake, text).1, later),
{
}

/// Asleep, an utterance without the wake word is ignored and changes nothing.
pub proof fn law_asleep_ignores(s: WakeState, now: u64, wake: Seq<char>, text: Seq<char>)
    requires
        !awake_at(s, now),
        wake_strip(text, wake) is None,
    ensures
        decide_spec(s, now, true, wake, text) == (DecisionView::Ignore, s),
{
}

} // verus!
