//! `cb config`: masking secrets for display, single-setting edits, and
//! the profile bookkeeping of the setup wizard.
use vstd::prelude::*;

use crate::config::store::{
    active_index, first_named_from, is_real_value, real_value, AppConfig, ConfigView, LlmProfile,
    ProfileView,
};
use crate::config::providers::{doubao_voices, voice_fields, voice_table, VoicePreset};
use crate::ui::theme::{BOLD, BR_CYAN, BR_GREEN, BR_RED, MUTED, RESET};
use crate::text::{
    char_width, char_width_of, chars_of, lemma_utf8_prefix_strict, lemma_utf8_split, owned,
    repeat_char, str_eq, string_of, trim, trim_bounds, utf8_len, utf8_len_capped,
};

verus! {

// ─── Masking ────────────────────────────────────────────────────────────────

/// Some prefix of `s` takes exactly `b` bytes (a character boundary).
pub open spec fn prefix_boundary(s: Seq<char>, b: nat) -> bool {
    exists|k: int| 0 <= k <= s.len() && #[trigger] utf8_len(s.subrange(0, k)) == b
}

/// Some suffix of `s` takes exactly `b` bytes.
pub open spec fn suffix_boundary(s: Seq<char>, b: nat) -> bool {
    exists|j: int| 0 <= j <= s.len() && #[trigger] utf8_len(s.subrange(j, s.len() as int)) == b
}

/// The first `b` bytes of `s`, as characters.
pub open spec fn byte_prefix(s: Seq<char>, b: nat) -> Seq<char> {
    s.subrange(0, choose|k: int| 0 <= k <= s.len() && #[trigger] utf8_len(s.subrange(0, k)) == b)
}

/// The last `b` bytes of `s`, as characters.
pub open spec fn byte_suffix(s: Seq<char>, b: nat) -> Seq<char> {
    s.subrange(
        choose|j: int| 0 <= j <= s.len() && #[trigger] utf8_len(s.subrange(j, s.len() as int)) == b,
        s.len() as int,
    )
}

/// Keys `mask_key` can show: byte slicing at 4 and 4-from-the-end must
/// fall on character boundaries when the key is longer than 8 bytes.
pub open spec fn maskable(key: Seq<char>) -> bool {
    key.len() == 0 || key == "ollama"@ || utf8_len(key) <= 8 || (prefix_boundary(key, 4)
        && suffix_boundary(key, 4))
}

/// A secret as shown: empty and "ollama" as they are; up to 8 bytes as
/// one '*' per byte; longer ones as the first and last 4 bytes around
/// "...".
pub open spec fn masked(key: Seq<char>) -> Seq<char> {
    if key.len() == 0 || key == "ollama"@ {
        key
    } else if utf8_len(key) <= 8 {
        repeat_char('*', utf8_len(key))
    } else {
        byte_prefix(key, 4) + "..."@ + byte_suffix(key, 4)
    }
}

/// Where the first `b` bytes end, if on a character boundary.
fn prefix_cut(v: &[char], b: u64) -> (r: Option<usize>)
    requires
        b < 100,
    ensures
        match r {
            Some(k) => k <= v@.len() && utf8_len(v@.subrange(0, k as int)) == b,
            None => !prefix_boundary(v@, b as nat),
        },
{
    let mut acc: u64 = 0;
    let mut i: usize = 0;
    while i < v.len() && acc < b
        invariant
            i <= v@.len(),
            acc == utf8_len(v@.subrange(0, i as int)),
            acc <= b + 4,
            b < 100,
            forall|k: int| 0 <= k < i ==> #[trigger] utf8_len(v@.subrange(0, k)) < b,
        decreases v.len() - i,
    {
        assert(v@.subrange(0, i + 1).drop_last() =~= v@.subrange(0, i as int));
        acc = acc + char_width_of(v[i]);
        i += 1;
    }
    if acc == b {
        return Some(i);
    }
    proof {
        assert forall|k: int| 0 <= k <= v@.len() implies #[trigger] utf8_len(v@.subrange(0, k))
            != b by {
            if k > i {
                lemma_utf8_prefix_strict(v@, i as int, k);
            } else if k < i {
                lemma_utf8_prefix_strict(v@, k, i as int);
            }
        }
    }
    None
}

/// Where the last `b` bytes start, if on a character boundary.
fn suffix_cut(v: &[char], b: u64) -> (r: Option<usize>)
    requires
        b < 100,
    ensures
        match r {
            Some(j) => j <= v@.len() && utf8_len(v@.subrange(j as int, v@.len() as int)) == b,
            None => !suffix_boundary(v@, b as nat),
        },
{
    let n = v.len();
    let mut acc: u64 = 0;
    let mut j: usize = n;
    assert(v@.subrange(n as int, n as int) =~= Seq::<char>::empty());
    while j > 0 && acc < b
        invariant
            j <= n,
            n == v@.len(),
            acc == utf8_len(v@.subrange(j as int, n as int)),
            acc <= b + 4,
            b < 100,
            forall|k: int| j < k <= n ==> #[trigger] utf8_len(v@.subrange(k, n as int)) < b,
        decreases j,
    {
        proof {
            lemma_utf8_split(v@.subrange(j - 1, n as int), 1);
            assert(v@.subrange(j - 1, n as int).subrange(0, 1) =~= seq![v@[j - 1]]);
            assert(v@.subrange(j - 1, n as int).subrange(1, n - j + 1) =~= v@.subrange(
                j as int,
                n as int,
            ));
            assert(seq![v@[j - 1]].drop_last() =~= Seq::<char>::empty());
            assert(utf8_len(Seq::<char>::empty()) == 0);
            assert(seq![v@[j - 1]].last() == v@[j - 1]);
            assert(utf8_len(seq![v@[j - 1]]) == char_width(v@[j - 1]));
        }
        acc = acc + char_width_of(v[j - 1]);
        j -= 1;
    }
    if acc == b {
        return Some(j);
    }
    proof {
        assert forall|k: int| 0 <= k <= n implies #[trigger] utf8_len(v@.subrange(k, n as int)) != b by {
            if k < j {
                lemma_utf8_split(v@.subrange(k, n as int), j - k);
                assert(v@.subrange(k, n as int).subrange(j - k, n - k) =~= v@.subrange(j as int, n as int));
                assert(v@.subrange(k, n as int).subrange(0, j - k).len() > 0);
                lemma_utf8_prefix_strict(v@.subrange(k, n as int), 0, j - k);
                assert(v@.subrange(k, n as int).subrange(0, 0) =~= Seq::<char>::empty());
            }
        }
    }
    None
}

/// Whether `mask_key` can show `key` (see `maskable`).
pub fn is_maskable(key: &str) -> (r: bool)
    ensures
        r == maskable(key@),
{
    if key.is_empty() || str_eq(key, "ollama") {
        return true;
    }
    let v = chars_of(key);
    if utf8_len_capped(v.as_slice(), 8) <= 8 {
        return true;
    }
    prefix_cut(v.as_slice(), 4).is_some() && suffix_cut(v.as_slice(), 4).is_some()
}

/// A secret as the configuration screens show it (see `masked`).
pub fn mask_key(key: &str) -> (r: String)
    requires
        maskable(key@),
    ensures
        r@ == masked(key@),
{
    if key.is_empty() || str_eq(key, "ollama") {
        return owned(key);
    }
    let v = chars_of(key);
    let n = utf8_len_capped(v.as_slice(), 8);
    if n <= 8 {
        let mut s = String::new();
        let mut i: u64 = 0;
        while i < n
            invariant
                i <= n,
                s@ == repeat_char('*', i as nat),
            decreases n - i,
        {
            s.push('*');
            i += 1;
        }
        return s;
    }
    let k = match prefix_cut(v.as_slice(), 4) {
        Some(k) => k,
        None => {
            assert(false);
            0
        },
    };
    let j = match suffix_cut(v.as_slice(), 4) {
        Some(j) => j,
        None => {
            assert(false);
            0
        },
    };
    proof {
        let kc = choose|k2: int| 0 <= k2 <= v@.len() && #[trigger] utf8_len(v@.subrange(0, k2)) == 4;
        if kc < k {
            lemma_utf8_prefix_strict(v@, kc, k as int);
        } else if kc > k {
            lemma_utf8_prefix_strict(v@, k as int, kc);
        }
        let jc = choose|j2: int| 0 <= j2 <= v@.len() && #[trigger] utf8_len(v@.subrange(j2, v@.len() as int)) == 4;
        let len = v@.len() as int;
        if jc != j {
            let (a, b) = if jc < j { (jc, j as int) } else { (j as int, jc) };
            lemma_utf8_split(v@.subrange(a, len), b - a);
            assert(v@.subrange(a, len).subrange(b - a, len - a) =~= v@.subrange(b, len));
            lemma_utf8_prefix_strict(v@.subrange(a, len), 0, b - a);
            assert(v@.subrange(a, len).subrange(0, 0) =~= Seq::<char>::empty());
        }
    }
    let mut s = string_of(v.as_slice(), 0, k);
    s.append("...");
    let tail = string_of(v.as_slice(), j, v.len());
    s.append(tail.as_str());
    s
}

// ─── Single settings ────────────────────────────────────────────────────────

/// One setting `cb config set` can change. The numeric ones carry the text
/// typed; the program parses and range-checks those decimals.
pub enum Setting {
    Name(String),
    Language(String),
    WakeEnabled(bool),
    WakeWord(String),
    AppId(String),
    AccessToken(String),
    VoiceType(String),
    TtsSpeed(String),
    SilenceSeconds(String),
    MinSpeechSeconds(String),
}

/// Why a setting was refused.
pub enum SetError {
    /// The language is neither "en" nor "zh".
    BadLanguage,
    /// No such key.
    Unknown(String),
}

/// The texts that switch the wake word on.
pub open spec fn truthy(v: Seq<char>) -> bool {
    v == "true"@ || v == "1"@ || v == "yes"@ || v == "on"@
}

/// Mathematical form of a `set` request's outcome.
pub enum SetView {
    Name(Seq<char>),
    Language(Seq<char>),
    WakeEnabled(bool),
    WakeWord(Seq<char>),
    AppId(Seq<char>),
    AccessToken(Seq<char>),
    VoiceType(Seq<char>),
    TtsSpeed(Seq<char>),
    SilenceSeconds(Seq<char>),
    MinSpeechSeconds(Seq<char>),
    BadLanguage,
    Unknown(Seq<char>),
}

pub open spec fn set_view(r: Result<Setting, SetError>) -> SetView {
    match r {
        Ok(Setting::Name(v)) => SetView::Name(v@),
        Ok(Setting::Language(v)) => SetView::Language(v@),
        Ok(Setting::WakeEnabled(b)) => SetView::WakeEnabled(b),
        Ok(Setting::WakeWord(v)) => SetView::WakeWord(v@),
        Ok(Setting::AppId(v)) => SetView::AppId(v@),
        Ok(Setting::AccessToken(v)) => SetView::AccessToken(v@),
        Ok(Setting::VoiceType(v)) => SetView::VoiceType(v@),
        Ok(Setting::TtsSpeed(v)) => SetView::TtsSpeed(v@),
        Ok(Setting::SilenceSeconds(v)) => SetView::SilenceSeconds(v@),
        Ok(Setting::MinSpeechSeconds(v)) => SetView::MinSpeechSeconds(v@),
        Err(SetError::BadLanguage) => SetView::BadLanguage,
        Err(SetError::Unknown(k)) => SetView::Unknown(k@),
    }
}

/// The keys `cb config set` knows (with the old short names), and what
/// each value means.
pub open spec fn setting_spec(key: Seq<char>, value: Seq<char>) -> SetView {
    if key == "persona.name"@ {
        SetView::Name(value)
    } else if key == "persona.language"@ || key == "locale"@ {
        if value != "en"@ && value != "zh"@ {
            SetView::BadLanguage
        } else {
            SetView::Language(value)
        }
    } else if key == "persona.wake_word.enabled"@ || key == "wake_word.enabled"@ {
        SetView::WakeEnabled(truthy(value))
    } else if key == "persona.wake_word.word"@ || key == "wake_word.word"@ {
        SetView::WakeWord(value)
    } else if key == "speech.doubao.app_id"@ {
        SetView::AppId(value)
    } else if key == "speech.doubao.access_token"@ {
        SetView::AccessToken(value)
    } else if key == "speech.doubao.voice_type"@ {
        SetView::VoiceType(value)
    } else if key == "speech.doubao.tts_speed"@ {
        SetView::TtsSpeed(value)
    } else if key == "audio.silence_seconds"@ {
        SetView::SilenceSeconds(value)
    } else if key == "audio.min_speech_seconds"@ {
        SetView::MinSpeechSeconds(value)
    } else {
        SetView::Unknown(key)
    }
}

/// Reads `cb config set <key> <value>`.
pub fn parse_setting(key: &str, value: &str) -> (r: Result<Setting, SetError>)
    ensures
        set_view(r) == setting_spec(key@, value@),
{
    let v = owned(value);
    if str_eq(key, "persona.name") {
        Ok(Setting::Name(v))
    } else if str_eq(key, "persona.language") || str_eq(key, "locale") {
        if !str_eq(value, "en") && !str_eq(value, "zh") {
            Err(SetError::BadLanguage)
        } else {
            Ok(Setting::Language(v))
        }
    } else if str_eq(key, "persona.wake_word.enabled") || str_eq(key, "wake_word.enabled") {
        Ok(
            Setting::WakeEnabled(
                str_eq(value, "true") || str_eq(value, "1") || str_eq(value, "yes") || str_eq(
                    value,
                    "on",
                ),
            ),
        )
    } else if str_eq(key, "persona.wake_word.word") || str_eq(key, "wake_word.word") {
        Ok(Setting::WakeWord(v))
    } else if str_eq(key, "speech.doubao.app_id") {
        Ok(Setting::AppId(v))
    } else if str_eq(key, "speech.doubao.access_token") {
        Ok(Setting::AccessToken(v))
    } else if str_eq(key, "speech.doubao.voice_type") {
        Ok(Setting::VoiceType(v))
    } else if str_eq(key, "speech.doubao.tts_speed") {
        Ok(Setting::TtsSpeed(v))
    } else if str_eq(key, "audio.silence_seconds") {
        Ok(Setting::SilenceSeconds(v))
    } else if str_eq(key, "audio.min_speech_seconds") {
        Ok(Setting::MinSpeechSeconds(v))
    } else {
        Err(SetError::Unknown(owned(key)))
    }
}

/// The configuration after a (non-numeric) setting.
pub open spec fn applied(c: ConfigView, s: SetView) -> ConfigView {
    match s {
        SetView::Name(v) => ConfigView { name: v, ..c },
        SetView::Language(v) => ConfigView { language: v, ..c },
        SetView::WakeEnabled(b) => ConfigView { wake_enabled: b, ..c },
        SetView::WakeWord(v) => ConfigView { wake_word: v, ..c },
        SetView::AppId(v) => ConfigView { doubao: crate::config::store::DoubaoView { app_id: v, ..c.doubao }, ..c },
        SetView::AccessToken(v) => ConfigView {
            doubao: crate::config::store::DoubaoView { access_token: v, ..c.doubao },
            ..c
        },
        SetView::VoiceType(v) => ConfigView {
            doubao: crate::config::store::DoubaoView { voice_type: v, ..c.doubao },
            ..c
        },
        _ => c,
    }
}

/// Applies a setting to the configuration (the decimal ones are applied
/// by the program, which holds those fields).
pub fn apply_setting(cfg: &mut AppConfig, setting: Setting)
    ensures
        final(cfg)@ == applied(old(cfg)@, set_view(Ok(setting))),
{
    match setting {
        Setting::Name(v) => cfg.persona.name = v,
        Setting::Language(v) => cfg.persona.language = v,
        Setting::WakeEnabled(b) => cfg.persona.wake_word.enabled = b,
        Setting::WakeWord(v) => cfg.persona.wake_word.word = v,
        Setting::AppId(v) => cfg.speech.doubao.app_id = v,
        Setting::AccessToken(v) => cfg.speech.doubao.access_token = v,
        Setting::VoiceType(v) => cfg.speech.doubao.voice_type = v,
        _ => {},
    }
}

impl SetError {
    pub fn to_string(&self) -> (r: String)
        ensures
            r@ == match self {
                SetError::BadLanguage => "language 必须是 'en' 或 'zh'"@,
                SetError::Unknown(k) => "未知 key: "@ + k@
                    + "\n可用: persona.name, persona.language, persona.wake_word.enabled, persona.wake_word.word,\nspeech.doubao.app_id, speech.doubao.access_token, speech.doubao.voice_type,\nspeech.doubao.tts_speed, audio.silence_seconds, audio.min_speech_seconds"@,
            },
    {
        match self {
            SetError::BadLanguage => owned("language 必须是 'en' 或 'zh'"),
            SetError::Unknown(k) => {
                let mut s = owned("未知 key: ");
                s.append(k.as_str());
                s.append(
                    "\n可用: persona.name, persona.language, persona.wake_word.enabled, persona.wake_word.word,\nspeech.doubao.app_id, speech.doubao.access_token, speech.doubao.voice_type,\nspeech.doubao.tts_speed, audio.silence_seconds, audio.min_speech_seconds",
                );
                s
            },
        }
    }
}

/// The confirmation printed after a setting was saved.
pub fn confirm_line(key: &str, value: &str) -> (r: String)
    ensures
        r@ == "   "@ + BR_GREEN@ + "✓"@ + RESET@ + "  "@ + key@ + " = "@ + BOLD@ + value@ + RESET@,
{
    let mut s = owned("   ");
    s.append(BR_GREEN);
    s.append("✓");
    s.append(RESET);
    s.append("  ");
    s.append(key);
    s.append(" = ");
    s.append(BOLD);
    s.append(value);
    s.append(RESET);
    s
}

// ─── Profiles ───────────────────────────────────────────────────────────────

/// Index of the first profile named `name`.
pub(crate) fn position_of(ps: &Vec<LlmProfile>, name: &str) -> (r: Option<usize>)
    ensures
        match r {
            Some(i) => first_named_from(ps@.map_values(|p: LlmProfile| p@), name@, 0) == Some(
                i as int,
            ) && i < ps@.len(),
            None => first_named_from(ps@.map_values(|p: LlmProfile| p@), name@, 0) is None,
        },
{
    let ghost v = ps@.map_values(|p: LlmProfile| p@);
    let mut i: usize = 0;
    while i < ps.len()
        invariant
            i <= ps@.len(),
            v == ps@.map_values(|p: LlmProfile| p@),
            first_named_from(v, name@, 0) == first_named_from(v, name@, i as int),
        decreases ps.len() - i,
    {
        assert(v[i as int].name == ps@[i as int].name@);
        if str_eq(ps[i].name.as_str(), name) {
            return Some(i);
        }
        i += 1;
    }
    None
}

/// Whether the quick setup must ask for an LLM: no active profile, or its
/// key is missing or a placeholder.
pub fn needs_llm_setup(cfg: &AppConfig) -> (r: bool)
    ensures
        r == match active_index(cfg@) {
            Some(i) => !real_value(cfg@.profiles[i].api_key),
            None => true,
        },
{
    match cfg.active_llm_profile() {
        Some(p) => !is_real_value(p.api_key.as_str()),
        None => true,
    }
}

/// The profiles with `p` put in: it replaces the first profile of the same
/// name, or is appended.
pub open spec fn upserted(ps: Seq<ProfileView>, p: ProfileView) -> Seq<ProfileView> {
    match first_named_from(ps, p.name, 0) {
        Some(k) => ps.update(k, p),
        None => ps.push(p),
    }
}

/// Saves the profile set up by the quick setup and makes it the active one.
pub fn upsert_profile(cfg: &mut AppConfig, profile: LlmProfile)
    ensures
        final(cfg)@ == (ConfigView {
            profiles: upserted(old(cfg)@.profiles, profile@),
            active_llm: profile@.name,
            ..old(cfg)@
        }),
{
    let name = profile.name.clone();
    let ghost pv = profile@;
    match position_of(&cfg.llm_profiles, profile.name.as_str()) {
        Some(i) => {
            cfg.llm_profiles.set(i, profile);
            assert(cfg@.profiles =~= upserted(old(cfg)@.profiles, pv));
        },
        None => {
            cfg.llm_profiles.push(profile);
            assert(cfg@.profiles =~= upserted(old(cfg)@.profiles, pv));
        },
    }
    cfg.active_llm = name;
}

/// Adds a profile from the wizard and makes it the active one.
pub fn add_profile(cfg: &mut AppConfig, profile: LlmProfile)
    ensures
        final(cfg)@ == (ConfigView {
            profiles: old(cfg)@.profiles.push(profile@),
            active_llm: profile@.name,
            ..old(cfg)@
        }),
{
    let name = profile.name.clone();
    let ghost pv = profile@;
    cfg.llm_profiles.push(profile);
    assert(cfg@.profiles =~= old(cfg)@.profiles.push(pv));
    cfg.active_llm = name;
}

/// Makes profile `i` the active one.
pub fn activate_profile(cfg: &mut AppConfig, i: usize)
    requires
        i < old(cfg).llm_profiles@.len(),
    ensures
        final(cfg)@ == (ConfigView { active_llm: old(cfg)@.profiles[i as int].name, ..old(cfg)@ }),
{
    cfg.active_llm = cfg.llm_profiles[i].name.clone();
}

/// Deletes profile `i`, unless it is the last one left (one must stay).
/// When the active profile goes, the first remaining one becomes active.
pub fn delete_profile(cfg: &mut AppConfig, i: usize) -> (deleted: bool)
    requires
        i < old(cfg).llm_profiles@.len(),
    ensures
        deleted == (old(cfg)@.profiles.len() != 1),
        !deleted ==> final(cfg)@ == old(cfg)@,
        deleted ==> final(cfg)@ == (ConfigView {
            profiles: old(cfg)@.profiles.remove(i as int),
            active_llm: if old(cfg)@.active_llm == old(cfg)@.profiles[i as int].name {
                old(cfg)@.profiles.remove(i as int)[0].name
            } else {
                old(cfg)@.active_llm
            },
            ..old(cfg)@
        }),
{
    if cfg.llm_profiles.len() == 1 {
        return false;
    }
    let removed = cfg.llm_profiles.remove(i);
    assert(cfg@.profiles =~= old(cfg)@.profiles.remove(i as int));
    if str_eq(cfg.active_llm.as_str(), removed.name.as_str()) {
        cfg.active_llm = cfg.llm_profiles[0].name.clone();
    }
    true
}

/// The row the profile list starts on: the active profile's, else the first.
pub fn initial_selection(cfg: &AppConfig) -> (r: usize)
    ensures
        r == match first_named_from(cfg@.profiles, cfg@.active_llm, 0) {
            Some(k) => k,
            None => 0,
        },
{
    match position_of(&cfg.llm_profiles, cfg.active_llm.as_str()) {
        Some(i) => i,
        None => 0,
    }
}

/// Whether profile `i` is shown as active: it is named by `active_llm`, or
/// it is the only one.
pub fn shown_active(cfg: &AppConfig, i: usize) -> (r: bool)
    requires
        i < cfg.llm_profiles@.len(),
    ensures
        r == (cfg@.profiles[i as int].name == cfg@.active_llm || cfg@.profiles.len() == 1),
{
    str_eq(cfg.llm_profiles[i].name.as_str(), cfg.active_llm.as_str()) || cfg.llm_profiles.len() == 1
}

/// The key a preset profile gets when a key existed: a key typed at the
/// optional prompt replaces it; pressing Enter keeps the existing key.
pub fn key_after_prompt(existing_key: &str, typed: Option<String>) -> (r: String)
    ensures
        r@ == match typed {
            Some(v) => v@,
            None => existing_key@,
        },
{
    match typed {
        Some(v) => v,
        None => owned(existing_key),
    }
}

/// What a line typed at an optional prompt means: `None` (keep the
/// current value) when it is blank, else the trimmed text.
pub fn optional_input(line: &str) -> (r: Option<String>)
    ensures
        r matches Some(v) ==> v@ == trim(line@),
        r is None <==> trim(line@).len() == 0,
{
    let v = chars_of(line);
    let (a, b) = trim_bounds(v.as_slice());
    if a == b {
        None
    } else {
        Some(string_of(v.as_slice(), a, b))
    }
}

/// A secret after the edit prompt: replaced when something other than its
/// masked form was typed.
pub fn edited_secret(current: &str, typed: Option<String>) -> (r: String)
    requires
        maskable(current@),
    ensures
        r@ == match typed {
            Some(v) => if v@ != masked(current@) {
                v@
            } else {
                current@
            },
            None => current@,
        },
{
    let m = mask_key(current);
    match typed {
        Some(v) => if !str_eq(v.as_str(), m.as_str()) {
            v
        } else {
            owned(current)
        },
        None => owned(current),
    }
}

// ─── `cb config show` ───────────────────────────────────────────────────────

/// `s` left-aligned in a field of `w` characters (`{:<w}`).
pub open spec fn pad_right(s: Seq<char>, w: nat) -> Seq<char> {
    if s.len() < w {
        s + repeat_char(' ', (w - s.len()) as nat)
    } else {
        s
    }
}

fn padded_right(s: &str, w: usize) -> (r: String)
    ensures
        r@ == pad_right(s@, w as nat),
{
    let n = chars_of(s).len();
    let mut r = owned(s);
    if n < w {
        let mut i: usize = n;
        while i < w
            invariant
                n <= i <= w,
                n == s@.len(),
                r@ == s@ + repeat_char(' ', (i - n) as nat),
            decreases w - i,
        {
            r.push(' ');
            i += 1;
        }
    }
    r
}

/// The label of a voice id: "name · style" from the voice table, else
/// "Custom".
pub open spec fn voice_label_in(t: Seq<(Seq<char>, Seq<char>, Seq<char>, bool)>, id: Seq<char>) -> Seq<char>
    decreases t.len(),
{
    if t.len() == 0 {
        "Custom"@
    } else if t[0].0 == id {
        t[0].1 + " · "@ + t[0].2
    } else {
        voice_label_in(t.drop_first(), id)
    }
}

fn voice_label(id: &str) -> (r: String)
    ensures
        r@ == voice_label_in(voice_table(), id@),
{
    let voices = doubao_voices();
    let ghost t = voices@.map_values(|v: VoicePreset| voice_fields(v));
    let mut i: usize = 0;
    assert(t.subrange(0, t.len() as int) =~= t);
    while i < voices.len()
        invariant
            i <= voices@.len(),
            t == voices@.map_values(|v: VoicePreset| voice_fields(v)),
            t == voice_table(),
            voice_label_in(t, id@) == voice_label_in(t.subrange(i as int, t.len() as int), id@),
        decreases voices.len() - i,
    {
        let ghost rest = t.subrange(i as int, t.len() as int);
        assert(rest[0] == voice_fields(voices@[i as int]));
        assert(rest.drop_first() =~= t.subrange(i + 1, t.len() as int));
        if str_eq(voices[i].id, id) {
            let mut s = owned(voices[i].name);
            s.append(" · ");
            s.append(voices[i].style);
            return s;
        }
        i += 1;
    }
    owned("Custom")
}

/// How a profile's key is shown.
pub open spec fn key_display(key: Seq<char>) -> Seq<char> {
    if key.len() == 0 || key == "ollama"@ {
        if key == "ollama"@ {
            MUTED@ + "(local, no key)"@ + RESET@
        } else {
            BR_RED@ + "(未设置)"@ + RESET@
        }
    } else {
        MUTED@ + masked(key) + RESET@
    }
}

/// A profile's row: marker (filled when active), name, base URL, model,
/// key.
pub open spec fn profile_row(p: ProfileView, active: bool) -> Seq<char> {
    "   "@ + (if active {
        BR_CYAN@ + "●"@ + RESET@
    } else {
        MUTED@ + "○"@ + RESET@
    }) + " "@ + BOLD@ + pad_right(p.name, 12) + RESET@ + "  "@ + MUTED@ + pad_right(p.base_url, 38)
        + RESET@ + "  "@ + p.model + "  "@ + key_display(p.api_key)
}

/// The profile rows, in order.
pub open spec fn profile_rows(ps: Seq<ProfileView>, active: Seq<char>, n: nat) -> Seq<Seq<char>>
    decreases ps.len(),
{
    if ps.len() == 0 {
        Seq::empty()
    } else {
        profile_rows(ps.drop_last(), active, n).push(
            profile_row(ps.last(), ps.last().name == active || n == 1),
        )
    }
}

/// Every secret shown can be masked.
pub open spec fn showable(c: ConfigView) -> bool {
    &&& forall|i: int| 0 <= i < c.profiles.len() ==> maskable(#[trigger] c.profiles[i].api_key)
    &&& maskable(c.doubao.access_token)
}

pub fn is_showable(cfg: &AppConfig) -> (r: bool)
    ensures
        r == showable(cfg@),
{
    let mut i: usize = 0;
    while i < cfg.llm_profiles.len()
        invariant
            i <= cfg.llm_profiles@.len(),
            forall|k: int| 0 <= k < i ==> maskable(#[trigger] cfg@.profiles[k].api_key),
        decreases cfg.llm_profiles.len() - i,
    {
        assert(cfg@.profiles[i as int].api_key == cfg.llm_profiles@[i as int].api_key@);
        if !is_maskable(cfg.llm_profiles[i].api_key.as_str()) {
            return false;
        }
        i += 1;
    }
    is_maskable(cfg.speech.doubao.access_token.as_str())
}

pub open spec fn persona_lines(c: ConfigView) -> Seq<Seq<char>> {
    seq![
        "   "@
        + MUTED@
        + "名称"@
        + RESET@
        + "      "@
        + BOLD@
        + c.name
        + RESET@,
        "   "@
        + MUTED@
        + "语言"@
        + RESET@
        + "      "@
        + (if c.language == "zh"@ { "中文"@ } else { "English"@ })
        + " ("@
        + c.language
        + ")"@,
        "   "@ + MUTED@ + "唤醒词"@ + RESET@ + "    "@ + (if c.wake_enabled {
            BR_GREEN@ + "开启"@ + RESET@
        } else {
            MUTED@ + "关闭"@ + RESET@
        }) + " "@ + (if c.wake_enabled {
            BOLD@ + "「"@ + c.wake_word + "」"@ + RESET@
        } else {
            Seq::empty()
        }),
    ]
}

pub open spec fn speech_lines(c: ConfigView, speed: Seq<char>) -> Seq<Seq<char>> {
    seq![
        "   "@
        + BR_CYAN@
        + "── 语音"@
        + RESET@,
        "   "@
        + MUTED@
        + "供应商"@
        + RESET@
        + "    Doubao"@,
        "   "@ + MUTED@ + "App ID"@ + RESET@ + "    "@ + (if c.doubao.app_id.len() == 0 {
            BR_RED@ + "(未设置)"@ + RESET@
        } else {
            c.doubao.app_id
        }),
        "   "@ + MUTED@ + "Token"@ + RESET@ + "     "@ + (if c.doubao.access_token.len() == 0 {
            BR_RED@ + "(未设置)"@ + RESET@
        } else {
            MUTED@ + masked(c.doubao.access_token) + RESET@
        }),
        "   "@ + MUTED@ + "音色"@ + RESET@ + "      "@ + BOLD@ + c.doubao.voice_type + RESET@ + "  "@
            + MUTED@ + voice_label_in(voice_table(), c.doubao.voice_type) + RESET@,
        "   "@ + MUTED@ + "语速"@ + RESET@ + "      "@ + speed + "x"@,
    ]
}

/// What `cb config show` prints, line by line; `speed` is the speech rate
/// as the program formats it.
pub open spec fn show_spec(c: ConfigView, speed: Seq<char>) -> Seq<Seq<char>> {
    seq![Seq::empty(), "   "@
        + BOLD@
        + "当前配置"@
        + RESET@
        + "  "@
        + MUTED@
        + "~/.config/chatbot/config.toml"@
        + RESET@, Seq::empty(), "   "@
        + BR_CYAN@
        + "── Persona"@
        + RESET@]
        + persona_lines(c) + seq![Seq::empty(), "   "@
        + BR_CYAN@
        + "── LLM Profiles"@
        + RESET@]
        + (if c.profiles.len() == 0 {
        seq!["   "@
        + MUTED@
        + "(未配置)"@
        + RESET@]
    } else {
        Seq::empty()
    }) + profile_rows(c.profiles, c.active_llm, c.profiles.len()) + seq![Seq::empty()]
        + speech_lines(c, speed) + seq![
        Seq::empty(),
        "   "@
        + MUTED@
        + "修改单项:  cb config set <key> <value>"@
        + RESET@,
        "   "@
        + MUTED@
        + "完整向导:  cb config"@
        + RESET@,
        Seq::empty(),
    ]
}

fn push_line(out: &mut Vec<String>, line: String)
    ensures
        final(out)@.map_values(|l: String| l@) == old(out)@.map_values(|l: String| l@).push(line@),
{
    let ghost before = out@;
    out.push(line);
    assert(out@.map_values(|l: String| l@) =~= before.map_values(|l: String| l@).push(line@));
}

fn profile_line(p: &LlmProfile, active: bool) -> (r: String)
    requires
        maskable(p.api_key@),
    ensures
        r@ == profile_row(p@, active),
{
    let mut s = owned("   ");
    if active {
        s.append(BR_CYAN);
        s.append("●");
        s.append(RESET);
    } else {
        s.append(MUTED);
        s.append("○");
        s.append(RESET);
    }
    s.append(" ");
    s.append(BOLD);
    let n = padded_right(p.name.as_str(), 12);
    s.append(n.as_str());
    s.append(RESET);
    s.append("  ");
    s.append(MUTED);
    let b = padded_right(p.base_url.as_str(), 38);
    s.append(b.as_str());
    s.append(RESET);
    s.append("  ");
    s.append(p.model.as_str());
    s.append("  ");
    let key = p.api_key.as_str();
    if key.is_empty() || str_eq(key, "ollama") {
        if str_eq(key, "ollama") {
            s.append(MUTED);
            s.append("(local, no key)");
            s.append(RESET);
        } else {
            s.append(BR_RED);
            s.append("(未设置)");
            s.append(RESET);
        }
    } else {
        s.append(MUTED);
        let m = mask_key(key);
        s.append(m.as_str());
        s.append(RESET);
    }
    assert(s@ =~= profile_row(p@, active));
    s
}

fn persona_block(cfg: &AppConfig) -> (r: Vec<String>)
    ensures
        r@.map_values(|l: String| l@) == persona_lines(cfg@),
{
    let ghost c = cfg@;
    let mut out: Vec<String> = Vec::new();
    let mut l = owned("   ");
    l.append(MUTED);
    l.append("名称");
    l.append(RESET);
    l.append("      ");
    l.append(BOLD);
    l.append(cfg.persona.name.as_str());
    l.append(RESET);
    assert(l@ =~= persona_lines(c)[0]);
    push_line(&mut out, l);
    let mut l = owned("   ");
    l.append(MUTED);
    l.append("语言");
    l.append(RESET);
    l.append("      ");
    if str_eq(cfg.persona.language.as_str(), "zh") {
        l.append("中文");
    } else {
        l.append("English");
    }
    l.append(" (");
    l.append(cfg.persona.language.as_str());
    l.append(")");
    assert(l@ =~= persona_lines(c)[1]);
    push_line(&mut out, l);
    let mut l = owned("   ");
    l.append(MUTED);
    l.append("唤醒词");
    l.append(RESET);
    l.append("    ");
    if cfg.persona.wake_word.enabled {
        l.append(BR_GREEN);
        l.append("开启");
        l.append(RESET);
    } else {
        l.append(MUTED);
        l.append("关闭");
        l.append(RESET);
    }
    l.append(" ");
    if cfg.persona.wake_word.enabled {
        l.append(BOLD);
        l.append("「");
        l.append(cfg.persona.wake_word.word.as_str());
        l.append("」");
        l.append(RESET);
    }
    assert(l@ =~= persona_lines(c)[2]);
    push_line(&mut out, l);
    assert(out@.map_values(|l: String| l@) =~= persona_lines(c));
    out
}

fn profile_block(cfg: &AppConfig) -> (r: Vec<String>)
    requires
        showable(cfg@),
    ensures
        r@.map_values(|l: String| l@) == profile_rows(cfg@.profiles, cfg@.active_llm, cfg@.profiles.len()),
{
    let ghost c = cfg@;
    let mut out: Vec<String> = Vec::new();
    let n = cfg.llm_profiles.len();
    let mut i: usize = 0;
    while i < n
        invariant
            i <= n,
            n == cfg.llm_profiles@.len(),
            c == cfg@,
            showable(c),
            out@.map_values(|l: String| l@) == profile_rows(
                c.profiles.subrange(0, i as int),
                c.active_llm,
                n as nat,
            ),
        decreases n - i,
    {
        let p = &cfg.llm_profiles[i];
        assert(c.profiles[i as int] == p@);
        assert(maskable(c.profiles[i as int].api_key));
        let active = str_eq(p.name.as_str(), cfg.active_llm.as_str()) || n == 1;
        let line = profile_line(p, active);
        push_line(&mut out, line);
        assert(c.profiles.subrange(0, i + 1).drop_last() =~= c.profiles.subrange(0, i as int));
        i += 1;
    }
    assert(c.profiles.subrange(0, n as int) =~= c.profiles);
    out
}

fn speech_block(cfg: &AppConfig, speed: &str) -> (r: Vec<String>)
    requires
        showable(cfg@),
    ensures
        r@.map_values(|l: String| l@) == speech_lines(cfg@, speed@),
{
    let ghost c = cfg@;
    let mut out: Vec<String> = Vec::new();
    let mut l = owned("   ");
    l.append(BR_CYAN);
    l.append("── 语音");
    l.append(RESET);
    assert(l@ =~= speech_lines(c, speed@)[0]);
    push_line(&mut out, l);
    let mut l = owned("   ");
    l.append(MUTED);
    l.append("供应商");
    l.append(RESET);
    l.append("    Doubao");
    assert(l@ =~= speech_lines(c, speed@)[1]);
    push_line(&mut out, l);
    let d = &cfg.speech.doubao;
    let mut l = owned("   ");
    l.append(MUTED);
    l.append("App ID");
    l.append(RESET);
    l.append("    ");
    if d.app_id.as_str().is_empty() {
        l.append(BR_RED);
        l.append("(未设置)");
        l.append(RESET);
    } else {
        l.append(d.app_id.as_str());
    }
    assert(l@ =~= speech_lines(c, speed@)[2]);
    push_line(&mut out, l);
    let mut l = owned("   ");
    l.append(MUTED);
    l.append("Token");
    l.append(RESET);
    l.append("     ");
    if d.access_token.as_str().is_empty() {
        l.append(BR_RED);
        l.append("(未设置)");
        l.append(RESET);
    } else {
        l.append(MUTED);
        let m = mask_key(d.access_token.as_str());
        l.append(m.as_str());
        l.append(RESET);
    }
    assert(l@ =~= speech_lines(c, speed@)[3]);
    push_line(&mut out, l);
    let mut l = owned("   ");
    l.append(MUTED);
    l.append("音色");
    l.append(RESET);
    l.append("      ");
    l.append(BOLD);
    l.append(d.voice_type.as_str());
    l.append(RESET);
    l.append("  ");
    l.append(MUTED);
    let vl = voice_label(d.voice_type.as_str());
    l.append(vl.as_str());
    l.append(RESET);
    assert(l@ =~= speech_lines(c, speed@)[4]);
    push_line(&mut out, l);
    let mut l = owned("   ");
    l.append(MUTED);
    l.append("语速");
    l.append(RESET);
    l.append("      ");
    l.append(speed);
    l.append("x");
    assert(l@ =~= speech_lines(c, speed@)[5]);
    push_line(&mut out, l);
    assert(out@.map_values(|l: String| l@) =~= speech_lines(c, speed@));
    out
}

/// Appends `more` to `out`.
fn push_all(out: &mut Vec<String>, more: Vec<String>)
    ensures
        final(out)@.map_values(|l: String| l@) == old(out)@.map_values(|l: String| l@) + more@.map_values(
            |l: String| l@,
        ),
{
    let ghost start = out@.map_values(|l: String| l@);
    let mut i: usize = 0;
    while i < more.len()
        invariant
            i <= more@.len(),
            out@.map_values(|l: String| l@) == start + more@.map_values(|l: String| l@).subrange(
                0,
                i as int,
            ),
        decreases more.len() - i,
    {
        let line = more[i].clone();
        push_line(out, line);
        assert(more@.map_values(|l: String| l@).subrange(0, i + 1) =~= more@.map_values(
            |l: String| l@,
        ).subrange(0, i as int).push(line@));
        i += 1;
    }
    assert(more@.map_values(|l: String| l@).subrange(0, more@.len() as int) =~= more@.map_values(
        |l: String| l@,
    ));
}

/// The lines `cb config show` prints.
pub fn show_lines(cfg: &AppConfig, speed: &str) -> (r: Vec<String>)
    requires
        showable(cfg@),
    ensures
        r@.map_values(|l: String| l@) == show_spec(cfg@, speed@),
{
    let ghost c = cfg@;
    let mut out: Vec<String> = Vec::new();
    push_line(&mut out, String::new());
    let mut l = owned("   ");
    l.append(BOLD);
    l.append("当前配置");
    l.append(RESET);
    l.append("  ");
    l.append(MUTED);
    l.append("~/.config/chatbot/config.toml");
    l.append(RESET);
    push_line(&mut out, l);
    push_line(&mut out, String::new());
    let mut l = owned("   ");
    l.append(BR_CYAN);
    l.append("── Persona");
    l.append(RESET);
    push_line(&mut out, l);
    let pb = persona_block(cfg);
    push_all(&mut out, pb);
    push_line(&mut out, String::new());
    let mut l = owned("   ");
    l.append(BR_CYAN);
    l.append("── LLM Profiles");
    l.append(RESET);
    push_line(&mut out, l);
    let ghost before_none = out@.map_values(|l: String| l@);
    let ghost none_line = Seq::<Seq<char>>::empty();
    if cfg.llm_profiles.len() == 0 {
        let mut l = owned("   ");
        l.append(MUTED);
        l.append("(未配置)");
        l.append(RESET);
        proof {
            none_line = seq![l@];
        }
        push_line(&mut out, l);
    }
    assert(out@.map_values(|l: String| l@) =~= before_none + none_line);
    let rows = profile_block(cfg);
    push_all(&mut out, rows);
    push_line(&mut out, String::new());
    let sb = speech_block(cfg, speed);
    push_all(&mut out, sb);
    push_line(&mut out, String::new());
    let mut l = owned("   ");
    l.append(MUTED);
    l.append("修改单项:  cb config set <key> <value>");
    l.append(RESET);
    push_line(&mut out, l);
    let mut l = owned("   ");
    l.append(MUTED);
    l.append("完整向导:  cb config");
    l.append(RESET);
    push_line(&mut out, l);
    push_line(&mut out, String::new());
    assert(out@.map_values(|l: String| l@) =~= show_spec(cfg@, speed@));
    out
}

} // verus!
