//! The settings model: what the configuration file holds, how settings from
//! earlier releases are carried forward, how environment variables patch
//! it, and when it is complete enough to run.
//!
//! The speech rate and the recording timings are decimal numbers; they are
//! kept beside this model by the program that reads the file.
use vstd::prelude::*;

use crate::platform::service::{home_dir, join, joined, opt_text};
use crate::config::presets::{
    law_voice_migration_lands_on_offered_voice, migrate_voice, voice_migration, DEFAULT_VOICE,
};
use crate::text::{
    chars_eq, chars_of, copy_range, ends_with, has_infix, has_prefix, has_suffix, occurs_at, owned,
    starts_with, str_contains, str_eq, string_of, strip_trailing, trailing_cut,
};

verus! {

// ─── Types ──────────────────────────────────────────────────────────────────

/// One configured LLM endpoint.
#[derive(Debug, Clone)]
pub struct LlmProfile {
    /// Human-readable label, e.g. "DeepSeek", "My Anthropic".
    pub name: String,
    pub base_url: String,
    pub model: String,
    pub api_key: String,
}

/// The endpoint settings the chat client takes.
#[derive(Debug, Clone)]
pub struct LlmConfig {
    pub api_key: String,
    pub base_url: String,
    pub model: String,
}

/// Wake-word settings.
#[derive(Debug, Clone)]
pub struct WakeWordConfig {
    pub enabled: bool,
    /// The trigger phrase, e.g. "嘿小派".
    pub word: String,
}

/// Who the assistant is.
#[derive(Debug, Clone)]
pub struct PersonaConfig {
    /// Display name (system prompt and UI).
    pub name: String,
    /// UI and prompt language: "zh" or "en".
    pub language: String,
    pub wake_word: WakeWordConfig,
}

/// Speech service credentials, resources, voice and endpoints.
#[derive(Debug, Clone)]
pub struct DoubaoConfig {
    /// Console API key (preferred; makes the two below unnecessary).
    pub api_key: String,
    /// Older console: App ID + Access Token.
    pub app_id: String,
    pub access_token: String,
    pub asr_resource_id: String,
    pub tts_resource_id: String,
    pub voice_type: String,
    /// Style instruction sent with each synthesis; empty means none.
    pub voice_instruction: String,
    pub tts_url: String,
    pub asr_url: String,
}

/// Speech provider selection.
#[derive(Debug, Clone)]
pub struct SpeechConfig {
    pub provider: String,
    pub doubao: DoubaoConfig,
}

/// The flat `[llm]` section of early configuration files.
#[derive(Debug, Clone)]
pub struct LegacyLlmConfig {
    pub api_key: String,
    pub base_url: String,
    pub model: String,
}

/// The `[wake_word]` section of early configuration files.
#[derive(Debug, Clone)]
pub struct LegacyWakeWordConfig {
    pub enabled: bool,
    pub word_en: String,
    pub word_zh: String,
}

/// The whole configuration.
#[derive(Debug, Clone)]
pub struct AppConfig {
    pub persona: PersonaConfig,
    /// Name of the active LLM profile.
    pub active_llm: String,
    pub llm_profiles: Vec<LlmProfile>,
    pub speech: SpeechConfig,
    /// Early-release fields: read on load, folded in by `migrate_legacy`.
    pub locale: Option<String>,
    pub llm: Option<LegacyLlmConfig>,
    pub wake_word: Option<LegacyWakeWordConfig>,
}

/// Values of the environment variables that patch the configuration
/// (`AI_API_KEY`, `AI_BASE_URL`, `AI_MODEL`, `DOUBAO_*`).
#[derive(Debug, Clone)]
pub struct EnvOverrides {
    pub ai_api_key: Option<String>,
    pub ai_base_url: Option<String>,
    pub ai_model: Option<String>,
    pub doubao_api_key: Option<String>,
    pub doubao_app_id: Option<String>,
    pub doubao_access_token: Option<String>,
    pub doubao_asr_resource_id: Option<String>,
    pub doubao_tts_resource_id: Option<String>,
    pub doubao_voice_type: Option<String>,
    pub doubao_voice_instruction: Option<String>,
    pub doubao_tts_url: Option<String>,
    pub doubao_asr_url: Option<String>,
}

/// Why a configuration cannot run.
#[derive(Debug, Clone, PartialEq, Eq)]
pub enum ConfigError {
    NoProfile,
    /// The active profile (named) has no API key.
    MissingKey(String),
    MissingSpeechCredentials,
}

// ─── Views ──────────────────────────────────────────────────────────────────

pub struct ProfileView {
    pub name: Seq<char>,
    pub base_url: Seq<char>,
    pub model: Seq<char>,
    pub api_key: Seq<char>,
}

pub struct DoubaoView {
    pub api_key: Seq<char>,
    pub app_id: Seq<char>,
    pub access_token: Seq<char>,
    pub asr_resource_id: Seq<char>,
    pub tts_resource_id: Seq<char>,
    pub voice_type: Seq<char>,
    pub voice_instruction: Seq<char>,
    pub tts_url: Seq<char>,
    pub asr_url: Seq<char>,
}

pub struct ConfigView {
    pub name: Seq<char>,
    pub language: Seq<char>,
    pub wake_enabled: bool,
    pub wake_word: Seq<char>,
    pub active_llm: Seq<char>,
    pub profiles: Seq<ProfileView>,
    pub provider: Seq<char>,
    pub doubao: DoubaoView,
    pub locale: Option<Seq<char>>,
    /// api_key, base_url, model
    pub legacy_llm: Option<(Seq<char>, Seq<char>, Seq<char>)>,
    /// enabled, word_en, word_zh
    pub legacy_wake: Option<(bool, Seq<char>, Seq<char>)>,
}

pub struct EnvView {
    pub ai_api_key: Option<Seq<char>>,
    pub ai_base_url: Option<Seq<char>>,
    pub ai_model: Option<Seq<char>>,
    pub doubao_api_key: Option<Seq<char>>,
    pub doubao_app_id: Option<Seq<char>>,
    pub doubao_access_token: Option<Seq<char>>,
    pub doubao_asr_resource_id: Option<Seq<char>>,
    pub doubao_tts_resource_id: Option<Seq<char>>,
    pub doubao_voice_type: Option<Seq<char>>,
    pub doubao_voice_instruction: Option<Seq<char>>,
    pub doubao_tts_url: Option<Seq<char>>,
    pub doubao_asr_url: Option<Seq<char>>,
}

pub open spec fn opt_view(o: Option<String>) -> Option<Seq<char>> {
    match o {
        Some(s) => Some(s@),
        None => None,
    }
}

impl View for LlmProfile {
    type V = ProfileView;

    open spec fn view(&self) -> ProfileView {
        ProfileView {
            name: self.name@,
            base_url: self.base_url@,
            model: self.model@,
            api_key: self.api_key@,
        }
    }
}

impl View for DoubaoConfig {
    type V = DoubaoView;

    open spec fn view(&self) -> DoubaoView {
        DoubaoView {
            api_key: self.api_key@,
            app_id: self.app_id@,
            access_token: self.access_token@,
            asr_resource_id: self.asr_resource_id@,
            tts_resource_id: self.tts_resource_id@,
            voice_type: self.voice_type@,
            voice_instruction: self.voice_instruction@,
            tts_url: self.tts_url@,
            asr_url: self.asr_url@,
        }
    }
}

impl View for EnvOverrides {
    type V = EnvView;

    open spec fn view(&self) -> EnvView {
        EnvView {
            ai_api_key: opt_view(self.ai_api_key),
            ai_base_url: opt_view(self.ai_base_url),
            ai_model: opt_view(self.ai_model),
            doubao_api_key: opt_view(self.doubao_api_key),
            doubao_app_id: opt_view(self.doubao_app_id),
            doubao_access_token: opt_view(self.doubao_access_token),
            doubao_asr_resource_id: opt_view(self.doubao_asr_resource_id),
            doubao_tts_resource_id: opt_view(self.doubao_tts_resource_id),
            doubao_voice_type: opt_view(self.doubao_voice_type),
            doubao_voice_instruction: opt_view(self.doubao_voice_instruction),
            doubao_tts_url: opt_view(self.doubao_tts_url),
            doubao_asr_url: opt_view(self.doubao_asr_url),
        }
    }
}

impl View for AppConfig {
    type V = ConfigView;

    open spec fn view(&self) -> ConfigView {
        ConfigView {
            name: self.persona.name@,
            language: self.persona.language@,
            wake_enabled: self.persona.wake_word.enabled,
            wake_word: self.persona.wake_word.word@,
            active_llm: self.active_llm@,
            profiles: self.llm_profiles@.map_values(|p: LlmProfile| p@),
            provider: self.speech.provider@,
            doubao: self.speech.doubao@,
            locale: opt_view(self.locale),
            legacy_llm: match self.llm {
                Some(l) => Some((l.api_key@, l.base_url@, l.model@)),
                None => None,
            },
            legacy_wake: match self.wake_word {
                Some(w) => Some((w.enabled, w.word_en@, w.word_zh@)),
                None => None,
            },
        }
    }
}

// ─── Defaults ───────────────────────────────────────────────────────────────

pub fn default_name() -> (r: String)
    ensures
        r@ == "小派"@,
{
    owned("小派")
}

pub fn default_language() -> (r: String)
    ensures
        r@ == "zh"@,
{
    owned("zh")
}

pub fn default_wake_word() -> (r: String)
    ensures
        r@ == "嘿小派"@,
{
    owned("嘿小派")
}

pub fn default_asr_resource_id() -> (r: String)
    ensures
        r@ == "volc.seedasr.sauc.duration"@,
{
    owned("volc.seedasr.sauc.duration")
}

pub fn default_tts_resource_id() -> (r: String)
    ensures
        r@ == "seed-tts-2.0"@,
{
    owned("seed-tts-2.0")
}

pub fn default_voice_type() -> (r: String)
    ensures
        r@ == DEFAULT_VOICE@,
{
    owned(DEFAULT_VOICE)
}

pub fn default_voice_instruction() -> (r: String)
    ensures
        r@ == "用轻松自然、像朋友聊天一样的语气说，不要念稿"@,
{
    owned("用轻松自然、像朋友聊天一样的语气说，不要念稿")
}

pub fn default_tts_url() -> (r: String)
    ensures
        r@ == "https://openspeech.bytedance.com/api/v3/tts/unidirectional"@,
{
    owned("https://openspeech.bytedance.com/api/v3/tts/unidirectional")
}

pub fn default_asr_url() -> (r: String)
    ensures
        r@ == "wss://openspeech.bytedance.com/api/v3/sauc/bigmodel_async"@,
{
    owned("wss://openspeech.bytedance.com/api/v3/sauc/bigmodel_async")
}

pub fn default_barge_in() -> (r: bool)
    ensures
        r,
{
    true
}

impl Default for WakeWordConfig {
    fn default() -> (r: Self)
        ensures
            r.enabled && r.word@ == "嘿小派"@,
    {
        WakeWordConfig { enabled: true, word: default_wake_word() }
    }
}

impl Default for PersonaConfig {
    fn default() -> (r: Self)
        ensures
            r.name@ == "小派"@,
            r.language@ == "zh"@,
            r.wake_word.enabled,
            r.wake_word.word@ == "嘿小派"@,
    {
        PersonaConfig {
            name: default_name(),
            language: default_language(),
            wake_word: WakeWordConfig { enabled: true, word: default_wake_word() },
        }
    }
}

/// The default speech service settings.
pub open spec fn default_doubao() -> DoubaoView {
    DoubaoView {
        api_key: Seq::empty(),
        app_id: Seq::empty(),
        access_token: Seq::empty(),
        asr_resource_id: "volc.seedasr.sauc.duration"@,
        tts_resource_id: "seed-tts-2.0"@,
        voice_type: DEFAULT_VOICE@,
        voice_instruction: "用轻松自然、像朋友聊天一样的语气说，不要念稿"@,
        tts_url: "https://openspeech.bytedance.com/api/v3/tts/unidirectional"@,
        asr_url: "wss://openspeech.bytedance.com/api/v3/sauc/bigmodel_async"@,
    }
}

impl Default for DoubaoConfig {
    fn default() -> (r: Self)
        ensures
            r@ == default_doubao(),
    {
        DoubaoConfig {
            api_key: String::new(),
            app_id: String::new(),
            access_token: String::new(),
            asr_resource_id: default_asr_resource_id(),
            tts_resource_id: default_tts_resource_id(),
            voice_type: default_voice_type(),
            voice_instruction: default_voice_instruction(),
            tts_url: default_tts_url(),
            asr_url: default_asr_url(),
        }
    }
}

impl Default for SpeechConfig {
    fn default() -> (r: Self)
        ensures
            r.provider@ == "doubao"@,
            r.doubao@ == default_doubao(),
    {
        SpeechConfig { provider: owned("doubao"), doubao: DoubaoConfig::default() }
    }
}

/// The configuration used when no file exists.
pub open spec fn default_config() -> ConfigView {
    ConfigView {
        name: "小派"@,
        language: "zh"@,
        wake_enabled: true,
        wake_word: "嘿小派"@,
        active_llm: Seq::empty(),
        profiles: Seq::empty(),
        provider: "doubao"@,
        doubao: default_doubao(),
        locale: None,
        legacy_llm: None,
        legacy_wake: None,
    }
}

impl Default for AppConfig {
    fn default() -> (r: Self)
        ensures
            r@ == default_config(),
    {
        let r = AppConfig {
            persona: PersonaConfig::default(),
            active_llm: String::new(),
            llm_profiles: Vec::new(),
            speech: SpeechConfig::default(),
            locale: None,
            llm: None,
            wake_word: None,
        };
        assert(r@.profiles =~= Seq::<ProfileView>::empty());
        r
    }
}

// ─── Rules ──────────────────────────────────────────────────────────────────

/// A value that is set and is not a placeholder.
pub open spec fn real_value(v: Seq<char>) -> bool {
    v.len() > 0 && !has_infix(v, "your-"@) && !has_infix(v, "xxx"@) && v != "placeholder"@
}

/// Whether `val` is set and not a placeholder (`your-...`, `xxx`, `placeholder`).
pub fn is_real_value(val: &str) -> (r: bool)
    ensures
        r == real_value(val@),
{
    !val.is_empty() && !str_contains(val, "your-") && !str_contains(val, "xxx") && !str_eq(
        val,
        "placeholder",
    )
}

/// API key, or App ID and token: either pair is enough.
pub open spec fn has_credentials_spec(d: DoubaoView) -> bool {
    real_value(d.api_key) || (real_value(d.app_id) && real_value(d.access_token))
}

/// Provider name guessed from a base URL.
pub open spec fn provider_name(base_url: Seq<char>) -> Seq<char> {
    if has_infix(base_url, "deepseek"@) {
        "DeepSeek"@
    } else if has_infix(base_url, "anthropic"@) {
        "Anthropic"@
    } else if has_infix(base_url, "openai"@) {
        "OpenAI"@
    } else if has_infix(base_url, "groq"@) {
        "Groq"@
    } else if has_infix(base_url, "localhost"@) || has_infix(base_url, "127.0.0.1"@) {
        "Ollama"@
    } else {
        "Custom"@
    }
}

/// Provider name guessed from a base URL.
pub fn guess_provider_name(base_url: &str) -> (r: String)
    ensures
        r@ == provider_name(base_url@),
{
    if str_contains(base_url, "deepseek") {
        owned("DeepSeek")
    } else if str_contains(base_url, "anthropic") {
        owned("Anthropic")
    } else if str_contains(base_url, "openai") {
        owned("OpenAI")
    } else if str_contains(base_url, "groq") {
        owned("Groq")
    } else if str_contains(base_url, "localhost") || str_contains(base_url, "127.0.0.1") {
        owned("Ollama")
    } else {
        owned("Custom")
    }
}

/// The 1.0 → 2.0 upgrade of the speech settings.
pub open spec fn doubao_v2(d: DoubaoView) -> DoubaoView {
    DoubaoView {
        asr_resource_id: if has_prefix(d.asr_resource_id, "volc.bigasr."@) {
            "volc.seedasr."@ + d.asr_resource_id.subrange(
                "volc.bigasr."@.len() as int,
                d.asr_resource_id.len() as int,
            )
        } else {
            d.asr_resource_id
        },
        tts_resource_id: if d.tts_resource_id == "volc.service_type.10029"@ || has_prefix(
            d.tts_resource_id,
            "seed-tts-1.0"@,
        ) {
            "seed-tts-2.0"@
        } else {
            d.tts_resource_id
        },
        tts_url: if has_infix(d.tts_url, "/api/v1/tts"@) {
            "https://openspeech.bytedance.com/api/v3/tts/unidirectional"@
        } else {
            d.tts_url
        },
        asr_url: if has_suffix(d.asr_url, "/sauc/bigmodel"@) {
            "wss://openspeech.bytedance.com/api/v3/sauc/bigmodel_async"@
        } else {
            d.asr_url
        },
        voice_type: match voice_migration(d.voice_type) {
            Some(v) => v,
            None => d.voice_type,
        },
        ..d
    }
}

impl DoubaoConfig {
    /// API key, or App ID + Access Token: either is enough.
    pub fn has_credentials(&self) -> (r: bool)
        ensures
            r == has_credentials_spec(self@),
    {
        is_real_value(self.api_key.as_str()) || (is_real_value(self.app_id.as_str())
            && is_real_value(self.access_token.as_str()))
    }

    /// Replaces 1.0 values by their 2.0 counterparts; values already in 2.0
    /// form stay as they are.
    pub fn migrate_to_v2(&mut self)
        ensures
            final(self)@ == doubao_v2(old(self)@),
    {
        let asr = chars_of(self.asr_resource_id.as_str());
        let bigasr = chars_of("volc.bigasr.");
        if starts_with(asr.as_slice(), bigasr.as_slice()) {
            let mut s = owned("volc.seedasr.");
            let rest = string_of(asr.as_slice(), bigasr.len(), asr.len());
            s.append(rest.as_str());
            self.asr_resource_id = s;
        }
        let tts = chars_of(self.tts_resource_id.as_str());
        let v1 = chars_of("seed-tts-1.0");
        if str_eq(self.tts_resource_id.as_str(), "volc.service_type.10029") || starts_with(
            tts.as_slice(),
            v1.as_slice(),
        ) {
            self.tts_resource_id = default_tts_resource_id();
        }
        if str_contains(self.tts_url.as_str(), "/api/v1/tts") {
            self.tts_url = default_tts_url();
        }
        let au = chars_of(self.asr_url.as_str());
        let bm = chars_of("/sauc/bigmodel");
        if ends_with(au.as_slice(), bm.as_slice()) {
            self.asr_url = default_asr_url();
        }
        match migrate_voice(self.voice_type.as_str()) {
            Some(v2) => {
                self.voice_type = owned(v2);
            },
            None => {},
        }
    }
}


// ─── Whole-configuration rules ──────────────────────────────────────────────

/// Index of the first profile named `name`, searching from `i`.
pub open spec fn first_named_from(ps: Seq<ProfileView>, name: Seq<char>, i: int) -> Option<int>
    decreases ps.len() - i,
{
    if i < 0 || i >= ps.len() {
        None
    } else if ps[i].name == name {
        Some(i)
    } else {
        first_named_from(ps, name, i + 1)
    }
}

/// Whether some profile is named `name`.
pub open spec fn has_profile(ps: Seq<ProfileView>, name: Seq<char>) -> bool {
    first_named_from(ps, name, 0) is Some
}

/// The active profile: the one named by `active_llm`, else the first.
pub open spec fn active_index(c: ConfigView) -> Option<int> {
    match first_named_from(c.profiles, c.active_llm, 0) {
        Some(i) => Some(i),
        None => if c.profiles.len() > 0 {
            Some(0)
        } else {
            None
        },
    }
}

/// `locale` → `persona.language`.
pub open spec fn step_locale(c: ConfigView) -> ConfigView {
    match c.locale {
        Some(l) => ConfigView {
            language: if l.len() > 0 {
                l
            } else {
                c.language
            },
            locale: None,
            ..c
        },
        None => c,
    }
}

/// `[llm]` → first profile (only into an empty list, and only with a real key).
pub open spec fn step_llm(c: ConfigView) -> ConfigView {
    match c.legacy_llm {
        Some((key, base, model)) => if c.profiles.len() == 0 && real_value(key) {
            let name = provider_name(base);
            ConfigView {
                profiles: c.profiles.push(
                    ProfileView { name: name, base_url: base, model: model, api_key: key },
                ),
                active_llm: if c.active_llm.len() == 0 {
                    name
                } else {
                    c.active_llm
                },
                legacy_llm: None,
                ..c
            }
        } else {
            ConfigView { legacy_llm: None, ..c }
        },
        None => c,
    }
}

/// `[wake_word]` → `persona.wake_word` (Chinese word preferred).
pub open spec fn step_wake(c: ConfigView) -> ConfigView {
    match c.legacy_wake {
        Some((enabled, word_en, word_zh)) => ConfigView {
            wake_enabled: enabled,
            wake_word: if word_zh.len() > 0 {
                word_zh
            } else if word_en.len() > 0 {
                word_en
            } else {
                c.wake_word
            },
            legacy_wake: None,
            ..c
        },
        None => c,
    }
}

/// The bare DeepSeek host becomes its `/v1` endpoint.
pub open spec fn fix_base(p: ProfileView) -> ProfileView {
    if strip_trailing(p.base_url, '/') == "https://api.deepseek.com"@ {
        ProfileView { base_url: "https://api.deepseek.com/v1"@, ..p }
    } else {
        p
    }
}

pub open spec fn step_deepseek(c: ConfigView) -> ConfigView {
    ConfigView { profiles: c.profiles.map_values(|p: ProfileView| fix_base(p)), ..c }
}

pub open spec fn step_doubao(c: ConfigView) -> ConfigView {
    ConfigView { doubao: doubao_v2(c.doubao), ..c }
}

/// An active name that matches no profile falls back to the first profile.
pub open spec fn step_active(c: ConfigView) -> ConfigView {
    if c.active_llm.len() > 0 && !has_profile(c.profiles, c.active_llm) {
        ConfigView {
            active_llm: if c.profiles.len() > 0 {
                c.profiles[0].name
            } else {
                Seq::empty()
            },
            ..c
        }
    } else {
        c
    }
}

/// All early-release fields folded into the current structure.
pub open spec fn migrated(c: ConfigView) -> ConfigView {
    step_active(step_doubao(step_deepseek(step_wake(step_llm(step_locale(c))))))
}

/// `v` replaced when the environment sets it.
pub open spec fn or_env(v: Seq<char>, e: Option<Seq<char>>) -> Seq<char> {
    match e {
        Some(x) => x,
        None => v,
    }
}

/// The environment's patch of the active profile.
pub open spec fn patched_profile(p: ProfileView, e: EnvView) -> ProfileView {
    ProfileView {
        api_key: or_env(p.api_key, e.ai_api_key),
        base_url: or_env(p.base_url, e.ai_base_url),
        model: or_env(p.model, e.ai_model),
        ..p
    }
}

/// The profile the environment creates when none is configured: its
/// values (empty where unset), named after the provider its URL points to.
pub open spec fn env_profile(e: EnvView) -> ProfileView {
    let url = or_env(Seq::empty(), e.ai_base_url);
    ProfileView {
        name: provider_name(url),
        base_url: url,
        model: or_env(Seq::empty(), e.ai_model),
        api_key: or_env(Seq::empty(), e.ai_api_key),
    }
}

/// The configuration with the `AI_*` values applied.
pub open spec fn with_ai_env(c: ConfigView, e: EnvView) -> ConfigView {
    if e.ai_api_key is Some || e.ai_base_url is Some || e.ai_model is Some {
        match active_index(c) {
            Some(i) => ConfigView { profiles: c.profiles.update(i, patched_profile(c.profiles[i], e)), ..c },
            None => ConfigView { profiles: seq![env_profile(e)], active_llm: env_profile(e).name, ..c },
        }
    } else {
        c
    }
}

/// The configuration with the environment's values applied: `AI_*`
/// patch the active profile, or create one (and make it active) when
/// there is none.
pub open spec fn with_env(c: ConfigView, e: EnvView) -> ConfigView {
    let a = with_ai_env(c, e);
    let d = c.doubao;
    ConfigView {
        profiles: a.profiles,
        active_llm: a.active_llm,
        doubao: DoubaoView {
            api_key: or_env(d.api_key, e.doubao_api_key),
            app_id: or_env(d.app_id, e.doubao_app_id),
            access_token: or_env(d.access_token, e.doubao_access_token),
            asr_resource_id: or_env(d.asr_resource_id, e.doubao_asr_resource_id),
            tts_resource_id: or_env(d.tts_resource_id, e.doubao_tts_resource_id),
            voice_type: or_env(d.voice_type, e.doubao_voice_type),
            voice_instruction: or_env(d.voice_instruction, e.doubao_voice_instruction),
            tts_url: or_env(d.tts_url, e.doubao_tts_url),
            asr_url: or_env(d.asr_url, e.doubao_asr_url),
        },
        ..c
    }
}

/// Whether the configuration has what a voice session needs.
pub open spec fn complete(c: ConfigView) -> bool {
    match active_index(c) {
        Some(i) => (real_value(c.profiles[i].api_key) || c.profiles[i].api_key == "ollama"@)
            && has_credentials_spec(c.doubao),
        None => false,
    }
}

/// What `validate` reports, if anything.
pub open spec fn validation(c: ConfigView) -> Option<(int, Seq<char>)> {
    match active_index(c) {
        None => Some((0, Seq::empty())),
        Some(i) => if c.profiles[i].api_key.len() == 0 {
            Some((1, c.profiles[i].name))
        } else if !has_credentials_spec(c.doubao) {
            Some((2, Seq::empty()))
        } else {
            None
        },
    }
}

/// The view of a validation result.
pub open spec fn validation_view(r: Result<(), ConfigError>) -> Option<(int, Seq<char>)> {
    match r {
        Ok(()) => None,
        Err(ConfigError::NoProfile) => Some((0, Seq::empty())),
        Err(ConfigError::MissingKey(n)) => Some((1, n@)),
        Err(ConfigError::MissingSpeechCredentials) => Some((2, Seq::empty())),
    }
}

fn copy_string(s: &String) -> (r: String)
    ensures
        r@ == s@,
{
    s.clone()
}

fn copy_profile(p: &LlmProfile) -> (r: LlmProfile)
    ensures
        r@ == p@,
{
    LlmProfile {
        name: p.name.clone(),
        base_url: p.base_url.clone(),
        model: p.model.clone(),
        api_key: p.api_key.clone(),
    }
}

/// Index of the first profile named `name`.
fn find_profile(ps: &Vec<LlmProfile>, name: &str) -> (r: Option<usize>)
    ensures
        match r {
            Some(i) => first_named_from(ps@.map_values(|p: LlmProfile| p@), name@, 0) == Some(
                i as int,
            ),
            None => first_named_from(ps@.map_values(|p: LlmProfile| p@), name@, 0) is None,
        },
{
    let ghost v = ps@.map_values(|p: LlmProfile| p@);
    let mut i: usize = 0;
    while i < ps.len()
        invariant
            i <= ps@.len(),
            v == ps@.map_values(|p: LlmProfile| p@),
            first_named_from(v, name@, 0) == first_named_from(v, name@, i as int),
        decreases ps.len() - i,
    {
        assert(v[i as int].name == ps@[i as int].name@);
        if str_eq(ps[i].name.as_str(), name) {
            return Some(i);
        }
        i += 1;
    }
    None
}

impl ConfigError {
    /// The error's message.
    pub fn to_string(&self) -> (r: String)
        ensures
            r@ == match self {
                ConfigError::NoProfile => "No LLM profile configured. Run `cb config`"@,
                ConfigError::MissingKey(n) => "LLM API key not set for profile '"@ + n@
                    + "'. Run `cb config`"@,
                ConfigError::MissingSpeechCredentials =>
                    "Doubao credentials not set (api_key, or app_id + access_token). Run `cb config`"@,
            },
    {
        match self {
            ConfigError::NoProfile => owned("No LLM profile configured. Run `cb config`"),
            ConfigError::MissingKey(n) => {
                let mut s = owned("LLM API key not set for profile '");
                s.append(n.as_str());
                s.append("'. Run `cb config`");
                s
            },
            ConfigError::MissingSpeechCredentials => owned(
                "Doubao credentials not set (api_key, or app_id + access_token). Run `cb config`",
            ),
        }
    }
}

impl AppConfig {
    /// Index of the active profile: the one named by `active_llm`, else the first.
    pub fn active_llm_index(&self) -> (r: Option<usize>)
        ensures
            match r {
                Some(i) => active_index(self@) == Some(i as int) && i < self.llm_profiles@.len(),
                None => active_index(self@) is None,
            },
    {
        match find_profile(&self.llm_profiles, self.active_llm.as_str()) {
            Some(i) => {
                proof {
                    lemma_first_named_in_range(self@.profiles, self@.active_llm, 0);
                }
                Some(i)
            },
            None => if self.llm_profiles.len() > 0 {
                Some(0)
            } else {
                None
            },
        }
    }

    /// The active profile: the one named by `active_llm`, else the first.
    pub fn active_llm_profile(&self) -> (r: Option<&LlmProfile>)
        ensures
            match r {
                Some(p) => active_index(self@) matches Some(i) && p@ == self@.profiles[i],
                None => active_index(self@) is None,
            },
    {
        match self.active_llm_index() {
            Some(i) => Some(&self.llm_profiles[i]),
            None => None,
        }
    }

    /// The active profile in the shape the chat client takes.
    pub fn active_llm_config(&self) -> (r: Option<LlmConfig>)
        ensures
            match r {
                Some(l) => active_index(self@) matches Some(i) && l.api_key@
                    == self@.profiles[i].api_key && l.base_url@ == self@.profiles[i].base_url
                    && l.model@ == self@.profiles[i].model,
                None => active_index(self@) is None,
            },
    {
        match self.active_llm_profile() {
            Some(p) => Some(
                LlmConfig {
                    api_key: p.api_key.clone(),
                    base_url: p.base_url.clone(),
                    model: p.model.clone(),
                },
            ),
            None => None,
        }
    }

    /// An active profile with a usable key (local providers use "ollama"),
    /// and speech credentials.
    pub fn is_complete(&self) -> (r: bool)
        ensures
            r == complete(self@),
    {
        match self.active_llm_profile() {
            Some(p) => {
                let key_ok = is_real_value(p.api_key.as_str()) || str_eq(
                    p.api_key.as_str(),
                    "ollama",
                );
                key_ok && self.speech.doubao.has_credentials()
            },
            None => false,
        }
    }

    /// Checks what a voice session needs, saying what is missing.
    pub fn validate(&self) -> (r: Result<(), ConfigError>)
        ensures
            validation_view(r) == validation(self@),
    {
        let p = match self.active_llm_profile() {
            Some(p) => p,
            None => return Err(ConfigError::NoProfile),
        };
        if p.api_key.as_str().is_empty() {
            return Err(ConfigError::MissingKey(p.name.clone()));
        }
        if !self.speech.doubao.has_credentials() {
            return Err(ConfigError::MissingSpeechCredentials);
        }
        Ok(())
    }

    /// Folds early-release fields (`locale`, `[llm]`, `[wake_word]`) into
    /// the current structure, moves the bare DeepSeek host to `/v1`,
    /// upgrades 1.0 speech settings, and points `active_llm` at an existing
    /// profile.
    pub fn migrate_legacy(&mut self)
        ensures
            final(self)@ == migrated(old(self)@),
    {
        let ghost c0 = self@;
        match self.locale.take() {
            Some(locale) => {
                if !locale.as_str().is_empty() {
                    self.persona.language = locale;
                }
            },
            None => {},
        }
        let ghost c1 = self@;
        assert(c1 == step_locale(c0));
        match self.llm.take() {
            Some(llm) => {
                if self.llm_profiles.len() == 0 && is_real_value(llm.api_key.as_str()) {
                    let name = guess_provider_name(llm.base_url.as_str());
                    let name2 = copy_string(&name);
                    let ghost pv = ProfileView {
                        name: name@,
                        base_url: llm.base_url@,
                        model: llm.model@,
                        api_key: llm.api_key@,
                    };
                    self.llm_profiles.push(
                        LlmProfile {
                            name: name,
                            base_url: llm.base_url,
                            model: llm.model,
                            api_key: llm.api_key,
                        },
                    );
                    assert(self@.profiles =~= c1.profiles.push(pv));
                    if self.active_llm.as_str().is_empty() {
                        self.active_llm = name2;
                    }
                }
            },
            None => {},
        }
        let ghost c2 = self@;
        assert(c2.profiles =~= step_llm(c1).profiles);
        assert(c2 =~= step_llm(c1));
        match self.wake_word.take() {
            Some(ww) => {
                self.persona.wake_word.enabled = ww.enabled;
                if !ww.word_zh.as_str().is_empty() {
                    self.persona.wake_word.word = ww.word_zh;
                } else if !ww.word_en.as_str().is_empty() {
                    self.persona.wake_word.word = ww.word_en;
                }
            },
            None => {},
        }
        let ghost c3 = self@;
        assert(c3 == step_wake(c2));
        let host = chars_of("https://api.deepseek.com");
        let mut i: usize = 0;
        while i < self.llm_profiles.len()
            invariant
                i <= self.llm_profiles@.len(),
                host@ == "https://api.deepseek.com"@,
                self.llm_profiles@.len() == c3.profiles.len(),
                forall|k: int|
                    0 <= k < i ==> #[trigger] self.llm_profiles@[k]@ == fix_base(c3.profiles[k]),
                forall|k: int|
                    i <= k < self.llm_profiles@.len() ==> #[trigger] self.llm_profiles@[k]@
                        == c3.profiles[k],
                self@ == (ConfigView { profiles: self@.profiles, ..c3 }),
            decreases self.llm_profiles.len() - i,
        {
            let base = chars_of(self.llm_profiles[i].base_url.as_str());
            let cut = trailing_cut(base.as_slice(), '/');
            let trimmed = copy_range(base.as_slice(), 0, cut);
            if chars_eq(trimmed.as_slice(), host.as_slice()) {
                let mut np = copy_profile(&self.llm_profiles[i]);
                np.base_url = owned("https://api.deepseek.com/v1");
                self.llm_profiles.set(i, np);
            }
            i += 1;
        }
        let ghost c4 = self@;
        assert(c4.profiles =~= c3.profiles.map_values(|p: ProfileView| fix_base(p)));
        assert(c4 == step_deepseek(c3));
        self.speech.doubao.migrate_to_v2();
        let ghost c5 = self@;
        assert(c5 == step_doubao(c4));
        if !self.active_llm.as_str().is_empty() && find_profile(
            &self.llm_profiles,
            self.active_llm.as_str(),
        ).is_none() {
            if self.llm_profiles.len() > 0 {
                self.active_llm = copy_string(&self.llm_profiles[0].name);
            } else {
                self.active_llm = String::new();
            }
        }
        assert(self@ == step_active(c5));
    }

    /// The `AI_*` part of `apply_env_overrides`.
    fn apply_ai_env(&mut self, env: &EnvOverrides)
        ensures
            final(self)@ == with_ai_env(old(self)@, env@),
    {
        let ghost c0 = self@;
        if env.ai_api_key.is_some() || env.ai_base_url.is_some() || env.ai_model.is_some() {
            match self.active_llm_index() {
                Some(i) => {
                    let mut p = copy_profile(&self.llm_profiles[i]);
                    match &env.ai_api_key {
                        Some(v) => {
                            p.api_key = v.clone();
                        },
                        None => {},
                    }
                    match &env.ai_base_url {
                        Some(v) => {
                            p.base_url = v.clone();
                        },
                        None => {},
                    }
                    match &env.ai_model {
                        Some(v) => {
                            p.model = v.clone();
                        },
                        None => {},
                    }
                    self.llm_profiles.set(i, p);
                    assert(self@.profiles =~= c0.profiles.update(
                        i as int,
                        patched_profile(c0.profiles[i as int], env@),
                    ));
                },
                None => {
                    let base_url = match &env.ai_base_url {
                        Some(v) => v.clone(),
                        None => String::new(),
                    };
                    let name = guess_provider_name(base_url.as_str());
                    let p = LlmProfile {
                        name: name.clone(),
                        base_url,
                        model: match &env.ai_model {
                            Some(v) => v.clone(),
                            None => String::new(),
                        },
                        api_key: match &env.ai_api_key {
                            Some(v) => v.clone(),
                            None => String::new(),
                        },
                    };
                    self.llm_profiles.push(p);
                    self.active_llm = name;
                    assert(self@.profiles =~= seq![env_profile(env@)]);
                },
            }
        }
        proof {
            if !(env@.ai_api_key is Some || env@.ai_base_url is Some || env@.ai_model is Some) {
                assert(self@ =~= c0);
            } else if active_index(c0) is Some {
                assert(self@ =~= with_ai_env(c0, env@));
            } else {
                assert(self@ =~= with_ai_env(c0, env@));
            }
        }
    }

    /// Applies environment variables: `AI_*` patch the active profile, or
    /// create one on the fly when none is configured; `DOUBAO_*` replace
    /// the speech settings.
    pub fn apply_env_overrides(&mut self, env: &EnvOverrides)
        ensures
            final(self)@ == with_env(old(self)@, env@),
    {
        let ghost c0 = self@;
        self.apply_ai_env(env);
        let d = &mut self.speech.doubao;
        if let Some(v) = &env.doubao_api_key {
            d.api_key = v.clone();
        }
        if let Some(v) = &env.doubao_app_id {
            d.app_id = v.clone();
        }
        if let Some(v) = &env.doubao_access_token {
            d.access_token = v.clone();
        }
        if let Some(v) = &env.doubao_asr_resource_id {
            d.asr_resource_id = v.clone();
        }
        if let Some(v) = &env.doubao_tts_resource_id {
            d.tts_resource_id = v.clone();
        }
        if let Some(v) = &env.doubao_voice_type {
            d.voice_type = v.clone();
        }
        if let Some(v) = &env.doubao_voice_instruction {
            d.voice_instruction = v.clone();
        }
        if let Some(v) = &env.doubao_tts_url {
            d.tts_url = v.clone();
        }
        if let Some(v) = &env.doubao_asr_url {
            d.asr_url = v.clone();
        }
        assert(self@ =~= with_env(c0, env@));
    }
}

/// A found index is within the list.
proof fn lemma_first_named_in_range(ps: Seq<ProfileView>, name: Seq<char>, i: int)
    ensures
        first_named_from(ps, name, i) matches Some(k) ==> i <= k < ps.len() && ps[k].name == name,
    decreases ps.len() - i,
{
    if 0 <= i < ps.len() && ps[i].name != name {
        lemma_first_named_in_range(ps, name, i + 1);
    }
}


/// The 2.0 synthesis endpoint holds no 1.0 path.
proof fn lemma_v3_url_has_no_v1_path()
    ensures
        !has_infix("https://openspeech.bytedance.com/api/v3/tts/unidirectional"@, "/api/v1/tts"@),
{
    reveal_strlit("https://openspeech.bytedance.com/api/v3/tts/unidirectional");
    reveal_strlit("/api/v1/tts");
    let s = "https://openspeech.bytedance.com/api/v3/tts/unidirectional"@;
    let p = "/api/v1/tts"@;
    assert forall|i: int| !occurs_at(s, p, i) by {
        if occurs_at(s, p, i) {
            assert(s.subrange(i, i + p.len())[6] == p[6]);
        }
    }
}

/// Upgrading the speech settings twice is the same as upgrading them once:
/// values already in 2.0 form stay as they are.
pub proof fn law_speech_upgrade_idempotent(d: DoubaoView)
    ensures
        doubao_v2(doubao_v2(d)) == doubao_v2(d),
{
    let e = doubao_v2(d);
    reveal_strlit("volc.bigasr.");
    reveal_strlit("volc.seedasr.");
    if has_prefix(d.asr_resource_id, "volc.bigasr."@) {
        let a = e.asr_resource_id;
        assert(a[5] == 's');
        if has_prefix(a, "volc.bigasr."@) {
            assert(a.subrange(0, 12)[5] == 'b');
        }
    }
    reveal_strlit("seed-tts-2.0");
    reveal_strlit("seed-tts-1.0");
    reveal_strlit("volc.service_type.10029");
    if e.tts_resource_id == "seed-tts-2.0"@ {
        assert(e.tts_resource_id.subrange(0, 12)[9] == '2');
    }
    lemma_v3_url_has_no_v1_path();
    reveal_strlit("wss://openspeech.bytedance.com/api/v3/sauc/bigmodel_async");
    reveal_strlit("/sauc/bigmodel");
    if has_suffix(d.asr_url, "/sauc/bigmodel"@) {
        let u = e.asr_url;
        if has_suffix(u, "/sauc/bigmodel"@) {
            assert(u.subrange(u.len() - 14, u.len() as int)[13] == 'l');
        }
    }
    law_voice_migration_lands_on_offered_voice(d.voice_type);
    assert(doubao_v2(e) =~= e);
}

/// Moving the bare DeepSeek host to `/v1` twice is the same as once.
proof fn lemma_fix_base_idempotent(p: ProfileView)
    ensures
        fix_base(fix_base(p)) == fix_base(p),
{
    let q = fix_base(p);
    if q != p {
        reveal_strlit("https://api.deepseek.com/v1");
        reveal_strlit("https://api.deepseek.com");
        assert(q.base_url.last() == '1');
        assert(strip_trailing(q.base_url, '/') == q.base_url);
    }
}

/// After migration no early-release field is left, and `active_llm` is
/// empty or names a configured profile.
pub proof fn law_migration_leaves_valid_active(c: ConfigView)
    ensures
        migrated(c).locale is None,
        migrated(c).legacy_llm is None,
        migrated(c).legacy_wake is None,
        migrated(c).active_llm.len() == 0 || has_profile(
            migrated(c).profiles,
            migrated(c).active_llm,
        ),
{
    let c5 = step_doubao(step_deepseek(step_wake(step_llm(step_locale(c)))));
    if c5.active_llm.len() > 0 && !has_profile(c5.profiles, c5.active_llm) && c5.profiles.len()
        > 0 {
        assert(first_named_from(c5.profiles, c5.profiles[0].name, 0) == Some(0int));
    }
}

/// Migrating an already migrated configuration changes nothing.
pub proof fn law_migration_idempotent(c: ConfigView)
    ensures
        migrated(migrated(c)) == migrated(c),
{
    let m = migrated(c);
    law_migration_leaves_valid_active(c);
    assert(step_locale(m) == m);
    assert(step_llm(m) == m);
    assert(step_wake(m) == m);
    assert forall|k: int| 0 <= k < m.profiles.len() implies fix_base(#[trigger] m.profiles[k])
        == m.profiles[k] by {
        let c4 = step_deepseek(step_wake(step_llm(step_locale(c))));
        let c3 = step_wake(step_llm(step_locale(c)));
        assert(m.profiles[k] == fix_base(c3.profiles[k]));
        lemma_fix_base_idempotent(c3.profiles[k]);
    }
    assert(step_deepseek(m).profiles =~= m.profiles);
    assert(step_deepseek(m) == m);
    let c4 = step_deepseek(step_wake(step_llm(step_locale(c))));
    law_speech_upgrade_idempotent(c4.doubao);
    assert(step_doubao(m) == m);
    assert(step_active(m) == m);
}

// ─── Locations ──────────────────────────────────────────────────────────────

/// How the configuration file's location is shown to the user.
pub fn config_path_display() -> (r: String)
    ensures
        r@ == "~/.config/chatbot/config.toml"@,
{
    owned("~/.config/chatbot/config.toml")
}

/// The configuration directory: `~/.config/chatbot` on every platform
/// (the home directory falling back to ".").
pub open spec fn config_dir_spec(home: Option<Seq<char>>) -> Seq<char> {
    joined(
        joined(
            match home {
                Some(h) => h,
                None => "."@,
            },
            ".config"@,
        ),
        "chatbot"@,
    )
}

pub fn config_dir_in(home: Option<String>) -> (r: String)
    ensures
        r@ == config_dir_spec(opt_text(home)),
{
    let h = match home {
        Some(h) => h,
        None => owned("."),
    };
    let a = join(h.as_str(), ".config");
    join(a.as_str(), "chatbot")
}

/// A file in the configuration directory (reads the home directory).
pub fn cache_path(name: &str) -> (r: String)
    ensures
        exists|h: Option<Seq<char>>| r@ == joined(config_dir_spec(h), name@),
{
    let home = home_dir();
    let ghost h = opt_text(home);
    let d = config_dir_in(home);
    join(d.as_str(), name)
}

/// The configuration file (reads the home directory).
pub fn config_path() -> (r: String)
    ensures
        exists|h: Option<Seq<char>>| r@ == joined(config_dir_spec(h), "config.toml"@),
{
    cache_path("config.toml")
}

/// Where earlier releases kept the configuration, in the order they are
/// tried: `~/.config/chatbox`, `~/.config/chatbot`, then the platform
/// configuration directory's `chatbox` and `chatbot` (macOS).
pub open spec fn old_dirs_spec(home: Option<Seq<char>>, config: Option<Seq<char>>) -> Seq<Seq<char>> {
    (match home {
        Some(h) => seq![joined(joined(h, ".config"@), "chatbox"@), joined(joined(h, ".config"@), "chatbot"@)],
        None => Seq::empty(),
    }) + match config {
        Some(c) => seq![joined(c, "chatbox"@), joined(c, "chatbot"@)],
        None => Seq::empty(),
    }
}

pub fn old_config_dirs(home: Option<String>, config: Option<String>) -> (r: Vec<String>)
    ensures
        r@.map_values(|d: String| d@) == old_dirs_spec(opt_text(home), opt_text(config)),
{
    let mut r: Vec<String> = Vec::new();
    match &home {
        Some(h) => {
            let c = join(h.as_str(), ".config");
            r.push(join(c.as_str(), "chatbox"));
            r.push(join(c.as_str(), "chatbot"));
        },
        None => {},
    }
    match &config {
        Some(c) => {
            r.push(join(c.as_str(), "chatbox"));
            r.push(join(c.as_str(), "chatbot"));
        },
        None => {},
    }
    assert(r@.map_values(|d: String| d@) =~= old_dirs_spec(opt_text(home), opt_text(config)));
    r
}

} // verus!
