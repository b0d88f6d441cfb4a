//! The earlier preset tables the configuration wizard offers: LLM providers
//! and the speech service's 1.0 voices.
use vstd::prelude::*;

verus! {

/// A ready-made LLM provider.
pub struct LlmPreset {
    pub name: &'static str,
    pub base_url: &'static str,
    pub default_model: &'static str,
    pub needs_key: bool,
}

/// A selectable voice.
pub struct VoicePreset {
    pub id: &'static str,
    pub name: &'static str,
    pub style: &'static str,
    /// Only offered when the language is "zh".
    pub zh_only: bool,
}

/// The LLM provider table: name, base URL, default model, key needed.
pub open spec fn llm_preset_table() -> Seq<(Seq<char>, Seq<char>, Seq<char>, bool)> {
    seq![
        ("DeepSeek"@, "https://api.deepseek.com"@, "deepseek-chat"@, true),
        ("Anthropic"@, "https://api.anthropic.com/v1"@, ""@, true),
        ("OpenAI"@, "https://api.openai.com/v1"@, "gpt-4o"@, true),
        ("Ollama (local)"@, "http://localhost:11434/v1"@, "llama3.2"@, false),
    ]
}

/// The fields of an LLM preset.
pub open spec fn llm_preset_fields(p: LlmPreset) -> (Seq<char>, Seq<char>, Seq<char>, bool) {
    (p.name@, p.base_url@, p.default_model@, p.needs_key)
}

/// The voice table: id, name, style, zh-only.
pub open spec fn voice_table() -> Seq<(Seq<char>, Seq<char>, Seq<char>, bool)> {
    seq![
        ("BV700_V2_streaming"@, "灿灿"@, "知性·女声"@, false),
        ("BV409_streaming"@, "TVB女声"@, "港剧·女声"@, false),
        ("BV405_streaming"@, "甜美桃子"@, "甜美·女声"@, false),
        ("BV406_V2_streaming"@, "湾湾小何"@, "温柔·台湾"@, false),
        ("BV407_V2_streaming"@, "呆萌川妹"@, "可爱·四川"@, false),
        ("BV424_streaming"@, "粤语小唐"@, "粤语·女声"@, false),
        ("BV428_streaming"@, "小猪佩奇"@, "卡通·趣味"@, false),
        ("BV426_streaming"@, "少儿故事"@, "温暖·少儿"@, false),
        ("BV520_streaming"@, "娇喘女声"@, "娇甜·女声"@, false),
        ("BV421_streaming"@, "庄周"@, "古风·男声"@, true),
        ("BV158_streaming"@, "唐僧"@, "西游·男声"@, true),
        ("BV159_streaming"@, "猪八戒"@, "西游·男声"@, true),
    ]
}

/// The fields of a voice preset.
pub open spec fn voice_fields(v: VoicePreset) -> (Seq<char>, Seq<char>, Seq<char>, bool) {
    (v.id@, v.name@, v.style@, v.zh_only)
}

/// The LLM provider presets.
pub fn llm_presets() -> (r: Vec<LlmPreset>)
    ensures
        r@.map_values(|p: LlmPreset| llm_preset_fields(p)) == llm_preset_table(),
{
    let r = vec![
        LlmPreset {
            name: "DeepSeek",
            base_url: "https://api.deepseek.com",
            default_model: "deepseek-chat",
            needs_key: true,
        },
        LlmPreset {
            name: "Anthropic",
            base_url: "https://api.anthropic.com/v1",
            default_model: "",
            needs_key: true,
        },
        LlmPreset {
            name: "OpenAI",
            base_url: "https://api.openai.com/v1",
            default_model: "gpt-4o",
            needs_key: true,
        },
        LlmPreset {
            name: "Ollama (local)",
            base_url: "http://localhost:11434/v1",
            default_model: "llama3.2",
            needs_key: false,
        },
    ];
    assert(r@.map_values(|p: LlmPreset| llm_preset_fields(p)) =~= llm_preset_table());
    r
}

/// The speech service's voices offered in the wizard.
pub fn doubao_voices() -> (r: Vec<VoicePreset>)
    ensures
        r@.map_values(|v: VoicePreset| voice_fields(v)) == voice_table(),
{
    let r = vec![
        VoicePreset { id: "BV700_V2_streaming", name: "灿灿", style: "知性·女声", zh_only: false },
        VoicePreset { id: "BV409_streaming", name: "TVB女声", style: "港剧·女声", zh_only: false },
        VoicePreset { id: "BV405_streaming", name: "甜美桃子", style: "甜美·女声", zh_only: false },
        VoicePreset { id: "BV406_V2_streaming", name: "湾湾小何", style: "温柔·台湾", zh_only: false },
        VoicePreset { id: "BV407_V2_streaming", name: "呆萌川妹", style: "可爱·四川", zh_only: false },
        VoicePreset { id: "BV424_streaming", name: "粤语小唐", style: "粤语·女声", zh_only: false },
        VoicePreset { id: "BV428_streaming", name: "小猪佩奇", style: "卡通·趣味", zh_only: false },
        VoicePreset { id: "BV426_streaming", name: "少儿故事", style: "温暖·少儿", zh_only: false },
        VoicePreset { id: "BV520_streaming", name: "娇喘女声", style: "娇甜·女声", zh_only: false },
        VoicePreset { id: "BV421_streaming", name: "庄周", style: "古风·男声", zh_only: true },
        VoicePreset { id: "BV158_streaming", name: "唐僧", style: "西游·男声", zh_only: true },
        VoicePreset { id: "BV159_streaming", name: "猪八戒", style: "西游·男声", zh_only: true },
    ];
    assert(r@.map_values(|v: VoicePreset| voice_fields(v)) =~= voice_table());
    r
}

} // verus!
