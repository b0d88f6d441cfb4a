//! Built-in choices: LLM providers and the speech service's 2.0 voices, and
//! the mapping from 1.0 voices to their closest 2.0 voice.
use vstd::prelude::*;

use crate::text::{chars_of, ends_with, has_prefix, has_suffix, starts_with, str_eq};

verus! {

/// A ready-made LLM provider.
pub struct LlmPreset {
    pub name: &'static str,
    pub base_url: &'static str,
    pub default_model: &'static str,
    pub needs_key: bool,
}

/// A selectable voice.
pub struct VoicePreset {
    pub id: &'static str,
    pub name: &'static str,
    pub style: &'static str,
    /// Only offered when the language is "zh".
    pub zh_only: bool,
}

/// Default voice: Xiaohe 2.0, the 2.0 successor of the 1.0 factory default.
pub const DEFAULT_VOICE: &'static str = "zh_female_xiaohe_uranus_bigtts";

/// The LLM provider table: name, base URL, default model, key needed.
pub open spec fn llm_preset_table() -> Seq<(Seq<char>, Seq<char>, Seq<char>, bool)> {
    seq![
        ("DeepSeek"@, "https://api.deepseek.com/v1"@, "deepseek-chat"@, true),
        ("Anthropic"@, "https://api.anthropic.com/v1"@, ""@, true),
        ("OpenAI"@, "https://api.openai.com/v1"@, "gpt-4o"@, true),
        ("Ollama (local)"@, "http://localhost:11434/v1"@, "llama3.2"@, false),
    ]
}

/// The fields of an LLM preset.
pub open spec fn llm_preset_fields(p: LlmPreset) -> (Seq<char>, Seq<char>, Seq<char>, bool) {
    (p.name@, p.base_url@, p.default_model@, p.needs_key)
}

/// The voice table: id, name, style, zh-only.
pub open spec fn voice_table() -> Seq<(Seq<char>, Seq<char>, Seq<char>, bool)> {
    seq![
        ("zh_female_xiaohe_uranus_bigtts"@, "小何"@, "台湾腔·女声"@, false),
        ("zh_female_vv_uranus_bigtts"@, "Vivi"@, "通用·女声"@, false),
        ("zh_female_cancan_uranus_bigtts"@, "知性灿灿"@, "知性·女声"@, false),
        ("zh_female_tianmeitaozi_uranus_bigtts"@, "甜美桃子"@, "甜美·女声"@, false),
        ("zh_female_shuangkuaisisi_uranus_bigtts"@, "爽快思思"@, "爽快·女声"@, true),
        ("zh_female_qingxinnvsheng_uranus_bigtts"@, "清新女声"@, "清新·女声"@, true),
        ("zh_male_m191_uranus_bigtts"@, "云舟"@, "沉稳·男声"@, false),
        ("zh_male_taocheng_uranus_bigtts"@, "小天"@, "阳光·男声"@, false),
        ("zh_male_ruyaqingnian_uranus_bigtts"@, "儒雅青年"@, "儒雅·男声"@, true),
        ("zh_male_shaonianzixin_uranus_bigtts"@, "少年梓辛"@, "少年·男声"@, true),
        ("zh_female_tvbnv_uranus_bigtts"@, "TVB女声"@, "港剧·女声"@, true),
        ("zh_female_peiqi_uranus_bigtts"@, "佩奇猪"@, "卡通·趣味"@, true),
        ("zh_male_sunwukong_uranus_bigtts"@, "猴哥"@, "西游·男声"@, true),
        ("zh_female_xiaoxue_uranus_bigtts"@, "儿童绘本"@, "温暖·少儿"@, true),
        ("en_male_tim_uranus_bigtts"@, "Tim"@, "美式·男声"@, false),
        ("en_female_dacey_uranus_bigtts"@, "Dacey"@, "美式·女声"@, false),
    ]
}

/// The fields of a voice preset.
pub open spec fn voice_fields(v: VoicePreset) -> (Seq<char>, Seq<char>, Seq<char>, bool) {
    (v.id@, v.name@, v.style@, v.zh_only)
}

/// 1.0 voice → closest 2.0 voice. The 1.0 factory default follows the new
/// default rather than its nominal 2.0 twin.
pub open spec fn legacy_voice_map() -> Seq<(Seq<char>, Seq<char>)> {
    seq![
        ("BV700_V2_streaming"@, DEFAULT_VOICE@),
        ("BV700_streaming"@, "zh_female_cancan_uranus_bigtts"@),
        ("zh_female_wanwanxiaohe_moon_bigtts"@, "zh_female_xiaohe_uranus_bigtts"@),
        ("BV405_streaming"@, "zh_female_tianmeitaozi_uranus_bigtts"@),
        ("BV406_V2_streaming"@, "zh_female_xiaohe_uranus_bigtts"@),
        ("BV409_streaming"@, "zh_female_tvbnv_uranus_bigtts"@),
        ("BV428_streaming"@, "zh_female_peiqi_uranus_bigtts"@),
        ("BV426_streaming"@, "zh_female_xiaoxue_uranus_bigtts"@),
        ("zh_female_cancan_mars_bigtts"@, "zh_female_cancan_uranus_bigtts"@),
        ("zh_female_tianmeitaozi_mars_bigtts"@, "zh_female_tianmeitaozi_uranus_bigtts"@),
        ("zh_female_shuangkuaisisi_moon_bigtts"@, "zh_female_shuangkuaisisi_uranus_bigtts"@),
        ("zh_male_shaonianzixin_moon_bigtts"@, "zh_male_shaonianzixin_uranus_bigtts"@),
    ]
}

/// The target of the first entry of `m` whose key is `v`.
pub open spec fn lookup(m: Seq<(Seq<char>, Seq<char>)>, v: Seq<char>) -> Option<Seq<char>>
    decreases m.len(),
{
    if m.len() == 0 {
        None
    } else if m[0].0 == v {
        Some(m[0].1)
    } else {
        lookup(m.drop_first(), v)
    }
}

/// Whether a voice id looks like a 1.0 voice.
pub open spec fn looks_v1(v: Seq<char>) -> bool {
    has_prefix(v, "BV"@) || has_suffix(v, "_mars_bigtts"@) || has_suffix(v, "_moon_bigtts"@)
        || has_suffix(v, "_streaming"@)
}

/// The 2.0 voice a voice id migrates to, if it is a 1.0 voice.
pub open spec fn voice_migration(v: Seq<char>) -> Option<Seq<char>> {
    if v.len() == 0 || has_suffix(v, "_uranus_bigtts"@) || !looks_v1(v) {
        None
    } else {
        match lookup(legacy_voice_map(), v) {
            Some(t) => Some(t),
            None => Some(DEFAULT_VOICE@),
        }
    }
}

/// The LLM provider presets.
pub fn llm_presets() -> (r: Vec<LlmPreset>)
    ensures
        r@.map_values(|p: LlmPreset| llm_preset_fields(p)) == llm_preset_table(),
{
    let r = vec![
        LlmPreset {
            name: "DeepSeek",
            base_url: "https://api.deepseek.com/v1",
            default_model: "deepseek-chat",
            needs_key: true,
        },
        LlmPreset {
            name: "Anthropic",
            base_url: "https://api.anthropic.com/v1",
            default_model: "",
            needs_key: true,
        },
        LlmPreset {
            name: "OpenAI",
            base_url: "https://api.openai.com/v1",
            default_model: "gpt-4o",
            needs_key: true,
        },
        LlmPreset {
            name: "Ollama (local)",
            base_url: "http://localhost:11434/v1",
            default_model: "llama3.2",
            needs_key: false,
        },
    ];
    assert(r@.map_values(|p: LlmPreset| llm_preset_fields(p)) =~= llm_preset_table());
    r
}

/// The speech service's 2.0 voices offered in the wizard.
pub fn doubao_voices() -> (r: Vec<VoicePreset>)
    ensures
        r@.map_values(|v: VoicePreset| voice_fields(v)) == voice_table(),
{
    let r = vec![
        VoicePreset { id: "zh_female_xiaohe_uranus_bigtts", name: "小何", style: "台湾腔·女声", zh_only: false },
        VoicePreset { id: "zh_female_vv_uranus_bigtts", name: "Vivi", style: "通用·女声", zh_only: false },
        VoicePreset { id: "zh_female_cancan_uranus_bigtts", name: "知性灿灿", style: "知性·女声", zh_only: false },
        VoicePreset { id: "zh_female_tianmeitaozi_uranus_bigtts", name: "甜美桃子", style: "甜美·女声", zh_only: false },
        VoicePreset { id: "zh_female_shuangkuaisisi_uranus_bigtts", name: "爽快思思", style: "爽快·女声", zh_only: true },
        VoicePreset { id: "zh_female_qingxinnvsheng_uranus_bigtts", name: "清新女声", style: "清新·女声", zh_only: true },
        VoicePreset { id: "zh_male_m191_uranus_bigtts", name: "云舟", style: "沉稳·男声", zh_only: false },
        VoicePreset { id: "zh_male_taocheng_uranus_bigtts", name: "小天", style: "阳光·男声", zh_only: false },
        VoicePreset { id: "zh_male_ruyaqingnian_uranus_bigtts", name: "儒雅青年", style: "儒雅·男声", zh_only: true },
        VoicePreset { id: "zh_male_shaonianzixin_uranus_bigtts", name: "少年梓辛", style: "少年·男声", zh_only: true },
        VoicePreset { id: "zh_female_tvbnv_uranus_bigtts", name: "TVB女声", style: "港剧·女声", zh_only: true },
        VoicePreset { id: "zh_female_peiqi_uranus_bigtts", name: "佩奇猪", style: "卡通·趣味", zh_only: true },
        VoicePreset { id: "zh_male_sunwukong_uranus_bigtts", name: "猴哥", style: "西游·男声", zh_only: true },
        VoicePreset { id: "zh_female_xiaoxue_uranus_bigtts", name: "儿童绘本", style: "温暖·少儿", zh_only: true },
        VoicePreset { id: "en_male_tim_uranus_bigtts", name: "Tim", style: "美式·男声", zh_only: false },
        VoicePreset { id: "en_female_dacey_uranus_bigtts", name: "Dacey", style: "美式·女声", zh_only: false },
    ];
    assert(r@.map_values(|v: VoicePreset| voice_fields(v)) =~= voice_table());
    r
}

/// Whether the voice id is a 1.0 voice (BV series, `_mars_bigtts`,
/// `_moon_bigtts`, `_streaming`); if so, the 2.0 voice it migrates to.
/// 2.0 voices and cloned voices (`S_...`) are left alone.
pub fn migrate_voice(voice_type: &str) -> (r: Option<&'static str>)
    ensures
        match r {
            Some(t) => voice_migration(voice_type@) == Some(t@),
            None => voice_migration(voice_type@) is None,
        },
{
    let v = chars_of(voice_type);
    let uranus = chars_of("_uranus_bigtts");
    if v.len() == 0 || ends_with(v.as_slice(), uranus.as_slice()) {
        return None;
    }
    let bv = chars_of("BV");
    let mars = chars_of("_mars_bigtts");
    let moon = chars_of("_moon_bigtts");
    let streaming = chars_of("_streaming");
    let v1 = starts_with(v.as_slice(), bv.as_slice()) || ends_with(v.as_slice(), mars.as_slice())
        || ends_with(v.as_slice(), moon.as_slice()) || ends_with(
        v.as_slice(),
        streaming.as_slice(),
    );
    if !v1 {
        return None;
    }
    let map: [(&'static str, &'static str); 12] = [
        ("BV700_V2_streaming", DEFAULT_VOICE),
        ("BV700_streaming", "zh_female_cancan_uranus_bigtts"),
        ("zh_female_wanwanxiaohe_moon_bigtts", "zh_female_xiaohe_uranus_bigtts"),
        ("BV405_streaming", "zh_female_tianmeitaozi_uranus_bigtts"),
        ("BV406_V2_streaming", "zh_female_xiaohe_uranus_bigtts"),
        ("BV409_streaming", "zh_female_tvbnv_uranus_bigtts"),
        ("BV428_streaming", "zh_female_peiqi_uranus_bigtts"),
        ("BV426_streaming", "zh_female_xiaoxue_uranus_bigtts"),
        ("zh_female_cancan_mars_bigtts", "zh_female_cancan_uranus_bigtts"),
        ("zh_female_tianmeitaozi_mars_bigtts", "zh_female_tianmeitaozi_uranus_bigtts"),
        ("zh_female_shuangkuaisisi_moon_bigtts", "zh_female_shuangkuaisisi_uranus_bigtts"),
        ("zh_male_shaonianzixin_moon_bigtts", "zh_male_shaonianzixin_uranus_bigtts"),
    ];
    let ghost m = map@.map_values(|e: (&'static str, &'static str)| (e.0@, e.1@));
    assert(m =~= legacy_voice_map());
    assert(m.subrange(0, 12) == m);
    assert(voice_migration(voice_type@) == match lookup(m, voice_type@) {
        Some(t) => Some(t),
        None => Some(DEFAULT_VOICE@),
    });
    let mut k: usize = 0;
    while k < 12
        invariant
            k <= 12,
            m == map@.map_values(|e: (&'static str, &'static str)| (e.0@, e.1@)),
            m.len() == 12,
            voice_migration(voice_type@) == match lookup(m, voice_type@) {
                Some(t) => Some(t),
                None => Some(DEFAULT_VOICE@),
            },
            lookup(m, voice_type@) == lookup(m.subrange(k as int, 12), voice_type@),
        decreases 12 - k,
    {
        let (old_v, new_v) = map[k];
        assert(m.subrange(k as int, 12)[0] == (old_v@, new_v@));
        assert(m.subrange(k as int, 12).drop_first() == m.subrange(k + 1, 12));
        if str_eq(old_v, voice_type) {
            return Some(new_v);
        }
        k += 1;
    }
    Some(DEFAULT_VOICE)
}

/// Whether `id` is one of the offered voices.
pub open spec fn offered_voice(id: Seq<char>) -> bool {
    exists|i: int| 0 <= i < voice_table().len() && #[trigger] voice_table()[i].0 == id
}

/// A literal voice id that ends in `_uranus_bigtts`.
proof fn lemma_uranus(t: &str)
    requires
        t@ == "zh_female_xiaohe_uranus_bigtts"@ || t@ == "zh_female_cancan_uranus_bigtts"@
            || t@ == "zh_female_tianmeitaozi_uranus_bigtts"@
            || t@ == "zh_female_tvbnv_uranus_bigtts"@ || t@ == "zh_female_peiqi_uranus_bigtts"@
            || t@ == "zh_female_xiaoxue_uranus_bigtts"@
            || t@ == "zh_female_shuangkuaisisi_uranus_bigtts"@
            || t@ == "zh_male_shaonianzixin_uranus_bigtts"@,
    ensures
        has_suffix(t@, "_uranus_bigtts"@),
{
    reveal_strlit("_uranus_bigtts");
    reveal_strlit("zh_female_xiaohe_uranus_bigtts");
    reveal_strlit("zh_female_cancan_uranus_bigtts");
    reveal_strlit("zh_female_tianmeitaozi_uranus_bigtts");
    reveal_strlit("zh_female_tvbnv_uranus_bigtts");
    reveal_strlit("zh_female_peiqi_uranus_bigtts");
    reveal_strlit("zh_female_xiaoxue_uranus_bigtts");
    reveal_strlit("zh_female_shuangkuaisisi_uranus_bigtts");
    reveal_strlit("zh_male_shaonianzixin_uranus_bigtts");
    let n = t@.len();
    assert(t@.subrange(n - 14, n as int) =~= "_uranus_bigtts"@);
}

/// Every voice a 1.0 voice migrates to is one of the offered 2.0 voices,
/// so migrating it again leaves it alone.
pub proof fn law_voice_migration_lands_on_offered_voice(v: Seq<char>)
    ensures
        voice_migration(v) matches Some(t) ==> offered_voice(t) && has_suffix(
            t,
            "_uranus_bigtts"@,
        ) && voice_migration(t) is None,
{
    reveal_with_fuel(lookup, 13);
    let m = legacy_voice_map();
    assert(DEFAULT_VOICE@ == "zh_female_xiaohe_uranus_bigtts"@);
    if let Some(t) = voice_migration(v) {
        let tbl = voice_table();
        if t == "zh_female_xiaohe_uranus_bigtts"@ {
            lemma_uranus("zh_female_xiaohe_uranus_bigtts");
            assert(tbl[0].0 == t);
        } else if t == "zh_female_cancan_uranus_bigtts"@ {
            lemma_uranus("zh_female_cancan_uranus_bigtts");
            assert(tbl[2].0 == t);
        } else if t == "zh_female_tianmeitaozi_uranus_bigtts"@ {
            lemma_uranus("zh_female_tianmeitaozi_uranus_bigtts");
            assert(tbl[3].0 == t);
        } else if t == "zh_female_tvbnv_uranus_bigtts"@ {
            lemma_uranus("zh_female_tvbnv_uranus_bigtts");
            assert(tbl[10].0 == t);
        } else if t == "zh_female_peiqi_uranus_bigtts"@ {
            lemma_uranus("zh_female_peiqi_uranus_bigtts");
            assert(tbl[11].0 == t);
        } else if t == "zh_female_xiaoxue_uranus_bigtts"@ {
            lemma_uranus("zh_female_xiaoxue_uranus_bigtts");
            assert(tbl[13].0 == t);
        } else if t == "zh_female_shuangkuaisisi_uranus_bigtts"@ {
            lemma_uranus("zh_female_shuangkuaisisi_uranus_bigtts");
            assert(tbl[4].0 == t);
        } else {
            assert(t == "zh_male_shaonianzixin_uranus_bigtts"@);
            lemma_uranus("zh_male_shaonianzixin_uranus_bigtts");
            assert(tbl[9].0 == t);
        }
    }
}

} // verus!
