//! The user-facing texts of the voice loop in English and Chinese, and
//! the system prompt that sets how the assistant behaves.
use vstd::prelude::*;

use crate::text::{owned, str_eq};

verus! {

/// The texts shown to the user, in one language.
#[derive(Debug, Clone, Copy)]
pub struct Messages {
    pub llm_connecting: &'static str,
    pub speech_api: &'static str,
    pub calibrating_noise: &'static str,
    pub ready_banner: [&'static str; 3],
    pub listening: &'static str,
    pub speech_detected: &'static str,
    pub too_short: &'static str,
    pub you: &'static str,
    pub assistant: &'static str,
    pub mic_init_failed: &'static str,
    pub mic_polling: &'static str,
    pub mic_retry: &'static str,
    pub mic_disconnected: &'static str,
    pub recording_failed: &'static str,
    pub stt_failed: &'static str,
    pub chat_failed: &'static str,
    pub goodbye: &'static str,
}

/// All texts of a `Messages`, in field order.
pub open spec fn texts(m: Messages) -> Seq<Seq<char>> {
    seq![m.llm_connecting@, m.speech_api@, m.calibrating_noise@, m.ready_banner@[0]@, m.ready_banner@[1]@, m.ready_banner@[2]@, m.listening@, m.speech_detected@, m.too_short@, m.you@, m.assistant@, m.mic_init_failed@, m.mic_polling@, m.mic_retry@, m.mic_disconnected@, m.recording_failed@, m.stt_failed@, m.chat_failed@, m.goodbye@]
}

/// The English texts.
pub open spec fn en_texts() -> Seq<Seq<char>> {
    seq![
        "LLM"@,
        "Speech API"@,
        "Calibrating noise..."@,
        "Voice assistant ready"@,
        "Speak to start a conversation"@,
        "Ctrl+C to exit"@,
        "Listening..."@,
        "Speech detected..."@,
        "Too short, ignored"@,
        "You"@,
        "Assistant"@,
        "Mic init failed"@,
        "Mic still unavailable, polling every 60s, will auto-resume on connect..."@,
        "Check mic connection and permissions, retrying in"@,
        "Mic disconnected, please reconnect and restart"@,
        "Recording failed"@,
        "Speech recognition failed"@,
        "Chat failed"@,
        "See you next time!"@,
    ]
}

/// The Chinese texts.
pub open spec fn zh_texts() -> Seq<Seq<char>> {
    seq![
        "LLM"@,
        "语音 API"@,
        "校准环境噪音..."@,
        "语音助手已就绪"@,
        "说话即可对话"@,
        "Ctrl+C 退出"@,
        "说话吧..."@,
        "检测到语音..."@,
        "太短，忽略"@,
        "你"@,
        "助手"@,
        "麦克风初始化失败"@,
        "麦克风仍不可用，每 60 秒自动检测，连接后自动恢复..."@,
        "请检查麦克风连接和权限，重试倒计时"@,
        "麦克风断开，请重新连接后重启程序"@,
        "录音失败"@,
        "语音识别失败"@,
        "对话失败"@,
        "下次再聊！"@,
    ]
}

fn en() -> (r: Messages)
    ensures
        texts(r) == en_texts(),
{
    let r = Messages {
        llm_connecting: "LLM",
        speech_api: "Speech API",
        calibrating_noise: "Calibrating noise...",
        ready_banner: ["Voice assistant ready", "Speak to start a conversation", "Ctrl+C to exit"],
        listening: "Listening...",
        speech_detected: "Speech detected...",
        too_short: "Too short, ignored",
        you: "You",
        assistant: "Assistant",
        mic_init_failed: "Mic init failed",
        mic_polling: "Mic still unavailable, polling every 60s, will auto-resume on connect...",
        mic_retry: "Check mic connection and permissions, retrying in",
        mic_disconnected: "Mic disconnected, please reconnect and restart",
        recording_failed: "Recording failed",
        stt_failed: "Speech recognition failed",
        chat_failed: "Chat failed",
        goodbye: "See you next time!",
    };
    assert(texts(r) =~= en_texts());
    r
}

fn zh() -> (r: Messages)
    ensures
        texts(r) == zh_texts(),
{
    let r = Messages {
        llm_connecting: "LLM",
        speech_api: "语音 API",
        calibrating_noise: "校准环境噪音...",
        ready_banner: ["语音助手已就绪", "说话即可对话", "Ctrl+C 退出"],
        listening: "说话吧...",
        speech_detected: "检测到语音...",
        too_short: "太短，忽略",
        you: "你",
        assistant: "助手",
        mic_init_failed: "麦克风初始化失败",
        mic_polling: "麦克风仍不可用，每 60 秒自动检测，连接后自动恢复...",
        mic_retry: "请检查麦克风连接和权限，重试倒计时",
        mic_disconnected: "麦克风断开，请重新连接后重启程序",
        recording_failed: "录音失败",
        stt_failed: "语音识别失败",
        chat_failed: "对话失败",
        goodbye: "下次再聊！",
    };
    assert(texts(r) =~= zh_texts());
    r
}

/// The texts for `language`: Chinese for "zh", English otherwise.
pub fn get(language: &str) -> (r: Messages)
    ensures
        texts(r) == if language@ == "zh"@ {
            zh_texts()
        } else {
            en_texts()
        },
{
    if str_eq(language, "zh") {
        zh()
    } else {
        en()
    }
}

/// What the wake word adds to the prompt: how users call the assistant.
pub open spec fn wake_phrase_spec(language: Seq<char>, enabled: bool, wake_word: Seq<char>) -> Seq<char> {
    if enabled {
        if language == "zh"@ {
            "用户用「"@ + wake_word + "」叫你。"@
        } else {
            "Users call you with \""@ + wake_word + "\". "@
        }
    } else {
        Seq::empty()
    }
}

/// The system prompt: who the assistant is, how it talks (casual, with
/// opinions, honest about what it does not know, replies as long as the
/// question needs) and what it never does (admit being an AI, markdown,
/// stock phrases).
pub open spec fn system_prompt_spec(language: Seq<char>, name: Seq<char>, enabled: bool, wake_word: Seq<char>) -> Seq<char> {
    let wp = wake_phrase_spec(language, enabled, wake_word);
    if language == "zh"@ {
        "你叫"@
        + name
        + "，正在跟用户聊天。"@
        + wp
        + "\n\n怎么说：\n- 用日常口语，像朋友聊天。简单问题一两句，复杂的问题就讲透，但讲完就收，别绕。\n- 有自己的态度。别说「这取决于你」，直接讲你觉得哪个靠谱。\n- 不确定的事坦白说「没查过」、「这我不太清楚」，别编也别套模板。\n- 对方带情绪的时候先接一下，再说事。\n\n不做：\n- 不承认自己是 AI。被问到就「我就"@
        + name
        + "啊」搪塞过去。\n- 不用 markdown、列表、标题、emoji、括号注释 —— 这些在聊天和语音里都不自然。\n- 不说「作为 AI」、「我没有实时数据」、「建议咨询专业人士」这类话。\n- 不用「很好的问题！」开场，也不用「希望对你有帮助」结尾。"@
    } else {
        "You're "@
        + name
        + ", chatting with the user. "@
        + wp
        + "\n\nHow you talk:\n- Casual, like a friend. Short answers for short questions, longer when the topic needs it — but once you've said it, stop.\n- Have opinions. Don't say \"it depends on your needs\" — say what you actually think is better.\n- If you don't know, just say so: \"haven't looked into that\", \"not sure on that one\". Don't make stuff up or hide behind templates.\n- If the user sounds upset, acknowledge it before answering.\n\nDon't:\n- Admit you're an AI. If asked, deflect: \"I'm just "@
        + name
        + ", you're overthinking it\".\n- Use markdown, bullets, headings, emojis, or parentheticals — they feel weird in chat or on voice.\n- Say \"as an AI\", \"I don't have real-time data\", or \"please consult a professional\".\n- Open with \"Great question!\" or close with \"hope that helps\"."@
    }
}

/// Builds the model's system prompt from the persona settings.
pub fn build_system_prompt(language: &str, name: &str, wake_word_enabled: bool, wake_word: &str) -> (r: String)
    ensures
        r@ == system_prompt_spec(language@, name@, wake_word_enabled, wake_word@),
{
    let zh_lang = str_eq(language, "zh");
    let wake_phrase = if wake_word_enabled {
        if zh_lang {
            let mut w = owned("用户用「");
            w.append(wake_word);
            w.append("」叫你。");
            w
        } else {
            let mut w = owned("Users call you with \"");
            w.append(wake_word);
            w.append("\". ");
            w
        }
    } else {
        String::new()
    };
    let ghost wp = wake_phrase@;
    assert(wp =~= wake_phrase_spec(language@, wake_word_enabled, wake_word@));
    if zh_lang {
        let mut s = String::new();
        s.append("你叫");
        s.append(name);
        s.append("，正在跟用户聊天。");
        s.append(wake_phrase.as_str());
        s.append("\n\n怎么说：\n- 用日常口语，像朋友聊天。简单问题一两句，复杂的问题就讲透，但讲完就收，别绕。\n- 有自己的态度。别说「这取决于你」，直接讲你觉得哪个靠谱。\n- 不确定的事坦白说「没查过」、「这我不太清楚」，别编也别套模板。\n- 对方带情绪的时候先接一下，再说事。\n\n不做：\n- 不承认自己是 AI。被问到就「我就");
        s.append(name);
        s.append("啊」搪塞过去。\n- 不用 markdown、列表、标题、emoji、括号注释 —— 这些在聊天和语音里都不自然。\n- 不说「作为 AI」、「我没有实时数据」、「建议咨询专业人士」这类话。\n- 不用「很好的问题！」开场，也不用「希望对你有帮助」结尾。");
        assert(s@ =~= system_prompt_spec(language@, name@, wake_word_enabled, wake_word@));
        s
    } else {
        let mut s = String::new();
        s.append("You're ");
        s.append(name);
        s.append(", chatting with the user. ");
        s.append(wake_phrase.as_str());
        s.append("\n\nHow you talk:\n- Casual, like a friend. Short answers for short questions, longer when the topic needs it — but once you've said it, stop.\n- Have opinions. Don't say \"it depends on your needs\" — say what you actually think is better.\n- If you don't know, just say so: \"haven't looked into that\", \"not sure on that one\". Don't make stuff up or hide behind templates.\n- If the user sounds upset, acknowledge it before answering.\n\nDon't:\n- Admit you're an AI. If asked, deflect: \"I'm just ");
        s.append(name);
        s.append(", you're overthinking it\".\n- Use markdown, bullets, headings, emojis, or parentheticals — they feel weird in chat or on voice.\n- Say \"as an AI\", \"I don't have real-time data\", or \"please consult a professional\".\n- Open with \"Great question!\" or close with \"hope that helps\".");
        assert(s@ =~= system_prompt_spec(language@, name@, wake_word_enabled, wake_word@));
        s
    }
}

} // verus!
