//! Decisions of the resident voice loop (record → recognize → wake-word
//! rules → one exchange → bookkeeping). The loop itself, with its I/O,
//! runs in the program; every choice it makes is taken here.
use vstd::prelude::*;

use crate::domain::wake::{decide_at, decide_spec, DecisionView, WakeDecision, WakeState};
use crate::llm::ChatMessage;
use crate::log::now_millis;
use crate::speech::asr::{AsrContext, DialogTurn, Speaker};
use crate::text::{chars_of, decimal, owned, push_decimal, str_eq, trim, trim_str};
use crate::ui::i18n::{build_system_prompt, system_prompt_spec};
use crate::ui::theme::{BOLD, BR_CYAN, RESET};

verus! {

/// Dialog lines handed to recognition as context (user and assistant
/// alternating).
pub const ASR_DIALOG_CONTEXT_TURNS: usize = 6;

/// Longest pause between microphone retries, in seconds.
pub const MAX_MIC_BACKOFF_SECS: u64 = 60;

/// The pause before the next microphone attempt after a failed recording:
/// 1 s after the first failure, then doubling up to a minute.
pub fn next_mic_backoff(prev_secs: u64) -> (r: u64)
    ensures
        r == if prev_secs == 0 {
            1
        } else if prev_secs >= 30 {
            60
        } else {
            2 * prev_secs
        },
{
    if prev_secs == 0 {
        1
    } else if prev_secs >= 30 {
        MAX_MIC_BACKOFF_SECS
    } else {
        prev_secs * 2
    }
}

/// The pause after a failed calibration that waited `secs`: doubled, at
/// most a minute.
pub fn next_calibration_backoff(secs: u64) -> (r: u64)
    ensures
        r == if secs >= 30 {
            60
        } else {
            2 * secs
        },
{
    if secs >= 30 {
        MAX_MIC_BACKOFF_SECS
    } else {
        secs * 2
    }
}

/// Whether the retry notice should say the microphone is being polled
/// (the pause reached its cap) rather than announce the next retry.
pub fn mic_polling(backoff_secs: u64) -> (r: bool)
    ensures
        r == (backoff_secs >= 60),
{
    backoff_secs >= MAX_MIC_BACKOFF_SECS
}

/// What to do with a recognized utterance.
pub enum TurnPlan {
    /// Fewer than two characters: almost always noise; skipped, not logged.
    TooShort,
    /// Talk about this text.
    Chat(String),
    /// Just woken by the wake word alone: wait for the question.
    WokeOnly,
    /// Just woken, and the question followed the wake word.
    WokeAndChat(String),
    /// The user dismissed the assistant (logged as a skip).
    Deactivated,
    /// Asleep, and no wake word (logged as a skip).
    Ignored,
}

/// Mathematical form of a `TurnPlan`.
pub enum PlanView {
    TooShort,
    Chat(Seq<char>),
    WokeOnly,
    WokeAndChat(Seq<char>),
    Deactivated,
    Ignored,
}

impl View for TurnPlan {
    type V = PlanView;

    open spec fn view(&self) -> PlanView {
        match self {
            TurnPlan::TooShort => PlanView::TooShort,
            TurnPlan::Chat(t) => PlanView::Chat(t@),
            TurnPlan::WokeOnly => PlanView::WokeOnly,
            TurnPlan::WokeAndChat(t) => PlanView::WokeAndChat(t@),
            TurnPlan::Deactivated => PlanView::Deactivated,
            TurnPlan::Ignored => PlanView::Ignored,
        }
    }
}

/// The plan for `text` heard at `now`, and the wake state after it.
pub open spec fn plan_spec(
    s: WakeState,
    now: u64,
    enabled: bool,
    wake: Seq<char>,
    text: Seq<char>,
) -> (PlanView, WakeState) {
    if text.len() < 2 {
        (PlanView::TooShort, s)
    } else {
        let (d, s2) = decide_spec(s, now, enabled, wake, text);
        (
            match d {
                DecisionView::Proceed(t) => PlanView::Chat(t),
                DecisionView::JustWoke(rest) => if rest.len() < 2 {
                    PlanView::WokeOnly
                } else {
                    PlanView::WokeAndChat(rest)
                },
                DecisionView::Deactivate => PlanView::Deactivated,
                DecisionView::Ignore => PlanView::Ignored,
            },
            s2,
        )
    }
}

/// Decides what to do with the recognized `text`, heard at `now` (ms).
pub fn plan_turn_at(state: &mut WakeState, now: u64, enabled: bool, wake_word: &str, text: &str) -> (r:
    TurnPlan)
    ensures
        (r@, *final(state)) == plan_spec(*old(state), now, enabled, wake_word@, text@),
{
    let n = chars_of(text).len();
    if n < 2 {
        return TurnPlan::TooShort;
    }
    match decide_at(state, now, enabled, wake_word, text) {
        WakeDecision::Proceed(t) => TurnPlan::Chat(t),
        WakeDecision::JustWoke(rest) => {
            if chars_of(rest.as_str()).len() < 2 {
                TurnPlan::WokeOnly
            } else {
                TurnPlan::WokeAndChat(rest)
            }
        },
        WakeDecision::Deactivate => TurnPlan::Deactivated,
        WakeDecision::Ignore => TurnPlan::Ignored,
    }
}

/// Decides what to do with the recognized `text`, heard now (reads the
/// clock).
pub fn plan_turn(state: &mut WakeState, enabled: bool, wake_word: &str, text: &str) -> (r: TurnPlan)
    ensures
        exists|now: u64| (r@, *final(state)) == plan_spec(*old(state), now, enabled, wake_word@, text@),
{
    let now = now_millis();
    plan_turn_at(state, now, enabled, wake_word, text)
}

/// What the conversation keeps of the assistant's turn. Interrupted, only
/// what was actually spoken is kept, marked as cut off, so the model knows
/// where it stopped and why the user spoke.
pub open spec fn assistant_record_spec(reply: Seq<char>, spoken: Seq<char>, interrupted: bool) -> Seq<char> {
    if interrupted {
        if trim(spoken).len() == 0 {
            "（还没来得及回答就被用户打断了）"@
        } else {
            trim(spoken) + "（说到这里被用户打断了）"@
        }
    } else {
        reply
    }
}

pub fn assistant_record(reply: &str, spoken: &str, interrupted: bool) -> (r: String)
    ensures
        r@ == assistant_record_spec(reply@, spoken@, interrupted),
{
    if interrupted {
        let s = trim_str(spoken);
        if s.as_str().is_empty() {
            owned("（还没来得及回答就被用户打断了）")
        } else {
            let mut r = s;
            r.append("（说到这里被用户打断了）");
            r
        }
    } else {
        owned(reply)
    }
}

/// The synthesis instruction to send: the configured one, unless blank.
pub fn instruction_option(voice_instruction: &str) -> (r: Option<String>)
    ensures
        match r {
            Some(s) => s@ == voice_instruction@ && trim(voice_instruction@).len() > 0,
            None => trim(voice_instruction@).len() == 0,
        },
{
    let t = trim_str(voice_instruction);
    if t.as_str().is_empty() {
        None
    } else {
        Some(owned(voice_instruction))
    }
}

/// The hot words: the assistant's name, then the wake word when it is on
/// (once, when the two are the same).
pub open spec fn hotwords_spec(name: Seq<char>, wake_enabled: bool, wake_word: Seq<char>) -> Seq<Seq<char>> {
    if wake_enabled && wake_word != name {
        seq![name, wake_word]
    } else {
        seq![name]
    }
}

/// The dialog lines of the conversation: user and assistant messages, in
/// order (the system prompt and other roles left out).
pub open spec fn dialog_spec(history: Seq<ChatMessage>) -> Seq<(Speaker, Seq<char>)>
    decreases history.len(),
{
    if history.len() == 0 {
        Seq::empty()
    } else {
        let r = dialog_spec(history.drop_last());
        let m = history.last();
        if m.role@ == "user"@ {
            r.push((Speaker::User, m.content@))
        } else if m.role@ == "assistant"@ {
            r.push((Speaker::Bot, m.content@))
        } else {
            r
        }
    }
}

/// The last `n` items (all of them when fewer).
pub open spec fn last_n<A>(s: Seq<A>, n: nat) -> Seq<A> {
    if s.len() <= n {
        s
    } else {
        s.subrange(s.len() - n, s.len() as int)
    }
}

/// Recognition context: hot words (assistant name, wake word) and the last
/// six dialog lines.
pub fn asr_context(name: &str, wake_enabled: bool, wake_word: &str, history: &[ChatMessage]) -> (r:
    AsrContext)
    ensures
        r.words() == hotwords_spec(name@, wake_enabled, wake_word@),
        r.lines() == last_n(dialog_spec(history@), 6),
{
    let mut hotwords: Vec<String> = Vec::new();
    hotwords.push(owned(name));
    if wake_enabled && !str_eq(wake_word, name) {
        hotwords.push(owned(wake_word));
    }
    assert(hotwords@.map_values(|w: String| w@) =~= hotwords_spec(name@, wake_enabled, wake_word@));
    let mut dialog: Vec<DialogTurn> = Vec::new();
    let mut i: usize = 0;
    while i < history.len()
        invariant
            i <= history@.len(),
            dialog@.map_values(|t: DialogTurn| t@) == dialog_spec(history@.subrange(0, i as int)),
        decreases history.len() - i,
    {
        let ghost h = history@.subrange(0, i + 1);
        assert(h.drop_last() =~= history@.subrange(0, i as int));
        assert(h.last() == history@[i as int]);
        let ghost before = dialog@;
        let m = &history[i];
        if str_eq(m.role.as_str(), "user") {
            dialog.push(DialogTurn { speaker: Speaker::User, text: m.content.clone() });
            assert(dialog@.map_values(|t: DialogTurn| t@) =~= before.map_values(|t: DialogTurn| t@).push(
                (Speaker::User, m.content@),
            ));
        } else if str_eq(m.role.as_str(), "assistant") {
            dialog.push(DialogTurn { speaker: Speaker::Bot, text: m.content.clone() });
            assert(dialog@.map_values(|t: DialogTurn| t@) =~= before.map_values(|t: DialogTurn| t@).push(
                (Speaker::Bot, m.content@),
            ));
        }
        i += 1;
    }
    assert(history@.subrange(0, history@.len() as int) == history@);
    let n = dialog.len();
    let start = if n > ASR_DIALOG_CONTEXT_TURNS {
        n - ASR_DIALOG_CONTEXT_TURNS
    } else {
        0
    };
    let mut recent: Vec<DialogTurn> = Vec::new();
    let mut k: usize = start;
    while k < n
        invariant
            start <= k <= n,
            n == dialog@.len(),
            recent@.map_values(|t: DialogTurn| t@) == dialog@.map_values(|t: DialogTurn| t@).subrange(
                start as int,
                k as int,
            ),
        decreases n - k,
    {
        let ghost before = recent@;
        let t = DialogTurn { speaker: dialog[k].speaker, text: dialog[k].text.clone() };
        assert(t@ == dialog@[k as int]@);
        recent.push(t);
        assert(recent@.map_values(|t: DialogTurn| t@) =~= before.map_values(|t: DialogTurn| t@).push(
            t@,
        ));
        assert(recent@.map_values(|t: DialogTurn| t@) =~= dialog@.map_values(|t: DialogTurn| t@).subrange(
            start as int,
            k + 1,
        ));
        k += 1;
    }
    let r = AsrContext { hotwords, dialog: recent };
    assert(r.lines() =~= last_n(dialog_spec(history@), 6));
    r
}

/// The session id: "s" and the start time in Unix seconds.
pub fn session_id_for(secs: u64) -> (r: String)
    ensures
        r@ == "s"@ + decimal(secs as nat),
{
    let mut s = owned("s");
    push_decimal(&mut s, secs);
    s
}

/// The conversation a session starts with: the system prompt alone.
pub fn initial_history(language: &str, name: &str, wake_enabled: bool, wake_word: &str) -> (r: Vec<
    ChatMessage,
>)
    ensures
        r@.len() == 1,
        r@[0].role@ == "system"@,
        r@[0].content@ == system_prompt_spec(language@, name@, wake_enabled, wake_word@),
{
    let prompt = build_system_prompt(language, name, wake_enabled, wake_word);
    vec![ChatMessage { role: owned("system"), content: prompt }]
}

/// A message of the conversation.
pub fn message(role: &str, content: &str) -> (r: ChatMessage)
    ensures
        r.role@ == role@,
        r.content@ == content@,
{
    ChatMessage { role: owned(role), content: owned(content) }
}

/// The last message's content (what the assistant replied), empty when
/// there is none.
pub fn last_reply(history: &[ChatMessage]) -> (r: String)
    ensures
        r@ == if history@.len() == 0 {
            Seq::<char>::empty()
        } else {
            history@.last().content@
        },
{
    if history.len() == 0 {
        String::new()
    } else {
        history[history.len() - 1].content.clone()
    }
}

/// The banner line announcing a newer release and how to upgrade.
pub fn update_notice_line(version: &str, hint: &str) -> (r: String)
    ensures
        r@ == "   "@ + BR_CYAN@ + "⬆  发现新版本 v"@ + version@ + "，运行 "@ + BOLD@ + hint@ + RESET@
            + BR_CYAN@ + " 升级"@ + RESET@,
{
    let mut s = owned("   ");
    s.append(BR_CYAN);
    s.append("⬆  发现新版本 v");
    s.append(version);
    s.append("，运行 ");
    s.append(BOLD);
    s.append(hint);
    s.append(RESET);
    s.append(BR_CYAN);
    s.append(" 升级");
    s.append(RESET);
    s
}

} // verus!
