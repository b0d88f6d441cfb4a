//! Synthesis requests (HTTP chunked v3, `tts/unidirectional`).
//!
//! One request per sentence: a JSON document goes out; the reply is a
//! stream of JSON lines whose `data` fields hold base64 pieces of one MP3.
//! This module lays out the request, turns the reply's lines into audio,
//! and words the errors.
use base64::Engine;
use vstd::prelude::*;
use vstd::slice::slice_subrange;

use crate::json::{json_quote, json_quoted};
use crate::speech::doubao::hint_text;
use crate::speech::doubao::credentials_hint;
use crate::speech::tts::TtsOptions;
use crate::text::{
    chars_of, lines, lines_of, lossy_text, owned, push_signed, signed_decimal, string_of, trim,
    trim_str, utf8_lossy,
};

verus! {

// ─── Outside: base64 ────────────────────────────────────────────────────────

#[verifier::external_type_specification]
#[verifier::external_body]
pub struct ExDecodeError(base64::DecodeError);

/// What the standard base64 engine decodes `s` to; `None` when `s` is not
/// valid (padded, standard-alphabet) base64.
pub uninterp spec fn base64_decoded(s: Seq<char>) -> Option<Seq<u8>>;

/// `base64::engine::general_purpose::STANDARD.decode(s)`: the decoded
/// bytes, or the error when `s` is not valid base64.
#[verifier::external_body]
fn b64_decode(s: &str) -> (r: Result<Vec<u8>, base64::DecodeError>)
    ensures
        match r {
            Ok(v) => base64_decoded(s@) == Some(v@),
            Err(_) => base64_decoded(s@) is None,
        },
{
    base64::engine::general_purpose::STANDARD.decode(s)
}

/// The `Display` text of a base64 error; nothing is claimed of it.
#[verifier::external_body]
fn decode_error_text(e: &base64::DecodeError) -> String {
    e.to_string()
}

// ─── Instruction ────────────────────────────────────────────────────────────

/// The first `n` characters of `s` (all of it when shorter).
pub open spec fn first_n(s: Seq<char>, n: nat) -> Seq<char> {
    if s.len() <= n {
        s
    } else {
        s.subrange(0, n as int)
    }
}

/// The voice instruction: the configured style, then a note that this
/// sentence answers what the user said (that quote cut to 60 characters).
pub open spec fn instruction_spec(style: Option<Seq<char>>, context: Option<Seq<char>>) -> Seq<
    char,
> {
    let s = trim(
        match style {
            Some(x) => x,
            None => Seq::empty(),
        },
    );
    match context {
        Some(c) => if trim(c).len() > 0 {
            s + (if s.len() > 0 {
                "，"@
            } else {
                Seq::empty()
            }) + "这句是在回应对方刚说的「"@ + first_n(trim(c), 60) + "」，语气要承接上文"@
        } else {
            s
        },
        None => s,
    }
}

/// The view of an optional string.
pub open spec fn opt_chars(o: Option<String>) -> Option<Seq<char>> {
    match o {
        Some(s) => Some(s@),
        None => None,
    }
}

/// Voice instruction = configured style + a hint to carry on from the
/// quoted context (cut short so the instruction stays brief).
pub fn build_instruction(opts: &TtsOptions) -> (r: String)
    ensures
        r@ == instruction_spec(opt_chars(opts.instruction), opt_chars(opts.context_text)),
{
    let mut s = match &opts.instruction {
        Some(x) => trim_str(x.as_str()),
        None => String::new(),
    };
    match &opts.context_text {
        Some(c) => {
            let t = trim_str(c.as_str());
            if !t.as_str().is_empty() {
                let cs = chars_of(t.as_str());
                let cut = if cs.len() <= 60 {
                    cs.len()
                } else {
                    60
                };
                let short = string_of(cs.as_slice(), 0, cut);
                if !s.as_str().is_empty() {
                    s.append("，");
                }
                s.append("这句是在回应对方刚说的「");
                s.append(short.as_str());
                s.append("」，语气要承接上文");
                assert(s@ =~= instruction_spec(
                    opt_chars(opts.instruction),
                    opt_chars(opts.context_text),
                ));
            }
        },
        None => {},
    }
    s
}

// ─── Request ────────────────────────────────────────────────────────────────

/// The `additions` document: the instruction (when set), markdown and
/// emoji filtering on, and the shared section id (when given).
pub open spec fn additions_spec(section_id: Option<Seq<char>>, instruction: Seq<char>) -> Seq<
    char,
> {
    "{"@ + (if instruction.len() > 0 {
        "\"context_texts\":["@ + json_quoted(instruction) + "],"@
    } else {
        Seq::empty()
    }) + "\"disable_emoji_filter\":true,\"disable_markdown_filter\":true"@ + match section_id {
        Some(x) => ",\"section_id\":"@ + json_quoted(x),
        None => Seq::empty(),
    } + "}"@
}

/// The request: text, voice, MP3 at 24 kHz with the given speech rate,
/// and the additions serialized into a string (keys in sorted order, as
/// `serde_json` writes them).
pub open spec fn tts_request_spec(
    text: Seq<char>,
    voice: Seq<char>,
    rate: int,
    section_id: Option<Seq<char>>,
    instruction: Seq<char>,
) -> Seq<char> {
    "{\"req_params\":{\"additions\":"@ + json_quoted(additions_spec(section_id, instruction))
        + ",\"audio_params\":{\"format\":\"mp3\",\"sample_rate\":24000,\"speech_rate\":"@
        + signed_decimal(rate) + "},\"speaker\":"@ + json_quoted(voice) + ",\"text\":"@
        + json_quoted(text) + "},\"user\":{\"uid\":\"chatbot_cli\"}}"@
}

/// The JSON request for one sentence.
pub fn tts_request_json(
    text: &str,
    voice: &str,
    speech_rate: i32,
    opts: &TtsOptions,
    instruction: &str,
) -> (r: String)
    ensures
        r@ == tts_request_spec(
            text@,
            voice@,
            speech_rate as int,
            opt_chars(opts.section_id),
            instruction@,
        ),
{
    let mut a = owned("{");
    if !instruction.is_empty() {
        a.append("\"context_texts\":[");
        let q = json_quote(instruction);
        a.append(q.as_str());
        a.append("],");
    }
    a.append("\"disable_emoji_filter\":true,\"disable_markdown_filter\":true");
    match &opts.section_id {
        Some(x) => {
            a.append(",\"section_id\":");
            let q = json_quote(x.as_str());
            a.append(q.as_str());
        },
        None => {},
    }
    a.append("}");
    assert(a@ =~= additions_spec(opt_chars(opts.section_id), instruction@));
    let mut s = owned("{\"req_params\":{\"additions\":");
    let qa = json_quote(a.as_str());
    s.append(qa.as_str());
    s.append(",\"audio_params\":{\"format\":\"mp3\",\"sample_rate\":24000,\"speech_rate\":");
    push_signed(&mut s, speech_rate as i64);
    s.append("},\"speaker\":");
    let qv = json_quote(voice);
    s.append(qv.as_str());
    s.append(",\"text\":");
    let qt = json_quote(text);
    s.append(qt.as_str());
    s.append("},\"user\":{\"uid\":\"chatbot_cli\"}}");
    assert(s@ =~= tts_request_spec(
        text@,
        voice@,
        speech_rate as int,
        opt_chars(opts.section_id),
        instruction@,
    ));
    s
}

// ─── Reply ──────────────────────────────────────────────────────────────────

/// One line of the reply: `code` 0 (or 20000000) is success, `data` a
/// base64 piece of the audio.
#[derive(Debug, Clone)]
pub struct TtsChunk {
    pub code: i64,
    pub message: String,
    pub data: Option<String>,
}

/// Why synthesis failed.
#[derive(Debug, Clone)]
pub enum TtsError {
    /// Non-success HTTP status; the message says which and quotes the body.
    Http(String),
    /// A reply line with an error code.
    Code { code: i64, message: String, logid: String },
    /// An audio piece that is not valid base64 (the decoder's message).
    Base64(String),
    /// The reply held no audio.
    Empty { logid: String },
}

impl TtsError {
    /// The error's message.
    pub fn to_string(&self) -> (r: String)
        ensures
            r@ == match self {
                TtsError::Http(m) => m@,
                TtsError::Code { code, message, logid } => "TTS error code="@ + signed_decimal(
                    *code as int,
                ) + " msg="@ + message@ + " (x-tt-logid="@ + logid@ + ")"@,
                TtsError::Base64(m) => "TTS audio base64 decode failed: "@ + m@,
                TtsError::Empty { logid } => "TTS 返回空音频 (x-tt-logid="@ + logid@ + ")"@,
            },
    {
        match self {
            TtsError::Http(m) => m.clone(),
            TtsError::Code { code, message, logid } => {
                let mut s = owned("TTS error code=");
                push_signed(&mut s, *code);
                s.append(" msg=");
                s.append(message.as_str());
                s.append(" (x-tt-logid=");
                s.append(logid.as_str());
                s.append(")");
                s
            },
            TtsError::Base64(m) => {
                let mut s = owned("TTS audio base64 decode failed: ");
                s.append(m.as_str());
                s
            },
            TtsError::Empty { logid } => {
                let mut s = owned("TTS 返回空音频 (x-tt-logid=");
                s.append(logid.as_str());
                s.append(")");
                s
            },
        }
    }
}

/// The non-blank lines, trimmed.
pub open spec fn nonblank(ls: Seq<Seq<char>>) -> Seq<Seq<char>>
    decreases ls.len(),
{
    if ls.len() == 0 {
        Seq::empty()
    } else {
        let r = nonblank(ls.drop_last());
        let t = trim(ls.last());
        if t.len() == 0 {
            r
        } else {
            r.push(t)
        }
    }
}

/// The reply's lines (decoded leniently as UTF-8), trimmed, blank ones
/// left out; each should hold one JSON object.
pub fn reply_lines(raw: &[u8]) -> (r: Vec<String>)
    ensures
        r@.map_values(|l: String| l@) == nonblank(lines_of(lossy_text(raw@))),
{
    let text = utf8_lossy(raw);
    let all = lines(text.as_str());
    let ghost ls = lines_of(text@);
    let mut out: Vec<String> = Vec::new();
    let mut i: usize = 0;
    while i < all.len()
        invariant
            i <= all@.len(),
            all@.map_values(|l: String| l@) == ls,
            out@.map_values(|l: String| l@) == nonblank(ls.subrange(0, i as int)),
        decreases all.len() - i,
    {
        assert(ls.subrange(0, i + 1).drop_last() == ls.subrange(0, i as int));
        assert(ls.subrange(0, i + 1).last() == all@[i as int]@);
        let t = trim_str(all[i].as_str());
        if !t.as_str().is_empty() {
            let ghost before = out@;
            out.push(t);
            assert(out@.map_values(|l: String| l@) =~= before.map_values(|l: String| l@).push(
                t@,
            ));
        }
        i += 1;
    }
    assert(ls.subrange(0, all@.len() as int) == ls);
    out
}

/// Where collecting the audio pieces ends.
pub enum Collected {
    /// All lines read; the decoded audio, in order.
    Audio(Seq<u8>),
    /// The first line with an error code.
    Code(i64, Seq<char>),
    /// The first piece that is not valid base64.
    BadData,
}

/// A success code.
pub open spec fn code_ok(code: i64) -> bool {
    code == 0 || code == 20_000_000
}

/// Reads the lines from `chunks[i]` on, with the audio `acc` so far.
/// Lines that did not parse (`None`) are skipped.
pub open spec fn collect_from(chunks: Seq<Option<TtsChunk>>, i: int, acc: Seq<u8>) -> Collected
    decreases chunks.len() - i,
{
    if i < 0 || i >= chunks.len() {
        Collected::Audio(acc)
    } else {
        match chunks[i] {
            None => collect_from(chunks, i + 1, acc),
            Some(c) => if !code_ok(c.code) {
                Collected::Code(c.code, c.message@)
            } else {
                match c.data {
                    Some(d) => if d@.len() > 0 {
                        match base64_decoded(d@) {
                            Some(b) => collect_from(chunks, i + 1, acc + b),
                            None => Collected::BadData,
                        }
                    } else {
                        collect_from(chunks, i + 1, acc)
                    },
                    None => collect_from(chunks, i + 1, acc),
                }
            },
        }
    }
}

/// The MP3 out of the reply's lines, in order (`None` for a line that did
/// not parse as a chunk, which is skipped). The first error code ends it;
/// so does a piece that is not base64; no audio at all is an error too.
pub fn collect_audio(chunks: &[Option<TtsChunk>], logid: &str) -> (r: Result<Vec<u8>, TtsError>)
    ensures
        match r {
            Ok(v) => collect_from(chunks@, 0, Seq::empty()) == Collected::Audio(v@) && v@.len()
                > 0,
            Err(TtsError::Code { code, message, logid: l }) => collect_from(
                chunks@,
                0,
                Seq::empty(),
            ) == Collected::Code(code, message@) && l@ == logid@,
            Err(TtsError::Base64(_)) => collect_from(chunks@, 0, Seq::empty())
                == Collected::BadData,
            Err(TtsError::Empty { logid: l }) => collect_from(chunks@, 0, Seq::empty())
                == Collected::Audio(Seq::empty()) && l@ == logid@,
            Err(TtsError::Http(_)) => false,
        },
{
    let mut audio: Vec<u8> = Vec::new();
    let mut i: usize = 0;
    while i < chunks.len()
        invariant
            i <= chunks@.len(),
            collect_from(chunks@, 0, Seq::empty()) == collect_from(chunks@, i as int, audio@),
        decreases chunks.len() - i,
    {
        match &chunks[i] {
            None => {},
            Some(c) => {
                if c.code != 0 && c.code != 20_000_000 {
                    return Err(
                        TtsError::Code {
                            code: c.code,
                            message: c.message.clone(),
                            logid: owned(logid),
                        },
                    );
                }
                match &c.data {
                    Some(d) => {
                        if !d.as_str().is_empty() {
                            match b64_decode(d.as_str()) {
                                Ok(bytes) => {
                                    let ghost before = audio@;
                                    let mut k: usize = 0;
                                    while k < bytes.len()
                                        invariant
                                            k <= bytes@.len(),
                                            audio@ == before + bytes@.subrange(0, k as int),
                                        decreases bytes.len() - k,
                                    {
                                        audio.push(bytes[k]);
                                        assert(bytes@.subrange(0, k + 1) =~= bytes@.subrange(
                                            0,
                                            k as int,
                                        ).push(bytes@[k as int]));
                                        assert(audio@ =~= before + bytes@.subrange(0, k + 1));
                                        k += 1;
                                    }
                                    assert(bytes@.subrange(0, bytes@.len() as int) == bytes@);
                                },
                                Err(e) => {
                                    return Err(TtsError::Base64(decode_error_text(&e)));
                                },
                            }
                        }
                    },
                    None => {},
                }
            },
        }
        i += 1;
    }
    if audio.len() == 0 {
        assert(audio@ =~= Seq::<u8>::empty());
        return Err(TtsError::Empty { logid: owned(logid) });
    }
    Ok(audio)
}

/// The error for a non-success HTTP status: up to 300 bytes of the body
/// quoted; 401 and 403 point at the credentials. `status` is the status as
/// displayed ("403 Forbidden").
pub open spec fn http_error_spec(code: u16, status: Seq<char>, logid: Seq<char>, body: Seq<u8>) -> Seq<
    char,
> {
    let snippet = lossy_text(
        if body.len() <= 300 {
            body
        } else {
            body.subrange(0, 300)
        },
    );
    if code == 401 || code == 403 {
        "TTS HTTP "@ + status + " (x-tt-logid="@ + logid + ")："@ + hint_text() + "
"@ + snippet
    } else {
        "TTS HTTP "@ + status + " (x-tt-logid="@ + logid + ") "@ + snippet
    }
}

pub fn http_error(code: u16, status: &str, logid: &str, body: &[u8]) -> (r: TtsError)
    ensures
        r matches TtsError::Http(m) && m@ == http_error_spec(code, status@, logid@, body@),
{
    let cut = if body.len() <= 300 {
        body.len()
    } else {
        300
    };
    let head = slice_subrange(body, 0, cut);
    assert(body@.len() <= 300 ==> head@ == body@);
    let snippet = utf8_lossy(head);
    let mut s = owned("TTS HTTP ");
    s.append(status);
    s.append(" (x-tt-logid=");
    s.append(logid);
    if code == 401 || code == 403 {
        s.append(")：");
        s.append(credentials_hint());
        s.append("
");
    } else {
        s.append(") ");
    }
    s.append(snippet.as_str());
    TtsError::Http(s)
}

} // verus!
