//! Recognition requests (WebSocket v3, `sauc/bigmodel_async`).
//!
//! The local voice detector has already cut one utterance; the whole PCM
//! is sent as 200 ms frames, the last one flagged, and the server's final
//! (second-pass) result is kept. This module holds what the library
//! decides about that exchange: the request document, the audio framing,
//! which server frames carry text, and the error messages.
use vstd::prelude::*;
use vstd::slice::slice_subrange;

use crate::json::{json_quote, json_quoted};
use crate::speech::asr::{AsrContext, Speaker};
use crate::speech::doubao::{credentials_hint, hint_text};
use crate::speech::doubao::protocol::{
    decode_spec, encode, frame_bytes, DecodedView, ServerFrame, COMP_NONE, FLAG_LAST, FLAG_NONE,
    MSG_AUDIO_ONLY, MSG_FULL_SERVER, SER_NONE,
};
use crate::text::{chars_of, owned, string_of, trim, trim_str};

verus! {

// ─── Audio ──────────────────────────────────────────────────────────────────

/// Bytes per audio frame: 200 ms of 16 kHz 16-bit mono.
pub const CHUNK_BYTES: usize = 6400;

/// The raw PCM of a standard 44-byte-header WAV file; other data as it is.
pub open spec fn pcm_of(data: Seq<u8>) -> Seq<u8> {
    if data.len() >= 44 && data.subrange(0, 4) == seq![0x52u8, 0x49u8, 0x46u8, 0x46u8]
        && data.subrange(8, 12) == seq![0x57u8, 0x41u8, 0x56u8, 0x45u8] {
        data.subrange(44, data.len() as int)
    } else {
        data
    }
}

/// The service wants raw PCM: drops the WAV header ("RIFF" .. "WAVE")
/// when there is one.
pub fn strip_wav_header(data: &[u8]) -> (r: &[u8])
    ensures
        r@ == pcm_of(data@),
{
    if data.len() >= 44 && data[0] == 0x52 && data[1] == 0x49 && data[2] == 0x46 && data[3] == 0x46
        && data[8] == 0x57 && data[9] == 0x41 && data[10] == 0x56 && data[11] == 0x45 {
        assert(data@.subrange(0, 4) =~= seq![0x52u8, 0x49u8, 0x46u8, 0x46u8]);
        assert(data@.subrange(8, 12) =~= seq![0x57u8, 0x41u8, 0x56u8, 0x45u8]);
        slice_subrange(data, 44, data.len())
    } else {
        proof {
            if data@.len() >= 44 && data@.subrange(0, 4) == seq![0x52u8, 0x49u8, 0x46u8, 0x46u8]
                && data@.subrange(8, 12) == seq![0x57u8, 0x41u8, 0x56u8, 0x45u8] {
                assert(data@.subrange(0, 4)[0] == data@[0]);
                assert(data@.subrange(0, 4)[1] == data@[1]);
                assert(data@.subrange(0, 4)[2] == data@[2]);
                assert(data@.subrange(0, 4)[3] == data@[3]);
                assert(data@.subrange(8, 12)[0] == data@[8]);
                assert(data@.subrange(8, 12)[1] == data@[9]);
                assert(data@.subrange(8, 12)[2] == data@[10]);
                assert(data@.subrange(8, 12)[3] == data@[11]);
            }
        }
        data
    }
}

/// Number of audio frames for `n` bytes: one per started chunk, and one
/// (empty) frame when there is no audio at all.
pub open spec fn frame_count(n: nat) -> nat {
    if n == 0 {
        1
    } else {
        ((n + 6399) / 6400) as nat
    }
}

/// The `i`-th chunk of the PCM.
pub open spec fn chunk_of(pcm: Seq<u8>, i: int) -> Seq<u8> {
    let end = if (i + 1) * 6400 <= pcm.len() {
        (i + 1) * 6400
    } else {
        pcm.len() as int
    };
    pcm.subrange(i * 6400, end)
}

/// The flags of frame `i`: only the last one is flagged last.
pub open spec fn chunk_flags(n: nat, i: int) -> u8 {
    if i + 1 == frame_count(n) {
        FLAG_LAST
    } else {
        FLAG_NONE
    }
}

/// Frame `i` of the audio, uncompressed and not serialized.
pub open spec fn audio_frame(pcm: Seq<u8>, i: int) -> Seq<u8> {
    frame_bytes(MSG_AUDIO_ONLY, chunk_flags(pcm.len(), i), SER_NONE, COMP_NONE, chunk_of(pcm, i))
}

/// The audio-only frames that carry `pcm`, in order.
pub fn audio_frames(pcm: &[u8]) -> (r: Vec<Vec<u8>>)
    ensures
        r@.len() == frame_count(pcm@.len()),
        forall|i: int| 0 <= i < r@.len() ==> (#[trigger] r@[i])@ == audio_frame(pcm@, i),
        forall|i: int|
            0 <= i < r@.len() ==> decode_spec((#[trigger] r@[i])@) == (DecodedView::Frame {
                msg_type: MSG_AUDIO_ONLY,
                flags: chunk_flags(pcm@.len(), i),
                sequence: None,
                is_json: false,
                payload: chunk_of(pcm@, i),
            }),
{
    let n = pcm.len();
    let count: usize = if n == 0 {
        1
    } else {
        (n - 1) / CHUNK_BYTES + 1
    };
    assert(count == frame_count(n as nat));
    let mut r: Vec<Vec<u8>> = Vec::new();
    let mut i: usize = 0;
    while i < count
        invariant
            i <= count,
            count == frame_count(n as nat),
            n == pcm@.len(),
            r@.len() == i,
            forall|k: int| 0 <= k < i ==> (#[trigger] r@[k])@ == audio_frame(pcm@, k),
            forall|k: int|
                0 <= k < i ==> decode_spec((#[trigger] r@[k])@) == (DecodedView::Frame {
                    msg_type: MSG_AUDIO_ONLY,
                    flags: chunk_flags(pcm@.len(), k),
                    sequence: None,
                    is_json: false,
                    payload: chunk_of(pcm@, k),
                }),
        decreases count - i,
    {
        let start = i * CHUNK_BYTES;
        let end = if n - start >= CHUNK_BYTES {
            start + CHUNK_BYTES
        } else {
            n
        };
        let flags = if i + 1 == count {
            FLAG_LAST
        } else {
            FLAG_NONE
        };
        let chunk = slice_subrange(pcm, start, end);
        assert(chunk@ == chunk_of(pcm@, i as int));
        assert(chunk@.len() <= 6400);
        assert(flags == chunk_flags(n as nat, i as int));
        assert(flags & 1 == 0) by (bit_vector)
            requires
                flags == 0 || flags == 2,
        ;
        assert(0u8 & 0x0f == 0u8) by (bit_vector);
        let frame = match encode(MSG_AUDIO_ONLY, flags, SER_NONE, COMP_NONE, chunk) {
            Ok(f) => f,
            Err(_) => {
                assert(false);
                Vec::new()
            },
        };
        r.push(frame);
        i += 1;
    }
    r
}

/// The audio chunks `0 .. k` laid end to end.
pub open spec fn chunks_joined(pcm: Seq<u8>, k: nat) -> Seq<u8>
    decreases k,
{
    if k == 0 {
        Seq::empty()
    } else {
        chunks_joined(pcm, (k - 1) as nat) + chunk_of(pcm, k - 1)
    }
}

proof fn lemma_chunks_joined(pcm: Seq<u8>, k: nat)
    requires
        k <= frame_count(pcm.len()),
    ensures
        chunks_joined(pcm, k) == pcm.subrange(
            0,
            if k * 6400 <= pcm.len() {
                (k * 6400) as int
            } else {
                pcm.len() as int
            },
        ),
    decreases k,
{
    if k > 0 {
        lemma_chunks_joined(pcm, (k - 1) as nat);
        let a = if (k - 1) * 6400 <= pcm.len() {
            (k - 1) * 6400
        } else {
            pcm.len() as int
        };
        assert(a == (k - 1) * 6400);
        assert(pcm.subrange(0, a) + chunk_of(pcm, k - 1) =~= pcm.subrange(
            0,
            if k * 6400 <= pcm.len() {
                (k * 6400) as int
            } else {
                pcm.len() as int
            },
        ));
    }
}

/// The payloads of the audio frames, in order, are exactly the PCM: no
/// byte is lost, repeated or reordered.
pub proof fn law_audio_frames_carry_all_audio(pcm: Seq<u8>)
    ensures
        chunks_joined(pcm, frame_count(pcm.len())) == pcm,
        forall|i: int|
            0 <= i < frame_count(pcm.len()) ==> #[trigger] chunk_of(pcm, i).len() <= CHUNK_BYTES,
{
    lemma_chunks_joined(pcm, frame_count(pcm.len()));
    assert(pcm.subrange(0, pcm.len() as int) == pcm);
}

// ─── Request document ───────────────────────────────────────────────────────

/// Items joined with commas.
pub open spec fn join(items: Seq<Seq<char>>) -> Seq<char>
    decreases items.len(),
{
    if items.len() == 0 {
        Seq::empty()
    } else if items.len() == 1 {
        items[0]
    } else {
        join(items.drop_last()) + ","@ + items.last()
    }
}

proof fn lemma_join_push(items: Seq<Seq<char>>, x: Seq<char>)
    ensures
        join(items.push(x)) == if items.len() == 0 {
            x
        } else {
            join(items) + ","@ + x
        },
{
    assert(items.push(x).drop_last() =~= items);
    if items.len() == 0 {
        assert(items.push(x)[0] == x);
    }
}

/// `{"word":W}`.
pub open spec fn word_obj(w: Seq<char>) -> Seq<char> {
    "{\"word\":"@ + json_quoted(w) + "}"@
}

/// The hot words, trimmed, blank ones left out, as JSON objects.
pub open spec fn hotword_objs(ws: Seq<Seq<char>>) -> Seq<Seq<char>>
    decreases ws.len(),
{
    if ws.len() == 0 {
        Seq::empty()
    } else {
        let r = hotword_objs(ws.drop_last());
        let w = trim(ws.last());
        if w.len() == 0 {
            r
        } else {
            r.push(word_obj(w))
        }
    }
}

/// The first 200 characters.
pub open spec fn first_200(s: Seq<char>) -> Seq<char> {
    if s.len() <= 200 {
        s
    } else {
        s.subrange(0, 200)
    }
}

pub open spec fn speaker_name(sp: Speaker) -> Seq<char> {
    match sp {
        Speaker::User => "user"@,
        Speaker::Bot => "bot"@,
    }
}

/// `{"speaker":S,"text":T}` with the text cut to 200 characters.
pub open spec fn dialog_obj(sp: Speaker, text: Seq<char>) -> Seq<char> {
    "{\"speaker\":"@ + json_quoted(speaker_name(sp)) + ",\"text\":"@ + json_quoted(first_200(text))
        + "}"@
}

/// The dialog lines that are not blank, as JSON objects.
pub open spec fn dialog_objs(ts: Seq<(Speaker, Seq<char>)>) -> Seq<Seq<char>>
    decreases ts.len(),
{
    if ts.len() == 0 {
        Seq::empty()
    } else {
        let r = dialog_objs(ts.drop_last());
        let t = ts.last();
        if trim(t.1).len() == 0 {
            r
        } else {
            r.push(dialog_obj(t.0, t.1))
        }
    }
}

/// The `context` document: dialog lines and hot words, each only when
/// there are any (keys in sorted order, as `serde_json` writes them).
pub open spec fn context_doc(h: Seq<Seq<char>>, d: Seq<Seq<char>>) -> Seq<char> {
    "{"@ + (if d.len() > 0 {
        "\"context_data\":["@ + join(d) + "],\"context_type\":\"dialog_ctx\""@
    } else {
        Seq::empty()
    }) + (if d.len() > 0 && h.len() > 0 {
        ","@
    } else {
        Seq::empty()
    }) + (if h.len() > 0 {
        "\"hotwords\":["@ + join(h) + "]"@
    } else {
        Seq::empty()
    }) + "}"@
}

/// `request.corpus`: the context document serialized into a string, or
/// nothing when there are neither hot words nor dialog lines.
pub open spec fn corpus_spec(words: Seq<Seq<char>>, lines: Seq<(Speaker, Seq<char>)>) -> Option<
    Seq<char>,
> {
    let h = hotword_objs(words);
    let d = dialog_objs(lines);
    if h.len() == 0 && d.len() == 0 {
        None
    } else {
        Some("{\"context\":"@ + json_quoted(context_doc(h, d)) + "}"@)
    }
}

/// The hot words, joined.
fn hotwords_json(ctx: &AsrContext) -> (r: (String, usize))
    ensures
        r.0@ == join(hotword_objs(ctx.words())),
        r.1 == hotword_objs(ctx.words()).len(),
{
    let mut s = String::new();
    let mut n: usize = 0;
    let mut i: usize = 0;
    while i < ctx.hotwords.len()
        invariant
            i <= ctx.hotwords@.len(),
            s@ == join(hotword_objs(ctx.words().subrange(0, i as int))),
            n == hotword_objs(ctx.words().subrange(0, i as int)).len(),
            n <= i,
        decreases ctx.hotwords.len() - i,
    {
        let ghost ws = ctx.words().subrange(0, i + 1);
        assert(ws.drop_last() == ctx.words().subrange(0, i as int));
        assert(ws.last() == ctx.hotwords@[i as int]@);
        let w = trim_str(ctx.hotwords[i].as_str());
        proof {
            lemma_join_push(hotword_objs(ctx.words().subrange(0, i as int)), word_obj(w@));
        }
        if !w.as_str().is_empty() {
            if n > 0 {
                s.append(",");
            }
            s.append("{\"word\":");
            let q = json_quote(w.as_str());
            s.append(q.as_str());
            s.append("}");
            n += 1;
            assert(s@ =~= join(hotword_objs(ws)));
        }
        i += 1;
    }
    assert(ctx.words().subrange(0, ctx.hotwords@.len() as int) == ctx.words());
    (s, n)
}

/// The dialog lines, joined.
fn dialog_json(ctx: &AsrContext) -> (r: (String, usize))
    ensures
        r.0@ == join(dialog_objs(ctx.lines())),
        r.1 == dialog_objs(ctx.lines()).len(),
{
    let mut s = String::new();
    let mut n: usize = 0;
    let mut i: usize = 0;
    while i < ctx.dialog.len()
        invariant
            i <= ctx.dialog@.len(),
            s@ == join(dialog_objs(ctx.lines().subrange(0, i as int))),
            n == dialog_objs(ctx.lines().subrange(0, i as int)).len(),
            n <= i,
        decreases ctx.dialog.len() - i,
    {
        let ghost ts = ctx.lines().subrange(0, i + 1);
        assert(ts.drop_last() == ctx.lines().subrange(0, i as int));
        assert(ts.last() == ctx.dialog@[i as int]@);
        let t = &ctx.dialog[i];
        let trimmed = trim_str(t.text.as_str());
        proof {
            lemma_join_push(
                dialog_objs(ctx.lines().subrange(0, i as int)),
                dialog_obj(t.speaker, t.text@),
            );
        }
        if !trimmed.as_str().is_empty() {
            if n > 0 {
                s.append(",");
            }
            s.append("{\"speaker\":");
            let who = match t.speaker {
                Speaker::User => json_quote("user"),
                Speaker::Bot => json_quote("bot"),
            };
            s.append(who.as_str());
            s.append(",\"text\":");
            let cs = chars_of(t.text.as_str());
            let cut = if cs.len() <= 200 {
                cs.len()
            } else {
                200
            };
            let head = string_of(cs.as_slice(), 0, cut);
            assert(head@ == first_200(t.text@));
            let q = json_quote(head.as_str());
            s.append(q.as_str());
            s.append("}");
            n += 1;
            assert(s@ =~= join(dialog_objs(ts)));
        }
        i += 1;
    }
    assert(ctx.lines().subrange(0, ctx.dialog@.len() as int) == ctx.lines());
    (s, n)
}

/// `request.corpus` for the context: hot words and recent dialog, the
/// service wants them as one JSON document serialized into a string.
/// `None` when there is nothing to send.
pub fn build_corpus(ctx: &AsrContext) -> (r: Option<String>)
    ensures
        match r {
            Some(c) => corpus_spec(ctx.words(), ctx.lines()) == Some(c@),
            None => corpus_spec(ctx.words(), ctx.lines()) is None,
        },
{
    let (h, nh) = hotwords_json(ctx);
    let (d, nd) = dialog_json(ctx);
    if nh == 0 && nd == 0 {
        return None;
    }
    let mut doc = owned("{");
    if nd > 0 {
        doc.append("\"context_data\":[");
        doc.append(d.as_str());
        doc.append("],\"context_type\":\"dialog_ctx\"");
    }
    if nd > 0 && nh > 0 {
        doc.append(",");
    }
    if nh > 0 {
        doc.append("\"hotwords\":[");
        doc.append(h.as_str());
        doc.append("]");
    }
    doc.append("}");
    assert(doc@ =~= context_doc(hotword_objs(ctx.words()), dialog_objs(ctx.lines())));
    let mut c = owned("{\"context\":");
    let q = json_quote(doc.as_str());
    c.append(q.as_str());
    c.append("}");
    Some(c)
}

/// The opening request: 16 kHz 16-bit mono PCM, second-pass results,
/// punctuation and number normalisation on, and the corpus when there
/// is one (keys in sorted order, as `serde_json` writes them).
pub open spec fn asr_request_spec(corpus: Option<Seq<char>>) -> Seq<char> {
    "{\"audio\":{\"bits\":16,\"channel\":1,\"codec\":\"raw\",\"format\":\"pcm\",\"rate\":16000},\"request\":{"@
        + match corpus {
        Some(c) => "\"corpus\":"@ + c + ","@,
        None => Seq::empty(),
    }
        + "\"enable_ddc\":true,\"enable_itn\":true,\"enable_nonstream\":true,\"enable_punc\":true,\"end_window_size\":800,\"model_name\":\"bigmodel\",\"result_type\":\"full\"},\"user\":{\"uid\":\"chatbot_cli\"}}"@
}

/// The JSON of the opening request for the context.
pub fn asr_request_json(ctx: &AsrContext) -> (r: String)
    ensures
        r@ == asr_request_spec(corpus_spec(ctx.words(), ctx.lines())),
{
    let mut s = owned(
        "{\"audio\":{\"bits\":16,\"channel\":1,\"codec\":\"raw\",\"format\":\"pcm\",\"rate\":16000},\"request\":{",
    );
    match build_corpus(ctx) {
        Some(c) => {
            s.append("\"corpus\":");
            s.append(c.as_str());
            s.append(",");
        },
        None => {},
    }
    s.append(
        "\"enable_ddc\":true,\"enable_itn\":true,\"enable_nonstream\":true,\"enable_punc\":true,\"end_window_size\":800,\"model_name\":\"bigmodel\",\"result_type\":\"full\"},\"user\":{\"uid\":\"chatbot_cli\"}}",
    );
    s
}

// ─── Responses ──────────────────────────────────────────────────────────────

/// Whether the frame may carry a recognition result worth reading: a
/// full server response with a non-empty JSON payload.
pub open spec fn carries_text(f: ServerFrame) -> bool {
    f.msg_type == MSG_FULL_SERVER && f.is_json && f.payload@.len() > 0
}

pub fn wants_text(frame: &ServerFrame) -> (r: bool)
    ensures
        r == carries_text(*frame),
{
    frame.msg_type == MSG_FULL_SERVER && frame.is_json && frame.payload.len() > 0
}

/// Takes in one server frame: `text` is `result.text` of its payload when
/// that parsed. A non-empty text from a result frame replaces the last
/// one. Returns whether this was the final frame.
pub fn take_frame(last_text: &mut String, frame: &ServerFrame, text: Option<String>) -> (done: bool)
    ensures
        final(last_text)@ == (match text {
            Some(t) => if carries_text(*frame) && t@.len() > 0 {
                t@
            } else {
                old(last_text)@
            },
            None => old(last_text)@,
        }),
        done == ((frame.flags & FLAG_LAST) != 0 || (frame.sequence matches Some(s) && s < 0)),
{
    if wants_text(frame) {
        match text {
            Some(t) => {
                if !t.as_str().is_empty() {
                    *last_text = t;
                }
            },
            None => {},
        }
    }
    frame.is_last()
}

/// The transcript: the last result text, trimmed.
pub fn final_transcript(last_text: &String) -> (r: String)
    ensures
        r@ == trim(last_text@),
{
    trim_str(last_text.as_str())
}

/// The message for a refused connection: 401 and 403 point at the
/// credentials. `status` is the HTTP status as displayed ("401
/// Unauthorized").
pub fn connect_error_message(code: u16, status: &str, logid: &str) -> (r: String)
    ensures
        r@ == if code == 401 || code == 403 {
            "ASR 连接被拒 HTTP "@ + status@ + " (x-tt-logid="@ + logid@ + ")："@
                + hint_text()
        } else {
            "ASR WebSocket connection failed: HTTP "@ + status@ + " (x-tt-logid="@ + logid@ + ")"@
        },
{
    let mut s = if code == 401 || code == 403 {
        owned("ASR 连接被拒 HTTP ")
    } else {
        owned("ASR WebSocket connection failed: HTTP ")
    };
    s.append(status);
    s.append(" (x-tt-logid=");
    s.append(logid);
    if code == 401 || code == 403 {
        s.append(")：");
        s.append(credentials_hint());
    } else {
        s.append(")");
    }
    s
}

} // verus!
