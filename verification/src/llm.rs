//! The OpenAI-compatible chat endpoint: where requests go, what they hold,
//! and how the streamed reply (server-sent events) turns into tokens.
use vstd::prelude::*;

use crate::json::{json_quote, json_quoted};
use crate::speech::doubao::asr::join;
use crate::text::{
    chars_eq, chars_of, has_prefix, owned, split_lines, starts_with, string_of, strip_trailing,
    trailing_cut, trim, trim_bounds, trim_end, trim_start, utf8_lossy, is_ws, lossy_text,
};

verus! {

// ─── Outside: serde_json ────────────────────────────────────────────────────

/// `choices[0].delta.content` of a streamed event's data, when the data
/// parses as JSON and that field is a string.
pub uninterp spec fn delta_content(data: Seq<char>) -> Option<Seq<char>>;

/// `serde_json::from_str::<Value>(data)`, then the pointer
/// `/choices/0/delta/content` as a string. A function of `data` alone.
#[verifier::external_body]
fn event_content(data: &str) -> (r: Option<String>)
    ensures
        match r {
            Some(c) => delta_content(data@) == Some(c@),
            None => delta_content(data@) is None,
        },
{
    let v: serde_json::Value = serde_json::from_str(data).ok()?;
    v.pointer("/choices/0/delta/content")?.as_str().map(|c| c.to_string())
}

// ─── Request ────────────────────────────────────────────────────────────────

/// One message of the conversation sent to the model.
#[derive(Debug, Clone)]
pub struct ChatMessage {
    /// "system", "user" or "assistant".
    pub role: String,
    pub content: String,
}

/// The chat-completions URL: the base URL without trailing slashes, then
/// `/chat/completions`.
pub open spec fn completions_url_spec(base: Seq<char>) -> Seq<char> {
    strip_trailing(base, '/') + "/chat/completions"@
}

pub fn completions_url(base_url: &str) -> (r: String)
    ensures
        r@ == completions_url_spec(base_url@),
{
    let v = chars_of(base_url);
    let cut = trailing_cut(v.as_slice(), '/');
    let mut s = string_of(v.as_slice(), 0, cut);
    s.append("/chat/completions");
    s
}

/// `{"content":C,"role":R}`.
pub open spec fn message_json(m: ChatMessage) -> Seq<char> {
    "{\"content\":"@ + json_quoted(m.content@) + ",\"role\":"@ + json_quoted(m.role@) + "}"@
}

/// The streaming request: at most 1000 tokens, the whole conversation
/// (keys in sorted order, as `serde_json` writes them).
pub open spec fn chat_request_spec(model: Seq<char>, messages: Seq<ChatMessage>) -> Seq<char> {
    "{\"max_tokens\":1000,\"messages\":["@ + join(messages.map_values(|m: ChatMessage| message_json(m)))
        + "],\"model\":"@ + json_quoted(model) + ",\"stream\":true}"@
}

pub fn chat_request_json(model: &str, messages: &[ChatMessage]) -> (r: String)
    ensures
        r@ == chat_request_spec(model@, messages@),
{
    let mut body = String::new();
    let mut i: usize = 0;
    while i < messages.len()
        invariant
            i <= messages@.len(),
            body@ == join(
                messages@.subrange(0, i as int).map_values(|m: ChatMessage| message_json(m)),
            ),
        decreases messages.len() - i,
    {
        let ghost items = messages@.subrange(0, i as int).map_values(
            |m: ChatMessage| message_json(m),
        );
        let ghost next = messages@.subrange(0, i + 1).map_values(|m: ChatMessage| message_json(m));
        assert(next =~= items.push(message_json(messages@[i as int])));
        assert(next.drop_last() =~= items);
        if i > 0 {
            body.append(",");
        }
        body.append("{\"content\":");
        let qc = json_quote(messages[i].content.as_str());
        body.append(qc.as_str());
        body.append(",\"role\":");
        let qr = json_quote(messages[i].role.as_str());
        body.append(qr.as_str());
        body.append("}");
        proof {
            if i == 0 {
                assert(next.len() == 1);
            }
        }
        assert(body@ =~= join(next));
        i += 1;
    }
    assert(messages@.subrange(0, messages@.len() as int) == messages@);
    let mut s = owned("{\"max_tokens\":1000,\"messages\":[");
    s.append(body.as_str());
    s.append("],\"model\":");
    let qm = json_quote(model);
    s.append(qm.as_str());
    s.append(",\"stream\":true}");
    s
}

// ─── Streamed reply ─────────────────────────────────────────────────────────

/// The tokens the complete lines carry, in order, and whether `[DONE]`
/// came: only `data: ` lines count; a data line that does not parse, or
/// has no content, or empty content, carries none.
pub open spec fn events(lines: Seq<Seq<char>>) -> (Seq<Seq<char>>, bool)
    decreases lines.len(),
{
    if lines.len() == 0 {
        (Seq::empty(), false)
    } else {
        let l = trim(lines[0]);
        let (rest, done) = events(lines.drop_first());
        if has_prefix(l, "data: "@) {
            let d = l.subrange(6, l.len() as int);
            if d == "[DONE]"@ {
                (Seq::empty(), true)
            } else {
                match delta_content(d) {
                    Some(c) => if c.len() > 0 {
                        (seq![c] + rest, done)
                    } else {
                        (rest, done)
                    },
                    None => (rest, done),
                }
            }
        } else {
            (rest, done)
        }
    }
}

/// A `data: ` line gives exactly the text its JSON holds at
/// `choices[0].delta.content`, unchanged (leading and trailing spaces
/// included), ahead of what the later lines give; when that content is
/// missing or empty it gives nothing. So the tokens of a run of data lines
/// are their contents, in order, as the model sent them.
pub proof fn law_data_line_token(d: Seq<char>, later: Seq<Seq<char>>)
    requires
        d.len() > 0,
        !is_ws(d.last()),
        d != "[DONE]"@,
    ensures
        events(seq!["data: "@ + d] + later) == (match delta_content(d) {
            Some(c) => if c.len() > 0 {
                seq![c] + events(later).0
            } else {
                events(later).0
            },
            None => events(later).0,
        }, events(later).1),
{
    reveal_strlit("data: ");
    let l = "data: "@ + d;
    let ls = seq![l] + later;
    assert(ls[0] == l);
    assert(ls.drop_first() =~= later);
    assert(l[0] == 'd');
    assert(!is_ws(l[0]));
    assert(trim_start(l) == l);
    assert(l.last() == d.last());
    assert(trim_end(l) == l);
    assert(trim(l) == l);
    assert(l.subrange(0, 6) =~= "data: "@);
    assert(has_prefix(l, "data: "@));
    assert(l.subrange(6, l.len() as int) =~= d);
}

/// `data: [DONE]` ends the stream: no token from it or from any later line.
pub proof fn law_done_line_ends(later: Seq<Seq<char>>)
    ensures
        events(seq!["data: [DONE]"@] + later) == (Seq::<Seq<char>>::empty(), true),
{
    reveal_strlit("data: ");
    reveal_strlit("[DONE]");
    reveal_strlit("data: [DONE]");
    let l = "data: [DONE]"@;
    let ls = seq![l] + later;
    assert(ls[0] == l);
    assert(ls.drop_first() =~= later);
    assert(!is_ws(l[0]) && !is_ws(l.last()));
    assert(trim_start(l) == l);
    assert(trim_end(l) == l);
    assert(l.subrange(0, 6) =~= "data: "@);
    assert(l.subrange(6, l.len() as int) =~= "[DONE]"@);
}

/// Text with no line feed is one unfinished line.
proof fn lemma_split_no_newline(s: Seq<char>)
    requires
        !s.contains('\n'),
    ensures
        split_lines(s) == (Seq::<Seq<char>>::empty(), s),
    decreases s.len(),
{
    if s.len() > 0 {
        assert(!s.drop_last().contains('\n')) by {
            if s.drop_last().contains('\n') {
                let k = choose|k: int| 0 <= k < s.drop_last().len() && s.drop_last()[k] == '\n';
                assert(s[k] == '\n');
            }
        }
        lemma_split_no_newline(s.drop_last());
        assert(s[s.len() - 1] != '\n');
        assert(s.drop_last().push(s.last()) =~= s);
    }
}

/// What follows the last line feed holds no line feed.
proof fn lemma_split_rest_no_newline(s: Seq<char>)
    ensures
        !split_lines(s).1.contains('\n'),
    decreases s.len(),
{
    if s.len() > 0 {
        lemma_split_rest_no_newline(s.drop_last());
        let cur = split_lines(s.drop_last()).1;
        if s.last() != '\n' {
            assert forall|k: int| 0 <= k < cur.push(s.last()).len() implies cur.push(s.last())[k]
                != '\n' by {
                if k < cur.len() {
                    assert(!cur.contains('\n'));
                    if cur[k] == '\n' {
                        assert(cur.contains('\n'));
                    }
                }
            }
        }
    }
}

/// Splitting `a + b` into lines: the lines of `a`, then the lines of what
/// was left of `a` followed by `b`.
proof fn lemma_split_concat(a: Seq<char>, b: Seq<char>)
    ensures
        split_lines(a + b) == ({
            let (d1, r1) = split_lines(a);
            let (d2, r2) = split_lines(r1 + b);
            (d1 + d2, r2)
        }),
    decreases b.len(),
{
    let (d1, r1) = split_lines(a);
    if b.len() == 0 {
        assert(a + b =~= a);
        assert(r1 + b =~= r1);
        lemma_split_rest_no_newline(a);
        lemma_split_no_newline(r1);
        assert(d1 + Seq::<Seq<char>>::empty() =~= d1);
    } else {
        let bp = b.drop_last();
        lemma_split_concat(a, bp);
        assert((a + b).drop_last() =~= a + bp);
        assert((a + b).last() == b.last());
        assert((r1 + b).drop_last() =~= r1 + bp);
        assert((r1 + b).last() == b.last());
        let (d2, r2) = split_lines(r1 + bp);
        assert((d1 + d2).push(r2) =~= d1 + d2.push(r2));
    }
}

/// The tokens of lines read in two runs: those of the first run, then,
/// unless it ended the stream, those of the second.
proof fn lemma_events_concat(d1: Seq<Seq<char>>, d2: Seq<Seq<char>>)
    ensures
        events(d1 + d2) == (if events(d1).1 {
            events(d1)
        } else {
            (events(d1).0 + events(d2).0, events(d2).1)
        }),
    decreases d1.len(),
{
    if d1.len() == 0 {
        assert(d1 + d2 =~= d2);
        assert(Seq::<Seq<char>>::empty() + events(d2).0 =~= events(d2).0);
    } else {
        assert((d1 + d2)[0] == d1[0]);
        assert((d1 + d2).drop_first() =~= d1.drop_first() + d2);
        lemma_events_concat(d1.drop_first(), d2);
        let r = events(d1.drop_first() + d2).0;
        let r1 = events(d1.drop_first()).0;
        assert(forall|c: Seq<char>| #![auto] seq![c] + (r1 + events(d2).0) =~= (seq![c] + r1) + events(d2).0);
    }
}

/// Chunks do not matter: reading text `t1` then `t2` after the unfinished
/// line `p` gives the tokens, end mark and unfinished line of reading
/// `t1 + t2` at once (the second read only happens when the first did not
/// see `[DONE]`).
pub proof fn law_chunks_do_not_matter(p: Seq<char>, t1: Seq<char>, t2: Seq<char>)
    ensures
        ({
            let (d1, r1) = split_lines(p + t1);
            let (e1, done1) = events(d1);
            let (d2, r2) = split_lines(r1 + t2);
            let (e2, done2) = events(d2);
            let (d, r) = split_lines(p + t1 + t2);
            let (e, done) = events(d);
            if done1 {
                e == e1 && done
            } else {
                e == e1 + e2 && done == done2 && r == r2
            }
        }),
{
    lemma_split_concat(p + t1, t2);
    assert(p + t1 + t2 == (p + t1) + t2);
    let (d1, r1) = split_lines(p + t1);
    let (d2, r2) = split_lines(r1 + t2);
    lemma_events_concat(d1, d2);
}

/// Reads a streamed reply chunk by chunk. The text after the last line
/// feed waits for the next chunk; after `[DONE]` nothing more is read.
pub struct SseDecoder {
    pending: String,
    finished: bool,
}

impl SseDecoder {
    /// The unread partial line.
    pub closed spec fn pending(&self) -> Seq<char> {
        self.pending@
    }

    /// Whether `[DONE]` came.
    pub closed spec fn finished(&self) -> bool {
        self.finished
    }

    pub fn new() -> (r: Self)
        ensures
            r.pending() == Seq::<char>::empty(),
            !r.finished(),
    {
        SseDecoder { pending: String::new(), finished: false }
    }

    pub fn is_finished(&self) -> (r: bool)
        ensures
            r == self.finished(),
    {
        self.finished
    }

    /// Takes in one network chunk (decoded leniently as UTF-8) and returns
    /// the tokens of the lines it completes.
    pub fn feed(&mut self, chunk: &[u8]) -> (tokens: Vec<String>)
        ensures
            old(self).finished() ==> tokens@.len() == 0 && *final(self) == *old(self),
            !old(self).finished() ==> ({
                let (done_lines, rest) = split_lines(old(self).pending() + lossy_text(chunk@));
                let (ts, done) = events(done_lines);
                &&& tokens@.map_values(|t: String| t@) == ts
                &&& final(self).finished() == done
                &&& final(self).pending() == rest
            }),
    {
        if self.finished {
            return Vec::new();
        }
        let text = utf8_lossy(chunk);
        let mut all = chars_of(self.pending.as_str());
        let tv = chars_of(text.as_str());
        let mut k: usize = 0;
        while k < tv.len()
            invariant
                k <= tv@.len(),
                all@ == self.pending@ + tv@.subrange(0, k as int),
            decreases tv.len() - k,
        {
            all.push(tv[k]);
            assert(tv@.subrange(0, k + 1) =~= tv@.subrange(0, k as int).push(tv@[k as int]));
            assert(all@ =~= self.pending@ + tv@.subrange(0, k + 1));
            k += 1;
        }
        assert(tv@.subrange(0, tv@.len() as int) == tv@);
        let ghost full = all@;
        // complete lines
        let mut lines: Vec<Vec<char>> = Vec::new();
        let mut cur: Vec<char> = Vec::new();
        let mut i: usize = 0;
        while i < all.len()
            invariant
                i <= all@.len(),
                all@ == full,
                ({
                    let (d, c) = split_lines(full.subrange(0, i as int));
                    lines@.map_values(|l: Vec<char>| l@) == d && cur@ == c
                }),
            decreases all.len() - i,
        {
            assert(full.subrange(0, i + 1).drop_last() == full.subrange(0, i as int));
            if all[i] == '\n' {
                let ghost before = lines@;
                lines.push(cur);
                assert(lines@.map_values(|l: Vec<char>| l@) =~= before.map_values(
                    |l: Vec<char>| l@,
                ).push(cur@));
                cur = Vec::new();
            } else {
                cur.push(all[i]);
            }
            i += 1;
        }
        assert(full.subrange(0, full.len() as int) == full);
        let ghost dl = lines@.map_values(|l: Vec<char>| l@);
        let prefix = chars_of("data: ");
        let done_mark = chars_of("[DONE]");
        let mut out: Vec<String> = Vec::new();
        let mut j: usize = 0;
        let mut done = false;
        proof {
            reveal_strlit("data: ");
            assert(dl.subrange(0, dl.len() as int) == dl);
            assert(out@.map_values(|t: String| t@) + events(dl).0 =~= events(dl).0);
        }
        while j < lines.len() && !done
            invariant
                j <= lines@.len(),
                dl == lines@.map_values(|l: Vec<char>| l@),
                prefix@ == "data: "@,
                "data: "@.len() == 6,
                done_mark@ == "[DONE]"@,
                done ==> events(dl) == (out@.map_values(|t: String| t@), true),
                !done ==> events(dl) == ({
                    let (r, d) = events(dl.subrange(j as int, dl.len() as int));
                    (out@.map_values(|t: String| t@) + r, d)
                }),
            decreases lines.len() - j,
        {
            let ghost tail = dl.subrange(j as int, dl.len() as int);
            assert(tail.drop_first() =~= dl.subrange(j + 1, dl.len() as int));
            assert(tail[0] == lines@[j as int]@);
            let (a, b) = trim_bounds(lines[j].as_slice());
            let l = copy_slice(lines[j].as_slice(), a, b);
            assert(l@ == trim(tail[0]));
            let ghost before = out@.map_values(|t: String| t@);
            if starts_with(l.as_slice(), prefix.as_slice()) {
                let d = string_of(l.as_slice(), 6, l.len());
                let dv = chars_of(d.as_str());
                if chars_eq(dv.as_slice(), done_mark.as_slice()) {
                    done = true;
                    assert(events(tail) == (Seq::<Seq<char>>::empty(), true));
                    assert(before + Seq::<Seq<char>>::empty() =~= before);
                } else {
                    match event_content(d.as_str()) {
                        Some(c) => {
                            if !c.as_str().is_empty() {
                                out.push(c);
                                assert(out@.map_values(|t: String| t@) =~= before.push(c@));
                                assert(before + events(tail).0 =~= before.push(c@) + events(
                                    dl.subrange(j + 1, dl.len() as int),
                                ).0);
                            }
                        },
                        None => {},
                    }
                }
            }
            j += 1;
        }
        proof {
            if !done {
                assert(dl.subrange(j as int, dl.len() as int) =~= Seq::<Seq<char>>::empty());
                assert(out@.map_values(|t: String| t@) + Seq::<Seq<char>>::empty() =~= out@.map_values(|t: String| t@));
            }
        }
        self.finished = done;
        self.pending = string_of(cur.as_slice(), 0, cur.len());
        assert(cur@.subrange(0, cur@.len() as int) == cur@);
        out
    }
}

/// A copy of `v[a..b]`.
fn copy_slice(v: &[char], a: usize, b: usize) -> (r: Vec<char>)
    requires
        a <= b <= v@.len(),
    ensures
        r@ == v@.subrange(a as int, b as int),
{
    crate::text::copy_range(v, a, b)
}

} // verus!
