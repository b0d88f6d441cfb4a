//! Splitting the LLM's token stream into sentences for speech synthesis.
//!
//! Only true sentence ends split (`。！？.!?` and newline); a comma is a pause
//! inside a sentence, and the fragments it would give are too short for the
//! speech engine.
use vstd::prelude::*;

use crate::text::{chars_of, is_ws, trim, trim_str};

verus! {

/// `char::is_alphanumeric`: Unicode `Alphabetic` or `Numeric`.
pub uninterp spec fn alphanumeric(c: char) -> bool;

/// `char::is_alphanumeric`, a property out of the Unicode tables. A
/// whitespace character is neither alphabetic nor numeric.
#[verifier::external_body]
pub(crate) fn char_is_alphanumeric(c: char) -> (r: bool)
    ensures
        r == alphanumeric(c),
        is_ws(c) ==> !r,
{
    c.is_alphanumeric()
}

/// The sentence-ending characters.
pub open spec fn sentence_end(c: char) -> bool {
    c == '。' || c == '！' || c == '？' || c == '.' || c == '!' || c == '?' || c == '\n'
}

/// Fewest meaningful characters (letters, digits, CJK) worth synthesizing.
pub const MIN_TTS_CHARS: usize = 2;

/// Number of alphanumeric characters in `s`.
pub open spec fn count_alnum(s: Seq<char>) -> nat
    decreases s.len(),
{
    if s.len() == 0 {
        0
    } else {
        count_alnum(s.drop_last()) + if alphanumeric(s.last()) {
            1nat
        } else {
            0nat
        }
    }
}

/// Whether `s` is worth sending to speech synthesis.
pub open spec fn speakable(s: Seq<char>) -> bool {
    count_alnum(trim(s)) >= MIN_TTS_CHARS
}

/// `s` holds a sentence end.
pub open spec fn has_sentence_end(s: Seq<char>) -> bool {
    exists|i: int| 0 <= i < s.len() && sentence_end(#[trigger] s[i])
}

pub fn is_sentence_end(c: char) -> (r: bool)
    ensures
        r == sentence_end(c),
{
    c == '。' || c == '！' || c == '？' || c == '.' || c == '!' || c == '?' || c == '\n'
}

/// Whether the text is worth synthesizing: at least two letters / digits /
/// CJK characters once trimmed.
pub fn is_speakable(text: &str) -> (r: bool)
    ensures
        r == speakable(text@),
{
    let t = trim_str(text);
    let v = chars_of(t.as_str());
    let mut n: usize = 0;
    let mut i: usize = 0;
    while i < v.len()
        invariant
            i <= v@.len(),
            n == count_alnum(v@.subrange(0, i as int)),
            n <= i,
        decreases v.len() - i,
    {
        assert(v@.subrange(0, i + 1).drop_last() == v@.subrange(0, i as int));
        if char_is_alphanumeric(v[i]) {
            n += 1;
        }
        i += 1;
    }
    assert(v@.subrange(0, v@.len() as int) == v@);
    n >= MIN_TTS_CHARS
}

/// Whether `v` holds a sentence end.
fn any_sentence_end(v: &[char]) -> (r: bool)
    ensures
        r == has_sentence_end(v@),
{
    let mut i: usize = 0;
    while i < v.len()
        invariant
            i <= v@.len(),
            forall|k: int| 0 <= k < i ==> !sentence_end(v@[k]),
        decreases v.len() - i,
    {
        if is_sentence_end(v[i]) {
            return true;
        }
        i += 1;
    }
    false
}

/// The text ends a sentence exactly when it holds one of `。！？.!?` or a
/// newline; so `push` hands out the pending text with the token (trimmed)
/// exactly when that text holds one of these seven characters and is not
/// blank.
pub proof fn law_sentence_end_characters(s: Seq<char>)
    ensures
        has_sentence_end(s) <==> exists|k: int|
            0 <= k < s.len() && (s[k] == '。' || s[k] == '！' || s[k] == '？' || s[k] == '.'
                || s[k] == '!' || s[k] == '?' || s[k] == '\n'),
{
}

/// Accumulates tokens and hands out whole sentences.
#[derive(Debug)]
pub struct SentenceBuffer {
    pending: String,
}

impl View for SentenceBuffer {
    type V = Seq<char>;

    /// The text received and not yet handed out.
    closed spec fn view(&self) -> Seq<char> {
        self.pending@
    }
}

impl Default for SentenceBuffer {
    fn default() -> (r: Self)
        ensures
            r@ == Seq::<char>::empty(),
    {
        SentenceBuffer { pending: String::new() }
    }
}

impl SentenceBuffer {
    pub fn new() -> (r: Self)
        ensures
            r@ == Seq::<char>::empty(),
    {
        SentenceBuffer { pending: String::new() }
    }

    /// Appends a token; once the text received holds a sentence end (and is
    /// not blank), hands out all of it trimmed and starts afresh.
    pub fn push(&mut self, token: &str) -> (r: Option<String>)
        ensures
            ({
                let all = old(self)@ + token@;
                if has_sentence_end(all) && trim(all).len() > 0 {
                    &&& r is Some
                    &&& r->0@ == trim(all)
                    &&& final(self)@ == Seq::<char>::empty()
                } else {
                    &&& r is None
                    &&& final(self)@ == all
                }
            }),
    {
        self.pending.append(token);
        let v = chars_of(self.pending.as_str());
        let t = trim_str(self.pending.as_str());
        if any_sentence_end(v.as_slice()) && !t.as_str().is_empty() {
            self.pending = String::new();
            Some(t)
        } else {
            None
        }
    }

    /// Hands out what remains at the end of the stream, trimmed, unless blank.
    pub fn flush(&mut self) -> (r: Option<String>)
        ensures
            final(self)@ == Seq::<char>::empty(),
            trim(old(self)@).len() > 0 ==> r is Some && r->0@ == trim(old(self)@),
            trim(old(self)@).len() == 0 ==> r is None,
    {
        let t = trim_str(self.pending.as_str());
        self.pending = String::new();
        if t.as_str().is_empty() {
            None
        } else {
            Some(t)
        }
    }
}

} // verus!
