//! Saved conversations: their ids and timestamps, the turns they hold,
//! and the summaries the history page lists. Reading and writing the
//! files is left to the program.
use vstd::prelude::*;

use crate::calendar::{hms_text, is_date_text, iso_utc};
use crate::log::now_millis;
use crate::text::{chars_of, owned, remove_all, remove_chars, str_eq, string_of};

verus! {

/// One turn of a conversation.
#[derive(Debug, Clone)]
pub struct Turn {
    /// "user" or "assistant".
    pub role: String,
    pub content: String,
    pub timestamp: String,
}

/// A conversation as saved on disk.
#[derive(Debug, Clone)]
pub struct Conversation {
    pub id: String,
    pub created_at: String,
    pub turns: Vec<Turn>,
}

/// What the history page lists of a conversation.
#[derive(Debug, Clone)]
pub struct ConversationSummary {
    pub id: String,
    pub created_at: String,
    pub turn_count: usize,
    pub preview: String,
}

/// "YYYY-MM-DDTHH:MM:SSZ" (UTC) of `secs` seconds after the epoch.
pub open spec fn is_timestamp_of(t: Seq<char>, secs: int) -> bool {
    exists|d: Seq<char>|
        is_date_text(d, secs / 86400) && t == d + "T"@ + hms_text((secs % 86400) as nat) + "Z"@
}

/// A conversation id: the timestamp without ':', '-', 'T' and ' ', cut to
/// 14 characters ("YYYYMMDDHHMMSS").
pub open spec fn id_of(created_at: Seq<char>) -> Seq<char> {
    let d = remove_chars(created_at, seq![':', '-', 'T', ' ']);
    if d.len() <= 14 {
        d
    } else {
        d.subrange(0, 14)
    }
}

pub fn conversation_id(created_at: &str) -> (r: String)
    ensures
        r@ == id_of(created_at@),
{
    let v = chars_of(created_at);
    let set = vec![':', '-', 'T', ' '];
    assert(set@ =~= seq![':', '-', 'T', ' ']);
    let d = remove_all(v.as_slice(), set.as_slice());
    let cut = if d.len() <= 14 {
        d.len()
    } else {
        14
    };
    let r = string_of(d.as_slice(), 0, cut);
    assert(d@.len() <= 14 ==> d@.subrange(0, d@.len() as int) =~= d@);
    r
}

impl Conversation {
    /// A new, empty conversation started `secs` seconds after the epoch.
    pub fn started_at(secs: u64) -> (r: Self)
        ensures
            is_timestamp_of(r.created_at@, secs as int),
            r.id@ == id_of(r.created_at@),
            r.turns@.len() == 0,
    {
        let now = iso_utc(secs);
        Conversation { id: conversation_id(now.as_str()), created_at: now, turns: Vec::new() }
    }

    /// A new, empty conversation started now (reads the clock).
    pub fn new() -> (r: Self)
        ensures
            exists|secs: u64| #[trigger] is_timestamp_of(r.created_at@, secs as int),
            r.id@ == id_of(r.created_at@),
            r.turns@.len() == 0,
    {
        let secs = now_millis() / 1000;
        let r = Conversation::started_at(secs);
        assert(is_timestamp_of(r.created_at@, secs as int));
        r
    }

    /// Appends a turn stamped with the current time (reads the clock).
    pub fn add_turn(&mut self, role: &str, content: &str)
        ensures
            final(self).id == old(self).id,
            final(self).created_at == old(self).created_at,
            final(self).turns@.len() == old(self).turns@.len() + 1,
            final(self).turns@.subrange(0, old(self).turns@.len() as int) == old(self).turns@,
            final(self).turns@.last().role@ == role@,
            final(self).turns@.last().content@ == content@,
            exists|secs: u64| #[trigger] is_timestamp_of(final(self).turns@.last().timestamp@, secs as int),
    {
        let secs = now_millis() / 1000;
        let ts = iso_utc(secs);
        assert(is_timestamp_of(ts@, secs as int));
        let t = Turn { role: owned(role), content: owned(content), timestamp: ts };
        self.turns.push(t);
        assert(self.turns@.last() == t);
        assert(is_timestamp_of(self.turns@.last().timestamp@, secs as int));
        assert(self.turns@.subrange(0, old(self).turns@.len() as int) =~= old(self).turns@);
    }
}

/// The preview of a conversation: the first user turn, cut to 80
/// characters with "..." when longer; empty when the user never spoke.
pub open spec fn first_user(turns: Seq<Turn>) -> Option<Seq<char>>
    decreases turns.len(),
{
    if turns.len() == 0 {
        None
    } else if turns[0].role@ == "user"@ {
        Some(turns[0].content@)
    } else {
        first_user(turns.drop_first())
    }
}

pub open spec fn preview_spec(turns: Seq<Turn>) -> Seq<char> {
    match first_user(turns) {
        Some(c) => if c.len() > 80 {
            c.subrange(0, 80) + "..."@
        } else {
            c
        },
        None => Seq::empty(),
    }
}

/// The history page's entry for a conversation.
pub fn summarize(conv: Conversation) -> (r: ConversationSummary)
    ensures
        r.id == conv.id,
        r.created_at == conv.created_at,
        r.turn_count == conv.turns@.len(),
        r.preview@ == preview_spec(conv.turns@),
{
    let mut preview = String::new();
    let mut i: usize = 0;
    let mut found = false;
    assert(conv.turns@.subrange(0, conv.turns@.len() as int) =~= conv.turns@);
    while i < conv.turns.len() && !found
        invariant
            i <= conv.turns@.len(),
            !found ==> first_user(conv.turns@) == first_user(conv.turns@.subrange(i as int, conv.turns@.len() as int)),
            !found ==> preview@.len() == 0,
            found ==> preview@ == preview_spec(conv.turns@),
        decreases conv.turns.len() - i + (if found { 0int } else { 1int }),
    {
        let ghost rest = conv.turns@.subrange(i as int, conv.turns@.len() as int);
        assert(rest[0] == conv.turns@[i as int]);
        assert(rest.drop_first() =~= conv.turns@.subrange(i + 1, conv.turns@.len() as int));
        if str_eq(conv.turns[i].role.as_str(), "user") {
            let v = chars_of(conv.turns[i].content.as_str());
            if v.len() > 80 {
                preview = string_of(v.as_slice(), 0, 80);
                preview.append("...");
            } else {
                preview = owned(conv.turns[i].content.as_str());
            }
            found = true;
        } else {
            i += 1;
        }
    }
    proof {
        if !found {
            assert(conv.turns@.subrange(i as int, conv.turns@.len() as int).len() == 0);
            assert(preview@ =~= preview_spec(conv.turns@));
        }
    }
    let n = conv.turns.len();
    ConversationSummary { id: conv.id, created_at: conv.created_at, turn_count: n, preview }
}

/// The file a conversation is saved in: `<id>.json`.
pub fn file_name(id: &str) -> (r: String)
    ensures
        r@ == id@ + ".json"@,
{
    let mut s = owned(id);
    s.append(".json");
    s
}

} // verus!
