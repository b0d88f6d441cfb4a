//! Desktop notifications: the daemon's terminal output goes to a log file,
//! so a release notice has to reach the user through the system's
//! notification centre. Running the notifier stays with the program.
use vstd::prelude::*;

use crate::text::{chars_of, owned};

verus! {

/// The notification's title.
pub open spec fn title_spec(version: Seq<char>) -> Seq<char> {
    "chatbot — 新版本 v"@ + version
}

/// The notification's body.
pub open spec fn body_spec(hint: Seq<char>) -> Seq<char> {
    "运行 "@ + hint + " 升级"@
}

pub fn notification_text(version: &str, hint: &str) -> (r: (String, String))
    ensures
        r.0@ == title_spec(version@),
        r.1@ == body_spec(hint@),
{
    let mut title = owned("chatbot — 新版本 v");
    title.append(version);
    let mut body = owned("运行 ");
    body.append(hint);
    body.append(" 升级");
    (title, body)
}

/// `s` with every '"' written as `\"`.
pub open spec fn escape_quotes(s: Seq<char>) -> Seq<char>
    decreases s.len(),
{
    if s.len() == 0 {
        Seq::empty()
    } else {
        escape_quotes(s.drop_last()) + if s.last() == '"' {
            seq!['\\', '"']
        } else {
            seq![s.last()]
        }
    }
}

fn escaped(s: &str) -> (r: String)
    ensures
        r@ == escape_quotes(s@),
{
    let v = chars_of(s);
    let mut r = String::new();
    let mut i: usize = 0;
    while i < v.len()
        invariant
            i <= v@.len(),
            v@ == s@,
            r@ == escape_quotes(v@.subrange(0, i as int)),
        decreases v.len() - i,
    {
        assert(v@.subrange(0, i + 1).drop_last() =~= v@.subrange(0, i as int));
        if v[i] == '"' {
            r.push('\\');
            r.push('"');
        } else {
            r.push(v[i]);
        }
        assert(r@ =~= escape_quotes(v@.subrange(0, i + 1)));
        i += 1;
    }
    assert(v@.subrange(0, v@.len() as int) =~= s@);
    r
}

/// The AppleScript that shows the notification on macOS.
pub open spec fn script_spec(title: Seq<char>, body: Seq<char>) -> Seq<char> {
    "display notification \""@ + escape_quotes(body) + "\" with title \""@ + escape_quotes(title)
        + "\""@
}

pub fn osascript_source(title: &str, body: &str) -> (r: String)
    ensures
        r@ == script_spec(title@, body@),
{
    let mut s = owned("display notification \"");
    let b = escaped(body);
    s.append(b.as_str());
    s.append("\" with title \"");
    let t = escaped(title);
    s.append(t.as_str());
    s.append("\"");
    s
}

} // verus!
