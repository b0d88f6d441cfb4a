//! `cb open`: the local history dashboard's HTTP routing. Serving the
//! socket, the page and the files stays with the program.
use vstd::prelude::*;

use crate::text::{
    chars_of, has_prefix, is_whitespace, is_ws, lines_of, lines, owned, push_decimal, decimal,
    starts_with, str_eq, string_of, trim_start,
};

verus! {

/// Index of the first whitespace character (the length when none).
pub open spec fn ws_pos(s: Seq<char>) -> nat
    decreases s.len(),
{
    if s.len() == 0 {
        0
    } else if is_ws(s[0]) {
        0
    } else {
        1 + ws_pos(s.drop_first())
    }
}

/// The first whitespace-separated word of `s` and what follows it.
pub open spec fn next_word(s: Seq<char>) -> Option<(Seq<char>, Seq<char>)> {
    let t = trim_start(s);
    if t.len() == 0 {
        None
    } else {
        let k = ws_pos(t);
        if k <= t.len() {
            Some((t.subrange(0, k as int), t.subrange(k as int, t.len() as int)))
        } else {
            None
        }
    }
}

/// The request target: the second word of the request's first line
/// ("GET /path HTTP/1.1"), "/" when there is none.
pub open spec fn request_path_spec(request: Seq<char>) -> Seq<char> {
    let ls = lines_of(request);
    if ls.len() == 0 {
        "/"@
    } else {
        match next_word(ls[0]) {
            Some((_, rest)) => match next_word(rest) {
                Some((w, _)) => w,
                None => "/"@,
            },
            None => "/"@,
        }
    }
}

proof fn lemma_ws_pos(s: Seq<char>, i: int)
    requires
        0 <= i <= s.len(),
        forall|k: int| 0 <= k < i ==> !is_ws(#[trigger] s[k]),
        i == s.len() || is_ws(s[i]),
    ensures
        ws_pos(s) == i,
    decreases i,
{
    if i > 0 {
        lemma_ws_pos(s.drop_first(), i - 1);
    }
}

/// The next word of `v[from..]`: where it starts and ends.
fn next_word_at(v: &[char], from: usize) -> (r: Option<(usize, usize)>)
    requires
        from <= v@.len(),
    ensures
        match r {
            Some((a, b)) => from <= a <= b <= v@.len() && next_word(v@.subrange(from as int, v@.len() as int))
                == Some((v@.subrange(a as int, b as int), v@.subrange(b as int, v@.len() as int))),
            None => next_word(v@.subrange(from as int, v@.len() as int)) is None,
        },
{
    let ghost s = v@.subrange(from as int, v@.len() as int);
    let mut a = from;
    while a < v.len() && is_whitespace(v[a])
        invariant
            from <= a <= v@.len(),
            s == v@.subrange(from as int, v@.len() as int),
            trim_start(s) == trim_start(v@.subrange(a as int, v@.len() as int)),
        decreases v.len() - a,
    {
        assert(v@.subrange(a as int, v@.len() as int).drop_first() =~= v@.subrange(a + 1, v@.len() as int));
        a += 1;
    }
    let ghost t = v@.subrange(a as int, v@.len() as int);
    assert(trim_start(t) == t);
    if a == v.len() {
        return None;
    }
    let mut b = a;
    while b < v.len() && !is_whitespace(v[b])
        invariant
            a <= b <= v@.len(),
            forall|k: int| a <= k < b ==> !is_ws(#[trigger] v@[k]),
        decreases v.len() - b,
    {
        b += 1;
    }
    proof {
        lemma_ws_pos(t, b - a);
        assert(t.subrange(0, b - a) =~= v@.subrange(a as int, b as int));
        assert(t.subrange(b - a, t.len() as int) =~= v@.subrange(b as int, v@.len() as int));
    }
    Some((a, b))
}

/// The path a request asks for.
pub fn request_path(request: &str) -> (r: String)
    ensures
        r@ == request_path_spec(request@),
{
    let ls = lines(request);
    if ls.len() == 0 {
        return owned("/");
    }
    let first = chars_of(ls[0].as_str());
    assert(first@ == lines_of(request@)[0]);
    assert(first@.subrange(0, first@.len() as int) =~= first@);
    match next_word_at(first.as_slice(), 0) {
        Some((_, b)) => match next_word_at(first.as_slice(), b) {
            Some((c, d)) => string_of(first.as_slice(), c, d),
            None => owned("/"),
        },
        None => owned("/"),
    }
}

/// What a request path asks for.
#[derive(Debug, Clone, PartialEq, Eq)]
pub enum Route {
    /// The dashboard page.
    Index,
    /// The list of conversations.
    HistoryList,
    /// One conversation, by id.
    HistoryItem(String),
    /// Anything else.
    NotFound,
}

/// `s` with the prefix `p` removed as often as it repeats
/// (`trim_start_matches`).
pub open spec fn strip_prefix_all(s: Seq<char>, p: Seq<char>) -> Seq<char>
    decreases s.len(),
{
    if p.len() > 0 && has_prefix(s, p) {
        strip_prefix_all(s.subrange(p.len() as int, s.len() as int), p)
    } else {
        s
    }
}

pub enum RouteView {
    Index,
    HistoryList,
    HistoryItem(Seq<char>),
    NotFound,
}

pub open spec fn route_view(r: Route) -> RouteView {
    match r {
        Route::Index => RouteView::Index,
        Route::HistoryList => RouteView::HistoryList,
        Route::HistoryItem(id) => RouteView::HistoryItem(id@),
        Route::NotFound => RouteView::NotFound,
    }
}

/// "/" and "/index.html" are the page, "/api/history" the list, and
/// "/api/history/<id>" one conversation (the prefix removed as often as
/// it repeats).
pub open spec fn route_spec(path: Seq<char>) -> RouteView {
    if path == "/"@ || path == "/index.html"@ {
        RouteView::Index
    } else if path == "/api/history"@ {
        RouteView::HistoryList
    } else if has_prefix(path, "/api/history/"@) {
        RouteView::HistoryItem(strip_prefix_all(path, "/api/history/"@))
    } else {
        RouteView::NotFound
    }
}

pub fn route(path: &str) -> (r: Route)
    ensures
        route_view(r) == route_spec(path@),
{
    if str_eq(path, "/") || str_eq(path, "/index.html") {
        return Route::Index;
    }
    if str_eq(path, "/api/history") {
        return Route::HistoryList;
    }
    let v = chars_of(path);
    let p = chars_of("/api/history/");
    if !starts_with(v.as_slice(), p.as_slice()) {
        return Route::NotFound;
    }
    proof {
        reveal_strlit("/api/history/");
    }
    let mut i: usize = 0;
    assert(v@.subrange(0, v@.len() as int) =~= v@);
    while i <= v.len() && v.len() - i >= p.len() && starts_with(&slice_from(v.as_slice(), i), p.as_slice())
        invariant
            i <= v@.len(),
            p@ == "/api/history/"@,
            p@.len() == 13,
            strip_prefix_all(v@, p@) == strip_prefix_all(v@.subrange(i as int, v@.len() as int), p@),
        decreases v.len() - i,
    {
        let ghost rest = v@.subrange(i as int, v@.len() as int);
        assert(rest.subrange(13, rest.len() as int) =~= v@.subrange(i + 13, v@.len() as int));
        i += 13;
    }
    proof {
        let rest = v@.subrange(i as int, v@.len() as int);
        if v@.len() - i >= 13 {
            assert(!has_prefix(rest, p@));
        } else {
            assert(!has_prefix(rest, p@));
        }
    }
    Route::HistoryItem(string_of(v.as_slice(), i, v.len()))
}

/// A copy of `v[i..]`.
fn slice_from(v: &[char], i: usize) -> (r: Vec<char>)
    requires
        i <= v@.len(),
    ensures
        r@ == v@.subrange(i as int, v@.len() as int),
{
    crate::text::copy_range(v, i, v.len())
}

/// The status, content type and fixed body of the answers that need no
/// data: the error answers.
pub fn not_found(route: &Route) -> (r: (&'static str, &'static str, &'static str))
    ensures
        match route {
            Route::HistoryItem(_) => r.0@ == "404 Not Found"@ && r.1@ == "application/json"@ && r.2@
                == "{\"error\":\"not found\"}"@,
            _ => r.0@ == "404 Not Found"@ && r.1@ == "text/plain"@ && r.2@ == "Not Found"@,
        },
{
    match route {
        Route::HistoryItem(_) => ("404 Not Found", "application/json", "{\"error\":\"not found\"}"),
        _ => ("404 Not Found", "text/plain", "Not Found"),
    }
}

/// The content type of a successful answer: HTML for the page, JSON for
/// the history.
pub fn content_type(route: &Route) -> (r: &'static str)
    ensures
        r@ == match route {
            Route::Index => "text/html; charset=utf-8"@,
            _ => "application/json; charset=utf-8"@,
        },
{
    match route {
        Route::Index => "text/html; charset=utf-8",
        _ => "application/json; charset=utf-8",
    }
}

/// The response head for a body of `body_len` bytes; the connection
/// closes after it, and any origin may read it.
pub fn response_head(status: &str, content_type: &str, body_len: u64) -> (r: String)
    ensures
        r@ == "HTTP/1.1 "@ + status@ + "\r\nContent-Type: "@ + content_type@ + "\r\nContent-Length: "@
            + decimal(body_len as nat)
            + "\r\nAccess-Control-Allow-Origin: *\r\nConnection: close\r\n\r\n"@,
{
    let mut s = owned("HTTP/1.1 ");
    s.append(status);
    s.append("\r\nContent-Type: ");
    s.append(content_type);
    s.append("\r\nContent-Length: ");
    push_decimal(&mut s, body_len);
    s.append("\r\nAccess-Control-Allow-Origin: *\r\nConnection: close\r\n\r\n");
    s
}

} // verus!
