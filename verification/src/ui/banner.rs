//! The start-up banner, the "ready" box and the separator line.
use vstd::prelude::*;

use crate::text::repeat_char;
use crate::ui::theme::{BOLD, BR_CYAN, BR_MAGENTA, MUTED, RESET};

verus! {

/// Characters drawn two columns wide: Hangul Jamo, CJK radicals and
/// symbols, kana, CJK ideographs, Yi, Hangul syllables, CJK compatibility
/// and vertical forms, fullwidth Latin and signs, most emoji.
pub open spec fn is_wide(c: char) -> bool {
    let n = c as u32;
    (0x1100 <= n <= 0x115F) || (0x2E80 <= n <= 0x303E) || (0x3041 <= n <= 0x33FF) || (0x3400 <= n
        <= 0x4DBF) || (0x4E00 <= n <= 0x9FFF) || (0xA000 <= n <= 0xA4CF) || (0xAC00 <= n <= 0xD7AF)
        || (0xF900 <= n <= 0xFAFF) || (0xFE10 <= n <= 0xFE1F) || (0xFE30 <= n <= 0xFE6F) || (0xFF01
        <= n <= 0xFF60) || (0xFFE0 <= n <= 0xFFE6) || (0x1F300 <= n <= 0x1F9FF)
}

/// Terminal columns of `s`: two for a wide character, one otherwise.
pub open spec fn width_of(s: Seq<char>) -> nat
    decreases s.len(),
{
    if s.len() == 0 {
        0
    } else {
        width_of(s.drop_last()) + if is_wide(s.last()) {
            2nat
        } else {
            1nat
        }
    }
}

/// The terminal display width of `s` (ASCII one column, CJK and
/// fullwidth two).
pub fn display_width(s: &str) -> (r: usize)
    ensures
        r == if width_of(s@) <= usize::MAX {
            width_of(s@)
        } else {
            usize::MAX as nat
        },
{
    let mut w: usize = 0;
    let mut i: usize = 0;
    let v = crate::text::chars_of(s);
    while i < v.len()
        invariant
            i <= v@.len(),
            v@ == s@,
            w == if width_of(v@.subrange(0, i as int)) <= usize::MAX {
                width_of(v@.subrange(0, i as int))
            } else {
                usize::MAX as nat
            },
        decreases v.len() - i,
    {
        assert(v@.subrange(0, i + 1).drop_last() =~= v@.subrange(0, i as int));
        let n = v[i] as u32;
        let wide = (0x1100 <= n && n <= 0x115F) || (0x2E80 <= n && n <= 0x303E) || (0x3041 <= n
            && n <= 0x33FF) || (0x3400 <= n && n <= 0x4DBF) || (0x4E00 <= n && n <= 0x9FFF) || (
        0xA000 <= n && n <= 0xA4CF) || (0xAC00 <= n && n <= 0xD7AF) || (0xF900 <= n && n <= 0xFAFF)
            || (0xFE10 <= n && n <= 0xFE1F) || (0xFE30 <= n && n <= 0xFE6F) || (0xFF01 <= n && n
            <= 0xFF60) || (0xFFE0 <= n && n <= 0xFFE6) || (0x1F300 <= n && n <= 0x1F9FF);
        if wide {
            w = w.saturating_add(2);
        } else {
            w = w.saturating_add(1);
        }
        i += 1;
    }
    assert(v@.subrange(0, v@.len() as int) =~= s@);
    w
}

/// The start-up banner (printed as one block).
pub open spec fn banner_spec(version: Seq<char>) -> Seq<char> {
    "\n   "@
    + BR_CYAN@
    + "██████╗"@
    + BR_MAGENTA@
    + "██████╗ "@
    + RESET@
    + "\n   "@
    + BR_CYAN@
    + "██╔════╝"@
    + BR_MAGENTA@
    + "██╔══██╗"@
    + RESET@
    + "\n   "@
    + BR_CYAN@
    + "██║     "@
    + BR_MAGENTA@
    + "██████╔╝"@
    + RESET@
    + "   "@
    + BOLD@
    + "Chatbox Voice Assistant"@
    + RESET@
    + "\n   "@
    + BR_CYAN@
    + "██║     "@
    + BR_MAGENTA@
    + "██╔══██╗"@
    + RESET@
    + "   "@
    + MUTED@
    + "v"@
    + version
    + RESET@
    + "\n   "@
    + BR_CYAN@
    + "╚██████╗"@
    + BR_MAGENTA@
    + "██████╔╝"@
    + RESET@
    + "\n   "@
    + BR_CYAN@
    + " ╚═════╝"@
    + BR_MAGENTA@
    + "╚═════╝ "@
    + RESET@
    + "\n"@
}

pub fn banner_text(version: &str) -> (r: String)
    ensures
        r@ == banner_spec(version@),
{
    let mut s = String::new();
    s.append("\n   ");
    s.append(BR_CYAN);
    s.append("██████╗");
    s.append(BR_MAGENTA);
    s.append("██████╗ ");
    s.append(RESET);
    s.append("\n   ");
    s.append(BR_CYAN);
    s.append("██╔════╝");
    s.append(BR_MAGENTA);
    s.append("██╔══██╗");
    s.append(RESET);
    s.append("\n   ");
    s.append(BR_CYAN);
    s.append("██║     ");
    s.append(BR_MAGENTA);
    s.append("██████╔╝");
    s.append(RESET);
    s.append("   ");
    s.append(BOLD);
    s.append("Chatbox Voice Assistant");
    s.append(RESET);
    s.append("\n   ");
    s.append(BR_CYAN);
    s.append("██║     ");
    s.append(BR_MAGENTA);
    s.append("██╔══██╗");
    s.append(RESET);
    s.append("   ");
    s.append(MUTED);
    s.append("v");
    s.append(version);
    s.append(RESET);
    s.append("\n   ");
    s.append(BR_CYAN);
    s.append("╚██████╗");
    s.append(BR_MAGENTA);
    s.append("██████╔╝");
    s.append(RESET);
    s.append("\n   ");
    s.append(BR_CYAN);
    s.append(" ╚═════╝");
    s.append(BR_MAGENTA);
    s.append("╚═════╝ ");
    s.append(RESET);
    s.append("\n");
    assert(s@ =~= banner_spec(version@));
    s
}

pub open spec fn box_top() -> Seq<char> {
    "   "@
    + BR_CYAN@
    + "╭───────────────────────────────────╮"@
    + RESET@
}

pub open spec fn box_bottom() -> Seq<char> {
    "   "@
    + BR_CYAN@
    + "╰───────────────────────────────────╯"@
    + RESET@
}

/// A message row of the ready box, padded to the box's width.
pub open spec fn box_row(msg: Seq<char>) -> Seq<char> {
    "   "@ + BR_CYAN@ + "│"@ + RESET@ + "  "@ + BOLD@ + msg + RESET@ + repeat_char(
        ' ',
        if width_of(msg) < 31 {
            (31 - width_of(msg)) as nat
        } else {
            0
        },
    ) + "  "@ + BR_CYAN@ + "│"@ + RESET@
}

/// The rows for the non-empty messages.
pub open spec fn box_rows(msgs: Seq<Seq<char>>) -> Seq<Seq<char>>
    decreases msgs.len(),
{
    if msgs.len() == 0 {
        Seq::empty()
    } else {
        let r = box_rows(msgs.drop_last());
        if msgs.last().len() == 0 {
            r
        } else {
            r.push(box_row(msgs.last()))
        }
    }
}

/// The ready box: a blank line, the top border, one row per non-empty
/// message, the bottom border, a blank line.
pub open spec fn ready_spec(msgs: Seq<Seq<char>>) -> Seq<Seq<char>> {
    seq![Seq::empty(), box_top()] + box_rows(msgs) + seq![box_bottom(), Seq::empty()]
}

fn spaces(n: usize) -> (r: String)
    ensures
        r@ == repeat_char(' ', n as nat),
{
    let mut s = String::new();
    let mut i: usize = 0;
    while i < n
        invariant
            i <= n,
            s@ == repeat_char(' ', i as nat),
        decreases n - i,
    {
        s.push(' ');
        i += 1;
    }
    s
}

/// The lines of the ready box around `messages`.
pub fn ready_lines(messages: &[&str]) -> (r: Vec<String>)
    ensures
        r@.map_values(|l: String| l@) == ready_spec(messages@.map_values(|m: &str| m@)),
{
    let ghost msgs = messages@.map_values(|m: &str| m@);
    let mut rows: Vec<String> = Vec::new();
    let mut i: usize = 0;
    while i < messages.len()
        invariant
            i <= messages@.len(),
            msgs == messages@.map_values(|m: &str| m@),
            rows@.map_values(|l: String| l@) == box_rows(msgs.subrange(0, i as int)),
        decreases messages.len() - i,
    {
        assert(msgs.subrange(0, i + 1).drop_last() =~= msgs.subrange(0, i as int));
        assert(msgs.subrange(0, i + 1).last() == messages@[i as int]@);
        let msg = messages[i];
        if !msg.is_empty() {
            let w = display_width(msg);
            let pad = if w < 31 {
                31 - w
            } else {
                0
            };
            let mut s = String::new();
            s.append("   ");
            s.append(BR_CYAN);
            s.append("│");
            s.append(RESET);
            s.append("  ");
            s.append(BOLD);
            s.append(msg);
            s.append(RESET);
            let sp = spaces(pad);
            s.append(sp.as_str());
            s.append("  ");
            s.append(BR_CYAN);
            s.append("│");
            s.append(RESET);
            assert(s@ =~= box_row(msg@));
            let ghost before = rows@;
            rows.push(s);
            assert(rows@.map_values(|l: String| l@) =~= before.map_values(|l: String| l@).push(
                box_row(msg@),
            ));
        }
        i += 1;
    }
    assert(msgs.subrange(0, msgs.len() as int) =~= msgs);
    let mut top = String::new();
    top.append("   ");
    top.append(BR_CYAN);
    top.append("╭───────────────────────────────────╮");
    top.append(RESET);
    let mut bottom = String::new();
    bottom.append("   ");
    bottom.append(BR_CYAN);
    bottom.append("╰───────────────────────────────────╯");
    bottom.append(RESET);
    assert(top@ =~= box_top());
    assert(bottom@ =~= box_bottom());
    let mut r: Vec<String> = Vec::new();
    r.push(String::new());
    r.push(top);
    let mut k: usize = 0;
    while k < rows.len()
        invariant
            k <= rows@.len(),
            r@.map_values(|l: String| l@) == seq![Seq::<char>::empty(), box_top()] + rows@.map_values(
                |l: String| l@,
            ).subrange(0, k as int),
        decreases rows.len() - k,
    {
        let ghost before = r@;
        let row = rows[k].clone();
        r.push(row);
        assert(r@.map_values(|l: String| l@) =~= before.map_values(|l: String| l@).push(row@));
        assert(rows@.map_values(|l: String| l@).subrange(0, k + 1) =~= rows@.map_values(
            |l: String| l@,
        ).subrange(0, k as int).push(rows@[k as int]@));
        k += 1;
    }
    assert(rows@.map_values(|l: String| l@).subrange(0, rows@.len() as int) =~= rows@.map_values(
        |l: String| l@,
    ));
    let ghost before = r@;
    r.push(bottom);
    r.push(String::new());
    assert(r@.map_values(|l: String| l@) =~= before.map_values(|l: String| l@).push(box_bottom()).push(
        Seq::empty(),
    ));
    assert(r@.map_values(|l: String| l@) =~= ready_spec(msgs));
    r
}

/// The separator line between exchanges.
pub open spec fn separator_spec() -> Seq<char> {
    "   "@
    + MUTED@
    + "─────────────────────────────────────"@
    + RESET@
}

pub fn separator_line() -> (r: String)
    ensures
        r@ == separator_spec(),
{
    let mut s = String::new();
    s.append("   ");
    s.append(MUTED);
    s.append("─────────────────────────────────────");
    s.append(RESET);
    assert(s@ =~= separator_spec());
    s
}

} // verus!
