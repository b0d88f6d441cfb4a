//! The robot face shown in the terminal, one frame per state.
use vstd::prelude::*;

use crate::ui::theme::{BR_CYAN, BR_GREEN, BR_MAGENTA, BR_RED, BR_YELLOW, CYAN, MUTED, RED, RESET};

verus! {

/// Robot face frames for the assistant's states.
pub struct Face;

/// The idle face: friendly, ready.
pub open spec fn idle_face() -> Seq<char> {
    "\n   "@
    + CYAN@
    + "╭───────────╮"@
    + RESET@
    + "\n   "@
    + CYAN@
    + "│"@
    + RESET@
    + " "@
    + BR_CYAN@
    + "◉"@
    + RESET@
    + "     "@
    + BR_CYAN@
    + "◉"@
    + RESET@
    + " "@
    + CYAN@
    + "│"@
    + RESET@
    + "\n   "@
    + CYAN@
    + "│"@
    + RESET@
    + "    "@
    + BR_GREEN@
    + "▽"@
    + RESET@
    + "    "@
    + CYAN@
    + "│"@
    + RESET@
    + "\n   "@
    + CYAN@
    + "╰───────────╯"@
    + RESET@
}

/// The error face: distressed.
pub open spec fn error_face() -> Seq<char> {
    "\n   "@
    + RED@
    + "╭───────────╮"@
    + RESET@
    + "\n   "@
    + RED@
    + "│"@
    + RESET@
    + " "@
    + BR_RED@
    + "✖"@
    + RESET@
    + "     "@
    + BR_RED@
    + "✖"@
    + RESET@
    + " "@
    + RED@
    + "│"@
    + RESET@
    + "\n   "@
    + RED@
    + "│"@
    + RESET@
    + "    "@
    + BR_RED@
    + "△"@
    + RESET@
    + "    "@
    + RED@
    + "│"@
    + RESET@
    + "\n   "@
    + RED@
    + "╰───────────╯"@
    + RESET@
}

/// Listening, frame 0: ears up, eyes wide.
pub open spec fn listen_face_0() -> Seq<char> {
    "   "@
    + CYAN@
    + "╭───"@
    + BR_MAGENTA@
    + "◈"@
    + CYAN@
    + "───────╮"@
    + RESET@
    + "\n   "@
    + CYAN@
    + "│"@
    + RESET@
    + " "@
    + BR_CYAN@
    + "◉"@
    + RESET@
    + "     "@
    + BR_CYAN@
    + "◉"@
    + RESET@
    + " "@
    + CYAN@
    + "│"@
    + RESET@
    + "\n   "@
    + CYAN@
    + "│"@
    + RESET@
    + "    "@
    + MUTED@
    + "◡"@
    + RESET@
    + "    "@
    + CYAN@
    + "│"@
    + RESET@
    + "\n   "@
    + CYAN@
    + "╰───────────╯"@
    + RESET@
}

/// Listening, frame 1: ears up, eyes wide.
pub open spec fn listen_face_1() -> Seq<char> {
    "   "@
    + CYAN@
    + "╭───"@
    + BR_YELLOW@
    + "◈"@
    + CYAN@
    + "───────╮"@
    + RESET@
    + "\n   "@
    + CYAN@
    + "│"@
    + RESET@
    + " "@
    + BR_CYAN@
    + "◎"@
    + RESET@
    + "     "@
    + BR_CYAN@
    + "◎"@
    + RESET@
    + " "@
    + CYAN@
    + "│"@
    + RESET@
    + "\n   "@
    + CYAN@
    + "│"@
    + RESET@
    + "    "@
    + MUTED@
    + "◡"@
    + RESET@
    + "    "@
    + CYAN@
    + "│"@
    + RESET@
    + "\n   "@
    + CYAN@
    + "╰───────────╯"@
    + RESET@
}

/// Listening, frame 2: ears up, eyes wide.
pub open spec fn listen_face_2() -> Seq<char> {
    "   "@
    + CYAN@
    + "╭───"@
    + BR_GREEN@
    + "◈"@
    + CYAN@
    + "───────╮"@
    + RESET@
    + "\n   "@
    + CYAN@
    + "│"@
    + RESET@
    + " "@
    + BR_CYAN@
    + "◉"@
    + RESET@
    + "     "@
    + BR_CYAN@
    + "◉"@
    + RESET@
    + " "@
    + CYAN@
    + "│"@
    + RESET@
    + "\n   "@
    + CYAN@
    + "│"@
    + RESET@
    + "    "@
    + MUTED@
    + "◡"@
    + RESET@
    + "    "@
    + CYAN@
    + "│"@
    + RESET@
    + "\n   "@
    + CYAN@
    + "╰───────────╯"@
    + RESET@
}

/// Listening, frame 3: ears up, eyes wide.
pub open spec fn listen_face_3() -> Seq<char> {
    "   "@
    + CYAN@
    + "╭───"@
    + BR_CYAN@
    + "◈"@
    + CYAN@
    + "───────╮"@
    + RESET@
    + "\n   "@
    + CYAN@
    + "│"@
    + RESET@
    + " "@
    + BR_CYAN@
    + "◎"@
    + RESET@
    + "     "@
    + BR_CYAN@
    + "◎"@
    + RESET@
    + " "@
    + CYAN@
    + "│"@
    + RESET@
    + "\n   "@
    + CYAN@
    + "│"@
    + RESET@
    + "    "@
    + MUTED@
    + "◡"@
    + RESET@
    + "    "@
    + CYAN@
    + "│"@
    + RESET@
    + "\n   "@
    + CYAN@
    + "╰───────────╯"@
    + RESET@
}

/// Thinking, frame 0: eyes sideways, dots.
pub open spec fn think_face_0() -> Seq<char> {
    "   "@
    + CYAN@
    + "╭───────────╮"@
    + RESET@
    + "\n   "@
    + CYAN@
    + "│"@
    + RESET@
    + " "@
    + BR_YELLOW@
    + "◔"@
    + RESET@
    + "     "@
    + BR_YELLOW@
    + "◔"@
    + RESET@
    + " "@
    + CYAN@
    + "│"@
    + RESET@
    + "\n   "@
    + CYAN@
    + "│"@
    + RESET@
    + "    "@
    + BR_YELLOW@
    + "~"@
    + RESET@
    + "    "@
    + CYAN@
    + "│"@
    + RESET@
    + "\n   "@
    + CYAN@
    + "╰───────────╯"@
    + RESET@
    + "  "@
    + BR_YELLOW@
    + "thinking ."@
    + RESET@
}

/// Thinking, frame 1: eyes sideways, dots.
pub open spec fn think_face_1() -> Seq<char> {
    "   "@
    + CYAN@
    + "╭───────────╮"@
    + RESET@
    + "\n   "@
    + CYAN@
    + "│"@
    + RESET@
    + " "@
    + BR_YELLOW@
    + "◑"@
    + RESET@
    + "     "@
    + BR_YELLOW@
    + "◑"@
    + RESET@
    + " "@
    + CYAN@
    + "│"@
    + RESET@
    + "\n   "@
    + CYAN@
    + "│"@
    + RESET@
    + "    "@
    + BR_YELLOW@
    + "~"@
    + RESET@
    + "    "@
    + CYAN@
    + "│"@
    + RESET@
    + "\n   "@
    + CYAN@
    + "╰───────────╯"@
    + RESET@
    + "  "@
    + BR_YELLOW@
    + "thinking .."@
    + RESET@
}

/// Thinking, frame 2: eyes sideways, dots.
pub open spec fn think_face_2() -> Seq<char> {
    "   "@
    + CYAN@
    + "╭───────────╮"@
    + RESET@
    + "\n   "@
    + CYAN@
    + "│"@
    + RESET@
    + " "@
    + BR_YELLOW@
    + "◕"@
    + RESET@
    + "     "@
    + BR_YELLOW@
    + "◕"@
    + RESET@
    + " "@
    + CYAN@
    + "│"@
    + RESET@
    + "\n   "@
    + CYAN@
    + "│"@
    + RESET@
    + "    "@
    + BR_YELLOW@
    + "~"@
    + RESET@
    + "    "@
    + CYAN@
    + "│"@
    + RESET@
    + "\n   "@
    + CYAN@
    + "╰───────────╯"@
    + RESET@
    + "  "@
    + BR_YELLOW@
    + "thinking ..."@
    + RESET@
}

/// Speaking, frame 0: the mouth moves.
pub open spec fn speak_face_0() -> Seq<char> {
    "   "@
    + CYAN@
    + "╭───────────╮"@
    + RESET@
    + "\n   "@
    + CYAN@
    + "│"@
    + RESET@
    + " "@
    + BR_GREEN@
    + "◉"@
    + RESET@
    + "     "@
    + BR_GREEN@
    + "◉"@
    + RESET@
    + " "@
    + CYAN@
    + "│"@
    + RESET@
    + "\n   "@
    + CYAN@
    + "│"@
    + RESET@
    + "    "@
    + BR_GREEN@
    + "○"@
    + RESET@
    + "    "@
    + CYAN@
    + "│"@
    + RESET@
    + "\n   "@
    + CYAN@
    + "╰───────────╯"@
    + RESET@
}

/// Speaking, frame 1: the mouth moves.
pub open spec fn speak_face_1() -> Seq<char> {
    "   "@
    + CYAN@
    + "╭───────────╮"@
    + RESET@
    + "\n   "@
    + CYAN@
    + "│"@
    + RESET@
    + " "@
    + BR_GREEN@
    + "◉"@
    + RESET@
    + "     "@
    + BR_GREEN@
    + "◉"@
    + RESET@
    + " "@
    + CYAN@
    + "│"@
    + RESET@
    + "\n   "@
    + CYAN@
    + "│"@
    + RESET@
    + "    "@
    + BR_GREEN@
    + "◎"@
    + RESET@
    + "    "@
    + CYAN@
    + "│"@
    + RESET@
    + "\n   "@
    + CYAN@
    + "╰───────────╯"@
    + RESET@
}

/// Speaking, frame 2: the mouth moves.
pub open spec fn speak_face_2() -> Seq<char> {
    "   "@
    + CYAN@
    + "╭───────────╮"@
    + RESET@
    + "\n   "@
    + CYAN@
    + "│"@
    + RESET@
    + " "@
    + BR_GREEN@
    + "◉"@
    + RESET@
    + "     "@
    + BR_GREEN@
    + "◉"@
    + RESET@
    + " "@
    + CYAN@
    + "│"@
    + RESET@
    + "\n   "@
    + CYAN@
    + "│"@
    + RESET@
    + "    "@
    + BR_GREEN@
    + "▽"@
    + RESET@
    + "    "@
    + CYAN@
    + "│"@
    + RESET@
    + "\n   "@
    + CYAN@
    + "╰───────────╯"@
    + RESET@
}

fn build_listen_face_0() -> (r: String)
    ensures
        r@ == listen_face_0(),
{
    let mut s = String::new();
    s.append("   ");
    s.append(CYAN);
    s.append("╭───");
    s.append(BR_MAGENTA);
    s.append("◈");
    s.append(CYAN);
    s.append("───────╮");
    s.append(RESET);
    s.append("\n   ");
    s.append(CYAN);
    s.append("│");
    s.append(RESET);
    s.append(" ");
    s.append(BR_CYAN);
    s.append("◉");
    s.append(RESET);
    s.append("     ");
    s.append(BR_CYAN);
    s.append("◉");
    s.append(RESET);
    s.append(" ");
    s.append(CYAN);
    s.append("│");
    s.append(RESET);
    s.append("\n   ");
    s.append(CYAN);
    s.append("│");
    s.append(RESET);
    s.append("    ");
    s.append(MUTED);
    s.append("◡");
    s.append(RESET);
    s.append("    ");
    s.append(CYAN);
    s.append("│");
    s.append(RESET);
    s.append("\n   ");
    s.append(CYAN);
    s.append("╰───────────╯");
    s.append(RESET);
    assert(s@ =~= listen_face_0());
    s
}

fn build_listen_face_1() -> (r: String)
    ensures
        r@ == listen_face_1(),
{
    let mut s = String::new();
    s.append("   ");
    s.append(CYAN);
    s.append("╭───");
    s.append(BR_YELLOW);
    s.append("◈");
    s.append(CYAN);
    s.append("───────╮");
    s.append(RESET);
    s.append("\n   ");
    s.append(CYAN);
    s.append("│");
    s.append(RESET);
    s.append(" ");
    s.append(BR_CYAN);
    s.append("◎");
    s.append(RESET);
    s.append("     ");
    s.append(BR_CYAN);
    s.append("◎");
    s.append(RESET);
    s.append(" ");
    s.append(CYAN);
    s.append("│");
    s.append(RESET);
    s.append("\n   ");
    s.append(CYAN);
    s.append("│");
    s.append(RESET);
    s.append("    ");
    s.append(MUTED);
    s.append("◡");
    s.append(RESET);
    s.append("    ");
    s.append(CYAN);
    s.append("│");
    s.append(RESET);
    s.append("\n   ");
    s.append(CYAN);
    s.append("╰───────────╯");
    s.append(RESET);
    assert(s@ =~= listen_face_1());
    s
}

fn build_listen_face_2() -> (r: String)
    ensures
        r@ == listen_face_2(),
{
    let mut s = String::new();
    s.append("   ");
    s.append(CYAN);
    s.append("╭───");
    s.append(BR_GREEN);
    s.append("◈");
    s.append(CYAN);
    s.append("───────╮");
    s.append(RESET);
    s.append("\n   ");
    s.append(CYAN);
    s.append("│");
    s.append(RESET);
    s.append(" ");
    s.append(BR_CYAN);
    s.append("◉");
    s.append(RESET);
    s.append("     ");
    s.append(BR_CYAN);
    s.append("◉");
    s.append(RESET);
    s.append(" ");
    s.append(CYAN);
    s.append("│");
    s.append(RESET);
    s.append("\n   ");
    s.append(CYAN);
    s.append("│");
    s.append(RESET);
    s.append("    ");
    s.append(MUTED);
    s.append("◡");
    s.append(RESET);
    s.append("    ");
    s.append(CYAN);
    s.append("│");
    s.append(RESET);
    s.append("\n   ");
    s.append(CYAN);
    s.append("╰───────────╯");
    s.append(RESET);
    assert(s@ =~= listen_face_2());
    s
}

fn build_listen_face_3() -> (r: String)
    ensures
        r@ == listen_face_3(),
{
    let mut s = String::new();
    s.append("   ");
    s.append(CYAN);
    s.append("╭───");
    s.append(BR_CYAN);
    s.append("◈");
    s.append(CYAN);
    s.append("───────╮");
    s.append(RESET);
    s.append("\n   ");
    s.append(CYAN);
    s.append("│");
    s.append(RESET);
    s.append(" ");
    s.append(BR_CYAN);
    s.append("◎");
    s.append(RESET);
    s.append("     ");
    s.append(BR_CYAN);
    s.append("◎");
    s.append(RESET);
    s.append(" ");
    s.append(CYAN);
    s.append("│");
    s.append(RESET);
    s.append("\n   ");
    s.append(CYAN);
    s.append("│");
    s.append(RESET);
    s.append("    ");
    s.append(MUTED);
    s.append("◡");
    s.append(RESET);
    s.append("    ");
    s.append(CYAN);
    s.append("│");
    s.append(RESET);
    s.append("\n   ");
    s.append(CYAN);
    s.append("╰───────────╯");
    s.append(RESET);
    assert(s@ =~= listen_face_3());
    s
}

fn build_think_face_0() -> (r: String)
    ensures
        r@ == think_face_0(),
{
    let mut s = String::new();
    s.append("   ");
    s.append(CYAN);
    s.append("╭───────────╮");
    s.append(RESET);
    s.append("\n   ");
    s.append(CYAN);
    s.append("│");
    s.append(RESET);
    s.append(" ");
    s.append(BR_YELLOW);
    s.append("◔");
    s.append(RESET);
    s.append("     ");
    s.append(BR_YELLOW);
    s.append("◔");
    s.append(RESET);
    s.append(" ");
    s.append(CYAN);
    s.append("│");
    s.append(RESET);
    s.append("\n   ");
    s.append(CYAN);
    s.append("│");
    s.append(RESET);
    s.append("    ");
    s.append(BR_YELLOW);
    s.append("~");
    s.append(RESET);
    s.append("    ");
    s.append(CYAN);
    s.append("│");
    s.append(RESET);
    s.append("\n   ");
    s.append(CYAN);
    s.append("╰───────────╯");
    s.append(RESET);
    s.append("  ");
    s.append(BR_YELLOW);
    s.append("thinking .");
    s.append(RESET);
    assert(s@ =~= think_face_0());
    s
}

fn build_think_face_1() -> (r: String)
    ensures
        r@ == think_face_1(),
{
    let mut s = String::new();
    s.append("   ");
    s.append(CYAN);
    s.append("╭───────────╮");
    s.append(RESET);
    s.append("\n   ");
    s.append(CYAN);
    s.append("│");
    s.append(RESET);
    s.append(" ");
    s.append(BR_YELLOW);
    s.append("◑");
    s.append(RESET);
    s.append("     ");
    s.append(BR_YELLOW);
    s.append("◑");
    s.append(RESET);
    s.append(" ");
    s.append(CYAN);
    s.append("│");
    s.append(RESET);
    s.append("\n   ");
    s.append(CYAN);
    s.append("│");
    s.append(RESET);
    s.append("    ");
    s.append(BR_YELLOW);
    s.append("~");
    s.append(RESET);
    s.append("    ");
    s.append(CYAN);
    s.append("│");
    s.append(RESET);
    s.append("\n   ");
    s.append(CYAN);
    s.append("╰───────────╯");
    s.append(RESET);
    s.append("  ");
    s.append(BR_YELLOW);
    s.append("thinking ..");
    s.append(RESET);
    assert(s@ =~= think_face_1());
    s
}

fn build_think_face_2() -> (r: String)
    ensures
        r@ == think_face_2(),
{
    let mut s = String::new();
    s.append("   ");
    s.append(CYAN);
    s.append("╭───────────╮");
    s.append(RESET);
    s.append("\n   ");
    s.append(CYAN);
    s.append("│");
    s.append(RESET);
    s.append(" ");
    s.append(BR_YELLOW);
    s.append("◕");
    s.append(RESET);
    s.append("     ");
    s.append(BR_YELLOW);
    s.append("◕");
    s.append(RESET);
    s.append(" ");
    s.append(CYAN);
    s.append("│");
    s.append(RESET);
    s.append("\n   ");
    s.append(CYAN);
    s.append("│");
    s.append(RESET);
    s.append("    ");
    s.append(BR_YELLOW);
    s.append("~");
    s.append(RESET);
    s.append("    ");
    s.append(CYAN);
    s.append("│");
    s.append(RESET);
    s.append("\n   ");
    s.append(CYAN);
    s.append("╰───────────╯");
    s.append(RESET);
    s.append("  ");
    s.append(BR_YELLOW);
    s.append("thinking ...");
    s.append(RESET);
    assert(s@ =~= think_face_2());
    s
}

fn build_speak_face_0() -> (r: String)
    ensures
        r@ == speak_face_0(),
{
    let mut s = String::new();
    s.append("   ");
    s.append(CYAN);
    s.append("╭───────────╮");
    s.append(RESET);
    s.append("\n   ");
    s.append(CYAN);
    s.append("│");
    s.append(RESET);
    s.append(" ");
    s.append(BR_GREEN);
    s.append("◉");
    s.append(RESET);
    s.append("     ");
    s.append(BR_GREEN);
    s.append("◉");
    s.append(RESET);
    s.append(" ");
    s.append(CYAN);
    s.append("│");
    s.append(RESET);
    s.append("\n   ");
    s.append(CYAN);
    s.append("│");
    s.append(RESET);
    s.append("    ");
    s.append(BR_GREEN);
    s.append("○");
    s.append(RESET);
    s.append("    ");
    s.append(CYAN);
    s.append("│");
    s.append(RESET);
    s.append("\n   ");
    s.append(CYAN);
    s.append("╰───────────╯");
    s.append(RESET);
    assert(s@ =~= speak_face_0());
    s
}

fn build_speak_face_1() -> (r: String)
    ensures
        r@ == speak_face_1(),
{
    let mut s = String::new();
    s.append("   ");
    s.append(CYAN);
    s.append("╭───────────╮");
    s.append(RESET);
    s.append("\n   ");
    s.append(CYAN);
    s.append("│");
    s.append(RESET);
    s.append(" ");
    s.append(BR_GREEN);
    s.append("◉");
    s.append(RESET);
    s.append("     ");
    s.append(BR_GREEN);
    s.append("◉");
    s.append(RESET);
    s.append(" ");
    s.append(CYAN);
    s.append("│");
    s.append(RESET);
    s.append("\n   ");
    s.append(CYAN);
    s.append("│");
    s.append(RESET);
    s.append("    ");
    s.append(BR_GREEN);
    s.append("◎");
    s.append(RESET);
    s.append("    ");
    s.append(CYAN);
    s.append("│");
    s.append(RESET);
    s.append("\n   ");
    s.append(CYAN);
    s.append("╰───────────╯");
    s.append(RESET);
    assert(s@ =~= speak_face_1());
    s
}

fn build_speak_face_2() -> (r: String)
    ensures
        r@ == speak_face_2(),
{
    let mut s = String::new();
    s.append("   ");
    s.append(CYAN);
    s.append("╭───────────╮");
    s.append(RESET);
    s.append("\n   ");
    s.append(CYAN);
    s.append("│");
    s.append(RESET);
    s.append(" ");
    s.append(BR_GREEN);
    s.append("◉");
    s.append(RESET);
    s.append("     ");
    s.append(BR_GREEN);
    s.append("◉");
    s.append(RESET);
    s.append(" ");
    s.append(CYAN);
    s.append("│");
    s.append(RESET);
    s.append("\n   ");
    s.append(CYAN);
    s.append("│");
    s.append(RESET);
    s.append("    ");
    s.append(BR_GREEN);
    s.append("▽");
    s.append(RESET);
    s.append("    ");
    s.append(CYAN);
    s.append("│");
    s.append(RESET);
    s.append("\n   ");
    s.append(CYAN);
    s.append("╰───────────╯");
    s.append(RESET);
    assert(s@ =~= speak_face_2());
    s
}

impl Face {
    /// The idle face: friendly, ready.
    pub fn idle() -> (r: String)
        ensures
            r@ == idle_face(),
    {
        let mut s = String::new();
        s.append("\n   ");
        s.append(CYAN);
        s.append("╭───────────╮");
        s.append(RESET);
        s.append("\n   ");
        s.append(CYAN);
        s.append("│");
        s.append(RESET);
        s.append(" ");
        s.append(BR_CYAN);
        s.append("◉");
        s.append(RESET);
        s.append("     ");
        s.append(BR_CYAN);
        s.append("◉");
        s.append(RESET);
        s.append(" ");
        s.append(CYAN);
        s.append("│");
        s.append(RESET);
        s.append("\n   ");
        s.append(CYAN);
        s.append("│");
        s.append(RESET);
        s.append("    ");
        s.append(BR_GREEN);
        s.append("▽");
        s.append(RESET);
        s.append("    ");
        s.append(CYAN);
        s.append("│");
        s.append(RESET);
        s.append("\n   ");
        s.append(CYAN);
        s.append("╰───────────╯");
        s.append(RESET);
        assert(s@ =~= idle_face());
        s
    }

    /// Listening: ears up, eyes wide (four frames).
    pub fn listen_frames() -> (r: Vec<String>)
        ensures
            r@.map_values(|f: String| f@) == seq![listen_face_0(), listen_face_1(), listen_face_2(), listen_face_3()],
    {
        let r = vec![build_listen_face_0(), build_listen_face_1(), build_listen_face_2(), build_listen_face_3()];
        assert(r@.map_values(|f: String| f@) =~= seq![listen_face_0(), listen_face_1(), listen_face_2(), listen_face_3()]);
        r
    }

    /// Thinking: eyes sideways, dots (three frames).
    pub fn think_frames() -> (r: Vec<String>)
        ensures
            r@.map_values(|f: String| f@) == seq![think_face_0(), think_face_1(), think_face_2()],
    {
        let r = vec![build_think_face_0(), build_think_face_1(), build_think_face_2()];
        assert(r@.map_values(|f: String| f@) =~= seq![think_face_0(), think_face_1(), think_face_2()]);
        r
    }

    /// Speaking: the mouth moves (three frames).
    pub fn speak_frames() -> (r: Vec<String>)
        ensures
            r@.map_values(|f: String| f@) == seq![speak_face_0(), speak_face_1(), speak_face_2()],
    {
        let r = vec![build_speak_face_0(), build_speak_face_1(), build_speak_face_2()];
        assert(r@.map_values(|f: String| f@) =~= seq![speak_face_0(), speak_face_1(), speak_face_2()]);
        r
    }

    /// The error face: distressed.
    pub fn error() -> (r: String)
        ensures
            r@ == error_face(),
    {
        let mut s = String::new();
        s.append("\n   ");
        s.append(RED);
        s.append("╭───────────╮");
        s.append(RESET);
        s.append("\n   ");
        s.append(RED);
        s.append("│");
        s.append(RESET);
        s.append(" ");
        s.append(BR_RED);
        s.append("✖");
        s.append(RESET);
        s.append("     ");
        s.append(BR_RED);
        s.append("✖");
        s.append(RESET);
        s.append(" ");
        s.append(RED);
        s.append("│");
        s.append(RESET);
        s.append("\n   ");
        s.append(RED);
        s.append("│");
        s.append(RESET);
        s.append("    ");
        s.append(BR_RED);
        s.append("△");
        s.append(RESET);
        s.append("    ");
        s.append(RED);
        s.append("│");
        s.append(RESET);
        s.append("\n   ");
        s.append(RED);
        s.append("╰───────────╯");
        s.append(RESET);
        assert(s@ =~= error_face());
        s
    }
}

} // verus!
