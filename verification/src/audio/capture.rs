//! Voice-activity gate: a sliding window over per-chunk loudness.
//!
//! It fires once at least VAD_TRIGGER of the last VAD_WINDOW chunks were
//! loud; keyboard clicks (loud about 40% of the time) stay below that.
use std::collections::VecDeque;

use vstd::prelude::*;

verus! {

/// Window size in chunks (about 0.6 s at 48 kHz, 1024 frames per chunk).
pub const VAD_WINDOW: usize = 30;
/// Loud chunks within a full window that count as speech (73%).
pub const VAD_TRIGGER: usize = 22;
/// Loud chunks a recording needs, else it is dropped as noise.
pub const MIN_LOUD_CHUNKS: usize = 15;

/// Number of `true` entries.
pub open spec fn count_loud(s: Seq<bool>) -> nat
    decreases s.len(),
{
    if s.len() == 0 {
        0
    } else {
        count_loud(s.drop_last()) + if s.last() {
            1nat
        } else {
            0nat
        }
    }
}

/// The window after pushing `loud`: the oldest entry drops out past
/// `VAD_WINDOW`.
pub open spec fn slide(w: Seq<bool>, loud: bool) -> Seq<bool> {
    let pushed = w.push(loud);
    if pushed.len() > VAD_WINDOW {
        pushed.drop_first()
    } else {
        pushed
    }
}

/// Whether the window counts as speech.
pub open spec fn opens(w: Seq<bool>) -> bool {
    w.len() >= VAD_WINDOW && count_loud(w) >= VAD_TRIGGER
}

/// A `SpeechGate` cannot open before a full window of chunks has been
/// heard since it was created or last opened: each push only lengthens a
/// short window by one.
pub proof fn law_gate_needs_full_window(w: Seq<bool>, loud: bool)
    requires
        w.len() + 1 < VAD_WINDOW,
    ensures
        slide(w, loud).len() == w.len() + 1,
        !opens(slide(w, loud)),
{
}

/// Sliding-window speech detector.
#[derive(Debug)]
pub struct SpeechGate {
    window: VecDeque<bool>,
}

impl View for SpeechGate {
    type V = Seq<bool>;

    /// Loudness of the most recent chunks, oldest first.
    closed spec fn view(&self) -> Seq<bool> {
        self.window@
    }
}

impl Default for SpeechGate {
    fn default() -> (r: Self)
        ensures
            r@ == Seq::<bool>::empty(),
    {
        SpeechGate { window: VecDeque::new() }
    }
}

impl SpeechGate {
    pub fn new() -> (r: Self)
        ensures
            r@ == Seq::<bool>::empty(),
    {
        SpeechGate { window: VecDeque::new() }
    }

    /// Pushes one chunk's loudness. When the full window is mostly loud the
    /// gate opens: returns the loud count and empties the window.
    pub fn push(&mut self, loud: bool) -> (r: Option<usize>)
        ensures
            ({
                let w = slide(old(self)@, loud);
                if opens(w) {
                    r == Some(count_loud(w) as usize) && final(self)@ == Seq::<bool>::empty()
                } else {
                    r is None && final(self)@ == w
                }
            }),
            old(self)@.len() <= VAD_WINDOW ==> final(self)@.len() <= VAD_WINDOW,
    {
        self.window.push_back(loud);
        if self.window.len() > VAD_WINDOW {
            self.window.pop_front();
        }
        let ghost w = self.window@;
        let mut n: usize = 0;
        let mut i: usize = 0;
        while i < self.window.len()
            invariant
                w == self.window@,
                i <= w.len(),
                n == count_loud(w.subrange(0, i as int)),
                n <= i,
            decreases w.len() - i,
        {
            assert(w.subrange(0, i + 1).drop_last() == w.subrange(0, i as int));
            if self.window[i] {
                n += 1;
            }
            i += 1;
        }
        assert(w.subrange(0, w.len() as int) == w);
        if self.window.len() >= VAD_WINDOW && n >= VAD_TRIGGER {
            self.window.clear();
            Some(n)
        } else {
            None
        }
    }
}

} // verus!
