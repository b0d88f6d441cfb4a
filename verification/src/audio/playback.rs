//! The playback queue's shared state: whether to stop at once (barge-in),
//! whether sound is coming out, and which sentences have started playing
//! (what the user actually heard). The program shares it between the
//! player thread and the voice loop behind a lock.
use vstd::prelude::*;

verus! {

/// One piece of audio to play and the sentence it speaks.
#[derive(Debug, Clone)]
pub struct PlayItem {
    pub text: String,
    pub audio: Vec<u8>,
}

/// The player's state.
#[derive(Debug, Clone)]
pub struct PlayerState {
    /// Set to stop playing and quit at once (an interruption).
    pub stop: bool,
    /// Sound is coming out (false between sentences).
    pub playing: bool,
    /// The sentences that have started playing, in order.
    pub spoken: Vec<String>,
}

/// Sentences laid end to end.
pub open spec fn concat_all(s: Seq<Seq<char>>) -> Seq<char>
    decreases s.len(),
{
    if s.len() == 0 {
        Seq::empty()
    } else {
        concat_all(s.drop_last()) + s.last()
    }
}

impl PlayerState {
    /// The sentences spoken so far, as text.
    pub open spec fn spoken_view(&self) -> Seq<Seq<char>> {
        self.spoken@.map_values(|s: String| s@)
    }

    pub fn new() -> (r: Self)
        ensures
            !r.stop,
            !r.playing,
            r.spoken@.len() == 0,
    {
        PlayerState { stop: false, playing: false, spoken: Vec::new() }
    }

    /// A sentence starts playing: it counts as said.
    pub fn begin(&mut self, text: &str)
        ensures
            final(self).spoken_view() == old(self).spoken_view().push(text@),
            final(self).stop == old(self).stop,
            final(self).playing == old(self).playing,
    {
        let ghost before = self.spoken_view();
        self.spoken.push(crate::text::owned(text));
        assert(self.spoken_view() =~= before.push(text@));
    }

    /// What the user has heard: the started sentences joined.
    pub fn spoken_text(&self) -> (r: String)
        ensures
            r@ == concat_all(self.spoken_view()),
    {
        let mut s = String::new();
        let mut i: usize = 0;
        while i < self.spoken.len()
            invariant
                i <= self.spoken@.len(),
                s@ == concat_all(self.spoken_view().subrange(0, i as int)),
            decreases self.spoken.len() - i,
        {
            assert(self.spoken_view().subrange(0, i + 1).drop_last() =~= self.spoken_view().subrange(
                0,
                i as int,
            ));
            s.append(self.spoken[i].as_str());
            i += 1;
        }
        assert(self.spoken_view().subrange(0, self.spoken@.len() as int) =~= self.spoken_view());
        s
    }
}

} // verus!
