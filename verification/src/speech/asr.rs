//! What speech recognition is given besides the audio: hot words and the
//! recent dialog, which the service uses to correct its transcript.
use vstd::prelude::*;

verus! {

/// Who said a line of the dialog.
#[derive(Debug, Clone, Copy, PartialEq, Eq, Structural)]
pub enum Speaker {
    User,
    Bot,
}

/// One line of the recent dialog.
#[derive(Debug, Clone)]
pub struct DialogTurn {
    pub speaker: Speaker,
    pub text: String,
}

/// Recognition context: hot words (assistant name, wake word) and the
/// last few dialog lines.
#[derive(Debug, Clone)]
pub struct AsrContext {
    pub hotwords: Vec<String>,
    pub dialog: Vec<DialogTurn>,
}

impl View for DialogTurn {
    type V = (Speaker, Seq<char>);

    open spec fn view(&self) -> (Speaker, Seq<char>) {
        (self.speaker, self.text@)
    }
}

impl AsrContext {
    /// The hot words as character sequences.
    pub open spec fn words(&self) -> Seq<Seq<char>> {
        self.hotwords@.map_values(|w: String| w@)
    }

    /// The dialog lines as (speaker, text).
    pub open spec fn lines(&self) -> Seq<(Speaker, Seq<char>)> {
        self.dialog@.map_values(|t: DialogTurn| t@)
    }
}

impl Default for AsrContext {
    fn default() -> (r: Self)
        ensures
            r.hotwords@.len() == 0,
            r.dialog@.len() == 0,
    {
        AsrContext { hotwords: Vec::new(), dialog: Vec::new() }
    }
}

} // verus!
