//! The decisions of the voice loop: what to do with what was heard, how
//! long to wait before retrying the microphone, what goes into the
//! conversation and the recognition context.
pub mod voice;
