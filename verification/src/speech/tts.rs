//! Options that make synthesized speech sound less read-out.
use vstd::prelude::*;

verus! {

/// Synthesis options; all optional.
#[derive(Debug, Clone)]
pub struct TtsOptions {
    /// Shared by all sentences of one reply, so the tone carries across them.
    pub section_id: Option<String>,
    /// Quoted context (read, not spoken): usually what the user just said.
    pub context_text: Option<String>,
    /// A style instruction, such as "say it casually".
    pub instruction: Option<String>,
}

impl Default for TtsOptions {
    fn default() -> (r: Self)
        ensures
            r.section_id is None,
            r.context_text is None,
            r.instruction is None,
    {
        TtsOptions { section_id: None, context_text: None, instruction: None }
    }
}

} // verus!
