//! Speech services: the recognition context and synthesis options, the
//! speech service's wire protocol and request rules, and which provider
//! the configuration names.
pub mod asr;
pub mod doubao;
pub mod tts;

use vstd::prelude::*;

use crate::text::{owned, str_eq};

verus! {

/// The provider named in the configuration must be "doubao", the only
/// one there is; otherwise the message says so.
pub fn check_provider(provider: &str) -> (r: Result<(), String>)
    ensures
        match r {
            Ok(()) => provider@ == "doubao"@,
            Err(m) => provider@ != "doubao"@ && m@ == "不支持的语音供应商: "@ + provider@
                + "（目前仅支持 doubao）"@,
        },
{
    if str_eq(provider, "doubao") {
        Ok(())
    } else {
        let mut m = owned("不支持的语音供应商: ");
        m.append(provider);
        m.append("（目前仅支持 doubao）");
        Err(m)
    }
}

} // verus!
