//! What the provider list of the setup wizard shows for each preset.
use vstd::prelude::*;

use crate::cmd::config::position_of;
use crate::config::store::{first_named_from, has_profile, AppConfig};
use crate::text::owned;

verus! {

/// The badge a provider gets in the wizard's list: "已配置" when a profile
/// of its name exists, else none.
pub fn preset_badge(cfg: &AppConfig, name: &str) -> (r: &'static str)
    ensures
        r@ == (if has_profile(cfg@.profiles, name@) {
            "已配置"@
        } else {
            ""@
        }),
{
    match position_of(&cfg.llm_profiles, name) {
        Some(_) => "已配置",
        None => "",
    }
}

/// The model the wizard offers for a provider: that of the existing
/// profile of its name, else the provider's default.
pub fn preset_model(cfg: &AppConfig, name: &str, default_model: &str) -> (r: String)
    ensures
        r@ == (match first_named_from(cfg@.profiles, name@, 0) {
            Some(i) => cfg@.profiles[i].model,
            None => default_model@,
        }),
{
    match position_of(&cfg.llm_profiles, name) {
        Some(i) => {
            assert(cfg@.profiles[i as int].model == cfg.llm_profiles@[i as int].model@);
            cfg.llm_profiles[i].model.clone()
        },
        None => owned(default_model),
    }
}

} // verus!
