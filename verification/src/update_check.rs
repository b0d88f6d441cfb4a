//! The release check as the voice loop first used it (stable releases
//! only). The rules are the ones of `platform::update`.
pub use crate::domain::semver::parse_major_minor;
pub use crate::platform::update::{
    channel_of, pending_notice, should_check, upgrade_hint, version_of_tag, Cache, Channel,
    CACHE_FILE, CHECK_INTERVAL_SECS, REPO,
};
