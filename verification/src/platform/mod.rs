//! Operating-system integration: where the daemon's files live, how the
//! program was installed, the upgrade hint, and desktop notifications.
pub mod notify;
pub mod service;
pub mod update;
