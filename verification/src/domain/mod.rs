//! Pure rules of the assistant: no I/O, only values in and values out.
pub mod health;
pub mod semver;
pub mod sentence;
pub mod wake;
