//! Audio: device description, the voice-activity gate and the playback
//! queue's state.
pub mod capture;
pub mod playback;

use vstd::prelude::*;

verus! {

/// Input device format.
#[derive(Clone, Copy, Debug)]
pub struct DeviceInfo {
    pub sample_rate: u32,
    pub channels: u16,
}

/// Sample rate the speech recognizer takes.
pub const TARGET_RATE: u32 = 16000;

} // verus!
