use chatbot::audio::capture::{SpeechGate, VAD_WINDOW};

#[test]
fn sustained_sound_opens_gate() {
    let mut g = SpeechGate::new();
    let mut fired = None;
    for _ in 0..VAD_WINDOW {
        fired = g.push(true).or(fired);
    }
    assert_eq!(fired, Some(VAD_WINDOW));
}

#[test]
fn percussive_keyboard_pattern_never_opens_gate() {
    let mut g = SpeechGate::new();
    for i in 0..(VAD_WINDOW * 4) {
        assert_eq!(g.push(i % 3 == 0), None);
    }
}

#[test]
fn gate_needs_a_full_window_first() {
    let mut g = SpeechGate::new();
    for _ in 0..(VAD_WINDOW - 1) {
        assert_eq!(g.push(true), None);
    }
}

#[test]
fn gate_resets_after_firing() {
    let mut g = SpeechGate::new();
    for _ in 0..VAD_WINDOW {
        g.push(true);
    }
    for _ in 0..(VAD_WINDOW - 1) {
        assert_eq!(g.push(true), None);
    }
    assert_eq!(g.push(true), Some(VAD_WINDOW));
}
