use control_surface::debounce::{Monitor, Phase, Signal, Wait, QUIET_INTERVAL_MS};
use control_surface::event::{ButtonEvent, Mode};

#[test]
fn quiet_interval_is_fifty_milliseconds() {
    assert_eq!(QUIET_INTERVAL_MS, 50);
}

#[test]
fn new_monitor_is_armed_for_press() {
    let m = Monitor::new(3, Mode::Momentary);
    assert_eq!(m.button, 3);
    assert_eq!(m.mode, Mode::Momentary);
    assert_eq!(m.phase, Phase::ArmedForPress);
    assert_eq!(m.awaiting(), Wait::RisingEdge);
    assert!(!m.stable_level());
}

#[test]
fn momentary_press_then_release_emits_pressed_then_released() {
    let mut m = Monitor::new(4, Mode::Momentary);
    let events = m.feed(&vec![
        Signal::RisingEdge,
        Signal::QuietElapsed,
        Signal::FallingEdge,
        Signal::QuietElapsed,
    ]);
    assert_eq!(
        events,
        vec![
            ButtonEvent::MomentaryPressed { button: 4 },
            ButtonEvent::MomentaryReleased { button: 4 },
        ]
    );
    assert_eq!(m, Monitor::new(4, Mode::Momentary));
}

#[test]
fn momentary_press_is_emitted_on_the_edge_itself() {
    let mut m = Monitor::new(1, Mode::Momentary);
    assert_eq!(m.step(Signal::RisingEdge), Some(ButtonEvent::MomentaryPressed { button: 1 }));
    assert_eq!(m.phase, Phase::DebouncingPressed);
    assert_eq!(m.awaiting(), Wait::Quiet { millis: 50 });
    assert!(m.stable_level());
    assert_eq!(m.step(Signal::QuietElapsed), None);
    assert_eq!(m.phase, Phase::ArmedForRelease);
    assert_eq!(m.awaiting(), Wait::FallingEdge);
    assert!(m.stable_level());
    assert_eq!(m.step(Signal::FallingEdge), Some(ButtonEvent::MomentaryReleased { button: 1 }));
    assert_eq!(m.phase, Phase::DebouncingReleased);
    assert_eq!(m.awaiting(), Wait::Quiet { millis: 50 });
    assert!(!m.stable_level());
    assert_eq!(m.step(Signal::QuietElapsed), None);
    assert_eq!(m.phase, Phase::ArmedForPress);
}

#[test]
fn scene_tap_emits_one_activation_at_release() {
    let mut m = Monitor::new(7, Mode::Scene { group: 0 });
    assert_eq!(m.step(Signal::RisingEdge), None);
    assert_eq!(m.step(Signal::QuietElapsed), None);
    assert_eq!(m.step(Signal::FallingEdge), Some(ButtonEvent::ScenePressed { button: 7 }));
    assert_eq!(m.step(Signal::QuietElapsed), None);
    assert_eq!(m.phase, Phase::ArmedForPress);
}

#[test]
fn scene_press_held_without_release_emits_nothing() {
    let mut m = Monitor::new(7, Mode::Scene { group: 2 });
    let events = m.feed(&vec![
        Signal::RisingEdge,
        Signal::RisingEdge,
        Signal::QuietElapsed,
        Signal::QuietElapsed,
        Signal::RisingEdge,
    ]);
    assert_eq!(events, vec![]);
    assert_eq!(m.phase, Phase::ArmedForRelease);
}

#[test]
fn three_bounces_after_a_rising_edge_yield_one_press() {
    let mut m = Monitor::new(2, Mode::Momentary);
    let events = m.feed(&vec![
        Signal::RisingEdge,
        Signal::FallingEdge,
        Signal::RisingEdge,
        Signal::FallingEdge,
        Signal::RisingEdge,
        Signal::FallingEdge,
        Signal::RisingEdge,
    ]);
    assert_eq!(events, vec![ButtonEvent::MomentaryPressed { button: 2 }]);
    assert_eq!(m.phase, Phase::DebouncingPressed);
}

#[test]
fn bounces_after_a_falling_edge_yield_one_release() {
    let mut m = Monitor::new(2, Mode::Momentary);
    let events = m.feed(&vec![
        Signal::RisingEdge,
        Signal::QuietElapsed,
        Signal::FallingEdge,
        Signal::RisingEdge,
        Signal::FallingEdge,
        Signal::QuietElapsed,
    ]);
    assert_eq!(
        events,
        vec![
            ButtonEvent::MomentaryPressed { button: 2 },
            ButtonEvent::MomentaryReleased { button: 2 },
        ]
    );
    assert_eq!(m.phase, Phase::ArmedForPress);
}

#[test]
fn signals_the_monitor_is_not_armed_for_change_nothing() {
    let mut m = Monitor::new(5, Mode::Momentary);
    assert_eq!(m.step(Signal::FallingEdge), None);
    assert_eq!(m.step(Signal::QuietElapsed), None);
    assert_eq!(m.phase, Phase::ArmedForPress);
    let mut held = Monitor { button: 5, mode: Mode::Momentary, phase: Phase::ArmedForRelease };
    assert_eq!(held.step(Signal::RisingEdge), None);
    assert_eq!(held.step(Signal::QuietElapsed), None);
    assert_eq!(held.phase, Phase::ArmedForRelease);
}

#[test]
fn two_taps_in_a_row_emit_two_pairs() {
    let mut m = Monitor::new(0, Mode::Momentary);
    let tap = vec![
        Signal::RisingEdge,
        Signal::QuietElapsed,
        Signal::FallingEdge,
        Signal::QuietElapsed,
    ];
    let mut twice = tap.clone();
    twice.extend(tap);
    let events = m.feed(&twice);
    assert_eq!(
        events,
        vec![
            ButtonEvent::MomentaryPressed { button: 0 },
            ButtonEvent::MomentaryReleased { button: 0 },
            ButtonEvent::MomentaryPressed { button: 0 },
            ButtonEvent::MomentaryReleased { button: 0 },
        ]
    );
}

#[test]
fn feed_of_nothing_emits_nothing() {
    let mut m = Monitor::new(9, Mode::Scene { group: 1 });
    assert_eq!(m.feed(&vec![]), vec![]);
    assert_eq!(m, Monitor::new(9, Mode::Scene { group: 1 }));
}

#[test]
fn event_names_its_button() {
    assert_eq!(ButtonEvent::ScenePressed { button: 8 }.button(), 8);
    assert_eq!(ButtonEvent::MomentaryPressed { button: 9 }.button(), 9);
    assert_eq!(ButtonEvent::MomentaryReleased { button: 10 }.button(), 10);
}

#[test]
fn momentary_events_alternate_over_a_messy_trace() {
    let mut m = Monitor::new(6, Mode::Momentary);
    let events = m.feed(&vec![
        Signal::QuietElapsed,
        Signal::FallingEdge,
        Signal::RisingEdge,
        Signal::RisingEdge,
        Signal::FallingEdge,
        Signal::QuietElapsed,
        Signal::QuietElapsed,
        Signal::RisingEdge,
        Signal::FallingEdge,
        Signal::FallingEdge,
        Signal::QuietElapsed,
        Signal::FallingEdge,
        Signal::RisingEdge,
        Signal::QuietElapsed,
        Signal::FallingEdge,
        Signal::QuietElapsed,
        Signal::RisingEdge,
    ]);
    assert_eq!(
        events,
        vec![
            ButtonEvent::MomentaryPressed { button: 6 },
            ButtonEvent::MomentaryReleased { button: 6 },
            ButtonEvent::MomentaryPressed { button: 6 },
            ButtonEvent::MomentaryReleased { button: 6 },
            ButtonEvent::MomentaryPressed { button: 6 },
        ]
    );
    assert!(m.stable_level());
}

#[test]
fn scene_tap_with_chatter_emits_one_activation() {
    let mut m = Monitor::new(3, Mode::Scene { group: 1 });
    let events = m.feed(&vec![
        Signal::RisingEdge,
        Signal::FallingEdge,
        Signal::RisingEdge,
        Signal::QuietElapsed,
        Signal::FallingEdge,
        Signal::RisingEdge,
        Signal::FallingEdge,
        Signal::QuietElapsed,
    ]);
    assert_eq!(events, vec![ButtonEvent::ScenePressed { button: 3 }]);
    assert_eq!(m, Monitor::new(3, Mode::Scene { group: 1 }));
}
