use tether_quart::app::{ControlButton, SimulationState, Tab};

const STATES: [SimulationState; 3] = [
    SimulationState::Stopped,
    SimulationState::Running,
    SimulationState::Paused,
];

const BUTTONS: [ControlButton; 4] = [
    ControlButton::Start,
    ControlButton::Pause,
    ControlButton::Resume,
    ControlButton::Reset,
];

#[test]
fn defaults_are_stopped_and_dashboard() {
    assert_eq!(SimulationState::default(), SimulationState::Stopped);
    assert_eq!(Tab::default(), Tab::Dashboard);
}

#[test]
fn enabled_buttons_per_state() {
    let s = SimulationState::Stopped;
    assert!(s.is_enabled(ControlButton::Start));
    assert!(!s.is_enabled(ControlButton::Pause));
    assert!(!s.is_enabled(ControlButton::Resume));
    assert!(s.is_enabled(ControlButton::Reset));

    let r = SimulationState::Running;
    assert!(!r.is_enabled(ControlButton::Start));
    assert!(r.is_enabled(ControlButton::Pause));
    assert!(!r.is_enabled(ControlButton::Resume));
    assert!(r.is_enabled(ControlButton::Reset));

    let p = SimulationState::Paused;
    assert!(!p.is_enabled(ControlButton::Start));
    assert!(!p.is_enabled(ControlButton::Pause));
    assert!(p.is_enabled(ControlButton::Resume));
    assert!(p.is_enabled(ControlButton::Reset));
}

#[test]
fn exactly_one_way_forward_in_every_state() {
    for s in STATES {
        let forward = [ControlButton::Start, ControlButton::Pause, ControlButton::Resume]
            .iter()
            .filter(|b| s.is_enabled(**b))
            .count();
        assert_eq!(forward, 1);
        assert!(s.is_enabled(ControlButton::Reset));
    }
}

#[test]
fn start_pause_resume_reset_cycle() {
    let mut s = SimulationState::default();
    assert!(s.press(ControlButton::Start));
    assert_eq!(s, SimulationState::Running);
    assert!(s.press(ControlButton::Pause));
    assert_eq!(s, SimulationState::Paused);
    assert!(s.press(ControlButton::Resume));
    assert_eq!(s, SimulationState::Running);
    assert!(s.press(ControlButton::Reset));
    assert_eq!(s, SimulationState::Stopped);
}

#[test]
fn disabled_press_changes_nothing() {
    let mut s = SimulationState::Stopped;
    assert!(!s.press(ControlButton::Pause));
    assert_eq!(s, SimulationState::Stopped);
    assert!(!s.press(ControlButton::Resume));
    assert_eq!(s, SimulationState::Stopped);
    let mut r = SimulationState::Running;
    assert!(!r.press(ControlButton::Start));
    assert_eq!(r, SimulationState::Running);
}

#[test]
fn no_button_but_reset_works_twice_in_a_row() {
    for s in STATES {
        for b in BUTTONS {
            let mut state = s;
            if state.press(b) && b != ControlButton::Reset {
                assert!(!state.press(b));
            }
        }
    }
}

#[test]
fn reset_from_every_state_stops() {
    for s in STATES {
        let mut state = s;
        assert!(state.press(ControlButton::Reset));
        assert_eq!(state, SimulationState::Stopped);
    }
}
