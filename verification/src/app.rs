use vstd::prelude::*;

verus! {

/// Where the simulation stands, as the control panel sees it.
#[derive(Debug, PartialEq, Eq, Structural, Clone, Copy)]
pub enum SimulationState {
    Stopped,
    Running,
    Paused,
}

impl Default for SimulationState {
    fn default() -> (s: Self)
        ensures
            s == SimulationState::Stopped,
    {
        SimulationState::Stopped
    }
}

/// The page shown in the main window.
#[derive(Debug, PartialEq, Eq, Structural, Clone, Copy)]
pub enum Tab {
    Dashboard,
    About,
}

impl Default for Tab {
    fn default() -> (t: Self)
        ensures
            t == Tab::Dashboard,
    {
        Tab::Dashboard
    }
}

/// A button of the control panel.
#[derive(Debug, PartialEq, Eq, Structural, Clone, Copy)]
pub enum ControlButton {
    Start,
    Pause,
    Resume,
    Reset,
}

/// Whether `button` can be pressed while the simulation is in `state`:
/// a stopped simulation can be started, a running one paused, a paused one
/// resumed, and any of them reset.
pub open spec fn button_enabled(state: SimulationState, button: ControlButton) -> bool {
    match button {
        ControlButton::Start => state == SimulationState::Stopped,
        ControlButton::Pause => state == SimulationState::Running,
        ControlButton::Resume => state == SimulationState::Paused,
        ControlButton::Reset => true,
    }
}

/// The state a press of `button` leads to.
pub open spec fn state_after(button: ControlButton) -> SimulationState {
    match button {
        ControlButton::Start => SimulationState::Running,
        ControlButton::Pause => SimulationState::Paused,
        ControlButton::Resume => SimulationState::Running,
        ControlButton::Reset => SimulationState::Stopped,
    }
}

impl SimulationState {
    pub fn is_enabled(&self, button: ControlButton) -> (enabled: bool)
        ensures
            enabled == button_enabled(*self, button),
    {
        match button {
            ControlButton::Start => *self == SimulationState::Stopped,
            ControlButton::Pause => *self == SimulationState::Running,
            ControlButton::Resume => *self == SimulationState::Paused,
            ControlButton::Reset => true,
        }
    }

    /// A click on `button`: when the button is enabled the state moves on and
    /// the result is `true` (the caller then sends the button's command);
    /// a click on a disabled button changes nothing and gives `false`.
    pub fn press(&mut self, button: ControlButton) -> (accepted: bool)
        ensures
            accepted == button_enabled(*old(self), button),
            *final(self) == if accepted {
                state_after(button)
            } else {
                *old(self)
            },
    {
        if self.is_enabled(button) {
            *self = match button {
                ControlButton::Start => SimulationState::Running,
                ControlButton::Pause => SimulationState::Paused,
                ControlButton::Resume => SimulationState::Running,
                ControlButton::Reset => SimulationState::Stopped,
            };
            true
        } else {
            false
        }
    }
}

/// In every state exactly one of Start, Pause and Resume can be pressed,
/// and Reset always can.
pub proof fn lemma_one_way_forward(state: SimulationState)
    ensures
        button_enabled(state, ControlButton::Reset),
        button_enabled(state, ControlButton::Start) ==> !button_enabled(state, ControlButton::Pause)
            && !button_enabled(state, ControlButton::Resume),
        button_enabled(state, ControlButton::Pause) ==> !button_enabled(state, ControlButton::Start)
            && !button_enabled(state, ControlButton::Resume),
        button_enabled(state, ControlButton::Resume) ==> !button_enabled(state, ControlButton::Start)
            && !button_enabled(state, ControlButton::Pause),
        button_enabled(state, ControlButton::Start) || button_enabled(state, ControlButton::Pause)
            || button_enabled(state, ControlButton::Resume),
{
}

/// A button other than Reset cannot be pressed twice in a row: the state a
/// press leads to disables it.
pub proof fn lemma_no_double_press(state: SimulationState, button: ControlButton)
    requires
        button_enabled(state, button),
        button != ControlButton::Reset,
    ensures
        !button_enabled(state_after(button), button),
{
}

/// Pausing a running simulation and resuming it brings it back to running.
pub proof fn lemma_pause_then_resume()
    ensures
        button_enabled(SimulationState::Running, ControlButton::Pause),
        button_enabled(state_after(ControlButton::Pause), ControlButton::Resume),
        state_after(ControlButton::Resume) == SimulationState::Running,
{
}

/// Reset is always accepted and leaves a stopped simulation, which can
/// only be started.
pub proof fn lemma_reset_stops(state: SimulationState)
    ensures
        button_enabled(state, ControlButton::Reset),
        state_after(ControlButton::Reset) == SimulationState::Stopped,
        button_enabled(SimulationState::Stopped, ControlButton::Start),
        !button_enabled(SimulationState::Stopped, ControlButton::Pause),
        !button_enabled(SimulationState::Stopped, ControlButton::Resume),
{
}

} // verus!
