use vstd::prelude::*;

use crate::app::{button_enabled, state_after, ControlButton, SimulationState};

verus! {

/// An order to the simulation worker; `Start` carries the simulation to run.
pub enum ControlCommand<S> {
    Start(S),
    Pause,
    Resume,
    Reset,
}

/// The worker's control state: the simulation it runs, if any, and whether
/// it is paused.
pub struct SimulationControl<S> {
    pub active: Option<S>,
    pub paused: bool,
}

impl<S> SimulationControl<S> {
    /// The control state after `cmd`: `Start` replaces the simulation and
    /// unpauses, `Pause` and `Resume` set the pause flag, `Reset` drops the
    /// simulation and leaves the flag as it was.
    pub open spec fn after(self, cmd: ControlCommand<S>) -> Self {
        match cmd {
            ControlCommand::Start(sim) => SimulationControl { active: Some(sim), paused: false },
            ControlCommand::Pause => SimulationControl { active: self.active, paused: true },
            ControlCommand::Resume => SimulationControl { active: self.active, paused: false },
            ControlCommand::Reset => SimulationControl { active: None, paused: self.paused },
        }
    }

    /// The worker advances the simulation when it has one and is not paused.
    pub open spec fn stepping(self) -> bool {
        self.active is Some && !self.paused
    }

    pub fn new() -> (c: Self)
        ensures
            c.active is None,
            !c.paused,
    {
        SimulationControl { active: None, paused: false }
    }

    pub fn apply(&mut self, cmd: ControlCommand<S>)
        ensures
            *final(self) == old(self).after(cmd),
    {
        match cmd {
            ControlCommand::Start(sim) => {
                self.active = Some(sim);
                self.paused = false;
            },
            ControlCommand::Pause => {
                self.paused = true;
            },
            ControlCommand::Resume => {
                self.paused = false;
            },
            ControlCommand::Reset => {
                self.active = None;
            },
        }
    }

    pub fn should_step(&self) -> (step: bool)
        ensures
            step == self.stepping(),
    {
        self.active.is_some() && !self.paused
    }

    /// A step that failed ends the simulation.
    pub fn step_failed(&mut self)
        ensures
            final(self).active is None,
            final(self).paused == old(self).paused,
    {
        self.active = None;
    }
}

/// A started simulation is stepped until it is paused, reset or fails.
pub proof fn lemma_start_steps<S>(c: SimulationControl<S>, sim: S)
    ensures
        c.after(ControlCommand::Start(sim)).stepping(),
        c.after(ControlCommand::Start(sim)).active == Some(sim),
        !c.after(ControlCommand::Start(sim)).after(ControlCommand::Pause).stepping(),
        !c.after(ControlCommand::Start(sim)).after(ControlCommand::Reset).stepping(),
{
}

/// Pausing and resuming keeps the simulation; resuming after a pause is the
/// same as resuming at once.
pub proof fn lemma_pause_resume<S>(c: SimulationControl<S>)
    ensures
        c.after(ControlCommand::Pause).active == c.active,
        c.after(ControlCommand::Pause).after(ControlCommand::Resume) == c.after(ControlCommand::Resume),
        c.after(ControlCommand::Pause).after(ControlCommand::Resume).stepping() == (c.active is Some),
{
}

/// After a reset nothing is stepped until the next start, whatever pauses and
/// resumes come in between.
pub proof fn lemma_reset_until_start<S>(c: SimulationControl<S>, cmds: Seq<ControlCommand<S>>)
    requires
        forall|i: int| 0 <= i < cmds.len() ==> !(#[trigger] cmds[i] is Start),
    ensures
        !replay(c.after(ControlCommand::Reset), cmds).stepping(),
        replay(c.after(ControlCommand::Reset), cmds).active is None,
    decreases cmds.len(),
{
    if cmds.len() > 0 {
        assert(!(cmds[cmds.len() - 1] is Start));
        lemma_reset_until_start(c, cmds.drop_last());
    }
}

/// The control state after the commands `cmds`, in order.
pub open spec fn replay<S>(c: SimulationControl<S>, cmds: Seq<ControlCommand<S>>) -> SimulationControl<S>
    decreases cmds.len(),
{
    if cmds.len() == 0 {
        c
    } else {
        replay(c, cmds.drop_last()).after(cmds.last())
    }
}

/// Some `Start` among `cmds` is followed by no `Reset`.
pub open spec fn started_since_reset<S>(cmds: Seq<ControlCommand<S>>) -> bool {
    exists|i: int|
        0 <= i < cmds.len() && #[trigger] cmds[i] is Start && forall|j: int|
            i < j < cmds.len() ==> !(#[trigger] cmds[j] is Reset)
}

/// Some `Pause` among `cmds` is followed by no `Start` and no `Resume`.
pub open spec fn paused_since_start<S>(cmds: Seq<ControlCommand<S>>) -> bool {
    exists|i: int|
        0 <= i < cmds.len() && #[trigger] cmds[i] is Pause && forall|j: int|
            i < j < cmds.len() ==> !(#[trigger] cmds[j] is Start || cmds[j] is Resume)
}

/// From a fresh worker, the commands `cmds` leave a simulation to run
/// exactly when one was started and not reset since, and leave the worker
/// paused exactly when it was paused and neither started nor resumed since;
/// so it steps exactly when both hold as they should.
pub proof fn lemma_replay_from_idle<S>(cmds: Seq<ControlCommand<S>>)
    ensures
        (replay(SimulationControl { active: None, paused: false }, cmds).active is Some)
            == started_since_reset(cmds),
        replay(SimulationControl { active: None, paused: false }, cmds).paused
            == paused_since_start(cmds),
        replay(SimulationControl { active: None, paused: false }, cmds).stepping() == (
        started_since_reset(cmds) && !paused_since_start(cmds)),
    decreases cmds.len(),
{
    let idle = SimulationControl::<S> { active: None, paused: false };
    if cmds.len() > 0 {
        let n = cmds.len() - 1;
        let prefix = cmds.drop_last();
        lemma_replay_from_idle(prefix);
        let last = cmds[n];
        assert(forall|k: int| 0 <= k < n ==> #[trigger] cmds[k] == prefix[k]);
        // Witnesses carry over between `cmds` and its prefix when the last
        // command does not bear on the property.
        if started_since_reset(prefix) && !(last is Reset) {
            let i = choose|i: int|
                0 <= i < prefix.len() && #[trigger] prefix[i] is Start && forall|j: int|
                    i < j < prefix.len() ==> !(#[trigger] prefix[j] is Reset);
            assert(cmds[i] is Start);
            assert forall|j: int| i < j < cmds.len() implies !(#[trigger] cmds[j] is Reset) by {
                if j < n {
                    assert(cmds[j] == prefix[j]);
                }
            }
        }
        if started_since_reset(cmds) && !(last is Start) {
            let i = choose|i: int|
                0 <= i < cmds.len() && #[trigger] cmds[i] is Start && forall|j: int|
                    i < j < cmds.len() ==> !(#[trigger] cmds[j] is Reset);
            assert(i < n);
            assert(prefix[i] is Start);
            assert forall|j: int| i < j < prefix.len() implies !(#[trigger] prefix[j] is Reset) by {
                assert(cmds[j] == prefix[j]);
            }
        }
        if last is Start {
            assert(cmds[n] is Start);
        }
        if paused_since_start(prefix) && !(last is Start || last is Resume) {
            let i = choose|i: int|
                0 <= i < prefix.len() && #[trigger] prefix[i] is Pause && forall|j: int|
                    i < j < prefix.len() ==> !(#[trigger] prefix[j] is Start || prefix[j] is Resume);
            assert(cmds[i] is Pause);
            assert forall|j: int| i < j < cmds.len() implies !(#[trigger] cmds[j] is Start
                || cmds[j] is Resume) by {
                if j < n {
                    assert(cmds[j] == prefix[j]);
                }
            }
        }
        if paused_since_start(cmds) && !(last is Pause) {
            let i = choose|i: int|
                0 <= i < cmds.len() && #[trigger] cmds[i] is Pause && forall|j: int|
                    i < j < cmds.len() ==> !(#[trigger] cmds[j] is Start || cmds[j] is Resume);
            assert(i < n);
            assert(prefix[i] is Pause);
            assert forall|j: int| i < j < prefix.len() implies !(#[trigger] prefix[j] is Start
                || prefix[j] is Resume) by {
                assert(cmds[j] == prefix[j]);
            }
        }
        if last is Pause {
            assert(cmds[n] is Pause);
        }
    }
}

/// The command the control panel sends when `button` is pressed; a start
/// carries the simulation `sim` built from the settings.
pub open spec fn command_of<S>(button: ControlButton, sim: S) -> ControlCommand<S> {
    match button {
        ControlButton::Start => ControlCommand::Start(sim),
        ControlButton::Pause => ControlCommand::Pause,
        ControlButton::Resume => ControlCommand::Resume,
        ControlButton::Reset => ControlCommand::Reset,
    }
}

/// What the control panel shows agrees with what the worker does: a stopped
/// panel has no simulation behind it, a running one an unpaused worker, a
/// paused one a paused worker.
pub open spec fn panel_agrees<S>(state: SimulationState, c: SimulationControl<S>) -> bool {
    match state {
        SimulationState::Stopped => c.active is None,
        SimulationState::Running => !c.paused,
        SimulationState::Paused => c.paused,
    }
}

/// The panel and the worker agree at the outset, every accepted button press
/// together with the command it sends keeps them agreeing, and so does a
/// failed step: the worker steps whenever the panel shows a simulation that
/// is running and has not failed, and never while it shows one paused or
/// stopped.
pub proof fn lemma_panel_and_worker_agree<S>(
    state: SimulationState,
    c: SimulationControl<S>,
    button: ControlButton,
    sim: S,
)
    requires
        panel_agrees(state, c),
        button_enabled(state, button),
    ensures
        panel_agrees(SimulationState::Stopped, SimulationControl::<S> { active: None, paused: false }),
        panel_agrees(state_after(button), c.after(command_of(button, sim))),
        panel_agrees(state, SimulationControl::<S> { active: None, paused: c.paused }),
        state == SimulationState::Running ==> c.stepping() == (c.active is Some),
        state != SimulationState::Running ==> !c.stepping(),
{
}

} // verus!
