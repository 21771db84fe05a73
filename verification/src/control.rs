//! Control of a running process: the messages the process reports, the
//! pause requests sent back to it, when the process waits, and the state of
//! the training controls.

use vstd::prelude::*;

verus! {

/// What a running process reports, as the controls see it.
#[derive(Debug, Clone, Copy, PartialEq, Eq, Structural)]
pub enum ProcessEvent {
    /// A new source was picked; everything shown so far is stale.
    NewSource,
    /// Loading started, for training or for viewing only.
    StartLoading { training: bool },
    /// A splat was loaded: frame `frame` of `total_frames`.
    ViewSplats { frame: u32, total_frames: u32 },
    /// A set of views to train on was loaded.
    Dataset,
    /// Loading finished.
    DoneLoading { training: bool },
    /// Training reached step `iter`.
    TrainStep { iter: u32 },
    /// The splats were refined at step `iter`.
    RefineStep { iter: u32 },
    /// An evaluation finished at step `iter`.
    EvalResult { iter: u32 },
    /// The process failed.
    Error,
}

/// A request sent to a running process.
#[derive(Debug, Clone, Copy, PartialEq, Eq, Structural)]
pub enum ControlMessage {
    /// Pause (`true`) or resume (`false`) training.
    Paused(bool),
}

/// After the process has handed on a message, whether it stops to wait:
/// only after a training step, and only when the control request waiting
/// for it (if any) asks to pause.
pub fn must_pause(is_train_step: bool, pending: Option<ControlMessage>) -> (r: bool)
    ensures
        r == (is_train_step && pending == Some(ControlMessage::Paused(true))),
{
    if is_train_step {
        match pending {
            Some(ControlMessage::Paused(p)) => p,
            None => false,
        }
    } else {
        false
    }
}

/// While paused, whether the next control request received ends the wait:
/// only a request to resume does (a closed channel gives `None` and does
/// not).
pub fn resumes(received: Option<ControlMessage>) -> (r: bool)
    ensures
        r == (received == Some(ControlMessage::Paused(false))),
{
    match received {
        Some(ControlMessage::Paused(p)) => !p,
        None => false,
    }
}

/// Whether the training loop is paused. Before each step the loop takes a
/// control request: while paused it waits for the next one, otherwise it
/// takes one only if one is waiting.
#[derive(Debug, Clone, Copy, PartialEq, Eq, Structural)]
pub struct TrainGate {
    /// Whether training is paused.
    pub paused: bool,
}

impl TrainGate {
    /// Training runs.
    pub fn new() -> (g: Self)
        ensures
            !g.paused,
    {
        TrainGate { paused: false }
    }

    /// Whether the loop waits for the next control request before the next
    /// step (rather than only taking one that is already waiting).
    pub fn waits_for_control(&self) -> (r: bool)
        ensures
            r == self.paused,
    {
        self.paused
    }

    /// Takes the control request the loop received (`None` when there was
    /// none, or the channel is closed): a pause request sets pausing.
    pub fn on_control(&mut self, control: Option<ControlMessage>)
        ensures
            final(self).paused == match control {
                Some(ControlMessage::Paused(p)) => p,
                None => old(self).paused,
            },
    {
        match control {
            Some(ControlMessage::Paused(p)) => {
                self.paused = p;
            },
            None => {},
        }
    }
}

/// State of the training controls: whether they are shown, whether training
/// is paused, and whether the view follows the training live.
#[derive(Debug, Clone, Copy, PartialEq, Eq, Structural)]
pub struct ControlsState {
    open: bool,
    paused: bool,
    live_update: bool,
}

impl ControlsState {
    /// Whether the controls are shown.
    pub closed spec fn shown(&self) -> bool {
        self.open
    }

    /// Whether training is paused.
    pub closed spec fn is_paused(&self) -> bool {
        self.paused
    }

    /// Whether the view follows the training.
    pub closed spec fn follows(&self) -> bool {
        self.live_update
    }

    /// Hidden, running, following the training.
    pub fn new() -> (s: Self)
        ensures
            !s.shown(),
            !s.is_paused(),
            s.follows(),
    {
        ControlsState { open: false, paused: false, live_update: true }
    }

    /// Whether the controls are shown.
    pub fn is_open(&self) -> (r: bool)
        ensures
            r == self.shown(),
    {
        self.open
    }

    /// Shows or hides the controls.
    pub fn set_open(&mut self, open: bool)
        ensures
            final(self).shown() == open,
            final(self).is_paused() == old(self).is_paused(),
            final(self).follows() == old(self).follows(),
    {
        self.open = open;
    }

    /// Whether the view follows the training.
    pub fn get_live_update(&self) -> (r: bool)
        ensures
            r == self.follows(),
    {
        self.live_update
    }

    /// Sets whether the view follows the training.
    pub fn set_live_update(&mut self, live_update: bool)
        ensures
            final(self).follows() == live_update,
            final(self).shown() == old(self).shown(),
            final(self).is_paused() == old(self).is_paused(),
    {
        self.live_update = live_update;
    }

    /// Whether training is paused.
    pub fn get_paused(&self) -> (r: bool)
        ensures
            r == self.is_paused(),
    {
        self.paused
    }

    /// Sets whether training is paused.
    pub fn set_paused(&mut self, paused: bool)
        ensures
            final(self).is_paused() == paused,
            final(self).shown() == old(self).shown(),
            final(self).follows() == old(self).follows(),
    {
        self.paused = paused;
    }

    /// Back to running and following, as for a newly loaded dataset; shown
    /// or hidden as before.
    pub fn reset_state(&mut self)
        ensures
            !final(self).is_paused(),
            final(self).follows(),
            final(self).shown() == old(self).shown(),
    {
        self.paused = false;
        self.live_update = true;
    }

    /// Flips pausing and returns the request that tells the process.
    pub fn toggle_paused(&mut self) -> (m: ControlMessage)
        ensures
            final(self).is_paused() == !old(self).is_paused(),
            final(self).shown() == old(self).shown(),
            final(self).follows() == old(self).follows(),
            m == ControlMessage::Paused(final(self).is_paused()),
    {
        self.paused = !self.paused;
        ControlMessage::Paused(self.paused)
    }

    /// Flips following the training and returns the new setting.
    pub fn toggle_live_update(&mut self) -> (live: bool)
        ensures
            final(self).follows() == !old(self).follows(),
            final(self).shown() == old(self).shown(),
            final(self).is_paused() == old(self).is_paused(),
            live == final(self).follows(),
    {
        self.live_update = !self.live_update;
        self.live_update
    }

    /// The controls after a process event.
    pub closed spec fn after(self, event: ProcessEvent) -> ControlsState {
        match event {
            ProcessEvent::NewSource => ControlsState { paused: false, live_update: true, ..self },
            ProcessEvent::StartLoading { training } => if training {
                ControlsState { open: true, paused: false, live_update: true }
            } else {
                self
            },
            ProcessEvent::DoneLoading { training } => if training {
                ControlsState { open: true, ..self }
            } else {
                self
            },
            _ => self,
        }
    }

    /// Updates the controls for a process event: a new source resets them,
    /// the start of a training load resets them and shows them, the end of
    /// a training load shows them; other events change nothing.
    pub fn on_message(&mut self, event: ProcessEvent)
        ensures
            *final(self) == old(self).after(event),
            match event {
                ProcessEvent::NewSource => !final(self).is_paused() && final(self).follows()
                    && final(self).shown() == old(self).shown(),
                ProcessEvent::StartLoading { training } => if training {
                    final(self).shown() && !final(self).is_paused() && final(self).follows()
                } else {
                    *final(self) == *old(self)
                },
                ProcessEvent::DoneLoading { training } => if training {
                    final(self).shown() && final(self).is_paused() == old(self).is_paused()
                        && final(self).follows() == old(self).follows()
                } else {
                    *final(self) == *old(self)
                },
                _ => *final(self) == *old(self),
            },
    {
        match event {
            ProcessEvent::NewSource => {
                self.paused = false;
                self.live_update = true;
            },
            ProcessEvent::StartLoading { training } => {
                if training {
                    self.open = true;
                    self.paused = false;
                    self.live_update = true;
                }
            },
            ProcessEvent::DoneLoading { training } => {
                if training {
                    self.open = true;
                }
            },
            _ => {},
        }
    }
}

} // verus!
