//! The counters of the statistics window: what was loaded, how far training
//! got, and how many steps each training report covers.
//!
//! The step rate itself is a floating-point average kept by the caller, fed
//! with the step counts that `on_message` hands back.

use vstd::prelude::*;
use crate::control::ProcessEvent;

verus! {

/// What the statistics window counts.
#[derive(Debug, Clone, Copy, PartialEq, Eq, Structural)]
pub struct StatsCounters {
    /// Whether the current run trains.
    pub training_started: bool,
    /// The number of splats last shown.
    pub num_splats: u32,
    /// The frame last shown.
    pub frames: u32,
    /// The spherical-harmonics degree of the splats last shown.
    pub cur_sh_degree: u32,
    /// The step of the last training report.
    pub last_train_iter: u32,
    /// Whether an evaluation result has come in since loading started.
    pub has_eval: bool,
    /// Whether the window is open.
    pub open: bool,
}

/// Counters with nothing counted yet and the window closed.
pub open spec fn fresh_counters() -> StatsCounters {
    StatsCounters {
        training_started: false,
        num_splats: 0,
        frames: 0,
        cur_sh_degree: 0,
        last_train_iter: 0,
        has_eval: false,
        open: false,
    }
}

/// The counters after `event`, whose splats (where it carries any) number
/// `num_splats` at degree `sh_degree`.
pub open spec fn counters_after(
    s: StatsCounters,
    event: ProcessEvent,
    num_splats: u32,
    sh_degree: u32,
) -> StatsCounters {
    match event {
        ProcessEvent::NewSource => fresh_counters(),
        ProcessEvent::StartLoading { training } => StatsCounters {
            training_started: training,
            num_splats: 0,
            cur_sh_degree: 0,
            last_train_iter: 0,
            has_eval: false,
            ..s
        },
        ProcessEvent::ViewSplats { frame, .. } => StatsCounters {
            num_splats,
            frames: frame,
            cur_sh_degree: sh_degree,
            ..s
        },
        ProcessEvent::TrainStep { iter } => StatsCounters {
            num_splats,
            cur_sh_degree: sh_degree,
            last_train_iter: iter,
            ..s
        },
        ProcessEvent::EvalResult { .. } => StatsCounters { has_eval: true, ..s },
        _ => s,
    }
}

impl StatsCounters {
    /// Nothing counted, window closed.
    pub fn new() -> (s: Self)
        ensures
            s == fresh_counters(),
    {
        StatsCounters {
            training_started: false,
            num_splats: 0,
            frames: 0,
            cur_sh_degree: 0,
            last_train_iter: 0,
            has_eval: false,
            open: false,
        }
    }

    /// Whether the window is open.
    pub fn is_open(&self) -> (r: bool)
        ensures
            r == self.open,
    {
        self.open
    }

    /// Opens or closes the window.
    pub fn set_open(&mut self, open: bool)
        ensures
            *final(self) == (StatsCounters { open, ..*old(self) }),
    {
        self.open = open;
    }

    /// Takes in a message of the process. A new source clears everything
    /// (and closes the window); the start of loading clears the counts of
    /// the previous run; splats shown or trained update the counts. For a
    /// training report the number of steps since the previous one is handed
    /// back; a report never goes back in steps.
    pub fn on_message(&mut self, event: ProcessEvent, num_splats: u32, sh_degree: u32) -> (steps:
        Option<u32>)
        requires
            event matches ProcessEvent::TrainStep { iter } ==> iter >= old(self).last_train_iter,
        ensures
            *final(self) == counters_after(*old(self), event, num_splats, sh_degree),
            steps == (match event {
                ProcessEvent::TrainStep { iter } => Some((iter - old(self).last_train_iter) as u32),
                _ => None,
            }),
    {
        match event {
            ProcessEvent::NewSource => {
                *self = StatsCounters::new();
                None
            },
            ProcessEvent::StartLoading { training } => {
                self.training_started = training;
                self.num_splats = 0;
                self.cur_sh_degree = 0;
                self.last_train_iter = 0;
                self.has_eval = false;
                None
            },
            ProcessEvent::ViewSplats { frame, .. } => {
                self.num_splats = num_splats;
                self.frames = frame;
                self.cur_sh_degree = sh_degree;
                None
            },
            ProcessEvent::TrainStep { iter } => {
                let steps = iter - self.last_train_iter;
                self.num_splats = num_splats;
                self.cur_sh_degree = sh_degree;
                self.last_train_iter = iter;
                Some(steps)
            },
            ProcessEvent::EvalResult { .. } => {
                self.has_eval = true;
                None
            },
            _ => None,
        }
    }
}

} // verus!
