//! How the application follows a running process: whether it is training or
//! loading, when the dataset panel appears, which messages bring new splats
//! and which training steps are checked for an auto-save.

use vstd::prelude::*;
use crate::control::{ControlsState, ProcessEvent};

verus! {

/// What the application does with one process message besides handing it to
/// every panel.
#[derive(Debug, Clone, Copy, PartialEq, Eq, Structural)]
pub struct MessageRouting {
    /// Add the dataset panel to the layout.
    pub add_dataset_panel: bool,
    /// Keep the message's splats as the latest ones.
    pub keep_latest_splats: bool,
    /// Check for an auto-save at this training step.
    pub autosave_step: Option<u32>,
}

/// What the application knows of the running process.
#[derive(Debug, Clone, Copy, PartialEq, Eq, Structural)]
pub struct AppStatus {
    training: bool,
    loading: bool,
    dataset_panel: bool,
}

impl AppStatus {
    /// Whether the process trains (as opposed to only viewing).
    pub closed spec fn is_training(&self) -> bool {
        self.training
    }

    /// Whether the process is still loading.
    pub closed spec fn is_loading(&self) -> bool {
        self.loading
    }

    /// Whether the dataset panel is in the layout.
    pub closed spec fn has_dataset_panel(&self) -> bool {
        self.dataset_panel
    }

    /// Nothing running, no dataset panel.
    pub fn new() -> (s: Self)
        ensures
            !s.is_training(),
            !s.is_loading(),
            !s.has_dataset_panel(),
    {
        AppStatus { training: false, loading: false, dataset_panel: false }
    }

    /// Whether the process trains.
    pub fn training(&self) -> (r: bool)
        ensures
            r == self.is_training(),
    {
        self.training
    }

    /// Whether the process is still loading.
    pub fn loading(&self) -> (r: bool)
        ensures
            r == self.is_loading(),
    {
        self.loading
    }

    /// Follows one process message: the controls see it first (their own
    /// handling of a new source already resets them); the start of a load records whether it trains and
    /// that loading runs, its end that loading is over; the first dataset
    /// adds the dataset panel; training steps and loaded splats become the
    /// latest splats, and each training step is checked for an auto-save.
    pub fn on_message(&mut self, controls: &mut ControlsState, event: ProcessEvent) -> (r:
        MessageRouting)
        ensures
            r.add_dataset_panel == (event == ProcessEvent::Dataset
                && !old(self).has_dataset_panel()),
            final(self).has_dataset_panel() == (old(self).has_dataset_panel() || event
                == ProcessEvent::Dataset),
            r.keep_latest_splats == (event is TrainStep || event is ViewSplats),
            r.autosave_step == match event {
                ProcessEvent::TrainStep { iter } => Some(iter),
                _ => None,
            },
            final(self).is_training() == match event {
                ProcessEvent::StartLoading { training } => training,
                _ => old(self).is_training(),
            },
            final(self).is_loading() == match event {
                ProcessEvent::StartLoading { .. } => true,
                ProcessEvent::DoneLoading { .. } => false,
                _ => old(self).is_loading(),
            },
            *final(controls) == old(controls).after(event),
    {
        controls.on_message(event);
        let mut routing = MessageRouting {
            add_dataset_panel: false,
            keep_latest_splats: false,
            autosave_step: None,
        };
        match event {
            ProcessEvent::Dataset => {
                if !self.dataset_panel {
                    self.dataset_panel = true;
                    routing.add_dataset_panel = true;
                }
            },
            ProcessEvent::StartLoading { training } => {
                self.training = training;
                self.loading = true;
            },
            ProcessEvent::DoneLoading { .. } => {
                self.loading = false;
            },
            ProcessEvent::TrainStep { iter } => {
                routing.keep_latest_splats = true;
                routing.autosave_step = Some(iter);
            },
            ProcessEvent::ViewSplats { .. } => {
                routing.keep_latest_splats = true;
            },
            _ => {},
        }
        routing
    }
}

} // verus!
