//! The settings behind two panels: loading data (source, dataset options,
//! quality) and streaming to rerun (what is logged, and how often).
//!
//! Drawing the widgets is left to the caller; each click or slider value is
//! handed to the methods here, which keep the settings within the ranges the
//! widgets offer.

use vstd::prelude::*;
use vstd::string::StringExecFns;
use crate::config::{LoadDataseConfig, ModelConfig};
use crate::control::ProcessEvent;
use crate::source::DataSource;

verus! {

/// `v` moved into `lo..=hi`.
pub open spec fn clamped(v: int, lo: int, hi: int) -> int {
    if v < lo { lo } else if v > hi { hi } else { v }
}

fn clamp_u32(v: u32, lo: u32, hi: u32) -> (r: u32)
    requires
        lo <= hi,
    ensures
        r == clamped(v as int, lo as int, hi as int),
{
    if v < lo { lo } else if v > hi { hi } else { v }
}

fn clamp_usize(v: usize, lo: usize, hi: usize) -> (r: usize)
    requires
        lo <= hi,
    ensures
        r == clamped(v as int, lo as int, hi as int),
{
    if v < lo { lo } else if v > hi { hi } else { v }
}

/// Training quality offered when loading.
#[derive(Debug, Clone, Copy, PartialEq, Eq, Structural)]
pub enum Quality {
    /// Faster, coarser training.
    Low,
    /// The default training settings.
    Normal,
}

/// What a click on one of the load buttons asks to start.
#[derive(Debug, Clone)]
pub struct LoadRequest {
    /// Where the data comes from.
    pub source: DataSource,
    /// The dataset options.
    pub load_args: LoadDataseConfig,
    /// The spherical-harmonics degree of the splats.
    pub sh_degree: u32,
    /// Whether the low-quality training settings apply.
    pub low_quality: bool,
}

/// Settings of the load-data panel.
#[derive(Debug, Clone)]
pub struct LoadDataPanel {
    load_args: LoadDataseConfig,
    init_args: ModelConfig,
    quality: Quality,
    url: String,
}

impl LoadDataPanel {
    /// The dataset options.
    pub closed spec fn args(&self) -> LoadDataseConfig {
        self.load_args
    }

    /// The spherical-harmonics degree.
    pub closed spec fn degree(&self) -> u32 {
        self.init_args.sh_degree
    }

    /// The chosen quality.
    pub closed spec fn chosen_quality(&self) -> Quality {
        self.quality
    }

    /// The URL typed in.
    pub closed spec fn typed_url(&self) -> Seq<char> {
        self.url@
    }

    /// The panel's title.
    pub fn title(&self) -> (t: String)
        ensures
            t@ == "Load data"@,
    {
        String::from_str("Load data")
    }

    /// Resolution limited to 1920 and nothing else limited, degree 3,
    /// normal quality, and an example URL.
    pub fn new() -> (p: Self)
        ensures
            p.args() == (LoadDataseConfig {
                max_frames: None,
                max_resolution: Some(1920u32),
                eval_split_every: None,
                subsample_frames: None,
                subsample_points: None,
            }),
            p.degree() == 3,
            p.chosen_quality() == Quality::Normal,
            p.typed_url() == "splat.com/example.ply"@,
    {
        let load_args = LoadDataseConfig::new().with_max_resolution(Some(1920));
        LoadDataPanel {
            load_args,
            init_args: ModelConfig::new(),
            quality: Quality::Normal,
            url: String::from_str("splat.com/example.ply"),
        }
    }

    /// The load that the clicks ask for: picking a file wins over picking a
    /// directory, which wins over the typed URL; no click, no load.
    pub fn load_request(&self, file: bool, dir: bool, url: bool) -> (r: Option<LoadRequest>)
        ensures
            r is None <==> !file && !dir && !url,
            r matches Some(q) ==> {
                &&& q.load_args == self.args()
                &&& q.sh_degree == self.degree()
                &&& q.low_quality == (self.chosen_quality() == Quality::Low)
                &&& if file {
                    q.source is PickFile
                } else if dir {
                    q.source is PickDirectory
                } else {
                    q.source matches DataSource::Url(u) && u@ == self.typed_url()
                }
            },
    {
        if !file && !dir && !url {
            return None;
        }
        let source = if file {
            DataSource::PickFile
        } else if dir {
            DataSource::PickDirectory
        } else {
            DataSource::Url(self.url.clone())
        };
        Some(LoadRequest {
            source,
            load_args: self.load_args,
            sh_degree: self.init_args.sh_degree,
            low_quality: match self.quality {
                Quality::Low => true,
                Quality::Normal => false,
            },
        })
    }

    /// Replaces the typed URL.
    pub fn set_url(&mut self, url: String)
        ensures
            final(self).typed_url() == url@,
            final(self).args() == old(self).args(),
            final(self).degree() == old(self).degree(),
            final(self).chosen_quality() == old(self).chosen_quality(),
    {
        self.url = url;
    }

    /// Chooses the quality.
    pub fn set_quality(&mut self, quality: Quality)
        ensures
            final(self).chosen_quality() == quality,
            final(self).args() == old(self).args(),
            final(self).degree() == old(self).degree(),
            final(self).typed_url() == old(self).typed_url(),
    {
        self.quality = quality;
    }

    /// Sets the degree, kept within 0 to 4.
    pub fn set_sh_degree(&mut self, degree: u32)
        ensures
            final(self).degree() == clamped(degree as int, 0, 4),
            final(self).args() == old(self).args(),
            final(self).chosen_quality() == old(self).chosen_quality(),
            final(self).typed_url() == old(self).typed_url(),
    {
        self.init_args = self.init_args.with_sh_degree(clamp_u32(degree, 0, 4));
    }

    /// A click on "Limit training resolution": a limit is dropped, or one of
    /// 800 is set.
    pub fn toggle_limit_resolution(&mut self)
        ensures
            final(self).args() == (LoadDataseConfig {
                max_resolution: if old(self).args().max_resolution is Some { None } else { Some(800u32) },
                ..old(self).args()
            }),
            final(self).degree() == old(self).degree(),
            final(self).chosen_quality() == old(self).chosen_quality(),
            final(self).typed_url() == old(self).typed_url(),
    {
        let v = if self.load_args.max_resolution.is_some() { None } else { Some(800) };
        self.load_args = self.load_args.with_max_resolution(v);
    }

    /// Sets the resolution limit, kept within 32 to 2048; without a limit,
    /// nothing changes.
    pub fn set_max_resolution(&mut self, res: u32)
        ensures
            final(self).args() == (LoadDataseConfig {
                max_resolution: match old(self).args().max_resolution {
                    Some(_) => Some(clamped(res as int, 32, 2048) as u32),
                    None => None,
                },
                ..old(self).args()
            }),
            final(self).degree() == old(self).degree(),
            final(self).chosen_quality() == old(self).chosen_quality(),
            final(self).typed_url() == old(self).typed_url(),
    {
        if self.load_args.max_resolution.is_some() {
            self.load_args = self.load_args.with_max_resolution(Some(clamp_u32(res, 32, 2048)));
        }
    }

    /// A click on "Limit max frames": a limit is dropped, or one of 32 is
    /// set.
    pub fn toggle_limit_frames(&mut self)
        ensures
            final(self).args() == (LoadDataseConfig {
                max_frames: if old(self).args().max_frames is Some { None } else { Some(32usize) },
                ..old(self).args()
            }),
            final(self).degree() == old(self).degree(),
            final(self).chosen_quality() == old(self).chosen_quality(),
            final(self).typed_url() == old(self).typed_url(),
    {
        let v = if self.load_args.max_frames.is_some() { None } else { Some(32) };
        self.load_args = self.load_args.with_max_frames(v);
    }

    /// Sets the frame limit, kept within 1 to 256; without a limit, nothing
    /// changes.
    pub fn set_max_frames(&mut self, frames: usize)
        ensures
            final(self).args() == (LoadDataseConfig {
                max_frames: match old(self).args().max_frames {
                    Some(_) => Some(clamped(frames as int, 1, 256) as usize),
                    None => None,
                },
                ..old(self).args()
            }),
            final(self).degree() == old(self).degree(),
            final(self).chosen_quality() == old(self).chosen_quality(),
            final(self).typed_url() == old(self).typed_url(),
    {
        if self.load_args.max_frames.is_some() {
            self.load_args = self.load_args.with_max_frames(Some(clamp_usize(frames, 1, 256)));
        }
    }

    /// A click on "Split dataset for evaluation": the split is dropped, or
    /// one frame in 8 is kept for evaluation.
    pub fn toggle_eval_split(&mut self)
        ensures
            final(self).args() == (LoadDataseConfig {
                eval_split_every: if old(self).args().eval_split_every is Some { None } else { Some(8usize) },
                ..old(self).args()
            }),
            final(self).degree() == old(self).degree(),
            final(self).chosen_quality() == old(self).chosen_quality(),
            final(self).typed_url() == old(self).typed_url(),
    {
        let v = if self.load_args.eval_split_every.is_some() { None } else { Some(8) };
        self.load_args = self.load_args.with_eval_split_every(v);
    }

    /// Sets the evaluation split, kept within 2 to 32; without a split,
    /// nothing changes.
    pub fn set_eval_split_every(&mut self, every: usize)
        ensures
            final(self).args() == (LoadDataseConfig {
                eval_split_every: match old(self).args().eval_split_every {
                    Some(_) => Some(clamped(every as int, 2, 32) as usize),
                    None => None,
                },
                ..old(self).args()
            }),
            final(self).degree() == old(self).degree(),
            final(self).chosen_quality() == old(self).chosen_quality(),
            final(self).typed_url() == old(self).typed_url(),
    {
        if self.load_args.eval_split_every.is_some() {
            self.load_args = self.load_args.with_eval_split_every(Some(clamp_usize(every, 2, 32)));
        }
    }

    /// A click on "Subsample frames": subsampling is dropped, or every
    /// second frame is kept.
    pub fn toggle_subsample_frames(&mut self)
        ensures
            final(self).args() == (LoadDataseConfig {
                subsample_frames: if old(self).args().subsample_frames is Some { None } else { Some(2u32) },
                ..old(self).args()
            }),
            final(self).degree() == old(self).degree(),
            final(self).chosen_quality() == old(self).chosen_quality(),
            final(self).typed_url() == old(self).typed_url(),
    {
        let v = if self.load_args.subsample_frames.is_some() { None } else { Some(2) };
        self.load_args = self.load_args.with_subsample_frames(v);
    }

    /// Sets the frame subsampling, kept within 2 to 32; without
    /// subsampling, nothing changes.
    pub fn set_subsample_frames(&mut self, every: u32)
        ensures
            final(self).args() == (LoadDataseConfig {
                subsample_frames: match old(self).args().subsample_frames {
                    Some(_) => Some(clamped(every as int, 2, 32) as u32),
                    None => None,
                },
                ..old(self).args()
            }),
            final(self).degree() == old(self).degree(),
            final(self).chosen_quality() == old(self).chosen_quality(),
            final(self).typed_url() == old(self).typed_url(),
    {
        if self.load_args.subsample_frames.is_some() {
            self.load_args = self.load_args.with_subsample_frames(Some(clamp_u32(every, 2, 32)));
        }
    }

    /// A click on "Subsample points": subsampling is dropped, or every
    /// second point is kept.
    pub fn toggle_subsample_points(&mut self)
        ensures
            final(self).args() == (LoadDataseConfig {
                subsample_points: if old(self).args().subsample_points is Some { None } else { Some(2u32) },
                ..old(self).args()
            }),
            final(self).degree() == old(self).degree(),
            final(self).chosen_quality() == old(self).chosen_quality(),
            final(self).typed_url() == old(self).typed_url(),
    {
        let v = if self.load_args.subsample_points.is_some() { None } else { Some(2) };
        self.load_args = self.load_args.with_subsample_points(v);
    }

    /// Sets the point subsampling, kept within 2 to 32; without
    /// subsampling, nothing changes.
    pub fn set_subsample_points(&mut self, every: u32)
        ensures
            final(self).args() == (LoadDataseConfig {
                subsample_points: match old(self).args().subsample_points {
                    Some(_) => Some(clamped(every as int, 2, 32) as u32),
                    None => None,
                },
                ..old(self).args()
            }),
            final(self).degree() == old(self).degree(),
            final(self).chosen_quality() == old(self).chosen_quality(),
            final(self).typed_url() == old(self).typed_url(),
    {
        if self.load_args.subsample_points.is_some() {
            self.load_args = self.load_args.with_subsample_points(Some(clamp_u32(every, 2, 32)));
        }
    }

    /// The dataset options.
    pub fn load_args(&self) -> (a: LoadDataseConfig)
        ensures
            a == self.args(),
    {
        self.load_args
    }

    /// The spherical-harmonics degree.
    pub fn sh_degree(&self) -> (d: u32)
        ensures
            d == self.degree(),
    {
        self.init_args.sh_degree
    }

    /// The chosen quality.
    pub fn quality(&self) -> (q: Quality)
        ensures
            q == self.chosen_quality(),
    {
        self.quality
    }

    /// The URL typed in.
    pub fn url(&self) -> (u: &str)
        ensures
            u@ == self.typed_url(),
    {
        self.url.as_str()
    }
}

/// What the rerun panel logs in answer to a process event, in order.
#[derive(Debug, Clone, Copy, PartialEq, Eq, Structural)]
pub enum RerunAction {
    /// Start a new recording in place of the current one.
    Restart,
    /// Stop recording.
    Stop,
    /// Log the whole splat cloud at this step.
    LogSplats { iter: u32 },
    /// Log the number of splats at this step.
    LogSplatStats { iter: u32 },
    /// Log the training statistics of this step.
    LogTrainStats { iter: u32 },
    /// Log what refinement did at this step.
    LogRefineStats { iter: u32 },
    /// Log the evaluation result of this step.
    LogEvalStats { iter: u32 },
}

/// Settings and state of the rerun panel.
#[derive(Debug, Clone, Copy, PartialEq, Eq, Structural)]
pub struct RerunPanel {
    recording: bool,
    eval_every: u32,
    eval_view_count: Option<usize>,
    log_train_stats_every: u32,
    visualize_splats_every: Option<u32>,
    ready_to_log_dataset: bool,
}

/// The actions a training step at `iter` asks for while recording.
pub open spec fn train_step_actions(iter: u32, splats_every: Option<u32>, stats_every: u32) -> Seq<
    RerunAction,
> {
    let cloud = match splats_every {
        Some(n) => if iter % n == 0 {
            seq![RerunAction::LogSplats { iter }]
        } else {
            seq![]
        },
        None => seq![],
    };
    let stats = if iter % stats_every == 0 {
        seq![RerunAction::LogTrainStats { iter }]
    } else {
        seq![]
    };
    cloud + seq![RerunAction::LogSplatStats { iter }] + stats
}

impl RerunPanel {
    #[verifier::type_invariant]
    spec fn intervals_positive(self) -> bool {
        &&& self.log_train_stats_every >= 1
        &&& self.visualize_splats_every matches Some(n) ==> n >= 1
    }

    /// Whether a recording is open.
    pub closed spec fn is_recording(&self) -> bool {
        self.recording
    }

    /// Evaluate every this many steps.
    pub closed spec fn eval_interval(&self) -> u32 {
        self.eval_every
    }

    /// How many views an evaluation uses, if limited.
    pub closed spec fn eval_views(&self) -> Option<usize> {
        self.eval_view_count
    }

    /// Log the training statistics every this many steps.
    pub closed spec fn stats_interval(&self) -> u32 {
        self.log_train_stats_every
    }

    /// Log the splat cloud every this many steps, if at all.
    pub closed spec fn splats_interval(&self) -> Option<u32> {
        self.visualize_splats_every
    }

    /// Whether the loaded dataset still has to be logged.
    pub closed spec fn dataset_pending(&self) -> bool {
        self.ready_to_log_dataset
    }

    /// The actions a process event asks for, given the panel's state.
    pub open spec fn actions_for(&self, event: ProcessEvent) -> Seq<RerunAction> {
        match event {
            ProcessEvent::StartLoading { training } => if !training {
                seq![RerunAction::Stop]
            } else if self.is_recording() {
                seq![RerunAction::Restart]
            } else {
                seq![]
            },
            ProcessEvent::TrainStep { iter } => if self.is_recording() {
                train_step_actions(iter, self.splats_interval(), self.stats_interval())
            } else {
                seq![]
            },
            ProcessEvent::RefineStep { iter } => if self.is_recording() {
                seq![RerunAction::LogRefineStats { iter }]
            } else {
                seq![]
            },
            ProcessEvent::EvalResult { iter } => if self.is_recording() {
                seq![RerunAction::LogEvalStats { iter }]
            } else {
                seq![]
            },
            _ => seq![],
        }
    }

    /// The panel's title.
    pub fn title(&self) -> (t: String)
        ensures
            t@ == "Rerun"@,
    {
        String::from_str("Rerun")
    }

    /// Not recording; evaluate every 1000 steps on all views; statistics
    /// every 50 steps; no splat clouds; no dataset waiting to be logged.
    pub fn new() -> (p: Self)
        ensures
            !p.is_recording(),
            p.eval_interval() == 1000,
            p.eval_views() is None,
            p.stats_interval() == 50,
            p.splats_interval() is None,
            !p.dataset_pending(),
    {
        RerunPanel {
            recording: false,
            eval_every: 1000,
            eval_view_count: None,
            log_train_stats_every: 50,
            visualize_splats_every: None,
            ready_to_log_dataset: false,
        }
    }

    /// "Enable rerun": opens a recording.
    pub fn enable(&mut self)
        ensures
            final(self).is_recording(),
            final(self).eval_interval() == old(self).eval_interval(),
            final(self).eval_views() == old(self).eval_views(),
            final(self).stats_interval() == old(self).stats_interval(),
            final(self).splats_interval() == old(self).splats_interval(),
            final(self).dataset_pending() == old(self).dataset_pending(),
    {
        proof {
            use_type_invariant(&*self);
        }
        self.recording = true;
    }

    /// Handles a process event and returns what to log: a load that is not
    /// for training stops the recording, one for training restarts an open
    /// recording; the end of a training load marks the dataset for logging;
    /// while recording, steps, refinements and evaluations are logged.
    pub fn on_message(&mut self, event: ProcessEvent) -> (actions: Vec<RerunAction>)
        ensures
            actions@ == old(self).actions_for(event),
            final(self).is_recording() == match event {
                ProcessEvent::StartLoading { training } => training && old(self).is_recording(),
                _ => old(self).is_recording(),
            },
            final(self).dataset_pending() == (old(self).dataset_pending() || event
                == ProcessEvent::DoneLoading { training: true }),
            final(self).eval_interval() == old(self).eval_interval(),
            final(self).eval_views() == old(self).eval_views(),
            final(self).stats_interval() == old(self).stats_interval(),
            final(self).splats_interval() == old(self).splats_interval(),
    {
        proof {
            use_type_invariant(&*self);
        }
        let mut actions: Vec<RerunAction> = Vec::new();
        match event {
            ProcessEvent::StartLoading { training } => {
                if !training {
                    self.recording = false;
                    actions.push(RerunAction::Stop);
                } else if self.recording {
                    actions.push(RerunAction::Restart);
                }
            },
            ProcessEvent::DoneLoading { training } => {
                if training {
                    self.ready_to_log_dataset = true;
                }
            },
            ProcessEvent::TrainStep { iter } => {
                if self.recording {
                    match self.visualize_splats_every {
                        Some(every) => {
                            if iter % every == 0 {
                                actions.push(RerunAction::LogSplats { iter });
                            }
                        },
                        None => {},
                    }
                    actions.push(RerunAction::LogSplatStats { iter });
                    if iter % self.log_train_stats_every == 0 {
                        actions.push(RerunAction::LogTrainStats { iter });
                    }
                    assert(actions@ =~= train_step_actions(
                        iter,
                        self.visualize_splats_every,
                        self.log_train_stats_every,
                    ));
                }
            },
            ProcessEvent::RefineStep { iter } => {
                if self.recording {
                    actions.push(RerunAction::LogRefineStats { iter });
                }
            },
            ProcessEvent::EvalResult { iter } => {
                if self.recording {
                    actions.push(RerunAction::LogEvalStats { iter });
                }
            },
            _ => {},
        }
        actions
    }

    /// When drawing: whether the loaded dataset is to be logged now (only
    /// while recording), after which it is no longer pending.
    pub fn take_dataset_log(&mut self) -> (log: bool)
        ensures
            log == (old(self).is_recording() && old(self).dataset_pending()),
            final(self).dataset_pending() == (old(self).dataset_pending() && !log),
            final(self).is_recording() == old(self).is_recording(),
            final(self).eval_interval() == old(self).eval_interval(),
            final(self).eval_views() == old(self).eval_views(),
            final(self).stats_interval() == old(self).stats_interval(),
            final(self).splats_interval() == old(self).splats_interval(),
    {
        proof {
            use_type_invariant(&*self);
        }
        if self.recording && self.ready_to_log_dataset {
            self.ready_to_log_dataset = false;
            true
        } else {
            false
        }
    }

    /// Sets how often training statistics are logged, kept within 1 to 1000.
    pub fn set_log_train_stats_every(&mut self, every: u32)
        ensures
            final(self).stats_interval() == clamped(every as int, 1, 1000),
            final(self).is_recording() == old(self).is_recording(),
            final(self).eval_interval() == old(self).eval_interval(),
            final(self).eval_views() == old(self).eval_views(),
            final(self).splats_interval() == old(self).splats_interval(),
            final(self).dataset_pending() == old(self).dataset_pending(),
    {
        proof {
            use_type_invariant(&*self);
        }
        self.log_train_stats_every = clamp_u32(every, 1, 1000);
    }

    /// Sets how often to evaluate, kept within 1 to 5000.
    pub fn set_eval_every(&mut self, every: u32)
        ensures
            final(self).eval_interval() == clamped(every as int, 1, 5000),
            final(self).is_recording() == old(self).is_recording(),
            final(self).eval_views() == old(self).eval_views(),
            final(self).stats_interval() == old(self).stats_interval(),
            final(self).splats_interval() == old(self).splats_interval(),
            final(self).dataset_pending() == old(self).dataset_pending(),
    {
        proof {
            use_type_invariant(&*self);
        }
        self.eval_every = clamp_u32(every, 1, 5000);
    }

    /// "Limit eval views": turning the limit on starts it at 4 views,
    /// turning it off removes it; setting it as it is changes nothing.
    pub fn set_limit_eval_views(&mut self, limit: bool)
        ensures
            final(self).eval_views() == if limit == old(self).eval_views() is Some {
                old(self).eval_views()
            } else if limit {
                Some(4usize)
            } else {
                None
            },
            final(self).is_recording() == old(self).is_recording(),
            final(self).eval_interval() == old(self).eval_interval(),
            final(self).stats_interval() == old(self).stats_interval(),
            final(self).splats_interval() == old(self).splats_interval(),
            final(self).dataset_pending() == old(self).dataset_pending(),
    {
        proof {
            use_type_invariant(&*self);
        }
        if limit != self.eval_view_count.is_some() {
            self.eval_view_count = if limit { Some(4) } else { None };
        }
    }

    /// Sets the number of eval views, kept within 1 to 100; without a limit,
    /// nothing changes.
    pub fn set_eval_view_count(&mut self, count: usize)
        ensures
            final(self).eval_views() == match old(self).eval_views() {
                Some(_) => Some(clamped(count as int, 1, 100) as usize),
                None => None,
            },
            final(self).is_recording() == old(self).is_recording(),
            final(self).eval_interval() == old(self).eval_interval(),
            final(self).stats_interval() == old(self).stats_interval(),
            final(self).splats_interval() == old(self).splats_interval(),
            final(self).dataset_pending() == old(self).dataset_pending(),
    {
        proof {
            use_type_invariant(&*self);
        }
        if self.eval_view_count.is_some() {
            self.eval_view_count = Some(clamp_usize(count, 1, 100));
        }
    }

    /// "Visualize splats": turning it on logs the cloud every 500 steps,
    /// turning it off stops that; setting it as it is changes nothing.
    pub fn set_visualize_splats(&mut self, on: bool)
        ensures
            final(self).splats_interval() == if on == old(self).splats_interval() is Some {
                old(self).splats_interval()
            } else if on {
                Some(500u32)
            } else {
                None
            },
            final(self).is_recording() == old(self).is_recording(),
            final(self).eval_interval() == old(self).eval_interval(),
            final(self).eval_views() == old(self).eval_views(),
            final(self).stats_interval() == old(self).stats_interval(),
            final(self).dataset_pending() == old(self).dataset_pending(),
    {
        proof {
            use_type_invariant(&*self);
        }
        if on != self.visualize_splats_every.is_some() {
            self.visualize_splats_every = if on { Some(500) } else { None };
        }
    }

    /// Sets how often the cloud is logged, kept within 1 to 5000; when it
    /// is not logged, nothing changes.
    pub fn set_visualize_splats_every(&mut self, every: u32)
        ensures
            final(self).splats_interval() == match old(self).splats_interval() {
                Some(_) => Some(clamped(every as int, 1, 5000) as u32),
                None => None,
            },
            final(self).is_recording() == old(self).is_recording(),
            final(self).eval_interval() == old(self).eval_interval(),
            final(self).eval_views() == old(self).eval_views(),
            final(self).stats_interval() == old(self).stats_interval(),
            final(self).dataset_pending() == old(self).dataset_pending(),
    {
        proof {
            use_type_invariant(&*self);
        }
        if self.visualize_splats_every.is_some() {
            self.visualize_splats_every = Some(clamp_u32(every, 1, 5000));
        }
    }

    /// Evaluate every this many steps.
    pub fn eval_every(&self) -> (n: u32)
        ensures
            n == self.eval_interval(),
    {
        self.eval_every
    }

    /// How many views an evaluation uses, if limited.
    pub fn eval_view_count(&self) -> (n: Option<usize>)
        ensures
            n == self.eval_views(),
    {
        self.eval_view_count
    }

    /// Whether a recording is open.
    pub fn recording(&self) -> (r: bool)
        ensures
            r == self.is_recording(),
    {
        self.recording
    }
}

} // verus!
