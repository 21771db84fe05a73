//! Run configuration: dataset loading, model, process and rerun options with
//! their defaults, the random initialisation size, render statistics, and
//! whether the command line's source and viewer options go together.

use vstd::prelude::*;
use vstd::string::StringExecFns;
use crate::source::DataSource;

verus! {

/// Options for loading a dataset.
#[derive(Debug, Clone, Copy, PartialEq, Eq, Structural)]
pub struct LoadDataseConfig {
    /// Max nr. of frames of dataset to load.
    pub max_frames: Option<usize>,
    /// Max resolution of images to load.
    pub max_resolution: Option<u32>,
    /// Create an eval dataset by selecting every nth image.
    pub eval_split_every: Option<usize>,
    /// Load only every nth frame.
    pub subsample_frames: Option<u32>,
    /// Load only every nth point from the initial sfm data.
    pub subsample_points: Option<u32>,
}

impl LoadDataseConfig {
    /// No limit, split or subsampling.
    pub fn new() -> (c: Self)
        ensures
            c.max_frames is None,
            c.max_resolution is None,
            c.eval_split_every is None,
            c.subsample_frames is None,
            c.subsample_points is None,
    {
        LoadDataseConfig {
            max_frames: None,
            max_resolution: None,
            eval_split_every: None,
            subsample_frames: None,
            subsample_points: None,
        }
    }

    /// The same options with `max_frames` replaced.
    pub fn with_max_frames(self, max_frames: Option<usize>) -> (c: Self)
        ensures
            c == (LoadDataseConfig { max_frames, ..self }),
    {
        LoadDataseConfig { max_frames, ..self }
    }

    /// The same options with `max_resolution` replaced.
    pub fn with_max_resolution(self, max_resolution: Option<u32>) -> (c: Self)
        ensures
            c == (LoadDataseConfig { max_resolution, ..self }),
    {
        LoadDataseConfig { max_resolution, ..self }
    }

    /// The same options with `eval_split_every` replaced.
    pub fn with_eval_split_every(self, eval_split_every: Option<usize>) -> (c: Self)
        ensures
            c == (LoadDataseConfig { eval_split_every, ..self }),
    {
        LoadDataseConfig { eval_split_every, ..self }
    }

    /// The same options with `subsample_frames` replaced.
    pub fn with_subsample_frames(self, subsample_frames: Option<u32>) -> (c: Self)
        ensures
            c == (LoadDataseConfig { subsample_frames, ..self }),
    {
        LoadDataseConfig { subsample_frames, ..self }
    }

    /// The same options with `subsample_points` replaced.
    pub fn with_subsample_points(self, subsample_points: Option<u32>) -> (c: Self)
        ensures
            c == (LoadDataseConfig { subsample_points, ..self }),
    {
        LoadDataseConfig { subsample_points, ..self }
    }
}

/// Options of the splat model.
#[derive(Debug, Clone, Copy, PartialEq, Eq, Structural)]
pub struct ModelConfig {
    /// SH degree of splats.
    pub sh_degree: u32,
}

impl ModelConfig {
    /// Spherical harmonics of degree 3.
    pub fn new() -> (c: Self)
        ensures
            c.sh_degree == 3,
    {
        ModelConfig { sh_degree: 3 }
    }

    /// The same options with `sh_degree` replaced.
    pub fn with_sh_degree(self, sh_degree: u32) -> (c: Self)
        ensures
            c.sh_degree == sh_degree,
    {
        ModelConfig { sh_degree }
    }
}

/// Options of the training process.
#[derive(Debug, Clone)]
pub struct ProcessConfig {
    /// Random seed.
    pub seed: u64,
    /// Eval every this many steps.
    pub eval_every: u32,
    /// Save the rendered eval images to disk, under the export path.
    pub eval_save_to_disk: bool,
    /// Export every this many steps.
    pub export_every: u32,
    /// Location to put exported files; by default the working directory.
    pub export_path: Option<String>,
    /// File name of the exported ply file; `{iter}` stands for the step.
    pub export_name: String,
}

impl ProcessConfig {
    /// Seed 42, eval every 1000 steps without saving images, export every
    /// 5000 steps to `./export_{iter}.ply` in the working directory.
    pub fn new() -> (c: Self)
        ensures
            c.seed == 42,
            c.eval_every == 1000,
            !c.eval_save_to_disk,
            c.export_every == 5000,
            c.export_path is None,
            c.export_name@ == "./export_{iter}.ply"@,
    {
        ProcessConfig {
            seed: 42,
            eval_every: 1000,
            eval_save_to_disk: false,
            export_every: 5000,
            export_path: None,
            export_name: String::from_str("./export_{iter}.ply"),
        }
    }
}

impl ProcessConfig {
    /// A copy of these options.
    pub fn copied(&self) -> (c: Self)
        ensures
            c.seed == self.seed,
            c.eval_every == self.eval_every,
            c.eval_save_to_disk == self.eval_save_to_disk,
            c.export_every == self.export_every,
            c.export_path == self.export_path,
            c.export_name == self.export_name,
    {
        ProcessConfig {
            seed: self.seed,
            eval_every: self.eval_every,
            eval_save_to_disk: self.eval_save_to_disk,
            export_every: self.export_every,
            export_path: match &self.export_path {
                Some(p) => Some(p.clone()),
                None => None,
            },
            export_name: self.export_name.clone(),
        }
    }
}

/// Options of the rerun.io logging.
#[derive(Debug, Clone, Copy, PartialEq, Eq, Structural)]
pub struct RerunConfig {
    /// Whether to enable rerun.io logging for this run.
    pub rerun_enabled: bool,
    /// How often to log basic training statistics.
    pub rerun_log_train_stats_every: u32,
    /// How often to log out the full splat point cloud (heavy).
    pub rerun_log_splats_every: Option<u32>,
    /// The maximum size of images from the dataset logged to rerun.
    pub rerun_max_img_size: u32,
}

impl RerunConfig {
    /// Disabled; train statistics every 50 steps, no splat clouds, images of
    /// at most 512 pixels.
    pub fn new() -> (c: Self)
        ensures
            !c.rerun_enabled,
            c.rerun_log_train_stats_every == 50,
            c.rerun_log_splats_every is None,
            c.rerun_max_img_size == 512,
    {
        RerunConfig {
            rerun_enabled: false,
            rerun_log_train_stats_every: 50,
            rerun_log_splats_every: None,
            rerun_max_img_size: 512,
        }
    }
}

/// How many random splats start a scene that has no initial points.
#[derive(Debug, Clone, Copy, PartialEq, Eq, Structural)]
pub struct RandomSplatsConfig {
    init_count: usize,
}

impl RandomSplatsConfig {
    /// The number of splats to start with.
    pub closed spec fn count(&self) -> usize {
        self.init_count
    }

    /// 10000 splats.
    pub fn new() -> (c: Self)
        ensures
            c.count() == 10000,
    {
        RandomSplatsConfig { init_count: 10000 }
    }

    /// The same options with the count replaced.
    pub fn with_init_count(self, init_count: usize) -> (c: Self)
        ensures
            c.count() == init_count,
    {
        RandomSplatsConfig { init_count }
    }

    /// The number of splats to start with.
    pub fn init_count(&self) -> (n: usize)
        ensures
            n == self.count(),
    {
        self.init_count
    }
}

/// Counts reported by one render.
#[derive(Debug, Clone, Copy, PartialEq, Eq, Structural)]
pub struct RenderStats {
    /// Splats that were visible.
    pub num_visible: u32,
    /// Splat-tile intersections.
    pub num_intersections: u32,
}

/// Why the command line was refused.
#[derive(Debug, Clone, Copy, PartialEq, Eq, Structural)]
pub enum CliError {
    /// Without a viewer there must be a source to train on.
    MissingSource,
}

impl CliError {
    /// The message shown for the error.
    pub fn message(&self) -> (m: String)
        ensures
            m@ == "When --with-viewer is false, --source must be provided"@,
    {
        String::from_str("When --with-viewer is false, --source must be provided")
    }
}

/// The command-line options that decide what runs.
#[derive(Debug, Clone)]
pub struct Cli {
    /// Source to load from (path or URL).
    pub source: Option<DataSource>,
    /// Spawn a viewer to visualize the training.
    pub with_viewer: bool,
    /// Reset all window sizes and positions to their default values.
    pub reset_windows: bool,
}

/// Whether a viewer is spawned when the option is not given: only when no
/// source is.
pub open spec fn spec_default_with_viewer(source_given: bool) -> bool {
    !source_given
}

impl Cli {
    /// Whether a viewer is spawned when `--with-viewer` is not given.
    pub fn default_with_viewer(source_given: bool) -> (v: bool)
        ensures
            v == spec_default_with_viewer(source_given),
    {
        !source_given
    }

    /// Accepts the options unless there is neither a viewer nor a source.
    pub fn validate(self) -> (r: Result<Self, CliError>)
        ensures
            (!self.with_viewer && self.source is None) <==> r is Err,
            r matches Ok(c) ==> c.source == self.source && c.with_viewer == self.with_viewer
                && c.reset_windows == self.reset_windows,
            r matches Err(e) ==> e == CliError::MissingSource,
    {
        if !self.with_viewer && self.source.is_none() {
            return Err(CliError::MissingSource);
        }
        Ok(self)
    }
}

} // verus!
