//! The settings panel: model, dataset, process and rerun options for the
//! next run, and which source a click asks to load.
//!
//! The training options of the run are kept by the caller.

use vstd::prelude::*;
use vstd::string::StringExecFns;
use crate::config::{LoadDataseConfig, ModelConfig, ProcessConfig, RerunConfig};
use crate::panels::clamped;
use crate::source::DataSource;

verus! {

/// The options chosen in the settings panel.
#[derive(Debug)]
pub struct SettingsPanel {
    /// Model options.
    pub model_config: ModelConfig,
    /// Dataset options.
    pub load_config: LoadDataseConfig,
    /// Process options.
    pub process_config: ProcessConfig,
    /// Rerun options.
    pub rerun_config: RerunConfig,
    /// The URL typed in.
    pub url: String,
}

/// A run the settings panel asks to start.
#[derive(Debug)]
pub struct SettingsRequest {
    /// Where the data comes from.
    pub source: DataSource,
    /// Model options.
    pub model_config: ModelConfig,
    /// Dataset options.
    pub load_config: LoadDataseConfig,
    /// Process options.
    pub process_config: ProcessConfig,
    /// Rerun options.
    pub rerun_config: RerunConfig,
}

impl SettingsPanel {
    /// The default options of each kind (so the panel and the command line
    /// agree), and an example URL.
    pub fn new() -> (p: Self)
        ensures
            p.model_config.sh_degree == 3,
            p.load_config == (LoadDataseConfig {
                max_frames: None,
                max_resolution: None,
                eval_split_every: None,
                subsample_frames: None,
                subsample_points: None,
            }),
            p.process_config.seed == 42 && p.process_config.eval_every == 1000,
            p.process_config.export_every == 5000 && !p.process_config.eval_save_to_disk,
            p.process_config.export_path is None,
            p.process_config.export_name@ == "./export_{iter}.ply"@,
            !p.rerun_config.rerun_enabled && p.rerun_config.rerun_log_train_stats_every == 50,
            p.rerun_config.rerun_log_splats_every is None && p.rerun_config.rerun_max_img_size == 512,
            p.url@ == "splat.com/example.ply"@,
    {
        SettingsPanel {
            model_config: ModelConfig::new(),
            load_config: LoadDataseConfig::new(),
            process_config: ProcessConfig::new(),
            rerun_config: RerunConfig::new(),
            url: String::from_str("splat.com/example.ply"),
        }
    }

    /// The panel's title.
    pub fn title(&self) -> (t: String)
        ensures
            t@ == "Settings"@,
    {
        String::from_str("Settings")
    }

    /// Sets the spherical-harmonics degree, kept within 0 to 4.
    pub fn set_sh_degree(&mut self, degree: u32)
        ensures
            final(self).model_config.sh_degree == clamped(degree as int, 0, 4),
            final(self).load_config == old(self).load_config,
            final(self).rerun_config == old(self).rerun_config,
            final(self).process_config == old(self).process_config,
            final(self).url == old(self).url,
    {
        let d = if degree > 4 { 4 } else { degree };
        self.model_config = ModelConfig { sh_degree: d };
    }

    /// A click on "Limit max frames": a limit is dropped, or one of 32 is
    /// set.
    pub fn toggle_limit_frames(&mut self)
        ensures
            final(self).load_config == (LoadDataseConfig {
                max_frames: if old(self).load_config.max_frames is Some {
                    None
                } else {
                    Some(32usize)
                },
                ..old(self).load_config
            }),
            final(self).model_config == old(self).model_config,
            final(self).rerun_config == old(self).rerun_config,
            final(self).process_config == old(self).process_config,
            final(self).url == old(self).url,
    {
        let v = if self.load_config.max_frames.is_some() { None } else { Some(32) };
        self.load_config = self.load_config.with_max_frames(v);
    }

    /// A click on "Split dataset for evaluation": the split is dropped, or
    /// one frame in 8 is kept for evaluation.
    pub fn toggle_eval_split(&mut self)
        ensures
            final(self).load_config == (LoadDataseConfig {
                eval_split_every: if old(self).load_config.eval_split_every is Some {
                    None
                } else {
                    Some(8usize)
                },
                ..old(self).load_config
            }),
            final(self).model_config == old(self).model_config,
            final(self).rerun_config == old(self).rerun_config,
            final(self).process_config == old(self).process_config,
            final(self).url == old(self).url,
    {
        let v = if self.load_config.eval_split_every.is_some() { None } else { Some(8) };
        self.load_config = self.load_config.with_eval_split_every(v);
    }

    /// "Enable rerun".
    pub fn set_rerun_enabled(&mut self, on: bool)
        ensures
            final(self).rerun_config == (RerunConfig { rerun_enabled: on, ..old(self).rerun_config }),
            final(self).model_config == old(self).model_config,
            final(self).load_config == old(self).load_config,
            final(self).process_config == old(self).process_config,
            final(self).url == old(self).url,
    {
        self.rerun_config = RerunConfig { rerun_enabled: on, ..self.rerun_config };
    }

    /// "Visualize splats": turning it on logs the cloud every 500 steps,
    /// turning it off stops that; setting it as it is changes nothing.
    pub fn set_visualize_splats(&mut self, on: bool)
        ensures
            final(self).rerun_config == (RerunConfig {
                rerun_log_splats_every: if on == old(self).rerun_config.rerun_log_splats_every is Some {
                    old(self).rerun_config.rerun_log_splats_every
                } else if on {
                    Some(500u32)
                } else {
                    None
                },
                ..old(self).rerun_config
            }),
            final(self).model_config == old(self).model_config,
            final(self).load_config == old(self).load_config,
            final(self).process_config == old(self).process_config,
            final(self).url == old(self).url,
    {
        if on != self.rerun_config.rerun_log_splats_every.is_some() {
            let v = if on { Some(500) } else { None };
            self.rerun_config = RerunConfig { rerun_log_splats_every: v, ..self.rerun_config };
        }
    }

    /// The run that the clicks ask for: picking a file wins over picking a
    /// directory, which wins over the typed URL; no click, no run. The run
    /// takes the panel's options as they are.
    pub fn load_request(&self, file: bool, dir: bool, url: bool) -> (r: Option<SettingsRequest>)
        ensures
            r is None <==> !file && !dir && !url,
            r matches Some(q) ==> {
                &&& q.model_config == self.model_config
                &&& q.load_config == self.load_config
                &&& q.rerun_config == self.rerun_config
                &&& q.process_config.seed == self.process_config.seed
                &&& q.process_config.eval_every == self.process_config.eval_every
                &&& q.process_config.eval_save_to_disk == self.process_config.eval_save_to_disk
                &&& q.process_config.export_every == self.process_config.export_every
                &&& q.process_config.export_path == self.process_config.export_path
                &&& q.process_config.export_name == self.process_config.export_name
                &&& if file {
                    q.source is PickFile
                } else if dir {
                    q.source is PickDirectory
                } else {
                    q.source matches DataSource::Url(u) && u@ == self.url@
                }
            },
    {
        if !file && !dir && !url {
            return None;
        }
        let source = if file {
            DataSource::PickFile
        } else if dir {
            DataSource::PickDirectory
        } else {
            DataSource::Url(self.url.clone())
        };
        Some(SettingsRequest {
            source,
            model_config: self.model_config,
            load_config: self.load_config,
            process_config: self.process_config.copied(),
            rerun_config: self.rerun_config,
        })
    }
}

} // verus!
