//! Verified core of the Brush splat tool: size and age formatting, export
//! bookkeeping, PLY header and property decisions, data-source detection and
//! dataset file selection.

pub mod config;
pub mod control;
pub mod dataset;
pub mod export;
pub mod library;
pub mod panels;
pub mod paths;
pub mod ply;
pub mod quant;
pub mod render_aux;
pub mod query;
pub mod size_format;
pub mod source;
pub mod storage;
pub mod text;
pub mod train;
pub mod vfs;
pub mod view_order;
pub mod app_state;
pub mod dataset_list;
pub mod scene_state;
pub mod visualize;
pub mod dataset_browser;
pub mod ply_header;
pub mod cli_status;
pub mod launch;
pub mod send;
pub mod settings_panel;
pub mod stats;
pub mod delta_plan;
pub mod header_scan;
pub mod row_plan;
