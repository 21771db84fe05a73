use brush::export::{
    dataset_export_name, ply_file_name, AutoSaveConfig, DirEntryInfo, ExportError, ExportFormat,
    ExportService,
};

fn entry(name: &str) -> DirEntryInfo {
    DirEntryInfo { name: Some(name.to_string()), is_dir: false }
}

fn config(interval: u32, max_saves: Option<u32>) -> AutoSaveConfig {
    AutoSaveConfig {
        enabled: true,
        interval_steps: interval,
        max_saves,
        format: ExportFormat::PLY,
        prefix: "autosave_".to_string(),
    }
}

#[test]
fn auto_save_config_defaults() {
    let c = AutoSaveConfig::default();
    assert!(!c.enabled);
    assert_eq!(c.interval_steps, 1000);
    assert_eq!(c.max_saves, Some(5));
    assert_eq!(c.format, ExportFormat::PLY);
    assert_eq!(c.prefix, "autosave_");
}

#[test]
fn new_service_keeps_directory() {
    let s = ExportService::new(Some("/tmp/out".to_string()));
    assert_eq!(s.export_dir(), Some("/tmp/out"));
    let s = ExportService::new(None);
    assert_eq!(s.export_dir(), None);
    assert!(matches!(s.require_export_dir(), Err(ExportError::NoExportDir)));
}

#[test]
fn set_export_dir_replaces_directory() {
    let mut s = ExportService::new(None);
    s.set_export_dir("/data/exports".to_string());
    assert_eq!(s.export_dir(), Some("/data/exports"));
    match s.require_export_dir() {
        Ok(d) => assert_eq!(d, "/data/exports"),
        Err(_) => panic!("directory expected"),
    }
}

#[test]
fn auto_save_not_due_without_config() {
    let mut s = ExportService::new(None);
    assert!(s.check_auto_save(5000).is_none());
}

#[test]
fn auto_save_due_after_interval() {
    let mut s = ExportService::new(None);
    s.configure_auto_save(config(1000, Some(3)));
    assert!(s.check_auto_save(0).is_none());
    assert!(s.check_auto_save(999).is_none());
    let plan = s.check_auto_save(1000).expect("due at 1000");
    assert_eq!(plan.file_name, "autosave_1000");
    assert_eq!(plan.prefix, "autosave_");
    assert_eq!(plan.max_saves, Some(3));
    assert_eq!(plan.format, ExportFormat::PLY);
    assert!(s.check_auto_save(1999).is_none());
    let plan = s.check_auto_save(2500).expect("due at 2500");
    assert_eq!(plan.file_name, "autosave_2500");
}

#[test]
fn auto_saves_are_spaced_by_the_interval() {
    let mut s = ExportService::new(None);
    s.configure_auto_save(config(300, None));
    let mut saved: Vec<u32> = vec![];
    for step in 1..=2000u32 {
        if s.check_auto_save(step).is_some() {
            saved.push(step);
        }
    }
    assert_eq!(saved, vec![300, 600, 900, 1200, 1500, 1800]);
    for w in saved.windows(2) {
        assert!(w[1] - w[0] >= 300);
    }
}

#[test]
fn disabled_auto_save_is_never_due() {
    let mut s = ExportService::new(None);
    s.configure_auto_save(config(10, None));
    s.disable_auto_save();
    assert!(s.check_auto_save(100).is_none());
}

#[test]
fn cleanup_removes_oldest_autosaves() {
    let entries = vec![
        entry("autosave_100.ply"),
        entry("other.ply"),
        entry("autosave_300.ply"),
        DirEntryInfo { name: Some("autosave_500.ply".to_string()), is_dir: true },
        entry("autosave_200"),
        entry("autosave_x.ply"),
        DirEntryInfo { name: None, is_dir: false },
        entry("autosave_400.ply"),
    ];
    // Steps: 100 (0), 300 (2), 200 (4), 400 (7). Keep the two highest.
    let r = ExportService::autosaves_to_remove(&entries, "autosave_", 2);
    assert_eq!(r, vec![4, 0]);
    let r = ExportService::autosaves_to_remove(&entries, "autosave_", 0);
    assert_eq!(r, vec![7, 2, 4, 0]);
    let r = ExportService::autosaves_to_remove(&entries, "autosave_", 4);
    assert!(r.is_empty());
}

#[test]
fn cleanup_keeps_listing_order_among_equal_steps() {
    let entries = vec![entry("autosave_7.ply"), entry("autosave_7"), entry("autosave_9.ply")];
    let r = ExportService::autosaves_to_remove(&entries, "autosave_", 1);
    assert_eq!(r, vec![0, 1]);
}

#[test]
fn ply_file_name_appends_extension() {
    assert_eq!(ply_file_name("splat").ok(), Some("splat.ply".to_string()));
    assert_eq!(ply_file_name("splat.ply").ok(), Some("splat.ply".to_string()));
    match ply_file_name("") {
        Err(ExportError::InvalidFilename(m)) => assert_eq!(m, "Empty filename"),
        _ => panic!("empty name must be refused"),
    }
}

#[test]
fn dataset_export_names() {
    assert_eq!(dataset_export_name(0), "dataset_0");
    assert_eq!(dataset_export_name(12), "dataset_12");
}

#[test]
fn ply_naming_is_idempotent() {
    for n in ["a", "a.ply", "x.PLY", "dir/s.ply.ply", ".ply"] {
        let once = ply_file_name(n).ok().expect("named");
        let twice = ply_file_name(&once).ok().expect("named");
        assert_eq!(once, twice);
        assert!(once.ends_with(".ply"));
    }
}

#[test]
fn ply_output_paths() {
    let s = ExportService::new(Some("/out".to_string()));
    let p = s.ply_output_path("scene").ok().expect("path");
    assert_eq!(std::path::Path::new(&p), std::path::Path::new("/out/scene.ply"));
    assert!(matches!(s.ply_output_path(""), Err(ExportError::InvalidFilename(_))));
    let none = ExportService::new(None);
    assert!(matches!(none.ply_output_path(""), Err(ExportError::NoExportDir)));
}
