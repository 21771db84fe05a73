use brush::vfs::{drop_dot_parts, find_entry, is_macosx_path, listed_file_names, normalized_path, ZipData};
use std::path::{Component, Path, PathBuf};

fn reference_normalized(p: &str) -> PathBuf {
    Path::new(p)
        .components()
        .filter(|c| !matches!(c, Component::CurDir | Component::ParentDir))
        .collect()
}

#[test]
fn normalization_drops_dot_components() {
    for p in ["a/./b/../c", "./x", "../../y/z.png", "/abs/./p", "plain", "", "a//b/"] {
        assert_eq!(PathBuf::from(normalized_path(p)), reference_normalized(p), "path {}", p);
    }
    assert_eq!(PathBuf::from(normalized_path("a/../b")), PathBuf::from("a/b"));
}

#[test]
fn dot_parts_filter() {
    let v: Vec<String> = ["a", ".", "..", "b"].iter().map(|s| s.to_string()).collect();
    assert_eq!(drop_dot_parts(v), vec!["a".to_string(), "b".to_string()]);
}

#[test]
fn macos_resource_forks_are_hidden() {
    assert!(is_macosx_path("__MACOSX/a/._b.png"));
    assert!(is_macosx_path("__MACOSX"));
    assert!(!is_macosx_path("x/__MACOSX/a"));
    assert!(!is_macosx_path("__MACOSX_old/a"));
    let names: Vec<String> = ["a.png", "__MACOSX/._a.png", "b/c.json"].iter().map(|s| s.to_string()).collect();
    assert_eq!(listed_file_names(&names), vec![0, 2]);
}

#[test]
fn entries_found_by_path() {
    let names: Vec<String> = ["scene/", "scene/transforms.json", "scene/images/a.png"].iter().map(|s| s.to_string()).collect();
    assert_eq!(find_entry(&names, "scene/transforms.json"), Some(1));
    assert_eq!(find_entry(&names, "scene//images/./a.png"), Some(2));
    assert_eq!(find_entry(&names, "scene"), Some(0));
    assert_eq!(find_entry(&names, "missing"), None);
}

#[test]
fn zip_bytes_kept() {
    let z = ZipData::new(vec![0x50, 0x4b, 3, 4]);
    assert_eq!(z.as_ref(), &[0x50, 0x4b, 3, 4]);
}

#[test]
fn normalization_is_idempotent() {
    for p in ["a/./b/../c", "../x/./y", "/r/../s", "t"] {
        let once = normalized_path(p);
        assert_eq!(PathBuf::from(normalized_path(&once)), PathBuf::from(&once));
    }
}
