use brush::dataset_browser::{
    add_if_absent, copy_destination, extraction_folder, file_import_target, open_plan, DatasetBrowser,
    DatasetOpen, FileImport, FolderImport,
};
use brush::dataset_list::DatasetEntry;
use std::path::Path;

fn entry(name: &str, path: &str, modified: i128) -> DatasetEntry {
    DatasetEntry { name: name.to_string(), path: path.to_string(), size: 1, modified, processed: false }
}

#[test]
fn browser_starts_open_with_folder() {
    let b = DatasetBrowser::new("/d".to_string());
    assert!(b.is_open());
    assert_eq!(b.datasets_folder.as_deref(), Some("/d"));
    assert!(!b.wants_to_select_folder() && !b.wants_to_select_file() && !b.wants_to_select_dataset_folder());
    assert!(b.copy_datasets_to_local);
}

#[test]
fn dialog_flags() {
    let mut b = DatasetBrowser::new("/d".to_string());
    b.select_folder();
    assert!(b.wants_to_select_folder());
    b.folder_selection_started();
    assert!(!b.wants_to_select_folder());
    b.set_selected_folder("/e".to_string());
    assert_eq!(b.datasets_folder.as_deref(), Some("/e"));
    assert!(!b.folder_selection_in_progress);
    b.cancel_folder_selection();
    assert!(!b.show_folder_dialog);
    b.add_dataset_file();
    assert!(b.wants_to_select_file());
    b.file_selection_started();
    assert!(!b.wants_to_select_file());
    b.set_selected_file("/x/a.zip".to_string());
    assert!(!b.file_selection_in_progress);
    assert_eq!(b.take_pending_import().as_deref(), Some("/x/a.zip"));
    assert_eq!(b.take_pending_import(), None);
    b.cancel_file_selection();
    assert!(!b.show_file_dialog);
    b.select_dataset_folder();
    assert!(b.wants_to_select_dataset_folder());
    b.dataset_folder_selection_started();
    assert!(!b.wants_to_select_dataset_folder() && b.dataset_folder_selection_in_progress);
    b.cancel_dataset_folder_selection();
    assert!(!b.dataset_folder_selection_in_progress);
    b.set_open(false);
    assert!(!b.is_open());
}

#[test]
fn picked_dataset_folders() {
    let mut b = DatasetBrowser::new("/d".to_string());
    match b.set_selected_dataset_folder("/src/garden".to_string()) {
        FolderImport::CopyTo(p) => assert_eq!(Path::new(&p), Path::new("/d/garden")),
        _ => panic!("copy expected"),
    }
    b.datasets_folder = None;
    assert!(matches!(b.set_selected_dataset_folder("/src/garden".to_string()), FolderImport::AwaitDatasetsFolder));
    assert!(b.show_folder_dialog);
    assert_eq!(b.pending_file_import.as_deref(), Some("/src/garden"));
    b.copy_datasets_to_local = false;
    b.set_open(false);
    assert!(matches!(b.set_selected_dataset_folder("/src/bike".to_string()), FolderImport::InPlace));
    assert!(b.is_open());
    assert_eq!(b.pending_file_import.as_deref(), Some("/src/bike"));
}

#[test]
fn import_targets() {
    match file_import_target("/x/garden.zip", "/d") {
        FileImport::ExtractTo(p) => assert_eq!(Path::new(&p), Path::new("/d/garden")),
        _ => panic!("extract expected"),
    }
    match file_import_target("/x/scene.ply", "/d") {
        FileImport::CopyTo(p) => assert_eq!(Path::new(&p), Path::new("/d/scene.ply")),
        _ => panic!("copy expected"),
    }
    assert_eq!(copy_destination("/d/a.zip", "/d"), None);
    assert_eq!(copy_destination("/x/a.zip", "/d").map(|p| Path::new(&p).to_path_buf()), Some(Path::new("/d/a.zip").to_path_buf()));
}

#[test]
fn opening_plans() {
    assert_eq!(extraction_folder("/d/a.zip", true, Some("/d")).map(|p| Path::new(&p).to_path_buf()), Some(Path::new("/d/a").to_path_buf()));
    assert_eq!(extraction_folder("/d/a.zip", false, Some("/d")), None);
    assert_eq!(extraction_folder("/d/a", true, Some("/d")), None);
    assert_eq!(extraction_folder("/d/a.zip", true, None), None);
    assert!(matches!(open_plan(None, true), DatasetOpen::Direct));
    assert!(matches!(open_plan(Some("/d/a".to_string()), false), DatasetOpen::ExtractThenOpen(_)));
    assert!(matches!(open_plan(Some("/d/a".to_string()), true), DatasetOpen::OpenExtracted(_)));
}

#[test]
fn adding_keeps_newest_first() {
    let list = vec![entry("b", "/d/b", 20), entry("a", "/d/a", 10)];
    let list = add_if_absent(list, entry("c", "/d/c", 15));
    let names: Vec<&str> = list.iter().map(|e| e.name.as_str()).collect();
    assert_eq!(names, vec!["b", "c", "a"]);
    let list = add_if_absent(list, entry("dup", "/d/./c", 99));
    assert_eq!(list.len(), 3);
}
