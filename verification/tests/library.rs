use brush::library::{
    default_datasets_folder, export_base, export_file_name, generate_export_filename,
    is_valid_dataset_folder, FolderEntry,
};

#[test]
fn export_base_prefers_current_name() {
    assert_eq!(export_base(Some("garden"), Some("x/y/z.png")), "garden");
}

#[test]
fn export_base_from_first_view() {
    assert_eq!(export_base(None, Some("data/lego/images/r_0.png")), "lego");
    assert_eq!(export_base(None, Some("images/r_0.png")), "images");
    assert_eq!(export_base(None, Some("r_0.png")), "dataset");
    assert_eq!(export_base(None, None), "dataset");
}

#[test]
fn export_file_name_layout() {
    assert_eq!(export_file_name("lego", "20240101_120000"), "lego_20240101_120000.ply");
}

#[test]
fn generated_export_filename_shape() {
    let n = generate_export_filename(Some("lego"), None);
    assert!(n.starts_with("lego_"));
    assert!(n.ends_with(".ply"));
    let ts = &n["lego_".len()..n.len() - ".ply".len()];
    assert_eq!(ts.len(), 15);
    assert_eq!(&ts[8..9], "_");
    assert!(ts.chars().enumerate().all(|(i, c)| i == 8 || c.is_ascii_digit()));
}

fn fe(name: &str, is_dir: bool, ext: &str) -> FolderEntry {
    FolderEntry {
        name: name.to_string(),
        is_dir,
        is_file: !is_dir,
        has_images_subdir: false,
        extension: ext.to_string(),
    }
}

#[test]
fn dataset_folder_signals() {
    assert!(is_valid_dataset_folder("garden", &vec![fe("images", true, "")]));
    assert!(is_valid_dataset_folder("garden", &vec![fe("IMG_1.JPG", false, "JPG")]));
    assert!(is_valid_dataset_folder("garden", &vec![fe("sparse", true, "")]));
    assert!(is_valid_dataset_folder("garden", &vec![fe("my_transforms_x.txt", false, "txt")]));
    assert!(is_valid_dataset_folder("garden", &vec![fe("scene.json", false, "json")]));
    assert!(!is_valid_dataset_folder("garden", &vec![fe("notes.txt", false, "txt")]));
    assert!(!is_valid_dataset_folder("garden", &vec![]));
    let mut sub = fe("scans", true, "");
    sub.has_images_subdir = true;
    assert!(is_valid_dataset_folder("garden", &vec![sub]));
}

#[test]
fn lego_folder_needs_transforms() {
    let tj = FolderEntry {
        name: "transforms.json".to_string(),
        is_dir: true,
        is_file: false,
        has_images_subdir: false,
        extension: "json".to_string(),
    };
    assert!(is_valid_dataset_folder("LEGO", &vec![tj]));
    let tj2 = FolderEntry {
        name: "transforms.json".to_string(),
        is_dir: true,
        is_file: false,
        has_images_subdir: false,
        extension: "json".to_string(),
    };
    assert!(!is_valid_dataset_folder("garden", &vec![tj2]));
}

#[test]
fn default_folder_choice() {
    let p = default_datasets_folder(Some("/home/u/Documents"), Some("/home/u"));
    assert_eq!(std::path::Path::new(&p), std::path::Path::new("/home/u/Documents/Brush/Datasets"));
    let p = default_datasets_folder(None, Some("/home/u"));
    assert_eq!(std::path::Path::new(&p), std::path::Path::new("/home/u/Brush/Datasets"));
    assert_eq!(default_datasets_folder(None, None), "Brush_Datasets");
}
