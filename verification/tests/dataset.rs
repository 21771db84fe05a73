use brush::dataset::{
    choose_eval_transforms, choose_transforms, find_mask_path, find_tagged_json, frame_image_path,
    is_eval_view, selected_frames, single_ply, try_frame_image_path, TransformsError,
};

fn names(v: &[&str]) -> Vec<String> {
    v.iter().map(|s| s.to_string()).collect()
}

#[test]
fn single_json_is_the_transforms_file() {
    let n = names(&["images/a.png", "scene/transforms.json", "notes.txt"]);
    assert_eq!(choose_transforms(&n), Ok(1));
}

#[test]
fn train_json_is_chosen_among_several() {
    let n = names(&["transforms_test.json", "transforms_train.json", "transforms_val.json"]);
    assert_eq!(choose_transforms(&n), Ok(1));
    assert_eq!(choose_eval_transforms(&n), Some(2));
    let n = names(&["transforms_test.json", "transforms_train.json"]);
    assert_eq!(choose_eval_transforms(&n), Some(0));
}

#[test]
fn no_json_is_an_error() {
    let n = names(&["a.png", "b.png"]);
    assert_eq!(choose_transforms(&n), Err(TransformsError::NoJsonFile));
    let n = names(&["a.json", "b.json"]);
    assert_eq!(choose_transforms(&n), Err(TransformsError::NoJsonFile));
}

#[test]
fn tag_is_searched_in_file_name_only() {
    let n = names(&["_train/a.json", "x/b_train.json"]);
    assert_eq!(find_tagged_json(&n, "_train"), Some(1));
    assert_eq!(find_tagged_json(&n, "_val"), None);
}

#[test]
fn single_ply_needs_exactly_one() {
    assert_eq!(single_ply(&names(&["a.ply", "b.txt"])), Some(0));
    assert_eq!(single_ply(&names(&["a.ply", "b.ply"])), None);
    assert_eq!(single_ply(&names(&["b.txt"])), None);
}

#[test]
fn frame_selection() {
    assert_eq!(selected_frames(5, None, None), vec![0, 1, 2, 3, 4]);
    assert_eq!(selected_frames(5, Some(3), None), vec![0, 1, 2]);
    assert_eq!(selected_frames(10, None, Some(3)), vec![0, 3, 6, 9]);
    assert_eq!(selected_frames(10, Some(7), Some(2)), vec![0, 2, 4, 6]);
    assert_eq!(selected_frames(0, Some(3), Some(2)), Vec::<usize>::new());
}

#[test]
fn eval_split() {
    assert!(is_eval_view(0, Some(8), false));
    assert!(is_eval_view(16, Some(8), false));
    assert!(!is_eval_view(3, Some(8), false));
    assert!(!is_eval_view(0, Some(8), true));
    assert!(!is_eval_view(16, Some(8), true));
    assert!(!is_eval_view(0, None, false));
}

#[test]
fn frame_image_paths() {
    let p = frame_image_path("data/transforms.json", "images/r_0");
    assert_eq!(std::path::Path::new(&p), std::path::Path::new("data/images/r_0.png"));
    let p = frame_image_path("data/transforms.json", "images/r_0.jpg");
    assert_eq!(std::path::Path::new(&p), std::path::Path::new("data/images/r_0.jpg"));
    assert!(try_frame_image_path("/", "a").is_none());
    assert_eq!(
        try_frame_image_path("t.json", "a.png").map(|p| std::path::PathBuf::from(p)),
        Some(std::path::PathBuf::from("a.png"))
    );
}

#[test]
fn mask_next_to_image() {
    let n = names(&["data/images/a.png", "data/images/a_mask.png", "data/masks/a.png"]);
    assert_eq!(find_mask_path(&n, "data/images/a.png"), Some(1));
}

#[test]
fn mask_in_masks_directory() {
    let n = names(&["data/images/a.png", "data/masks/a.png", "data/masks/b.png"]);
    assert_eq!(find_mask_path(&n, "data/images/./a.png"), Some(1));
    assert_eq!(find_mask_path(&n, "data/images/c.png"), None);
}

#[test]
fn dataset_views() {
    use_dataset();
}

fn use_dataset() {
    let d: brush::dataset::Dataset<u32> = brush::dataset::Dataset::empty();
    assert!(d.train.is_empty() && d.eval.is_none());
    let d = brush::dataset::Dataset::from_views(vec![1, 2], vec![]);
    assert_eq!(d.train, vec![1, 2]);
    assert!(d.eval.is_none());
    assert_eq!(d.eval_view_count(), 0);
    let d = brush::dataset::Dataset::from_views(vec![1], vec![7, 8]);
    assert_eq!(d.eval, Some(vec![7, 8]));
    assert_eq!(d.eval_view_count(), 2);
}

#[test]
fn dataset_selected_views_fall_back_to_train() {
    let d = brush::dataset::Dataset::from_views(vec![1, 2], vec![]);
    assert_eq!(d.selected_views(false), &vec![1, 2]);
    assert_eq!(d.selected_views(true), &vec![1, 2]);
    let d = brush::dataset::Dataset::from_views(vec![1], vec![7, 8]);
    assert_eq!(d.selected_views(false), &vec![7, 8]);
    assert_eq!(d.selected_views(true), &vec![1]);
}
