use brush::train::{
    eval_image_path, export_digits, export_dir_or_default, export_file_for_iter, export_target, plan_train_step,
    replace_chars, try_eval_image_path,
};
use std::path::Path;

#[test]
fn plan_periodic_actions() {
    let p = plan_train_step(1000, 30000, 1000, 5000, Some(500), 50);
    assert!(!p.last_step && p.eval && !p.export && p.log_splats && p.update_ui && p.log_train_stats);
    let p = plan_train_step(5001, 30000, 1000, 5000, None, 50);
    assert!(!p.eval && !p.export && !p.log_splats && !p.update_ui && !p.log_train_stats);
    let p = plan_train_step(30000, 30000, 7, 9, None, 11);
    assert!(p.last_step && p.eval && p.export && !p.log_splats && p.update_ui && p.log_train_stats);
}

#[test]
fn export_digits_match_log10_ceil() {
    for total in [0u32, 1, 2, 9, 10, 11, 99, 100, 101, 999, 1000, 1001, 30000, 99999, 100000, u32::MAX] {
        let expected = (total as f64).log10().ceil() as usize;
        assert_eq!(export_digits(total), expected, "total = {}", total);
    }
}

#[test]
fn export_names() {
    assert_eq!(export_file_for_iter("./export_{iter}.ply", 500, 30000), "./export_00500.ply");
    assert_eq!(export_file_for_iter("splat.ply", 500, 30000), "splat.ply");
    assert_eq!(export_file_for_iter("{iter}_{iter}", 7, 100), "07_07");
    assert_eq!(export_file_for_iter("a_{iter}", 123456, 10), "a_123456");
}

#[test]
fn replace_all_occurrences() {
    let c = |s: &str| -> Vec<char> { s.chars().collect() };
    let r: String = replace_chars(&c("aXbXXc"), &c("X"), &c("yy")).into_iter().collect();
    assert_eq!(r, "aX".replace('X', "yy") + &"bXXc".replace('X', "yy"));
    let r: String = replace_chars(&c("aaa"), &c("aa"), &c("b")).into_iter().collect();
    assert_eq!(r, "aaa".replace("aa", "b"));
}

#[test]
fn export_directory_default() {
    assert_eq!(export_dir_or_default(Some("out/dir")), "out/dir");
    assert_eq!(export_dir_or_default(None), ".");
}

#[test]
fn export_and_eval_paths() {
    let p = export_target(Some("out"), "./export_{iter}.ply", 5000, 30000);
    assert_eq!(Path::new(&p), Path::new("out/./export_05000.ply"));
    let p = export_target(None, "s.ply", 1, 1);
    assert_eq!(Path::new(&p), Path::new("./s.ply"));
    let p = eval_image_path(Some("out"), 3000, "images/r_12.jpg");
    assert_eq!(Path::new(&p), Path::new("out/eval_3000/r_12.png"));
    assert_eq!(try_eval_image_path(None, 1, "/"), None);
    assert_eq!(try_eval_image_path(None, 7, "a/b.png").map(|p| Path::new(&p).to_path_buf()), Some(Path::new("./eval_7/b.png").to_path_buf()));
}
