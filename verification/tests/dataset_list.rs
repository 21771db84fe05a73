use brush::dataset_list::{dataset_listing, newest_first_order, DatasetCandidate, EntryMeta};

fn cand(path: &str, is_dir: bool, is_dataset: bool, meta: Option<(u64, i128)>) -> DatasetCandidate {
    DatasetCandidate {
        path: path.to_string(),
        is_dir,
        is_file: !is_dir,
        is_dataset,
        metadata: meta.map(|(size, modified)| EntryMeta { size, modified }),
    }
}

#[test]
fn order_is_newest_first_and_stable() {
    assert_eq!(newest_first_order(&vec![5, 9, 5, -1, 9]), vec![1, 4, 0, 2, 3]);
    assert_eq!(newest_first_order(&vec![]), Vec::<usize>::new());
}

#[test]
fn listing_combines_folders_and_zips() {
    let cs = vec![
        cand("/d/garden", true, true, Some((100, 30))),
        cand("/d/notes", true, false, Some((5, 99))),
        cand("/d/garden.zip", false, false, Some((50, 40))),
        cand("/d/bike.zip", false, false, Some((70, 10))),
        cand("/d/readme.txt", false, false, Some((1, 50))),
        cand("/d/lego", true, true, Some((1, 1000))),
        cand("/d/broken", true, true, None),
        cand("/d/truck", true, true, Some((300, 20))),
    ];
    let list = dataset_listing("/d", Some(EntryMeta { size: 10, modified: 25 }), &cs);
    let names: Vec<&str> = list.iter().map(|e| e.name.as_str()).collect();
    // garden.zip is skipped: a folder named garden is listed.
    assert_eq!(names, vec!["garden", "lego", "truck", "bike.zip"]);
    assert_eq!(list[1].path, std::path::Path::new("/d").join("lego").to_string_lossy());
    assert_eq!(list[0].size, 100);
    assert_eq!(list[3].size, 70);
    assert!(list.iter().all(|e| !e.processed));
    let mut paths: Vec<&str> = list.iter().map(|e| e.path.as_str()).collect();
    paths.sort();
    paths.dedup();
    assert_eq!(paths.len(), list.len());
}

#[test]
fn listing_without_lego() {
    let cs = vec![cand("/d/a.zip", false, false, Some((1, 5))), cand("/d/a.zip.zip", false, false, Some((2, 6)))];
    let list = dataset_listing("/d", None, &cs);
    let names: Vec<&str> = list.iter().map(|e| e.name.as_str()).collect();
    // The second archive's stem is the first archive's name.
    assert_eq!(names, vec!["a.zip"]);
}
