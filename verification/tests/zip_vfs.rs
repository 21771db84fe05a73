use brush::vfs::{extraction_plan, BrushVfs, ExtractStep, OpenedFile, VfsError, ZipData};
use std::io::Write;
use std::path::Path;

fn archive(files: &[(&str, &[u8])]) -> Vec<u8> {
    let mut buf = std::io::Cursor::new(Vec::new());
    {
        let mut w = zip::ZipWriter::new(&mut buf);
        for (name, data) in files {
            let options: zip::write::SimpleFileOptions = zip::write::SimpleFileOptions::default();
            w.start_file(*name, options).expect("start");
            w.write_all(data).expect("write");
        }
        w.finish().expect("finish");
    }
    buf.into_inner()
}

#[test]
fn zip_listing_and_reading() {
    let bytes = archive(&[
        ("scene/transforms.json", b"{}"),
        ("__MACOSX/scene/._transforms.json", b"junk"),
        ("scene/images/a.png", b"png!"),
    ]);
    let mut vfs = BrushVfs::from_zip(ZipData::new(bytes)).ok().expect("archive");
    assert_eq!(vfs.file_names(), vec!["scene/transforms.json", "scene/images/a.png"]);
    match vfs.open_path("scene/./images/a.png") {
        Ok(OpenedFile::Bytes(b)) => assert_eq!(b, b"png!".to_vec()),
        _ => panic!("entry expected"),
    }
    assert!(matches!(vfs.open_path("scene/missing.png"), Err(VfsError::FileNotFound)));
}

#[test]
fn invalid_archive_refused() {
    assert!(matches!(BrushVfs::from_zip(ZipData::new(b"not a zip".to_vec())), Err(VfsError::InvalidArchive)));
}

#[test]
fn handed_readers_are_taken_once() {
    let mut vfs = BrushVfs::from_paths(vec!["input.ply".to_string(), "__MACOSX/x".to_string()]);
    assert_eq!(vfs.file_names(), vec!["input.ply"]);
    // A leading `.` is a component of its own: this names another path.
    assert!(matches!(vfs.open_path("./input.ply"), Err(VfsError::FileNotFound)));
    assert!(matches!(vfs.open_path("input.ply"), Ok(OpenedFile::Handed(0))));
    assert!(matches!(vfs.open_path("input.ply"), Err(VfsError::FileNotFound)));
    assert!(vfs.file_names().is_empty());
}

#[test]
fn directory_paths_are_joined() {
    let mut vfs = BrushVfs::from_directory("/data/set".to_string(), vec!["a.png".to_string()]);
    assert_eq!(vfs.file_names(), vec!["a.png"]);
    match vfs.open_path("images/a.png") {
        Ok(OpenedFile::OnDisk(p)) => assert_eq!(Path::new(&p), Path::new("/data/set/images/a.png")),
        _ => panic!("disk path expected"),
    }
}

#[test]
fn extraction_steps() {
    let mut buf = std::io::Cursor::new(Vec::new());
    {
        let mut w = zip::ZipWriter::new(&mut buf);
        let options: zip::write::SimpleFileOptions = zip::write::SimpleFileOptions::default();
        w.add_directory("scene/", options).expect("dir");
        w.start_file("scene/a.txt", options).expect("file");
        w.write_all(b"a").expect("write");
        w.start_file("../evil.txt", options).expect("file");
        w.write_all(b"x").expect("write");
        w.finish().expect("finish");
    }
    let plan = extraction_plan(&ZipData::new(buf.into_inner()), "/out").ok().expect("archive");
    assert!(plan.complete);
    assert_eq!(plan.steps.len(), 2);
    match &plan.steps[0] {
        ExtractStep::CreateDir(p) => assert_eq!(Path::new(p), Path::new("/out/scene")),
        _ => panic!("directory expected"),
    }
    match &plan.steps[1] {
        ExtractStep::WriteFile(i, p) => {
            assert_eq!(*i, 1);
            assert_eq!(Path::new(p), Path::new("/out/scene/a.txt"));
        }
        _ => panic!("file expected"),
    }
    assert!(extraction_plan(&ZipData::new(b"nope".to_vec()), "/out").is_err());
}

#[test]
fn repeated_handed_path_keeps_the_last_reader() {
    let mut vfs = BrushVfs::from_paths(vec![
        "a.ply".to_string(),
        "b.ply".to_string(),
        "dir//a.ply".to_string(),
        "dir/a.ply".to_string(),
        "a.ply".to_string(),
    ]);
    assert_eq!(vfs.file_names(), vec!["b.ply", "dir/a.ply", "a.ply"]);
    assert!(matches!(vfs.open_path("a.ply"), Ok(OpenedFile::Handed(4))));
    assert!(matches!(vfs.open_path("a.ply"), Err(VfsError::FileNotFound)));
    assert!(matches!(vfs.open_path("dir/a.ply"), Ok(OpenedFile::Handed(3))));
}
