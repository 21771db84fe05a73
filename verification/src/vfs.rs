//! Reading a dataset as a small file system: the bytes of a zip archive,
//! paths stripped of `.` and `..`, the file names that are listed, and the
//! archive entry a path names.

use vstd::prelude::*;
use std::path::{Path, PathBuf};
use crate::paths::{join, joined, paths_equal, same_path};
use crate::text::{chars_of, same_chars};

verus! {

/// The text of each component of this path, as `Path::components` yields
/// them.
pub uninterp spec fn parts_of(p: Seq<char>) -> Seq<Seq<char>>;

/// The path `PathBuf` builds by pushing these parts in turn.
pub uninterp spec fn path_of_parts(parts: Seq<Seq<char>>) -> Seq<char>;

/// The texts of some strings.
pub open spec fn texts(v: Seq<String>) -> Seq<Seq<char>> {
    v.map_values(|s: String| s@)
}

/// Calls `Path::components` and takes the text of each component. The
/// components of a `&str` path are valid UTF-8, so no character is lost.
#[verifier::external_body]
fn path_parts(p: &str) -> (parts: Vec<String>)
    ensures
        texts(parts@) == parts_of(p@),
{
    Path::new(p).components().map(|c| c.as_os_str().to_string_lossy().into_owned()).collect()
}

/// Collects the parts into a `PathBuf`, which pushes each in turn.
#[verifier::external_body]
fn path_from_parts(parts: &Vec<String>) -> (p: String)
    ensures
        p@ == path_of_parts(texts(parts@)),
{
    parts.iter().collect::<PathBuf>().to_string_lossy().into_owned()
}

/// Whether a part stands for the current or the parent directory.
pub open spec fn is_dot_part(part: Seq<char>) -> bool {
    part == "."@ || part == ".."@
}

/// The parts without those that stand for the current or parent directory.
pub open spec fn without_dots(parts: Seq<Seq<char>>) -> Seq<Seq<char>> {
    parts.filter(|part: Seq<char>| !is_dot_part(part))
}

fn text_is(s: &str, lit: &str) -> (r: bool)
    ensures
        r == (s@ == lit@),
{
    same_chars(&chars_of(s), &chars_of(lit))
}


/// Dropping `.` and `..` parts twice is the same as once.
pub proof fn lemma_without_dots_idempotent(parts: Seq<Seq<char>>)
    ensures
        without_dots(without_dots(parts)) == without_dots(parts),
        forall|k: int| 0 <= k < without_dots(parts).len() ==> !is_dot_part(
            #[trigger] without_dots(parts)[k],
        ),
{
    let f = |part: Seq<char>| !is_dot_part(part);
    let once = parts.filter(f);
    assert forall|k: int| 0 <= k < once.len() implies !is_dot_part(#[trigger] once[k]) by {
        parts.lemma_filter_pred(f, k);
    }
    lemma_filter_keeps_all(once);
}

/// Filtering a sequence none of whose parts are dot parts keeps it whole.
proof fn lemma_filter_keeps_all(s: Seq<Seq<char>>)
    requires
        forall|k: int| 0 <= k < s.len() ==> !is_dot_part(#[trigger] s[k]),
    ensures
        without_dots(s) == s,
    decreases s.len(),
{
    reveal(Seq::filter);
    if s.len() > 0 {
        assert forall|k: int| 0 <= k < s.drop_last().len() implies !is_dot_part(
            #[trigger] s.drop_last()[k],
        ) by {
            assert(s.drop_last()[k] == s[k]);
        }
        lemma_filter_keeps_all(s.drop_last());
        assert(!is_dot_part(s[s.len() - 1]));
        assert(s.drop_last().push(s.last()) =~= s);
    }
}

/// Drops the parts that stand for the current or parent directory, keeping
/// the others in order.
pub fn drop_dot_parts(parts: Vec<String>) -> (kept: Vec<String>)
    ensures
        texts(kept@) == without_dots(texts(parts@)),
{
    let mut kept: Vec<String> = Vec::new();
    let mut i: usize = 0;
    while i < parts.len()
        invariant
            i <= parts.len(),
            texts(kept@) == without_dots(texts(parts@.take(i as int))),
        decreases parts.len() - i,
    {
        let part = &parts[i];
        let dot = text_is(part.as_str(), ".") || text_is(part.as_str(), "..");
        proof {
            reveal(Seq::filter);
            reveal_strlit(".");
            reveal_strlit("..");
            let before = texts(parts@.take(i as int));
            let after = texts(parts@.take(i as int + 1));
            assert(after =~= before.push(parts@[i as int]@));
            assert(before.push(parts@[i as int]@).drop_last() =~= before);
            assert(dot == is_dot_part(parts@[i as int]@));
        }
        if !dot {
            kept.push(part.clone());
            proof {
                assert(texts(kept@) =~= texts(kept@.drop_last()).push(part@));
            }
        }
        i = i + 1;
    }
    assert(parts@.take(i as int) =~= parts@);
    kept
}

/// The path without its `.` and `..` components: the components are taken
/// apart, those two kinds dropped, and the rest joined again.
pub fn normalized_path(path: &str) -> (p: String)
    ensures
        p@ == path_of_parts(without_dots(parts_of(path@))),
{
    let parts = path_parts(path);
    let kept = drop_dot_parts(parts);
    path_from_parts(&kept)
}

/// Whether a path lies under a top-level `__MACOSX` directory, the resource
/// forks macOS adds to archives.
pub open spec fn under_macosx(p: Seq<char>) -> bool {
    parts_of(p).len() > 0 && parts_of(p)[0] == "__MACOSX"@
}

/// Whether a listed path lies under a top-level `__MACOSX` directory, which
/// `Path::starts_with` decides component by component.
pub fn is_macosx_path(p: &str) -> (r: bool)
    ensures
        r == under_macosx(p@),
{
    let parts = path_parts(p);
    proof {
        if parts@.len() > 0 {
            assert(texts(parts@)[0] == parts@[0]@);
        }
    }
    parts.len() > 0 && text_is(parts[0].as_str(), "__MACOSX")
}

/// The indices of the file names that are listed: all but those under
/// `__MACOSX`, in their order.
pub fn listed_file_names(names: &Vec<String>) -> (idx: Vec<usize>)
    ensures
        forall|k: int| 0 <= k < idx.len() ==> #[trigger] idx@[k] < names.len(),
        forall|k: int, l: int| 0 <= k < l < idx.len() ==> idx@[k] < idx@[l],
        forall|i: int|
            0 <= i < names.len() ==> (idx@.contains(i as usize) <==> !under_macosx(
                #[trigger] names@[i]@,
            )),
{
    let mut idx: Vec<usize> = Vec::new();
    let mut i: usize = 0;
    while i < names.len()
        invariant
            i <= names.len(),
            forall|k: int| 0 <= k < idx.len() ==> #[trigger] idx@[k] < i,
            forall|k: int, l: int| 0 <= k < l < idx.len() ==> idx@[k] < idx@[l],
            forall|j: int|
                0 <= j < i ==> (idx@.contains(j as usize) <==> !under_macosx(
                    #[trigger] names@[j]@,
                )),
        decreases names.len() - i,
    {
        let ghost before = idx@;
        if !is_macosx_path(names[i].as_str()) {
            idx.push(i);
        }
        proof {
            assert forall|j: int| 0 <= j < i + 1 implies (idx@.contains(j as usize)
                <==> !under_macosx(#[trigger] names@[j]@)) by {
                if idx@.contains(j as usize) {
                    let k = idx@.index_of(j as usize);
                    if k < before.len() {
                        assert(before[k] == j);
                        assert(before.contains(j as usize));
                    }
                }
                if j < i && before.contains(j as usize) {
                    let k = before.index_of(j as usize);
                    assert(idx@[k] == j);
                }
                if j == i && !under_macosx(names@[j]@) {
                    assert(idx@[idx@.len() - 1] == i);
                }
            }
        }
        i = i + 1;
    }
    idx
}

/// The first archive entry whose name is the same path as `path` (compared
/// component by component), if any.
pub fn find_entry(names: &Vec<String>, path: &str) -> (r: Option<usize>)
    ensures
        r matches Some(i) ==> i < names.len() && same_path(path@, names@[i as int]@) && forall|
            j: int,
        | 0 <= j < i ==> !same_path(path@, #[trigger] names@[j]@),
        r is None ==> forall|j: int|
            0 <= j < names.len() ==> !same_path(path@, #[trigger] names@[j]@),
{
    let mut i: usize = 0;
    while i < names.len()
        invariant
            i <= names.len(),
            forall|j: int| 0 <= j < i ==> !same_path(path@, #[trigger] names@[j]@),
        decreases names.len() - i,
    {
        if paths_equal(path, names[i].as_str()) {
            return Some(i);
        }
        i = i + 1;
    }
    None
}

/// The entry names `zip` reads from the central directory of these bytes, in
/// order, if they hold an archive.
pub uninterp spec fn zip_names_of(data: Seq<u8>) -> Option<Seq<Seq<char>>>;

/// The contents `zip` reads for the entry `name` of the archive in these
/// bytes, if it reads them.
pub uninterp spec fn zip_entry_of(data: Seq<u8>, name: Seq<char>) -> Option<Seq<u8>>;

/// Calls `zip::ZipArchive::new` on the bytes and lists `file_names`; `None`
/// when the archive cannot be read.
#[verifier::external_body]
fn zip_names(data: &[u8]) -> (r: Option<Vec<String>>)
    ensures
        r matches Some(n) ==> zip_names_of(data@) == Some(texts(n@)),
        r is None ==> zip_names_of(data@) is None,
{
    let archive = zip::ZipArchive::new(std::io::Cursor::new(data)).ok()?;
    Some(archive.file_names().map(|n| n.to_string()).collect())
}

/// Calls `zip::ZipArchive::by_name` on the archive in the bytes and reads
/// the entry to its end; `None` when any step fails.
#[verifier::external_body]
fn zip_entry(data: &[u8], name: &str) -> (r: Option<Vec<u8>>)
    ensures
        r matches Some(b) ==> zip_entry_of(data@, name@) == Some(b@),
        r is None ==> zip_entry_of(data@, name@) is None,
{
    let mut archive = zip::ZipArchive::new(std::io::Cursor::new(data)).ok()?;
    let mut file = archive.by_name(name).ok()?;
    let mut buffer = Vec::new();
    std::io::Read::read_to_end(&mut file, &mut buffer).ok()?;
    Some(buffer)
}

/// Why a file of the data cannot be opened.
#[derive(Debug, Clone, Copy, PartialEq, Eq, Structural)]
pub enum VfsError {
    /// The bytes hold no readable zip archive.
    InvalidArchive,
    /// No file of that path.
    FileNotFound,
    /// The archive entry could not be read.
    ReadFailed,
}

/// What opening a path gives.
#[derive(Debug, Clone)]
pub enum OpenedFile {
    /// The contents of an archive entry.
    Bytes(Vec<u8>),
    /// The reader that was handed over for this path (by its position among
    /// the paths handed over), taken out of the data.
    Handed(usize),
    /// The file at this path on disk.
    OnDisk(String),
}

/// Data read as a small file system.
#[derive(Debug, Clone)]
pub enum BrushVfs {
    /// A zip archive in memory, with its entry names.
    Zip(ZipData, Vec<String>),
    /// Readers handed over one by one, by path; a reader is taken out when
    /// its path is opened.
    Manual(Vec<Option<String>>),
    /// A directory on disk, with the paths below it.
    Directory(String, Vec<String>),
}

/// The paths of the readers not yet taken.
pub open spec fn waiting_paths(paths: Seq<Option<String>>) -> Seq<Seq<char>>
    decreases paths.len(),
{
    if paths.len() == 0 {
        seq![]
    } else {
        let rest = waiting_paths(paths.drop_last());
        match paths.last() {
            Some(p) => rest.push(p@),
            None => rest,
        }
    }
}

/// The `i`-th path handed over is kept: no later one is the same path.
pub open spec fn kept_path(paths: Seq<String>, i: int) -> bool {
    forall|j: int| i < j < paths.len() ==> !same_path(#[trigger] paths[j]@, paths[i]@)
}

/// A reader for the same path as `p` waits at position `j`.
pub open spec fn waits_at(paths: Seq<Option<String>>, j: int, p: Seq<char>) -> bool {
    paths[j] matches Some(q) && same_path(q@, p)
}

/// The paths a file system lists before `__MACOSX` entries are left out.
pub open spec fn all_paths(v: BrushVfs) -> Seq<Seq<char>> {
    match v {
        BrushVfs::Zip(_, names) => texts(names@),
        BrushVfs::Manual(paths) => waiting_paths(paths@),
        BrushVfs::Directory(_, paths) => texts(paths@),
    }
}

/// The paths a file system lists: all but those under `__MACOSX`.
pub open spec fn listed_paths(v: BrushVfs) -> Seq<Seq<char>> {
    all_paths(v).filter(|p: Seq<char>| !under_macosx(p))
}

impl BrushVfs {
    /// Reads an archive from its bytes; refused when they hold none.
    pub fn from_zip(data: ZipData) -> (r: Result<BrushVfs, VfsError>)
        ensures
            match r {
                Ok(BrushVfs::Zip(d, names)) => d.bytes() == data.bytes() && zip_names_of(data.bytes())
                    == Some(texts(names@)),
                Ok(_) => false,
                Err(e) => e == VfsError::InvalidArchive && zip_names_of(data.bytes()) is None,
            },
    {
        match zip_names(data.as_ref()) {
            Some(names) => Ok(BrushVfs::Zip(data, names)),
            None => Err(VfsError::InvalidArchive),
        }
    }

    /// Readers handed over for these paths, by position. When the same path
    /// is handed over more than once, the last reader for it is kept and
    /// the earlier ones are dropped, so no path waits twice.
    pub fn from_paths(paths: Vec<String>) -> (r: BrushVfs)
        ensures
            r matches BrushVfs::Manual(v) && v@.len() == paths@.len() && forall|i: int|
                0 <= i < v@.len() ==> match #[trigger] v@[i] {
                    Some(q) => q@ == paths@[i]@ && kept_path(paths@, i),
                    None => !kept_path(paths@, i),
                },
            r matches BrushVfs::Manual(v) && forall|i: int, j: int|
                0 <= i < j < v@.len() && #[trigger] v@[i] is Some && #[trigger] v@[j] is Some
                    ==> !same_path(paths@[j]@, paths@[i]@),
    {
        let mut v: Vec<Option<String>> = Vec::new();
        let mut i: usize = 0;
        while i < paths.len()
            invariant
                i <= paths.len(),
                v@.len() == i,
                forall|k: int|
                    0 <= k < i ==> match #[trigger] v@[k] {
                        Some(q) => q@ == paths@[k]@ && kept_path(paths@, k),
                        None => !kept_path(paths@, k),
                    },
            decreases paths.len() - i,
        {
            let mut later = i + 1;
            let mut dropped = false;
            while later < paths.len()
                invariant
                    i < later <= paths.len(),
                    !dropped ==> forall|j: int|
                        i < j < later ==> !same_path(#[trigger] paths@[j]@, paths@[i as int]@),
                    dropped ==> !kept_path(paths@, i as int),
                decreases paths.len() - later,
            {
                if !dropped && crate::paths::paths_equal(paths[later].as_str(), paths[i].as_str()) {
                    dropped = true;
                }
                later = later + 1;
            }
            if dropped {
                v.push(None);
            } else {
                let c = paths[i].clone();
                v.push(Some(c));
            }
            i = i + 1;
        }
        BrushVfs::Manual(v)
    }

    /// A directory on disk and the paths below it, relative to it.
    pub fn from_directory(dir: String, paths: Vec<String>) -> (r: BrushVfs)
        ensures
            r matches BrushVfs::Directory(d, p) && d@ == dir@ && texts(p@) == texts(paths@),
    {
        BrushVfs::Directory(dir, paths)
    }

    /// The paths listed, in order, without those under `__MACOSX`.
    pub fn file_names(&self) -> (names: Vec<String>)
        ensures
            texts(names@) == listed_paths(*self),
    {
        let all: Vec<String> = match self {
            BrushVfs::Zip(_, names) => clone_all(names),
            BrushVfs::Manual(paths) => waiting(paths),
            BrushVfs::Directory(_, paths) => clone_all(paths),
        };
        let mut out: Vec<String> = Vec::new();
        let mut i: usize = 0;
        while i < all.len()
            invariant
                i <= all.len(),
                texts(all@) == all_paths(*self),
                texts(out@) == texts(all@.take(i as int)).filter(|p: Seq<char>| !under_macosx(p)),
            decreases all.len() - i,
        {
            proof {
                reveal(Seq::filter);
                let before = texts(all@.take(i as int));
                assert(texts(all@.take(i as int + 1)) =~= before.push(all@[i as int]@));
                assert(before.push(all@[i as int]@).drop_last() =~= before);
            }
            if !is_macosx_path(all[i].as_str()) {
                out.push(all[i].clone());
                proof {
                    assert(texts(out@) =~= texts(out@.drop_last()).push(all@[i as int]@));
                }
            }
            i = i + 1;
        }
        assert(all@.take(i as int) =~= all@);
        out
    }

    /// Opens the file at `path`: an archive entry whose name is the same
    /// path is read (the first such); a handed-over reader of the same path
    /// is taken out (the first such); in a directory, the path is joined
    /// onto it.
    pub fn open_path(&mut self, path: &str) -> (r: Result<OpenedFile, VfsError>)
        ensures
            match *old(self) {
                BrushVfs::Zip(d, names) => {
                    &&& *final(self) == *old(self)
                    &&& match r {
                        Ok(OpenedFile::Bytes(b)) => exists|i: int|
                            0 <= i < names.len() && same_path(path@, #[trigger] names@[i]@)
                                && (forall|j: int| 0 <= j < i ==> !same_path(path@, #[trigger] names@[j]@))
                                && zip_entry_of(d.bytes(), names@[i]@) == Some(b@),
                        Err(VfsError::FileNotFound) => forall|j: int|
                            0 <= j < names.len() ==> !same_path(path@, #[trigger] names@[j]@),
                        Err(VfsError::ReadFailed) => exists|i: int|
                            0 <= i < names.len() && same_path(path@, #[trigger] names@[i]@)
                                && (forall|j: int| 0 <= j < i ==> !same_path(path@, #[trigger] names@[j]@))
                                && zip_entry_of(d.bytes(), names@[i]@) is None,
                        _ => false,
                    }
                },
                BrushVfs::Manual(paths) => match r {
                    Ok(OpenedFile::Handed(i)) => {
                        &&& i < paths.len()
                        &&& waits_at(paths@, i as int, path@)
                        &&& forall|j: int| 0 <= j < i ==> !#[trigger] waits_at(paths@, j, path@)
                        &&& *final(self) matches BrushVfs::Manual(now) && now@ == paths@.update(i as int, None)
                    },
                    Err(VfsError::FileNotFound) => {
                        &&& forall|j: int| 0 <= j < paths.len() ==> !#[trigger] waits_at(paths@, j, path@)
                        &&& *final(self) == *old(self)
                    },
                    _ => false,
                },
                BrushVfs::Directory(dir, _) => {
                    &&& *final(self) == *old(self)
                    &&& r matches Ok(OpenedFile::OnDisk(p)) && p@ == crate::paths::joined(dir@, path@)
                },
            },
    {
        let found = match &*self {
            BrushVfs::Manual(paths) => Some(find_waiting(paths, path)),
            _ => None,
        };
        match found {
            Some(Some(i)) => {
                match self {
                    BrushVfs::Manual(paths) => {
                        paths.set(i, None);
                    },
                    _ => {},
                }
                return Ok(OpenedFile::Handed(i));
            },
            Some(None) => {
                return Err(VfsError::FileNotFound);
            },
            None => {},
        }
        match self {
            BrushVfs::Zip(d, names) => {
                match find_entry(names, path) {
                    Some(i) => match zip_entry(d.as_ref(), names[i].as_str()) {
                        Some(b) => Ok(OpenedFile::Bytes(b)),
                        None => Err(VfsError::ReadFailed),
                    },
                    None => Err(VfsError::FileNotFound),
                }
            },
            BrushVfs::Manual(_) => Err(VfsError::FileNotFound),
            BrushVfs::Directory(dir, _) => Ok(OpenedFile::OnDisk(crate::paths::join(dir.as_str(), path))),
        }
    }
}

fn find_waiting(paths: &Vec<Option<String>>, path: &str) -> (r: Option<usize>)
    ensures
        match r {
            Some(i) => i < paths.len() && waits_at(paths@, i as int, path@) && forall|j: int|
                0 <= j < i ==> !#[trigger] waits_at(paths@, j, path@),
            None => forall|j: int| 0 <= j < paths.len() ==> !#[trigger] waits_at(paths@, j, path@),
        },
{
    let mut i: usize = 0;
    while i < paths.len()
        invariant
            i <= paths.len(),
            forall|j: int| 0 <= j < i ==> !#[trigger] waits_at(paths@, j, path@),
        decreases paths.len() - i,
    {
        let hit = match &paths[i] {
            Some(q) => crate::paths::paths_equal(q.as_str(), path),
            None => false,
        };
        if hit {
            return Some(i);
        }
        i = i + 1;
    }
    None
}

fn clone_all(v: &Vec<String>) -> (r: Vec<String>)
    ensures
        texts(r@) == texts(v@),
{
    let mut r: Vec<String> = Vec::new();
    let mut i: usize = 0;
    while i < v.len()
        invariant
            i <= v.len(),
            texts(r@) == texts(v@.take(i as int)),
        decreases v.len() - i,
    {
        let ghost before = r@;
        proof {
            assert(texts(v@.take(i as int + 1)) =~= texts(v@.take(i as int)).push(v@[i as int]@));
        }
        let c = v[i].clone();
        r.push(c);
        proof {
            assert(texts(r@) =~= texts(before).push(c@));
        }
        i = i + 1;
    }
    assert(v@.take(i as int) =~= v@);
    r
}

fn waiting(v: &Vec<Option<String>>) -> (r: Vec<String>)
    ensures
        texts(r@) == waiting_paths(v@),
{
    let mut r: Vec<String> = Vec::new();
    let mut i: usize = 0;
    while i < v.len()
        invariant
            i <= v.len(),
            texts(r@) == waiting_paths(v@.take(i as int)),
        decreases v.len() - i,
    {
        proof {
            assert(v@.take(i as int + 1).drop_last() =~= v@.take(i as int));
        }
        match &v[i] {
            Some(p) => {
                r.push(p.clone());
                assert(texts(r@) =~= texts(r@.drop_last()).push(p@));
            },
            None => {},
        }
        i = i + 1;
    }
    assert(v@.take(i as int) =~= v@);
    r
}

/// For each entry of the archive in these bytes, by index: its name and the
/// path `zip` considers safe to extract it to (`None` when it considers none
/// safe), or `None` when the entry cannot be opened; `None` overall when
/// the bytes hold no readable archive.
pub uninterp spec fn zip_entry_paths_of(data: Seq<u8>) -> Option<
    Seq<Option<(Seq<char>, Option<Seq<char>>)>>,
>;

/// The plain values of an entry's name and safe path.
pub open spec fn entry_path_text(e: Option<(String, Option<String>)>) -> Option<
    (Seq<char>, Option<Seq<char>>),
> {
    match e {
        Some((n, p)) => Some(
            (
                n@,
                match p {
                    Some(q) => Some(q@),
                    None => None,
                },
            ),
        ),
        None => None,
    }
}

#[verifier::external_type_specification]
#[verifier::external_body]
#[verifier::reject_recursive_types(T)]
pub struct ExCursor<T>(std::io::Cursor<T>);

#[verifier::external_type_specification]
#[verifier::external_body]
#[verifier::reject_recursive_types(R)]
pub struct ExZipArchive<R>(zip::ZipArchive<R>);

/// The entries of an open archive, by index, as `zip_entry_paths_of` lists
/// them.
pub uninterp spec fn archive_entries(a: zip::ZipArchive<std::io::Cursor<Vec<u8>>>) -> Seq<
    Option<(Seq<char>, Option<Seq<char>>)>,
>;

/// Calls `zip::ZipArchive::new` on a copy of the bytes: the archive it
/// opens holds the entries listed for these bytes, and `None` when it
/// cannot read them.
#[verifier::external_body]
fn open_archive(data: &[u8]) -> (r: Option<zip::ZipArchive<std::io::Cursor<Vec<u8>>>>)
    ensures
        r matches Some(a) ==> zip_entry_paths_of(data@) == Some(archive_entries(a)),
        r is None ==> zip_entry_paths_of(data@) is None,
{
    zip::ZipArchive::new(std::io::Cursor::new(data.to_vec())).ok()
}

/// Calls `zip::ZipArchive::len`: the number of entries.
#[verifier::external_body]
fn archive_len(a: &zip::ZipArchive<std::io::Cursor<Vec<u8>>>) -> (n: usize)
    ensures
        n == archive_entries(*a).len(),
{
    a.len()
}

/// Calls `zip::ZipArchive::by_index` and takes the entry's `name` and
/// `enclosed_name` (`None` when the entry cannot be opened). Opening an
/// entry leaves the entries of the archive as they were.
#[verifier::external_body]
fn entry_path_at(a: &mut zip::ZipArchive<std::io::Cursor<Vec<u8>>>, i: usize) -> (r: Option<
    (String, Option<String>),
>)
    requires
        i < archive_entries(*old(a)).len(),
    ensures
        archive_entries(*final(a)) == archive_entries(*old(a)),
        entry_path_text(r) == archive_entries(*old(a))[i as int],
{
    let f = a.by_index(i).ok()?;
    Some((f.name().to_string(), f.enclosed_name().map(|p| p.to_string_lossy().into_owned())))
}

/// One step of extracting an archive.
#[derive(Debug, Clone)]
pub enum ExtractStep {
    /// Create this directory (and its parents).
    CreateDir(String),
    /// Write the entry with this index to this path (creating its parent).
    WriteFile(usize, String),
}

/// A step as plain values: a directory, or an entry index and a path.
pub type StepView = (bool, int, Seq<char>);

/// The plain values of a step.
pub open spec fn step_view(s: ExtractStep) -> StepView {
    match s {
        ExtractStep::CreateDir(p) => (true, 0, p@),
        ExtractStep::WriteFile(i, p) => (false, i as int, p@),
    }
}

/// The steps for the first `n` entries, extracting into `dest`: entries
/// without a safe path are skipped; names ending in `/` are directories.
pub open spec fn extract_steps(
    entries: Seq<Option<(Seq<char>, Option<Seq<char>>)>>,
    dest: Seq<char>,
    n: int,
) -> Seq<StepView>
    decreases n,
{
    if n <= 0 {
        seq![]
    } else {
        let before = extract_steps(entries, dest, n - 1);
        match entries[n - 1] {
            Some((name, Some(p))) => before.push(
                (
                    name.len() > 0 && name.last() == '/',
                    if name.len() > 0 && name.last() == '/' {
                        0
                    } else {
                        n - 1
                    },
                    joined(dest, p),
                ),
            ),
            _ => before,
        }
    }
}

/// The first entry that cannot be opened, or the number of entries.
pub open spec fn first_unreadable(entries: Seq<Option<(Seq<char>, Option<Seq<char>>)>>, n: int) -> int
    decreases n,
{
    if n <= 0 {
        entries.len() as int
    } else if entries[entries.len() - n] is None {
        entries.len() - n
    } else {
        first_unreadable(entries, n - 1)
    }
}

/// How to extract an archive: the steps in order, and whether every entry
/// could be opened (extraction stops at the first one that cannot, after
/// the steps before it).
pub struct ExtractPlan {
    /// The steps, in order.
    pub steps: Vec<ExtractStep>,
    /// Whether every entry could be opened.
    pub complete: bool,
}

/// Plans extracting the archive in `data` into `dest`.
pub fn extraction_plan(data: &ZipData, dest: &str) -> (r: Result<ExtractPlan, VfsError>)
    ensures
        match (r, zip_entry_paths_of(data.bytes())) {
            (Ok(plan), Some(entries)) => {
                let stop = first_unreadable(entries, entries.len() as int);
                &&& plan.steps@.map_values(|s: ExtractStep| step_view(s)) == extract_steps(
                    entries,
                    dest@,
                    stop,
                )
                &&& plan.complete == (stop == entries.len())
            },
            (Err(e), None) => e == VfsError::InvalidArchive,
            _ => false,
        },
{
    let mut archive = match open_archive(data.as_ref()) {
        Some(a) => a,
        None => return Err(VfsError::InvalidArchive),
    };
    let ghost ev = archive_entries(archive);
    let count = archive_len(&archive);
    let mut steps: Vec<ExtractStep> = Vec::new();
    let mut i: usize = 0;
    while i < count
        invariant
            i <= count,
            count == ev.len(),
            archive_entries(archive) == ev,
            zip_entry_paths_of(data.bytes()) == Some(ev),
            steps@.map_values(|s: ExtractStep| step_view(s)) == extract_steps(ev, dest@, i as int),
            first_unreadable(ev, ev.len() as int) == first_unreadable(ev, (ev.len() - i) as int),
            forall|j: int| 0 <= j < i ==> #[trigger] ev[j] is Some,
        decreases count - i,
    {
        let entry = entry_path_at(&mut archive, i);
        let ghost before = steps@.map_values(|s: ExtractStep| step_view(s));
        match entry {
            None => {
                proof {
                    assert(ev[i as int] is None);
                    lemma_first_unreadable_here(ev, i as int);
                }
                return Ok(ExtractPlan { steps, complete: false });
            },
            Some((name, enclosed)) => {
                match enclosed {
                    Some(p) => {
                        let n = chars_of(name.as_str());
                        let is_dir = n.len() > 0 && n[n.len() - 1] == '/';
                        let target = join(dest, p.as_str());
                        if is_dir {
                            steps.push(ExtractStep::CreateDir(target));
                        } else {
                            steps.push(ExtractStep::WriteFile(i, target));
                        }
                        proof {
                            assert(ev[i as int] == Some((name@, Some(p@))));
                            assert(steps@.map_values(|s: ExtractStep| step_view(s)) =~= before.push(
                                step_view(steps@.last()),
                            ));
                        }
                    },
                    None => {
                        proof {
                            assert(ev[i as int] == Some((name@, None::<Seq<char>>)));
                        }
                    },
                }
                proof {
                    assert(ev[i as int] is Some);
                    lemma_first_unreadable_step(ev, (ev.len() - i) as int);
                }
            },
        }
        i = i + 1;
    }
    proof {
        lemma_first_unreadable_none(ev);
    }
    Ok(ExtractPlan { steps, complete: true })
}

proof fn lemma_first_unreadable_step(entries: Seq<Option<(Seq<char>, Option<Seq<char>>)>>, n: int)
    requires
        0 < n <= entries.len(),
        entries[entries.len() - n] is Some,
    ensures
        first_unreadable(entries, n) == first_unreadable(entries, n - 1),
{
}

proof fn lemma_first_unreadable_here(entries: Seq<Option<(Seq<char>, Option<Seq<char>>)>>, i: int)
    requires
        0 <= i < entries.len(),
        entries[i] is None,
    ensures
        first_unreadable(entries, entries.len() - i) == i,
{
}

proof fn lemma_first_unreadable_none(entries: Seq<Option<(Seq<char>, Option<Seq<char>>)>>)
    ensures
        first_unreadable(entries, 0) == entries.len(),
{
}

/// No listed path lies under `__MACOSX`, and every listed path is one of the
/// file system's paths.
pub proof fn lemma_listing_hides_macosx(v: BrushVfs)
    ensures
        forall|k: int| 0 <= k < listed_paths(v).len() ==> !under_macosx(#[trigger] listed_paths(v)[k]),
        forall|q: Seq<char>| #[trigger] listed_paths(v).contains(q) ==> all_paths(v).contains(q),
{
    let f = |p: Seq<char>| !under_macosx(p);
    let listed = all_paths(v).filter(f);
    assert forall|k: int| 0 <= k < listed.len() implies !under_macosx(#[trigger] listed[k]) by {
        all_paths(v).lemma_filter_pred(f, k);
    }
    assert forall|q: Seq<char>| #[trigger] listed.contains(q) implies all_paths(v).contains(q) by {
        all_paths(v).lemma_filter_contains_rev(f, q);
    }
}

/// A handed-over reader is handed out once: when only one reader waits for
/// a path, after it is taken none waits for that path.
pub proof fn lemma_reader_taken_once(paths: Seq<Option<String>>, i: int, p: Seq<char>)
    requires
        0 <= i < paths.len(),
        waits_at(paths, i, p),
        forall|j: int| 0 <= j < paths.len() && j != i ==> !#[trigger] waits_at(paths, j, p),
    ensures
        forall|j: int| 0 <= j < paths.len() ==> !#[trigger] waits_at(paths.update(i, None), j, p),
{
    assert forall|j: int| 0 <= j < paths.len() implies !#[trigger] waits_at(paths.update(i, None), j, p) by {
        if j != i {
            assert(paths.update(i, None)[j] == paths[j]);
            assert(!waits_at(paths, j, p));
        } else {
            assert(paths.update(i, None)[j] is None);
        }
    }
}

/// The bytes of a zip archive held in memory.
#[derive(Debug, Clone)]
pub struct ZipData {
    data: Vec<u8>,
}

impl ZipData {
    /// The archive's bytes.
    pub closed spec fn bytes(&self) -> Seq<u8> {
        self.data@
    }

    /// Holds these bytes.
    pub fn new(data: Vec<u8>) -> (z: Self)
        ensures
            z.bytes() == data@,
    {
        ZipData { data }
    }

    /// The archive's bytes.
    pub fn as_ref(&self) -> (b: &[u8])
        ensures
            b@ == self.bytes(),
    {
        self.data.as_slice()
    }
}

} // verus!
