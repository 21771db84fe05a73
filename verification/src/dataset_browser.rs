//! The dataset browser's state: which folder holds the datasets, which file
//! dialogs are wanted or under way, what waits to be imported, where an
//! imported dataset goes, and how the list takes a new dataset in.
//!
//! Dialogs, copying and extracting are left to the caller.

use vstd::prelude::*;
use crate::dataset_list::{
    keyed, newest_first, newest_first_order, reorder, stem_or_empty, DatasetEntry, EntryView,
};
use crate::paths::{extension, extension_of, file_name, file_name_of, file_stem, join, joined, paths_equal, same_path};
use crate::text::{chars_of, same_chars};

verus! {

/// The flags and paths of the dataset browser.
#[derive(Debug, Clone)]
pub struct DatasetBrowser {
    /// The folder datasets are kept in.
    pub datasets_folder: Option<String>,
    /// A dialog to pick the datasets folder is wanted.
    pub show_folder_dialog: bool,
    /// That dialog is open.
    pub folder_selection_in_progress: bool,
    /// A dialog to pick a dataset file is wanted.
    pub show_file_dialog: bool,
    /// That dialog is open.
    pub file_selection_in_progress: bool,
    /// Picked dataset folders are copied into the datasets folder.
    pub copy_datasets_to_local: bool,
    /// A dialog to pick a dataset folder is wanted.
    pub show_dataset_folder_dialog: bool,
    /// That dialog is open.
    pub dataset_folder_selection_in_progress: bool,
    /// The browser window is shown.
    pub open: bool,
    /// A picked file or folder waiting to be imported.
    pub pending_file_import: Option<String>,
}

/// What to do with a dataset folder the user picked.
#[derive(Debug, Clone)]
pub enum FolderImport {
    /// Copy it into the datasets folder, as this path (or use what is
    /// already there).
    CopyTo(String),
    /// There is no datasets folder yet: the picked folder waits while one is
    /// picked.
    AwaitDatasetsFolder,
    /// Use it where it is: it is listed and processed from its place.
    InPlace,
}

/// The name of the last component of `p`, or empty.
pub open spec fn name_or_empty(p: Seq<char>) -> Seq<char> {
    match file_name_of(p) {
        Some(n) => n,
        None => seq![],
    }
}

fn name_of(p: &str) -> (r: String)
    ensures
        r@ == name_or_empty(p@),
{
    match file_name(p) {
        Some(n) => n,
        None => String::new(),
    }
}

fn stem_of(p: &str) -> (r: String)
    ensures
        r@ == stem_or_empty(p@),
{
    match file_stem(p) {
        Some(n) => n,
        None => String::new(),
    }
}

impl DatasetBrowser {
    /// Shown, keeping datasets in `datasets_folder`, copying picked folders
    /// there, no dialog wanted and nothing pending.
    pub fn new(datasets_folder: String) -> (b: Self)
        ensures
            b.datasets_folder matches Some(f) && f@ == datasets_folder@,
            !b.show_folder_dialog && !b.folder_selection_in_progress,
            !b.show_file_dialog && !b.file_selection_in_progress,
            b.copy_datasets_to_local,
            !b.show_dataset_folder_dialog && !b.dataset_folder_selection_in_progress,
            b.open,
            b.pending_file_import is None,
    {
        DatasetBrowser {
            datasets_folder: Some(datasets_folder),
            show_folder_dialog: false,
            folder_selection_in_progress: false,
            show_file_dialog: false,
            file_selection_in_progress: false,
            copy_datasets_to_local: true,
            show_dataset_folder_dialog: false,
            dataset_folder_selection_in_progress: false,
            open: true,
            pending_file_import: None,
        }
    }

    /// Keeps datasets in `folder` from now on; its dialog is over.
    pub fn set_selected_folder(&mut self, folder: String)
        ensures
            final(self).datasets_folder matches Some(f) && f@ == folder@,
            !final(self).folder_selection_in_progress,
            final(self).show_folder_dialog == old(self).show_folder_dialog,
            final(self).pending_file_import == old(self).pending_file_import,
            final(self).open == old(self).open,
    {
        self.datasets_folder = Some(folder);
        self.folder_selection_in_progress = false;
    }

    /// Whether a datasets-folder dialog should be opened now.
    pub fn wants_to_select_folder(&self) -> (r: bool)
        ensures
            r == (self.show_folder_dialog && !self.folder_selection_in_progress),
    {
        self.show_folder_dialog && !self.folder_selection_in_progress
    }

    /// The datasets-folder dialog opened.
    pub fn folder_selection_started(&mut self)
        ensures
            *final(self) == (DatasetBrowser { folder_selection_in_progress: true, ..*old(self) }),
    {
        self.folder_selection_in_progress = true;
    }

    /// The datasets-folder dialog was dismissed.
    pub fn cancel_folder_selection(&mut self)
        ensures
            *final(self) == (DatasetBrowser {
                show_folder_dialog: false,
                folder_selection_in_progress: false,
                ..*old(self)
            }),
    {
        self.show_folder_dialog = false;
        self.folder_selection_in_progress = false;
    }

    /// Asks for a datasets-folder dialog.
    pub fn select_folder(&mut self)
        ensures
            *final(self) == (DatasetBrowser { show_folder_dialog: true, ..*old(self) }),
    {
        self.show_folder_dialog = true;
    }

    /// Asks for a dataset-file dialog.
    pub fn add_dataset_file(&mut self)
        ensures
            *final(self) == (DatasetBrowser { show_file_dialog: true, ..*old(self) }),
    {
        self.show_file_dialog = true;
    }

    /// The dataset-file dialog opened.
    pub fn file_selection_started(&mut self)
        ensures
            *final(self) == (DatasetBrowser { file_selection_in_progress: true, ..*old(self) }),
    {
        self.file_selection_in_progress = true;
    }

    /// The dataset-file dialog was dismissed.
    pub fn cancel_file_selection(&mut self)
        ensures
            *final(self) == (DatasetBrowser {
                show_file_dialog: false,
                file_selection_in_progress: false,
                ..*old(self)
            }),
    {
        self.show_file_dialog = false;
        self.file_selection_in_progress = false;
    }

    /// Whether a dataset-file dialog should be opened now.
    pub fn wants_to_select_file(&self) -> (r: bool)
        ensures
            r == (self.show_file_dialog && !self.file_selection_in_progress),
    {
        self.show_file_dialog && !self.file_selection_in_progress
    }

    /// A dataset file was picked: it waits to be imported.
    pub fn set_selected_file(&mut self, file_path: String)
        ensures
            *final(self) == (DatasetBrowser {
                file_selection_in_progress: false,
                pending_file_import: Some(file_path),
                ..*old(self)
            }),
    {
        self.file_selection_in_progress = false;
        self.pending_file_import = Some(file_path);
    }

    /// Whether a dataset-folder dialog should be opened now.
    pub fn wants_to_select_dataset_folder(&self) -> (r: bool)
        ensures
            r == self.show_dataset_folder_dialog,
    {
        self.show_dataset_folder_dialog
    }

    /// The dataset-folder dialog opened.
    pub fn dataset_folder_selection_started(&mut self)
        ensures
            *final(self) == (DatasetBrowser {
                dataset_folder_selection_in_progress: true,
                show_dataset_folder_dialog: false,
                ..*old(self)
            }),
    {
        self.dataset_folder_selection_in_progress = true;
        self.show_dataset_folder_dialog = false;
    }

    /// The dataset-folder dialog was dismissed.
    pub fn cancel_dataset_folder_selection(&mut self)
        ensures
            *final(self) == (DatasetBrowser {
                dataset_folder_selection_in_progress: false,
                ..*old(self)
            }),
    {
        self.dataset_folder_selection_in_progress = false;
    }

    /// Asks for a dataset-folder dialog.
    pub fn select_dataset_folder(&mut self)
        ensures
            *final(self) == (DatasetBrowser { show_dataset_folder_dialog: true, ..*old(self) }),
    {
        self.show_dataset_folder_dialog = true;
    }

    /// Whether the browser window is shown.
    pub fn is_open(&self) -> (r: bool)
        ensures
            r == self.open,
    {
        self.open
    }

    /// Shows or hides the browser window.
    pub fn set_open(&mut self, open: bool)
        ensures
            *final(self) == (DatasetBrowser { open, ..*old(self) }),
    {
        self.open = open;
    }

    /// Takes the import waiting to be processed, if any.
    pub fn take_pending_import(&mut self) -> (p: Option<String>)
        ensures
            p == old(self).pending_file_import,
            *final(self) == (DatasetBrowser { pending_file_import: None, ..*old(self) }),
    {
        let p = self.pending_file_import.take();
        p
    }

    /// A dataset folder was picked. With copying on, it is copied into the
    /// datasets folder under its own name, or, without a datasets folder,
    /// waits while one is picked (a datasets-folder dialog is asked for).
    /// With copying off it is used in place: it waits to be processed and
    /// the window is shown.
    pub fn set_selected_dataset_folder(&mut self, folder_path: String) -> (r: FolderImport)
        ensures
            !final(self).dataset_folder_selection_in_progress,
            match r {
                FolderImport::CopyTo(dest) => {
                    &&& old(self).copy_datasets_to_local
                    &&& old(self).datasets_folder matches Some(f) && dest@ == joined(
                        f@,
                        name_or_empty(folder_path@),
                    )
                    &&& final(self).pending_file_import == old(self).pending_file_import
                    &&& final(self).show_folder_dialog == old(self).show_folder_dialog
                    &&& final(self).open == old(self).open
                },
                FolderImport::AwaitDatasetsFolder => old(self).copy_datasets_to_local
                    && old(self).datasets_folder is None
                    && final(self).pending_file_import == Some(folder_path)
                    && final(self).show_folder_dialog
                    && final(self).open == old(self).open,
                FolderImport::InPlace => !old(self).copy_datasets_to_local
                    && final(self).pending_file_import == Some(folder_path)
                    && final(self).open
                    && final(self).show_folder_dialog == old(self).show_folder_dialog,
            },
            final(self).datasets_folder == old(self).datasets_folder,
            final(self).copy_datasets_to_local == old(self).copy_datasets_to_local,
    {
        self.dataset_folder_selection_in_progress = false;
        if self.copy_datasets_to_local {
            match &self.datasets_folder {
                Some(f) => {
                    let name = name_of(folder_path.as_str());
                    FolderImport::CopyTo(join(f.as_str(), name.as_str()))
                },
                None => {
                    self.pending_file_import = Some(folder_path);
                    self.show_folder_dialog = true;
                    FolderImport::AwaitDatasetsFolder
                },
            }
        } else {
            self.pending_file_import = Some(folder_path);
            self.open = true;
            FolderImport::InPlace
        }
    }
}

/// Where a picked dataset file goes in the datasets folder: a zip archive is
/// extracted into a folder named after its stem; anything else is copied
/// under its own name.
#[derive(Debug, Clone)]
pub enum FileImport {
    /// Extract the archive into this folder (or use it if it exists).
    ExtractTo(String),
    /// Copy the file to this path.
    CopyTo(String),
}

/// `p` names a `.zip` file.
pub open spec fn is_zip_path(p: Seq<char>) -> bool {
    extension_of(p) == Some("zip"@)
}

/// Where the picked file `file_path` goes in `dataset_folder`.
pub fn file_import_target(file_path: &str, dataset_folder: &str) -> (r: FileImport)
    ensures
        match r {
            FileImport::ExtractTo(d) => is_zip_path(file_path@)
                && d@ == joined(dataset_folder@, stem_or_empty(file_path@)),
            FileImport::CopyTo(d) => !is_zip_path(file_path@)
                && d@ == joined(dataset_folder@, name_or_empty(file_path@)),
        },
{
    let is_zip = match extension(file_path) {
        Some(e) => same_chars(&chars_of(e.as_str()), &chars_of("zip")),
        None => false,
    };
    if is_zip {
        let stem = stem_of(file_path);
        FileImport::ExtractTo(join(dataset_folder, stem.as_str()))
    } else {
        let name = name_of(file_path);
        FileImport::CopyTo(join(dataset_folder, name.as_str()))
    }
}

/// Where a copied archive lands: the datasets folder joined with the
/// archive's file name; `None` when that is the archive's own path (it is
/// in the folder already).
pub fn copy_destination(file_path: &str, dataset_folder: &str) -> (r: Option<String>)
    ensures
        match r {
            Some(d) => d@ == joined(dataset_folder@, name_or_empty(file_path@)) && !same_path(
                file_path@,
                d@,
            ),
            None => same_path(file_path@, joined(dataset_folder@, name_or_empty(file_path@))),
        },
{
    let name = name_of(file_path);
    let dest = join(dataset_folder, name.as_str());
    if paths_equal(file_path, dest.as_str()) {
        None
    } else {
        Some(dest)
    }
}

/// How a listed dataset is opened for training.
#[derive(Debug, Clone)]
pub enum DatasetOpen {
    /// Read it from where it is.
    Direct,
    /// Extract the archive into this folder first, then read the folder.
    ExtractThenOpen(String),
    /// Read this folder, where the archive was extracted before.
    OpenExtracted(String),
}

/// The folder an archive is extracted to, when it is an archive and there is
/// a datasets folder.
pub fn extraction_folder(dataset_path: &str, is_file: bool, datasets_folder: Option<&str>) -> (r:
    Option<String>)
    ensures
        match r {
            Some(d) => {
                &&& is_file && is_zip_path(dataset_path@)
                &&& datasets_folder matches Some(f) && d@ == joined(f@, stem_or_empty(dataset_path@))
            },
            None => !(is_file && is_zip_path(dataset_path@)) || datasets_folder is None,
        },
{
    let is_zip = is_file && match extension(dataset_path) {
        Some(e) => same_chars(&chars_of(e.as_str()), &chars_of("zip")),
        None => false,
    };
    if !is_zip {
        return None;
    }
    match datasets_folder {
        Some(f) => {
            let stem = stem_of(dataset_path);
            Some(join(f, stem.as_str()))
        },
        None => None,
    }
}

/// How to open a listed dataset, given its extraction folder (if any) and
/// whether that folder already exists with something in it.
pub fn open_plan(extraction: Option<String>, extracted_has_content: bool) -> (r: DatasetOpen)
    ensures
        match r {
            DatasetOpen::Direct => extraction is None,
            DatasetOpen::ExtractThenOpen(d) => extraction == Some(d) && !extracted_has_content,
            DatasetOpen::OpenExtracted(d) => extraction == Some(d) && extracted_has_content,
        },
{
    match extraction {
        None => DatasetOpen::Direct,
        Some(d) => if extracted_has_content {
            DatasetOpen::OpenExtracted(d)
        } else {
            DatasetOpen::ExtractThenOpen(d)
        },
    }
}

/// Some entry of `list` is stored at the same path as `p`.
pub open spec fn listed_at(list: Seq<EntryView>, p: Seq<char>) -> bool {
    exists|j: int| 0 <= j < list.len() && same_path((#[trigger] list[j]).1, p)
}

/// Adds `entry` to the list unless an entry is stored at the same path, and
/// orders the list newest first again (keeping the order among equal
/// times).
pub fn add_if_absent(list: Vec<DatasetEntry>, entry: DatasetEntry) -> (r: Vec<DatasetEntry>)
    ensures
        r@.map_values(|e: DatasetEntry| e@) == if listed_at(
            list@.map_values(|e: DatasetEntry| e@),
            entry@.1,
        ) {
            list@.map_values(|e: DatasetEntry| e@)
        } else {
            newest_first(list@.map_values(|e: DatasetEntry| e@).push(entry@))
        },
{
    let ghost lv = list@.map_values(|e: DatasetEntry| e@);
    let mut j: usize = 0;
    while j < list.len()
        invariant
            j <= list.len(),
            lv == list@.map_values(|e: DatasetEntry| e@),
            forall|k: int| 0 <= k < j ==> !same_path((#[trigger] lv[k]).1, entry@.1),
        decreases list.len() - j,
    {
        assert(lv[j as int].1 == list@[j as int].path@);
        if paths_equal(list[j].path.as_str(), entry.path.as_str()) {
            return list;
        }
        j = j + 1;
    }
    let mut all = list;
    all.push(entry);
    let ghost collected = all@.map_values(|e: DatasetEntry| e@);
    assert(collected =~= lv.push(entry@));
    let mut keys: Vec<i128> = Vec::new();
    let mut q: usize = 0;
    while q < all.len()
        invariant
            q <= all.len(),
            collected == all@.map_values(|e: DatasetEntry| e@),
            keys@.len() == q,
            forall|k: int| 0 <= k < q ==> #[trigger] keys@[k] == collected[k].3,
        decreases all.len() - q,
    {
        keys.push(all[q].modified);
        q = q + 1;
    }
    let order = newest_first_order(&keys);
    proof {
        assert(Seq::new(keys@.len(), |k: int| (k, keys@[k] as int)) =~= keyed(
            collected,
        ));
    }
    reorder(&all, &order, &keys)
}

} // verus!
