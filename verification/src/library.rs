//! Dataset library decisions: naming exports after the dataset, telling
//! dataset folders apart, describing how old a dataset is, and where the
//! datasets live by default.

use vstd::prelude::*;
use crate::paths::{file_name, file_name_of, file_stem, file_stem_of, join, joined, parent, parent_of};
use crate::size_format::{dec_chars, push_decimal};
use crate::text::{all_digits, chars_of, contains, contains_seq, lowercase, same_chars, string_from_chars, to_lowercase};

verus! {

/// The characters of an optional string.
pub open spec fn opt_chars(o: Option<&str>) -> Option<Seq<char>> {
    match o {
        Some(s) => Some(s@),
        None => None,
    }
}

/// The dataset name an export is named after: the current dataset's name,
/// else one derived from the path of the first training view (the name of
/// its grandparent directory, else of its parent directory, else its file
/// stem), else `dataset`.
pub open spec fn export_base_name(current: Option<Seq<char>>, first_view: Option<Seq<char>>) -> Seq<char> {
    match current {
        Some(n) => n,
        None => match first_view {
            None => "dataset"@,
            Some(p) => match parent_of(p) {
                Some(pp) => match parent_of(pp) {
                    Some(dd) => match file_name_of(dd) {
                        Some(n) => n,
                        None => match file_name_of(pp) {
                            Some(n) => n,
                            None => "dataset"@,
                        },
                    },
                    None => match file_name_of(pp) {
                        Some(n) => n,
                        None => "dataset"@,
                    },
                },
                None => match file_stem_of(p) {
                    Some(n) => n,
                    None => "dataset"@,
                },
            },
        },
    }
}

pub(crate) fn push_str(out: &mut Vec<char>, s: &str)
    ensures
        final(out)@ == old(out)@ + s@,
{
    let c = chars_of(s);
    let ghost head = out@;
    let mut i: usize = 0;
    while i < c.len()
        invariant
            i <= c.len(),
            c@ == s@,
            out@ == head + c@.take(i as int),
        decreases c.len() - i,
    {
        out.push(c[i]);
        i = i + 1;
        assert(out@ =~= head + c@.take(i as int));
    }
    assert(c@.take(c@.len() as int) =~= c@);
}

fn dataset_or(n: Option<String>) -> (r: String)
    ensures
        r@ == (match n {
            Some(s) => s@,
            None => "dataset"@,
        }),
{
    match n {
        Some(s) => s,
        None => string_from_chars(&chars_of("dataset")),
    }
}

/// The dataset name to put in an export's file name.
pub fn export_base(current: Option<&str>, first_view: Option<&str>) -> (r: String)
    ensures
        r@ == export_base_name(opt_chars(current), opt_chars(first_view)),
{
    match current {
        Some(n) => string_from_chars(&chars_of(n)),
        None => match first_view {
            None => string_from_chars(&chars_of("dataset")),
            Some(p) => match parent(p) {
                Some(pp) => match parent(pp.as_str()) {
                    Some(dd) => match file_name(dd.as_str()) {
                        Some(n) => n,
                        None => dataset_or(file_name(pp.as_str())),
                    },
                    None => dataset_or(file_name(pp.as_str())),
                },
                None => dataset_or(file_stem(p)),
            },
        },
    }
}

/// `<name>_<timestamp>.ply`
pub open spec fn export_name_with(name: Seq<char>, timestamp: Seq<char>) -> Seq<char> {
    name + "_"@ + timestamp + ".ply"@
}

/// An export file name: `<name>_<timestamp>.ply`.
pub fn export_file_name(name: &str, timestamp: &str) -> (r: String)
    ensures
        r@ == name@ + "_"@ + timestamp@ + ".ply"@,
{
    let mut out: Vec<char> = Vec::new();
    push_str(&mut out, name);
    push_str(&mut out, "_");
    push_str(&mut out, timestamp);
    push_str(&mut out, ".ply");
    assert(out@ =~= name@ + "_"@ + timestamp@ + ".ply"@);
    string_from_chars(&out)
}

/// The text of a `%Y%m%d_%H%M%S` timestamp: the year (four digits, or a
/// sign and at least four digits outside the years 0 to 9999), then month
/// and day as two digits each, `_`, and hour, minute and second as two
/// digits each.
pub open spec fn is_timestamp_text(ts: Seq<char>) -> bool {
    let n = ts.len() as int;
    let year = ts.take(n - 11);
    &&& n >= 15
    &&& all_digits(ts.subrange(n - 11, n - 7))
    &&& ts[n - 7] == '_'
    &&& all_digits(ts.subrange(n - 6, n))
    &&& ((year.len() == 4 && all_digits(year)) || (year.len() >= 5 && (year[0] == '+'
        || year[0] == '-') && all_digits(year.skip(1))))
}

/// Reads the local clock through `chrono::Local::now` and formats it as
/// `%Y%m%d_%H%M%S`: chrono writes the year as four digits (a sign and at
/// least four digits outside 0 to 9999) and each other field as two
/// zero-padded digits. Which time it reads depends on the clock and the
/// time zone and is not claimed.
#[verifier::external_body]
fn local_timestamp() -> (r: String)
    ensures
        is_timestamp_text(r@),
{
    chrono::Local::now().format("%Y%m%d_%H%M%S").to_string()
}

/// The default file name for exporting the current splats: the dataset
/// name, an underscore, the local time as `%Y%m%d_%H%M%S`, and `.ply`.
pub fn generate_export_filename(current: Option<&str>, first_view: Option<&str>) -> (r: String)
    ensures
        exists|ts: Seq<char>| is_timestamp_text(ts) && #[trigger] export_name_with(
            export_base_name(opt_chars(current), opt_chars(first_view)), ts) == r@,
{
    let base = export_base(current, first_view);
    let ts = local_timestamp();
    let r = export_file_name(base.as_str(), ts.as_str());
    let ghost b = export_base_name(opt_chars(current), opt_chars(first_view));
    assert(base@ == b);
    assert(export_name_with(b, ts@) == r@);
    r
}

/// How long ago something happened, given the seconds since then (`None`
/// when that time lies in the future).
pub open spec fn age_text(elapsed: Option<u64>) -> Seq<char> {
    match elapsed {
        None => "Unknown date"@,
        Some(s) => if s < 60 {
            "Just now"@
        } else if s < 3600 {
            dec_chars((s / 60) as nat) + " minutes ago"@
        } else if s < 86400 {
            dec_chars((s / 3600) as nat) + " hours ago"@
        } else {
            dec_chars((s / 86400) as nat) + " days ago"@
        },
    }
}

/// Describes how long ago something happened: `Just now`, `N minutes ago`,
/// `N hours ago`, `N days ago`, or `Unknown date`.
pub fn format_age(elapsed: Option<u64>) -> (r: String)
    ensures
        r@ == age_text(elapsed),
{
    match elapsed {
        None => string_from_chars(&chars_of("Unknown date")),
        Some(s) => {
            if s < 60 {
                return string_from_chars(&chars_of("Just now"));
            }
            let mut out: Vec<char> = Vec::new();
            if s < 3600 {
                push_decimal(&mut out, s / 60);
                push_str(&mut out, " minutes ago");
            } else if s < 86400 {
                push_decimal(&mut out, s / 3600);
                push_str(&mut out, " hours ago");
            } else {
                push_decimal(&mut out, s / 86400);
                push_str(&mut out, " days ago");
            }
            string_from_chars(&out)
        },
    }
}

/// One entry of a folder being checked for a dataset.
pub struct FolderEntry {
    /// The entry's file name (lossily converted to text).
    pub name: String,
    /// Whether it is a directory.
    pub is_dir: bool,
    /// Whether it is a regular file.
    pub is_file: bool,
    /// For a directory: whether it holds a directory named `images`.
    pub has_images_subdir: bool,
    /// The entry's extension (lossily converted to text), empty if none.
    pub extension: String,
}

/// The entry shows images: an `images` or `imgs` directory, a directory
/// holding an `images` directory, or a `.jpg`, `.png` or `.jpeg` file
/// (extension compared after lower-casing).
pub open spec fn shows_images(e: FolderEntry) -> bool {
    (e.is_dir && (e.name@ == "images"@ || e.name@ == "imgs"@ || e.has_images_subdir))
        || (e.is_file && (lowercase(e.extension@) == "jpg"@ || lowercase(e.extension@) == "png"@
            || lowercase(e.extension@) == "jpeg"@))
}

/// The entry shows reconstruction data: a `sparse` or `colmap` directory.
pub open spec fn shows_colmap(e: FolderEntry) -> bool {
    e.is_dir && (e.name@ == "sparse"@ || e.name@ == "colmap"@)
}

/// The entry shows camera metadata: a file whose name contains `cameras`,
/// `points3D`, `metadata`, `transforms` or `poses`, or is `scene.json`.
pub open spec fn shows_metadata(e: FolderEntry) -> bool {
    e.is_file && (contains_seq(e.name@, "cameras"@) || contains_seq(e.name@, "points3D"@)
        || contains_seq(e.name@, "metadata"@) || contains_seq(e.name@, "transforms"@)
        || contains_seq(e.name@, "poses"@) || e.name@ == "scene.json"@)
}

/// A readable folder holds a dataset when some entry shows images, camera
/// metadata or reconstruction data, or when it is a folder named `lego`
/// (after lower-casing) with a `transforms.json` entry.
pub open spec fn is_dataset_folder(folder_name: Seq<char>, entries: Seq<FolderEntry>) -> bool {
    (lowercase(folder_name) == "lego"@
        && exists|i: int| 0 <= i < entries.len() && (#[trigger] entries[i]).name@ == "transforms.json"@)
    || exists|i: int| 0 <= i < entries.len() && (shows_images(#[trigger] entries[i])
        || shows_metadata(entries[i]) || shows_colmap(entries[i]))
}

fn entry_signals(e: &FolderEntry) -> (r: bool)
    ensures
        r == (shows_images(*e) || shows_metadata(*e) || shows_colmap(*e)),
{
    let n = chars_of(e.name.as_str());
    let mut hit = false;
    if e.is_dir {
        if same_chars(&n, &chars_of("images")) || same_chars(&n, &chars_of("imgs"))
            || same_chars(&n, &chars_of("sparse")) || same_chars(&n, &chars_of("colmap"))
            || e.has_images_subdir {
            hit = true;
        }
    }
    if e.is_file {
        let ext = chars_of(to_lowercase(e.extension.as_str()).as_str());
        if same_chars(&ext, &chars_of("jpg")) || same_chars(&ext, &chars_of("png"))
            || same_chars(&ext, &chars_of("jpeg")) {
            hit = true;
        }
        if contains(&n, &chars_of("cameras")) || contains(&n, &chars_of("points3D"))
            || contains(&n, &chars_of("metadata")) || contains(&n, &chars_of("transforms"))
            || contains(&n, &chars_of("poses")) || same_chars(&n, &chars_of("scene.json")) {
            hit = true;
        }
    }
    hit
}

/// Whether a readable folder with these entries holds a dataset.
pub fn is_valid_dataset_folder(folder_name: &str, entries: &Vec<FolderEntry>) -> (r: bool)
    ensures
        r == is_dataset_folder(folder_name@, entries@),
{
    let is_lego = same_chars(&chars_of(to_lowercase(folder_name).as_str()), &chars_of("lego"));
    let tj = chars_of("transforms.json");
    let mut has_transforms = false;
    let mut signal = false;
    let mut i: usize = 0;
    while i < entries.len()
        invariant
            i <= entries@.len(),
            tj@ == "transforms.json"@,
            has_transforms == exists|j: int| 0 <= j < i && (#[trigger] entries@[j]).name@ == "transforms.json"@,
            signal == exists|j: int| 0 <= j < i && (shows_images(#[trigger] entries@[j])
                || shows_metadata(entries@[j]) || shows_colmap(entries@[j])),
        decreases entries.len() - i,
    {
        if same_chars(&chars_of(entries[i].name.as_str()), &tj) {
            has_transforms = true;
        }
        if entry_signals(&entries[i]) {
            signal = true;
        }
        i = i + 1;
    }
    (is_lego && has_transforms) || signal
}

/// Where datasets are kept by default: `Brush/Datasets` under the documents
/// folder, else under the home folder, else `Brush_Datasets` in the working
/// directory.
pub fn default_datasets_folder(documents: Option<&str>, home: Option<&str>) -> (r: String)
    ensures
        r@ == (match documents {
            Some(d) => joined(joined(d@, "Brush"@), "Datasets"@),
            None => match home {
                Some(h) => joined(joined(h@, "Brush"@), "Datasets"@),
                None => "Brush_Datasets"@,
            },
        }),
{
    match documents {
        Some(d) => join(join(d, "Brush").as_str(), "Datasets"),
        None => match home {
            Some(h) => join(join(h, "Brush").as_str(), "Datasets"),
            None => string_from_chars(&chars_of("Brush_Datasets")),
        },
    }
}

} // verus!
