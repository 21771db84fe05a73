//! The list of stored datasets shown to the user: the `lego` sample first
//! considered, then dataset folders, then zip archives that have no folder
//! of the same name, newest first.
//!
//! Reading the folder and measuring sizes and times is left to the caller,
//! which hands over what it found for each entry.

use vstd::prelude::*;
use vstd::string::StringExecFns;
use crate::export::{indices_increase, lemma_insert_at, lemma_sort_by_step, sort_by_step, step_before};
use crate::paths::{
    extension, extension_of, file_name, file_name_of, file_stem, file_stem_of, join, joined,
};
use crate::text::{chars_of, same_chars};

verus! {

/// What the caller could read of an entry: its size (a folder's total, 0
/// when it could not be measured; a file's length) and when it was last
/// modified, in nanoseconds from the Unix epoch (negative before it; the
/// epoch itself when the time could not be read).
#[derive(Debug, Clone, Copy, PartialEq, Eq, Structural)]
pub struct EntryMeta {
    /// Size in bytes.
    pub size: u64,
    /// Last modification, in nanoseconds from the Unix epoch.
    pub modified: i128,
}

/// An entry of the datasets folder, as the caller found it.
#[derive(Debug, Clone)]
pub struct DatasetCandidate {
    /// The entry's path.
    pub path: String,
    /// Whether it is a directory.
    pub is_dir: bool,
    /// Whether it is a regular file.
    pub is_file: bool,
    /// For a directory: whether it holds a dataset.
    pub is_dataset: bool,
    /// Its size and time, or `None` when its metadata could not be read.
    pub metadata: Option<EntryMeta>,
}

/// A dataset in the list.
#[derive(Debug)]
pub struct DatasetEntry {
    /// The name shown.
    pub name: String,
    /// Where it is stored.
    pub path: String,
    /// Size in bytes.
    pub size: u64,
    /// Last modification, in nanoseconds from the Unix epoch.
    pub modified: i128,
    /// Whether it has been processed.
    pub processed: bool,
}

impl View for DatasetEntry {
    type V = (Seq<char>, Seq<char>, u64, i128, bool);

    open spec fn view(&self) -> Self::V {
        (self.name@, self.path@, self.size, self.modified, self.processed)
    }
}

/// A dataset entry as the list holds it: name, path, size, time, processed.
pub type EntryView = (Seq<char>, Seq<char>, u64, i128, bool);

/// The entry is named `lego`; the sample is considered on its own.
pub open spec fn is_lego_entry(c: DatasetCandidate) -> bool {
    file_name_of(c.path@) == Some("lego"@)
}

/// The list entry of a dataset folder, if the candidate is one whose name
/// and metadata could be read.
pub open spec fn folder_entry(c: DatasetCandidate) -> Option<EntryView> {
    if !is_lego_entry(c) && c.is_dir && c.is_dataset {
        match (c.metadata, file_name_of(c.path@)) {
            (Some(m), Some(n)) => Some((n, c.path@, m.size, m.modified, false)),
            _ => None,
        }
    } else {
        None
    }
}

/// The name a zip archive is matched against folders by: its file stem, or
/// empty.
pub open spec fn stem_or_empty(p: Seq<char>) -> Seq<char> {
    match file_stem_of(p) {
        Some(s) => s,
        None => seq![],
    }
}

/// Some entry of `list` is stored under the file name `n`.
pub open spec fn has_entry_named(list: Seq<EntryView>, n: Seq<char>) -> bool {
    exists|j: int| 0 <= j < list.len() && file_name_of((#[trigger] list[j]).1) == Some(n)
}

/// The list entry of a zip archive, given the entries listed so far: one
/// whose name and metadata could be read, and whose stem names no listed
/// entry.
pub open spec fn zip_entry(list: Seq<EntryView>, c: DatasetCandidate) -> Option<EntryView> {
    if !is_lego_entry(c) && c.is_file && extension_of(c.path@) == Some("zip"@)
        && !has_entry_named(list, stem_or_empty(c.path@)) {
        match (c.metadata, file_name_of(c.path@)) {
            (Some(m), Some(n)) => Some((n, c.path@, m.size, m.modified, false)),
            _ => None,
        }
    } else {
        None
    }
}

/// `list` followed by the dataset folders among `cs`, in order.
pub open spec fn with_folders(list: Seq<EntryView>, cs: Seq<DatasetCandidate>) -> Seq<EntryView>
    decreases cs.len(),
{
    if cs.len() == 0 {
        list
    } else {
        let prev = with_folders(list, cs.drop_last());
        match folder_entry(cs.last()) {
            Some(e) => prev.push(e),
            None => prev,
        }
    }
}

/// `list` followed by the zip archives among `cs` that have no entry of
/// their name yet, in order.
pub open spec fn with_zips(list: Seq<EntryView>, cs: Seq<DatasetCandidate>) -> Seq<EntryView>
    decreases cs.len(),
{
    if cs.len() == 0 {
        list
    } else {
        let prev = with_zips(list, cs.drop_last());
        match zip_entry(prev, cs.last()) {
            Some(e) => prev.push(e),
            None => prev,
        }
    }
}

/// The entries paired with their positions and times, for ordering.
pub open spec fn keyed(list: Seq<EntryView>) -> Seq<(int, int)> {
    Seq::new(list.len(), |i: int| (i, list[i].3 as int))
}

/// The list in newest-first order, keeping the collected order among equal
/// times.
pub open spec fn newest_first(list: Seq<EntryView>) -> Seq<EntryView> {
    sort_by_step(keyed(list)).map_values(|p: (int, int)| list[p.0])
}

/// The list shown for the datasets folder `folder`, given what was found of
/// a `lego` folder in it (when it exists as a directory with readable
/// metadata) and of its other entries.
pub open spec fn dataset_listing_of(
    folder: Seq<char>,
    lego: Option<EntryMeta>,
    cs: Seq<DatasetCandidate>,
) -> Seq<EntryView> {
    let start = match lego {
        Some(m) => seq![("lego"@, joined(folder, "lego"@), m.size, m.modified, false)],
        None => seq![],
    };
    newest_first(with_zips(with_folders(start, cs), cs))
}

fn is_lego_candidate(c: &DatasetCandidate) -> (r: bool)
    ensures
        r == is_lego_entry(*c),
{
    match file_name(c.path.as_str()) {
        Some(n) => same_chars(&chars_of(n.as_str()), &chars_of("lego")),
        None => false,
    }
}

fn entry_from(c: &DatasetCandidate, name: String, m: EntryMeta) -> (e: DatasetEntry)
    ensures
        e@ == (name@, c.path@, m.size, m.modified, false),
{
    DatasetEntry { name, path: c.path.clone(), size: m.size, modified: m.modified, processed: false }
}

fn copy_entry(e: &DatasetEntry) -> (r: DatasetEntry)
    ensures
        r@ == e@,
{
    DatasetEntry {
        name: e.name.clone(),
        path: e.path.clone(),
        size: e.size,
        modified: e.modified,
        processed: e.processed,
    }
}

/// Whether some entry of `list` is stored under the file name `n`.
fn has_entry_named_exec(list: &Vec<DatasetEntry>, n: &str) -> (r: bool)
    ensures
        r == has_entry_named(list@.map_values(|e: DatasetEntry| e@), n@),
{
    let ghost lv = list@.map_values(|e: DatasetEntry| e@);
    let want = chars_of(n);
    let mut j: usize = 0;
    while j < list.len()
        invariant
            j <= list.len(),
            lv == list@.map_values(|e: DatasetEntry| e@),
            want@ == n@,
            forall|k: int| 0 <= k < j ==> file_name_of((#[trigger] lv[k]).1) != Some(n@),
        decreases list.len() - j,
    {
        assert(lv[j as int].1 == list@[j as int].path@);
        match file_name(list[j].path.as_str()) {
            Some(f) => {
                if same_chars(&chars_of(f.as_str()), &want) {
                    return true;
                }
            },
            None => {},
        }
        j = j + 1;
    }
    false
}

/// The positions of `keys` in newest-first order (highest key first, earlier
/// positions first among equal keys).
pub fn newest_first_order(keys: &Vec<i128>) -> (order: Vec<usize>)
    ensures
        order@.map_values(|i: usize| (i as int, keys@[i as int] as int)) == sort_by_step(
            Seq::new(keys@.len(), |i: int| (i, keys@[i] as int)),
        ),
        forall|k: int| 0 <= k < order.len() ==> #[trigger] order@[k] < keys.len(),
{
    let ghost all = Seq::new(keys@.len(), |i: int| (i, keys@[i] as int));
    let mut sorted: Vec<usize> = Vec::new();
    let mut k: usize = 0;
    while k < keys.len()
        invariant
            k <= keys.len(),
            all == Seq::new(keys@.len(), |i: int| (i, keys@[i] as int)),
            sorted@.map_values(|i: usize| (i as int, keys@[i as int] as int)) == sort_by_step(
                all.take(k as int),
            ),
            forall|j: int| 0 <= j < sorted.len() ==> #[trigger] sorted@[j] < k,
        decreases keys.len() - k,
    {
        let ghost before = sorted@;
        let ghost mapped = sorted@.map_values(|i: usize| (i as int, keys@[i as int] as int));
        let key = keys[k];
        let mut pos = sorted.len();
        while pos > 0 && !(keys[sorted[pos - 1]] > key || (keys[sorted[pos - 1]] == key
            && sorted[pos - 1] < k))
            invariant
                pos <= sorted.len(),
                sorted@ == before,
                k < keys.len(),
                key == keys@[k as int],
                forall|j: int| 0 <= j < sorted.len() ==> #[trigger] sorted@[j] < k,
                forall|j: int|
                    pos <= j < sorted.len() ==> !(keys@[(#[trigger] sorted@[j]) as int] > key || (
                    keys@[sorted@[j] as int] == key && sorted@[j] < k)),
            decreases pos,
        {
            pos = pos - 1;
        }
        proof {
            let xm = (k as int, key as int);
            assert forall|j: int| pos <= j < mapped.len() implies !step_before(
                #[trigger] mapped[j],
                xm,
            ) by {
                assert(mapped[j] == (sorted@[j] as int, keys@[sorted@[j] as int] as int));
            }
            if pos > 0 {
                assert(mapped[pos - 1] == (sorted@[pos - 1] as int, keys@[sorted@[pos - 1] as int] as int));
            }
            lemma_insert_at(mapped, xm, pos as int);
        }
        sorted.insert(pos, k);
        proof {
            assert(sorted@.map_values(|i: usize| (i as int, keys@[i as int] as int)) =~= mapped.insert(
                pos as int,
                (k as int, key as int),
            ));
            let t1 = all.take(k as int + 1);
            assert(t1.drop_last() =~= all.take(k as int));
            assert(t1.last() == (k as int, key as int));
        }
        k = k + 1;
    }
    assert(all.take(k as int) =~= all);
    sorted
}

/// The list of stored datasets for the folder `folder`: the `lego` sample
/// (when `lego` says what was found of it), then each dataset folder among
/// `candidates`, then each zip archive with no listed entry of its stem's
/// name, all ordered newest first (keeping that order among equal times).
/// Entries named `lego` among the candidates are skipped.
pub fn dataset_listing(
    folder: &str,
    lego: Option<EntryMeta>,
    candidates: &Vec<DatasetCandidate>,
) -> (list: Vec<DatasetEntry>)
    ensures
        list@.map_values(|e: DatasetEntry| e@) == dataset_listing_of(folder@, lego, candidates@),
{
    let mut list: Vec<DatasetEntry> = Vec::new();
    match lego {
        Some(m) => {
            let e = DatasetEntry {
                name: String::from_str("lego"),
                path: join(folder, "lego"),
                size: m.size,
                modified: m.modified,
                processed: false,
            };
            list.push(e);
        },
        None => {},
    }
    let ghost start = list@.map_values(|e: DatasetEntry| e@);
    proof {
        match lego {
            Some(m) => {
                assert(start =~= seq![("lego"@, joined(folder@, "lego"@), m.size, m.modified, false)]);
            },
            None => {
                assert(start =~= Seq::<EntryView>::empty());
            },
        }
    }
    let mut i: usize = 0;
    while i < candidates.len()
        invariant
            i <= candidates.len(),
            list@.map_values(|e: DatasetEntry| e@) == with_folders(start, candidates@.take(i as int)),
        decreases candidates.len() - i,
    {
        let ghost before = list@.map_values(|e: DatasetEntry| e@);
        let c = &candidates[i];
        proof {
            let t = candidates@.take(i as int + 1);
            assert(t.drop_last() =~= candidates@.take(i as int));
            assert(t.last() == *c);
        }
        if !is_lego_candidate(c) && c.is_dir && c.is_dataset {
            match (c.metadata, file_name(c.path.as_str())) {
                (Some(m), Some(n)) => {
                    let e = entry_from(c, n, m);
                    list.push(e);
                    assert(list@.map_values(|e: DatasetEntry| e@) =~= before.push(e@));
                },
                _ => {},
            }
        }
        i = i + 1;
    }
    assert(candidates@.take(i as int) =~= candidates@);
    let ghost folders = list@.map_values(|e: DatasetEntry| e@);
    let mut i: usize = 0;
    while i < candidates.len()
        invariant
            i <= candidates.len(),
            folders == with_folders(start, candidates@),
            list@.map_values(|e: DatasetEntry| e@) == with_zips(folders, candidates@.take(i as int)),
        decreases candidates.len() - i,
    {
        let ghost before = list@.map_values(|e: DatasetEntry| e@);
        let c = &candidates[i];
        proof {
            let t = candidates@.take(i as int + 1);
            assert(t.drop_last() =~= candidates@.take(i as int));
            assert(t.last() == *c);
        }
        let is_zip = match extension(c.path.as_str()) {
            Some(x) => same_chars(&chars_of(x.as_str()), &chars_of("zip")),
            None => false,
        };
        if !is_lego_candidate(c) && c.is_file && is_zip {
            let stem = match file_stem(c.path.as_str()) {
                Some(s) => s,
                None => String::new(),
            };
            proof {
                assert(stem@ == stem_or_empty(c.path@));
            }
            if !has_entry_named_exec(&list, stem.as_str()) {
                match (c.metadata, file_name(c.path.as_str())) {
                    (Some(m), Some(n)) => {
                        let e = entry_from(c, n, m);
                        list.push(e);
                        assert(list@.map_values(|e: DatasetEntry| e@) =~= before.push(e@));
                    },
                    _ => {},
                }
            }
        }
        i = i + 1;
    }
    assert(candidates@.take(i as int) =~= candidates@);
    let ghost collected = list@.map_values(|e: DatasetEntry| e@);
    let mut keys: Vec<i128> = Vec::new();
    let mut j: usize = 0;
    while j < list.len()
        invariant
            j <= list.len(),
            collected == list@.map_values(|e: DatasetEntry| e@),
            keys@.len() == j,
            forall|q: int| 0 <= q < j ==> #[trigger] keys@[q] == collected[q].3,
        decreases list.len() - j,
    {
        keys.push(list[j].modified);
        j = j + 1;
    }
    let order = newest_first_order(&keys);
    proof {
        assert(Seq::new(keys@.len(), |q: int| (q, keys@[q] as int)) =~= keyed(collected));
    }
    reorder(&list, &order, &keys)
}

/// The entries of `list` in the order `order` gives, when `order` is the
/// newest-first order of their times `keys`.
pub(crate) fn reorder(list: &Vec<DatasetEntry>, order: &Vec<usize>, keys: &Vec<i128>) -> (out: Vec<
    DatasetEntry,
>)
    requires
        keys@.len() == list.len(),
        forall|q: int| 0 <= q < keys.len() ==> #[trigger] keys@[q] == list@[q].modified,
        order@.map_values(|i: usize| (i as int, keys@[i as int] as int)) == sort_by_step(
            Seq::new(keys@.len(), |i: int| (i, keys@[i] as int)),
        ),
        forall|k: int| 0 <= k < order.len() ==> #[trigger] order@[k] < keys.len(),
    ensures
        out@.map_values(|e: DatasetEntry| e@) == newest_first(list@.map_values(|e: DatasetEntry| e@)),
{
    let ghost collected = list@.map_values(|e: DatasetEntry| e@);
    proof {
        assert forall|q: int| 0 <= q < keys.len() implies #[trigger] keys@[q] == collected[q].3 by {
            assert(collected[q] == list@[q]@);
        }
        assert(Seq::new(keys@.len(), |q: int| (q, keys@[q] as int)) =~= keyed(collected));
    }
    let ghost sorted = sort_by_step(keyed(collected));
    let mut out: Vec<DatasetEntry> = Vec::new();
    let mut k: usize = 0;
    while k < order.len()
        invariant
            k <= order.len(),
            collected == list@.map_values(|e: DatasetEntry| e@),
            keys@.len() == list.len(),
            forall|q: int| 0 <= q < order.len() ==> #[trigger] order@[q] < keys.len(),
            order@.map_values(|i: usize| (i as int, keys@[i as int] as int)) == sorted,
            out@.map_values(|e: DatasetEntry| e@) == sorted.take(k as int).map_values(
                |p: (int, int)| collected[p.0],
            ),
        decreases order.len() - k,
    {
        let ghost o = out@.map_values(|e: DatasetEntry| e@);
        let idx = order[k];
        let e = copy_entry(&list[idx]);
        out.push(e);
        proof {
            assert(sorted[k as int] == (idx as int, keys@[idx as int] as int));
            assert(sorted.take(k as int + 1) =~= sorted.take(k as int).push(sorted[k as int]));
            assert(out@.map_values(|e: DatasetEntry| e@) =~= o.push(collected[idx as int]));
        }
        k = k + 1;
    }
    proof {
        assert(sorted.take(k as int) =~= sorted);
        assert(order@.map_values(|i: usize| (i as int, keys@[i as int] as int)).len() == order.len());
    }
    out
}

/// Ordering newest first keeps every entry once and puts later times before
/// earlier ones (and, among equal times, the order in which entries were
/// collected).
pub proof fn lemma_newest_first_ordered(list: Seq<EntryView>)
    ensures
        newest_first(list).len() == list.len(),
        forall|i: int, j: int|
            0 <= i < j < list.len() ==> (#[trigger] newest_first(list)[i]).3 >= (
            #[trigger] newest_first(list)[j]).3,
        forall|e: EntryView| #[trigger] newest_first(list).contains(e) ==> list.contains(e),
{
    let k = keyed(list);
    assert(indices_increase(k));
    lemma_sort_by_step(k);
    let sorted = sort_by_step(k);
    assert forall|i: int| 0 <= i < sorted.len() implies 0 <= (#[trigger] sorted[i]).0 < list.len()
        && sorted[i].1 == list[sorted[i].0].3 by {
        assert(sorted.contains(sorted[i]));
        assert(k.contains(sorted[i]));
        let q = choose|q: int| 0 <= q < k.len() && k[q] == sorted[i];
        assert(k[q] == (q, list[q].3 as int));
    }
    assert forall|i: int, j: int| 0 <= i < j < list.len() implies (#[trigger] newest_first(list)[i]).3
        >= (#[trigger] newest_first(list)[j]).3 by {
        assert(step_before(sorted[i], sorted[j]));
    }
    assert forall|e: EntryView| #[trigger] newest_first(list).contains(e) implies list.contains(e) by {
        let i = choose|i: int| 0 <= i < newest_first(list).len() && newest_first(list)[i] == e;
        assert(list[sorted[i].0] == e);
    }
}

/// The shown list is ordered newest first, and holds exactly as many
/// entries as were collected from the sample, the folders and the archives.
pub proof fn lemma_listing_newest_first(
    folder: Seq<char>,
    lego: Option<EntryMeta>,
    cs: Seq<DatasetCandidate>,
)
    ensures
        forall|i: int, j: int|
            0 <= i < j < dataset_listing_of(folder, lego, cs).len() ==> (
            #[trigger] dataset_listing_of(folder, lego, cs)[i]).3 >= (
            #[trigger] dataset_listing_of(folder, lego, cs)[j]).3,
{
    let start = match lego {
        Some(m) => seq![("lego"@, joined(folder, "lego"@), m.size, m.modified, false)],
        None => seq![],
    };
    lemma_newest_first_ordered(with_zips(with_folders(start, cs), cs));
}

/// No two entries of `list` have the same path.
pub open spec fn paths_distinct(list: Seq<EntryView>) -> bool {
    forall|i: int, j: int| 0 <= i < j < list.len() ==> (#[trigger] list[i]).1 != (#[trigger] list[j]).1
}

/// What a directory listing guarantees of the candidates: no path twice,
/// nothing both a directory and a regular file, and no entry other than the
/// `lego` sample at the sample's path.
pub open spec fn candidates_sound(folder: Seq<char>, cs: Seq<DatasetCandidate>) -> bool {
    &&& forall|i: int, j: int| 0 <= i < j < cs.len() ==> (#[trigger] cs[i]).path@ != (#[trigger] cs[j]).path@
    &&& forall|k: int| 0 <= k < cs.len() ==> !((#[trigger] cs[k]).is_dir && cs[k].is_file)
    &&& forall|k: int| 0 <= k < cs.len() && !is_lego_entry(#[trigger] cs[k]) ==> cs[k].path@ != joined(folder, "lego"@)
}

/// The path `p` is that of a listed dataset folder among the first `n`
/// candidates.
pub open spec fn folder_path_in(cs: Seq<DatasetCandidate>, n: int, p: Seq<char>) -> bool {
    exists|k: int| 0 <= k < n && (#[trigger] cs[k]).path@ == p && cs[k].is_dir && !is_lego_entry(cs[k])
}

/// The path `p` is that of a non-sample regular file among the first `n`
/// candidates.
pub open spec fn file_path_in(cs: Seq<DatasetCandidate>, n: int, p: Seq<char>) -> bool {
    exists|k: int| 0 <= k < n && (#[trigger] cs[k]).path@ == p && cs[k].is_file && !is_lego_entry(cs[k])
}

proof fn lemma_folders_distinct(folder: Seq<char>, start: Seq<EntryView>, cs: Seq<DatasetCandidate>)
    requires
        candidates_sound(folder, cs),
        start.len() <= 1,
        forall|i: int| 0 <= i < start.len() ==> (#[trigger] start[i]).1 == joined(folder, "lego"@),
    ensures
        paths_distinct(with_folders(start, cs)),
        forall|i: int| 0 <= i < with_folders(start, cs).len() ==> {
            let p = (#[trigger] with_folders(start, cs)[i]).1;
            p == joined(folder, "lego"@) || folder_path_in(cs, cs.len() as int, p)
        },
    decreases cs.len(),
{
    if cs.len() > 0 {
        let init = cs.drop_last();
        assert forall|i: int, j: int| 0 <= i < j < init.len() implies (#[trigger] init[i]).path@
            != (#[trigger] init[j]).path@ by {
            assert(init[i] == cs[i] && init[j] == cs[j]);
        }
        assert forall|k: int| 0 <= k < init.len() implies !((#[trigger] init[k]).is_dir && init[k].is_file) by {
            assert(init[k] == cs[k]);
        }
        assert forall|k: int| 0 <= k < init.len() && !is_lego_entry(#[trigger] init[k]) implies init[k].path@
            != joined(folder, "lego"@) by {
            assert(init[k] == cs[k]);
        }
        lemma_folders_distinct(folder, start, init);
        let prev = with_folders(start, init);
        let c = cs.last();
        assert forall|i: int| 0 <= i < prev.len() implies {
            let p = (#[trigger] prev[i]).1;
            p == joined(folder, "lego"@) || folder_path_in(cs, cs.len() as int, p)
        } by {
            let p = prev[i].1;
            if folder_path_in(init, init.len() as int, p) {
                let k = choose|k: int| 0 <= k < init.len() && (#[trigger] init[k]).path@ == p
                    && init[k].is_dir && !is_lego_entry(init[k]);
                assert(cs[k] == init[k]);
            }
        }
        match folder_entry(c) {
            Some(e) => {
                let next = prev.push(e);
                assert forall|i: int| 0 <= i < prev.len() implies (#[trigger] prev[i]).1 != e.1 by {
                    let p = prev[i].1;
                    if p != joined(folder, "lego"@) {
                        let k = choose|k: int| 0 <= k < init.len() && (#[trigger] init[k]).path@ == p
                            && init[k].is_dir && !is_lego_entry(init[k]);
                        assert(cs[k] == init[k]);
                        assert(cs[k].path@ != cs[cs.len() - 1].path@);
                    }
                }
                assert forall|i: int, j: int| 0 <= i < j < next.len() implies (#[trigger] next[i]).1
                    != (#[trigger] next[j]).1 by {
                    if j == prev.len() {
                        assert(next[i] == prev[i]);
                    } else {
                        assert(next[i] == prev[i] && next[j] == prev[j]);
                    }
                }
                assert forall|i: int| 0 <= i < next.len() implies {
                    let p = (#[trigger] next[i]).1;
                    p == joined(folder, "lego"@) || folder_path_in(cs, cs.len() as int, p)
                } by {
                    if i < prev.len() {
                        assert(next[i] == prev[i]);
                    } else {
                        assert(cs[cs.len() - 1].path@ == next[i].1);
                    }
                }
            },
            None => {},
        }
    }
}

proof fn lemma_zips_distinct(folder: Seq<char>, list: Seq<EntryView>, all: Seq<DatasetCandidate>, n: int)
    requires
        candidates_sound(folder, all),
        0 <= n <= all.len(),
        paths_distinct(list),
        forall|i: int| 0 <= i < list.len() ==> {
            let p = (#[trigger] list[i]).1;
            p == joined(folder, "lego"@) || folder_path_in(all, all.len() as int, p)
        },
    ensures
        paths_distinct(with_zips(list, all.take(n))),
        forall|i: int| 0 <= i < with_zips(list, all.take(n)).len() ==> {
            let p = (#[trigger] with_zips(list, all.take(n))[i]).1;
            p == joined(folder, "lego"@) || folder_path_in(all, all.len() as int, p)
                || file_path_in(all, n, p)
        },
    decreases n,
{
    if n > 0 {
        lemma_zips_distinct(folder, list, all, n - 1);
        let cs = all.take(n);
        assert(cs.drop_last() =~= all.take(n - 1));
        let prev = with_zips(list, all.take(n - 1));
        let c = all[n - 1];
        assert(cs.last() == c);
        assert forall|i: int| 0 <= i < prev.len() implies {
            let p = (#[trigger] prev[i]).1;
            p == joined(folder, "lego"@) || folder_path_in(all, all.len() as int, p)
                || file_path_in(all, n, p)
        } by {
            let p = prev[i].1;
            if file_path_in(all, n - 1, p) {
                let k = choose|k: int| 0 <= k < n - 1 && (#[trigger] all[k]).path@ == p && all[k].is_file
                    && !is_lego_entry(all[k]);
                assert(file_path_in(all, n, p));
            }
        }
        match zip_entry(prev, c) {
            Some(e) => {
                let next = prev.push(e);
                assert(e.1 == c.path@);
                assert forall|i: int| 0 <= i < prev.len() implies (#[trigger] prev[i]).1 != e.1 by {
                    let p = prev[i].1;
                    if folder_path_in(all, all.len() as int, p) {
                        let k = choose|k: int| 0 <= k < all.len() && (#[trigger] all[k]).path@ == p
                            && all[k].is_dir && !is_lego_entry(all[k]);
                        if k != n - 1 {
                            assert(all[k].path@ != all[n - 1].path@);
                        } else {
                            assert(!(all[k].is_dir && all[k].is_file));
                        }
                    } else if file_path_in(all, n - 1, p) {
                        let k = choose|k: int| 0 <= k < n - 1 && (#[trigger] all[k]).path@ == p
                            && all[k].is_file && !is_lego_entry(all[k]);
                        assert(all[k].path@ != all[n - 1].path@);
                    } else {
                        assert(!is_lego_entry(all[n - 1]));
                    }
                }
                assert forall|i: int, j: int| 0 <= i < j < next.len() implies (#[trigger] next[i]).1
                    != (#[trigger] next[j]).1 by {
                    if j == prev.len() {
                        assert(next[i] == prev[i]);
                    } else {
                        assert(next[i] == prev[i] && next[j] == prev[j]);
                    }
                }
                assert forall|i: int| 0 <= i < next.len() implies {
                    let p = (#[trigger] next[i]).1;
                    p == joined(folder, "lego"@) || folder_path_in(all, all.len() as int, p)
                        || file_path_in(all, n, p)
                } by {
                    if i < prev.len() {
                        assert(next[i] == prev[i]);
                    } else {
                        assert(all[n - 1].path@ == next[i].1);
                    }
                }
            },
            None => {},
        }
    }
}

proof fn lemma_newest_first_distinct(list: Seq<EntryView>)
    requires
        paths_distinct(list),
    ensures
        paths_distinct(newest_first(list)),
{
    let k = keyed(list);
    assert(indices_increase(k));
    lemma_sort_by_step(k);
    let sorted = sort_by_step(k);
    assert forall|i: int| 0 <= i < sorted.len() implies 0 <= (#[trigger] sorted[i]).0 < list.len()
        && sorted[i] == (sorted[i].0, list[sorted[i].0].3 as int) by {
        assert(sorted.contains(sorted[i]));
        assert(k.contains(sorted[i]));
        let q = choose|q: int| 0 <= q < k.len() && k[q] == sorted[i];
        assert(k[q] == (q, list[q].3 as int));
    }
    assert forall|i: int, j: int| 0 <= i < j < newest_first(list).len() implies (
    #[trigger] newest_first(list)[i]).1 != (#[trigger] newest_first(list)[j]).1 by {
        assert(step_before(sorted[i], sorted[j]));
        assert(sorted[i].0 != sorted[j].0);
        let a = sorted[i].0;
        let b = sorted[j].0;
        if a < b {
            assert(list[a].1 != list[b].1);
        } else {
            assert(list[b].1 != list[a].1);
        }
    }
}

/// The shown list never holds a path twice, given what a directory listing
/// guarantees of its entries (see `candidates_sound`).
pub proof fn lemma_listing_paths_distinct(
    folder: Seq<char>,
    lego: Option<EntryMeta>,
    cs: Seq<DatasetCandidate>,
)
    requires
        candidates_sound(folder, cs),
    ensures
        paths_distinct(dataset_listing_of(folder, lego, cs)),
{
    let start = match lego {
        Some(m) => seq![("lego"@, joined(folder, "lego"@), m.size, m.modified, false)],
        None => seq![],
    };
    lemma_folders_distinct(folder, start, cs);
    let folders = with_folders(start, cs);
    lemma_zips_distinct(folder, folders, cs, cs.len() as int);
    assert(cs.take(cs.len() as int) =~= cs);
    lemma_newest_first_distinct(with_zips(folders, cs));
}

} // verus!
