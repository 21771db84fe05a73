//! Which files of a dataset are read, and how its views are split.

use vstd::prelude::*;
use crate::paths::{
    clean, cleaned, extension, extension_of, file_name, file_name_of, file_stem, file_stem_of,
    join, joined, parent, parent_of, paths_equal, same_path, with_extension, with_extension_of,
};
use crate::text::{chars_of, contains, contains_seq, same_chars};

verus! {

/// `n` names a `.json` file.
pub open spec fn is_json(n: Seq<char>) -> bool {
    extension_of(n) == Some("json"@)
}

/// `n` names a file whose name contains `tag`.
pub open spec fn has_tag(n: Seq<char>, tag: Seq<char>) -> bool {
    match file_name_of(n) {
        Some(f) => contains_seq(f, tag),
        None => false,
    }
}

/// Exactly one of `names` is a `.json` file.
pub open spec fn one_json(names: Seq<Seq<char>>) -> bool {
    exists|i: int| 0 <= i < names.len() && is_json(#[trigger] names[i])
        && forall|j: int| 0 <= j < names.len() && j != i ==> !is_json(#[trigger] names[j])
}

/// `names[i]` is a `.json` file whose name contains `tag`.
pub open spec fn tagged_json(names: Seq<Seq<char>>, i: int, tag: Seq<char>) -> bool {
    is_json(names[i]) && has_tag(names[i], tag)
}

/// `i` is the first `.json` file whose name contains `tag`.
pub open spec fn first_tagged_json(names: Seq<Seq<char>>, i: int, tag: Seq<char>) -> bool {
    0 <= i < names.len() && tagged_json(names, i, tag)
        && forall|j: int| 0 <= j < i ==> !tagged_json(names, j, tag)
}

/// No `.json` file has a name containing `tag`.
pub open spec fn no_tagged_json(names: Seq<Seq<char>>, tag: Seq<char>) -> bool {
    forall|j: int| 0 <= j < names.len() ==> !tagged_json(names, j, tag)
}

/// Why no transforms file can be chosen.
#[derive(Debug, Clone, Copy, PartialEq, Eq, Structural)]
pub enum TransformsError {
    /// Not exactly one `.json` file, and none whose name contains `_train`.
    NoJsonFile,
}

fn is_json_name(n: &str) -> (r: bool)
    ensures
        r == is_json(n@),
{
    match extension(n) {
        Some(e) => same_chars(&chars_of(e.as_str()), &chars_of("json")),
        None => false,
    }
}

fn has_tag_name(n: &str, tag: &str) -> (r: bool)
    ensures
        r == has_tag(n@, tag@),
{
    match file_name(n) {
        Some(f) => contains(&chars_of(f.as_str()), &chars_of(tag)),
        None => false,
    }
}

/// The first `.json` file whose name contains `tag`, if any.
pub fn find_tagged_json(names: &Vec<String>, tag: &str) -> (r: Option<usize>)
    ensures
        ({
            let ns = names@.map_values(|n: String| n@);
            match r {
                Some(i) => first_tagged_json(ns, i as int, tag@),
                None => no_tagged_json(ns, tag@),
            }
        }),
{
    let ghost ns = names@.map_values(|n: String| n@);
    let mut i: usize = 0;
    while i < names.len()
        invariant
            i <= names@.len(),
            ns == names@.map_values(|n: String| n@),
            forall|j: int| 0 <= j < i ==> !tagged_json(ns, j, tag@),
        decreases names.len() - i,
    {
        assert(ns[i as int] == names@[i as int]@);
        if is_json_name(names[i].as_str()) && has_tag_name(names[i].as_str(), tag) {
            return Some(i);
        }
        i = i + 1;
    }
    None
}

/// Chooses the transforms file of a dataset among its file names: the only
/// `.json` file if there is exactly one, otherwise the first `.json` file
/// whose name contains `_train`.
pub fn choose_transforms(names: &Vec<String>) -> (r: Result<usize, TransformsError>)
    ensures
        ({
            let ns = names@.map_values(|n: String| n@);
            match r {
                Ok(i) => 0 <= i < ns.len() && is_json(ns[i as int])
                    && (one_json(ns) || first_tagged_json(ns, i as int, "_train"@)),
                Err(_) => !one_json(ns) && no_tagged_json(ns, "_train"@),
            }
        }),
{
    let ghost ns = names@.map_values(|n: String| n@);
    let mut count: usize = 0;
    let mut first: usize = 0;
    let mut i: usize = 0;
    while i < names.len()
        invariant
            i <= names@.len(),
            ns == names@.map_values(|n: String| n@),
            count <= 2,
            count == 0 ==> forall|j: int| 0 <= j < i ==> !is_json(#[trigger] ns[j]),
            count >= 1 ==> first < i && is_json(ns[first as int])
                && forall|j: int| 0 <= j < first ==> !is_json(#[trigger] ns[j]),
            count == 1 ==> forall|j: int| 0 <= j < i && j != first ==> !is_json(#[trigger] ns[j]),
            count == 2 ==> exists|j: int| 0 <= j < i && j != first && is_json(#[trigger] ns[j]),
        decreases names.len() - i,
    {
        assert(ns[i as int] == names@[i as int]@);
        if is_json_name(names[i].as_str()) {
            if count == 0 {
                first = i;
                count = 1;
            } else if count == 1 {
                count = 2;
                assert(is_json(ns[i as int]));
            }
        }
        i = i + 1;
    }
    if count == 1 {
        assert(one_json(ns)) by {
            assert(is_json(ns[first as int]));
        }
        return Ok(first);
    }
    assert(!one_json(ns)) by {
        if one_json(ns) {
            let k = choose|k: int| 0 <= k < ns.len() && is_json(#[trigger] ns[k])
                && forall|j: int| 0 <= j < ns.len() && j != k ==> !is_json(#[trigger] ns[j]);
            if count == 2 {
                let j2 = choose|j: int| 0 <= j < i && j != first && is_json(#[trigger] ns[j]);
                assert(j2 == k);
                assert(first == k);
            }
        }
    }
    match find_tagged_json(names, "_train") {
        Some(t) => Ok(t),
        None => Err(TransformsError::NoJsonFile),
    }
}

/// Chooses the evaluation transforms file: the first `.json` file whose name
/// contains `_val`, else the first whose name contains `_test`.
pub fn choose_eval_transforms(names: &Vec<String>) -> (r: Option<usize>)
    ensures
        ({
            let ns = names@.map_values(|n: String| n@);
            match r {
                Some(i) => first_tagged_json(ns, i as int, "_val"@)
                    || (no_tagged_json(ns, "_val"@) && first_tagged_json(ns, i as int, "_test"@)),
                None => no_tagged_json(ns, "_val"@) && no_tagged_json(ns, "_test"@),
            }
        }),
{
    match find_tagged_json(names, "_val") {
        Some(i) => Some(i),
        None => find_tagged_json(names, "_test"),
    }
}

/// The PLY file to start training from: the only `.ply` file, if there is
/// exactly one.
pub fn single_ply(names: &Vec<String>) -> (r: Option<usize>)
    ensures
        ({
            let ns = names@.map_values(|n: String| n@);
            match r {
                Some(i) => 0 <= i < ns.len() && extension_of(ns[i as int]) == Some("ply"@)
                    && forall|j: int| 0 <= j < ns.len() && j != i
                        ==> extension_of(#[trigger] ns[j]) != Some("ply"@),
                None => !exists|i: int| 0 <= i < ns.len() && extension_of(#[trigger] ns[i]) == Some("ply"@)
                    && forall|j: int| 0 <= j < ns.len() && j != i
                        ==> extension_of(#[trigger] ns[j]) != Some("ply"@),
            }
        }),
{
    let ghost ns = names@.map_values(|n: String| n@);
    let ply = chars_of("ply");
    let mut count: usize = 0;
    let mut first: usize = 0;
    let mut i: usize = 0;
    while i < names.len()
        invariant
            i <= names@.len(),
            ns == names@.map_values(|n: String| n@),
            ply@ == "ply"@,
            count <= 2,
            count == 0 ==> forall|j: int| 0 <= j < i ==> extension_of(#[trigger] ns[j]) != Some("ply"@),
            count >= 1 ==> first < i && extension_of(ns[first as int]) == Some("ply"@),
            count == 1 ==> forall|j: int| 0 <= j < i && j != first
                ==> extension_of(#[trigger] ns[j]) != Some("ply"@),
            count == 2 ==> exists|j: int| 0 <= j < i && j != first
                && extension_of(#[trigger] ns[j]) == Some("ply"@),
        decreases names.len() - i,
    {
        assert(ns[i as int] == names@[i as int]@);
        let is_ply = match extension(names[i].as_str()) {
            Some(e) => same_chars(&chars_of(e.as_str()), &ply),
            None => false,
        };
        if is_ply {
            if count == 0 {
                first = i;
                count = 1;
            } else if count == 1 {
                count = 2;
                assert(extension_of(ns[i as int]) == Some("ply"@));
            }
        }
        i = i + 1;
    }
    if count == 1 {
        return Some(first);
    }
    assert(!exists|k: int| 0 <= k < ns.len() && extension_of(#[trigger] ns[k]) == Some("ply"@)
        && forall|j: int| 0 <= j < ns.len() && j != k ==> extension_of(#[trigger] ns[j]) != Some("ply"@)) by {
        if exists|k: int| 0 <= k < ns.len() && extension_of(#[trigger] ns[k]) == Some("ply"@)
            && forall|j: int| 0 <= j < ns.len() && j != k ==> extension_of(#[trigger] ns[j]) != Some("ply"@) {
            let k = choose|k: int| 0 <= k < ns.len() && extension_of(#[trigger] ns[k]) == Some("ply"@)
                && forall|j: int| 0 <= j < ns.len() && j != k ==> extension_of(#[trigger] ns[j]) != Some("ply"@);
            if count == 2 {
                let j2 = choose|j: int| 0 <= j < i && j != first && extension_of(#[trigger] ns[j]) == Some("ply"@);
                assert(j2 == k);
                assert(first == k);
            }
        }
    }
    None
}

/// The frames a dataset loads, out of `frame_count`: the first `max_frames`
/// (all when unlimited), then every `subsample`-th of those.
pub open spec fn frame_selected(i: nat, frame_count: nat, max_frames: Option<usize>, subsample: Option<u32>) -> bool {
    let limit: nat = match max_frames {
        Some(m) => if (m as nat) < frame_count { m as nat } else { frame_count },
        None => frame_count,
    };
    i < limit && match subsample {
        Some(s) => i % (s as nat) == 0,
        None => true,
    }
}

/// The indices of the frames a dataset loads, in order.
pub fn selected_frames(frame_count: usize, max_frames: Option<usize>, subsample: Option<u32>) -> (r: Vec<usize>)
    requires
        subsample != Some(0u32),
    ensures
        forall|k: int| 0 <= k < r@.len()
            ==> frame_selected(#[trigger] r@[k] as nat, frame_count as nat, max_frames, subsample),
        forall|k: int, l: int| 0 <= k < l < r@.len() ==> #[trigger] r@[k] < #[trigger] r@[l],
        forall|i: nat| frame_selected(i, frame_count as nat, max_frames, subsample)
            ==> #[trigger] r@.contains(i as usize),
{
    let limit = match max_frames {
        Some(m) => if m < frame_count { m } else { frame_count },
        None => frame_count,
    };
    let mut r: Vec<usize> = Vec::new();
    let mut i: usize = 0;
    while i < limit
        invariant
            limit <= frame_count,
            limit as nat == (match max_frames {
                Some(m) => if (m as nat) < frame_count { m as nat } else { frame_count as nat },
                None => frame_count as nat,
            }),
            subsample != Some(0u32),
            i <= limit,
            forall|k: int| 0 <= k < r@.len()
                ==> frame_selected(#[trigger] r@[k] as nat, frame_count as nat, max_frames, subsample),
            forall|k: int| 0 <= k < r@.len() ==> #[trigger] r@[k] < i,
            forall|k: int, l: int| 0 <= k < l < r@.len() ==> #[trigger] r@[k] < #[trigger] r@[l],
            forall|j: nat| j < i && frame_selected(j, frame_count as nat, max_frames, subsample)
                ==> #[trigger] r@.contains(j as usize),
        decreases limit - i,
    {
        let keep = match subsample {
            Some(s) => i % (s as usize) == 0,
            None => true,
        };
        let ghost before = r@;
        if keep {
            r.push(i);
            assert(r@[r@.len() - 1] == i);
        }
        assert forall|j: nat| j < i + 1 && frame_selected(j, frame_count as nat, max_frames, subsample)
            implies #[trigger] r@.contains(j as usize) by {
            if j < i {
                assert(before.contains(j as usize));
                let k = choose|k: int| 0 <= k < before.len() && before[k] == j as usize;
                assert(r@[k] == j as usize);
            } else {
                assert(r@[r@.len() - 1] == i);
            }
        }
        i = i + 1;
    }
    r
}

/// Whether the `index`-th training view goes to the evaluation set: every
/// `eval_every`-th view does, but only when the dataset has no separate
/// evaluation file (extra evaluation views are taken only when the dataset
/// brings none).
pub fn is_eval_view(index: usize, eval_every: Option<usize>, has_eval_file: bool) -> (r: bool)
    requires
        eval_every != Some(0usize),
    ensures
        r == match eval_every {
            Some(p) => (index as nat) % (p as nat) == 0 && !has_eval_file,
            None => false,
        },
{
    match eval_every {
        Some(p) => index % p == 0 && !has_eval_file,
        None => false,
    }
}

/// The image path of a frame: `file_path` joined to the directory of the
/// transforms file, with a `png` extension when it has none.
pub open spec fn frame_image_path_of(transforms: Seq<char>, file_path: Seq<char>) -> Seq<char> {
    let p = joined(parent_of(transforms).unwrap(), file_path);
    if extension_of(p) is None {
        with_extension_of(p, "png"@)
    } else {
        p
    }
}

/// The path of a frame's image.
pub fn frame_image_path(transforms: &str, file_path: &str) -> (r: String)
    requires
        parent_of(transforms@) is Some,
    ensures
        r@ == frame_image_path_of(transforms@, file_path@),
{
    let dir = match parent(transforms) {
        Some(d) => d,
        None => {
            assert(false);
            String::new()
        },
    };
    let p = join(dir.as_str(), file_path);
    if extension(p.as_str()).is_none() {
        proof {
            reveal_strlit("png");
        }
        with_extension(p.as_str(), "png")
    } else {
        p
    }
}

/// The path of a frame's image, or `None` when the transforms path has no
/// parent directory (which the transforms file always has when it was found
/// in a dataset).
pub fn try_frame_image_path(transforms: &str, file_path: &str) -> (r: Option<String>)
    ensures
        r is None <==> parent_of(transforms@) is None,
        r matches Some(p) ==> p@ == frame_image_path_of(transforms@, file_path@),
{
    match parent(transforms) {
        Some(_) => Some(frame_image_path(transforms, file_path)),
        None => None,
    }
}

/// `file` is the mask of the image at `path`: either `<stem>_mask` next to
/// it, or `<stem>` in a `masks` directory beside its directory.
pub open spec fn is_mask_of(file: Seq<char>, dir: Seq<char>, stem: Seq<char>, masks_dir: Seq<char>) -> bool {
    match (parent_of(file), file_stem_of(file)) {
        (Some(fp), Some(fs)) => (same_path(fp, dir) && fs == stem + "_mask"@)
            || (same_path(fp, masks_dir) && fs == stem),
        _ => false,
    }
}

/// The mask image of the image at `path` among the dataset's file names: the
/// first name that `is_mask_of` accepts. The image's directory is cleaned, and
/// the `masks` directory is the cleaned join of its parent with `masks`.
pub fn find_mask_path(names: &Vec<String>, path: &str) -> (r: Option<usize>)
    ensures
        match (parent_of(path@), file_stem_of(path@)) {
            (Some(pp), Some(stem)) => {
                let dir = cleaned(pp);
                match parent_of(dir) {
                    Some(dp) => {
                        let masks = cleaned(joined(dp, "masks"@));
                        match r {
                            Some(i) => 0 <= i < names@.len()
                                && is_mask_of(names@[i as int]@, dir, stem, masks)
                                && forall|j: int| 0 <= j < i
                                    ==> !is_mask_of(#[trigger] names@[j]@, dir, stem, masks),
                            None => forall|j: int| 0 <= j < names@.len()
                                ==> !is_mask_of(#[trigger] names@[j]@, dir, stem, masks),
                        }
                    },
                    None => r is None,
                }
            },
            _ => r is None,
        },
{
    let pp = match parent(path) {
        Some(p) => p,
        None => return None,
    };
    let dir = clean(pp.as_str());
    let stem = match file_stem(path) {
        Some(s) => s,
        None => return None,
    };
    let dp = match parent(dir.as_str()) {
        Some(p) => p,
        None => return None,
    };
    let masks = clean(join(dp.as_str(), "masks").as_str());
    let stem_chars = chars_of(stem.as_str());
    let mut masked = chars_of(stem.as_str());
    let suffix = chars_of("_mask");
    let ghost head = masked@;
    let mut k: usize = 0;
    while k < suffix.len()
        invariant
            k <= suffix.len(),
            masked@ == head + suffix@.take(k as int),
        decreases suffix.len() - k,
    {
        masked.push(suffix[k]);
        k = k + 1;
        assert(masked@ =~= head + suffix@.take(k as int));
    }
    assert(suffix@.take(suffix@.len() as int) =~= suffix@);
    let mut i: usize = 0;
    while i < names.len()
        invariant
            i <= names@.len(),
            masked@ == stem@ + "_mask"@,
            stem_chars@ == stem@,
            parent_of(path@) == Some(pp@),
            dir@ == cleaned(pp@),
            file_stem_of(path@) == Some(stem@),
            parent_of(dir@) == Some(dp@),
            masks@ == cleaned(joined(dp@, "masks"@)),
            forall|j: int| 0 <= j < i ==> !is_mask_of(#[trigger] names@[j]@, dir@, stem@, masks@),
        decreases names.len() - i,
    {
        let n = names[i].as_str();
        let hit = match (parent(n), file_stem(n)) {
            (Some(fp), Some(fs)) => {
                let fsc = chars_of(fs.as_str());
                (paths_equal(fp.as_str(), dir.as_str()) && same_chars(&fsc, &masked))
                    || (paths_equal(fp.as_str(), masks.as_str()) && same_chars(&fsc, &stem_chars))
            },
            _ => false,
        };
        if hit {
            proof {
                assert(parent_of(names@[i as int]@) is Some && file_stem_of(names@[i as int]@) is Some);
                assert(is_mask_of(names@[i as int]@, dir@, stem@, masks@));
            }
            return Some(i);
        }
        i = i + 1;
    }
    None
}

/// The views of a dataset: those to train on, and those to evaluate on (if
/// any).
#[derive(Debug, Clone)]
pub struct Dataset<V> {
    /// Views to train on.
    pub train: Vec<V>,
    /// Views to evaluate on; `None` when there are none.
    pub eval: Option<Vec<V>>,
}

impl<V> Dataset<V> {
    /// No views at all.
    pub fn empty() -> (d: Self)
        ensures
            d.train@.len() == 0,
            d.eval is None,
    {
        Dataset { train: Vec::new(), eval: None }
    }

    /// A dataset of these views; an empty evaluation set counts as none.
    pub fn from_views(train_views: Vec<V>, eval_views: Vec<V>) -> (d: Self)
        ensures
            d.train@ == train_views@,
            match d.eval {
                Some(e) => eval_views@.len() > 0 && e@ == eval_views@,
                None => eval_views@.len() == 0,
            },
    {
        let eval = if eval_views.len() == 0 {
            None
        } else {
            Some(eval_views)
        };
        Dataset { train: train_views, eval }
    }

    /// The number of evaluation views (0 without an evaluation set).
    pub fn eval_view_count(&self) -> (n: usize)
        ensures
            n == match self.eval {
                Some(e) => e@.len(),
                None => 0,
            },
    {
        match &self.eval {
            Some(e) => e.len(),
            None => 0,
        }
    }

    /// The views browsed for a chosen side: the training views when
    /// `train_side` is asked for or when there is no evaluation set, the
    /// evaluation views otherwise.
    pub fn selected_views(&self, train_side: bool) -> (v: &Vec<V>)
        ensures
            v@ == match self.eval {
                Some(e) => if train_side { self.train@ } else { e@ },
                None => self.train@,
            },
    {
        match &self.eval {
            Some(e) => if train_side { &self.train } else { e },
            None => &self.train,
        }
    }
}

} // verus!
