//! Export bookkeeping: where exports go, when an auto-save is due, what the
//! exported file is called, and which old auto-saves are removed.
//!
//! Writing the files and listing the export directory are left to the caller;
//! this module decides everything around them.

use vstd::prelude::*;
use vstd::string::StringExecFns;
use crate::paths::{join, joined};
use crate::size_format::{dec_chars, push_decimal};
use crate::text::{
    chars_of, ends_with, has_prefix, has_suffix, parse_unsigned, parse_unsigned_chars, starts_with,
    string_from_chars, strip_prefixes, strip_suffixes, trim_prefixes, trim_suffixes,
};

verus! {

/// Supported export formats.
#[derive(Debug, Clone, Copy, PartialEq, Eq, Structural)]
pub enum ExportFormat {
    PLY,
}

/// Errors that can occur during export operations.
#[derive(Debug, Clone)]
pub enum ExportError {
    /// An input/output failure, with its message.
    Io(String),
    /// No export directory has been set.
    NoExportDir,
    /// There are no splats to export.
    NoSplats,
    /// The requested file name cannot be used.
    InvalidFilename(String),
    /// Any other failure, with its message.
    Other(String),
}

/// Configuration for auto-saving during training.
#[derive(Debug, Clone)]
pub struct AutoSaveConfig {
    /// Whether auto-save is enabled.
    pub enabled: bool,
    /// Interval between saves (in training steps).
    pub interval_steps: u32,
    /// Maximum number of auto-saves to keep (`None` for unlimited).
    pub max_saves: Option<u32>,
    /// Format to use for auto-saves.
    pub format: ExportFormat,
    /// Prefix for auto-save file names.
    pub prefix: String,
}

impl Default for AutoSaveConfig {
    /// Disabled, every 1000 steps, keeping 5 saves, PLY, prefix `autosave_`.
    fn default() -> (c: Self)
        ensures
            !c.enabled,
            c.interval_steps == 1000,
            c.max_saves == Some(5u32),
            c.format == ExportFormat::PLY,
            c.prefix@ == seq!['a', 'u', 't', 'o', 's', 'a', 'v', 'e', '_'],
    {
        let prefix = String::from_str("autosave_");
        proof {
            reveal_strlit("autosave_");
        }
        assert(prefix@ =~= seq!['a', 'u', 't', 'o', 's', 'a', 'v', 'e', '_']);
        AutoSaveConfig {
            enabled: false,
            interval_steps: 1000,
            max_saves: Some(5),
            format: ExportFormat::PLY,
            prefix,
        }
    }
}

/// What an auto-save that has become due should do.
pub struct AutoSavePlan {
    /// File name to export to: the prefix followed by the step number.
    pub file_name: String,
    /// Format to export in.
    pub format: ExportFormat,
    /// Prefix that identifies auto-save files.
    pub prefix: String,
    /// How many auto-saves to keep, if limited.
    pub max_saves: Option<u32>,
}

/// One entry of the export directory, as the caller lists it.
pub struct DirEntryInfo {
    /// The entry's file name, when it is valid UTF-8.
    pub name: Option<String>,
    /// Whether the entry is a directory.
    pub is_dir: bool,
}

/// Central service for handling export operations.
#[derive(Clone)]
pub struct ExportService {
    export_dir: Option<String>,
    default_format: ExportFormat,
    auto_save_config: Option<AutoSaveConfig>,
    last_auto_save_step: u32,
}

/// The file name of an auto-save made at `step`.
pub open spec fn autosave_name(prefix: Seq<char>, step: nat) -> Seq<char> {
    prefix + dec_chars(step)
}

/// `.ply`
pub open spec fn ply_ext() -> Seq<char> {
    seq!['.', 'p', 'l', 'y']
}

/// The step number an auto-save file name encodes: after the prefix (and any
/// repetitions of it) and before any trailing `.ply`, a `u32` in decimal.
pub open spec fn autosave_step(name: Seq<char>, prefix: Seq<char>) -> Option<nat> {
    if has_prefix(name, prefix) {
        parse_unsigned(strip_suffixes(strip_prefixes(name, prefix), ply_ext()), 0xffff_ffff)
    } else {
        None
    }
}

/// The step of a directory entry that is an auto-save file.
pub open spec fn entry_step(e: DirEntryInfo, prefix: Seq<char>) -> Option<nat> {
    if e.is_dir {
        None
    } else {
        match e.name {
            Some(n) => autosave_step(n@, prefix),
            None => None,
        }
    }
}

/// The auto-save files among `es`: (entry index, step), in listing order.
pub open spec fn autosave_candidates(es: Seq<DirEntryInfo>, prefix: Seq<char>) -> Seq<(int, int)>
    decreases es.len(),
{
    if es.len() == 0 {
        seq![]
    } else {
        let rest = autosave_candidates(es.drop_last(), prefix);
        match entry_step(es.last(), prefix) {
            Some(st) => rest.push(((es.len() - 1) as int, st as int)),
            None => rest,
        }
    }
}

/// `a` comes before `b` when ordering by step, highest first, and by listing
/// order among equal steps.
pub open spec fn step_before(a: (int, int), b: (int, int)) -> bool {
    a.1 > b.1 || (a.1 == b.1 && a.0 < b.0)
}

/// Inserts `x` after every element of `s` that comes before it.
pub open spec fn insert_by_step(s: Seq<(int, int)>, x: (int, int)) -> Seq<(int, int)>
    decreases s.len(),
{
    if s.len() == 0 {
        seq![x]
    } else if step_before(s.last(), x) {
        s.push(x)
    } else {
        insert_by_step(s.drop_last(), x).push(s.last())
    }
}

/// `s` sorted by step, highest first, keeping listing order among equal steps.
pub open spec fn sort_by_step(s: Seq<(int, int)>) -> Seq<(int, int)>
    decreases s.len(),
{
    if s.len() == 0 {
        seq![]
    } else {
        insert_by_step(sort_by_step(s.drop_last()), s.last())
    }
}

/// The entries that a clean-up keeping `max_saves` auto-saves removes, in
/// removal order: all auto-save files past the `max_saves` newest.
pub open spec fn autosaves_removed(es: Seq<DirEntryInfo>, prefix: Seq<char>, max_saves: nat) -> Seq<int> {
    let sorted = sort_by_step(autosave_candidates(es, prefix));
    if sorted.len() > max_saves {
        sorted.skip(max_saves as int).map_values(|c: (int, int)| c.0)
    } else {
        seq![]
    }
}

/// `insert_by_step` puts `x` at the first position from which no element
/// comes before `x`, scanning from the end.
pub(crate) proof fn lemma_insert_at(s: Seq<(int, int)>, x: (int, int), pos: int)
    requires
        0 <= pos <= s.len(),
        forall|j: int| pos <= j < s.len() ==> !step_before(#[trigger] s[j], x),
        pos == 0 || step_before(s[pos - 1], x),
    ensures
        insert_by_step(s, x) == s.insert(pos, x),
    decreases s.len(),
{
    if s.len() == 0 {
        assert(s.insert(pos, x) =~= seq![x]);
    } else if step_before(s.last(), x) {
        assert(pos == s.len());
        assert(s.insert(pos, x) =~= s.push(x));
    } else {
        let t = s.drop_last();
        assert forall|j: int| pos <= j < t.len() implies !step_before(#[trigger] t[j], x) by {
            assert(t[j] == s[j]);
        }
        lemma_insert_at(t, x, pos);
        assert(t.insert(pos, x).push(s.last()) =~= s.insert(pos, x));
    }
}

/// Every element of `s` comes before every later one.
pub open spec fn strictly_by_step(s: Seq<(int, int)>) -> bool {
    forall|i: int, j: int| 0 <= i < j < s.len() ==> step_before(#[trigger] s[i], #[trigger] s[j])
}

/// Listing indices increase along `s`.
pub open spec fn indices_increase(s: Seq<(int, int)>) -> bool {
    forall|i: int, j: int| 0 <= i < j < s.len() ==> (#[trigger] s[i]).0 < (#[trigger] s[j]).0
}

proof fn lemma_insert_by_step(t: Seq<(int, int)>, x: (int, int))
    requires
        strictly_by_step(t),
        forall|i: int| 0 <= i < t.len() ==> (#[trigger] t[i]).0 < x.0,
    ensures
        strictly_by_step(insert_by_step(t, x)),
        insert_by_step(t, x).len() == t.len() + 1,
        forall|e: (int, int)| #[trigger] insert_by_step(t, x).contains(e) <==> (t.contains(e) || e == x),
    decreases t.len(),
{
    let r = insert_by_step(t, x);
    if t.len() == 0 {
        assert(r == seq![x]);
        assert forall|e: (int, int)| r.contains(e) <==> (t.contains(e) || e == x) by {
            if r.contains(e) {
                let i = choose|i: int| 0 <= i < r.len() && r[i] == e;
                assert(i == 0);
            }
            if e == x {
                assert(r[0] == x);
            }
        }
    } else if step_before(t.last(), x) {
        assert(r == t.push(x));
        assert forall|i: int, j: int| 0 <= i < j < r.len() implies step_before(#[trigger] r[i], #[trigger] r[j]) by {
            if j == t.len() {
                if i < t.len() - 1 {
                    assert(step_before(t[i], t[t.len() - 1]));
                }
            } else {
                assert(r[i] == t[i] && r[j] == t[j]);
            }
        }
        assert forall|e: (int, int)| r.contains(e) <==> (t.contains(e) || e == x) by {
            if r.contains(e) {
                let i = choose|i: int| 0 <= i < r.len() && r[i] == e;
                if i < t.len() {
                    assert(t[i] == e);
                }
            }
            if t.contains(e) {
                let i = choose|i: int| 0 <= i < t.len() && t[i] == e;
                assert(r[i] == e);
            }
            if e == x {
                assert(r[t.len() as int] == x);
            }
        }
    } else {
        let u = t.drop_last();
        let l = t.last();
        assert forall|i: int, j: int| 0 <= i < j < u.len() implies step_before(#[trigger] u[i], #[trigger] u[j]) by {
            assert(u[i] == t[i] && u[j] == t[j]);
        }
        assert forall|i: int| 0 <= i < u.len() implies (#[trigger] u[i]).0 < x.0 by {
            assert(u[i] == t[i]);
        }
        lemma_insert_by_step(u, x);
        let v = insert_by_step(u, x);
        assert(r == v.push(l));
        assert(l.0 < x.0);
        assert(step_before(x, l));
        assert forall|i: int, j: int| 0 <= i < j < r.len() implies step_before(#[trigger] r[i], #[trigger] r[j]) by {
            if j == v.len() {
                assert(r[j] == l);
                assert(v.contains(r[i]));
                if r[i] != x {
                    assert(u.contains(r[i]));
                    let k = choose|k: int| 0 <= k < u.len() && u[k] == r[i];
                    assert(t[k] == r[i]);
                    assert(step_before(t[k], t[t.len() - 1]));
                }
            } else {
                assert(r[i] == v[i] && r[j] == v[j]);
            }
        }
        assert forall|e: (int, int)| r.contains(e) <==> (t.contains(e) || e == x) by {
            if r.contains(e) {
                let i = choose|i: int| 0 <= i < r.len() && r[i] == e;
                if i < v.len() {
                    assert(v.contains(e));
                    if u.contains(e) {
                        let k = choose|k: int| 0 <= k < u.len() && u[k] == e;
                        assert(t[k] == e);
                    }
                } else {
                    assert(t[t.len() - 1] == e);
                }
            }
            if t.contains(e) {
                let i = choose|i: int| 0 <= i < t.len() && t[i] == e;
                if i < u.len() {
                    assert(u[i] == e);
                    assert(u.contains(e));
                    assert(insert_by_step(u, x).contains(e));
                    let k = choose|k: int| 0 <= k < v.len() && v[k] == e;
                    assert(r[k] == e);
                } else {
                    assert(r[v.len() as int] == e);
                }
            }
            if e == x {
                assert(insert_by_step(u, x).contains(x));
                let k = choose|k: int| 0 <= k < v.len() && v[k] == x;
                assert(r[k] == x);
            }
        }
    }
}

/// Sorting by step puts the elements in strict order (highest step first,
/// listing order among equal steps) and keeps exactly the same elements.
pub proof fn lemma_sort_by_step(s: Seq<(int, int)>)
    requires
        indices_increase(s),
    ensures
        strictly_by_step(sort_by_step(s)),
        sort_by_step(s).len() == s.len(),
        forall|e: (int, int)| #[trigger] sort_by_step(s).contains(e) <==> s.contains(e),
    decreases s.len(),
{
    if s.len() > 0 {
        let u = s.drop_last();
        assert forall|i: int, j: int| 0 <= i < j < u.len() implies (#[trigger] u[i]).0 < (#[trigger] u[j]).0 by {
            assert(u[i] == s[i] && u[j] == s[j]);
        }
        lemma_sort_by_step(u);
        let t = sort_by_step(u);
        assert forall|i: int| 0 <= i < t.len() implies (#[trigger] t[i]).0 < s.last().0 by {
            assert(t.contains(t[i]));
            assert(sort_by_step(u).contains(t[i]));
            assert(u.contains(t[i]));
            let k = choose|k: int| 0 <= k < u.len() && u[k] == t[i];
            assert(s[k] == u[k]);
        }
        lemma_insert_by_step(t, s.last());
        assert forall|e: (int, int)| sort_by_step(s).contains(e) <==> s.contains(e) by {
            if s.contains(e) {
                let k = choose|k: int| 0 <= k < s.len() && s[k] == e;
                if k < u.len() {
                    assert(u[k] == e);
                }
            }
            if u.contains(e) {
                let k = choose|k: int| 0 <= k < u.len() && u[k] == e;
                assert(s[k] == e);
            }
        }
    } else {
        assert(sort_by_step(s) =~= s);
    }
}

/// Auto-save candidates are listed in increasing entry order.
pub proof fn lemma_candidates_in_order(es: Seq<DirEntryInfo>, prefix: Seq<char>)
    ensures
        indices_increase(autosave_candidates(es, prefix)),
        forall|i: int| 0 <= i < autosave_candidates(es, prefix).len()
            ==> 0 <= (#[trigger] autosave_candidates(es, prefix)[i]).0 < es.len(),
    decreases es.len(),
{
    if es.len() > 0 {
        lemma_candidates_in_order(es.drop_last(), prefix);
    }
}

/// The clean-up keeps the newest auto-saves: each kept auto-save has a
/// higher step than each removed one, or the same step and an earlier
/// listing; and it removes all but `max_saves` of them.
pub proof fn lemma_cleanup_keeps_newest(es: Seq<DirEntryInfo>, prefix: Seq<char>, max_saves: nat)
    ensures
        ({
            let sorted = sort_by_step(autosave_candidates(es, prefix));
            &&& forall|i: int, j: int| 0 <= i < max_saves && max_saves <= j < sorted.len()
                ==> step_before(#[trigger] sorted[i], #[trigger] sorted[j])
            &&& autosaves_removed(es, prefix, max_saves).len() == (if sorted.len() > max_saves {
                sorted.len() - max_saves
            } else {
                0
            })
            &&& sorted.len() == autosave_candidates(es, prefix).len()
        }),
{
    lemma_candidates_in_order(es, prefix);
    lemma_sort_by_step(autosave_candidates(es, prefix));
}

/// Auto-saves are spaced by at least the configured interval: when one is
/// due at `step`, `step` lies at least `interval_steps` past the step of the
/// previous auto-save (which `check_auto_save` records when it saves).
pub proof fn lemma_autosaves_spaced(s: ExportService, step: nat)
    requires
        s.spec_auto_save_due(step),
    ensures
        step >= s.spec_last_auto_save_step() + s.spec_auto_save().unwrap().interval_steps,
        step > 0,
{
}

impl ExportService {
    /// The export directory, if one is set.
    pub closed spec fn spec_export_dir(&self) -> Option<Seq<char>> {
        match self.export_dir {
            Some(d) => Some(d@),
            None => None,
        }
    }

    /// The default export format.
    pub closed spec fn spec_default_format(&self) -> ExportFormat {
        self.default_format
    }

    /// The auto-save configuration, if any.
    pub closed spec fn spec_auto_save(&self) -> Option<AutoSaveConfig> {
        self.auto_save_config
    }

    /// The training step of the last auto-save (0 before any).
    pub closed spec fn spec_last_auto_save_step(&self) -> nat {
        self.last_auto_save_step as nat
    }

    /// Auto-save is configured and enabled.
    pub open spec fn spec_auto_save_enabled(&self) -> bool {
        self.spec_auto_save() matches Some(c) && c.enabled
    }

    /// Whether an auto-save is due at `step`.
    pub open spec fn spec_auto_save_due(&self, step: nat) -> bool {
        match self.spec_auto_save() {
            Some(c) => c.enabled && step != 0
                && step - self.spec_last_auto_save_step() >= c.interval_steps,
            None => false,
        }
    }

    /// Creates a service exporting to `export_dir`, in PLY, without auto-save.
    pub fn new(export_dir: Option<String>) -> (s: Self)
        ensures
            s.spec_export_dir() == (match export_dir {
                Some(d) => Some(d@),
                None => None::<Seq<char>>,
            }),
            s.spec_default_format() == ExportFormat::PLY,
            s.spec_auto_save() is None,
            s.spec_last_auto_save_step() == 0,
    {
        ExportService {
            export_dir,
            default_format: ExportFormat::PLY,
            auto_save_config: None,
            last_auto_save_step: 0,
        }
    }

    /// Sets the export directory.
    pub fn set_export_dir(&mut self, dir: String)
        ensures
            final(self).spec_export_dir() == Some(dir@),
            final(self).spec_default_format() == old(self).spec_default_format(),
            final(self).spec_auto_save() == old(self).spec_auto_save(),
            final(self).spec_last_auto_save_step() == old(self).spec_last_auto_save_step(),
    {
        self.export_dir = Some(dir);
    }

    /// The current export directory.
    pub fn export_dir(&self) -> (d: Option<&str>)
        ensures
            match d {
                Some(d) => self.spec_export_dir() == Some(d@),
                None => self.spec_export_dir() is None,
            },
    {
        match &self.export_dir {
            Some(d) => Some(d.as_str()),
            None => None,
        }
    }

    /// Configures auto-save.
    pub fn configure_auto_save(&mut self, config: AutoSaveConfig)
        ensures
            final(self).spec_auto_save() == Some(config),
            final(self).spec_export_dir() == old(self).spec_export_dir(),
            final(self).spec_default_format() == old(self).spec_default_format(),
            final(self).spec_last_auto_save_step() == old(self).spec_last_auto_save_step(),
    {
        self.auto_save_config = Some(config);
    }

    /// Disables auto-save, keeping the rest of its configuration.
    pub fn disable_auto_save(&mut self)
        ensures
            final(self).spec_auto_save() == (match old(self).spec_auto_save() {
                Some(c) => Some(AutoSaveConfig { enabled: false, ..c }),
                None => None,
            }),
            final(self).spec_export_dir() == old(self).spec_export_dir(),
            final(self).spec_default_format() == old(self).spec_default_format(),
            final(self).spec_last_auto_save_step() == old(self).spec_last_auto_save_step(),
    {
        if let Some(config) = &mut self.auto_save_config {
            config.enabled = false;
        }
    }

    /// The export directory, or `NoExportDir` when none is set.
    pub fn require_export_dir(&self) -> (r: Result<String, ExportError>)
        ensures
            match r {
                Ok(d) => self.spec_export_dir() == Some(d@),
                Err(e) => self.spec_export_dir() is None && e is NoExportDir,
            },
    {
        match &self.export_dir {
            Some(d) => Ok(d.clone()),
            None => Err(ExportError::NoExportDir),
        }
    }

    /// Where a PLY export named `filename` is written: the file name (with
    /// `.ply` appended unless present) joined onto the export directory. Without
    /// an export directory the export is refused first, then an empty name
    /// (with the message `Empty filename`).
    pub fn ply_output_path(&self, filename: &str) -> (r: Result<String, ExportError>)
        ensures
            match r {
                Ok(p) => self.spec_export_dir() matches Some(d) && filename@.len() > 0
                    && p@ == joined(d, ply_name_of(filename@)),
                Err(e) => if self.spec_export_dir() is None {
                    e is NoExportDir
                } else {
                    filename@.len() == 0 && (e matches ExportError::InvalidFilename(m)
                        && m@ == seq!['E', 'm', 'p', 't', 'y', ' ', 'f', 'i', 'l', 'e', 'n', 'a', 'm', 'e'])
                },
            },
    {
        let dir = match self.require_export_dir() {
            Ok(d) => d,
            Err(e) => return Err(e),
        };
        match ply_file_name(filename) {
            Ok(name) => Ok(join(dir.as_str(), name.as_str())),
            Err(e) => Err(e),
        }
    }

    /// Decides whether an auto-save is due at `current_step`. When it is,
    /// records the step and returns what to save and clean up; otherwise
    /// changes nothing.
    pub fn check_auto_save(&mut self, current_step: u32) -> (plan: Option<AutoSavePlan>)
        requires
            !(old(self).spec_auto_save_enabled() && current_step != 0
                && current_step < old(self).spec_last_auto_save_step()),
        ensures
            old(self).spec_auto_save_due(current_step as nat) <==> plan is Some,
            match plan {
                Some(p) => {
                    let c = old(self).spec_auto_save().unwrap();
                    &&& p.file_name@ == autosave_name(c.prefix@, current_step as nat)
                    &&& p.format == c.format
                    &&& p.prefix@ == c.prefix@
                    &&& p.max_saves == c.max_saves
                    &&& final(self).spec_last_auto_save_step() == current_step
                },
                None => final(self).spec_last_auto_save_step() == old(self).spec_last_auto_save_step(),
            },
            final(self).spec_auto_save() == old(self).spec_auto_save(),
            final(self).spec_export_dir() == old(self).spec_export_dir(),
            final(self).spec_default_format() == old(self).spec_default_format(),
    {
        let plan = match &self.auto_save_config {
            Some(config) => {
                if !config.enabled || current_step == 0
                    || current_step - self.last_auto_save_step < config.interval_steps {
                    None
                } else {
                    let mut name = chars_of(config.prefix.as_str());
                    push_decimal(&mut name, current_step as u64);
                    Some(AutoSavePlan {
                        file_name: string_from_chars(&name),
                        format: config.format,
                        prefix: config.prefix.clone(),
                        max_saves: config.max_saves,
                    })
                }
            },
            None => None,
        };
        if plan.is_none() {
            return None;
        }
        self.last_auto_save_step = current_step;
        plan
    }

    /// Which directory entries a clean-up that keeps `max_saves` auto-saves
    /// with file names starting with `prefix` removes: every auto-save file
    /// past the `max_saves` with the highest steps (earlier entries first
    /// among equal steps), listed highest step first.
    pub fn autosaves_to_remove(entries: &Vec<DirEntryInfo>, prefix: &str, max_saves: u32) -> (r: Vec<usize>)
        ensures
            r@.map_values(|i: usize| i as int) == autosaves_removed(entries@, prefix@, max_saves as nat),
    {
        let p = chars_of(prefix);
        let ext = chars_of(".ply");
        proof {
            reveal_strlit(".ply");
        }
        assert(ext@ =~= ply_ext());
        let mut sorted: Vec<(usize, u32)> = Vec::new();
        let mut k: usize = 0;
        while k < entries.len()
            invariant
                k <= entries.len(),
                p@ == prefix@,
                ext@ == ply_ext(),
                sorted@.map_values(|c: (usize, u32)| (c.0 as int, c.1 as int))
                    == sort_by_step(autosave_candidates(entries@.take(k as int), prefix@)),
                forall|j: int| 0 <= j < sorted.len() ==> (#[trigger] sorted@[j]).0 < k,
            decreases entries.len() - k,
        {
            let ghost before = sorted@;
            let ghost es = entries@.take(k as int + 1);
            assert(es.drop_last() =~= entries@.take(k as int));
            assert(es.last() == entries@[k as int]);
            let step = Self::entry_step_of(&entries[k], &p, &ext);
            match step {
                Some(st) => {
                    let x = (k, st);
                    let mut pos = sorted.len();
                    while pos > 0 && !(sorted[pos - 1].1 > st || (sorted[pos - 1].1 == st && sorted[pos - 1].0 < k))
                        invariant
                            pos <= sorted.len(),
                            sorted@ == before,
                            forall|j: int| pos <= j < sorted.len() ==> !(#[trigger] sorted@[j].1 > st
                                || (sorted@[j].1 == st && sorted@[j].0 < k)),
                        decreases pos,
                    {
                        pos = pos - 1;
                    }
                    let ghost mapped = sorted@.map_values(|c: (usize, u32)| (c.0 as int, c.1 as int));
                    proof {
                        let xm = (k as int, st as int);
                        assert forall|j: int| pos <= j < mapped.len() implies !step_before(#[trigger] mapped[j], xm) by {
                            assert(mapped[j] == (sorted@[j].0 as int, sorted@[j].1 as int));
                        }
                        if pos > 0 {
                            assert(mapped[pos - 1] == (sorted@[pos - 1].0 as int, sorted@[pos - 1].1 as int));
                        }
                        lemma_insert_at(mapped, xm, pos as int);
                    }
                    sorted.insert(pos, x);
                    assert(sorted@.map_values(|c: (usize, u32)| (c.0 as int, c.1 as int))
                        =~= mapped.insert(pos as int, (k as int, st as int)));
                    proof {
                        let c0 = autosave_candidates(entries@.take(k as int), prefix@);
                        let c1 = autosave_candidates(es, prefix@);
                        assert(c1 == c0.push((k as int, st as int)));
                        assert(c1.drop_last() =~= c0);
                        assert(sort_by_step(c1) == insert_by_step(sort_by_step(c0), (k as int, st as int)));
                    }
                },
                None => {
                    assert(sorted@.map_values(|c: (usize, u32)| (c.0 as int, c.1 as int))
                        =~= sort_by_step(autosave_candidates(es, prefix@)));
                },
            }
            k = k + 1;
        }
        assert(entries@.take(k as int) =~= entries@);
        let ghost full = sort_by_step(autosave_candidates(entries@, prefix@));
        let mut r: Vec<usize> = Vec::new();
        if sorted.len() > max_saves as usize {
            let mut i: usize = max_saves as usize;
            while i < sorted.len()
                invariant
                    max_saves <= i <= sorted.len(),
                    sorted@.map_values(|c: (usize, u32)| (c.0 as int, c.1 as int)) == full,
                    r@.map_values(|i: usize| i as int)
                        == full.subrange(max_saves as int, i as int).map_values(|c: (int, int)| c.0),
                decreases sorted.len() - i,
            {
                let ghost old_r = r@;
                r.push(sorted[i].0);
                proof {
                    assert(full[i as int] == (sorted@[i as int].0 as int, sorted@[i as int].1 as int));
                    assert(full.subrange(max_saves as int, i + 1)
                        =~= full.subrange(max_saves as int, i as int).push(full[i as int]));
                    assert(r@ =~= old_r.push(sorted@[i as int].0));
                    assert(r@.map_values(|i: usize| i as int)
                        =~= old_r.map_values(|i: usize| i as int).push(sorted@[i as int].0 as int));
                }
                i = i + 1;
                assert(r@.map_values(|i: usize| i as int)
                    =~= full.subrange(max_saves as int, i as int).map_values(|c: (int, int)| c.0));
            }
            assert(full.subrange(max_saves as int, full.len() as int) =~= full.skip(max_saves as int));
        } else {
            assert(r@.map_values(|i: usize| i as int) =~= Seq::<int>::empty());
        }
        r
    }

    fn entry_step_of(e: &DirEntryInfo, prefix: &Vec<char>, ext: &Vec<char>) -> (r: Option<u32>)
        requires
            ext@ == ply_ext(),
        ensures
            match r {
                Some(s) => entry_step(*e, prefix@) == Some(s as nat),
                None => entry_step(*e, prefix@) is None,
            },
    {
        if e.is_dir {
            return None;
        }
        match &e.name {
            None => None,
            Some(n) => {
                let name = chars_of(n.as_str());
                if !starts_with(&name, prefix) {
                    return None;
                }
                let body = trim_suffixes(&trim_prefixes(&name, prefix), ext);
                match parse_unsigned_chars(&body, 0xffff_ffff) {
                    Some(v) => Some(v as u32),
                    None => None,
                }
            },
        }
    }
}


/// The name a PLY export gets for a non-empty requested name: the name
/// itself when it ends with `.ply`, otherwise the name with `.ply` added.
pub open spec fn ply_name_of(name: Seq<char>) -> Seq<char> {
    if has_suffix(name, ply_ext()) {
        name
    } else {
        name + ply_ext()
    }
}

/// Naming is idempotent: a name that `ply_file_name` produced comes back
/// unchanged when asked for again.
pub proof fn lemma_ply_name_idempotent(name: Seq<char>)
    ensures
        has_suffix(ply_name_of(name), ply_ext()),
        ply_name_of(ply_name_of(name)) == ply_name_of(name),
{
    if !has_suffix(name, ply_ext()) {
        let n = name + ply_ext();
        assert(n.skip(n.len() - ply_ext().len()) =~= ply_ext());
    }
}

/// The file name a PLY export uses: `.ply` is appended unless the name
/// already ends with it; an empty name is refused.
pub fn ply_file_name(filename: &str) -> (r: Result<String, ExportError>)
    ensures
        match r {
            Ok(n) => filename@.len() > 0 && n@ == ply_name_of(filename@),
            Err(e) => filename@.len() == 0 && (e matches ExportError::InvalidFilename(m)
                && m@ == seq!['E', 'm', 'p', 't', 'y', ' ', 'f', 'i', 'l', 'e', 'n', 'a', 'm', 'e']),
        },
{
    let name = chars_of(filename);
    if name.len() == 0 {
        let m = String::from_str("Empty filename");
        proof {
            reveal_strlit("Empty filename");
        }
        assert(m@ =~= seq!['E', 'm', 'p', 't', 'y', ' ', 'f', 'i', 'l', 'e', 'n', 'a', 'm', 'e']);
        return Err(ExportError::InvalidFilename(m));
    }
    let ext = chars_of(".ply");
    proof {
        reveal_strlit(".ply");
    }
    assert(ext@ =~= ply_ext());
    if ends_with(&name, &ext) {
        Ok(string_from_chars(&name))
    } else {
        let mut full = name;
        let mut i: usize = 0;
        let ghost base = full@;
        while i < ext.len()
            invariant
                i <= ext.len(),
                full@ == base + ext@.take(i as int),
            decreases ext.len() - i,
        {
            full.push(ext[i]);
            i = i + 1;
            assert(full@ =~= base + ext@.take(i as int));
        }
        assert(ext@.take(4) =~= ext@);
        Ok(string_from_chars(&full))
    }
}

/// The file name used for the `index`-th dataset of a bulk export:
/// `dataset_<index>`.
pub fn dataset_export_name(index: usize) -> (n: String)
    ensures
        n@ == seq!['d', 'a', 't', 'a', 's', 'e', 't', '_'] + dec_chars(index as nat),
{
    let mut v = chars_of("dataset_");
    proof {
        reveal_strlit("dataset_");
    }
    let ghost start = v@;
    assert(start =~= seq!['d', 'a', 't', 'a', 's', 'e', 't', '_']);
    push_decimal(&mut v, index as u64);
    string_from_chars(&v)
}

} // verus!
