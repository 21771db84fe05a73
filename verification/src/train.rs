//! What a training step triggers after it finishes, and how periodic exports
//! are named.

use vstd::prelude::*;
use crate::size_format::{dec_chars, pow10, push_decimal};
use crate::library::push_str;
use crate::paths::{file_stem, file_stem_of, join, joined};
use crate::text::{chars_of, has_prefix, matches_at, string_from_chars};

verus! {

/// How often the interface is refreshed, in training steps.
pub const UPDATE_EVERY: u32 = 5;

/// What happens after training step `iter` (counted from 1) finishes.
#[derive(Debug, Clone, Copy, PartialEq, Eq, Structural)]
pub struct TrainStepPlan {
    /// This was the last step.
    pub last_step: bool,
    /// Evaluate on the evaluation views.
    pub eval: bool,
    /// Export the splats to a PLY file.
    pub export: bool,
    /// Send the full splat cloud to the visualizer.
    pub log_splats: bool,
    /// Send the splats and statistics to the interface.
    pub update_ui: bool,
    /// Send the training statistics to the visualizer.
    pub log_train_stats: bool,
}

/// Decides what follows a finished training step. `iter` is the number of
/// steps done; each periodic action happens when `iter` is a multiple of its
/// period, and all of them happen after the last step.
pub fn plan_train_step(
    iter: u32,
    total_steps: u32,
    eval_every: u32,
    export_every: u32,
    log_splats_every: Option<u32>,
    log_stats_every: u32,
) -> (p: TrainStepPlan)
    requires
        eval_every > 0,
        export_every > 0,
        log_stats_every > 0,
        log_splats_every != Some(0u32),
    ensures
        p.last_step == (iter == total_steps),
        p.eval == (iter % eval_every == 0 || iter == total_steps),
        p.export == (iter % export_every == 0 || iter == total_steps),
        p.log_splats == (match log_splats_every {
            Some(e) => iter % e == 0 || iter == total_steps,
            None => false,
        }),
        p.update_ui == (iter % UPDATE_EVERY == 0 || iter == total_steps),
        p.log_train_stats == (iter % log_stats_every == 0 || iter == total_steps),
{
    let last_step = iter == total_steps;
    TrainStepPlan {
        last_step,
        eval: iter % eval_every == 0 || last_step,
        export: iter % export_every == 0 || last_step,
        log_splats: match log_splats_every {
            Some(e) => iter % e == 0 || last_step,
            None => false,
        },
        update_ui: iter % UPDATE_EVERY == 0 || last_step,
        log_train_stats: iter % log_stats_every == 0 || last_step,
    }
}

/// The number of digits exports are numbered with for `total` steps:
/// the least `d` with `10^d >= total` (the ceiling of its base-10 logarithm).
pub open spec fn digits_for(total: nat, d: nat) -> bool {
    pow10(d) >= total && (d == 0 || pow10((d - 1) as nat) < total)
}

proof fn lemma_pow10_pos(d: nat)
    ensures
        pow10(d) >= 1,
    decreases d,
{
    if d > 0 {
        lemma_pow10_pos((d - 1) as nat);
    }
}

/// The width export numbers are padded to for `total_steps` steps.
pub fn export_digits(total_steps: u32) -> (d: usize)
    ensures
        digits_for(total_steps as nat, d as nat),
{
    let mut d: usize = 0;
    let mut p: u64 = 1;
    proof {
        reveal_with_fuel(pow10, 2);
    }
    while p < total_steps as u64
        invariant
            p == pow10(d as nat),
            p >= 1,
            d <= p,
            d == 0 || pow10((d - 1) as nat) < total_steps,
            p <= 10 * 0xffff_ffffu64,
        decreases if p <= total_steps as u64 { total_steps as u64 - p } else { 0 },
    {
        p = p * 10;
        d = d + 1;
        assert(pow10(d as nat) == 10 * pow10((d - 1) as nat));
    }
    d
}

/// `dec_chars(n)` padded on the left with zeros to at least `w` characters.
pub open spec fn zero_padded(n: nat, w: nat) -> Seq<char> {
    let s = dec_chars(n);
    if s.len() < w {
        Seq::new((w - s.len()) as nat, |i: int| '0') + s
    } else {
        s
    }
}

/// `s` with each non-overlapping occurrence of `p`, scanning from the left,
/// replaced by `r` (`p` must not be empty).
pub open spec fn replace_all(s: Seq<char>, p: Seq<char>, r: Seq<char>) -> Seq<char>
    recommends
        p.len() > 0,
    decreases s.len(),
{
    if s.len() == 0 || p.len() == 0 {
        s
    } else if has_prefix(s, p) {
        r + replace_all(s.skip(p.len() as int), p, r)
    } else {
        seq![s[0]] + replace_all(s.skip(1), p, r)
    }
}

/// The name of the export made after `iter` of `total_steps` steps:
/// `export_name` with each `{iter}` replaced by `iter` padded with zeros to
/// the width `export_digits` gives.
pub fn export_file_for_iter(export_name: &str, iter: u32, total_steps: u32) -> (r: String)
    ensures
        exists|w: nat| #[trigger] digits_for(total_steps as nat, w)
            && r@ == replace_all(export_name@, "{iter}"@, zero_padded(iter as nat, w)),
{
    let w = export_digits(total_steps);
    let mut num: Vec<char> = Vec::new();
    push_decimal(&mut num, iter as u64);
    let mut padded: Vec<char> = Vec::new();
    if num.len() < w {
        let z = w - num.len();
        let mut k: usize = 0;
        while k < z
            invariant
                k <= z,
                padded@ == Seq::new(k as nat, |i: int| '0'),
            decreases z - k,
        {
            padded.push('0');
            k = k + 1;
            assert(padded@ =~= Seq::new(k as nat, |i: int| '0'));
        }
    }
    let ghost zeros = padded@;
    let mut k: usize = 0;
    while k < num.len()
        invariant
            k <= num.len(),
            padded@ == zeros + num@.take(k as int),
        decreases num.len() - k,
    {
        padded.push(num[k]);
        k = k + 1;
        assert(padded@ =~= zeros + num@.take(k as int));
    }
    assert(num@.take(num@.len() as int) =~= num@);
    assert(num@ == dec_chars(iter as nat));
    assert(padded@ =~= zero_padded(iter as nat, w as nat));
    let pat = chars_of("{iter}");
    proof {
        reveal_strlit("{iter}");
    }
    assert(pat@.len() == 6);
    let s = chars_of(export_name);
    let out = replace_chars(&s, &pat, &padded);
    let r = string_from_chars(&out);
    assert(digits_for(total_steps as nat, w as nat));
    r
}

/// `s` with each occurrence of `p` replaced by `r`, scanning from the left.
pub fn replace_chars(s: &Vec<char>, p: &Vec<char>, r: &Vec<char>) -> (o: Vec<char>)
    requires
        p@.len() > 0,
    ensures
        o@ == replace_all(s@, p@, r@),
{
    let mut out: Vec<char> = Vec::new();
    let mut i: usize = 0;
    assert(s@.skip(0) =~= s@);
    while i < s.len()
        invariant
            i <= s.len(),
            p@.len() > 0,
            out@ + replace_all(s@.skip(i as int), p@, r@) == replace_all(s@, p@, r@),
        decreases s.len() - i,
    {
        let ghost t = s@.skip(i as int);
        let ghost before = out@;
        if matches_at(s, p, i) {
            assert(has_prefix(t, p@)) by {
                assert(t.take(p@.len() as int) =~= s@.subrange(i as int, i + p@.len()));
            }
            assert(t.skip(p@.len() as int) =~= s@.skip(i + p@.len()));
            let mut k: usize = 0;
            while k < r.len()
                invariant
                    k <= r.len(),
                    out@ == before + r@.take(k as int),
                decreases r.len() - k,
            {
                out.push(r[k]);
                k = k + 1;
                assert(out@ =~= before + r@.take(k as int));
            }
            assert(r@.take(r@.len() as int) =~= r@);
            assert(before + (r@ + replace_all(t.skip(p@.len() as int), p@, r@))
                =~= out@ + replace_all(s@.skip(i + p@.len()), p@, r@));
            i = i + p.len();
        } else {
            assert(!has_prefix(t, p@)) by {
                if has_prefix(t, p@) {
                    assert(s@.subrange(i as int, i + p@.len()) =~= t.take(p@.len() as int));
                }
            }
            out.push(s[i]);
            assert(t.skip(1) =~= s@.skip(i + 1));
            assert(before + (seq![t[0]] + replace_all(t.skip(1), p@, r@))
                =~= out@ + replace_all(s@.skip(i + 1), p@, r@));
            i = i + 1;
        }
    }
    assert(s@.skip(i as int) =~= Seq::<char>::empty());
    assert(out@ + Seq::<char>::empty() =~= out@);
    out
}

/// Where periodic exports go: the configured directory, else `.`.
pub fn export_dir_or_default(export_path: Option<&str>) -> (r: String)
    ensures
        r@ == (match export_path {
            Some(p) => p@,
            None => "."@,
        }),
{
    match export_path {
        Some(p) => string_from_chars(&chars_of(p)),
        None => string_from_chars(&chars_of(".")),
    }
}

/// Where the periodic export after step `iter` is written: the export file
/// name for that step, in the export directory (`.` when none is set).
pub fn export_target(export_path: Option<&str>, export_name: &str, iter: u32, total_steps: u32) -> (r:
    String)
    ensures
        exists|w: nat| #[trigger] digits_for(total_steps as nat, w) && r@ == joined(
            match export_path {
                Some(p) => p@,
                None => "."@,
            },
            replace_all(export_name@, "{iter}"@, zero_padded(iter as nat, w)),
        ),
{
    let dir = export_dir_or_default(export_path);
    let name = export_file_for_iter(export_name, iter, total_steps);
    join(dir.as_str(), name.as_str())
}

/// `eval_<iter>`
pub open spec fn eval_dir_name(iter: u32) -> Seq<char> {
    "eval_"@ + dec_chars(iter as nat)
}

/// Where the rendered evaluation of a view is saved: `<stem>.png` in the
/// directory `eval_<iter>` of the export directory, `stem` being the file
/// stem of the view's path.
pub fn eval_image_path(export_path: Option<&str>, iter: u32, view_path: &str) -> (r: String)
    requires
        file_stem_of(view_path@) is Some,
    ensures
        r@ == joined(
            joined(
                match export_path {
                    Some(p) => p@,
                    None => "."@,
                },
                eval_dir_name(iter),
            ),
            file_stem_of(view_path@).unwrap() + ".png"@,
        ),
{
    let dir = export_dir_or_default(export_path);
    let mut sub: Vec<char> = Vec::new();
    push_str(&mut sub, "eval_");
    push_decimal(&mut sub, iter as u64);
    let sub = string_from_chars(&sub);
    let stem = match file_stem(view_path) {
        Some(s) => s,
        None => String::new(),
    };
    let mut name = chars_of(stem.as_str());
    push_str(&mut name, ".png");
    let name = string_from_chars(&name);
    join(join(dir.as_str(), sub.as_str()).as_str(), name.as_str())
}

/// The path `eval_image_path` gives, or `None` when the view's path has no
/// file stem (where an evaluation cannot be saved).
pub fn try_eval_image_path(export_path: Option<&str>, iter: u32, view_path: &str) -> (r: Option<
    String,
>)
    ensures
        r is None <==> file_stem_of(view_path@) is None,
        r matches Some(p) ==> p@ == joined(
            joined(
                match export_path {
                    Some(q) => q@,
                    None => "."@,
                },
                eval_dir_name(iter),
            ),
            file_stem_of(view_path@).unwrap() + ".png"@,
        ),
{
    match file_stem(view_path) {
        Some(_) => Some(eval_image_path(export_path, iter, view_path)),
        None => None,
    }
}

} // verus!
