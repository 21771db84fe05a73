//! What the command line shows while a process runs: the status line for
//! each process event, the loading and evaluation lines, and how long
//! training took (written by `humantime`).

use vstd::prelude::*;
use crate::control::ProcessEvent;
use crate::library::push_str;
use crate::size_format::{dec_chars, push_decimal};
use crate::text::string_from_chars;

verus! {

/// One piece of a written duration: the count and its unit (with an `s`
/// for a plural when `plural` is set), or nothing for a count of zero.
pub open spec fn duration_piece(value: nat, unit: Seq<char>, plural: bool) -> Seq<char> {
    if value == 0 {
        Seq::empty()
    } else if plural && value > 1 {
        dec_chars(value) + unit + "s"@
    } else {
        dec_chars(value) + unit
    }
}

/// The non-empty pieces, separated by single spaces.
pub open spec fn join_pieces(pieces: Seq<Seq<char>>) -> Seq<char>
    decreases pieces.len(),
{
    if pieces.len() == 0 {
        Seq::empty()
    } else {
        let head = join_pieces(pieces.drop_last());
        let last = pieces.last();
        if last.len() == 0 {
            head
        } else if head.len() == 0 {
            last
        } else {
            head + " "@ + last
        }
    }
}

/// How `humantime::format_duration` writes a duration of `secs` whole
/// seconds: `0s` for none; otherwise years of 365.25 days, months of 30.44
/// days, days, hours, minutes and seconds, each only when not zero, as in
/// `1year 2months 3days 4h 5m 6s`.
pub open spec fn humantime_text(secs: u64) -> Seq<char> {
    if secs == 0 {
        "0s"@
    } else {
        let years = secs / 31_557_600;
        let ydays = secs % 31_557_600;
        let months = ydays / 2_630_016;
        let mdays = ydays % 2_630_016;
        let days = mdays / 86400;
        let day_secs = mdays % 86400;
        join_pieces(
            seq![
                duration_piece(years as nat, "year"@, true),
                duration_piece(months as nat, "month"@, true),
                duration_piece(days as nat, "day"@, true),
                duration_piece((day_secs / 3600) as nat, "h"@, false),
                duration_piece((day_secs % 3600 / 60) as nat, "m"@, false),
                duration_piece((day_secs % 60) as nat, "s"@, false),
            ],
        )
    }
}

/// Calls `humantime::format_duration` on whole seconds and renders it (its
/// `Display` writes the pieces described by `humantime_text`).
#[verifier::external_body]
fn duration_text(secs: u64) -> (r: String)
    ensures
        r@ == humantime_text(secs),
{
    humantime::format_duration(std::time::Duration::from_secs(secs)).to_string()
}

/// The closing line of a training run: `Training took ` and the duration in
/// whole seconds, as `humantime` writes it.
pub fn training_took(total_secs: u64) -> (r: String)
    ensures
        r@ == "Training took "@ + humantime_text(total_secs),
{
    let mut out: Vec<char> = Vec::new();
    push_str(&mut out, "Training took ");
    let d = duration_text(total_secs);
    push_str(&mut out, d.as_str());
    string_from_chars(&out)
}

/// The status line after a process event, if it changes.
pub open spec fn status_of(event: ProcessEvent) -> Option<Seq<char>> {
    match event {
        ProcessEvent::NewSource => Some("Starting process..."@),
        ProcessEvent::StartLoading { training } => if training {
            Some("Loading data..."@)
        } else {
            None
        },
        ProcessEvent::DoneLoading { .. } => Some("Dataset loaded"@),
        ProcessEvent::TrainStep { .. } => Some("Training"@),
        _ => None,
    }
}

/// The status line after a process event, if it changes.
pub fn status_line(event: ProcessEvent) -> (r: Option<String>)
    ensures
        match r {
            Some(s) => status_of(event) == Some(s@),
            None => status_of(event) is None,
        },
{
    let lit = match event {
        ProcessEvent::NewSource => "Starting process...",
        ProcessEvent::StartLoading { training } => {
            if !training {
                return None;
            }
            "Loading data..."
        },
        ProcessEvent::DoneLoading { .. } => "Dataset loaded",
        ProcessEvent::TrainStep { .. } => "Training",
        _ => {
            return None;
        },
    };
    let mut out: Vec<char> = Vec::new();
    push_str(&mut out, lit);
    Some(string_from_chars(&out))
}

/// Whether the command line stops at this event: it only trains, so a
/// load for viewing ends it.
pub fn stops_at(event: ProcessEvent) -> (r: bool)
    ensures
        r == (event == ProcessEvent::StartLoading { training: false }),
{
    match event {
        ProcessEvent::StartLoading { training } => !training,
        _ => false,
    }
}

/// The step the progress bar moves to, for a training step.
pub fn progress_position(event: ProcessEvent) -> (r: Option<u64>)
    ensures
        r == match event {
            ProcessEvent::TrainStep { iter } => Some(iter as u64),
            _ => None,
        },
{
    match event {
        ProcessEvent::TrainStep { iter } => Some(iter as u64),
        _ => None,
    }
}

/// `Loading data... <train> training, <eval> eval views`
pub fn loading_line(train_views: usize, eval_views: usize) -> (r: String)
    ensures
        r@ == "Loading data... "@ + dec_chars(train_views as nat) + " training, "@ + dec_chars(
            eval_views as nat,
        ) + " eval views"@,
{
    let mut out: Vec<char> = Vec::new();
    push_str(&mut out, "Loading data... ");
    push_decimal(&mut out, train_views as u64);
    push_str(&mut out, " training, ");
    push_decimal(&mut out, eval_views as u64);
    push_str(&mut out, " eval views");
    string_from_chars(&out)
}

/// `evaluating every <n> steps`, or, once the evaluation views are known,
/// `evaluating <v> views every <n> steps`.
pub fn eval_line(eval_every: u32, eval_views: Option<usize>) -> (r: String)
    ensures
        r@ == match eval_views {
            None => "evaluating every "@ + dec_chars(eval_every as nat) + " steps"@,
            Some(v) => "evaluating "@ + dec_chars(v as nat) + " views every "@ + dec_chars(
                eval_every as nat,
            ) + " steps"@,
        },
{
    let mut out: Vec<char> = Vec::new();
    match eval_views {
        None => {
            push_str(&mut out, "evaluating every ");
        },
        Some(v) => {
            push_str(&mut out, "evaluating ");
            push_decimal(&mut out, v as u64);
            push_str(&mut out, " views every ");
        },
    }
    push_decimal(&mut out, eval_every as u64);
    push_str(&mut out, " steps");
    string_from_chars(&out)
}

/// `Current splat count <n>`
pub fn splat_count_line(count: u32) -> (r: String)
    ensures
        r@ == "Current splat count "@ + dec_chars(count as nat),
{
    let mut out: Vec<char> = Vec::new();
    push_str(&mut out, "Current splat count ");
    push_decimal(&mut out, count as u64);
    string_from_chars(&out)
}

} // verus!
