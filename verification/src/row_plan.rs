//! The row plan of reading the vertices of a plain or chunked PLY: which
//! rows are read, which are kept, after which rows the splats read so far
//! are sent, and when reading stops for lack of quantization chunks.
//!
//! Whether a row read holds finite values is decided by the caller, which
//! decodes the floats, and handed in.

use vstd::prelude::*;
use crate::ply::{chunk_of_vertex, emit_after_vertex, keep_vertex, update_every};

verus! {

/// What happens to a row before its values are read.
#[derive(Debug, Clone, Copy, PartialEq, Eq, Structural)]
pub enum RowRead {
    /// The row is passed over by subsampling.
    Skip,
    /// No quantization chunk covers the row: reading stops with an error.
    MissingChunk,
    /// The row is read (with the chunk that quantizes it, for a chunked
    /// file).
    Read { chunk: Option<usize> },
}

/// What became of a row.
#[derive(Debug, Clone, Copy, PartialEq, Eq, Structural)]
pub enum RowOutcome {
    /// Passed over by subsampling.
    Skipped,
    /// Read, but its values are not finite: left out.
    Dropped,
    /// Read and kept; `emit` tells whether the splats kept so far are sent
    /// right after it.
    Kept { emit: bool },
}

/// The decision for row `i` before it is read: subsampling first, then
/// (for a chunked file with `chunk_count` chunks of 256 rows) the chunk.
pub open spec fn row_read_of(i: int, subsample: Option<u32>, chunk_count: Option<usize>) -> RowRead {
    let kept = match subsample {
        Some(s) => i % (s as int) == 0,
        None => true,
    };
    if !kept {
        RowRead::Skip
    } else {
        match chunk_count {
            Some(n) => if i / 256 < n {
                RowRead::Read { chunk: Some((i / 256) as usize) }
            } else {
                RowRead::MissingChunk
            },
            None => RowRead::Read { chunk: None },
        }
    }
}

/// Decides what happens to row `i` before it is read.
pub fn row_read(i: usize, subsample: Option<u32>, chunk_count: Option<usize>) -> (r: RowRead)
    requires
        subsample != Some(0u32),
    ensures
        r == row_read_of(i as int, subsample, chunk_count),
{
    if !keep_vertex(i, subsample) {
        return RowRead::Skip;
    }
    match chunk_count {
        Some(n) => match chunk_of_vertex(i, n) {
            Some(c) => RowRead::Read { chunk: Some(c) },
            None => RowRead::MissingChunk,
        },
        None => RowRead::Read { chunk: None },
    }
}

/// The row plan for the first `n` of `count` rows: the outcome of each row
/// handled (row `k` at position `k`), the row of the last send (0 before
/// any), and whether reading stopped for a missing chunk.
pub open spec fn row_plan_of(
    count: nat,
    subsample: Option<u32>,
    chunk_count: Option<usize>,
    finite: Seq<bool>,
    n: nat,
) -> (Seq<RowOutcome>, nat, bool)
    decreases n,
{
    if n == 0 {
        (Seq::empty(), 0, false)
    } else {
        let (outs, last, stopped) = row_plan_of(count, subsample, chunk_count, finite, (n - 1) as nat);
        let i = n - 1;
        if stopped {
            (outs, last, true)
        } else {
            match row_read_of(i, subsample, chunk_count) {
                RowRead::Skip => (outs.push(RowOutcome::Skipped), last, false),
                RowRead::MissingChunk => (outs, last, true),
                RowRead::Read { .. } => if finite[i] {
                    let emit = i - last >= (count + 19) / 20 || i == count - 1;
                    (outs.push(RowOutcome::Kept { emit }), if emit {
                        i as nat
                    } else {
                        last
                    }, false)
                } else {
                    (outs.push(RowOutcome::Dropped), last, false)
                },
            }
        }
    }
}

/// The row of the last send among the first `j` outcomes (0 before any).
pub open spec fn last_emit_before(outs: Seq<RowOutcome>, j: int) -> nat
    decreases j,
{
    if j <= 0 {
        0
    } else if outs[j - 1] == (RowOutcome::Kept { emit: true }) {
        (j - 1) as nat
    } else {
        last_emit_before(outs, j - 1)
    }
}

/// When the splats read so far are sent, and after which row they last
/// were.
#[derive(Debug, Clone, Copy, PartialEq, Eq, Structural)]
pub struct RowSchedule {
    /// The number of rows.
    pub count: usize,
    /// How many rows pass between sends: `count / 20`, rounded up.
    pub every: usize,
    /// The row after which the splats were last sent (0 before any).
    pub last_update: usize,
}

impl RowSchedule {
    /// The schedule for `count` rows, before any is read.
    pub fn new(count: usize) -> (s: Self)
        ensures
            s.count == count,
            s.every == (count + 19) / 20,
            s.last_update == 0,
    {
        RowSchedule { count, every: update_every(count), last_update: 0 }
    }

    /// After row `i` was read: a row with values that are not finite is
    /// left out and sends nothing; a kept row sends the splats read so far
    /// when at least `every` rows passed since the last send, or when it is
    /// the last row.
    pub fn after_read(&mut self, i: usize, finite: bool) -> (emit: bool)
        requires
            old(self).last_update <= i < old(self).count,
        ensures
            emit == (finite && (i - old(self).last_update >= old(self).every || i == old(self).count
                - 1)),
            final(self).count == old(self).count,
            final(self).every == old(self).every,
            final(self).last_update == if emit {
                i
            } else {
                old(self).last_update
            },
    {
        if !finite {
            return false;
        }
        let emit = emit_after_vertex(i, self.last_update, self.every, self.count);
        if emit {
            self.last_update = i;
        }
        emit
    }
}

/// The row plan for `count` rows, given which rows hold finite values
/// (consulted only for rows that are read): the outcome of each row handled
/// and whether reading stopped for a missing chunk (the outcomes then cover
/// the rows before it).
pub fn row_plan(count: usize, subsample: Option<u32>, chunk_count: Option<usize>, finite: &Vec<
    bool,
>) -> (r: (Vec<RowOutcome>, bool))
    requires
        finite@.len() == count,
        subsample != Some(0u32),
    ensures
        ({
            let (outs, _, stopped) = row_plan_of(
                count as nat,
                subsample,
                chunk_count,
                finite@,
                count as nat,
            );
            r.0@ == outs && r.1 == stopped
        }),
{
    let mut sched = RowSchedule::new(count);
    let mut outs: Vec<RowOutcome> = Vec::new();
    let mut i: usize = 0;
    while i < count
        invariant
            i <= count,
            finite@.len() == count,
            subsample != Some(0u32),
            sched.count == count,
            sched.every == (count + 19) / 20,
            row_plan_of(count as nat, subsample, chunk_count, finite@, i as nat) == (
                outs@,
                sched.last_update as nat,
                false,
            ),
            sched.last_update <= i,
        decreases count - i,
    {
        match row_read(i, subsample, chunk_count) {
            RowRead::Skip => {
                outs.push(RowOutcome::Skipped);
            },
            RowRead::MissingChunk => {
                proof {
                    lemma_plan_stays_stopped(count as nat, subsample, chunk_count, finite@, i as nat + 1, count as nat);
                }
                return (outs, true);
            },
            RowRead::Read { .. } => {
                let emit = sched.after_read(i, finite[i]);
                if finite[i] {
                    outs.push(RowOutcome::Kept { emit });
                } else {
                    outs.push(RowOutcome::Dropped);
                }
            },
        }
        i = i + 1;
    }
    (outs, false)
}

/// Once reading has stopped, later rows change nothing.
proof fn lemma_plan_stays_stopped(
    count: nat,
    subsample: Option<u32>,
    chunk_count: Option<usize>,
    finite: Seq<bool>,
    n: nat,
    m: nat,
)
    requires
        n <= m,
        row_plan_of(count, subsample, chunk_count, finite, n).2,
    ensures
        row_plan_of(count, subsample, chunk_count, finite, m) == row_plan_of(
            count,
            subsample,
            chunk_count,
            finite,
            n,
        ),
    decreases m - n,
{
    if n < m {
        lemma_plan_stays_stopped(count, subsample, chunk_count, finite, n, (m - 1) as nat);
    }
}

proof fn lemma_last_emit_push(outs: Seq<RowOutcome>, x: RowOutcome, j: int)
    requires
        0 <= j <= outs.len(),
    ensures
        last_emit_before(outs.push(x), j) == last_emit_before(outs, j),
    decreases j,
{
    if j > 0 {
        assert(outs.push(x)[j - 1] == outs[j - 1]);
        lemma_last_emit_push(outs, x, j - 1);
    }
}

/// Sends are spaced: each send after a row other than the last comes at
/// least `count / 20` (rounded up) rows after the previous send (or after
/// row 0), and a kept last row always sends. Row `k`'s outcome stands at
/// position `k`, and the schedule's last send is the last `Kept` row that
/// sends.
pub proof fn lemma_sends_spaced(
    count: nat,
    subsample: Option<u32>,
    chunk_count: Option<usize>,
    finite: Seq<bool>,
    n: nat,
)
    requires
        n <= count,
    ensures
        ({
            let (outs, last, stopped) = row_plan_of(count, subsample, chunk_count, finite, n);
            &&& outs.len() <= n
            &&& !stopped ==> outs.len() == n
            &&& last == last_emit_before(outs, outs.len() as int)
            &&& forall|j: int|
                0 <= j < outs.len() && #[trigger] outs[j] == (RowOutcome::Kept { emit: true }) && j
                    != count - 1 ==> j - last_emit_before(outs, j) >= (count + 19) / 20
            &&& forall|j: int|
                0 <= j < outs.len() && j == count - 1 && #[trigger] outs[j] is Kept ==> outs[j]
                    == (RowOutcome::Kept { emit: true })
        }),
    decreases n,
{
    if n > 0 {
        lemma_sends_spaced(count, subsample, chunk_count, finite, (n - 1) as nat);
        let (outs, last, stopped) = row_plan_of(count, subsample, chunk_count, finite, (n - 1) as nat);
        let (outs2, last2, stopped2) = row_plan_of(count, subsample, chunk_count, finite, n);
        if !stopped && outs2.len() == outs.len() + 1 {
            let x = outs2.last();
            assert(outs2 =~= outs.push(x));
            assert forall|j: int| 0 <= j <= outs.len() implies last_emit_before(outs2, j)
                == last_emit_before(outs, j) by {
                lemma_last_emit_push(outs, x, j);
            }
            assert forall|j: int|
                0 <= j < outs2.len() && #[trigger] outs2[j] == (RowOutcome::Kept { emit: true })
                    && j != count - 1 implies j - last_emit_before(outs2, j) >= (count + 19)
                / 20 by {
                if j < outs.len() {
                    assert(outs2[j] == outs[j]);
                }
            }
            assert forall|j: int|
                0 <= j < outs2.len() && j == count - 1 && #[trigger] outs2[j] is Kept implies outs2[j]
                == (RowOutcome::Kept { emit: true }) by {
                if j < outs.len() {
                    assert(outs2[j] == outs[j]);
                }
            }
        }
    }
}

} // verus!
