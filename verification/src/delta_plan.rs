//! The control plan of reading a delta-compressed PLY: which element is read
//! as what, which frame number each emitted splat carries, and when the
//! reading stops because a delta frame comes before the base splat.
//!
//! The values themselves (floats) are read and decoded by the caller, one
//! step at a time.

use vstd::prelude::*;
use crate::ply::{delta_element, delta_element_of, DeltaElement, PlyHeaderInfo, PlyElementInfo};

verus! {

/// Where the reading of a delta-compressed PLY stands.
#[derive(Debug, Clone, Copy, PartialEq, Eq, Structural)]
pub struct DeltaReadState {
    /// Whether the base splat (`vertex`) has been read.
    pub base_read: bool,
    /// The number of the next frame to emit.
    pub frame: u32,
}

/// What to do with one element of a delta-compressed PLY.
#[derive(Debug, Clone, Copy, PartialEq, Eq, Structural)]
pub enum DeltaStep {
    /// Read the base splat, emitting it as frame `frame`.
    ReadBase { frame: u32 },
    /// Read the lower quantization bounds of the next deltas.
    ReadMetaMin,
    /// Read the upper quantization bounds of the next deltas.
    ReadMetaMax,
    /// Read a frame of deltas onto the base splat, emitting it as frame
    /// `frame`.
    ReadDelta { frame: u32 },
    /// Nothing is done with the element.
    Skip,
}

/// Why reading a delta-compressed PLY stops.
#[derive(Debug, Clone, Copy, PartialEq, Eq, Structural)]
pub enum DeltaPlanError {
    /// A frame of deltas comes before the base splat.
    BaseMissing,
}

impl DeltaPlanError {
    /// The message of the error.
    pub fn message(&self) -> (m: String)
        ensures
            m@ == "Need to read base splat first."@,
    {
        String::from_str("Need to read base splat first.")
    }
}

/// The state before any element is read.
pub open spec fn initial_delta_state() -> DeltaReadState {
    DeltaReadState { base_read: false, frame: 0 }
}

/// What an element named `name` does, in state `s`: the next state and the
/// step, or the error that stops the reading.
pub open spec fn delta_transition(s: DeltaReadState, name: Seq<char>) -> Result<
    (DeltaReadState, DeltaStep),
    DeltaPlanError,
> {
    match delta_element_of(name) {
        DeltaElement::Base => Ok(
            (DeltaReadState { base_read: true, ..s }, DeltaStep::ReadBase { frame: s.frame }),
        ),
        DeltaElement::MetaMin => Ok((s, DeltaStep::ReadMetaMin)),
        DeltaElement::MetaMax => Ok((s, DeltaStep::ReadMetaMax)),
        DeltaElement::Delta => if s.base_read {
            Ok(
                (
                    DeltaReadState { frame: (s.frame + 1) as u32, ..s },
                    DeltaStep::ReadDelta { frame: s.frame },
                ),
            )
        } else {
            Err(DeltaPlanError::BaseMissing)
        },
        DeltaElement::Other => Ok((s, DeltaStep::Skip)),
    }
}

/// The number of names that are frames of deltas.
pub open spec fn delta_names_in(names: Seq<Seq<char>>) -> nat
    decreases names.len(),
{
    if names.len() == 0 {
        0
    } else {
        delta_names_in(names.drop_last()) + if delta_element_of(names.last()) is Delta {
            1nat
        } else {
            0nat
        }
    }
}

/// The plan for elements named `names`, in order: the state after the steps
/// taken, the steps, and the error that stopped the reading (the steps are
/// those of the elements before it).
pub open spec fn delta_plan_of(names: Seq<Seq<char>>) -> (
    DeltaReadState,
    Seq<DeltaStep>,
    Option<DeltaPlanError>,
)
    decreases names.len(),
{
    if names.len() == 0 {
        (initial_delta_state(), Seq::empty(), None)
    } else {
        let (s, steps, err) = delta_plan_of(names.drop_last());
        if err is Some {
            (s, steps, err)
        } else {
            match delta_transition(s, names.last()) {
                Ok((s2, st)) => (s2, steps.push(st), None),
                Err(e) => (s, steps, Some(e)),
            }
        }
    }
}

/// The number of delta steps among `steps`.
pub open spec fn delta_steps_in(steps: Seq<DeltaStep>) -> nat
    decreases steps.len(),
{
    if steps.len() == 0 {
        0
    } else {
        delta_steps_in(steps.drop_last()) + if steps.last() is ReadDelta {
            1nat
        } else {
            0nat
        }
    }
}

/// The frame number a step emits, if it emits one.
pub open spec fn emitted_frame(st: DeltaStep) -> Option<u32> {
    match st {
        DeltaStep::ReadBase { frame } => Some(frame),
        DeltaStep::ReadDelta { frame } => Some(frame),
        _ => None,
    }
}

/// The names of some elements.
pub open spec fn element_names(es: Seq<PlyElementInfo>) -> Seq<Seq<char>> {
    es.map_values(|e: PlyElementInfo| e.name@)
}

impl DeltaReadState {
    /// Nothing read yet: no base splat, next frame 0.
    pub fn new() -> (s: Self)
        ensures
            s == initial_delta_state(),
    {
        DeltaReadState { base_read: false, frame: 0 }
    }

    /// Takes the element named `name`: hands back what to do with it and
    /// moves on, or refuses a frame of deltas before the base splat (and
    /// then stays as it was). The frame counter does not run past the
    /// largest `u32`.
    pub fn step(&mut self, name: &str) -> (r: Result<DeltaStep, DeltaPlanError>)
        requires
            delta_element_of(name@) is Delta && old(self).base_read ==> old(self).frame < u32::MAX,
        ensures
            match delta_transition(*old(self), name@) {
                Ok((s2, st)) => r == Ok::<DeltaStep, DeltaPlanError>(st) && *final(self) == s2,
                Err(e) => r == Err::<DeltaStep, DeltaPlanError>(e) && *final(self) == *old(self),
            },
    {
        match delta_element(name) {
            DeltaElement::Base => {
                let f = self.frame;
                self.base_read = true;
                Ok(DeltaStep::ReadBase { frame: f })
            },
            DeltaElement::MetaMin => Ok(DeltaStep::ReadMetaMin),
            DeltaElement::MetaMax => Ok(DeltaStep::ReadMetaMax),
            DeltaElement::Delta => {
                if self.base_read {
                    let f = self.frame;
                    self.frame = f + 1;
                    Ok(DeltaStep::ReadDelta { frame: f })
                } else {
                    Err(DeltaPlanError::BaseMissing)
                }
            },
            DeltaElement::Other => Ok(DeltaStep::Skip),
        }
    }
}

/// Frames are numbered in reading order: after the steps of a plan, the
/// next frame number is the number of delta frames read, and each step that
/// emits a splat numbers it by the delta frames read before it. The base
/// splat is frame 0 when it comes first.
pub proof fn lemma_delta_frames_numbered(names: Seq<Seq<char>>)
    requires
        delta_names_in(names) < u32::MAX,
    ensures
        ({
            let (s, steps, err) = delta_plan_of(names);
            &&& s.frame == delta_steps_in(steps)
            &&& delta_steps_in(steps) <= delta_names_in(names)
            &&& forall|j: int|
                0 <= j < steps.len() ==> (#[trigger] emitted_frame(steps[j]) matches Some(f) ==> f
                    == delta_steps_in(steps.take(j)))
        }),
    decreases names.len(),
{
    if names.len() > 0 {
        let init = names.drop_last();
        lemma_delta_frames_numbered(init);
        let (s, steps, err) = delta_plan_of(init);
        if err is None {
            match delta_transition(s, names.last()) {
                Ok((s2, st)) => {
                    let steps2 = steps.push(st);
                    assert(steps2.drop_last() =~= steps);
                    assert forall|j: int| 0 <= j < steps2.len() implies (#[trigger] emitted_frame(
                        steps2[j],
                    ) matches Some(f) ==> f == delta_steps_in(steps2.take(j))) by {
                        if j < steps.len() {
                            assert(steps2.take(j) =~= steps.take(j));
                            assert(steps2[j] == steps[j]);
                        } else {
                            assert(steps2.take(j) =~= steps);
                        }
                    }
                },
                Err(e) => {},
            }
        }
    }
}

/// The plan for all elements of a header, in order. The reading stops at a
/// frame of deltas that comes before the base splat: the plan then holds
/// the steps before it and the error. The header declares fewer than
/// `u32::MAX` frames of deltas, so the frame counter never runs over.
pub fn delta_plan(h: &PlyHeaderInfo) -> (r: (Vec<DeltaStep>, Option<DeltaPlanError>))
    requires
        delta_names_in(element_names(h.elements@)) < u32::MAX,
    ensures
        ({
            let (_, steps, err) = delta_plan_of(element_names(h.elements@));
            r.0@ == steps && r.1 == err
        }),
{
    let ghost names = element_names(h.elements@);
    let mut state = DeltaReadState::new();
    let mut steps: Vec<DeltaStep> = Vec::new();
    let mut i: usize = 0;
    while i < h.elements.len()
        invariant
            i <= h.elements@.len(),
            names == element_names(h.elements@),
            delta_names_in(names) < u32::MAX,
            delta_plan_of(names.take(i as int)) == (state, steps@, None::<DeltaPlanError>),
        decreases h.elements.len() - i,
    {
        proof {
            assert(names.take(i + 1).drop_last() =~= names.take(i as int));
            assert(names.take(i + 1).last() == h.elements@[i as int].name@);
            lemma_delta_names_prefix(names, i as int);
            lemma_delta_frames_numbered(names.take(i as int));
        }
        let r = state.step(h.elements[i].name.as_str());
        match r {
            Ok(st) => {
                steps.push(st);
            },
            Err(e) => {
                proof {
                    lemma_plan_stops(names, i as int);
                }
                return (steps, Some(e));
            },
        }
        i = i + 1;
    }
    assert(names.take(i as int) =~= names);
    (steps, None)
}

/// Fewer delta frames among the first `i + 1` names than among all, when
/// the `i`-th is one.
proof fn lemma_delta_names_prefix(names: Seq<Seq<char>>, i: int)
    requires
        0 <= i < names.len(),
    ensures
        delta_names_in(names.take(i)) + (if delta_element_of(names[i]) is Delta {
            1nat
        } else {
            0nat
        }) <= delta_names_in(names),
    decreases names.len(),
{
    if i + 1 < names.len() {
        assert(names.drop_last().take(i) =~= names.take(i));
        assert(names.drop_last()[i] == names[i]);
        lemma_delta_names_prefix(names.drop_last(), i);
    } else {
        assert(names.drop_last() =~= names.take(i));
    }
}

/// Once an element stops the reading, the plan for all names is the plan up
/// to it, with its error.
proof fn lemma_plan_stops(names: Seq<Seq<char>>, i: int)
    requires
        0 <= i < names.len(),
        delta_plan_of(names.take(i + 1)).2 is Some,
    ensures
        delta_plan_of(names) == delta_plan_of(names.take(i + 1)),
    decreases names.len(),
{
    if i + 1 < names.len() {
        assert(names.drop_last().take(i + 1) =~= names.take(i + 1));
        lemma_plan_stops(names.drop_last(), i);
    } else {
        assert(names.take(i + 1) =~= names);
    }
}

} // verus!
