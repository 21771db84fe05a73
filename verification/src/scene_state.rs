//! What the scene view holds between frames: the splat frames it can show,
//! how many frames the source has, whether it follows the training live,
//! whether playback or training is paused, and the error it shows.
//!
//! Timing the playback and drawing are left to the caller.

use vstd::prelude::*;
use crate::control::ControlMessage;

verus! {

/// An error shown in place of the scene: a headline and its causes.
#[derive(Debug, Clone)]
pub struct ErrorDisplay {
    /// The error's own message.
    pub headline: String,
    /// The messages of its causes, outermost first.
    pub context: Vec<String>,
}

/// The splat frames of the scene view and its settings.
#[derive(Debug)]
pub struct SceneFrames<T> {
    frames: Vec<T>,
    frame_count: u32,
    live_update: bool,
    paused: bool,
    err: Option<ErrorDisplay>,
}

impl<T> SceneFrames<T> {
    /// The frames held, in order.
    pub closed spec fn held(&self) -> Seq<T> {
        self.frames@
    }

    /// How many frames the source has.
    pub closed spec fn count(&self) -> u32 {
        self.frame_count
    }

    /// Whether new splats replace the shown ones.
    pub closed spec fn follows(&self) -> bool {
        self.live_update
    }

    /// Whether playback (or training) is paused.
    pub closed spec fn is_paused(&self) -> bool {
        self.paused
    }

    /// Whether an error is shown.
    pub closed spec fn has_error(&self) -> bool {
        self.err is Some
    }

    /// Nothing held, following the training, running, no error.
    pub fn new() -> (s: Self)
        ensures
            s.held().len() == 0,
            s.count() == 0,
            s.follows(),
            !s.is_paused(),
            !s.has_error(),
    {
        SceneFrames { frames: Vec::new(), frame_count: 0, live_update: true, paused: false, err: None }
    }

    /// A new source: everything is dropped and reset.
    pub fn on_new_source(&mut self)
        ensures
            final(self).held().len() == 0,
            final(self).count() == 0,
            final(self).follows(),
            !final(self).is_paused(),
            !final(self).has_error(),
    {
        self.frames = Vec::new();
        self.frame_count = 0;
        self.live_update = true;
        self.paused = false;
        self.err = None;
    }

    /// Loaded splats for frame `frame` of `total_frames`: when following,
    /// they replace frame `frame` and every later one.
    pub fn on_view_splats(&mut self, splats: T, frame: u32, total_frames: u32)
        ensures
            final(self).held() == if old(self).follows() {
                old(self).held().take(
                    if (frame as int) < old(self).held().len() {
                        frame as int
                    } else {
                        old(self).held().len() as int
                    },
                ).push(splats)
            } else {
                old(self).held()
            },
            final(self).count() == total_frames,
            final(self).follows() == old(self).follows(),
            final(self).is_paused() == old(self).is_paused(),
            final(self).has_error() == old(self).has_error(),
    {
        if self.live_update {
            self.frames.truncate(frame as usize);
            self.frames.push(splats);
        }
        self.frame_count = total_frames;
    }

    /// Splats after a training step: when following, they are the only frame.
    pub fn on_train_step(&mut self, splats: T)
        ensures
            final(self).held() == if old(self).follows() {
                seq![splats]
            } else {
                old(self).held()
            },
            final(self).count() == old(self).count(),
            final(self).follows() == old(self).follows(),
            final(self).is_paused() == old(self).is_paused(),
            final(self).has_error() == old(self).has_error(),
    {
        if self.live_update {
            let mut v: Vec<T> = Vec::new();
            v.push(splats);
            self.frames = v;
        }
    }

    /// Shows an error.
    pub fn on_error(&mut self, headline: String, context: Vec<String>)
        ensures
            final(self).has_error(),
            final(self).held() == old(self).held(),
            final(self).count() == old(self).count(),
            final(self).follows() == old(self).follows(),
            final(self).is_paused() == old(self).is_paused(),
    {
        self.err = Some(ErrorDisplay { headline, context });
    }

    /// The error shown, if any.
    pub fn error(&self) -> (e: Option<&ErrorDisplay>)
        ensures
            e is Some == self.has_error(),
    {
        match &self.err {
            Some(e) => Some(e),
            None => None,
        }
    }

    /// Whether the view invites the user to load something: nothing is
    /// trained, held or wrong, and the interface is not reduced.
    pub fn shows_start_hint(&self, training: bool, zen: bool) -> (r: bool)
        ensures
            r == (!training && self.held().len() == 0 && !self.has_error() && !zen),
    {
        !training && self.frames.len() == 0 && self.err.is_none() && !zen
    }

    /// Whether the playback control is offered: several frames, all of the
    /// source's frames held.
    pub fn shows_playback_control(&self) -> (r: bool)
        ensures
            r == (self.held().len() > 1 && self.held().len() == self.count()),
    {
        self.frames.len() > 1 && self.frames.len() as u64 == self.frame_count as u64
    }

    /// The frame at `index`, if held.
    pub fn frame(&self, index: usize) -> (f: Option<&T>)
        ensures
            match f {
                Some(x) => index < self.held().len() && *x == self.held()[index as int],
                None => index >= self.held().len(),
            },
    {
        if index < self.frames.len() {
            Some(&self.frames[index])
        } else {
            None
        }
    }

    /// The number of frames held.
    pub fn len(&self) -> (n: usize)
        ensures
            n == self.held().len(),
    {
        self.frames.len()
    }

    /// How many frames the source has.
    pub fn frame_count(&self) -> (n: u32)
        ensures
            n == self.count(),
    {
        self.frame_count
    }

    /// Whether playback (or training) is paused.
    pub fn paused(&self) -> (p: bool)
        ensures
            p == self.is_paused(),
    {
        self.paused
    }

    /// Whether new splats replace the shown ones.
    pub fn live_update(&self) -> (l: bool)
        ensures
            l == self.follows(),
    {
        self.live_update
    }

    /// Flips pausing of the playback.
    pub fn toggle_playback(&mut self)
        ensures
            final(self).is_paused() == !old(self).is_paused(),
            final(self).held() == old(self).held(),
            final(self).count() == old(self).count(),
            final(self).follows() == old(self).follows(),
            final(self).has_error() == old(self).has_error(),
    {
        self.paused = !self.paused;
    }

    /// Flips pausing of the training and returns the request for the process.
    pub fn toggle_training(&mut self) -> (m: ControlMessage)
        ensures
            final(self).is_paused() == !old(self).is_paused(),
            m == ControlMessage::Paused(final(self).is_paused()),
            final(self).held() == old(self).held(),
            final(self).count() == old(self).count(),
            final(self).follows() == old(self).follows(),
            final(self).has_error() == old(self).has_error(),
    {
        self.paused = !self.paused;
        ControlMessage::Paused(self.paused)
    }

    /// Flips following the training.
    pub fn toggle_live_update(&mut self)
        ensures
            final(self).follows() == !old(self).follows(),
            final(self).held() == old(self).held(),
            final(self).count() == old(self).count(),
            final(self).is_paused() == old(self).is_paused(),
            final(self).has_error() == old(self).has_error(),
    {
        self.live_update = !self.live_update;
    }
}

} // verus!
