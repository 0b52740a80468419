//! Progressive sample accounting of the renderer and the per-frame
//! decisions that depend on it.
use vstd::prelude::*;

verus! {

/// Number of samples rendered in one frame when the configuration names none.
pub fn default_samples_per_frame() -> (r: u32)
    ensures
        r == 10,
{
    10
}

/// Samples still owed in one frame: `min(per_frame, target - current)`,
/// where the subtraction saturates at zero.
pub open spec fn spec_batch_size(current: int, target: int, per_frame: int) -> int {
    let remaining = if target - current < 0 { 0 } else { target - current };
    if per_frame < remaining { per_frame } else { remaining }
}

/// One more sample, saturating at `u32::MAX`.
pub open spec fn sat_succ(c: int) -> int {
    if c >= u32::MAX { u32::MAX as int } else { c + 1 }
}

/// The sample count after `j` recordings starting from `c`.
pub open spec fn after_records(c: int, j: nat) -> int
    decreases j,
{
    if j == 0 { c } else { sat_succ(after_records(c, (j - 1) as nat)) }
}

/// The sample count after `k` complete frames starting from `c`: each frame
/// records its batch.
pub open spec fn after_frames(c: int, target: int, per_frame: int, k: nat) -> int
    decreases k,
{
    if k == 0 {
        c
    } else {
        let prev = after_frames(c, target, per_frame, (k - 1) as nat);
        prev + spec_batch_size(prev, target, per_frame)
    }
}

/// Progressive accumulation state: how many samples per pixel have been
/// accumulated, how many are wanted, and how many are rendered per frame.
pub struct SampleCounter {
    current: u32,
    target: u32,
    per_frame: u32,
}

impl SampleCounter {
    /// Samples accumulated so far.
    pub closed spec fn samples(&self) -> u32 {
        self.current
    }

    /// Samples wanted in total.
    pub closed spec fn target(&self) -> u32 {
        self.target
    }

    /// Samples rendered per frame.
    pub closed spec fn per_frame(&self) -> u32 {
        self.per_frame
    }

    /// The accumulated count never passes the target.
    pub open spec fn wf(&self) -> bool {
        self.samples() <= self.target()
    }

    /// A fresh counter with nothing accumulated.
    pub fn new(target_samples: u32, samples_per_frame: u32) -> (c: Self)
        ensures
            c.samples() == 0,
            c.target() == target_samples,
            c.per_frame() == samples_per_frame,
            c.wf(),
    {
        SampleCounter { current: 0, target: target_samples, per_frame: samples_per_frame }
    }

    /// Samples accumulated so far.
    pub fn sample_count(&self) -> (r: u32)
        ensures
            r == self.samples(),
    {
        self.current
    }

    /// Samples wanted in total.
    pub fn target_samples(&self) -> (r: u32)
        ensures
            r == self.target(),
    {
        self.target
    }

    /// Samples rendered per frame.
    pub fn samples_per_frame(&self) -> (r: u32)
        ensures
            r == self.per_frame(),
    {
        self.per_frame
    }

    /// Whether the target has been reached.
    pub fn is_complete(&self) -> (r: bool)
        ensures
            r == (self.samples() >= self.target()),
    {
        self.current >= self.target
    }

    /// How many samples the next frame renders.
    pub fn batch_size(&self) -> (r: u32)
        ensures
            r == spec_batch_size(self.samples() as int, self.target() as int, self.per_frame() as int),
            r <= self.per_frame(),
            self.samples() + r <= self.target() || r == 0,
            r == 0 <==> (self.samples() >= self.target() || self.per_frame() == 0),
            self.samples() < self.target() ==> (r == self.per_frame() || self.samples() + r == self.target()),
    {
        let remaining = self.target.saturating_sub(self.current);
        if self.per_frame < remaining {
            self.per_frame
        } else {
            remaining
        }
    }

    /// Counts one more rendered sample (saturating at `u32::MAX`).
    pub fn record_sample(&mut self)
        ensures
            final(self).samples() == sat_succ(old(self).samples() as int),
            final(self).target() == old(self).target(),
            final(self).per_frame() == old(self).per_frame(),
            old(self).samples() < old(self).target() ==> final(self).wf(),
    {
        self.current = self.current.saturating_add(1);
    }

    /// Discards the accumulation (the accumulator was cleared).
    pub fn reset(&mut self)
        ensures
            final(self).samples() == 0,
            final(self).target() == old(self).target(),
            final(self).per_frame() == old(self).per_frame(),
            final(self).wf(),
    {
        self.current = 0;
    }
}

/// Recording one frame's batch sample by sample never passes the target:
/// from `current <= target` the frame ends at `min(current + per_frame, target)`,
/// and a complete counter gets an empty batch.
pub proof fn lemma_batch_within_target(current: int, target: int, per_frame: int)
    requires
        0 <= current <= target,
        0 <= per_frame,
    ensures
        0 <= spec_batch_size(current, target, per_frame),
        current + spec_batch_size(current, target, per_frame) == (if current + per_frame < target {
            current + per_frame
        } else {
            target
        }),
        current + spec_batch_size(current, target, per_frame) <= target,
        current == target ==> spec_batch_size(current, target, per_frame) == 0,
{
}

/// The batch of a frame is `per_frame` samples, or fewer only to stop
/// exactly at the target; it is empty exactly when the target is reached or
/// nothing is rendered per frame.
pub proof fn lemma_batch_size_meaning(current: int, target: int, per_frame: int)
    requires
        0 <= current,
        0 <= target,
        0 <= per_frame,
    ensures
        0 <= spec_batch_size(current, target, per_frame) <= per_frame,
        current < target ==> (spec_batch_size(current, target, per_frame) == per_frame
            || current + spec_batch_size(current, target, per_frame) == target),
        current + spec_batch_size(current, target, per_frame) <= target || spec_batch_size(current, target, per_frame) == 0,
        spec_batch_size(current, target, per_frame) == 0 <==> (current >= target || per_frame == 0),
{
}

/// Within a frame, however many of its batch's samples were recorded before
/// the frame ended (all of them, or fewer when a launch failed), the count
/// after each recording is `current + j`: it never falls and never passes
/// the target.
pub proof fn lemma_frame_prefix(current: int, target: int, per_frame: int, j: nat)
    requires
        0 <= current <= target <= u32::MAX,
        0 <= per_frame,
        j <= spec_batch_size(current, target, per_frame),
    ensures
        after_records(current, j) == current + j,
        current <= after_records(current, j) <= target,
        forall|i: nat| i <= j ==> after_records(current, i) <= after_records(current, j),
    decreases j,
{
    if j > 0 {
        lemma_frame_prefix(current, target, per_frame, (j - 1) as nat);
        assert forall|i: nat| i <= j implies after_records(current, i) <= after_records(current, j) by {
            if i < j {
                lemma_frame_prefix(current, target, per_frame, i);
            }
        }
    }
}

/// After `k` complete frames from `current <= target` the count is
/// `min(current + k * per_frame, target)`; with `per_frame == 0` it never moves.
pub proof fn lemma_frames_progress(current: int, target: int, per_frame: int, k: nat)
    requires
        0 <= current <= target,
        0 <= per_frame,
    ensures
        after_frames(current, target, per_frame, k) == (if current + k * per_frame < target {
            current + k * per_frame
        } else {
            target
        }),
    decreases k,
{
    if k > 0 {
        let km1 = (k - 1) as nat;
        lemma_frames_progress(current, target, per_frame, km1);
        let prev = after_frames(current, target, per_frame, km1);
        lemma_batch_within_target(prev, target, per_frame);
        assert(k * per_frame == km1 * per_frame + per_frame) by (nonlinear_arith) requires km1 == k - 1;
        assert(km1 * per_frame >= 0) by (nonlinear_arith) requires per_frame >= 0;
        assert(after_frames(current, target, per_frame, k) == prev + spec_batch_size(prev, target, per_frame));
    } else {
        assert(k * per_frame == 0) by (nonlinear_arith) requires k == 0;
    }
}

/// What a redraw does next.
#[derive(PartialEq, Eq, Structural, Debug, Clone, Copy)]
pub enum RedrawAction {
    /// Render another batch of samples and show the result.
    RenderBatch,
    /// The target was reached: save the image (once) and show the result.
    Finish,
    /// Nothing left to do but show the current frame.
    Present,
}

/// The redraw decision and the new `saved` flag: render while the target is
/// not reached; then finish, marking the image saved; then only present.
pub open spec fn spec_redraw_step(samples: int, target: int, saved: bool) -> (RedrawAction, bool) {
    if samples < target {
        (RedrawAction::RenderBatch, saved)
    } else if !saved {
        (RedrawAction::Finish, true)
    } else {
        (RedrawAction::Present, saved)
    }
}

/// The redraw decision for `counter` and whether the image is saved
/// afterwards.
pub fn redraw_step(counter: &SampleCounter, saved: bool) -> (r: (RedrawAction, bool))
    ensures
        r == spec_redraw_step(counter.samples() as int, counter.target() as int, saved),
        (r.0 == RedrawAction::RenderBatch) <==> counter.samples() < counter.target(),
        (r.0 == RedrawAction::Finish) <==> (counter.samples() >= counter.target() && !saved),
        (r.0 == RedrawAction::Present) <==> (counter.samples() >= counter.target() && saved),
        r.1 == (saved || r.0 == RedrawAction::Finish),
{
    if counter.sample_count() < counter.target_samples() {
        (RedrawAction::RenderBatch, saved)
    } else if !saved {
        (RedrawAction::Finish, true)
    } else {
        (RedrawAction::Present, saved)
    }
}

/// The redraw decision keeps rendering exactly while the target is not
/// reached; it finishes exactly once the target is reached and the image is
/// not saved yet, which marks it saved; otherwise it only presents, and the
/// flag never goes back to unsaved.
pub proof fn lemma_redraw_decision(samples: int, target: int, saved: bool)
    ensures
        (spec_redraw_step(samples, target, saved).0 == RedrawAction::RenderBatch) <==> samples < target,
        (spec_redraw_step(samples, target, saved).0 == RedrawAction::Finish) <==> (samples >= target && !saved),
        (spec_redraw_step(samples, target, saved).0 == RedrawAction::Present) <==> (samples >= target && saved),
        spec_redraw_step(samples, target, saved).1 == (saved || spec_redraw_step(samples, target, saved).0
            == RedrawAction::Finish),
{
}

/// The `saved` flag after redraws at the `(samples, target)` states `frames`.
pub open spec fn saved_after(saved: bool, frames: Seq<(int, int)>) -> bool
    decreases frames.len(),
{
    if frames.len() == 0 {
        saved
    } else {
        let prev = saved_after(saved, frames.drop_last());
        spec_redraw_step(frames.last().0, frames.last().1, prev).1
    }
}

/// How many of the redraws at the states `frames` finish (save the image).
pub open spec fn finish_count(saved: bool, frames: Seq<(int, int)>) -> nat
    decreases frames.len(),
{
    if frames.len() == 0 {
        0
    } else {
        let prev = saved_after(saved, frames.drop_last());
        let here: nat = if spec_redraw_step(frames.last().0, frames.last().1, prev).0 == RedrawAction::Finish {
            1
        } else {
            0
        };
        finish_count(saved, frames.drop_last()) + here
    }
}

/// Over any run of redraws the image is saved at most once, never when it
/// was already saved, and once saved it stays saved.
pub proof fn lemma_saved_at_most_once(saved: bool, frames: Seq<(int, int)>)
    ensures
        finish_count(saved, frames) <= 1,
        saved ==> finish_count(saved, frames) == 0,
        finish_count(saved, frames) == 1 ==> saved_after(saved, frames),
        saved ==> saved_after(saved, frames),
    decreases frames.len(),
{
    if frames.len() > 0 {
        lemma_saved_at_most_once(saved, frames.drop_last());
    }
}

/// What the event loop does when it is about to wait.
#[derive(PartialEq, Eq, Structural, Debug, Clone, Copy)]
pub enum IdleAction {
    /// An interrupt arrived and the image is not saved yet: save it and exit.
    SaveAndExit,
    /// Keep polling and ask for another redraw.
    RequestRedraw,
}

/// The idle decision and the new `saved` flag: an interrupt before the image
/// is saved saves it and ends the loop.
pub fn idle_step(interrupted: bool, saved: bool) -> (r: (IdleAction, bool))
    ensures
        r == (if interrupted && !saved {
            (IdleAction::SaveAndExit, true)
        } else {
            (IdleAction::RequestRedraw, saved)
        }),
        (r.0 == IdleAction::SaveAndExit) <==> (interrupted && !saved),
        r.1 == (saved || interrupted),
{
    if interrupted && !saved {
        (IdleAction::SaveAndExit, true)
    } else {
        (IdleAction::RequestRedraw, saved)
    }
}

} // verus!
