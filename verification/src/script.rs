//! The loop together with a host that does as it is asked: every request of the loop
//! is answered by the report that belongs to it. What such a host experiences is a
//! matter of what it finds while it carries out a frame's requests; the laws here say
//! how many frames it gets to submit and how the loop ends.

use vstd::prelude::*;
use crate::geometry::Rect;
use crate::input::MouseSample;
use crate::perf::PerfModel;
use crate::system::{
    lemma_stopped_loop_stays_stopped,
    ActionModel,
    LoopEvent,
    LoopPhase,
    StopReason,
    SystemModel,
};
use crate::window_tracker::TrackerUpdate;

verus! {

/// What the host finds while it carries out the requests of one frame.
pub struct FrameScript {
    /// The mouse as sampled.
    pub mouse: MouseSample,
    /// The keyboard as sampled.
    pub keys: [bool; 256],
    /// The rectangle of the watched window; `None` if it is gone.
    pub target: Option<Rect>,
    /// What the update callback returns.
    pub update_keeps_running: bool,
    /// Whether the toolkit manages to prepare the frame.
    pub frame_prepared: bool,
    /// What the render callback returns.
    pub render_keeps_running: bool,
}

impl FrameScript {
    /// The report by which the host answers `action`; `None` for an action that asks
    /// for no report. The start of a frame is followed by the end of the event
    /// delivery.
    pub open spec fn answer(self, action: ActionModel) -> Option<LoopEvent> {
        match action {
            ActionModel::BeginFrame { .. } => Some(LoopEvent::MainEventsCleared),
            ActionModel::SampleInput { .. } => Some(
                LoopEvent::InputSampled { mouse: self.mouse, keys: self.keys, target: self.target },
            ),
            ActionModel::RunUpdate { .. } => Some(
                LoopEvent::UpdateReturned { keep_running: self.update_keeps_running },
            ),
            ActionModel::RebuildFonts { .. } => Some(LoopEvent::FontsUploaded),
            ActionModel::PrepareFrame => Some(LoopEvent::FramePrepared { ok: self.frame_prepared }),
            ActionModel::BuildUi => Some(
                LoopEvent::RenderReturned { keep_running: self.render_keeps_running },
            ),
            ActionModel::DrawDebugOverlay => Some(LoopEvent::DebugOverlayDrawn),
            ActionModel::SubmitFrame => Some(LoopEvent::FrameSubmitted),
            ActionModel::Wait => None,
            ActionModel::ShowWindow => None,
            ActionModel::Exit(_) => None,
        }
    }

    /// Nothing gets in the way of the frame: the target is there, both callbacks want
    /// the loop to go on, and the toolkit prepares the frame.
    pub open spec fn completes(self, system: SystemModel) -> bool {
        &&& system.controller.tracker.resolve(self.target) is Some
        &&& self.update_keeps_running
        &&& self.frame_prepared
        &&& self.render_keeps_running
    }
}

/// What is left when the host has nothing more to answer.
pub struct Played {
    pub system: SystemModel,
    pub perf: PerfModel,
    /// How many frames were handed to the render backend.
    pub submissions: nat,
}

impl SystemModel {
    /// The loop takes in `event` and the host answers each request as `script` says,
    /// until a request needs no answer, for at most `fuel` steps.
    pub open spec fn play(
        self,
        perf: PerfModel,
        event: LoopEvent,
        script: FrameScript,
        now: u128,
        fuel: nat,
    ) -> Played
        decreases fuel,
    {
        if fuel == 0 {
            Played { system: self, perf, submissions: 0 }
        } else {
            let next = self.step(perf, event, now);
            match script.answer(next.action) {
                None => Played { system: next.system, perf: next.perf, submissions: 0 },
                Some(report) => {
                    let rest = next.system.play(next.perf, report, script, now, (fuel - 1) as nat);
                    Played {
                        submissions: rest.submissions + if next.action is SubmitFrame {
                            1nat
                        } else {
                            0nat
                        },
                        ..rest
                    }
                },
            }
        }
    }

    /// One frame with the host: from the start of the event delivery to the request
    /// that needs no answer. No frame takes more than nine steps.
    pub open spec fn play_frame(self, perf: PerfModel, script: FrameScript, now: u128) -> Played {
        self.play(perf, LoopEvent::NewEvents, script, now, 10)
    }

    /// The first `n` of `scripts`, one frame each, the `i`-th at `times[i]`.
    pub open spec fn play_frames(
        self,
        perf: PerfModel,
        scripts: Seq<FrameScript>,
        times: Seq<u128>,
        n: int,
    ) -> Played
        decreases n,
    {
        if n <= 0 {
            Played { system: self, perf, submissions: 0 }
        } else {
            let before = self.play_frames(perf, scripts, times, n - 1);
            let frame = before.system.play_frame(before.perf, scripts[n - 1], times[n - 1]);
            Played { submissions: before.submissions + frame.submissions, ..frame }
        }
    }

    /// How a frame ends when the host follows `script`: `None` when the loop goes on.
    pub open spec fn frame_end(self, script: FrameScript) -> Option<StopReason> {
        if self.controller.tracker.update(script.target).1 == TrackerUpdate::TargetClosed {
            Some(StopReason::TargetClosed)
        } else if !script.update_keeps_running {
            Some(StopReason::UpdateRequested)
        } else if !script.frame_prepared {
            Some(StopReason::FramePreparationFailed)
        } else if !script.render_keeps_running {
            Some(StopReason::RenderRequested)
        } else {
            None
        }
    }
}

/// The frame went through: it was submitted `submissions` times from here on, it was
/// counted, and the loop is between frames, with the target still followed.
pub open spec fn went_through(played: Played, from: SystemModel, submissions: nat) -> bool {
    &&& played.system.phase == LoopPhase::Idle
    &&& played.submissions == submissions
    &&& played.system.controller.frame_count == from.controller.next_frame_count()
    &&& played.system.controller.tracker.target == from.controller.tracker.target
    &&& !played.system.controller.tracker.closed
}

/// The frame was cut short: the loop has ended for `reason`, nothing was submitted
/// from here on, and the frame was not counted.
pub open spec fn cut_short(played: Played, from: SystemModel, reason: StopReason) -> bool {
    &&& played.system.phase == LoopPhase::Stopped(reason)
    &&& played.submissions == 0
    &&& played.system.controller.frame_count == from.controller.frame_count
}

proof fn lemma_play_submitted(system: SystemModel, perf: PerfModel, script: FrameScript, now: u128, fuel: nat)
    requires
        system.phase == LoopPhase::AwaitSubmit,
        !system.controller.tracker.closed,
        fuel >= 1,
    ensures
        went_through(system.play(perf, LoopEvent::FrameSubmitted, script, now, fuel), system, 0),
{
}

proof fn lemma_play_debug_overlay(system: SystemModel, perf: PerfModel, script: FrameScript, now: u128, fuel: nat)
    requires
        system.phase == LoopPhase::AwaitDebugOverlay,
        !system.controller.tracker.closed,
        fuel >= 2,
    ensures
        went_through(system.play(perf, LoopEvent::DebugOverlayDrawn, script, now, fuel), system, 1),
{
    let next = system.step(perf, LoopEvent::DebugOverlayDrawn, now);
    lemma_play_submitted(next.system, next.perf, script, now, (fuel - 1) as nat);
}

proof fn lemma_play_render(system: SystemModel, perf: PerfModel, script: FrameScript, now: u128, fuel: nat)
    requires
        system.phase == LoopPhase::AwaitRender,
        !system.controller.tracker.closed,
        fuel >= 3,
    ensures
        ({
            let played = system.play(
                perf,
                LoopEvent::RenderReturned { keep_running: script.render_keeps_running },
                script,
                now,
                fuel,
            );
            if script.render_keeps_running {
                went_through(played, system, 1)
            } else {
                cut_short(played, system, StopReason::RenderRequested)
            }
        }),
{
    let next = system.step(
        perf,
        LoopEvent::RenderReturned { keep_running: script.render_keeps_running },
        now,
    );
    if script.render_keeps_running {
        if system.controller.debug_overlay_shown {
            lemma_play_debug_overlay(next.system, next.perf, script, now, (fuel - 1) as nat);
        } else {
            lemma_play_submitted(next.system, next.perf, script, now, (fuel - 1) as nat);
        }
    }
}

/// How the frame ends once the update phase is over.
spec fn after_update_phase(played: Played, from: SystemModel, script: FrameScript) -> bool {
    if !script.frame_prepared {
        cut_short(played, from, StopReason::FramePreparationFailed)
    } else if !script.render_keeps_running {
        cut_short(played, from, StopReason::RenderRequested)
    } else {
        went_through(played, from, 1)
    }
}

proof fn lemma_play_prepare(system: SystemModel, perf: PerfModel, script: FrameScript, now: u128, fuel: nat)
    requires
        system.phase == LoopPhase::AwaitPrepare,
        !system.controller.tracker.closed,
        fuel >= 4,
    ensures
        after_update_phase(
            system.play(perf, LoopEvent::FramePrepared { ok: script.frame_prepared }, script, now, fuel),
            system,
            script,
        ),
{
    let next = system.step(perf, LoopEvent::FramePrepared { ok: script.frame_prepared }, now);
    if script.frame_prepared {
        lemma_play_render(next.system, next.perf, script, now, (fuel - 1) as nat);
    }
}

proof fn lemma_play_fonts(system: SystemModel, perf: PerfModel, script: FrameScript, now: u128, fuel: nat)
    requires
        system.phase == LoopPhase::AwaitFonts,
        !system.controller.tracker.closed,
        fuel >= 5,
    ensures
        after_update_phase(system.play(perf, LoopEvent::FontsUploaded, script, now, fuel), system, script),
{
    let next = system.step(perf, LoopEvent::FontsUploaded, now);
    lemma_play_prepare(next.system, next.perf, script, now, (fuel - 1) as nat);
}

proof fn lemma_play_update(system: SystemModel, perf: PerfModel, script: FrameScript, now: u128, fuel: nat)
    requires
        system.phase == LoopPhase::AwaitUpdate,
        !system.controller.tracker.closed,
        fuel >= 6,
    ensures
        ({
            let played = system.play(
                perf,
                LoopEvent::UpdateReturned { keep_running: script.update_keeps_running },
                script,
                now,
                fuel,
            );
            if script.update_keeps_running {
                after_update_phase(played, system, script)
            } else {
                cut_short(played, system, StopReason::UpdateRequested)
            }
        }),
{
    let next = system.step(
        perf,
        LoopEvent::UpdateReturned { keep_running: script.update_keeps_running },
        now,
    );
    if script.update_keeps_running {
        if system.controller.fonts.dirty {
            lemma_play_fonts(next.system, next.perf, script, now, (fuel - 1) as nat);
        } else {
            lemma_play_prepare(next.system, next.perf, script, now, (fuel - 1) as nat);
        }
    }
}

/// How the frame ends, seen from its start.
spec fn frame_outcome(played: Played, from: SystemModel, script: FrameScript) -> bool {
    match from.frame_end(script) {
        Some(reason) => cut_short(played, from, reason),
        None => went_through(played, from, 1),
    }
}

proof fn lemma_play_input(system: SystemModel, perf: PerfModel, script: FrameScript, now: u128, fuel: nat)
    requires
        system.phase == LoopPhase::AwaitInput,
        fuel >= 7,
    ensures
        frame_outcome(
            system.play(
                perf,
                LoopEvent::InputSampled { mouse: script.mouse, keys: script.keys, target: script.target },
                script,
                now,
                fuel,
            ),
            system,
            script,
        ),
{
    let next = system.step(
        perf,
        LoopEvent::InputSampled { mouse: script.mouse, keys: script.keys, target: script.target },
        now,
    );
    if system.controller.tracker.update(script.target).1 != TrackerUpdate::TargetClosed {
        lemma_play_update(next.system, next.perf, script, now, (fuel - 1) as nat);
    }
}

proof fn lemma_play_cleared(system: SystemModel, perf: PerfModel, script: FrameScript, now: u128, fuel: nat)
    requires
        system.phase == LoopPhase::Idle,
        fuel >= 8,
    ensures
        frame_outcome(system.play(perf, LoopEvent::MainEventsCleared, script, now, fuel), system, script),
{
    let next = system.step(perf, LoopEvent::MainEventsCleared, now);
    lemma_play_input(next.system, next.perf, script, now, (fuel - 1) as nat);
}

/// A frame with a host that does as it is asked ends in one of two ways. Either
/// something ends the loop, the first of: the target's loss, the update callback, the
/// toolkit's failure, the render callback; then nothing is submitted and no frame is
/// counted. Or the frame is submitted, exactly once, and counted, and the loop is
/// between frames again, with the target still followed.
pub proof fn lemma_frame_is_submitted_once_or_not_at_all(
    system: SystemModel,
    perf: PerfModel,
    script: FrameScript,
    now: u128,
)
    requires
        system.phase == LoopPhase::Idle,
    ensures
        match system.frame_end(script) {
            Some(reason) => cut_short(system.play_frame(perf, script, now), system, reason),
            None => went_through(system.play_frame(perf, script, now), system, 1),
        },
{
    let next = system.step(perf, LoopEvent::NewEvents, now);
    lemma_play_cleared(next.system, next.perf, script, now, 9);
}

/// Once the loop has ended, a host that keeps going submits nothing: the frames that it
/// starts change neither the loop nor the performance history.
pub proof fn lemma_no_submission_after_stop(
    system: SystemModel,
    perf: PerfModel,
    scripts: Seq<FrameScript>,
    times: Seq<u128>,
    n: int,
)
    requires
        system.phase is Stopped,
        0 <= n <= scripts.len(),
        scripts.len() == times.len(),
    ensures
        system.play_frames(perf, scripts, times, n) == (Played { system, perf, submissions: 0 }),
    decreases n,
{
    if n > 0 {
        lemma_no_submission_after_stop(system, perf, scripts, times, n - 1);
        reveal_with_fuel(SystemModel::play, 2);
        lemma_stopped_loop_stays_stopped(
            system,
            perf,
            LoopEvent::NewEvents,
            times[n - 1],
            system.phase->Stopped_0,
        );
    }
}

/// As long as nothing gets in the way, every frame is submitted: after `n` such frames
/// the host has submitted `n` frames, the loop has counted them, and it stands between
/// frames.
pub proof fn lemma_frames_that_complete_are_all_submitted(
    system: SystemModel,
    perf: PerfModel,
    scripts: Seq<FrameScript>,
    times: Seq<u128>,
    n: int,
)
    requires
        system.phase == LoopPhase::Idle,
        !system.controller.tracker.closed,
        0 <= n <= scripts.len(),
        scripts.len() == times.len(),
        system.controller.frame_count + n <= u64::MAX,
        forall|k: int| 0 <= k < n ==> (#[trigger] scripts[k]).completes(system),
    ensures
        ({
            let played = system.play_frames(perf, scripts, times, n);
            &&& played.system.phase == LoopPhase::Idle
            &&& played.submissions == n
            &&& played.system.controller.frame_count == system.controller.frame_count + n
            &&& played.system.controller.tracker.target == system.controller.tracker.target
            &&& !played.system.controller.tracker.closed
        }),
    decreases n,
{
    if n > 0 {
        lemma_frames_that_complete_are_all_submitted(system, perf, scripts, times, n - 1);
        let before = system.play_frames(perf, scripts, times, n - 1);
        assert(scripts[n - 1].completes(system));
        lemma_frame_is_submitted_once_or_not_at_all(
            before.system,
            before.perf,
            scripts[n - 1],
            times[n - 1],
        );
    }
}

/// When `n` frames complete and the next one is ended, by the target's loss, by a
/// callback or by the toolkit's failure, the host has submitted exactly `n` frames,
/// the frame that was ended is not among them, and however long the host goes on, it
/// submits no more. The exit status is 1 for the toolkit's failure and 0 otherwise.
pub proof fn lemma_loop_ends_with_the_frames_submitted_so_far(
    system: SystemModel,
    perf: PerfModel,
    scripts: Seq<FrameScript>,
    times: Seq<u128>,
    n: int,
    total: int,
)
    requires
        system.phase == LoopPhase::Idle,
        !system.controller.tracker.closed,
        0 <= n < total <= scripts.len(),
        scripts.len() == times.len(),
        system.controller.frame_count + n <= u64::MAX,
        forall|k: int| 0 <= k < n ==> (#[trigger] scripts[k]).completes(system),
        !scripts[n].completes(system),
    ensures
        ({
            let played = system.play_frames(perf, scripts, times, total);
            let before = system.play_frames(perf, scripts, times, n);
            &&& played.submissions == n
            &&& played.system.controller.frame_count == system.controller.frame_count + n
            &&& before.system.frame_end(scripts[n]) matches Some(reason) && played.system.phase
                == LoopPhase::Stopped(reason) && (reason.spec_exit_code() == 1 <==> reason
                == StopReason::FramePreparationFailed) && (reason.spec_exit_code() == 0 <==> reason
                != StopReason::FramePreparationFailed)
            &&& (scripts[n].update_keeps_running && scripts[n].frame_prepared
                && !scripts[n].render_keeps_running && system.controller.tracker.resolve(
                scripts[n].target,
            ) is Some) ==> played.system.phase == LoopPhase::Stopped(StopReason::RenderRequested)
            &&& system.controller.tracker.resolve(scripts[n].target) is None ==> played.system.phase
                == LoopPhase::Stopped(StopReason::TargetClosed)
        }),
    decreases total - n,
{
    lemma_frames_that_complete_are_all_submitted(system, perf, scripts, times, n);
    let before = system.play_frames(perf, scripts, times, n);
    lemma_frame_is_submitted_once_or_not_at_all(before.system, before.perf, scripts[n], times[n]);
    let ended = system.play_frames(perf, scripts, times, n + 1);
    assert(ended.system.phase is Stopped);
    assert(ended.submissions == n);
    lemma_frames_continue(system, perf, scripts, times, n + 1, total);
    let tail_scripts = scripts.subrange(n + 1, scripts.len() as int);
    let tail_times = times.subrange(n + 1, times.len() as int);
    lemma_no_submission_after_stop(ended.system, ended.perf, tail_scripts, tail_times, total - n - 1);
}

/// Playing `total` frames is playing the first `done` of them and then the rest.
pub proof fn lemma_frames_continue(
    system: SystemModel,
    perf: PerfModel,
    scripts: Seq<FrameScript>,
    times: Seq<u128>,
    done: int,
    total: int,
)
    requires
        0 <= done <= total <= scripts.len(),
        scripts.len() == times.len(),
    ensures
        ({
            let first = system.play_frames(perf, scripts, times, done);
            let rest = first.system.play_frames(
                first.perf,
                scripts.subrange(done, scripts.len() as int),
                times.subrange(done, times.len() as int),
                total - done,
            );
            system.play_frames(perf, scripts, times, total) == (Played {
                submissions: first.submissions + rest.submissions,
                ..rest
            })
        }),
    decreases total - done,
{
    if done < total {
        lemma_frames_continue(system, perf, scripts, times, done, total - 1);
        let tail_scripts = scripts.subrange(done, scripts.len() as int);
        let tail_times = times.subrange(done, times.len() as int);
        assert(tail_scripts[total - 1 - done] == scripts[total - 1]);
        assert(tail_times[total - 1 - done] == times[total - 1]);
    }
}

} // verus!
