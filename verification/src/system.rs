//! The frame loop as a state machine. The host owns the event pump, the toolkit and the
//! render backend; it hands every event to the state machine and carries out the one
//! action that it gets back. The order of a frame is fixed here: input, window
//! tracking, the host's update, the font atlas, the host's render, the submission.

use vstd::prelude::*;
use crate::controller::{ControllerModel, SystemRuntimeController};
use crate::font::{
    atlas_model,
    atlas_wf,
    AtlasEntry,
    AtlasEntryModel,
    FontAtlasBuilder,
    FontBuilderModel,
    FontSource,
    FontSourceModel,
};
use crate::geometry::Rect;
use crate::input::{InputEvent, MouseSample};
use crate::perf::{elapsed_since, PerfModel, PerfTracker};
use crate::window_tracker::{OverlayTarget, TrackerUpdate};

verus! {

/// How many frames the performance history holds when the loop starts.
pub const PERF_RECORDS: usize = 2048;

/// The height in pixels that the atlas is built at.
pub const FONT_PIXEL_HEIGHT: u32 = 18;

/// The first codepoint that is covered without being asked for.
pub const DEFAULT_CODEPOINT_FIRST: u32 = 1;

/// The last codepoint that is covered without being asked for.
pub const DEFAULT_CODEPOINT_LAST: u32 = 254;

/// What an overlay is started with.
#[derive(Debug)]
pub struct OverlayOptions {
    /// The title of the overlay window.
    pub title: String,
    /// What the overlay is laid over.
    pub target: OverlayTarget,
}

/// The fonts that every overlay starts with, in fallback order.
#[derive(Debug)]
pub struct DefaultFonts {
    /// The face for Latin text.
    pub primary: FontSource,
    /// The face that covers Chinese, Japanese and Korean.
    pub cjk: FontSource,
    /// The face with the widest coverage, asked last.
    pub fallback: FontSource,
}

/// Why the loop ended.
#[derive(Clone, Copy, Debug, PartialEq, Eq, Structural)]
pub enum StopReason {
    /// The target window is gone.
    TargetClosed,
    /// The host's update callback asked to stop.
    UpdateRequested,
    /// The host's render callback asked to stop: the user closed the overlay.
    RenderRequested,
    /// The toolkit could not prepare the frame.
    FramePreparationFailed,
    /// The system asked the overlay window to close.
    CloseRequested,
}

impl StopReason {
    /// The exit status of the loop: 1 where the toolkit failed, 0 for every orderly end.
    pub open spec fn spec_exit_code(self) -> i32 {
        match self {
            StopReason::FramePreparationFailed => 1,
            _ => 0,
        }
    }

    /// The exit status of the loop: 1 where the toolkit failed, 0 for every orderly end.
    pub fn exit_code(&self) -> (code: i32)
        ensures
            code == self.spec_exit_code(),
    {
        match self {
            StopReason::FramePreparationFailed => 1,
            _ => 0,
        }
    }
}

/// Where in a frame the loop is: what it waits for the host to report.
#[derive(Clone, Copy, Debug, PartialEq, Eq, Structural)]
pub enum LoopPhase {
    /// Between frames: the event pump delivers what the system has queued.
    Idle,
    /// The host samples the mouse, the keyboard and the target window.
    AwaitInput,
    /// The host's update callback runs.
    AwaitUpdate,
    /// The host rebuilds the atlas and uploads it to the render backend.
    AwaitFonts,
    /// The toolkit prepares the frame.
    AwaitPrepare,
    /// The host's render callback builds the frame's content.
    AwaitRender,
    /// The host draws the debug overlay.
    AwaitDebugOverlay,
    /// The render backend submits and presents the frame.
    AwaitSubmit,
    /// The loop has ended.
    Stopped(StopReason),
}

impl LoopPhase {
    /// The place of the phase within a frame.
    pub open spec fn rank(self) -> int {
        match self {
            LoopPhase::Idle => 0,
            LoopPhase::AwaitInput => 1,
            LoopPhase::AwaitUpdate => 2,
            LoopPhase::AwaitFonts => 3,
            LoopPhase::AwaitPrepare => 4,
            LoopPhase::AwaitRender => 5,
            LoopPhase::AwaitDebugOverlay => 6,
            LoopPhase::AwaitSubmit => 7,
            LoopPhase::Stopped(_) => 8,
        }
    }
}

/// What the host reports to the loop.
#[derive(Clone, Copy, Debug)]
pub enum LoopEvent {
    /// The event pump starts to deliver a batch of events: a frame begins.
    NewEvents,
    /// The event pump has delivered all the events that were queued.
    MainEventsCleared,
    /// The system asked the overlay window to close.
    CloseRequested,
    /// The input was sampled. `target` is the rectangle of the window that the loop
    /// asked about, `None` if that window no longer exists or none was asked about.
    InputSampled { mouse: MouseSample, keys: [bool; 256], target: Option<Rect> },
    /// The update callback has run; `keep_running` is what it returned.
    UpdateReturned { keep_running: bool },
    /// The atlas was rebuilt and uploaded.
    FontsUploaded,
    /// The toolkit has prepared the frame, or failed to.
    FramePrepared { ok: bool },
    /// The render callback has run; `keep_running` is what it returned.
    RenderReturned { keep_running: bool },
    /// The debug overlay was drawn.
    DebugOverlayDrawn,
    /// The render backend has submitted and presented the frame.
    FrameSubmitted,
}

/// What the loop asks of the host.
#[derive(Debug, PartialEq, Eq)]
pub enum LoopAction {
    /// Nothing; go on delivering events.
    Wait,
    /// Tell the toolkit how much time has passed since the frame before began.
    BeginFrame { delta_nanos: u128 },
    /// Sample the mouse and the keyboard, look up the rectangle of `window` if one is
    /// named, and report `LoopEvent::InputSampled`.
    SampleInput { window: Option<isize> },
    /// Feed `input` to the toolkit, move the overlay window to `reposition` if one is
    /// given, run the update callback and report `LoopEvent::UpdateReturned`.
    RunUpdate { input: Vec<InputEvent>, reposition: Option<Rect> },
    /// Clear the atlas, add the fonts that `entries` describe, upload the atlas to the
    /// render backend and report `LoopEvent::FontsUploaded`.
    RebuildFonts { entries: Vec<AtlasEntry> },
    /// Let the toolkit prepare the frame and report `LoopEvent::FramePrepared`.
    PrepareFrame,
    /// Run the render callback and report `LoopEvent::RenderReturned`.
    BuildUi,
    /// Draw the debug overlay and report `LoopEvent::DebugOverlayDrawn`.
    DrawDebugOverlay,
    /// Finish the draw list, hand it to the render backend and report
    /// `LoopEvent::FrameSubmitted`.
    SubmitFrame,
    /// Show the overlay window without giving it the focus.
    ShowWindow,
    /// Leave the loop.
    Exit(StopReason),
}

/// An action as a plain value.
pub enum ActionModel {
    Wait,
    BeginFrame { delta_nanos: u128 },
    SampleInput { window: Option<isize> },
    RunUpdate { input: Seq<InputEvent>, reposition: Option<Rect> },
    RebuildFonts { entries: Seq<AtlasEntryModel> },
    PrepareFrame,
    BuildUi,
    DrawDebugOverlay,
    SubmitFrame,
    ShowWindow,
    Exit(StopReason),
}

impl View for LoopAction {
    type V = ActionModel;

    open spec fn view(&self) -> ActionModel {
        match *self {
            LoopAction::Wait => ActionModel::Wait,
            LoopAction::BeginFrame { delta_nanos } => ActionModel::BeginFrame { delta_nanos },
            LoopAction::SampleInput { window } => ActionModel::SampleInput { window },
            LoopAction::RunUpdate { input, reposition } => ActionModel::RunUpdate {
                input: input@,
                reposition,
            },
            LoopAction::RebuildFonts { entries } => ActionModel::RebuildFonts {
                entries: atlas_model(entries@),
            },
            LoopAction::PrepareFrame => ActionModel::PrepareFrame,
            LoopAction::BuildUi => ActionModel::BuildUi,
            LoopAction::DrawDebugOverlay => ActionModel::DrawDebugOverlay,
            LoopAction::SubmitFrame => ActionModel::SubmitFrame,
            LoopAction::ShowWindow => ActionModel::ShowWindow,
            LoopAction::Exit(reason) => ActionModel::Exit(reason),
        }
    }
}

impl LoopAction {
    /// The glyph ranges of an atlas plan are canonical.
    pub open spec fn wf(&self) -> bool {
        match *self {
            LoopAction::RebuildFonts { entries } => atlas_wf(entries@),
            _ => true,
        }
    }
}

/// The mark that closes the delivery of the queued events.
pub open spec fn mark_events_cleared() -> &'static str {
    "events cleared"
}

/// The mark that closes the update phase.
pub open spec fn mark_update() -> &'static str {
    "update"
}

/// The mark that closes the render phase.
pub open spec fn mark_render_frame() -> &'static str {
    "render frame"
}

/// What the tracker's update means for the overlay window.
pub open spec fn reposition_of(update: TrackerUpdate) -> Option<Rect> {
    match update {
        TrackerUpdate::Reposition(rect) => Some(rect),
        _ => None,
    }
}

/// The loop as a plain value.
pub struct SystemModel {
    pub title: Seq<char>,
    pub controller: ControllerModel,
    pub phase: LoopPhase,
    /// When the frame before began.
    pub last_frame: u128,
}

/// What one step of the loop leaves behind.
pub struct StepResult {
    pub system: SystemModel,
    pub perf: PerfModel,
    pub action: ActionModel,
}

impl SystemModel {
    /// The loop as `init` leaves it: the three default fonts in fallback order, the
    /// default codepoints asked for, no frame rendered, between frames.
    pub open spec fn initial(
        title: Seq<char>,
        target: OverlayTarget,
        primary: FontSourceModel,
        cjk: FontSourceModel,
        fallback: FontSourceModel,
    ) -> SystemModel {
        SystemModel {
            title,
            controller: ControllerModel::initial(
                FontBuilderModel::empty().register_font(primary).register_font(cjk).register_font(
                    fallback,
                ).register_codepoints(DEFAULT_CODEPOINT_FIRST, DEFAULT_CODEPOINT_LAST),
                target,
            ),
            phase: LoopPhase::Idle,
            last_frame: 0,
        }
    }

    /// The loop ends.
    pub open spec fn stop(self, perf: PerfModel, reason: StopReason) -> StepResult {
        StepResult {
            system: SystemModel { phase: LoopPhase::Stopped(reason), ..self },
            perf,
            action: ActionModel::Exit(reason),
        }
    }

    /// The loop goes on to `phase` and asks for `action`.
    pub open spec fn proceed(self, perf: PerfModel, phase: LoopPhase, action: ActionModel) -> StepResult {
        StepResult { system: SystemModel { phase, ..self }, perf, action }
    }

    /// A frame begins: a performance record is opened, and the toolkit learns how long
    /// ago the frame before began.
    pub open spec fn begin_frame(self, perf: PerfModel, now: u128) -> StepResult {
        StepResult {
            system: SystemModel { last_frame: now, ..self },
            perf: perf.begin_at(now),
            action: ActionModel::BeginFrame { delta_nanos: elapsed_since(self.last_frame, now) },
        }
    }

    /// The queued events are delivered: the update phase starts with the input.
    pub open spec fn start_update(self, perf: PerfModel, now: u128) -> StepResult {
        self.proceed(
            perf.mark_at(mark_events_cleared(), now),
            LoopPhase::AwaitInput,
            ActionModel::SampleInput { window: self.controller.tracker.watched_window() },
        )
    }

    /// The input is taken in and the window tracker is brought up to date. The loop
    /// ends where the target is gone; otherwise the host's update callback is next.
    pub open spec fn take_input(
        self,
        perf: PerfModel,
        mouse: MouseSample,
        keys: Seq<bool>,
        target: Option<Rect>,
    ) -> StepResult {
        let updated = SystemModel {
            controller: self.controller.update_state(mouse, keys, target),
            ..self
        };
        let update = self.controller.tracker.update(target).1;
        if update == TrackerUpdate::TargetClosed {
            updated.stop(perf, StopReason::TargetClosed)
        } else {
            updated.proceed(
                perf,
                LoopPhase::AwaitUpdate,
                ActionModel::RunUpdate {
                    input: self.controller.input_events(mouse, keys),
                    reposition: reposition_of(update),
                },
            )
        }
    }

    /// The update phase is over: the toolkit prepares the frame.
    pub open spec fn prepare_frame(self, perf: PerfModel, now: u128) -> StepResult {
        self.proceed(
            perf.mark_at(mark_update(), now),
            LoopPhase::AwaitPrepare,
            ActionModel::PrepareFrame,
        )
    }

    /// The update callback has returned. The loop ends where it asked to. Otherwise the
    /// atlas is planned anew if anything was registered since it was last built, and
    /// only then.
    pub open spec fn after_update(self, perf: PerfModel, keep_running: bool, now: u128) -> StepResult {
        if !keep_running {
            self.stop(perf, StopReason::UpdateRequested)
        } else if self.controller.fonts.dirty {
            (SystemModel {
                controller: ControllerModel {
                    fonts: self.controller.fonts.clean(),
                    ..self.controller
                },
                ..self
            }).proceed(
                perf,
                LoopPhase::AwaitFonts,
                ActionModel::RebuildFonts {
                    entries: self.controller.fonts.build(FONT_PIXEL_HEIGHT),
                },
            )
        } else {
            self.prepare_frame(perf, now)
        }
    }

    /// The toolkit has prepared the frame, or the loop ends with a failure.
    pub open spec fn after_prepare(self, perf: PerfModel, ok: bool) -> StepResult {
        if ok {
            self.proceed(perf, LoopPhase::AwaitRender, ActionModel::BuildUi)
        } else {
            self.stop(perf, StopReason::FramePreparationFailed)
        }
    }

    /// The frame's content is complete: it is handed to the render backend.
    pub open spec fn submit(self, perf: PerfModel, now: u128) -> StepResult {
        self.proceed(
            perf.mark_at(mark_render_frame(), now),
            LoopPhase::AwaitSubmit,
            ActionModel::SubmitFrame,
        )
    }

    /// The render callback has returned. The loop ends where it asked to, and the
    /// frame is not submitted. Otherwise the debug overlay is drawn if it is switched
    /// on, and the frame is submitted.
    pub open spec fn after_render(self, perf: PerfModel, keep_running: bool, now: u128) -> StepResult {
        if !keep_running {
            self.stop(perf, StopReason::RenderRequested)
        } else if self.controller.debug_overlay_shown {
            self.proceed(perf, LoopPhase::AwaitDebugOverlay, ActionModel::DrawDebugOverlay)
        } else {
            self.submit(perf, now)
        }
    }

    /// The frame was submitted: it is counted, and after the first frame the overlay
    /// window is shown.
    pub open spec fn finish_frame(self, perf: PerfModel) -> StepResult {
        (SystemModel { controller: self.controller.frame_rendered(), ..self }).proceed(
            perf,
            LoopPhase::Idle,
            if self.controller.first_frame_rendered() {
                ActionModel::ShowWindow
            } else {
                ActionModel::Wait
            },
        )
    }

    /// One step of the loop: what `event`, reported at the time `now`, leads to.
    ///
    /// A loop that has ended stays as it is and asks to exit again. A request to close
    /// the window ends the loop wherever it is. An event that the phase does not wait
    /// for is passed over.
    pub open spec fn step(self, perf: PerfModel, event: LoopEvent, now: u128) -> StepResult {
        match self.phase {
            LoopPhase::Stopped(reason) => StepResult {
                system: self,
                perf,
                action: ActionModel::Exit(reason),
            },
            _ => match (self.phase, event) {
                (_, LoopEvent::CloseRequested) => self.stop(perf, StopReason::CloseRequested),
                (LoopPhase::Idle, LoopEvent::NewEvents) => self.begin_frame(perf, now),
                (LoopPhase::Idle, LoopEvent::MainEventsCleared) => self.start_update(perf, now),
                (LoopPhase::AwaitInput, LoopEvent::InputSampled { mouse, keys, target }) => self.take_input(
                    perf,
                    mouse,
                    keys@,
                    target,
                ),
                (LoopPhase::AwaitUpdate, LoopEvent::UpdateReturned { keep_running }) => self.after_update(
                    perf,
                    keep_running,
                    now,
                ),
                (LoopPhase::AwaitFonts, LoopEvent::FontsUploaded) => self.prepare_frame(perf, now),
                (LoopPhase::AwaitPrepare, LoopEvent::FramePrepared { ok }) => self.after_prepare(
                    perf,
                    ok,
                ),
                (LoopPhase::AwaitRender, LoopEvent::RenderReturned { keep_running }) => self.after_render(
                    perf,
                    keep_running,
                    now,
                ),
                (LoopPhase::AwaitDebugOverlay, LoopEvent::DebugOverlayDrawn) => self.submit(perf, now),
                (LoopPhase::AwaitSubmit, LoopEvent::FrameSubmitted) => self.finish_frame(perf),
                _ => StepResult { system: self, perf, action: ActionModel::Wait },
            },
        }
    }

    /// The loop after the first `n` of `events`, the `i`-th reported at `times[i]`.
    pub open spec fn run(self, perf: PerfModel, events: Seq<LoopEvent>, times: Seq<u128>, n: int) -> StepResult
        decreases n,
    {
        if n <= 0 {
            StepResult { system: self, perf, action: ActionModel::Wait }
        } else {
            let before = self.run(perf, events, times, n - 1);
            before.system.step(before.perf, events[n - 1], times[n - 1])
        }
    }
}

/// A loop that has ended stays ended: whatever is reported to it, it changes nothing
/// and asks to exit with the reason it ended for.
pub proof fn lemma_stopped_loop_stays_stopped(
    system: SystemModel,
    perf: PerfModel,
    event: LoopEvent,
    now: u128,
    reason: StopReason,
)
    requires
        system.phase == LoopPhase::Stopped(reason),
    ensures
        system.step(perf, event, now) == (StepResult {
            system,
            perf,
            action: ActionModel::Exit(reason),
        }),
{
}

/// After the loop has ended no frame is begun, drawn or submitted any more: through
/// any run of events the loop and the performance history stay as they were, and every
/// answer is the request to exit.
pub proof fn lemma_nothing_runs_after_stop(
    system: SystemModel,
    perf: PerfModel,
    events: Seq<LoopEvent>,
    times: Seq<u128>,
    n: int,
    reason: StopReason,
)
    requires
        system.phase == LoopPhase::Stopped(reason),
        0 <= n <= events.len(),
        events.len() == times.len(),
    ensures
        system.run(perf, events, times, n).system == system,
        system.run(perf, events, times, n).perf == perf,
        n > 0 ==> system.run(perf, events, times, n).action == ActionModel::Exit(reason),
    decreases n,
{
    if n > 0 {
        lemma_nothing_runs_after_stop(system, perf, events, times, n - 1, reason);
    }
}

/// When the target window is gone, the update that finds it gone ends the loop at
/// once, with exit status 0, before the host's callbacks run; and whatever is reported
/// afterwards, the window tracker is not asked again and no further frame is attempted.
pub proof fn lemma_target_loss_ends_loop(
    system: SystemModel,
    perf: PerfModel,
    mouse: MouseSample,
    keys: [bool; 256],
    now: u128,
    later: Seq<LoopEvent>,
    times: Seq<u128>,
    n: int,
)
    requires
        system.phase == LoopPhase::AwaitInput,
        system.controller.tracker.target is Window,
        !system.controller.tracker.closed,
        0 <= n <= later.len(),
        later.len() == times.len(),
    ensures
        ({
            let lost = system.step(perf, LoopEvent::InputSampled { mouse, keys, target: None }, now);
            let after = lost.system.run(lost.perf, later, times, n);
            &&& lost.action == ActionModel::Exit(StopReason::TargetClosed)
            &&& lost.system.phase == LoopPhase::Stopped(StopReason::TargetClosed)
            &&& lost.system.controller.tracker.closed
            &&& lost.perf == perf
            &&& StopReason::TargetClosed.spec_exit_code() == 0
            &&& after.system == lost.system
            &&& after.perf == perf
            &&& n > 0 ==> after.action == ActionModel::Exit(StopReason::TargetClosed)
        }),
{
    let lost = system.step(perf, LoopEvent::InputSampled { mouse, keys, target: None }, now);
    lemma_nothing_runs_after_stop(lost.system, lost.perf, later, times, n, StopReason::TargetClosed);
}

/// While the target is alive, the update of a frame leaves the overlay window exactly
/// over it: if the overlay was where the tracker last sent it, then once the host has
/// carried out the move that comes with `RunUpdate`, the overlay is at the target's
/// rectangle, in the same frame in which the target was seen to have moved.
pub proof fn lemma_overlay_follows_target(
    system: SystemModel,
    perf: PerfModel,
    mouse: MouseSample,
    keys: [bool; 256],
    observed: Option<Rect>,
    now: u128,
    overlay: Rect,
    rect: Rect,
)
    requires
        system.phase == LoopPhase::AwaitInput,
        !system.controller.tracker.closed,
        system.controller.tracker.synced_with(overlay),
        system.controller.tracker.resolve(observed) == Some(rect),
    ensures
        ({
            let next = system.step(perf, LoopEvent::InputSampled { mouse, keys, target: observed }, now);
            &&& next.system.phase == LoopPhase::AwaitUpdate
            &&& next.action matches ActionModel::RunUpdate { reposition, .. } && (match reposition {
                Some(moved) => moved,
                None => overlay,
            }) == rect
            &&& next.system.controller.tracker.synced_with(rect)
        }),
{
}

/// The steps of a frame come in one order: input, update, atlas, preparation, render,
/// debug overlay, submission. A step either leaves the phase as it is, moves it
/// forward within the frame, or closes the frame after the submission; and what the
/// host is asked to do is what the new phase waits for.
pub proof fn lemma_frame_runs_in_order(
    system: SystemModel,
    perf: PerfModel,
    event: LoopEvent,
    now: u128,
)
    ensures
        ({
            let next = system.step(perf, event, now);
            &&& next.system.phase == system.phase || next.system.phase.rank() > system.phase.rank() || (
            system.phase == LoopPhase::AwaitSubmit && next.system.phase == LoopPhase::Idle)
            &&& next.action is SampleInput <==> system.phase == LoopPhase::Idle && next.system.phase
                == LoopPhase::AwaitInput
            &&& next.action is RunUpdate <==> system.phase == LoopPhase::AwaitInput && next.system.phase
                == LoopPhase::AwaitUpdate
            &&& next.action is RebuildFonts <==> system.phase == LoopPhase::AwaitUpdate
                && next.system.phase == LoopPhase::AwaitFonts
            &&& next.action is PrepareFrame <==> (system.phase == LoopPhase::AwaitUpdate || system.phase
                == LoopPhase::AwaitFonts) && next.system.phase == LoopPhase::AwaitPrepare
            &&& next.action is BuildUi <==> system.phase == LoopPhase::AwaitPrepare && next.system.phase
                == LoopPhase::AwaitRender
            &&& next.action is DrawDebugOverlay <==> system.phase == LoopPhase::AwaitRender
                && next.system.phase == LoopPhase::AwaitDebugOverlay
            &&& next.action is SubmitFrame <==> (system.phase == LoopPhase::AwaitRender || system.phase
                == LoopPhase::AwaitDebugOverlay) && next.system.phase == LoopPhase::AwaitSubmit
            &&& next.action is Exit <==> next.system.phase is Stopped
        }),
{
}

/// The atlas is planned anew exactly when the update callback has returned, wants the
/// loop to go on, and something was registered since the last build; the plan is the
/// builder's, at the fixed pixel height, and the dirty flag is clear afterwards.
pub proof fn lemma_atlas_is_rebuilt_only_when_dirty(
    system: SystemModel,
    perf: PerfModel,
    event: LoopEvent,
    now: u128,
)
    ensures
        ({
            let next = system.step(perf, event, now);
            &&& next.action is RebuildFonts <==> {
                &&& system.phase == LoopPhase::AwaitUpdate
                &&& event == LoopEvent::UpdateReturned { keep_running: true }
                &&& system.controller.fonts.dirty
            }
            &&& next.action matches ActionModel::RebuildFonts { entries } ==> {
                &&& entries == system.controller.fonts.build(FONT_PIXEL_HEIGHT)
                &&& !next.system.controller.fonts.dirty
            }
        }),
{
}

/// A frame is submitted only with the render callback's consent: the request to submit
/// answers either the render callback's wish to go on or the drawing of the debug
/// overlay, which itself is only asked for after that wish. A frame during which the
/// loop ends is not submitted.
pub proof fn lemma_submission_needs_render_consent(
    system: SystemModel,
    perf: PerfModel,
    event: LoopEvent,
    now: u128,
)
    ensures
        ({
            let next = system.step(perf, event, now);
            &&& next.action is SubmitFrame ==> {
                ||| (system.phase == LoopPhase::AwaitRender && event == LoopEvent::RenderReturned {
                    keep_running: true,
                } && !system.controller.debug_overlay_shown)
                ||| (system.phase == LoopPhase::AwaitDebugOverlay && event is DebugOverlayDrawn)
            }
            &&& next.action is DrawDebugOverlay ==> {
                &&& system.phase == LoopPhase::AwaitRender
                &&& event == LoopEvent::RenderReturned { keep_running: true }
                &&& system.controller.debug_overlay_shown
            }
            &&& next.action is Exit ==> !(next.action is SubmitFrame)
        }),
{
}

/// The frame counter moves only when a submission is reported, and then by one; the
/// overlay window is shown in answer to the first such report and to no other.
pub proof fn lemma_frames_are_counted_on_submission(
    system: SystemModel,
    perf: PerfModel,
    event: LoopEvent,
    now: u128,
)
    ensures
        ({
            let next = system.step(perf, event, now);
            &&& next.system.controller.frame_count != system.controller.frame_count ==> {
                &&& system.phase == LoopPhase::AwaitSubmit
                &&& event is FrameSubmitted
                &&& next.system.controller.frame_count == system.controller.frame_count + 1
            }
            &&& next.action is ShowWindow <==> {
                &&& system.phase == LoopPhase::AwaitSubmit
                &&& event is FrameSubmitted
                &&& system.controller.frame_count == 0
            }
            &&& next.action is ShowWindow ==> next.system.controller.tracker.force_update
        }),
{
}

/// The loop ends with exit status 1 only where the toolkit failed to prepare a frame;
/// the target's loss, a callback's wish to stop and the request to close the window
/// all end it with exit status 0.
pub proof fn lemma_exit_status(system: SystemModel, perf: PerfModel, event: LoopEvent, now: u128)
    requires
        !(system.phase is Stopped),
    ensures
        ({
            let next = system.step(perf, event, now);
            &&& next.action matches ActionModel::Exit(reason) ==> {
                &&& reason.spec_exit_code() == 1 <==> {
                    &&& system.phase == LoopPhase::AwaitPrepare
                    &&& event == LoopEvent::FramePrepared { ok: false }
                }
                &&& reason.spec_exit_code() == 0 || reason.spec_exit_code() == 1
                &&& reason == StopReason::RenderRequested <==> {
                    &&& system.phase == LoopPhase::AwaitRender
                    &&& event == LoopEvent::RenderReturned { keep_running: false }
                }
                &&& reason == StopReason::UpdateRequested <==> {
                    &&& system.phase == LoopPhase::AwaitUpdate
                    &&& event == LoopEvent::UpdateReturned { keep_running: false }
                }
                &&& reason == StopReason::CloseRequested <==> event is CloseRequested
            }
        }),
{
}

/// The loop: the runtime state and the place within the frame.
#[derive(Debug)]
pub struct System {
    title: String,
    controller: SystemRuntimeController,
    phase: LoopPhase,
    last_frame: u128,
}

impl View for System {
    type V = SystemModel;

    closed spec fn view(&self) -> SystemModel {
        SystemModel {
            title: self.title@,
            controller: self.controller@,
            phase: self.phase,
            last_frame: self.last_frame,
        }
    }
}

/// Sets up the loop for an overlay: the default fonts are registered in fallback
/// order, the default codepoints are asked for, and the window tracker is pointed at
/// the target.
pub fn init(options: OverlayOptions, fonts: DefaultFonts) -> (system: System)
    requires
        fonts.primary.wf(),
        fonts.cjk.wf(),
        fonts.fallback.wf(),
    ensures
        system.wf(),
        system@ == SystemModel::initial(
            options.title@,
            options.target,
            fonts.primary@,
            fonts.cjk@,
            fonts.fallback@,
        ),
{
    let mut imgui_fonts = FontAtlasBuilder::new();
    imgui_fonts.register_font(fonts.primary);
    imgui_fonts.register_font(fonts.cjk);
    imgui_fonts.register_font(fonts.fallback);
    imgui_fonts.register_codepoints(DEFAULT_CODEPOINT_FIRST, DEFAULT_CODEPOINT_LAST);
    System {
        title: options.title,
        controller: SystemRuntimeController::new(imgui_fonts, &options.target),
        phase: LoopPhase::Idle,
        last_frame: 0,
    }
}

impl System {
    /// The runtime state is well-formed.
    pub closed spec fn wf(&self) -> bool {
        self.controller.wf()
    }

    /// The title of the overlay window.
    pub fn title(&self) -> (title: &String)
        ensures
            title@ == self@.title,
    {
        &self.title
    }

    /// Where in a frame the loop is.
    pub fn phase(&self) -> (phase: LoopPhase)
        ensures
            phase == self@.phase,
    {
        self.phase
    }

    /// Why the loop ended, if it has.
    pub fn stop_reason(&self) -> (reason: Option<StopReason>)
        ensures
            reason == match self@.phase {
                LoopPhase::Stopped(reason) => Some(reason),
                _ => None,
            },
    {
        match self.phase {
            LoopPhase::Stopped(reason) => Some(reason),
            _ => None,
        }
    }

    /// The runtime state.
    pub fn controller(&self) -> (controller: &SystemRuntimeController)
        ensures
            controller@ == self@.controller,
            self.wf() ==> controller.wf(),
    {
        &self.controller
    }

    /// The runtime state, for the host's callbacks to change.
    pub fn controller_mut(&mut self) -> (controller: &mut SystemRuntimeController)
        ensures
            controller@ == old(self)@.controller,
            old(self).wf() ==> controller.wf(),
            final(self)@ == (SystemModel { controller: final(controller)@, ..old(self)@ }),
            final(controller).wf() ==> final(self).wf(),
    {
        &mut self.controller
    }

    /// Ends the loop for `reason`.
    fn stop(&mut self, reason: StopReason) -> (action: LoopAction)
        ensures
            final(self)@ == (SystemModel { phase: LoopPhase::Stopped(reason), ..old(self)@ }),
            old(self).wf() ==> final(self).wf(),
            action@ == ActionModel::Exit(reason),
            action.wf(),
    {
        self.phase = LoopPhase::Stopped(reason);
        LoopAction::Exit(reason)
    }

    /// Closes the update phase and asks for the frame to be prepared.
    fn prepare_frame(&mut self, perf: &mut PerfTracker, now: u128) -> (action: LoopAction)
        requires
            old(self).wf(),
            old(perf).wf(),
        ensures
            final(self).wf(),
            final(perf).wf(),
            action.wf(),
            (StepResult { system: final(self)@, perf: final(perf)@, action: action@ }) == old(
                self,
            )@.prepare_frame(old(perf)@, now),
    {
        perf.mark_at("update", now);
        self.phase = LoopPhase::AwaitPrepare;
        LoopAction::PrepareFrame
    }

    /// Closes the render phase and asks for the frame to be submitted.
    fn submit(&mut self, perf: &mut PerfTracker, now: u128) -> (action: LoopAction)
        requires
            old(self).wf(),
            old(perf).wf(),
        ensures
            final(self).wf(),
            final(perf).wf(),
            action.wf(),
            (StepResult { system: final(self)@, perf: final(perf)@, action: action@ }) == old(
                self,
            )@.submit(old(perf)@, now),
    {
        perf.mark_at("render frame", now);
        self.phase = LoopPhase::AwaitSubmit;
        LoopAction::SubmitFrame
    }

    /// Takes the loop one step forward: `event` is what the host reports, `now` the
    /// time of the report on the clock that all the reports are timed with. Returns
    /// what the host has to do next.
    pub fn handle_event_at(&mut self, perf: &mut PerfTracker, event: LoopEvent, now: u128) -> (action:
        LoopAction)
        requires
            old(self).wf(),
            old(perf).wf(),
        ensures
            final(self).wf(),
            final(perf).wf(),
            action.wf(),
            (StepResult { system: final(self)@, perf: final(perf)@, action: action@ }) == old(
                self,
            )@.step(old(perf)@, event, now),
    {
        if let LoopPhase::Stopped(reason) = self.phase {
            return LoopAction::Exit(reason);
        }
        match event {
            LoopEvent::CloseRequested => self.stop(StopReason::CloseRequested),
            LoopEvent::NewEvents => {
                if self.phase == LoopPhase::Idle {
                    perf.begin_at(now);
                    let delta_nanos: u128 = if now >= self.last_frame {
                        now - self.last_frame
                    } else {
                        0
                    };
                    self.last_frame = now;
                    LoopAction::BeginFrame { delta_nanos }
                } else {
                    LoopAction::Wait
                }
            },
            LoopEvent::MainEventsCleared => {
                if self.phase == LoopPhase::Idle {
                    perf.mark_at("events cleared", now);
                    self.phase = LoopPhase::AwaitInput;
                    LoopAction::SampleInput { window: self.controller.window_tracker().watched_window() }
                } else {
                    LoopAction::Wait
                }
            },
            LoopEvent::InputSampled { mouse, keys, target } => {
                if self.phase == LoopPhase::AwaitInput {
                    let (input, update) = self.controller.update_state(&mouse, &keys, target);
                    match update {
                        TrackerUpdate::TargetClosed => self.stop(StopReason::TargetClosed),
                        TrackerUpdate::Reposition(rect) => {
                            self.phase = LoopPhase::AwaitUpdate;
                            LoopAction::RunUpdate { input, reposition: Some(rect) }
                        },
                        TrackerUpdate::Unchanged => {
                            self.phase = LoopPhase::AwaitUpdate;
                            LoopAction::RunUpdate { input, reposition: None }
                        },
                    }
                } else {
                    LoopAction::Wait
                }
            },
            LoopEvent::UpdateReturned { keep_running } => {
                if self.phase == LoopPhase::AwaitUpdate {
                    if !keep_running {
                        self.stop(StopReason::UpdateRequested)
                    } else {
                        match self.controller.rebuild_fonts(FONT_PIXEL_HEIGHT) {
                            Some(entries) => {
                                self.phase = LoopPhase::AwaitFonts;
                                LoopAction::RebuildFonts { entries }
                            },
                            None => self.prepare_frame(perf, now),
                        }
                    }
                } else {
                    LoopAction::Wait
                }
            },
            LoopEvent::FontsUploaded => {
                if self.phase == LoopPhase::AwaitFonts {
                    self.prepare_frame(perf, now)
                } else {
                    LoopAction::Wait
                }
            },
            LoopEvent::FramePrepared { ok } => {
                if self.phase == LoopPhase::AwaitPrepare {
                    if ok {
                        self.phase = LoopPhase::AwaitRender;
                        LoopAction::BuildUi
                    } else {
                        self.stop(StopReason::FramePreparationFailed)
                    }
                } else {
                    LoopAction::Wait
                }
            },
            LoopEvent::RenderReturned { keep_running } => {
                if self.phase == LoopPhase::AwaitRender {
                    if !keep_running {
                        self.stop(StopReason::RenderRequested)
                    } else if self.controller.debug_overlay_shown() {
                        self.phase = LoopPhase::AwaitDebugOverlay;
                        LoopAction::DrawDebugOverlay
                    } else {
                        self.submit(perf, now)
                    }
                } else {
                    LoopAction::Wait
                }
            },
            LoopEvent::DebugOverlayDrawn => {
                if self.phase == LoopPhase::AwaitDebugOverlay {
                    self.submit(perf, now)
                } else {
                    LoopAction::Wait
                }
            },
            LoopEvent::FrameSubmitted => {
                if self.phase == LoopPhase::AwaitSubmit {
                    let first = self.controller.frame_rendered();
                    self.phase = LoopPhase::Idle;
                    if first {
                        LoopAction::ShowWindow
                    } else {
                        LoopAction::Wait
                    }
                } else {
                    LoopAction::Wait
                }
            },
        }
    }

    /// Takes the loop one step forward, with the time of the report read from the
    /// clock of `perf`. Whatever the clock says, the loop does what `handle_event_at`
    /// does with that reading.
    pub fn handle_event(&mut self, perf: &mut PerfTracker, event: LoopEvent) -> (action: LoopAction)
        requires
            old(self).wf(),
            old(perf).wf(),
        ensures
            final(self).wf(),
            final(perf).wf(),
            action.wf(),
            exists|now: u128|
                (StepResult { system: final(self)@, perf: final(perf)@, action: action@ }) == old(
                    self,
                )@.step(old(perf)@, event, now),
    {
        let now = perf.read_clock();
        self.handle_event_at(perf, event, now)
    }
}

} // verus!
