use overlay::codepoints::CodepointRange;
use overlay::font::{resolve_glyph, FontSource};
use overlay::geometry::Rect;
use overlay::input::{InputEvent, MouseSample};
use overlay::perf::PerfTracker;
use overlay::system::{
    init,
    DefaultFonts,
    LoopAction,
    LoopEvent,
    LoopPhase,
    OverlayOptions,
    StopReason,
    System,
    FONT_PIXEL_HEIGHT,
    PERF_RECORDS,
};
use overlay::window_tracker::OverlayTarget;

fn range(first: u32, last: u32) -> CodepointRange {
    CodepointRange { first, last }
}

fn fonts() -> DefaultFonts {
    DefaultFonts {
        primary: FontSource::new(vec![1], &vec![range(0x20, 0x7e)]),
        cjk: FontSource::new(vec![2], &vec![range(0x4e00, 0x9fff)]),
        fallback: FontSource::new(vec![3], &vec![range(0, 0xffff)]),
    }
}

fn start(target: OverlayTarget) -> (System, PerfTracker) {
    let system = init(OverlayOptions { title: String::from("Overlay"), target }, fonts());
    (system, PerfTracker::new(PERF_RECORDS))
}

fn sampled(target: Option<Rect>) -> LoopEvent {
    LoopEvent::InputSampled {
        mouse: MouseSample { x: 0, y: 0, buttons: [false; 5] },
        keys: [false; 256],
        target,
    }
}

/// What a scripted host saw while it drove the loop.
struct Trace {
    frames_begun: u32,
    updates: u32,
    rebuilds: u32,
    renders: u32,
    debug_overlays: u32,
    submissions: u32,
    shows: u32,
    moves: Vec<Rect>,
    exit: Option<StopReason>,
}

/// Drives the loop the way a host does, for at most `frames` frames. The callbacks
/// are told the number of frames that were rendered so far.
fn drive(
    system: &mut System,
    perf: &mut PerfTracker,
    frames: u32,
    target_at: &dyn Fn(u64) -> Option<Rect>,
    update: &dyn Fn(u64) -> bool,
    prepare: &dyn Fn(u64) -> bool,
    render: &dyn Fn(u64) -> bool,
) -> Trace {
    let mut trace = Trace {
        frames_begun: 0,
        updates: 0,
        rebuilds: 0,
        renders: 0,
        debug_overlays: 0,
        submissions: 0,
        shows: 0,
        moves: Vec::new(),
        exit: None,
    };
    let mut now: u128 = 0;
    let mut frame: u32 = 0;
    while frame < frames {
        let mut event = LoopEvent::NewEvents;
        loop {
            now += 1_000;
            let count = system.controller().frame_count();
            let action = system.handle_event_at(perf, event, now);
            event = match action {
                LoopAction::BeginFrame { .. } => {
                    trace.frames_begun += 1;
                    LoopEvent::MainEventsCleared
                }
                LoopAction::SampleInput { .. } => sampled(target_at(count)),
                LoopAction::RunUpdate { reposition, .. } => {
                    if let Some(rect) = reposition {
                        trace.moves.push(rect);
                    }
                    trace.updates += 1;
                    LoopEvent::UpdateReturned { keep_running: update(count) }
                }
                LoopAction::RebuildFonts { .. } => {
                    trace.rebuilds += 1;
                    LoopEvent::FontsUploaded
                }
                LoopAction::PrepareFrame => LoopEvent::FramePrepared { ok: prepare(count) },
                LoopAction::BuildUi => {
                    trace.renders += 1;
                    LoopEvent::RenderReturned { keep_running: render(count) }
                }
                LoopAction::DrawDebugOverlay => {
                    trace.debug_overlays += 1;
                    LoopEvent::DebugOverlayDrawn
                }
                LoopAction::SubmitFrame => {
                    trace.submissions += 1;
                    LoopEvent::FrameSubmitted
                }
                LoopAction::ShowWindow => {
                    trace.shows += 1;
                    break;
                }
                LoopAction::Wait => break,
                LoopAction::Exit(reason) => {
                    trace.exit = Some(reason);
                    return trace;
                }
            };
        }
        frame += 1;
    }
    trace
}

fn always(_: u64) -> bool {
    true
}

fn at_home(_: u64) -> Option<Rect> {
    Some(Rect::new(0, 0, 800, 600))
}

#[test]
fn init_registers_the_default_fonts_and_codepoints() {
    let (system, perf) = start(OverlayTarget::Window(42));
    assert_eq!(system.title(), "Overlay");
    assert_eq!(system.phase(), LoopPhase::Idle);
    assert_eq!(system.stop_reason(), None);
    assert_eq!(perf.history_length(), 2048);
    let controller = system.controller();
    assert_eq!(controller.frame_count(), 0);
    assert!(!controller.debug_overlay_shown());
    assert_eq!(controller.window_tracker().target(), OverlayTarget::Window(42));
    let fonts = controller.fonts();
    assert!(fonts.flag_updated());
    assert_eq!(fonts.source_count(), 3);
    assert_eq!(fonts.source_data(0), Some(&vec![1u8]));
    assert_eq!(fonts.source_data(2), Some(&vec![3u8]));
    assert!(!fonts.is_registered(0));
    assert!(fonts.is_registered(1));
    assert!(fonts.is_registered(254));
    assert!(!fonts.is_registered(255));
    assert_eq!(fonts.resolve(0x41), Some(0));
    assert_eq!(fonts.resolve(0x7f), Some(2));
}

#[test]
fn first_frame_runs_every_step_in_order() {
    let (mut system, mut perf) = start(OverlayTarget::Window(42));
    let rect = Rect::new(0, 0, 800, 600);
    assert_eq!(
        system.handle_event_at(&mut perf, LoopEvent::NewEvents, 500),
        LoopAction::BeginFrame { delta_nanos: 500 }
    );
    assert_eq!(system.phase(), LoopPhase::Idle);
    assert_eq!(
        system.handle_event_at(&mut perf, LoopEvent::MainEventsCleared, 600),
        LoopAction::SampleInput { window: Some(42) }
    );
    assert_eq!(system.phase(), LoopPhase::AwaitInput);
    assert_eq!(
        system.handle_event_at(&mut perf, sampled(Some(rect)), 700),
        LoopAction::RunUpdate {
            input: vec![InputEvent::MousePosition { x: 0, y: 0 }],
            reposition: Some(rect),
        }
    );
    assert_eq!(system.phase(), LoopPhase::AwaitUpdate);
    let action = system.handle_event_at(&mut perf, LoopEvent::UpdateReturned { keep_running: true }, 800);
    match action {
        LoopAction::RebuildFonts { entries } => {
            assert_eq!(entries.len(), 3);
            assert_eq!(entries[0].pixel_height(), FONT_PIXEL_HEIGHT);
            assert_eq!(entries[0].pixel_height(), 18);
            assert_eq!(entries[0].glyph_ranges(), &vec![range(0x20, 0x7e)]);
            assert!(entries[1].glyph_ranges().is_empty());
            assert_eq!(entries[2].glyph_ranges(), &vec![range(1, 0x1f), range(0x7f, 0xfe)]);
            assert_eq!(resolve_glyph(&entries, 0x41), Some(0));
        }
        other => panic!("expected the atlas to be rebuilt, got {:?}", other),
    }
    assert_eq!(system.phase(), LoopPhase::AwaitFonts);
    assert!(!system.controller().fonts().flag_updated());
    assert_eq!(system.handle_event_at(&mut perf, LoopEvent::FontsUploaded, 900), LoopAction::PrepareFrame);
    assert_eq!(
        system.handle_event_at(&mut perf, LoopEvent::FramePrepared { ok: true }, 1_000),
        LoopAction::BuildUi
    );
    assert_eq!(
        system.handle_event_at(&mut perf, LoopEvent::RenderReturned { keep_running: true }, 1_100),
        LoopAction::SubmitFrame
    );
    assert_eq!(system.controller().frame_count(), 0);
    assert_eq!(system.handle_event_at(&mut perf, LoopEvent::FrameSubmitted, 1_200), LoopAction::ShowWindow);
    assert_eq!(system.phase(), LoopPhase::Idle);
    assert_eq!(system.controller().frame_count(), 1);
    let marks = perf.current().unwrap();
    assert_eq!(marks.len(), 3);
    assert_eq!((marks[0].label, marks[0].elapsed), ("events cleared", 100));
    assert_eq!((marks[1].label, marks[1].elapsed), ("update", 400));
    assert_eq!((marks[2].label, marks[2].elapsed), ("render frame", 600));
}

#[test]
fn second_frame_skips_the_atlas_and_resyncs_the_overlay() {
    let (mut system, mut perf) = start(OverlayTarget::Window(42));
    let trace = drive(&mut system, &mut perf, 1, &at_home, &always, &always, &always);
    assert_eq!(trace.rebuilds, 1);
    assert_eq!(trace.shows, 1);
    assert_eq!(
        system.handle_event_at(&mut perf, LoopEvent::NewEvents, 20_000),
        LoopAction::BeginFrame { delta_nanos: 19_000 }
    );
    system.handle_event_at(&mut perf, LoopEvent::MainEventsCleared, 20_100);
    assert_eq!(
        system.handle_event_at(&mut perf, sampled(at_home(1)), 20_200),
        LoopAction::RunUpdate { input: vec![], reposition: Some(Rect::new(0, 0, 800, 600)) }
    );
    assert_eq!(
        system.handle_event_at(&mut perf, LoopEvent::UpdateReturned { keep_running: true }, 20_300),
        LoopAction::PrepareFrame
    );
    system.handle_event_at(&mut perf, LoopEvent::FramePrepared { ok: true }, 20_400);
    system.handle_event_at(&mut perf, LoopEvent::RenderReturned { keep_running: true }, 20_500);
    assert_eq!(system.handle_event_at(&mut perf, LoopEvent::FrameSubmitted, 20_600), LoopAction::Wait);
    assert_eq!(system.controller().frame_count(), 2);
    assert_eq!(perf.record_count(), 2);
    system.handle_event_at(&mut perf, LoopEvent::NewEvents, 30_000);
    system.handle_event_at(&mut perf, LoopEvent::MainEventsCleared, 30_100);
    assert_eq!(
        system.handle_event_at(&mut perf, sampled(at_home(2)), 30_200),
        LoopAction::RunUpdate { input: vec![], reposition: None }
    );
}

#[test]
fn render_stop_on_frame_five_gives_five_submissions_and_status_zero() {
    let (mut system, mut perf) = start(OverlayTarget::Window(42));
    let trace = drive(&mut system, &mut perf, 100, &at_home, &always, &always, &|frame| frame != 5);
    assert_eq!(trace.submissions, 5);
    assert_eq!(trace.renders, 6);
    assert_eq!(trace.exit, Some(StopReason::RenderRequested));
    assert_eq!(StopReason::RenderRequested.exit_code(), 0);
    assert_eq!(system.controller().frame_count(), 5);
    assert_eq!(system.stop_reason(), Some(StopReason::RenderRequested));
    assert_eq!(trace.shows, 1);
}

#[test]
fn update_stop_ends_the_loop_before_the_frame_is_drawn() {
    let (mut system, mut perf) = start(OverlayTarget::Window(42));
    let trace = drive(&mut system, &mut perf, 100, &at_home, &|frame| frame != 2, &always, &always);
    assert_eq!(trace.exit, Some(StopReason::UpdateRequested));
    assert_eq!(StopReason::UpdateRequested.exit_code(), 0);
    assert_eq!(trace.updates, 3);
    assert_eq!(trace.renders, 2);
    assert_eq!(trace.submissions, 2);
}

#[test]
fn frame_preparation_failure_ends_the_loop_with_status_one() {
    let (mut system, mut perf) = start(OverlayTarget::Window(42));
    let trace = drive(&mut system, &mut perf, 100, &at_home, &always, &|frame| frame != 3, &always);
    assert_eq!(trace.exit, Some(StopReason::FramePreparationFailed));
    assert_eq!(StopReason::FramePreparationFailed.exit_code(), 1);
    assert_eq!(trace.submissions, 3);
    assert_eq!(trace.renders, 3);
    assert_eq!(system.phase(), LoopPhase::Stopped(StopReason::FramePreparationFailed));
}

#[test]
fn lost_target_ends_the_loop_at_once_with_status_zero() {
    let (mut system, mut perf) = start(OverlayTarget::Window(42));
    let trace = drive(
        &mut system,
        &mut perf,
        100,
        &|frame| if frame < 4 { at_home(frame) } else { None },
        &always,
        &always,
        &always,
    );
    assert_eq!(trace.exit, Some(StopReason::TargetClosed));
    assert_eq!(StopReason::TargetClosed.exit_code(), 0);
    assert_eq!(trace.submissions, 4);
    assert_eq!(trace.updates, 4);
    assert_eq!(trace.frames_begun, 5);
    assert!(system.controller().window_tracker().is_closed());
}

#[test]
fn stopped_loop_attempts_no_further_frame() {
    let (mut system, mut perf) = start(OverlayTarget::Window(42));
    drive(&mut system, &mut perf, 100, &|_| None, &always, &always, &always);
    assert_eq!(system.stop_reason(), Some(StopReason::TargetClosed));
    let records = perf.record_count();
    let marks = perf.current().unwrap().len();
    let events = [
        LoopEvent::NewEvents,
        LoopEvent::MainEventsCleared,
        sampled(at_home(0)),
        LoopEvent::UpdateReturned { keep_running: true },
        LoopEvent::FontsUploaded,
        LoopEvent::FramePrepared { ok: true },
        LoopEvent::RenderReturned { keep_running: true },
        LoopEvent::DebugOverlayDrawn,
        LoopEvent::FrameSubmitted,
        LoopEvent::CloseRequested,
    ];
    for event in events {
        assert_eq!(
            system.handle_event_at(&mut perf, event, 1_000_000),
            LoopAction::Exit(StopReason::TargetClosed)
        );
    }
    assert_eq!(system.stop_reason(), Some(StopReason::TargetClosed));
    assert_eq!(system.controller().frame_count(), 0);
    assert_eq!(perf.record_count(), records);
    assert_eq!(perf.current().unwrap().len(), marks);
}

#[test]
fn close_request_ends_the_loop_with_status_zero() {
    let (mut system, mut perf) = start(OverlayTarget::Window(42));
    drive(&mut system, &mut perf, 2, &at_home, &always, &always, &always);
    system.handle_event_at(&mut perf, LoopEvent::NewEvents, 50_000);
    assert_eq!(
        system.handle_event_at(&mut perf, LoopEvent::CloseRequested, 50_001),
        LoopAction::Exit(StopReason::CloseRequested)
    );
    assert_eq!(StopReason::CloseRequested.exit_code(), 0);
    assert_eq!(
        system.handle_event_at(&mut perf, LoopEvent::MainEventsCleared, 50_002),
        LoopAction::Exit(StopReason::CloseRequested)
    );
}

#[test]
fn close_request_in_the_middle_of_a_frame_prevents_the_submission() {
    let (mut system, mut perf) = start(OverlayTarget::Window(42));
    system.handle_event_at(&mut perf, LoopEvent::NewEvents, 1);
    system.handle_event_at(&mut perf, LoopEvent::MainEventsCleared, 2);
    system.handle_event_at(&mut perf, sampled(at_home(0)), 3);
    assert_eq!(
        system.handle_event_at(&mut perf, LoopEvent::CloseRequested, 4),
        LoopAction::Exit(StopReason::CloseRequested)
    );
    assert_eq!(
        system.handle_event_at(&mut perf, LoopEvent::RenderReturned { keep_running: true }, 5),
        LoopAction::Exit(StopReason::CloseRequested)
    );
}

#[test]
fn event_that_the_phase_does_not_wait_for_is_passed_over() {
    let (mut system, mut perf) = start(OverlayTarget::Window(42));
    assert_eq!(system.handle_event_at(&mut perf, LoopEvent::FrameSubmitted, 1), LoopAction::Wait);
    assert_eq!(
        system.handle_event_at(&mut perf, LoopEvent::RenderReturned { keep_running: false }, 2),
        LoopAction::Wait
    );
    assert_eq!(system.handle_event_at(&mut perf, sampled(None), 3), LoopAction::Wait);
    assert_eq!(system.phase(), LoopPhase::Idle);
    assert_eq!(system.controller().frame_count(), 0);
    assert!(!system.controller().window_tracker().is_closed());
    assert_eq!(perf.record_count(), 0);
    system.handle_event_at(&mut perf, LoopEvent::NewEvents, 4);
    system.handle_event_at(&mut perf, LoopEvent::MainEventsCleared, 5);
    assert_eq!(system.handle_event_at(&mut perf, LoopEvent::NewEvents, 6), LoopAction::Wait);
    assert_eq!(system.handle_event_at(&mut perf, LoopEvent::MainEventsCleared, 7), LoopAction::Wait);
    assert_eq!(system.phase(), LoopPhase::AwaitInput);
    assert_eq!(perf.record_count(), 1);
}

#[test]
fn debug_overlay_is_drawn_between_render_and_submission() {
    let (mut system, mut perf) = start(OverlayTarget::Window(42));
    drive(&mut system, &mut perf, 1, &at_home, &always, &always, &always);
    system.controller_mut().toggle_debug_overlay(true);
    system.handle_event_at(&mut perf, LoopEvent::NewEvents, 10_000);
    system.handle_event_at(&mut perf, LoopEvent::MainEventsCleared, 10_001);
    system.handle_event_at(&mut perf, sampled(at_home(1)), 10_002);
    system.handle_event_at(&mut perf, LoopEvent::UpdateReturned { keep_running: true }, 10_003);
    system.handle_event_at(&mut perf, LoopEvent::FramePrepared { ok: true }, 10_004);
    assert_eq!(
        system.handle_event_at(&mut perf, LoopEvent::RenderReturned { keep_running: true }, 10_005),
        LoopAction::DrawDebugOverlay
    );
    assert_eq!(system.phase(), LoopPhase::AwaitDebugOverlay);
    assert_eq!(perf.current().unwrap().len(), 2);
    assert_eq!(
        system.handle_event_at(&mut perf, LoopEvent::DebugOverlayDrawn, 10_900),
        LoopAction::SubmitFrame
    );
    let marks = perf.current().unwrap();
    assert_eq!((marks[2].label, marks[2].elapsed), ("render frame", 900));
    let trace = drive(&mut system, &mut perf, 0, &at_home, &always, &always, &always);
    assert_eq!(trace.debug_overlays, 0);
}

#[test]
fn debug_overlay_counts_in_the_driven_loop() {
    let (mut system, mut perf) = start(OverlayTarget::Window(42));
    system.controller_mut().toggle_debug_overlay(true);
    let trace = drive(&mut system, &mut perf, 3, &at_home, &always, &always, &always);
    assert_eq!(trace.debug_overlays, 3);
    assert_eq!(trace.submissions, 3);
    assert_eq!(trace.exit, None);
}

#[test]
fn registration_during_the_update_rebuilds_the_atlas_in_the_same_frame() {
    let (mut system, mut perf) = start(OverlayTarget::Window(42));
    let trace = drive(&mut system, &mut perf, 3, &at_home, &always, &always, &always);
    assert_eq!(trace.rebuilds, 1);
    system.handle_event_at(&mut perf, LoopEvent::NewEvents, 10_000);
    system.handle_event_at(&mut perf, LoopEvent::MainEventsCleared, 10_001);
    system.handle_event_at(&mut perf, sampled(at_home(3)), 10_002);
    system.controller_mut().register_codepoints(0x4e2d, 0x4e2d);
    let action = system.handle_event_at(&mut perf, LoopEvent::UpdateReturned { keep_running: true }, 10_003);
    match action {
        LoopAction::RebuildFonts { entries } => {
            assert_eq!(resolve_glyph(&entries, 0x4e2d), Some(1));
            assert_eq!(entries[1].glyph_ranges(), &vec![range(0x4e2d, 0x4e2d)]);
        }
        other => panic!("expected the atlas to be rebuilt, got {:?}", other),
    }
}

#[test]
fn moving_target_is_followed_frame_by_frame() {
    let (mut system, mut perf) = start(OverlayTarget::Window(42));
    let trace = drive(
        &mut system,
        &mut perf,
        4,
        &|frame| if frame < 3 { Some(Rect::new(0, 0, 800, 600)) } else { Some(Rect::new(100, 50, 800, 600)) },
        &always,
        &always,
        &always,
    );
    assert_eq!(
        trace.moves,
        vec![Rect::new(0, 0, 800, 600), Rect::new(0, 0, 800, 600), Rect::new(100, 50, 800, 600)]
    );
    assert_eq!(system.controller().window_tracker().last_rect(), Some(Rect::new(100, 50, 800, 600)));
}

#[test]
fn fixed_region_needs_no_window_lookup() {
    let region = Rect::new(10, 10, 320, 240);
    let (mut system, mut perf) = start(OverlayTarget::Rectangle(region));
    system.handle_event_at(&mut perf, LoopEvent::NewEvents, 1);
    assert_eq!(
        system.handle_event_at(&mut perf, LoopEvent::MainEventsCleared, 2),
        LoopAction::SampleInput { window: None }
    );
    assert_eq!(
        system.handle_event_at(&mut perf, sampled(None), 3),
        LoopAction::RunUpdate {
            input: vec![InputEvent::MousePosition { x: 0, y: 0 }],
            reposition: Some(region),
        }
    );
}

#[test]
fn clock_that_runs_backwards_gives_a_zero_delta() {
    let (mut system, mut perf) = start(OverlayTarget::Window(42));
    system.handle_event_at(&mut perf, LoopEvent::NewEvents, 1_000);
    drive(&mut system, &mut perf, 0, &at_home, &always, &always, &always);
    assert_eq!(
        system.handle_event_at(&mut perf, LoopEvent::NewEvents, 400),
        LoopAction::BeginFrame { delta_nanos: 0 }
    );
}

#[test]
fn own_clock_drives_the_same_steps() {
    let (mut system, mut perf) = start(OverlayTarget::Window(42));
    assert!(matches!(system.handle_event(&mut perf, LoopEvent::NewEvents), LoopAction::BeginFrame { .. }));
    assert_eq!(
        system.handle_event(&mut perf, LoopEvent::MainEventsCleared),
        LoopAction::SampleInput { window: Some(42) }
    );
    assert_eq!(system.handle_event(&mut perf, sampled(None)), LoopAction::Exit(StopReason::TargetClosed));
    let marks = perf.current().unwrap();
    assert_eq!(marks.len(), 1);
    assert_eq!(marks[0].label, "events cleared");
}
