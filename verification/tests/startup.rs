use overlay::startup::{OverlayError, StartupPhase, StartupStep, StepOutcome, WindowProfile};

fn run(outcomes: &[StepOutcome]) -> StartupPhase {
    let mut phase = StartupPhase::begin();
    for outcome in outcomes {
        phase = phase.after(*outcome);
    }
    phase
}

#[test]
fn overlay_window_is_hidden_borderless_topmost_and_click_through() {
    let profile = WindowProfile::overlay();
    assert!(!profile.shown_at_creation);
    assert!(!profile.decorated);
    assert!(profile.topmost);
    assert!(!profile.takes_focus);
    assert!(profile.click_through);
    assert!(profile.composited);
    assert!(!profile.in_task_bar);
}

#[test]
fn startup_runs_its_steps_in_order() {
    let mut phase = StartupPhase::begin();
    let steps = [
        StartupStep::CreateWindow,
        StartupStep::QueryCompositor,
        StartupStep::EnableBlur,
        StartupStep::PinTopmost,
        StartupStep::ConnectClipboard,
        StartupStep::CreateBackend,
    ];
    for step in steps {
        assert_eq!(phase.pending(), Some(step));
        assert_eq!(phase, StartupPhase::Pending(step));
        phase = phase.after(StepOutcome::Succeeded);
    }
    assert_eq!(phase, StartupPhase::Ready);
    assert_eq!(phase.pending(), None);
    assert_eq!(phase.after(StepOutcome::Failed), StartupPhase::Ready);
}

#[test]
fn disabled_compositor_aborts_the_startup() {
    let phase = run(&[StepOutcome::Succeeded, StepOutcome::CompositorOff]);
    assert_eq!(phase, StartupPhase::Failed(OverlayError::DwmCompositionDisabled));
    assert_eq!(phase.pending(), None);
}

#[test]
fn failed_compositor_query_aborts_the_startup() {
    let phase = run(&[StepOutcome::Succeeded, StepOutcome::Failed]);
    assert_eq!(phase, StartupPhase::Failed(OverlayError::CompositionQuery));
}

#[test]
fn window_creation_failure_aborts_the_startup() {
    assert_eq!(run(&[StepOutcome::Failed]), StartupPhase::Failed(OverlayError::WindowCreation));
    assert_eq!(run(&[StepOutcome::CompositorOff]), StartupPhase::Failed(OverlayError::WindowCreation));
}

#[test]
fn blur_failure_aborts_the_startup() {
    let phase = run(&[StepOutcome::Succeeded, StepOutcome::Succeeded, StepOutcome::Failed]);
    assert_eq!(phase, StartupPhase::Failed(OverlayError::BlurBehind));
}

#[test]
fn backend_failure_aborts_the_startup() {
    let phase = run(&[
        StepOutcome::Succeeded,
        StepOutcome::Succeeded,
        StepOutcome::Succeeded,
        StepOutcome::Succeeded,
        StepOutcome::Succeeded,
        StepOutcome::Failed,
    ]);
    assert_eq!(phase, StartupPhase::Failed(OverlayError::RenderBackend));
}

#[test]
fn clipboard_and_topmost_failures_do_not_stop_the_startup() {
    let phase = run(&[
        StepOutcome::Succeeded,
        StepOutcome::Succeeded,
        StepOutcome::Succeeded,
        StepOutcome::Failed,
        StepOutcome::Failed,
    ]);
    assert_eq!(phase, StartupPhase::Pending(StartupStep::CreateBackend));
    assert_eq!(phase.after(StepOutcome::Succeeded), StartupPhase::Ready);
}

#[test]
fn failed_startup_is_not_retried() {
    let mut phase = run(&[StepOutcome::Succeeded, StepOutcome::CompositorOff]);
    for outcome in [StepOutcome::Succeeded, StepOutcome::Failed, StepOutcome::CompositorOff] {
        phase = phase.after(outcome);
        assert_eq!(phase, StartupPhase::Failed(OverlayError::DwmCompositionDisabled));
    }
}

#[test]
fn every_error_has_its_words() {
    assert_eq!(OverlayError::WindowCreation.message(), "the overlay window could not be created");
    assert_eq!(OverlayError::CompositionQuery.message(), "the state of desktop composition is unknown");
    assert_eq!(OverlayError::DwmCompositionDisabled.message(), "desktop composition is disabled");
    assert_eq!(OverlayError::BlurBehind.message(), "the overlay window could not be made transparent");
    assert_eq!(OverlayError::RenderBackend.message(), "the render backend could not be initialised");
}
