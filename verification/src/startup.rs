//! Bringing the overlay up: one window, set up once, in a fixed order of steps. A step
//! that the overlay cannot do without ends the start-up for good; the clipboard is the
//! one thing it can do without.

use vstd::prelude::*;

verus! {

/// Why the overlay could not be brought up.
#[derive(Clone, Copy, Debug, PartialEq, Eq, Structural)]
pub enum OverlayError {
    /// The window could not be created.
    WindowCreation,
    /// The system would not tell whether the desktop is composited.
    CompositionQuery,
    /// The desktop is not composited, so nothing can be drawn over it.
    DwmCompositionDisabled,
    /// The window could not be made transparent.
    BlurBehind,
    /// The render backend could not be set up.
    RenderBackend,
}

impl OverlayError {
    /// The error in words.
    pub fn message(&self) -> (text: &'static str)
        ensures
            text == match *self {
                OverlayError::WindowCreation => "the overlay window could not be created",
                OverlayError::CompositionQuery => "the state of desktop composition is unknown",
                OverlayError::DwmCompositionDisabled => "desktop composition is disabled",
                OverlayError::BlurBehind => "the overlay window could not be made transparent",
                OverlayError::RenderBackend => "the render backend could not be initialised",
            },
    {
        match self {
            OverlayError::WindowCreation => "the overlay window could not be created",
            OverlayError::CompositionQuery => "the state of desktop composition is unknown",
            OverlayError::DwmCompositionDisabled => "desktop composition is disabled",
            OverlayError::BlurBehind => "the overlay window could not be made transparent",
            OverlayError::RenderBackend => "the render backend could not be initialised",
        }
    }
}

/// What makes a window an overlay.
#[derive(Clone, Copy, Debug, PartialEq, Eq, Structural)]
pub struct WindowProfile {
    /// Whether the window is on screen from the start.
    pub shown_at_creation: bool,
    /// Whether the window has a frame and a title bar.
    pub decorated: bool,
    /// Whether the window stays above all others.
    pub topmost: bool,
    /// Whether the window takes the input focus when it is shown or clicked.
    pub takes_focus: bool,
    /// Whether mouse input falls through to whatever lies beneath.
    pub click_through: bool,
    /// Whether the window is blended with the desktop behind it.
    pub composited: bool,
    /// Whether the window is listed in the task bar.
    pub in_task_bar: bool,
}

impl WindowProfile {
    /// The overlay window: hidden until the first frame is rendered, without a frame,
    /// above all other windows, never taking the focus, letting the mouse through,
    /// blended with the desktop, and not listed in the task bar.
    pub open spec fn spec_overlay() -> WindowProfile {
        WindowProfile {
            shown_at_creation: false,
            decorated: false,
            topmost: true,
            takes_focus: false,
            click_through: true,
            composited: true,
            in_task_bar: false,
        }
    }

    /// The overlay window's profile.
    pub fn overlay() -> (profile: WindowProfile)
        ensures
            profile == WindowProfile::spec_overlay(),
    {
        WindowProfile {
            shown_at_creation: false,
            decorated: false,
            topmost: true,
            takes_focus: false,
            click_through: true,
            composited: true,
            in_task_bar: false,
        }
    }
}

/// The steps of the start-up, in their order.
#[derive(Clone, Copy, Debug, PartialEq, Eq, Structural)]
pub enum StartupStep {
    /// Create the window with the overlay's profile.
    CreateWindow,
    /// Ask the system whether the desktop is composited.
    QueryCompositor,
    /// Make the window transparent.
    EnableBlur,
    /// Put the window above all others, once.
    PinTopmost,
    /// Connect the toolkit to the clipboard.
    ConnectClipboard,
    /// Set up the render backend.
    CreateBackend,
}

/// How a step went.
#[derive(Clone, Copy, Debug, PartialEq, Eq, Structural)]
pub enum StepOutcome {
    /// The step was carried out; for the compositor's query: the desktop is composited.
    Succeeded,
    /// The step failed.
    Failed,
    /// The compositor's query was answered, and the desktop is not composited.
    CompositorOff,
}

/// How far the start-up has come.
#[derive(Clone, Copy, Debug, PartialEq, Eq, Structural)]
pub enum StartupPhase {
    /// This step is the next to be carried out.
    Pending(StartupStep),
    /// The overlay is up.
    Ready,
    /// The start-up was given up.
    Failed(OverlayError),
}

impl StartupStep {
    /// The place of the step in the start-up.
    pub open spec fn rank(self) -> int {
        match self {
            StartupStep::CreateWindow => 0,
            StartupStep::QueryCompositor => 1,
            StartupStep::EnableBlur => 2,
            StartupStep::PinTopmost => 3,
            StartupStep::ConnectClipboard => 4,
            StartupStep::CreateBackend => 5,
        }
    }

    /// Whether the overlay can do without the step.
    pub open spec fn best_effort(self) -> bool {
        self == StartupStep::PinTopmost || self == StartupStep::ConnectClipboard
    }

    /// The error that ends the start-up when the step went as `outcome` says; `None`
    /// where the start-up goes on.
    pub open spec fn failure(self, outcome: StepOutcome) -> Option<OverlayError> {
        if outcome == StepOutcome::Succeeded || self.best_effort() {
            None
        } else {
            Some(
                match self {
                    StartupStep::CreateWindow => OverlayError::WindowCreation,
                    StartupStep::QueryCompositor => if outcome == StepOutcome::CompositorOff {
                        OverlayError::DwmCompositionDisabled
                    } else {
                        OverlayError::CompositionQuery
                    },
                    StartupStep::EnableBlur => OverlayError::BlurBehind,
                    _ => OverlayError::RenderBackend,
                },
            )
        }
    }

    /// What follows the step once it is done.
    pub open spec fn successor(self) -> StartupPhase {
        match self {
            StartupStep::CreateWindow => StartupPhase::Pending(StartupStep::QueryCompositor),
            StartupStep::QueryCompositor => StartupPhase::Pending(StartupStep::EnableBlur),
            StartupStep::EnableBlur => StartupPhase::Pending(StartupStep::PinTopmost),
            StartupStep::PinTopmost => StartupPhase::Pending(StartupStep::ConnectClipboard),
            StartupStep::ConnectClipboard => StartupPhase::Pending(StartupStep::CreateBackend),
            StartupStep::CreateBackend => StartupPhase::Ready,
        }
    }
}

impl StartupPhase {
    /// The start-up before anything was done.
    pub open spec fn spec_begin() -> StartupPhase {
        StartupPhase::Pending(StartupStep::CreateWindow)
    }

    /// The start-up after its pending step went as `outcome` says. A start-up that is
    /// over, either way, stays as it is.
    pub open spec fn spec_after(self, outcome: StepOutcome) -> StartupPhase {
        match self {
            StartupPhase::Pending(step) => match step.failure(outcome) {
                Some(error) => StartupPhase::Failed(error),
                None => step.successor(),
            },
            _ => self,
        }
    }

    /// The start-up before anything was done: the window is created first.
    pub fn begin() -> (phase: StartupPhase)
        ensures
            phase == StartupPhase::spec_begin(),
    {
        StartupPhase::Pending(StartupStep::CreateWindow)
    }

    /// The start-up after its pending step went as `outcome` says.
    pub fn after(self, outcome: StepOutcome) -> (phase: StartupPhase)
        ensures
            phase == self.spec_after(outcome),
    {
        let step = match self {
            StartupPhase::Pending(step) => step,
            _ => {
                return self;
            },
        };
        let succeeded: bool = outcome == StepOutcome::Succeeded;
        match step {
            StartupStep::CreateWindow => if succeeded {
                StartupPhase::Pending(StartupStep::QueryCompositor)
            } else {
                StartupPhase::Failed(OverlayError::WindowCreation)
            },
            StartupStep::QueryCompositor => match outcome {
                StepOutcome::Succeeded => StartupPhase::Pending(StartupStep::EnableBlur),
                StepOutcome::CompositorOff => StartupPhase::Failed(OverlayError::DwmCompositionDisabled),
                StepOutcome::Failed => StartupPhase::Failed(OverlayError::CompositionQuery),
            },
            StartupStep::EnableBlur => if succeeded {
                StartupPhase::Pending(StartupStep::PinTopmost)
            } else {
                StartupPhase::Failed(OverlayError::BlurBehind)
            },
            StartupStep::PinTopmost => StartupPhase::Pending(StartupStep::ConnectClipboard),
            StartupStep::ConnectClipboard => StartupPhase::Pending(StartupStep::CreateBackend),
            StartupStep::CreateBackend => if succeeded {
                StartupPhase::Ready
            } else {
                StartupPhase::Failed(OverlayError::RenderBackend)
            },
        }
    }

    /// The step to carry out next; `None` once the start-up is over.
    pub fn pending(&self) -> (step: Option<StartupStep>)
        ensures
            step == match *self {
                StartupPhase::Pending(step) => Some(step),
                _ => None,
            },
    {
        match self {
            StartupPhase::Pending(step) => Some(*step),
            _ => None,
        }
    }

    /// The start-up after the first `n` of `outcomes`, one for each step carried out.
    pub open spec fn run(self, outcomes: Seq<StepOutcome>, n: int) -> StartupPhase
        decreases n,
    {
        if n <= 0 {
            self
        } else {
            self.run(outcomes, n - 1).spec_after(outcomes[n - 1])
        }
    }
}

/// A start-up that was given up is not tried again: whatever is reported afterwards,
/// it stays given up, for the same reason.
pub proof fn lemma_failed_startup_is_not_retried(
    error: OverlayError,
    outcomes: Seq<StepOutcome>,
    n: int,
)
    requires
        0 <= n <= outcomes.len(),
    ensures
        StartupPhase::Failed(error).run(outcomes, n) == StartupPhase::Failed(error),
    decreases n,
{
    if n > 0 {
        lemma_failed_startup_is_not_retried(error, outcomes, n - 1);
    }
}

/// The steps are carried out in their order, none twice and none left out: a step that
/// does not end the start-up is followed by the step of the next rank, or by the end of
/// the start-up if it was the last.
pub proof fn lemma_startup_steps_in_order(step: StartupStep, outcome: StepOutcome)
    ensures
        match StartupPhase::Pending(step).spec_after(outcome) {
            StartupPhase::Pending(next) => next.rank() == step.rank() + 1,
            StartupPhase::Ready => step == StartupStep::CreateBackend && outcome
                == StepOutcome::Succeeded,
            StartupPhase::Failed(_) => outcome != StepOutcome::Succeeded && !step.best_effort(),
        },
{
}

/// The overlay comes up without a clipboard, and without having been put above the
/// other windows; without a window, a composited desktop, transparency or a render
/// backend it does not.
pub proof fn lemma_only_best_effort_steps_may_fail(step: StartupStep, outcome: StepOutcome)
    requires
        outcome != StepOutcome::Succeeded,
    ensures
        StartupPhase::Pending(step).spec_after(outcome) is Failed <==> !step.best_effort(),
        StartupPhase::Pending(StartupStep::QueryCompositor).spec_after(StepOutcome::CompositorOff)
            == StartupPhase::Failed(OverlayError::DwmCompositionDisabled),
{
}

} // verus!
