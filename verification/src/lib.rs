//! State machines and data structures behind a click-through overlay window that
//! follows another application's window: the frame loop, the window tracker, the font
//! atlas builder, input synchronization and frame-timing instrumentation.
//!
//! Nothing here touches a window, a GPU or the system's input: the host samples and
//! draws, and this library decides. It reads the clock, to time the frames, and it hands
//! glyph tables to the toolkit; both calls are marked where they are made.

pub mod codepoints;
pub mod controller;
pub mod font;
pub mod geometry;
pub mod glyph_table;
pub mod input;
pub mod perf;
pub mod script;
pub mod startup;
pub mod system;
pub mod window_tracker;

pub use controller::{DisplayAffinity, SystemRuntimeController};
pub use font::{AtlasEntry, FontAtlasBuilder, FontSource};
pub use geometry::Rect;
pub use perf::{Mark, PerfTracker};
pub use startup::{OverlayError, StartupPhase, StartupStep, StepOutcome, WindowProfile};
pub use system::{
    init,
    DefaultFonts,
    LoopAction,
    LoopEvent,
    LoopPhase,
    OverlayOptions,
    StopReason,
    System,
};
pub use window_tracker::{OverlayTarget, TrackerUpdate, WindowTracker};
