//! The runtime state that the frame loop owns and lends to the host's update callback:
//! the font builder, the input trackers, the window tracker, the frame counter and the
//! debug overlay's switch.

use vstd::prelude::*;
use crate::font::{
    atlas_model,
    atlas_wf,
    lemma_build_ignores_dirty_flag,
    text_codepoints,
    AtlasEntry,
    FontAtlasBuilder,
    FontBuilderModel,
    FontSource,
};
use crate::geometry::Rect;
use crate::input::{
    edge_events,
    InputEvent,
    KeyboardInputSystem,
    MouseInputSystem,
    MouseModel,
    MouseSample,
};
use crate::window_tracker::{OverlayTarget, TrackerModel, TrackerUpdate, WindowTracker};

verus! {

/// How the overlay window shows up in screen captures.
#[derive(Clone, Copy, Debug, PartialEq, Eq, Structural)]
pub enum DisplayAffinity {
    /// Captured like any other window.
    Normal,
    /// Shown on the display, left out of captures.
    ExcludeFromCapture,
}

impl DisplayAffinity {
    /// The affinity that makes the overlay visible to captures, or hides it from them.
    pub open spec fn for_visibility(should_be_visible: bool) -> DisplayAffinity {
        if should_be_visible {
            DisplayAffinity::Normal
        } else {
            DisplayAffinity::ExcludeFromCapture
        }
    }

    /// The affinity that the window has after the system was asked for `requested`:
    /// the requested one where the system accepted, the one it had where it did not.
    pub open spec fn after_request(self, requested: DisplayAffinity, accepted: bool) -> DisplayAffinity {
        if accepted {
            requested
        } else {
            self
        }
    }

    /// The name of the affinity in messages.
    pub fn state_name(&self) -> (name: &'static str)
        ensures
            name == match *self {
                DisplayAffinity::Normal => "normal",
                DisplayAffinity::ExcludeFromCapture => "exclude from capture",
            },
    {
        match self {
            DisplayAffinity::Normal => "normal",
            DisplayAffinity::ExcludeFromCapture => "exclude from capture",
        }
    }
}

/// Asking twice for the same capture visibility changes nothing beyond what the first
/// request changed, provided the system does not turn down the first request and then
/// accept the second: whether the second one is accepted or not, the window keeps the
/// affinity that it had after the first.
pub proof fn lemma_capture_toggle_is_idempotent(
    current: DisplayAffinity,
    should_be_visible: bool,
    first_accepted: bool,
    second_accepted: bool,
)
    requires
        first_accepted || !second_accepted || current == DisplayAffinity::for_visibility(
            should_be_visible,
        ),
    ensures
        ({
            let requested = DisplayAffinity::for_visibility(should_be_visible);
            let once = current.after_request(requested, first_accepted);
            once.after_request(requested, second_accepted) == once
        }),
{
}

/// The controller as a plain value.
pub struct ControllerModel {
    pub fonts: FontBuilderModel,
    pub debug_overlay_shown: bool,
    pub mouse: MouseModel,
    /// Which of the 256 keys were down when last sampled.
    pub keys: Seq<bool>,
    pub tracker: TrackerModel,
    /// How many frames were rendered.
    pub frame_count: u64,
}

impl ControllerModel {
    /// The controller at the start of the loop: no frame rendered, nothing sampled, the
    /// debug overlay hidden.
    pub open spec fn initial(fonts: FontBuilderModel, target: OverlayTarget) -> ControllerModel {
        ControllerModel {
            fonts,
            debug_overlay_shown: false,
            mouse: MouseModel::fresh(),
            keys: Seq::new(256, |i: int| false),
            tracker: TrackerModel::fresh(target),
            frame_count: 0,
        }
    }

    /// What the toolkit is told about this frame's input: the mouse first, then the
    /// keyboard.
    pub open spec fn input_events(self, mouse: MouseSample, keys: Seq<bool>) -> Seq<InputEvent> {
        self.mouse.events(mouse) + edge_events(self.keys, keys, 256, false)
    }

    /// The start of a frame: the input is taken in, then the window tracker is brought
    /// up to date.
    pub open spec fn update_state(
        self,
        mouse: MouseSample,
        keys: Seq<bool>,
        observed: Option<Rect>,
    ) -> ControllerModel {
        ControllerModel {
            mouse: self.mouse.update(mouse),
            keys,
            tracker: self.tracker.update(observed).0,
            ..self
        }
    }

    /// The frame count after one more frame; it stops at the largest number that fits.
    pub open spec fn next_frame_count(self) -> u64 {
        if self.frame_count < u64::MAX {
            (self.frame_count + 1) as u64
        } else {
            self.frame_count
        }
    }

    /// Whether the frame that was just rendered is the first one.
    pub open spec fn first_frame_rendered(self) -> bool {
        self.next_frame_count() == 1
    }

    /// The end of a frame: the frame is counted, and after the first frame the window
    /// tracker is told to move the overlay on its next update.
    pub open spec fn frame_rendered(self) -> ControllerModel {
        ControllerModel {
            frame_count: self.next_frame_count(),
            tracker: if self.first_frame_rendered() {
                self.tracker.mark_force_update()
            } else {
                self.tracker
            },
            ..self
        }
    }
}

/// The runtime state of the overlay.
#[derive(Debug)]
pub struct SystemRuntimeController {
    imgui_fonts: FontAtlasBuilder,
    debug_overlay_shown: bool,
    mouse_input_system: MouseInputSystem,
    key_input_system: KeyboardInputSystem,
    window_tracker: WindowTracker,
    frame_count: u64,
}

impl View for SystemRuntimeController {
    type V = ControllerModel;

    closed spec fn view(&self) -> ControllerModel {
        ControllerModel {
            fonts: self.imgui_fonts@,
            debug_overlay_shown: self.debug_overlay_shown,
            mouse: self.mouse_input_system@,
            keys: self.key_input_system@,
            tracker: self.window_tracker@,
            frame_count: self.frame_count,
        }
    }
}

impl SystemRuntimeController {
    /// The font builder is well-formed, and the keyboard has its 256 keys.
    pub closed spec fn wf(&self) -> bool {
        &&& self.imgui_fonts.wf()
        &&& self.key_input_system@.len() == 256
    }

    /// The controller at the start of the loop.
    pub fn new(imgui_fonts: FontAtlasBuilder, target: &OverlayTarget) -> (controller:
        SystemRuntimeController)
        requires
            imgui_fonts.wf(),
        ensures
            controller.wf(),
            controller@ == ControllerModel::initial(imgui_fonts@, *target),
    {
        SystemRuntimeController {
            imgui_fonts,
            debug_overlay_shown: false,
            mouse_input_system: MouseInputSystem::new(),
            key_input_system: KeyboardInputSystem::new(),
            window_tracker: WindowTracker::new(target),
            frame_count: 0,
        }
    }

    /// Takes in this frame's input, the mouse before the keyboard, then brings the
    /// window tracker up to date. Returns what the toolkit is to be told about the
    /// input, and what the tracker asks of the overlay window:
    /// `TrackerUpdate::TargetClosed` when there is nothing left to follow.
    pub fn update_state(
        &mut self,
        mouse: &MouseSample,
        keys: &[bool; 256],
        observed: Option<Rect>,
    ) -> (result: (Vec<InputEvent>, TrackerUpdate))
        requires
            old(self).wf(),
        ensures
            final(self).wf(),
            final(self)@ == old(self)@.update_state(*mouse, keys@, observed),
            result.0@ == old(self)@.input_events(*mouse, keys@),
            result.1 == old(self)@.tracker.update(observed).1,
    {
        let mut events: Vec<InputEvent> = Vec::new();
        self.mouse_input_system.update(mouse, &mut events);
        self.key_input_system.update(keys, &mut events);
        let update = self.window_tracker.update(observed);
        assert(events@ =~= old(self)@.input_events(*mouse, keys@));
        (events, update)
    }

    /// Counts the frame that was just rendered. Returns whether it was the first one:
    /// then the overlay window is to be shown, without taking the focus, and the window
    /// tracker moves it on its next update, wherever it drifted while it was hidden.
    pub fn frame_rendered(&mut self) -> (first: bool)
        requires
            old(self).wf(),
        ensures
            final(self).wf(),
            final(self)@ == old(self)@.frame_rendered(),
            first == old(self)@.first_frame_rendered(),
    {
        if self.frame_count < u64::MAX {
            self.frame_count += 1;
        }
        if self.frame_count == 1 {
            self.window_tracker.mark_force_update();
            true
        } else {
            false
        }
    }

    /// The display affinity to ask the system for, so that the overlay is visible to
    /// screen captures or hidden from them. Asking is the caller's part; the system may
    /// turn the request down, which is no error.
    pub fn toggle_screen_capture_visibility(&self, should_be_visible: bool) -> (affinity:
        DisplayAffinity)
        ensures
            affinity == DisplayAffinity::for_visibility(should_be_visible),
    {
        if should_be_visible {
            DisplayAffinity::Normal
        } else {
            DisplayAffinity::ExcludeFromCapture
        }
    }

    /// Shows or hides the debug overlay.
    pub fn toggle_debug_overlay(&mut self, visible: bool)
        ensures
            final(self)@ == (ControllerModel { debug_overlay_shown: visible, ..old(self)@ }),
            old(self).wf() ==> final(self).wf(),
    {
        self.debug_overlay_shown = visible;
    }

    /// Whether the debug overlay is shown.
    pub fn debug_overlay_shown(&self) -> (shown: bool)
        ensures
            shown == self@.debug_overlay_shown,
    {
        self.debug_overlay_shown
    }

    /// How many frames were rendered.
    pub fn frame_count(&self) -> (count: u64)
        ensures
            count == self@.frame_count,
    {
        self.frame_count
    }

    /// The font builder.
    pub fn fonts(&self) -> (fonts: &FontAtlasBuilder)
        ensures
            fonts@ == self@.fonts,
            self.wf() ==> fonts.wf(),
    {
        &self.imgui_fonts
    }

    /// The window tracker.
    pub fn window_tracker(&self) -> (tracker: &WindowTracker)
        ensures
            tracker@ == self@.tracker,
    {
        &self.window_tracker
    }

    /// Adds a font source behind those registered before; the atlas is rebuilt before
    /// the next frame is drawn.
    pub fn register_font(&mut self, source: FontSource)
        requires
            old(self).wf(),
            source.wf(),
        ensures
            final(self).wf(),
            final(self)@ == (ControllerModel {
                fonts: old(self)@.fonts.register_font(source@),
                ..old(self)@
            }),
    {
        self.imgui_fonts.register_font(source);
    }

    /// Asks for the codepoints from `first` to `last`, both included, to be covered by
    /// the atlas; the atlas is rebuilt before the next frame is drawn.
    pub fn register_codepoints(&mut self, first: u32, last: u32)
        requires
            old(self).wf(),
        ensures
            final(self).wf(),
            final(self)@ == (ControllerModel {
                fonts: old(self)@.fonts.register_codepoints(first, last),
                ..old(self)@
            }),
    {
        self.imgui_fonts.register_codepoints(first, last);
    }

    /// Asks for the codepoints of `text` that were not asked for before, so that what
    /// is drawn now with the fallback glyph is drawn with its own from the next frame
    /// on. Returns whether there was such a codepoint; the atlas is rebuilt only then.
    pub fn register_text(&mut self, text: &str) -> (added: bool)
        requires
            old(self).wf(),
        ensures
            final(self).wf(),
            final(self)@ == (ControllerModel {
                fonts: old(self)@.fonts.register_text(text@),
                ..old(self)@
            }),
            added == !text_codepoints(text@).subset_of(old(self)@.fonts.codepoints),
    {
        self.imgui_fonts.register_text(text)
    }

    /// Plans the atlas anew at `pixel_height` if anything was registered since the last
    /// build, and clears the dirty flag. Nothing is planned while the flag is clear.
    pub fn rebuild_fonts(&mut self, pixel_height: u32) -> (entries: Option<Vec<AtlasEntry>>)
        requires
            old(self).wf(),
        ensures
            final(self).wf(),
            final(self)@ == (ControllerModel { fonts: old(self)@.fonts.clean(), ..old(self)@ }),
            match entries {
                Some(entries) => {
                    &&& old(self)@.fonts.dirty
                    &&& atlas_wf(entries@)
                    &&& atlas_model(entries@) == old(self)@.fonts.build(pixel_height)
                },
                None => !old(self)@.fonts.dirty,
            },
    {
        if self.imgui_fonts.fetch_reset_flag_updated() {
            let entries = self.imgui_fonts.build_font_source(pixel_height);
            proof {
                lemma_build_ignores_dirty_flag(old(self)@.fonts, pixel_height);
            }
            Some(entries)
        } else {
            assert(old(self)@.fonts.clean() == old(self)@.fonts);
            None
        }
    }
}

} // verus!
