use overlay::codepoints::CodepointRange;
use overlay::controller::{DisplayAffinity, SystemRuntimeController};
use overlay::font::{FontAtlasBuilder, FontSource};
use overlay::geometry::Rect;
use overlay::input::{InputEvent, MouseSample};
use overlay::window_tracker::{OverlayTarget, TrackerUpdate};

fn controller(target: OverlayTarget) -> SystemRuntimeController {
    SystemRuntimeController::new(FontAtlasBuilder::new(), &target)
}

fn still_mouse() -> MouseSample {
    MouseSample { x: 3, y: 4, buttons: [false; 5] }
}

#[test]
fn capture_visibility_maps_to_the_display_affinity() {
    let c = controller(OverlayTarget::Window(1));
    assert_eq!(c.toggle_screen_capture_visibility(true), DisplayAffinity::Normal);
    assert_eq!(c.toggle_screen_capture_visibility(false), DisplayAffinity::ExcludeFromCapture);
}

#[test]
fn capture_toggle_twice_asks_for_the_same_affinity() {
    let c = controller(OverlayTarget::Window(1));
    let first = c.toggle_screen_capture_visibility(false);
    let second = c.toggle_screen_capture_visibility(false);
    assert_eq!(first, second);
    assert_eq!(second, DisplayAffinity::ExcludeFromCapture);
    let first = c.toggle_screen_capture_visibility(true);
    let second = c.toggle_screen_capture_visibility(true);
    assert_eq!(first, second);
    assert!(!c.debug_overlay_shown());
    assert_eq!(c.frame_count(), 0);
}

#[test]
fn display_affinities_have_names() {
    assert_eq!(DisplayAffinity::Normal.state_name(), "normal");
    assert_eq!(DisplayAffinity::ExcludeFromCapture.state_name(), "exclude from capture");
}

#[test]
fn debug_overlay_is_hidden_until_toggled() {
    let mut c = controller(OverlayTarget::Window(1));
    assert!(!c.debug_overlay_shown());
    c.toggle_debug_overlay(true);
    assert!(c.debug_overlay_shown());
    c.toggle_debug_overlay(true);
    assert!(c.debug_overlay_shown());
    c.toggle_debug_overlay(false);
    assert!(!c.debug_overlay_shown());
}

#[test]
fn update_state_reports_mouse_before_keyboard() {
    let mut c = controller(OverlayTarget::Window(1));
    let mut keys = [false; 256];
    keys[32] = true;
    let mouse = MouseSample { x: 7, y: 8, buttons: [true, false, false, false, false] };
    let rect = Rect::new(0, 0, 800, 600);
    let (events, update) = c.update_state(&mouse, &keys, Some(rect));
    assert_eq!(
        events,
        vec![
            InputEvent::MousePosition { x: 7, y: 8 },
            InputEvent::MouseButton { button: 0, pressed: true },
            InputEvent::Key { code: 32, pressed: true },
        ]
    );
    assert_eq!(update, TrackerUpdate::Reposition(rect));
    let (events, update) = c.update_state(&mouse, &keys, Some(rect));
    assert!(events.is_empty());
    assert_eq!(update, TrackerUpdate::Unchanged);
}

#[test]
fn update_state_reports_the_loss_of_the_target() {
    let mut c = controller(OverlayTarget::Window(1));
    let (_, update) = c.update_state(&still_mouse(), &[false; 256], None);
    assert_eq!(update, TrackerUpdate::TargetClosed);
    assert!(c.window_tracker().is_closed());
}

#[test]
fn first_rendered_frame_shows_the_window_and_forces_a_resync() {
    let mut c = controller(OverlayTarget::Window(1));
    let rect = Rect::new(0, 0, 800, 600);
    c.update_state(&still_mouse(), &[false; 256], Some(rect));
    assert!(c.frame_rendered());
    assert_eq!(c.frame_count(), 1);
    assert!(c.window_tracker().force_update_pending());
    let (_, update) = c.update_state(&still_mouse(), &[false; 256], Some(rect));
    assert_eq!(update, TrackerUpdate::Reposition(rect));
    assert!(!c.frame_rendered());
    assert_eq!(c.frame_count(), 2);
    assert!(!c.window_tracker().force_update_pending());
    assert!(!c.frame_rendered());
    assert_eq!(c.frame_count(), 3);
}

#[test]
fn fonts_are_rebuilt_only_when_dirty() {
    let mut c = controller(OverlayTarget::Window(1));
    assert_eq!(c.rebuild_fonts(18), None);
    c.register_font(FontSource::new(vec![9], &vec![CodepointRange { first: 65, last: 90 }]));
    c.register_codepoints(60, 70);
    assert!(c.fonts().flag_updated());
    let atlas = c.rebuild_fonts(18).unwrap();
    assert_eq!(atlas.len(), 1);
    assert_eq!(atlas[0].glyph_ranges(), &vec![CodepointRange { first: 65, last: 70 }]);
    assert!(!c.fonts().flag_updated());
    assert_eq!(c.rebuild_fonts(18), None);
    c.register_codepoints(60, 70);
    assert!(c.rebuild_fonts(18).is_some());
}

#[test]
fn drawn_text_rebuilds_the_atlas_once() {
    let mut c = controller(OverlayTarget::Window(1));
    c.register_font(FontSource::new(vec![9], &vec![CodepointRange { first: 0x20, last: 0x7e }]));
    c.rebuild_fonts(18);
    assert!(c.register_text("fps: 60"));
    let atlas = c.rebuild_fonts(18).unwrap();
    assert_eq!(
        atlas[0].glyph_ranges(),
        &vec![
            CodepointRange { first: 0x20, last: 0x20 },
            CodepointRange { first: 0x30, last: 0x30 },
            CodepointRange { first: 0x36, last: 0x36 },
            CodepointRange { first: 0x3a, last: 0x3a },
            CodepointRange { first: 0x66, last: 0x66 },
            CodepointRange { first: 0x70, last: 0x70 },
            CodepointRange { first: 0x73, last: 0x73 },
        ]
    );
    assert!(!c.register_text("fps: 66"));
    assert_eq!(c.rebuild_fonts(18), None);
}
