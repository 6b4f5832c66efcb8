//! Following the overlay's target: every frame the target is resolved to a rectangle,
//! and the overlay window is moved whenever that rectangle differs from the one it was
//! last moved to.

use vstd::prelude::*;
use crate::geometry::Rect;

verus! {

/// What the overlay is laid over.
#[derive(Clone, Copy, Debug, PartialEq, Eq, Structural)]
pub enum OverlayTarget {
    /// A window of another application, by its native handle.
    Window(isize),
    /// A fixed region of the screen.
    Rectangle(Rect),
}

/// What one update of the tracker asks of the overlay window.
#[derive(Clone, Copy, Debug, PartialEq, Eq, Structural)]
pub enum TrackerUpdate {
    /// The overlay already lies over the target.
    Unchanged,
    /// The overlay window is to be moved and resized to this rectangle.
    Reposition(Rect),
    /// The target window is gone; the overlay has nothing left to follow.
    TargetClosed,
}

/// The tracker as a plain value.
pub struct TrackerModel {
    pub target: OverlayTarget,
    /// The rectangle the overlay was last moved to, if it was moved at all.
    pub last_rect: Option<Rect>,
    /// Whether the next update moves the overlay even if the target stood still.
    pub force_update: bool,
    /// Whether the target was seen to be gone. Once set, it stays set.
    pub closed: bool,
}

impl TrackerModel {
    /// A tracker that has not moved the overlay yet.
    pub open spec fn fresh(target: OverlayTarget) -> TrackerModel {
        TrackerModel { target, last_rect: None, force_update: false, closed: false }
    }

    /// The handle whose rectangle the next update needs, if it needs one.
    pub open spec fn watched_window(self) -> Option<isize> {
        match self.target {
            OverlayTarget::Window(handle) => if self.closed { None } else { Some(handle) },
            OverlayTarget::Rectangle(_) => None,
        }
    }

    /// Where the target is now: a window is where it was observed (`None` when it no
    /// longer exists), a fixed region is where it always was.
    pub open spec fn resolve(self, observed: Option<Rect>) -> Option<Rect> {
        match self.target {
            OverlayTarget::Window(_) => observed,
            OverlayTarget::Rectangle(rect) => Some(rect),
        }
    }

    /// One update: the tracker afterwards and what it asks of the overlay window.
    pub open spec fn update(self, observed: Option<Rect>) -> (TrackerModel, TrackerUpdate) {
        if self.closed {
            (self, TrackerUpdate::TargetClosed)
        } else {
            match self.resolve(observed) {
                None => (TrackerModel { closed: true, ..self }, TrackerUpdate::TargetClosed),
                Some(rect) => if self.force_update || self.last_rect != Some(rect) {
                    (
                        TrackerModel { last_rect: Some(rect), force_update: false, ..self },
                        TrackerUpdate::Reposition(rect),
                    )
                } else {
                    (self, TrackerUpdate::Unchanged)
                },
            }
        }
    }

    /// The tracker after it was told to move the overlay on its next update.
    pub open spec fn mark_force_update(self) -> TrackerModel {
        TrackerModel { force_update: true, ..self }
    }

    /// Whether the tracker's memory agrees with where the overlay window really is:
    /// the overlay is where the tracker last put it, or the tracker will move it anyway.
    pub open spec fn synced_with(self, overlay: Rect) -> bool {
        self.force_update || self.last_rect is None || self.last_rect == Some(overlay)
    }
}

/// Where the overlay window is once it has carried out `update`.
pub open spec fn overlay_after(update: TrackerUpdate, overlay: Rect) -> Rect {
    match update {
        TrackerUpdate::Reposition(rect) => rect,
        _ => overlay,
    }
}

/// Keeps the overlay window over its target.
#[derive(Clone, Copy, Debug)]
pub struct WindowTracker {
    target: OverlayTarget,
    last_rect: Option<Rect>,
    force_update: bool,
    closed: bool,
}

impl View for WindowTracker {
    type V = TrackerModel;

    closed spec fn view(&self) -> TrackerModel {
        TrackerModel {
            target: self.target,
            last_rect: self.last_rect,
            force_update: self.force_update,
            closed: self.closed,
        }
    }
}

impl WindowTracker {
    /// A tracker for `target` that has not moved the overlay yet.
    pub fn new(target: &OverlayTarget) -> (tracker: WindowTracker)
        ensures
            tracker@ == TrackerModel::fresh(*target),
    {
        WindowTracker { target: *target, last_rect: None, force_update: false, closed: false }
    }

    /// What the overlay is laid over.
    pub fn target(&self) -> (target: OverlayTarget)
        ensures
            target == self@.target,
    {
        self.target
    }

    /// The rectangle the overlay was last moved to.
    pub fn last_rect(&self) -> (rect: Option<Rect>)
        ensures
            rect == self@.last_rect,
    {
        self.last_rect
    }

    /// Whether the target was seen to be gone.
    pub fn is_closed(&self) -> (closed: bool)
        ensures
            closed == self@.closed,
    {
        self.closed
    }

    /// Whether the next update moves the overlay even if the target stood still.
    pub fn force_update_pending(&self) -> (pending: bool)
        ensures
            pending == self@.force_update,
    {
        self.force_update
    }

    /// The window whose rectangle has to be looked up before the next update: the
    /// target window while it is still followed, nothing for a fixed region.
    pub fn watched_window(&self) -> (handle: Option<isize>)
        ensures
            handle == self@.watched_window(),
    {
        match self.target {
            OverlayTarget::Window(handle) => if self.closed {
                None
            } else {
                Some(handle)
            },
            OverlayTarget::Rectangle(_) => None,
        }
    }

    /// Makes the next update move the overlay whether or not the target moved.
    pub fn mark_force_update(&mut self)
        ensures
            final(self)@ == old(self)@.mark_force_update(),
    {
        self.force_update = true;
    }

    /// Brings the tracker up to date. `observed` is the rectangle the watched window
    /// has right now, `None` if that window no longer exists; for a fixed region it is
    /// not looked at.
    ///
    /// A target that is gone closes the tracker for good. Otherwise the overlay is sent
    /// to the target's rectangle if that differs from where it was last sent, or if a
    /// move was forced.
    pub fn update(&mut self, observed: Option<Rect>) -> (update: TrackerUpdate)
        ensures
            (final(self)@, update) == old(self)@.update(observed),
    {
        if self.closed {
            return TrackerUpdate::TargetClosed;
        }
        let resolved: Option<Rect> = match self.target {
            OverlayTarget::Window(_) => observed,
            OverlayTarget::Rectangle(rect) => Some(rect),
        };
        match resolved {
            None => {
                self.closed = true;
                TrackerUpdate::TargetClosed
            },
            Some(rect) => {
                let moved: bool = match self.last_rect {
                    None => true,
                    Some(last) => last != rect,
                };
                if self.force_update || moved {
                    self.last_rect = Some(rect);
                    self.force_update = false;
                    TrackerUpdate::Reposition(rect)
                } else {
                    TrackerUpdate::Unchanged
                }
            },
        }
    }
}

/// Wherever the target is, one update later the overlay lies exactly over it: if the
/// tracker's memory agreed with the overlay's place before the update and the target is
/// alive at `rect`, then after the overlay has carried out the update it is at `rect`,
/// and the tracker's memory agrees with it again.
pub proof fn lemma_update_aligns_overlay(
    tracker: TrackerModel,
    overlay: Rect,
    observed: Option<Rect>,
    rect: Rect,
)
    requires
        !tracker.closed,
        tracker.synced_with(overlay),
        tracker.resolve(observed) == Some(rect),
    ensures
        overlay_after(tracker.update(observed).1, overlay) == rect,
        tracker.update(observed).0.last_rect == Some(rect),
        !tracker.update(observed).0.force_update,
        !tracker.update(observed).0.closed,
        tracker.update(observed).0.synced_with(rect),
{
}

/// A forced update brings the overlay back over the target from wherever it drifted to.
pub proof fn lemma_forced_update_repositions(
    tracker: TrackerModel,
    observed: Option<Rect>,
    rect: Rect,
)
    requires
        !tracker.closed,
        tracker.resolve(observed) == Some(rect),
    ensures
        tracker.mark_force_update().update(observed).1 == TrackerUpdate::Reposition(rect),
{
}

/// The update that finds the target window gone reports the loss at once, and the
/// tracker never follows anything again: every later update reports the loss too and
/// leaves the tracker as it is.
pub proof fn lemma_loss_is_reported_and_final(
    tracker: TrackerModel,
    later: Option<Rect>,
)
    requires
        !tracker.closed,
        tracker.target is Window,
    ensures
        tracker.update(None).1 == TrackerUpdate::TargetClosed,
        tracker.update(None).0.closed,
        tracker.update(None).0.watched_window() is None,
        tracker.update(None).0.update(later) == (
            tracker.update(None).0,
            TrackerUpdate::TargetClosed,
        ),
{
}

/// A fixed region never closes the tracker.
pub proof fn lemma_fixed_region_never_closes(tracker: TrackerModel, observed: Option<Rect>)
    requires
        !tracker.closed,
        tracker.target is Rectangle,
    ensures
        !tracker.update(observed).0.closed,
        tracker.update(observed).1 != TrackerUpdate::TargetClosed,
{
}

} // verus!
