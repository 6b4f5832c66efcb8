//! Input synchronization: the state of the mouse and of the keyboard is sampled once a
//! frame, and the difference to the frame before becomes the events that the toolkit
//! is fed. A button that is held down across many frames is reported once, when it
//! goes down, and once more when it comes up again.

use vstd::prelude::*;

verus! {

/// What the toolkit is told about the mouse and the keyboard.
#[derive(Clone, Copy, Debug, PartialEq, Eq, Structural)]
pub enum InputEvent {
    /// The cursor is at this place now.
    MousePosition { x: i32, y: i32 },
    /// A mouse button went down or came up.
    MouseButton { button: u8, pressed: bool },
    /// A key went down or came up.
    Key { code: u8, pressed: bool },
}

/// The event that reports the state of the `index`-th mouse button or key.
pub open spec fn edge_event(mouse: bool, index: int, pressed: bool) -> InputEvent {
    if mouse {
        InputEvent::MouseButton { button: index as u8, pressed }
    } else {
        InputEvent::Key { code: index as u8, pressed }
    }
}

/// The events for the first `upto` buttons or keys: one for each whose state in `now`
/// differs from that in `before`, in ascending order.
pub open spec fn edge_events(before: Seq<bool>, now: Seq<bool>, upto: int, mouse: bool) -> Seq<
    InputEvent,
>
    decreases upto,
{
    if upto <= 0 {
        Seq::empty()
    } else {
        let earlier = edge_events(before, now, upto - 1, mouse);
        if before[upto - 1] != now[upto - 1] {
            earlier.push(edge_event(mouse, upto - 1, now[upto - 1]))
        } else {
            earlier
        }
    }
}

/// The index of the button or key that an event speaks of; -1 for a cursor position.
pub open spec fn event_index(event: InputEvent) -> int {
    match event {
        InputEvent::MousePosition { .. } => -1,
        InputEvent::MouseButton { button, .. } => button as int,
        InputEvent::Key { code, .. } => code as int,
    }
}

/// Buttons and keys whose state did not change are not reported: polling a key that
/// is held down, or one that is up, gives no event.
pub proof fn lemma_steady_state_gives_no_event(state: Seq<bool>, upto: int, mouse: bool)
    ensures
        edge_events(state, state, upto, mouse) == Seq::<InputEvent>::empty(),
    decreases upto,
{
    if upto > 0 {
        lemma_steady_state_gives_no_event(state, upto - 1, mouse);
    }
}

/// Every event reports a button or key that changed, with its new state, and the
/// events come in strictly ascending order of their button or key: none is reported
/// twice.
pub proof fn lemma_events_are_changes(before: Seq<bool>, now: Seq<bool>, upto: int, mouse: bool)
    requires
        0 <= upto <= 256,
    ensures
        edge_events(before, now, upto, mouse).len() <= upto,
        forall|k: int|
            0 <= k < edge_events(before, now, upto, mouse).len() ==> {
                let event = #[trigger] edge_events(before, now, upto, mouse)[k];
                let i = event_index(event);
                &&& 0 <= i < upto
                &&& before[i] != now[i]
                &&& event == edge_event(mouse, i, now[i])
            },
        forall|k: int, l: int|
            0 <= k < l < edge_events(before, now, upto, mouse).len() ==> event_index(
                #[trigger] edge_events(before, now, upto, mouse)[k],
            ) < event_index(#[trigger] edge_events(before, now, upto, mouse)[l]),
    decreases upto,
{
    if upto > 0 {
        lemma_events_are_changes(before, now, upto - 1, mouse);
    }
}

/// Every button or key that changed is reported.
pub proof fn lemma_changes_are_events(
    before: Seq<bool>,
    now: Seq<bool>,
    upto: int,
    mouse: bool,
    i: int,
)
    requires
        0 <= i < upto <= 256,
        before[i] != now[i],
    ensures
        edge_events(before, now, upto, mouse).contains(edge_event(mouse, i, now[i])),
    decreases upto,
{
    let events = edge_events(before, now, upto, mouse);
    if i == upto - 1 {
        assert(events.last() == edge_event(mouse, i, now[i]));
    } else {
        lemma_changes_are_events(before, now, upto - 1, mouse, i);
        let earlier = edge_events(before, now, upto - 1, mouse);
        let k = choose|k: int| 0 <= k < earlier.len() && earlier[k] == edge_event(mouse, i, now[i]);
        assert(events[k] == edge_event(mouse, i, now[i]));
    }
}

/// The events for buttons or keys `0..upto`, computed.
fn collect_edges(
    events: &mut Vec<InputEvent>,
    before: &[bool],
    now: &[bool],
    upto: usize,
    mouse: bool,
)
    requires
        upto <= before@.len(),
        upto <= now@.len(),
        upto <= 256,
    ensures
        final(events)@ == old(events)@ + edge_events(before@, now@, upto as int, mouse),
{
    let mut i: usize = 0;
    assert(events@ == old(events)@ + edge_events(before@, now@, 0, mouse));
    while i < upto
        invariant
            i <= upto <= 256,
            upto <= before@.len(),
            upto <= now@.len(),
            events@ == old(events)@ + edge_events(before@, now@, i as int, mouse),
        decreases upto - i,
    {
        if before[i] != now[i] {
            let event = if mouse {
                InputEvent::MouseButton { button: i as u8, pressed: now[i] }
            } else {
                InputEvent::Key { code: i as u8, pressed: now[i] }
            };
            events.push(event);
        }
        i += 1;
        assert(events@ == old(events)@ + edge_events(before@, now@, i as int, mouse));
    }
}

/// The mouse as it was sampled: where the cursor is and which buttons are down.
#[derive(Clone, Copy, Debug)]
pub struct MouseSample {
    pub x: i32,
    pub y: i32,
    pub buttons: [bool; 5],
}

/// The mouse state as a plain value.
pub struct MouseModel {
    /// Where the cursor was last seen, if it was seen at all.
    pub position: Option<(i32, i32)>,
    /// Which buttons were down when last sampled.
    pub buttons: Seq<bool>,
}

impl MouseModel {
    /// Nothing seen yet, no button down.
    pub open spec fn fresh() -> MouseModel {
        MouseModel { position: None, buttons: Seq::new(5, |i: int| false) }
    }

    /// The events that a sample gives rise to: the cursor's place where it moved (or
    /// was not seen before), then the buttons that changed.
    pub open spec fn events(self, sample: MouseSample) -> Seq<InputEvent> {
        let moved = if self.position == Some((sample.x, sample.y)) {
            Seq::<InputEvent>::empty()
        } else {
            seq![InputEvent::MousePosition { x: sample.x, y: sample.y }]
        };
        moved + edge_events(self.buttons, sample.buttons@, 5, true)
    }

    /// The state once the sample has been taken in.
    pub open spec fn update(self, sample: MouseSample) -> MouseModel {
        MouseModel { position: Some((sample.x, sample.y)), buttons: sample.buttons@ }
    }
}

/// Remembers the mouse as of the last frame.
#[derive(Clone, Copy, Debug)]
pub struct MouseInputSystem {
    position: Option<(i32, i32)>,
    buttons: [bool; 5],
}

impl View for MouseInputSystem {
    type V = MouseModel;

    closed spec fn view(&self) -> MouseModel {
        MouseModel { position: self.position, buttons: self.buttons@ }
    }
}

impl MouseInputSystem {
    /// A mouse that has not been sampled yet.
    pub fn new() -> (mouse: MouseInputSystem)
        ensures
            mouse@ == MouseModel::fresh(),
    {
        let mouse = MouseInputSystem { position: None, buttons: [false; 5] };
        assert(mouse@.buttons =~= Seq::new(5, |i: int| false));
        mouse
    }

    /// Takes in this frame's sample and appends to `events` what the toolkit has to be
    /// told.
    pub fn update(&mut self, sample: &MouseSample, events: &mut Vec<InputEvent>)
        ensures
            final(self)@ == old(self)@.update(*sample),
            final(events)@ == old(events)@ + old(self)@.events(*sample),
    {
        let moved: bool = match self.position {
            None => true,
            Some((x, y)) => x != sample.x || y != sample.y,
        };
        if moved {
            events.push(InputEvent::MousePosition { x: sample.x, y: sample.y });
        }
        let ghost with_position = events@;
        collect_edges(events, self.buttons.as_slice(), sample.buttons.as_slice(), 5, true);
        assert(events@ =~= old(events)@ + old(self)@.events(*sample));
        self.position = Some((sample.x, sample.y));
        self.buttons = sample.buttons;
    }
}

/// Remembers the keyboard as of the last frame.
#[derive(Clone, Copy, Debug)]
pub struct KeyboardInputSystem {
    key_states: [bool; 256],
}

impl View for KeyboardInputSystem {
    type V = Seq<bool>;

    /// Which of the 256 keys were down when last sampled.
    closed spec fn view(&self) -> Seq<bool> {
        self.key_states@
    }
}

impl KeyboardInputSystem {
    /// A keyboard with no key down.
    pub fn new() -> (keyboard: KeyboardInputSystem)
        ensures
            keyboard@ == Seq::new(256, |i: int| false),
    {
        let keyboard = KeyboardInputSystem { key_states: [false; 256] };
        assert(keyboard@ =~= Seq::new(256, |i: int| false));
        keyboard
    }

    /// Whether `code` was down when last sampled.
    pub fn is_down(&self, code: u8) -> (down: bool)
        ensures
            down == self@[code as int],
    {
        self.key_states[code as usize]
    }

    /// Takes in this frame's sample, `down[code]` telling whether the key is down, and
    /// appends to `events` one event for each key that went down or came up, in
    /// ascending order of the key codes.
    pub fn update(&mut self, down: &[bool; 256], events: &mut Vec<InputEvent>)
        ensures
            final(self)@ == down@,
            final(self)@.len() == 256,
            final(events)@ == old(events)@ + edge_events(old(self)@, down@, 256, false),
    {
        collect_edges(events, self.key_states.as_slice(), down.as_slice(), 256, false);
        self.key_states = *down;
    }
}

} // verus!
