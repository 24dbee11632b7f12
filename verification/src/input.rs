//! Viewer side of the command channel: which local events become records.
//!
//! Forwarding is armed while the pointer is over the display surface. While
//! armed, every event becomes one record, except a key press for a key that
//! is already marked as held: the operating system repeats key-down
//! notifications for a held key, and only the first of them is sent.

use crate::command::lemma_scaled_in_capture;
use crate::command::scale_coordinate;
use crate::command::scaled;
use crate::command::Command;
use crate::keys::KeyStateTracker;
use crate::wire::FrameMeta;
use vstd::prelude::*;

verus! {

/// An event of the local display surface, reduced to what the channel needs.
#[derive(Clone, Copy, Debug, PartialEq, Eq, Structural)]
pub enum UiEvent {
    /// The pointer entered the surface.
    Enter,
    /// The pointer left the surface.
    Leave,
    /// A key went down, or is being held and repeats.
    KeyDown(u8),
    /// A key went up.
    KeyUp(u8),
    /// The pointer moved, with or without a button held, to `(x, y)` on a
    /// surface that is `surface_width` by `surface_height` pixels.
    Pointer { x: i32, y: i32, surface_width: i32, surface_height: i32 },
    /// A mouse button went down.
    Push(u8),
    /// A mouse button went up.
    Released(u8),
    /// The wheel turned one step away from the user.
    WheelUp,
    /// The wheel turned one step toward the user.
    WheelDown,
    /// Anything else.
    Other,
}

impl UiEvent {
    /// A pointer event must come from a surface that has pixels.
    pub open spec fn wf(self) -> bool {
        self matches UiEvent::Pointer { surface_width, surface_height, .. } ==> surface_width > 0
            && surface_height > 0
    }

    /// Executable `wf`.
    pub fn is_valid(&self) -> (valid: bool)
        ensures
            valid == self.wf(),
    {
        match *self {
            UiEvent::Pointer { x: _, y: _, surface_width, surface_height } => surface_width > 0
                && surface_height > 0,
            _ => true,
        }
    }
}

/// What the filter remembers between events.
pub ghost struct InputState {
    /// Whether events are being forwarded.
    pub armed: bool,
    /// The keys marked as held.
    pub pressed: Set<u8>,
}

/// The filter's rule: the state after `event` and the record to send, if any.
pub open spec fn step(meta: FrameMeta, state: InputState, event: UiEvent) -> (
    InputState,
    Option<Command>,
) {
    match event {
        UiEvent::Enter => (InputState { armed: true, pressed: state.pressed }, None),
        UiEvent::Leave => (InputState { armed: false, pressed: Set::empty() }, None),
        _ => if !state.armed {
            (state, None)
        } else {
            match event {
                UiEvent::KeyDown(code) => (
                    InputState { armed: true, pressed: state.pressed.insert(code) },
                    if state.pressed.contains(code) {
                        None
                    } else {
                        Some(Command::KeyDown(code))
                    },
                ),
                UiEvent::KeyUp(code) => (
                    InputState { armed: true, pressed: state.pressed.remove(code) },
                    Some(Command::KeyUp(code)),
                ),
                UiEvent::Pointer { x, y, surface_width, surface_height } => (
                    state,
                    Some(
                        Command::Move(
                            scaled(meta.width, x, surface_width) as u16,
                            scaled(meta.height, y, surface_height) as u16,
                        ),
                    ),
                ),
                UiEvent::Push(code) => (state, Some(Command::MouseDown(code))),
                UiEvent::Released(code) => (state, Some(Command::MouseUp(code))),
                UiEvent::WheelUp => (state, Some(Command::WheelUp)),
                UiEvent::WheelDown => (state, Some(Command::WheelDown)),
                _ => (state, None),
            }
        },
    }
}

/// The filter's rule over a whole sequence of events: the state at the end
/// and the records sent, in order.
pub open spec fn run(meta: FrameMeta, state: InputState, events: Seq<UiEvent>) -> (
    InputState,
    Seq<Command>,
)
    decreases events.len(),
{
    if events.len() == 0 {
        (state, Seq::empty())
    } else {
        let before = run(meta, state, events.drop_last());
        let last = step(meta, before.0, events.last());
        (
            last.0,
            match last.1 {
                Some(command) => before.1.push(command),
                None => before.1,
            },
        )
    }
}

/// The event filter of one viewer session.
pub struct InputEncoder {
    meta: FrameMeta,
    hooked: bool,
    keys: KeyStateTracker,
}

impl View for InputEncoder {
    type V = InputState;

    closed spec fn view(&self) -> InputState {
        InputState { armed: self.hooked, pressed: self.keys@ }
    }
}

impl InputEncoder {
    /// The dimensions of the captured screen that pointer positions are scaled to.
    pub closed spec fn meta(self) -> FrameMeta {
        self.meta
    }

    /// A filter that is not armed and holds no key.
    pub fn new(meta: FrameMeta) -> (encoder: InputEncoder)
        ensures
            encoder.meta() == meta,
            encoder@ == (InputState { armed: false, pressed: Set::empty() }),
    {
        InputEncoder { meta, hooked: false, keys: KeyStateTracker::new() }
    }

    /// Whether events are being forwarded.
    pub fn is_armed(&self) -> (armed: bool)
        ensures
            armed == self@.armed,
    {
        self.hooked
    }

    /// Whether `code` is marked as held.
    pub fn is_pressed(&self, code: u8) -> (pressed: bool)
        ensures
            pressed == self@.pressed.contains(code),
    {
        self.keys.contains(code)
    }

    /// Takes one event and returns the record to send for it, if any.
    pub fn handle(&mut self, event: UiEvent) -> (out: Option<Command>)
        requires
            event.wf(),
        ensures
            final(self).meta() == old(self).meta(),
            (final(self)@, out) == step(old(self).meta(), old(self)@, event),
    {
        match event {
            UiEvent::Enter => {
                self.hooked = true;
                None
            },
            UiEvent::Leave => {
                self.hooked = false;
                self.keys.clear();
                None
            },
            _ => {
                if !self.hooked {
                    return None;
                }
                match event {
                    UiEvent::KeyDown(code) => {
                        if self.keys.push(code) {
                            Some(Command::KeyDown(code))
                        } else {
                            None
                        }
                    },
                    UiEvent::KeyUp(code) => {
                        self.keys.remove(code);
                        Some(Command::KeyUp(code))
                    },
                    UiEvent::Pointer { x, y, surface_width, surface_height } => {
                        let remote_x: u16 = scale_coordinate(self.meta.width, x, surface_width);
                        let remote_y: u16 = scale_coordinate(self.meta.height, y, surface_height);
                        Some(Command::Move(remote_x, remote_y))
                    },
                    UiEvent::Push(code) => Some(Command::MouseDown(code)),
                    UiEvent::Released(code) => Some(Command::MouseUp(code)),
                    UiEvent::WheelUp => Some(Command::WheelUp),
                    UiEvent::WheelDown => Some(Command::WheelDown),
                    _ => None,
                }
            },
        }
    }
}

/// A fresh press is sent once: however often the key-down notification of
/// one key repeats, with nothing in between, exactly one record goes out,
/// and the key ends up marked as held.
pub proof fn lemma_key_repeat_sends_once(meta: FrameMeta, state: InputState, code: u8, n: nat)
    requires
        state.armed,
        !state.pressed.contains(code),
        n >= 1,
    ensures
        run(meta, state, Seq::new(n, |i: int| UiEvent::KeyDown(code))).1 == seq![
            Command::KeyDown(code),
        ],
        run(meta, state, Seq::new(n, |i: int| UiEvent::KeyDown(code))).0 == (InputState {
            armed: true,
            pressed: state.pressed.insert(code),
        }),
    decreases n,
{
    let events: Seq<UiEvent> = Seq::new(n, |i: int| UiEvent::KeyDown(code));
    let head: Seq<UiEvent> = Seq::new((n - 1) as nat, |i: int| UiEvent::KeyDown(code));
    assert(events.drop_last() =~= head);
    if n == 1 {
        assert(run(meta, state, head) == (state, Seq::<Command>::empty()));
        assert(Seq::<Command>::empty().push(Command::KeyDown(code)) =~= seq![
            Command::KeyDown(code),
        ]);
    } else {
        lemma_key_repeat_sends_once(meta, state, code, (n - 1) as nat);
        assert(state.pressed.insert(code).insert(code) =~= state.pressed.insert(code));
    }
}

/// While a key is marked as held, no press of it is sent: whatever events
/// arrive, as long as none releases that key or leaves the surface, the
/// records sent hold no key-down for it and the key stays marked.
pub proof fn lemma_held_key_is_silent(
    meta: FrameMeta,
    state: InputState,
    events: Seq<UiEvent>,
    code: u8,
)
    requires
        state.pressed.contains(code),
        forall|i: int|
            0 <= i < events.len() ==> events[i] != UiEvent::KeyUp(code) && events[i]
                != UiEvent::Leave,
    ensures
        run(meta, state, events).0.pressed.contains(code),
        !run(meta, state, events).1.contains(Command::KeyDown(code)),
    decreases events.len(),
{
    if events.len() > 0 {
        let head: Seq<UiEvent> = events.drop_last();
        lemma_held_key_is_silent(meta, state, head, code);
        let before = run(meta, state, head);
        let last = step(meta, before.0, events.last());
        assert(events.last() == events[events.len() - 1]);
        assert(last.1 != Some(Command::KeyDown(code)));
        let sent: Seq<Command> = run(meta, state, events).1;
        if sent.contains(Command::KeyDown(code)) {
            let j: int = choose|j: int| 0 <= j < sent.len() && sent[j] == Command::KeyDown(code);
            if j < before.1.len() {
                assert(before.1[j] == Command::KeyDown(code));
            }
        }
    }
}

/// A release is always sent and clears the mark, so that the next press of
/// the same key is sent again.
pub proof fn lemma_release_then_press(meta: FrameMeta, state: InputState, code: u8)
    requires
        state.armed,
    ensures
        step(meta, state, UiEvent::KeyUp(code)).1 == Some(Command::KeyUp(code)),
        !step(meta, state, UiEvent::KeyUp(code)).0.pressed.contains(code),
        step(meta, step(meta, state, UiEvent::KeyUp(code)).0, UiEvent::KeyDown(code)).1 == Some(
            Command::KeyDown(code),
        ),
{
}

/// Nothing is sent while forwarding is not armed.
pub proof fn lemma_disarmed_is_silent(meta: FrameMeta, state: InputState, event: UiEvent)
    requires
        !state.armed,
    ensures
        step(meta, state, event).1 is None,
{
}

/// A pointer position inside the surface is sent as a position inside the
/// captured screen.
pub proof fn lemma_pointer_lands_in_capture(
    meta: FrameMeta,
    state: InputState,
    x: i32,
    y: i32,
    surface_width: i32,
    surface_height: i32,
)
    requires
        meta.wf(),
        state.armed,
        0 <= x < surface_width,
        0 <= y < surface_height,
    ensures
        step(meta, state, UiEvent::Pointer { x, y, surface_width, surface_height }).1 matches Some(
            Command::Move(remote_x, remote_y),
        ) && remote_x < meta.width && remote_y < meta.height,
{
    lemma_scaled_in_capture(meta.width, x, surface_width);
    lemma_scaled_in_capture(meta.height, y, surface_height);
}

} // verus!
