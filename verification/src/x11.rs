//! The input backend as seen by the daemon: what it is asked to do, and in
//! which order.

pub mod key;

use crate::x11::key::{keycode_of, get_keycode, InputEvent, MouseCode, SpecialCode, SHIFT_KEYCODE};
use vstd::prelude::*;

verus! {

/// Amount to jump the pointer by each movement during interpolation.
pub const MOUSE_DELTA: i16 = 1;

/// Time in ms a keypress blocks, avoiding repeating key bug.
pub const KEY_TIME: u64 = 50;

/// The value of `x` where it lies between `min` and `max`, else the bound
/// that it lies beyond; `max` where the two bounds cross.
pub open spec fn clamp_spec(x: int, min: int, max: int) -> int {
    if x > max {
        max
    } else if x < min {
        min
    } else {
        x
    }
}

/// Clamps x between min & max.
pub fn clamp(x: i16, min: i16, max: i16) -> (r: i16)
    ensures
        r == clamp_spec(x as int, min as int, max as int),
        min <= max ==> min <= r <= max,
        min <= x <= max ==> r == x,
{
    if x > max {
        max
    } else if x < min {
        min
    } else {
        x
    }
}

/// One step from `current` towards `target`: `MOUSE_DELTA` closer where the
/// two are further apart than that, else onto `target`.
pub open spec fn approach_spec(target: int, current: int) -> int {
    if target - current > MOUSE_DELTA {
        current + MOUSE_DELTA
    } else if target - current < -MOUSE_DELTA {
        current - MOUSE_DELTA
    } else {
        target
    }
}

/// Where `n` steps from `current` towards `target` lead.
pub open spec fn approach_n(target: int, current: int, n: nat) -> int
    decreases n,
{
    if n == 0 {
        current
    } else {
        approach_spec(target, approach_n(target, current, (n - 1) as nat))
    }
}

/// Interpolates current towards target by MOUSE_DELTA.
pub fn approach(target: i16, current: i16) -> (r: i16)
    ensures
        r == approach_spec(target as int, current as int),
{
    let diff: i32 = target as i32 - current as i32;
    if diff > MOUSE_DELTA as i32 {
        current + MOUSE_DELTA
    } else if diff < -(MOUSE_DELTA as i32) {
        current - MOUSE_DELTA
    } else {
        target
    }
}

/// After `n` steps the pointer has covered `n` times `MOUSE_DELTA` of the
/// way to its target, or all of it where the way is shorter: it never passes
/// the target, never turns back, and once there it stays.
pub proof fn lemma_approach_n(target: int, current: int, n: nat)
    ensures
        approach_n(target, current, n) == current + clamp_spec(
            target - current,
            -(n * MOUSE_DELTA),
            n * MOUSE_DELTA,
        ),
        current <= target ==> current <= approach_n(target, current, n) <= target,
        current >= target ==> current >= approach_n(target, current, n) >= target,
        n * MOUSE_DELTA >= target - current >= -(n * MOUSE_DELTA) ==> approach_n(
            target,
            current,
            n,
        ) == target,
    decreases n,
{
    if n > 0 {
        lemma_approach_n(target, current, (n - 1) as nat);
    }
}

/// One request to the input backend.
#[derive(Copy, Clone, Debug, PartialEq, Eq, Structural)]
pub enum Request {
    /// Warp the pointer to a place on the screen of `root`, given in
    /// percent of its width and height, each from 0 to 100.
    WarpPointer { root: u32, x: i16, y: i16 },
    /// Simulate one key or button event on the screen of `root`.
    FakeInput { event: InputEvent, detail: u8, root: u32 },
    /// Wait before the next request.
    Sleep { millis: u64 },
    /// Send what was requested so far.
    Flush,
}

/// What a look into a channel found.
#[derive(Debug)]
pub enum Received<T> {
    /// The oldest item that waited.
    Item(T),
    /// Nothing waits.
    Empty,
    /// Nothing waits and nobody is left to send.
    Disconnected,
}

/// What one round of a loop asks for.
pub struct Tick {
    /// The requests to make, in this order.
    pub requests: Vec<Request>,
    /// Whether the loop ends after them.
    pub stop: bool,
}

/// Where the pointer is and where it is headed, in percent of the screen.
#[derive(Copy, Clone, Debug, PartialEq, Eq)]
pub struct Pointer {
    /// The last position that was sent to the backend.
    pub current: (i16, i16),
    /// The position that was asked for last.
    pub target: (i16, i16),
}

/// The requests that warp the pointer to `(x, y)`, brought into the screen.
pub open spec fn mouse_to_spec(root: u32, x: i16, y: i16) -> Seq<Request> {
    seq![
        Request::WarpPointer {
            root,
            x: clamp_spec(x as int, 0, 100) as i16,
            y: clamp_spec(y as int, 0, 100) as i16,
        },
        Request::Flush,
    ]
}

/// The position one step from `current` towards `target`, on each axis.
pub open spec fn mouse_approach_spec(target: (i16, i16), current: (i16, i16)) -> (i16, i16) {
    (
        approach_spec(target.0 as int, current.0 as int) as i16,
        approach_spec(target.1 as int, current.1 as int) as i16,
    )
}

/// The target after a round in which `pending` arrived, oldest first: the
/// newest of them, or the old target where none arrived.
pub open spec fn latest_target(target: (i16, i16), pending: Seq<(i16, i16)>) -> (i16, i16) {
    if pending.len() > 0 {
        pending.last()
    } else {
        target
    }
}

/// The requests that press or release `keycode` and let the event settle.
pub open spec fn trigger_key_spec(root: u32, keycode: u8, event: InputEvent) -> Seq<Request> {
    seq![
        Request::FakeInput { event, detail: keycode, root },
        Request::Sleep { millis: KEY_TIME },
    ]
}

/// The requests that tap the key `code`.
pub open spec fn tap_key_spec(root: u32, code: u8) -> Seq<Request> {
    trigger_key_spec(root, code, InputEvent::KeyPress) + trigger_key_spec(
        root,
        code,
        InputEvent::KeyRelease,
    ) + seq![Request::Flush]
}

/// The requests that type `key`, with shift held where the key needs it;
/// nothing where the keyboard has no such key.
pub open spec fn enter_character_spec(root: u32, key: char) -> Option<Seq<Request>> {
    match keycode_of(key) {
        Some((code, true)) => Some(
            seq![Request::FakeInput { event: InputEvent::KeyPress, detail: SHIFT_KEYCODE, root }]
                + tap_key_spec(root, code) + seq![
                Request::FakeInput { event: InputEvent::KeyRelease, detail: SHIFT_KEYCODE, root },
                Request::Flush,
            ],
        ),
        Some((code, false)) => Some(tap_key_spec(root, code)),
        None => None,
    }
}

/// The requests that tap the mouse button `mc`.
pub open spec fn tap_mouse_button_spec(root: u32, mc: MouseCode) -> Seq<Request> {
    trigger_key_spec(root, mc.code_spec(), InputEvent::MousePress) + trigger_key_spec(
        root,
        mc.code_spec(),
        InputEvent::MouseRelease,
    ) + seq![Request::Flush]
}

/// The requests that one round of the button loop makes for what the three
/// channels gave: the character first, then the button, then the special
/// key.
pub open spec fn button_requests(
    root: u32,
    key: Received<char>,
    mouse: Received<MouseCode>,
    special: Received<SpecialCode>,
) -> Seq<Request> {
    (match key {
        Received::Item(character) => match enter_character_spec(root, character) {
            Some(requests) => requests,
            None => Seq::empty(),
        },
        _ => Seq::empty(),
    }) + (match mouse {
        Received::Item(button) => tap_mouse_button_spec(root, button),
        _ => Seq::empty(),
    }) + (match special {
        Received::Item(s) => tap_key_spec(root, s.code_spec()),
        _ => Seq::empty(),
    })
}

/// Represents a client connection to the x11 display: the root window that
/// its requests go to.
pub struct XConnection {
    screen_root: u32,
}

impl View for XConnection {
    type V = u32;

    /// The root window of the screen.
    closed spec fn view(&self) -> u32 {
        self.screen_root
    }
}

impl XConnection {
    /// A connection whose screen has the root window `screen_root`.
    pub fn new(screen_root: u32) -> (conn: XConnection)
        ensures
            conn@ == screen_root,
    {
        XConnection { screen_root }
    }

    /// The root window of the screen.
    pub fn screen_root(&self) -> (root: u32)
        ensures
            root == self@,
    {
        self.screen_root
    }

    /// Teleports the mouse pointer to a location as a percentage from 0-100 on the screen.
    pub fn mouse_to(&self, x: i16, y: i16) -> (requests: Vec<Request>)
        ensures
            requests@ == mouse_to_spec(self@, x, y),
    {
        let x = clamp(x, 0, 100);
        let y = clamp(y, 0, 100);
        let mut requests = Vec::new();
        requests.push(Request::WarpPointer { root: self.screen_root, x, y });
        requests.push(Request::Flush);
        assert(requests@ =~= mouse_to_spec(self@, x, y));
        requests
    }

    /// Interpolate mouse to target from current, returning the new position
    /// and the requests that bring the pointer there.
    pub fn mouse_approach(&self, target: (i16, i16), current: (i16, i16)) -> (r: (
        (i16, i16),
        Vec<Request>,
    ))
        ensures
            r.0 == mouse_approach_spec(target, current),
            r.1@ == mouse_to_spec(self@, r.0.0, r.0.1),
    {
        let (x, y) = (approach(target.0, current.0), approach(target.1, current.1));
        ((x, y), self.mouse_to(x, y))
    }

    /// One round of the pointer loop. `pending` holds the targets that
    /// arrived since the last round, oldest first: the newest replaces the
    /// target, the others are dropped. Then the pointer moves one step.
    /// With nobody left to send targets the loop ends.
    pub fn mouse_loop(&self, pointer: &mut Pointer, pending: &[(i16, i16)], disconnected: bool) -> (tick:
        Tick)
        ensures
            tick.stop == disconnected,
            disconnected ==> *final(pointer) == *old(pointer) && tick.requests@.len() == 0,
            !disconnected ==> final(pointer).target == latest_target(old(pointer).target, pending@),
            !disconnected ==> final(pointer).current == mouse_approach_spec(
                final(pointer).target,
                old(pointer).current,
            ),
            !disconnected ==> tick.requests@ == mouse_to_spec(
                self@,
                final(pointer).current.0,
                final(pointer).current.1,
            ),
    {
        if disconnected {
            return Tick { requests: Vec::new(), stop: true };
        }
        // Take the new target if received, otherwise move towards the same target.
        if pending.len() > 0 {
            pointer.target = pending[pending.len() - 1];
        }
        let (new_current, requests) = self.mouse_approach(pointer.target, pointer.current);
        pointer.current = new_current;
        Tick { requests, stop: false }
    }

    /// Raw key press/release.
    pub fn trigger_key(&self, keycode: u8, ev: InputEvent) -> (requests: Vec<Request>)
        ensures
            requests@ == trigger_key_spec(self@, keycode, ev),
    {
        let mut requests = Vec::new();
        requests.push(Request::FakeInput { event: ev, detail: keycode, root: self.screen_root });
        requests.push(Request::Sleep { millis: KEY_TIME });
        assert(requests@ =~= trigger_key_spec(self@, keycode, ev));
        requests
    }

    /// Toggles the upper-key state on.
    pub fn set_upper(&self) -> (request: Request)
        ensures
            request == (Request::FakeInput {
                event: InputEvent::KeyPress,
                detail: SHIFT_KEYCODE,
                root: self@,
            }),
    {
        Request::FakeInput {
            event: InputEvent::KeyPress,
            detail: SHIFT_KEYCODE,
            root: self.screen_root,
        }
    }

    /// Toggles the upper-key state off.
    pub fn release_upper(&self) -> (request: Request)
        ensures
            request == (Request::FakeInput {
                event: InputEvent::KeyRelease,
                detail: SHIFT_KEYCODE,
                root: self@,
            }),
    {
        Request::FakeInput {
            event: InputEvent::KeyRelease,
            detail: SHIFT_KEYCODE,
            root: self.screen_root,
        }
    }

    /// Presses and releases the key `code`.
    fn tap_key(&self, code: u8) -> (requests: Vec<Request>)
        ensures
            requests@ == tap_key_spec(self@, code),
    {
        let mut requests = self.trigger_key(code, InputEvent::KeyPress);
        let mut release = self.trigger_key(code, InputEvent::KeyRelease);
        requests.append(&mut release);
        requests.push(Request::Flush);
        requests
    }

    /// Looks up a special character and presses it.
    pub fn enter_special(&self, code: SpecialCode) -> (requests: Vec<Request>)
        ensures
            requests@ == tap_key_spec(self@, code.code_spec()),
    {
        self.tap_key(code.code())
    }

    /// Looks up & presses a key by character, simulating a press & release.
    pub fn enter_character(&self, key: char) -> (r: Option<Vec<Request>>)
        ensures
            match r {
                Some(requests) => enter_character_spec(self@, key) == Some(requests@),
                None => enter_character_spec(self@, key) is None,
            },
    {
        let (code, is_upper) = match get_keycode(key) {
            Some((c, iu)) => (c, iu),
            None => {
                return None;
            },
        };
        let mut requests = Vec::new();
        if is_upper {
            requests.push(self.set_upper());
        }
        let mut tap = self.tap_key(code);
        requests.append(&mut tap);
        if is_upper {
            requests.push(self.release_upper());
            requests.push(Request::Flush);
        }
        assert(Some(requests@) =~= enter_character_spec(self@, key));
        Some(requests)
    }

    /// Presses and releases a mouse button.
    pub fn tap_mouse_button(&self, mc: MouseCode) -> (requests: Vec<Request>)
        ensures
            requests@ == tap_mouse_button_spec(self@, mc),
    {
        let keycode = mc.code();
        let mut requests = self.trigger_key(keycode, InputEvent::MousePress);
        let mut release = self.trigger_key(keycode, InputEvent::MouseRelease);
        requests.append(&mut release);
        requests.push(Request::Flush);
        requests
    }

    /// One round of the button loop, for what a look into each of the three
    /// channels found. The loop ends once a channel has nobody left to send.
    pub fn button_loop(
        &self,
        key_inputs: Received<char>,
        mouse_inputs: Received<MouseCode>,
        special_inputs: Received<SpecialCode>,
    ) -> (tick: Tick)
        ensures
            tick.requests@ == button_requests(self@, key_inputs, mouse_inputs, special_inputs),
            tick.stop == (key_inputs is Disconnected || mouse_inputs is Disconnected
                || special_inputs is Disconnected),
    {
        let mut requests: Vec<Request> = Vec::new();
        let mut stop = false;
        match key_inputs {
            Received::Item(character) => {
                match self.enter_character(character) {
                    Some(mut typed) => {
                        requests.append(&mut typed);
                    },
                    None => {},
                }
            },
            Received::Empty => {},
            Received::Disconnected => {
                stop = true;
            },
        }
        match mouse_inputs {
            Received::Item(button) => {
                let mut tapped = self.tap_mouse_button(button);
                requests.append(&mut tapped);
            },
            Received::Empty => {},
            Received::Disconnected => {
                stop = true;
            },
        }
        match special_inputs {
            Received::Item(s) => {
                let mut tapped = self.enter_special(s);
                requests.append(&mut tapped);
            },
            Received::Empty => {},
            Received::Disconnected => {
                stop = true;
            },
        }
        assert(requests@ =~= button_requests(self@, key_inputs, mouse_inputs, special_inputs));
        Tick { requests, stop }
    }
}

} // verus!
