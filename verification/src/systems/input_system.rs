//! Keyboard and mouse-button state, fed by window events and read by systems.
//!
//! A key code is the numeric code of a physical key. For each of keys and
//! mouse buttons the state keeps three sets: what is held down now, what went
//! down during the current frame, and what went up during the current frame.

use std::collections::HashSet;

use vstd::prelude::*;

verus! {

broadcast use vstd::std_specs::hash::group_hash_axioms;

/// Whether a key or button went down or up.
#[derive(Debug, Clone, Copy, PartialEq, Eq)]
pub enum ElementState {
    Pressed,
    Released,
}

/// The physical key of a keyboard event: a known key code, or a key the
/// platform could not identify.
#[derive(Debug, Clone, Copy, PartialEq, Eq)]
pub enum PhysicalKey {
    Code(u32),
    Unidentified,
}

/// A keyboard event.
#[derive(Debug, Clone, Copy, PartialEq, Eq)]
pub struct KeyEvent {
    pub physical_key: PhysicalKey,
    pub state: ElementState,
}

/// A mouse button.
#[derive(Debug, Clone, Copy, PartialEq, Eq)]
pub enum MouseButton {
    Left,
    Right,
    Middle,
    Back,
    Forward,
    Other(u16),
}

/// The number under which a mouse button is kept in the input state.
pub open spec fn button_code(button: MouseButton) -> u32 {
    match button {
        MouseButton::Left => 0,
        MouseButton::Right => 1,
        MouseButton::Middle => 2,
        MouseButton::Back => 3,
        MouseButton::Forward => 4,
        MouseButton::Other(n) => (5 + n) as u32,
    }
}

impl MouseButton {
    /// The number under which this button is kept in the input state.
    pub fn code(&self) -> (code: u32)
        ensures
            code == button_code(*self),
    {
        match self {
            MouseButton::Left => 0,
            MouseButton::Right => 1,
            MouseButton::Middle => 2,
            MouseButton::Back => 3,
            MouseButton::Forward => 4,
            MouseButton::Other(n) => 5 + *n as u32,
        }
    }
}

/// Distinct mouse buttons are kept under distinct numbers.
pub proof fn law_button_code_injective(a: MouseButton, b: MouseButton)
    requires
        button_code(a) == button_code(b),
    ensures
        a == b,
{
}

/// The current state of the keyboard keys and mouse buttons.
pub struct InputState {
    /// Keys that are held down.
    pub held_keys: HashSet<u32>,
    /// Keys that went down during the current frame.
    pub just_pressed_keys: HashSet<u32>,
    /// Keys that went up during the current frame.
    pub just_released_keys: HashSet<u32>,
    /// Mouse buttons (by code) that are held down.
    pub held_mouse_buttons: HashSet<u32>,
    /// Mouse buttons (by code) that went down during the current frame.
    pub just_pressed_mouse_buttons: HashSet<u32>,
    /// Mouse buttons (by code) that went up during the current frame.
    pub just_released_mouse_buttons: HashSet<u32>,
}

impl InputState {
    /// A state with nothing held and nothing pressed or released.
    pub fn new() -> (state: Self)
        ensures
            state.held_keys@ == Set::<u32>::empty(),
            state.just_pressed_keys@ == Set::<u32>::empty(),
            state.just_released_keys@ == Set::<u32>::empty(),
            state.held_mouse_buttons@ == Set::<u32>::empty(),
            state.just_pressed_mouse_buttons@ == Set::<u32>::empty(),
            state.just_released_mouse_buttons@ == Set::<u32>::empty(),
    {
        Self {
            held_keys: HashSet::new(),
            just_pressed_keys: HashSet::new(),
            just_released_keys: HashSet::new(),
            held_mouse_buttons: HashSet::new(),
            just_pressed_mouse_buttons: HashSet::new(),
            just_released_mouse_buttons: HashSet::new(),
        }
    }

    /// Whether `key` is held down.
    pub fn is_key_held(&self, key: u32) -> (held: bool)
        ensures
            held == self.held_keys@.contains(key),
    {
        self.held_keys.contains(&key)
    }

    /// Whether `key` went down during the current frame.
    pub fn is_key_just_pressed(&self, key: u32) -> (pressed: bool)
        ensures
            pressed == self.just_pressed_keys@.contains(key),
    {
        self.just_pressed_keys.contains(&key)
    }

    /// Whether `key` went up during the current frame.
    pub fn is_key_just_released(&self, key: u32) -> (released: bool)
        ensures
            released == self.just_released_keys@.contains(key),
    {
        self.just_released_keys.contains(&key)
    }

    /// Whether `button` is held down.
    pub fn is_mouse_button_held(&self, button: MouseButton) -> (held: bool)
        ensures
            held == self.held_mouse_buttons@.contains(button_code(button)),
    {
        let code = button.code();
        self.held_mouse_buttons.contains(&code)
    }

    /// Whether `button` went down during the current frame.
    pub fn is_mouse_button_just_pressed(&self, button: MouseButton) -> (pressed: bool)
        ensures
            pressed == self.just_pressed_mouse_buttons@.contains(button_code(button)),
    {
        let code = button.code();
        self.just_pressed_mouse_buttons.contains(&code)
    }

    /// Whether `button` went up during the current frame.
    pub fn is_mouse_button_just_released(&self, button: MouseButton) -> (released: bool)
        ensures
            released == self.just_released_mouse_buttons@.contains(button_code(button)),
    {
        let code = button.code();
        self.just_released_mouse_buttons.contains(&code)
    }
}

/// The key sets after `key` went down: it is held, and it is marked as just
/// pressed when it was not held before.
pub open spec fn press(held: Set<u32>, just_pressed: Set<u32>, key: u32) -> (Set<u32>, Set<u32>) {
    (held.insert(key), if held.contains(key) { just_pressed } else { just_pressed.insert(key) })
}

/// The key sets after `key` went up: it is no longer held, and it is marked as just released.
pub open spec fn release(held: Set<u32>, just_released: Set<u32>, key: u32) -> (Set<u32>, Set<u32>) {
    (held.remove(key), just_released.insert(key))
}

/// The held, just-pressed and just-released key sets after one keyboard
/// event: a press of a known key is `press`, a release is `release`, and an
/// event for an unidentified key changes nothing.
pub open spec fn key_step(keys: (Set<u32>, Set<u32>, Set<u32>), event: KeyEvent) -> (Set<u32>, Set<u32>, Set<u32>) {
    match (event.state, event.physical_key) {
        (ElementState::Pressed, PhysicalKey::Code(key)) => {
            let (held, pressed) = press(keys.0, keys.1, key);
            (held, pressed, keys.2)
        },
        (ElementState::Released, PhysicalKey::Code(key)) => {
            let (held, released) = release(keys.0, keys.2, key);
            (held, keys.1, released)
        },
        (_, PhysicalKey::Unidentified) => keys,
    }
}

/// The key sets after a sequence of keyboard events, in order, starting from `keys`.
pub open spec fn key_run(keys: (Set<u32>, Set<u32>, Set<u32>), events: Seq<KeyEvent>) -> (Set<u32>, Set<u32>, Set<u32>)
    decreases events.len(),
{
    if events.len() == 0 {
        keys
    } else {
        key_step(key_run(keys, events.drop_last()), events.last())
    }
}

/// Turns window input events into the input state, and starts each frame afresh.
pub struct InputSystem;

impl InputSystem {
    /// Creates the system.
    pub fn new() -> Self {
        Self
    }

    /// Records a keyboard event. An event for a key the platform could not
    /// identify changes nothing; mouse buttons are not touched.
    pub fn handle_keyboard_input(&mut self, input: &mut InputState, event: &KeyEvent)
        ensures
            final(input).held_mouse_buttons@ == old(input).held_mouse_buttons@,
            final(input).just_pressed_mouse_buttons@ == old(input).just_pressed_mouse_buttons@,
            final(input).just_released_mouse_buttons@ == old(input).just_released_mouse_buttons@,
            (final(input).held_keys@, final(input).just_pressed_keys@, final(input).just_released_keys@)
                == key_step((old(input).held_keys@, old(input).just_pressed_keys@, old(input).just_released_keys@), *event),
            forall|key: u32| event.state == ElementState::Pressed && event.physical_key == PhysicalKey::Code(key) ==> {
                &&& final(input).held_keys@ == old(input).held_keys@.insert(key)
                &&& final(input).just_pressed_keys@ == (if old(input).held_keys@.contains(key) {
                    old(input).just_pressed_keys@
                } else {
                    old(input).just_pressed_keys@.insert(key)
                })
                &&& final(input).just_released_keys@ == old(input).just_released_keys@
            },
            forall|key: u32| event.state == ElementState::Released && event.physical_key == PhysicalKey::Code(key) ==> {
                &&& final(input).held_keys@ == old(input).held_keys@.remove(key)
                &&& final(input).just_pressed_keys@ == old(input).just_pressed_keys@
                &&& final(input).just_released_keys@ == old(input).just_released_keys@.insert(key)
            },
            match (event.state, event.physical_key) {
                (ElementState::Pressed, PhysicalKey::Code(key)) => {
                    &&& (final(input).held_keys@, final(input).just_pressed_keys@)
                        == press(old(input).held_keys@, old(input).just_pressed_keys@, key)
                    &&& final(input).just_released_keys@ == old(input).just_released_keys@
                },
                (ElementState::Released, PhysicalKey::Code(key)) => {
                    &&& (final(input).held_keys@, final(input).just_released_keys@)
                        == release(old(input).held_keys@, old(input).just_released_keys@, key)
                    &&& final(input).just_pressed_keys@ == old(input).just_pressed_keys@
                },
                (_, PhysicalKey::Unidentified) => {
                    &&& final(input).held_keys@ == old(input).held_keys@
                    &&& final(input).just_pressed_keys@ == old(input).just_pressed_keys@
                    &&& final(input).just_released_keys@ == old(input).just_released_keys@
                },
            },
    {
        match event.state {
            ElementState::Pressed => {
                if let PhysicalKey::Code(key_code) = event.physical_key {
                    if input.held_keys.insert(key_code) {
                        input.just_pressed_keys.insert(key_code);
                    }
                }
            },
            ElementState::Released => {
                if let PhysicalKey::Code(key_code) = event.physical_key {
                    input.held_keys.remove(&key_code);
                    input.just_released_keys.insert(key_code);
                }
            },
        }
    }

    /// Records a mouse-button event; keys are not touched.
    pub fn handle_mouse_button(&mut self, input: &mut InputState, state: ElementState, button: MouseButton)
        ensures
            final(input).held_keys@ == old(input).held_keys@,
            final(input).just_pressed_keys@ == old(input).just_pressed_keys@,
            final(input).just_released_keys@ == old(input).just_released_keys@,
            state == ElementState::Pressed ==> {
                &&& final(input).held_mouse_buttons@ == old(input).held_mouse_buttons@.insert(button_code(button))
                &&& final(input).just_pressed_mouse_buttons@ == (if old(input).held_mouse_buttons@.contains(button_code(button)) {
                    old(input).just_pressed_mouse_buttons@
                } else {
                    old(input).just_pressed_mouse_buttons@.insert(button_code(button))
                })
                &&& final(input).just_released_mouse_buttons@ == old(input).just_released_mouse_buttons@
            },
            state == ElementState::Released ==> {
                &&& final(input).held_mouse_buttons@ == old(input).held_mouse_buttons@.remove(button_code(button))
                &&& final(input).just_pressed_mouse_buttons@ == old(input).just_pressed_mouse_buttons@
                &&& final(input).just_released_mouse_buttons@ == old(input).just_released_mouse_buttons@.insert(button_code(button))
            },
            match state {
                ElementState::Pressed => {
                    &&& (final(input).held_mouse_buttons@, final(input).just_pressed_mouse_buttons@)
                        == press(old(input).held_mouse_buttons@, old(input).just_pressed_mouse_buttons@, button_code(button))
                    &&& final(input).just_released_mouse_buttons@ == old(input).just_released_mouse_buttons@
                },
                ElementState::Released => {
                    &&& (final(input).held_mouse_buttons@, final(input).just_released_mouse_buttons@)
                        == release(old(input).held_mouse_buttons@, old(input).just_released_mouse_buttons@, button_code(button))
                    &&& final(input).just_pressed_mouse_buttons@ == old(input).just_pressed_mouse_buttons@
                },
            },
    {
        let code = button.code();
        match state {
            ElementState::Pressed => {
                if input.held_mouse_buttons.insert(code) {
                    input.just_pressed_mouse_buttons.insert(code);
                }
            },
            ElementState::Released => {
                input.held_mouse_buttons.remove(&code);
                input.just_released_mouse_buttons.insert(code);
            },
        }
    }

    /// Starts a new frame: forgets what was pressed or released during the
    /// last one; what is held stays held.
    pub fn update(&mut self, input: &mut InputState)
        ensures
            final(input).held_keys@ == old(input).held_keys@,
            final(input).held_mouse_buttons@ == old(input).held_mouse_buttons@,
            final(input).just_pressed_keys@ == Set::<u32>::empty(),
            final(input).just_released_keys@ == Set::<u32>::empty(),
            final(input).just_pressed_mouse_buttons@ == Set::<u32>::empty(),
            final(input).just_released_mouse_buttons@ == Set::<u32>::empty(),
    {
        input.just_pressed_keys.clear();
        input.just_released_keys.clear();
        input.just_pressed_mouse_buttons.clear();
        input.just_released_mouse_buttons.clear();
    }
}

/// A key that goes down and up again within one frame ends up not held, is
/// reported as released, and is reported as pressed exactly when it was up
/// before or had already been reported as pressed.
pub proof fn law_press_then_release(
    held: Set<u32>,
    just_pressed: Set<u32>,
    just_released: Set<u32>,
    key: u32,
)
    ensures
        ({
            let (held1, pressed1) = press(held, just_pressed, key);
            let (held2, released2) = release(held1, just_released, key);
            &&& held2 == held.remove(key)
            &&& released2.contains(key)
            &&& pressed1.contains(key) == (!held.contains(key) || just_pressed.contains(key))
        }),
{
    let (held1, pressed1) = press(held, just_pressed, key);
    assert(held1.remove(key) =~= held.remove(key));
}

/// Pressing a key that is already held changes nothing.
pub proof fn law_press_held_key_is_no_change(held: Set<u32>, just_pressed: Set<u32>, key: u32)
    requires
        held.contains(key),
    ensures
        press(held, just_pressed, key) == (held, just_pressed),
{
    assert(held.insert(key) =~= held);
}

/// Since the last start of a frame, a key is reported as just pressed exactly
/// when some press of it arrived while it was not held: a press of a key that
/// is already held (a key repeat) does not count. `held` is what was held when
/// the frame started, with nothing pressed or released yet.
pub proof fn law_just_pressed_iff_pressed_while_up(held: Set<u32>, events: Seq<KeyEvent>, key: u32)
    ensures
        key_run((held, Set::empty(), Set::empty()), events).1.contains(key) <==> exists|i: int|
            0 <= i < events.len()
            && (#[trigger] events[i]).state == ElementState::Pressed
            && events[i].physical_key == PhysicalKey::Code(key)
            && !key_run((held, Set::empty(), Set::empty()), events.take(i)).0.contains(key),
    decreases events.len(),
{
    let start = (held, Set::<u32>::empty(), Set::<u32>::empty());
    if events.len() == 0 {
    } else {
        let prefix = events.drop_last();
        let n = events.len() - 1;
        law_just_pressed_iff_pressed_while_up(held, prefix, key);
        assert(events.take(n) =~= prefix);
        assert forall|i: int| 0 <= i < n implies #[trigger] events[i] == prefix[i]
            && events.take(i) =~= prefix.take(i) by {}
        let before = key_run(start, prefix);
        let last = events.last();
        assert(key_run(start, events) == key_step(before, last));
        if key_run(start, events).1.contains(key) {
            if !before.1.contains(key) {
                assert(events[n] == last);
            } else {
                let i = choose|i: int|
                    0 <= i < prefix.len()
                    && (#[trigger] prefix[i]).state == ElementState::Pressed
                    && prefix[i].physical_key == PhysicalKey::Code(key)
                    && !key_run(start, prefix.take(i)).0.contains(key);
                assert(events[i] == prefix[i]);
            }
        } else {
            assert forall|i: int| 0 <= i < events.len()
                && (#[trigger] events[i]).state == ElementState::Pressed
                && events[i].physical_key == PhysicalKey::Code(key)
                implies key_run(start, events.take(i)).0.contains(key) by {
                if i < n {
                    assert(events[i] == prefix[i]);
                    assert(events.take(i) =~= prefix.take(i));
                }
            }
        }
    }
}

/// A release adds its key to the just-released set and keeps every key that
/// was already there; the held set loses exactly that key.
pub proof fn law_release_adds_and_keeps(held: Set<u32>, just_released: Set<u32>, key: u32)
    ensures
        release(held, just_released, key).1.contains(key),
        forall|other: u32| #[trigger] just_released.contains(other) ==> release(held, just_released, key).1.contains(other),
        forall|other: u32| #[trigger] release(held, just_released, key).1.contains(other) ==> other == key
            || just_released.contains(other),
        !release(held, just_released, key).0.contains(key),
        forall|other: u32| other != key ==> (#[trigger] release(held, just_released, key).0.contains(other)
            == held.contains(other)),
{
}

/// Since the last start of a frame, a key is reported as just released
/// exactly when some release of it arrived, whatever else happened in between
/// (other releases do not make it forgotten). `held` is what was held when the
/// frame started, with nothing pressed or released yet.
pub proof fn law_just_released_iff_released(held: Set<u32>, events: Seq<KeyEvent>, key: u32)
    ensures
        key_run((held, Set::empty(), Set::empty()), events).2.contains(key) <==> exists|i: int|
            0 <= i < events.len()
            && (#[trigger] events[i]).state == ElementState::Released
            && events[i].physical_key == PhysicalKey::Code(key),
    decreases events.len(),
{
    let start = (held, Set::<u32>::empty(), Set::<u32>::empty());
    if events.len() > 0 {
        let prefix = events.drop_last();
        let n = events.len() - 1;
        law_just_released_iff_released(held, prefix, key);
        assert(key_run(start, events) == key_step(key_run(start, prefix), events.last()));
        if key_run(start, events).2.contains(key) {
            if !key_run(start, prefix).2.contains(key) {
                assert(events[n] == events.last());
            } else {
                let i = choose|i: int|
                    0 <= i < prefix.len()
                    && (#[trigger] prefix[i]).state == ElementState::Released
                    && prefix[i].physical_key == PhysicalKey::Code(key);
                assert(events[i] == prefix[i]);
            }
        } else {
            assert forall|i: int| 0 <= i < events.len()
                && (#[trigger] events[i]).state == ElementState::Released
                implies events[i].physical_key != PhysicalKey::Code(key) by {
                if i < n {
                    assert(events[i] == prefix[i]);
                }
            }
        }
    }
}

} // verus!
