use vstd::prelude::*;

verus! {

/// Keys the game reacts to; every other key is `Any`.
#[derive(Debug, Clone, Copy, PartialEq, Eq, Structural)]
pub enum KeyCode {
    Escape,
    Left,
    Up,
    Right,
    Down,
    Any,
    A,
    B,
    C,
    D,
    E,
    F,
    G,
    H,
    I,
    J,
    K,
    L,
    M,
    N,
    O,
    P,
    Q,
    R,
    S,
    T,
    U,
    V,
    W,
    X,
    Y,
    Z,
    Space,
    Comma,
}

/// Mouse buttons the game tells apart.
#[derive(Debug, Clone, Copy, PartialEq, Eq, Structural)]
pub enum MouseButton {
    Left,
    Right,
    Other,
}

/// Whether a key or button went down or up.
#[derive(Debug, Clone, Copy, PartialEq, Eq, Structural)]
pub enum ElementState {
    Pressed,
    Released,
}

/// The rhythm controls of the game.
#[derive(Debug, Clone, Copy, PartialEq, Eq, Structural)]
pub enum RhythmControlInput {
    Tap1,
    Tap2,
    Tap3,
    Tap4,
    TapMove1,
    TapMove2,
    TapWide,
}

#[derive(Debug, Clone, Copy, PartialEq, Eq, Structural)]
pub enum RhythmControlInputState {
    Pressed,
    Unpressed,
}

/// Number of rhythm controls.
pub const RHYTHM_CONTROL_COUNT: usize = 7;

/// The position of `input` among the rhythm controls.
pub open spec fn control_index(input: RhythmControlInput) -> nat {
    match input {
        RhythmControlInput::Tap1 => 0,
        RhythmControlInput::Tap2 => 1,
        RhythmControlInput::Tap3 => 2,
        RhythmControlInput::Tap4 => 3,
        RhythmControlInput::TapMove1 => 4,
        RhythmControlInput::TapMove2 => 5,
        RhythmControlInput::TapWide => 6,
    }
}

fn control_position(input: RhythmControlInput) -> (r: usize)
    ensures
        r == control_index(input),
        r < RHYTHM_CONTROL_COUNT,
{
    match input {
        RhythmControlInput::Tap1 => 0,
        RhythmControlInput::Tap2 => 1,
        RhythmControlInput::Tap3 => 2,
        RhythmControlInput::Tap4 => 3,
        RhythmControlInput::TapMove1 => 4,
        RhythmControlInput::TapMove2 => 5,
        RhythmControlInput::TapWide => 6,
    }
}

/// The rhythm control bound to keyboard key `key`.
pub open spec fn spec_key_binding(key: KeyCode) -> Option<RhythmControlInput> {
    match key {
        KeyCode::Q => Some(RhythmControlInput::Tap1),
        KeyCode::W => Some(RhythmControlInput::Tap2),
        KeyCode::E => Some(RhythmControlInput::Tap3),
        KeyCode::R => Some(RhythmControlInput::Tap4),
        KeyCode::Space => Some(RhythmControlInput::TapWide),
        _ => None,
    }
}

/// The rhythm control bound to keyboard key `key`, if any.
pub fn key_binding(key: KeyCode) -> (r: Option<RhythmControlInput>)
    ensures
        r == spec_key_binding(key),
{
    match key {
        KeyCode::Q => Some(RhythmControlInput::Tap1),
        KeyCode::W => Some(RhythmControlInput::Tap2),
        KeyCode::E => Some(RhythmControlInput::Tap3),
        KeyCode::R => Some(RhythmControlInput::Tap4),
        KeyCode::Space => Some(RhythmControlInput::TapWide),
        _ => None,
    }
}

/// The rhythm control bound to mouse button `button`, if any.
pub fn mouse_binding(button: MouseButton) -> (r: Option<RhythmControlInput>)
    ensures
        button == MouseButton::Left ==> r == Some(RhythmControlInput::TapMove1),
        button == MouseButton::Right ==> r == Some(RhythmControlInput::TapMove2),
        button == MouseButton::Other ==> r is None,
{
    match button {
        MouseButton::Left => Some(RhythmControlInput::TapMove1),
        MouseButton::Right => Some(RhythmControlInput::TapMove2),
        MouseButton::Other => None,
    }
}

/// Whether each rhythm control is held down.
pub struct RhythmControlState {
    states: Vec<RhythmControlInputState>,
}

impl View for RhythmControlState {
    type V = Seq<RhythmControlInputState>;

    closed spec fn view(&self) -> Seq<RhythmControlInputState> {
        self.states@
    }
}

impl RhythmControlState {
    pub open spec fn wf(&self) -> bool {
        self@.len() == RHYTHM_CONTROL_COUNT
    }

    /// Every control released.
    pub fn new() -> (r: RhythmControlState)
        ensures
            r.wf(),
            forall|i: int| 0 <= i < RHYTHM_CONTROL_COUNT ==> #[trigger] r@[i] == RhythmControlInputState::Unpressed,
    {
        let mut states: Vec<RhythmControlInputState> = Vec::new();
        let mut i: usize = 0;
        while i < RHYTHM_CONTROL_COUNT
            invariant
                i <= RHYTHM_CONTROL_COUNT,
                states@.len() == i,
                forall|k: int| 0 <= k < i ==> #[trigger] states@[k] == RhythmControlInputState::Unpressed,
            decreases RHYTHM_CONTROL_COUNT - i,
        {
            states.push(RhythmControlInputState::Unpressed);
            i = i + 1;
        }
        RhythmControlState { states }
    }

    pub fn state(&self, input: RhythmControlInput) -> (r: RhythmControlInputState)
        requires
            self.wf(),
        ensures
            r == self@[control_index(input) as int],
    {
        self.states[control_position(input)]
    }

    /// Records that `input` went down or up. Returns whether this is a new
    /// press, on which a tap sound is played; holding a control down repeats
    /// no tap.
    pub fn update(&mut self, input: RhythmControlInput, state: ElementState) -> (r: bool)
        requires
            old(self).wf(),
        ensures
            final(self).wf(),
            r == (state == ElementState::Pressed && old(self)@[control_index(input) as int] == RhythmControlInputState::Unpressed),
            final(self)@ == old(self)@.update(
                control_index(input) as int,
                if state == ElementState::Pressed {
                    RhythmControlInputState::Pressed
                } else {
                    RhythmControlInputState::Unpressed
                },
            ),
    {
        let p = control_position(input);
        match state {
            ElementState::Pressed => {
                let was = self.states[p];
                self.states.set(p, RhythmControlInputState::Pressed);
                match was {
                    RhythmControlInputState::Unpressed => true,
                    RhythmControlInputState::Pressed => {
                        assert(self@ =~= old(self)@.update(control_index(input) as int, RhythmControlInputState::Pressed));
                        false
                    },
                }
            },
            ElementState::Released => {
                self.states.set(p, RhythmControlInputState::Unpressed);
                false
            },
        }
    }
}

} // verus!
