//! Gamepad state decoding: raw joystick events (8-byte records of the Linux
//! joystick interface) are parsed into typed events, routed through a
//! device-to-control mapping, and folded into a button/axis state snapshot
//! that the control loop polls.

use vstd::prelude::*;
use std::collections::HashMap;

verus! {

broadcast use vstd::std_specs::hash::group_hash_axioms;

/// Smallest raw value a joystick axis reports.
pub const JOY_AXIS_MIN_VALUE: i16 = -32767;

/// Largest raw value a joystick axis reports.
pub const JOY_AXIS_MAX_VALUE: i16 = 32767;

/// The gamepad buttons the control loop reads.
#[derive(Debug, Clone, Copy)]
pub enum Buttons {
    A,
    B,
    X,
    Y,
    LB,
    RB,
    SELECT,
    START,
}

impl Buttons {
    /// Index of this button in the state snapshot.
    pub open spec fn index_spec(self) -> int {
        match self {
            Buttons::A => 0,
            Buttons::B => 1,
            Buttons::X => 2,
            Buttons::Y => 3,
            Buttons::LB => 4,
            Buttons::RB => 5,
            Buttons::SELECT => 6,
            Buttons::START => 7,
        }
    }

    /// Index of this button in the state snapshot.
    pub fn index(self) -> (i: usize)
        ensures
            i == self.index_spec(),
    {
        match self {
            Buttons::A => 0,
            Buttons::B => 1,
            Buttons::X => 2,
            Buttons::Y => 3,
            Buttons::LB => 4,
            Buttons::RB => 5,
            Buttons::SELECT => 6,
            Buttons::START => 7,
        }
    }
}

/// The gamepad axes the control loop reads.
#[derive(Debug, Clone, Copy)]
pub enum Axes {
    LY,
    LX,
    LT,
    RY,
    RX,
    RT,
    Horiz,
    Vert,
}

impl Axes {
    /// Index of this axis in the state snapshot.
    pub open spec fn index_spec(self) -> int {
        match self {
            Axes::LY => 0,
            Axes::LX => 1,
            Axes::LT => 2,
            Axes::RY => 3,
            Axes::RX => 4,
            Axes::RT => 5,
            Axes::Horiz => 6,
            Axes::Vert => 7,
        }
    }

    /// Index of this axis in the state snapshot.
    pub fn index(self) -> (i: usize)
        ensures
            i == self.index_spec(),
    {
        match self {
            Axes::LY => 0,
            Axes::LX => 1,
            Axes::LT => 2,
            Axes::RY => 3,
            Axes::RX => 4,
            Axes::RT => 5,
            Axes::Horiz => 6,
            Axes::Vert => 7,
        }
    }
}

/// Routes a device's button and axis numbers to the controls they stand for.
#[derive(Debug, Clone)]
pub struct Mapping {
    axes: HashMap<u8, Axes>,
    buttons: HashMap<u8, Buttons>,
}

impl Mapping {
    /// Which control each device button number drives.
    pub closed spec fn buttons_map(self) -> Map<u8, Buttons> {
        self.buttons@
    }

    /// Which control each device axis number drives.
    pub closed spec fn axes_map(self) -> Map<u8, Axes> {
        self.axes@
    }
}

/// The button/axis mapping of an XBox-style controller.
pub fn xbox_mapping() -> (m: Mapping)
    ensures
        m.buttons_map() == map![
            0u8 => Buttons::A, 1u8 => Buttons::B, 2u8 => Buttons::X, 3u8 => Buttons::Y,
            4u8 => Buttons::LB, 5u8 => Buttons::RB, 6u8 => Buttons::START, 7u8 => Buttons::SELECT,
        ],
        m.axes_map() == map![
            1u8 => Axes::LY, 0u8 => Axes::LX, 2u8 => Axes::LT, 3u8 => Axes::RX,
            4u8 => Axes::RY, 5u8 => Axes::RT, 6u8 => Axes::Horiz, 7u8 => Axes::Vert,
        ],
{
    let mut buttons: HashMap<u8, Buttons> = HashMap::new();
    buttons.insert(0, Buttons::A);
    buttons.insert(1, Buttons::B);
    buttons.insert(2, Buttons::X);
    buttons.insert(3, Buttons::Y);
    buttons.insert(4, Buttons::LB);
    buttons.insert(5, Buttons::RB);
    buttons.insert(6, Buttons::START);
    buttons.insert(7, Buttons::SELECT);
    let mut axes: HashMap<u8, Axes> = HashMap::new();
    axes.insert(1, Axes::LY);
    axes.insert(0, Axes::LX);
    axes.insert(2, Axes::LT);
    axes.insert(3, Axes::RX);
    axes.insert(4, Axes::RY);
    axes.insert(5, Axes::RT);
    axes.insert(6, Axes::Horiz);
    axes.insert(7, Axes::Vert);
    let m = Mapping { axes, buttons };
    proof {
        assert(m.buttons_map() =~= map![
            0u8 => Buttons::A, 1u8 => Buttons::B, 2u8 => Buttons::X, 3u8 => Buttons::Y,
            4u8 => Buttons::LB, 5u8 => Buttons::RB, 6u8 => Buttons::START, 7u8 => Buttons::SELECT,
        ]);
        assert(m.axes_map() =~= map![
            1u8 => Axes::LY, 0u8 => Axes::LX, 2u8 => Axes::LT, 3u8 => Axes::RX,
            4u8 => Axes::RY, 5u8 => Axes::RT, 6u8 => Axes::Horiz, 7u8 => Axes::Vert,
        ]);
    }
    m
}

/// Mathematical state of a [`GamepadState`]: eight buttons, eight raw axes.
pub struct GamepadModel {
    /// Whether each button is currently held.
    pub buttons: Seq<bool>,
    /// The raw value each axis last reported.
    pub axes: Seq<i16>,
}

/// A state snapshot holds exactly eight buttons and eight axes.
pub open spec fn gamepad_wf(m: GamepadModel) -> bool {
    m.buttons.len() == 8 && m.axes.len() == 8
}

/// Snapshot of every button and axis of the gamepad.
#[derive(Debug, Clone)]
pub struct GamepadState {
    buttons: Vec<bool>,
    axes: Vec<i16>,
}

impl View for GamepadState {
    type V = GamepadModel;

    closed spec fn view(&self) -> GamepadModel {
        GamepadModel { buttons: self.buttons@, axes: self.axes@ }
    }
}

impl GamepadState {
    /// The state before any event arrived, as a mathematical value: no button
    /// held, sticks centred, and both analog triggers at their released
    /// (minimum) position.
    pub open spec fn initial_model() -> GamepadModel {
        GamepadModel {
            buttons: seq![false, false, false, false, false, false, false, false],
            axes: seq![0i16, 0i16, JOY_AXIS_MIN_VALUE, 0i16, 0i16, JOY_AXIS_MIN_VALUE, 0i16, 0i16],
        }
    }

    /// The state before any event arrived.
    pub fn initial() -> (s: GamepadState)
        ensures
            s@ == GamepadState::initial_model(),
            gamepad_wf(s@),
    {
        let mut buttons: Vec<bool> = Vec::new();
        let mut k: usize = 0;
        while k < 8
            invariant
                k <= 8,
                buttons@ =~= Seq::new(k as nat, |i: int| false),
            decreases 8 - k,
        {
            buttons.push(false);
            k = k + 1;
        }
        let mut axes: Vec<i16> = Vec::new();
        axes.push(0);
        axes.push(0);
        axes.push(JOY_AXIS_MIN_VALUE);
        axes.push(0);
        axes.push(0);
        axes.push(JOY_AXIS_MIN_VALUE);
        axes.push(0);
        axes.push(0);
        let s = GamepadState { buttons, axes };
        proof {
            assert(s@.buttons =~= seq![false, false, false, false, false, false, false, false]);
            assert(s@.axes =~= seq![
                0i16, 0i16, JOY_AXIS_MIN_VALUE, 0i16, 0i16, JOY_AXIS_MIN_VALUE, 0i16, 0i16,
            ]);
        }
        s
    }

    /// A button click is a release edge: held in the previous snapshot and no
    /// longer held in this one.
    pub fn button_clicked(&self, button: Buttons, last_state: &GamepadState) -> (r: bool)
        requires
            gamepad_wf(self@),
            gamepad_wf(last_state@),
        ensures
            r == (last_state@.buttons[button.index_spec()] && !self@.buttons[
                button.index_spec()
            ]),
    {
        let b_idx = button.index();
        let current_state = self.buttons[b_idx];
        let last = last_state.buttons[b_idx];
        last && !current_state
    }

    /// Whether the A button is held.
    pub fn a(&self) -> (r: bool)
        requires
            gamepad_wf(self@),
        ensures
            r == self@.buttons[Buttons::A.index_spec()],
    {
        self.buttons[0]
    }

    /// Whether the B button is held.
    pub fn b(&self) -> (r: bool)
        requires
            gamepad_wf(self@),
        ensures
            r == self@.buttons[Buttons::B.index_spec()],
    {
        self.buttons[1]
    }

    /// Whether the X button is held.
    pub fn x(&self) -> (r: bool)
        requires
            gamepad_wf(self@),
        ensures
            r == self@.buttons[Buttons::X.index_spec()],
    {
        self.buttons[2]
    }

    /// Whether the Y button is held.
    pub fn y(&self) -> (r: bool)
        requires
            gamepad_wf(self@),
        ensures
            r == self@.buttons[Buttons::Y.index_spec()],
    {
        self.buttons[3]
    }

    /// Whether the right bumper is held.
    pub fn rb(&self) -> (r: bool)
        requires
            gamepad_wf(self@),
        ensures
            r == self@.buttons[Buttons::RB.index_spec()],
    {
        self.buttons[5]
    }

    /// Whether the left bumper is held.
    pub fn lb(&self) -> (r: bool)
        requires
            gamepad_wf(self@),
        ensures
            r == self@.buttons[Buttons::LB.index_spec()],
    {
        self.buttons[4]
    }

    /// Whether the start button is held.
    pub fn start(&self) -> (r: bool)
        requires
            gamepad_wf(self@),
        ensures
            r == self@.buttons[Buttons::START.index_spec()],
    {
        self.buttons[7]
    }

    /// Whether the select button is held.
    pub fn select(&self) -> (r: bool)
        requires
            gamepad_wf(self@),
        ensures
            r == self@.buttons[Buttons::SELECT.index_spec()],
    {
        self.buttons[6]
    }

    /// The raw value an axis last reported.
    pub fn axis(&self, axis: Axes) -> (r: i16)
        requires
            gamepad_wf(self@),
        ensures
            r == self@.axes[axis.index_spec()],
    {
        self.axes[axis.index()]
    }
}

/// The kind of an event record of the joystick device interface.
#[derive(Debug, Clone, PartialEq, Eq)]
pub enum EventType {
    /// A button was pressed or released.
    JsEventButton,
    /// A joystick axis moved.
    JsEventAxis,
    /// Initial state report for a button.
    JsEventButtonInit,
    /// Initial state report for an axis.
    JsEventAxesInit,
    /// Anything else.
    JsEventUknown,
}

/// One decoded joystick event.
#[derive(Debug, Clone)]
pub struct JsEvent {
    /// Event timestamp in milliseconds.
    pub time: u32,
    /// Button state or axis position.
    pub value: i16,
    /// What kind of event this record carries.
    pub kind: EventType,
    /// The device's button or axis number.
    pub number: u8,
}

/// The timestamp carried in the first four bytes of an event record,
/// little-endian.
pub open spec fn le_time(b: Seq<u8>) -> int {
    b[0] + 0x100 * b[1] + 0x1_0000 * b[2] + 0x100_0000 * b[3]
}

/// The signed value carried in bytes four and five of an event record,
/// little-endian two's complement.
pub open spec fn le_value(b: Seq<u8>) -> int {
    let unsigned = b[4] + 0x100 * b[5];
    if unsigned >= 0x8000 {
        unsigned - 0x1_0000
    } else {
        unsigned
    }
}

/// The event kind encoded in byte six of an event record.
pub open spec fn kind_of(tag: u8) -> EventType {
    if tag == 1 {
        EventType::JsEventButton
    } else if tag == 2 {
        EventType::JsEventAxis
    } else if tag == 0x81 {
        EventType::JsEventButtonInit
    } else if tag == 0x82 {
        EventType::JsEventAxesInit
    } else {
        EventType::JsEventUknown
    }
}

/// Decodes one 8-byte record of the joystick device interface: a
/// little-endian timestamp, a little-endian signed value, an event tag, and
/// the button or axis number.
pub fn parse_js_event(bytes: &Vec<u8>) -> (r: JsEvent)
    requires
        bytes@.len() == 8,
    ensures
        r.time == le_time(bytes@),
        r.value == le_value(bytes@),
        r.kind == kind_of(bytes@[6]),
        r.number == bytes@[7],
{
    let time: u32 = bytes[0] as u32 + 0x100 * (bytes[1] as u32) + 0x1_0000 * (bytes[2] as u32)
        + 0x100_0000 * (bytes[3] as u32);
    let unsigned: u32 = bytes[4] as u32 + 0x100 * (bytes[5] as u32);
    let value: i16 = if unsigned >= 0x8000 {
        (unsigned as i32 - 0x1_0000) as i16
    } else {
        unsigned as i16
    };
    let kind = match bytes[6] {
        1 => EventType::JsEventButton,
        2 => EventType::JsEventAxis,
        0x81 => EventType::JsEventButtonInit,
        0x82 => EventType::JsEventAxesInit,
        _ => EventType::JsEventUknown,
    };
    JsEvent { time, value, kind, number: bytes[7] }
}

/// Mathematical state of a [`GamepadStateUpdater`].
pub struct UpdaterModel {
    /// The folded state snapshot.
    pub state: GamepadModel,
    /// Which control each device button number drives.
    pub buttons_map: Map<u8, Buttons>,
    /// Which control each device axis number drives.
    pub axes_map: Map<u8, Axes>,
}

/// Folds decoded joystick events into a state snapshot, routing device
/// numbers through a mapping.
pub struct GamepadStateUpdater {
    state: GamepadState,
    mapping: Mapping,
}

impl View for GamepadStateUpdater {
    type V = UpdaterModel;

    closed spec fn view(&self) -> UpdaterModel {
        UpdaterModel {
            state: self.state@,
            buttons_map: self.mapping.buttons_map(),
            axes_map: self.mapping.axes_map(),
        }
    }
}

/// How one event changes a state snapshot: a button event flips the mapped
/// button to "held" exactly when its value is `1`, an axis event stores the
/// raw value in the mapped axis, and every other event (unmapped numbers and
/// init or unknown records) leaves the state untouched.
pub open spec fn updated_state(m: UpdaterModel, evt: JsEvent) -> GamepadModel {
    match evt.kind {
        EventType::JsEventButton => if m.buttons_map.contains_key(evt.number) {
            GamepadModel {
                buttons: m.state.buttons.update(
                    m.buttons_map[evt.number].index_spec(),
                    evt.value == 1,
                ),
                axes: m.state.axes,
            }
        } else {
            m.state
        },
        EventType::JsEventAxis => if m.axes_map.contains_key(evt.number) {
            GamepadModel {
                buttons: m.state.buttons,
                axes: m.state.axes.update(m.axes_map[evt.number].index_spec(), evt.value),
            }
        } else {
            m.state
        },
        _ => m.state,
    }
}

impl GamepadStateUpdater {
    /// An updater starting from the initial snapshot.
    pub fn new(mapping: Mapping) -> (u: GamepadStateUpdater)
        ensures
            u@.state == GamepadState::initial_model(),
            u@.buttons_map == mapping.buttons_map(),
            u@.axes_map == mapping.axes_map(),
    {
        GamepadStateUpdater { state: GamepadState::initial(), mapping }
    }

    /// Folds one event into the snapshot.
    pub fn update(&mut self, evt: &JsEvent)
        requires
            gamepad_wf(old(self)@.state),
        ensures
            gamepad_wf(final(self)@.state),
            final(self)@.state == updated_state(old(self)@, *evt),
            final(self)@.buttons_map == old(self)@.buttons_map,
            final(self)@.axes_map == old(self)@.axes_map,
    {
        match evt.kind {
            EventType::JsEventButton => {
                match self.mapping.buttons.get(&evt.number) {
                    Some(button) => {
                        let idx = button.index();
                        self.state.buttons.set(idx, evt.value == 1);
                    }
                    None => {}
                }
            }
            EventType::JsEventAxis => {
                match self.mapping.axes.get(&evt.number) {
                    Some(axis) => {
                        let idx = axis.index();
                        self.state.axes.set(idx, evt.value);
                    }
                    None => {}
                }
            }
            EventType::JsEventButtonInit => {}
            EventType::JsEventAxesInit => {}
            EventType::JsEventUknown => {}
        }
    }

    /// A copy of the current snapshot.
    pub fn get(&self) -> (s: GamepadState)
        requires
            gamepad_wf(self@.state),
        ensures
            s@ == self@.state,
            gamepad_wf(s@),
    {
        let mut buttons: Vec<bool> = Vec::new();
        let mut i: usize = 0;
        while i < self.state.buttons.len()
            invariant
                i <= self.state.buttons@.len(),
                buttons@ =~= self.state.buttons@.subrange(0, i as int),
            decreases self.state.buttons@.len() - i,
        {
            buttons.push(self.state.buttons[i]);
            i = i + 1;
        }
        let mut axes: Vec<i16> = Vec::new();
        let mut j: usize = 0;
        while j < self.state.axes.len()
            invariant
                j <= self.state.axes@.len(),
                axes@ =~= self.state.axes@.subrange(0, j as int),
            decreases self.state.axes@.len() - j,
        {
            axes.push(self.state.axes[j]);
            j = j + 1;
        }
        let s = GamepadState { buttons, axes };
        proof {
            assert(s@.buttons =~= self@.state.buttons);
            assert(s@.axes =~= self@.state.axes);
        }
        s
    }
}

} // verus!
