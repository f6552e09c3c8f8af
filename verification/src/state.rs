//! Canonical in-memory controller state and its mutators.
//!
//! One `GamepadState` lives for a whole producer session. It is never
//! reset wholesale: the three mutators change exactly the field that a
//! recognized identifier names, and leave the state untouched for any
//! unrecognized identifier. Identifiers are compared by their byte
//! content, so every contract below speaks of `Seq<u8>` names.

use vstd::prelude::*;
use vstd::string::StringSliceAdditionalSpecFns;

verus! {

/// One analog stick: two signed axes. Local storage is wider than the
/// 16-bit wire format; the encoder clamps on serialization.
#[derive(Clone, Copy, PartialEq, Eq, Structural, Debug)]
pub struct Stick {
    pub x: i32,
    pub y: i32,
}

/// The fixed set of named boolean button flags.
#[derive(Clone, Copy, PartialEq, Eq, Structural, Debug)]
pub struct Buttons {
    pub a: bool,
    pub b: bool,
    pub x: bool,
    pub y: bool,
    pub lb: bool,
    pub rb: bool,
    pub select: bool,
    pub start: bool,
    pub back: bool,
    pub home: bool,
    pub dpad_up: bool,
    pub dpad_down: bool,
    pub dpad_left: bool,
    pub dpad_right: bool,
}

/// The two analog triggers, each 0..=255.
#[derive(Clone, Copy, PartialEq, Eq, Structural, Debug)]
pub struct Triggers {
    pub lt: u8,
    pub rt: u8,
}

/// Aggregate of two sticks, one button set and one trigger pair.
#[derive(Clone, Copy, PartialEq, Eq, Structural, Debug)]
pub struct GamepadState {
    pub left_stick: Stick,
    pub right_stick: Stick,
    pub buttons: Buttons,
    pub triggers: Triggers,
}

impl Default for Stick {
    /// Both axes centered.
    fn default() -> (r: Self)
        ensures
            r == (Stick { x: 0, y: 0 }),
    {
        Stick { x: 0, y: 0 }
    }
}

impl Default for Buttons {
    /// Every flag released.
    fn default() -> (r: Self)
        ensures
            r == Buttons::released(),
    {
        Buttons {
            a: false,
            b: false,
            x: false,
            y: false,
            lb: false,
            rb: false,
            select: false,
            start: false,
            back: false,
            home: false,
            dpad_up: false,
            dpad_down: false,
            dpad_left: false,
            dpad_right: false,
        }
    }
}

impl Default for Triggers {
    /// Both triggers fully released.
    fn default() -> (r: Self)
        ensures
            r == (Triggers { lt: 0, rt: 0 }),
    {
        Triggers { lt: 0, rt: 0 }
    }
}

impl Default for GamepadState {
    /// The all-neutral state a producer session starts from.
    fn default() -> (r: Self)
        ensures
            r == GamepadState::neutral(),
    {
        GamepadState {
            left_stick: Stick::default(),
            right_stick: Stick::default(),
            buttons: Buttons::default(),
            triggers: Triggers::default(),
        }
    }
}

impl Buttons {
    /// The button set with every flag false.
    pub open spec fn released() -> Buttons {
        Buttons {
            a: false,
            b: false,
            x: false,
            y: false,
            lb: false,
            rb: false,
            select: false,
            start: false,
            back: false,
            home: false,
            dpad_up: false,
            dpad_down: false,
            dpad_left: false,
            dpad_right: false,
        }
    }
}

/// Which button flag a name denotes: a small code, `14` for an
/// unrecognized name. The codes follow the field order of `Buttons`.
pub open spec fn button_code(name: Seq<u8>) -> int {
    if name == seq![('A' as u8)] {
        0
    } else if name == seq![('B' as u8)] {
        1
    } else if name == seq![('X' as u8)] {
        2
    } else if name == seq![('Y' as u8)] {
        3
    } else if name == seq![('L' as u8), ('B' as u8)] {
        4
    } else if name == seq![('R' as u8), ('B' as u8)] {
        5
    } else if name == seq![('S' as u8), ('E' as u8), ('L' as u8), ('E' as u8), ('C' as u8), ('T' as u8)] {
        6
    } else if name == seq![('S' as u8), ('T' as u8), ('A' as u8), ('R' as u8), ('T' as u8)] {
        7
    } else if name == seq![('B' as u8), ('A' as u8), ('C' as u8), ('K' as u8)] {
        8
    } else if name == seq![('H' as u8), ('O' as u8), ('M' as u8), ('E' as u8)] {
        9
    } else if name == seq![('U' as u8), ('P' as u8)] {
        10
    } else if name == seq![('D' as u8), ('O' as u8), ('W' as u8), ('N' as u8)] {
        11
    } else if name == seq![('L' as u8), ('E' as u8), ('F' as u8), ('T' as u8)] {
        12
    } else if name == seq![('R' as u8), ('I' as u8), ('G' as u8), ('H' as u8), ('T' as u8)] {
        13
    } else {
        14
    }
}

/// What one button mutation does: set the flag that `name` denotes to
/// `status`; an unrecognized name changes nothing.
pub open spec fn spec_update_button(b: Buttons, name: Seq<u8>, status: bool) -> Buttons {
    spec_set_flag(b, button_code(name), status)
}

/// Set the flag with the given code; code `14` (unrecognized) changes
/// nothing.
pub open spec fn spec_set_flag(b: Buttons, c: int, status: bool) -> Buttons {
    if c == 0 {
        Buttons { a: status, ..b }
    } else if c == 1 {
        Buttons { b: status, ..b }
    } else if c == 2 {
        Buttons { x: status, ..b }
    } else if c == 3 {
        Buttons { y: status, ..b }
    } else if c == 4 {
        Buttons { lb: status, ..b }
    } else if c == 5 {
        Buttons { rb: status, ..b }
    } else if c == 6 {
        Buttons { select: status, ..b }
    } else if c == 7 {
        Buttons { start: status, ..b }
    } else if c == 8 {
        Buttons { back: status, ..b }
    } else if c == 9 {
        Buttons { home: status, ..b }
    } else if c == 10 {
        Buttons { dpad_up: status, ..b }
    } else if c == 11 {
        Buttons { dpad_down: status, ..b }
    } else if c == 12 {
        Buttons { dpad_left: status, ..b }
    } else if c == 13 {
        Buttons { dpad_right: status, ..b }
    } else {
        b
    }
}

/// What one stick mutation does to the whole state. The sides are
/// named `left` and `right`; the legacy producer identifiers
/// `stickLeft` and `stickRight` are kept as aliases, so both layers
/// use one policy: these four names move a stick, all others are
/// ignored.
pub open spec fn spec_update_stick(st: GamepadState, name: Seq<u8>, x: i32, y: i32) -> GamepadState {
    if name == seq![('l' as u8), ('e' as u8), ('f' as u8), ('t' as u8)] {
        GamepadState { left_stick: Stick { x, y }, ..st }
    } else if name == seq![('r' as u8), ('i' as u8), ('g' as u8), ('h' as u8), ('t' as u8)] {
        GamepadState { right_stick: Stick { x, y }, ..st }
    } else if name == seq![('s' as u8), ('t' as u8), ('i' as u8), ('c' as u8), ('k' as u8), ('L' as u8), ('e' as u8), ('f' as u8), ('t' as u8)] {
        GamepadState { left_stick: Stick { x, y }, ..st }
    } else if name == seq![('s' as u8), ('t' as u8), ('i' as u8), ('c' as u8), ('k' as u8), ('R' as u8), ('i' as u8), ('g' as u8), ('h' as u8), ('t' as u8)] {
        GamepadState { right_stick: Stick { x, y }, ..st }
    } else {
        st
    }
}

/// What one trigger mutation does.
pub open spec fn spec_update_trigger(t: Triggers, name: Seq<u8>, value: u8) -> Triggers {
    if name == seq![('L' as u8), ('T' as u8)] {
        Triggers { lt: value, ..t }
    } else if name == seq![('R' as u8), ('T' as u8)] {
        Triggers { rt: value, ..t }
    } else {
        t
    }
}

impl GamepadState {
    /// The all-neutral state: sticks centered, buttons released,
    /// triggers at zero.
    pub open spec fn neutral() -> GamepadState {
        GamepadState {
            left_stick: Stick { x: 0, y: 0 },
            right_stick: Stick { x: 0, y: 0 },
            buttons: Buttons::released(),
            triggers: Triggers { lt: 0, rt: 0 },
        }
    }

    /// Set the flag named `btn` to `status`; unknown names are ignored
    /// without error. Sticks and triggers are never touched.
    pub fn update_button(&mut self, btn: &str, status: bool)
        ensures
            final(self).buttons == spec_update_button(old(self).buttons, btn.spec_bytes(), status),
            final(self).left_stick == old(self).left_stick,
            final(self).right_stick == old(self).right_stick,
            final(self).triggers == old(self).triggers,
    {
        let c = button_code_of(btn.as_bytes());
        self.buttons = set_flag(self.buttons, c, status);
    }

    /// Move the stick named `stick` to `(x, y)`; unknown names are
    /// ignored. Buttons and triggers are never touched.
    #[verifier::rlimit(100)]
    pub fn update_stick(&mut self, stick: &str, x: i32, y: i32)
        ensures
            *final(self) == spec_update_stick(*old(self), stick.spec_bytes(), x, y),
    {
        let s = stick.as_bytes();
        if eq4(s, ('l' as u8), ('e' as u8), ('f' as u8), ('t' as u8)) {
            self.left_stick.x = x;
            self.left_stick.y = y;
        } else if eq5(s, ('r' as u8), ('i' as u8), ('g' as u8), ('h' as u8), ('t' as u8)) {
            self.right_stick.x = x;
            self.right_stick.y = y;
        } else if eq9(s, ('s' as u8), ('t' as u8), ('i' as u8), ('c' as u8), ('k' as u8), ('L' as u8), ('e' as u8), ('f' as u8), ('t' as u8)) {
            self.left_stick.x = x;
            self.left_stick.y = y;
        } else if eq10(s, ('s' as u8), ('t' as u8), ('i' as u8), ('c' as u8), ('k' as u8), ('R' as u8), ('i' as u8), ('g' as u8), ('h' as u8), ('t' as u8)) {
            self.right_stick.x = x;
            self.right_stick.y = y;
        }
    }

        /// Set the trigger named `trigger` to `value`; unknown names are
    /// ignored. Buttons and sticks are never touched.
    pub fn update_trigger(&mut self, trigger: &str, value: u8)
        ensures
            final(self).triggers == spec_update_trigger(old(self).triggers, trigger.spec_bytes(), value),
            final(self).left_stick == old(self).left_stick,
            final(self).right_stick == old(self).right_stick,
            final(self).buttons == old(self).buttons,
    {
        let s = trigger.as_bytes();
        if eq2(s, ('L' as u8), ('T' as u8)) {
            self.triggers.lt = value;
        } else if eq2(s, ('R' as u8), ('T' as u8)) {
            self.triggers.rt = value;
        }
    }
}

/// Set the flag with code `c` to `status`; any other code leaves the
/// set unchanged.
#[verifier::rlimit(100)]
pub(crate) fn set_flag(b: Buttons, c: usize, status: bool) -> (r: Buttons)
    ensures
        r == spec_set_flag(b, c as int, status),
{
    let mut r = b;
    if c == 0 {
        r.a = status;
    } else if c == 1 {
        r.b = status;
    } else if c == 2 {
        r.x = status;
    } else if c == 3 {
        r.y = status;
    } else if c == 4 {
        r.lb = status;
    } else if c == 5 {
        r.rb = status;
    } else if c == 6 {
        r.select = status;
    } else if c == 7 {
        r.start = status;
    } else if c == 8 {
        r.back = status;
    } else if c == 9 {
        r.home = status;
    } else if c == 10 {
        r.dpad_up = status;
    } else if c == 11 {
        r.dpad_down = status;
    } else if c == 12 {
        r.dpad_left = status;
    } else if c == 13 {
        r.dpad_right = status;
    }
    r
}

/// Compute the button code of a name given as bytes.
#[verifier::rlimit(100)]
pub(crate) fn button_code_of(s: &[u8]) -> (c: usize)
    ensures
        c == button_code(s@),
{
    if eq1(s, ('A' as u8)) {
        0
    } else if eq1(s, ('B' as u8)) {
        1
    } else if eq1(s, ('X' as u8)) {
        2
    } else if eq1(s, ('Y' as u8)) {
        3
    } else if eq2(s, ('L' as u8), ('B' as u8)) {
        4
    } else if eq2(s, ('R' as u8), ('B' as u8)) {
        5
    } else if eq6(s, ('S' as u8), ('E' as u8), ('L' as u8), ('E' as u8), ('C' as u8), ('T' as u8)) {
        6
    } else if eq5(s, ('S' as u8), ('T' as u8), ('A' as u8), ('R' as u8), ('T' as u8)) {
        7
    } else if eq4(s, ('B' as u8), ('A' as u8), ('C' as u8), ('K' as u8)) {
        8
    } else if eq4(s, ('H' as u8), ('O' as u8), ('M' as u8), ('E' as u8)) {
        9
    } else if eq2(s, ('U' as u8), ('P' as u8)) {
        10
    } else if eq4(s, ('D' as u8), ('O' as u8), ('W' as u8), ('N' as u8)) {
        11
    } else if eq4(s, ('L' as u8), ('E' as u8), ('F' as u8), ('T' as u8)) {
        12
    } else if eq5(s, ('R' as u8), ('I' as u8), ('G' as u8), ('H' as u8), ('T' as u8)) {
        13
    } else {
        14
    }
}

fn eq1(s: &[u8], c0: u8) -> (r: bool)
    ensures
        r == (s@ == seq![c0]),
{
    let r = s.len() == 1 && s[0] == c0;
    proof {
        if r {
            assert(s@ =~= seq![c0]);
        }
    }
    r
}

fn eq2(s: &[u8], c0: u8, c1: u8) -> (r: bool)
    ensures
        r == (s@ == seq![c0, c1]),
{
    let r = s.len() == 2 && s[0] == c0 && s[1] == c1;
    proof {
        if r {
            assert(s@ =~= seq![c0, c1]);
        }
    }
    r
}

fn eq4(s: &[u8], c0: u8, c1: u8, c2: u8, c3: u8) -> (r: bool)
    ensures
        r == (s@ == seq![c0, c1, c2, c3]),
{
    let r = s.len() == 4 && s[0] == c0 && s[1] == c1 && s[2] == c2 && s[3] == c3;
    proof {
        if r {
            assert(s@ =~= seq![c0, c1, c2, c3]);
        }
    }
    r
}

fn eq5(s: &[u8], c0: u8, c1: u8, c2: u8, c3: u8, c4: u8) -> (r: bool)
    ensures
        r == (s@ == seq![c0, c1, c2, c3, c4]),
{
    let r = s.len() == 5 && s[0] == c0 && s[1] == c1 && s[2] == c2 && s[3] == c3 && s[4] == c4;
    proof {
        if r {
            assert(s@ =~= seq![c0, c1, c2, c3, c4]);
        }
    }
    r
}

fn eq6(s: &[u8], c0: u8, c1: u8, c2: u8, c3: u8, c4: u8, c5: u8) -> (r: bool)
    ensures
        r == (s@ == seq![c0, c1, c2, c3, c4, c5]),
{
    let r = s.len() == 6 && s[0] == c0 && s[1] == c1 && s[2] == c2 && s[3] == c3 && s[4] == c4
        && s[5] == c5;
    proof {
        if r {
            assert(s@ =~= seq![c0, c1, c2, c3, c4, c5]);
        }
    }
    r
}

fn eq9(s: &[u8], c0: u8, c1: u8, c2: u8, c3: u8, c4: u8, c5: u8, c6: u8, c7: u8, c8: u8) -> (r:
    bool)
    ensures
        r == (s@ == seq![c0, c1, c2, c3, c4, c5, c6, c7, c8]),
{
    let r = s.len() == 9 && s[0] == c0 && s[1] == c1 && s[2] == c2 && s[3] == c3 && s[4] == c4
        && s[5] == c5 && s[6] == c6 && s[7] == c7 && s[8] == c8;
    proof {
        if r {
            assert(s@ =~= seq![c0, c1, c2, c3, c4, c5, c6, c7, c8]);
        }
    }
    r
}

fn eq10(
    s: &[u8],
    c0: u8,
    c1: u8,
    c2: u8,
    c3: u8,
    c4: u8,
    c5: u8,
    c6: u8,
    c7: u8,
    c8: u8,
    c9: u8,
) -> (r: bool)
    ensures
        r == (s@ == seq![c0, c1, c2, c3, c4, c5, c6, c7, c8, c9]),
{
    let r = s.len() == 10 && s[0] == c0 && s[1] == c1 && s[2] == c2 && s[3] == c3 && s[4] == c4
        && s[5] == c5 && s[6] == c6 && s[7] == c7 && s[8] == c8 && s[9] == c9;
    proof {
        if r {
            assert(s@ =~= seq![c0, c1, c2, c3, c4, c5, c6, c7, c8, c9]);
        }
    }
    r
}


/// One entry of a button mutation history: the name used and the
/// status it set.
pub struct ButtonMutation {
    pub name: Seq<u8>,
    pub status: bool,
}

/// A whole mutation history applied in order.
pub open spec fn apply_button_seq(b: Buttons, ms: Seq<ButtonMutation>) -> Buttons
    decreases ms.len(),
{
    if ms.len() == 0 {
        b
    } else {
        spec_update_button(apply_button_seq(b, ms.drop_last()), ms.last().name, ms.last().status)
    }
}

/// The status set by the last mutation whose name has code `c`, or
/// `dflt` if no mutation named that flag.
pub open spec fn last_status(ms: Seq<ButtonMutation>, c: int, dflt: bool) -> bool
    decreases ms.len(),
{
    if ms.len() == 0 {
        dflt
    } else if button_code(ms.last().name) == c {
        ms.last().status
    } else {
        last_status(ms.drop_last(), c, dflt)
    }
}

/// For any sequence of button mutations, each flag ends up exactly as
/// the last mutation naming it said, or keeps its starting value if
/// none named it; mutations with unrecognized names alter nothing.
#[verifier::rlimit(100)]
pub proof fn lemma_button_history(b: Buttons, ms: Seq<ButtonMutation>)
    ensures
        apply_button_seq(b, ms).a == last_status(ms, 0, b.a),
        apply_button_seq(b, ms).b == last_status(ms, 1, b.b),
        apply_button_seq(b, ms).x == last_status(ms, 2, b.x),
        apply_button_seq(b, ms).y == last_status(ms, 3, b.y),
        apply_button_seq(b, ms).lb == last_status(ms, 4, b.lb),
        apply_button_seq(b, ms).rb == last_status(ms, 5, b.rb),
        apply_button_seq(b, ms).select == last_status(ms, 6, b.select),
        apply_button_seq(b, ms).start == last_status(ms, 7, b.start),
        apply_button_seq(b, ms).back == last_status(ms, 8, b.back),
        apply_button_seq(b, ms).home == last_status(ms, 9, b.home),
        apply_button_seq(b, ms).dpad_up == last_status(ms, 10, b.dpad_up),
        apply_button_seq(b, ms).dpad_down == last_status(ms, 11, b.dpad_down),
        apply_button_seq(b, ms).dpad_left == last_status(ms, 12, b.dpad_left),
        apply_button_seq(b, ms).dpad_right == last_status(ms, 13, b.dpad_right),
    decreases ms.len(),
{
    if ms.len() > 0 {
        lemma_button_history(b, ms.drop_last());
    }
}

} // verus!
