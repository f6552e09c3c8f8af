//! The emulation consumer's session state.
//!
//! The consumer owns one emulation session for its lifetime and feeds
//! it full-state updates. This module holds the session's intended
//! state — the driver-facing button bitmask, triggers and axes — and
//! the one step the consumer performs per delivery: decode the
//! payload and, on success, rebuild the whole state from the snapshot.
//! The actual driver call is issued by the application with the state
//! computed here.

use vstd::prelude::*;
use crate::state::Buttons;
use crate::wire::WireSnapshot;
use crate::wire::spec_decode;
use crate::wire::decode_snapshot;

verus! {

/// Driver bitmask bits, one per recognized button.
pub const XBTN_DPAD_UP: u16 = 0x0001;

pub const XBTN_DPAD_DOWN: u16 = 0x0002;

pub const XBTN_DPAD_LEFT: u16 = 0x0004;

pub const XBTN_DPAD_RIGHT: u16 = 0x0008;

pub const XBTN_START: u16 = 0x0010;

pub const XBTN_BACK: u16 = 0x0020;

pub const XBTN_LB: u16 = 0x0100;

pub const XBTN_RB: u16 = 0x0200;

pub const XBTN_A: u16 = 0x1000;

pub const XBTN_B: u16 = 0x2000;

pub const XBTN_X: u16 = 0x4000;

pub const XBTN_Y: u16 = 0x8000;

/// The driver bitmask that a button set maps to. The emulation layer
/// recognizes twelve names; `select` and `home` have no bit and are
/// dropped here.
pub open spec fn mask_of(b: Buttons) -> u16 {
    (if b.a {
        XBTN_A
    } else {
        0
    }) | (if b.b {
        XBTN_B
    } else {
        0
    }) | (if b.x {
        XBTN_X
    } else {
        0
    }) | (if b.y {
        XBTN_Y
    } else {
        0
    }) | (if b.dpad_up {
        XBTN_DPAD_UP
    } else {
        0
    }) | (if b.dpad_down {
        XBTN_DPAD_DOWN
    } else {
        0
    }) | (if b.dpad_left {
        XBTN_DPAD_LEFT
    } else {
        0
    }) | (if b.dpad_right {
        XBTN_DPAD_RIGHT
    } else {
        0
    }) | (if b.lb {
        XBTN_LB
    } else {
        0
    }) | (if b.rb {
        XBTN_RB
    } else {
        0
    }) | (if b.start {
        XBTN_START
    } else {
        0
    }) | (if b.back {
        XBTN_BACK
    } else {
        0
    })
}

/// The session state the driver is fed.
#[derive(Clone, Copy, PartialEq, Eq, Structural, Debug)]
pub struct PadState {
    pub buttons_raw: u16,
    pub left_trigger: u8,
    pub right_trigger: u8,
    pub thumb_lx: i16,
    pub thumb_ly: i16,
    pub thumb_rx: i16,
    pub thumb_ry: i16,
}

/// Applying a snapshot replaces the whole session state: the button
/// mask is rebuilt from scratch and every numeric field overwritten,
/// whatever was there before.
pub open spec fn spec_apply_to(p: PadState, s: WireSnapshot) -> PadState {
    PadState {
        buttons_raw: mask_of(s.buttons),
        left_trigger: s.left_trigger,
        right_trigger: s.right_trigger,
        thumb_lx: s.thumb_lx,
        thumb_ly: s.thumb_ly,
        thumb_rx: s.thumb_rx,
        thumb_ry: s.thumb_ry,
    }
}

/// Full replace, so idempotent: the same snapshot applied twice, or
/// to two sessions in any states, leaves identical session state.
pub proof fn lemma_apply_idempotent(p1: PadState, p2: PadState, s: WireSnapshot)
    ensures
        spec_apply_to(spec_apply_to(p1, s), s) == spec_apply_to(p1, s),
        spec_apply_to(p1, s) == spec_apply_to(p2, s),
{
}

/// Accumulate one conditional bit.
fn or_if(m: u16, active: bool, bit: u16) -> (r: u16)
    ensures
        r == (m | (if active {
            bit
        } else {
            0
        })),
{
    m | (if active {
        bit
    } else {
        0
    })
}

/// Compute the driver bitmask of a button set.
#[verifier::rlimit(100)]
pub fn mask_exec(b: &Buttons) -> (m: u16)
    ensures
        m == mask_of(*b),
{
    let m = if b.a {
        XBTN_A
    } else {
        0
    };
    let m = or_if(m, b.b, XBTN_B);
    let m = or_if(m, b.x, XBTN_X);
    let m = or_if(m, b.y, XBTN_Y);
    let m = or_if(m, b.dpad_up, XBTN_DPAD_UP);
    let m = or_if(m, b.dpad_down, XBTN_DPAD_DOWN);
    let m = or_if(m, b.dpad_left, XBTN_DPAD_LEFT);
    let m = or_if(m, b.dpad_right, XBTN_DPAD_RIGHT);
    let m = or_if(m, b.lb, XBTN_LB);
    let m = or_if(m, b.rb, XBTN_RB);
    let m = or_if(m, b.start, XBTN_START);
    let m = or_if(m, b.back, XBTN_BACK);
    m
}

impl PadState {
    /// The state a fresh session starts in: the d-pad-up flag raised
    /// as a visible liveness sign, everything else neutral. The first
    /// applied snapshot replaces it entirely.
    pub open spec fn initial() -> PadState {
        PadState {
            buttons_raw: XBTN_DPAD_UP,
            left_trigger: 0,
            right_trigger: 0,
            thumb_lx: 0,
            thumb_ly: 0,
            thumb_rx: 0,
            thumb_ry: 0,
        }
    }

    /// A fresh session state.
    pub fn new() -> (r: PadState)
        ensures
            r == PadState::initial(),
    {
        PadState {
            buttons_raw: XBTN_DPAD_UP,
            left_trigger: 0,
            right_trigger: 0,
            thumb_lx: 0,
            thumb_ly: 0,
            thumb_rx: 0,
            thumb_ry: 0,
        }
    }

    /// The manual test poke: press the A and X buttons together,
    /// leaving triggers and axes as they are.
    pub fn press_button_a(&mut self)
        ensures
            final(self).buttons_raw == XBTN_A | XBTN_X,
            final(self).left_trigger == old(self).left_trigger,
            final(self).right_trigger == old(self).right_trigger,
            final(self).thumb_lx == old(self).thumb_lx,
            final(self).thumb_ly == old(self).thumb_ly,
            final(self).thumb_rx == old(self).thumb_rx,
            final(self).thumb_ry == old(self).thumb_ry,
    {
        self.buttons_raw = XBTN_A | XBTN_X;
    }

    /// Replace the whole session state with what the snapshot says.
    pub fn apply_snapshot(&mut self, s: &WireSnapshot)
        ensures
            *final(self) == spec_apply_to(*old(self), *s),
    {
        self.buttons_raw = mask_exec(&s.buttons);
        self.left_trigger = s.left_trigger;
        self.right_trigger = s.right_trigger;
        self.thumb_lx = s.thumb_lx;
        self.thumb_ly = s.thumb_ly;
        self.thumb_rx = s.thumb_rx;
        self.thumb_ry = s.thumb_ry;
    }

    /// One consumer step: decode the payload and apply it. A payload
    /// that is not a wire snapshot is discarded and the session state
    /// is unchanged; the caller issues a driver update only on `true`.
    pub fn apply_payload(&mut self, data: &[u8]) -> (ok: bool)
        ensures
            (match spec_decode(data@) {
                Some(sn) => ok && *final(self) == spec_apply_to(*old(self), sn),
                None => !ok && *final(self) == *old(self),
            }),
    {
        match decode_snapshot(data) {
            Some(sn) => {
                self.apply_snapshot(&sn);
                true
            },
            None => false,
        }
    }
}

} // verus!
