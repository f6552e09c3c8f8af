//! The wire snapshot and its text codec.
//!
//! A wire snapshot is the full-replace transmitted form of one
//! controller state: the complete set of pressed buttons plus all four
//! axis values and both triggers. It travels as one compact JSON
//! object with a fixed key order:
//!
//! `{"buttons":[..],"left_trigger":N,"right_trigger":N,"thumb_lx":N,`
//! `"thumb_ly":N,"thumb_rx":N,"thumb_ry":N}`
//!
//! The encoder emits exactly that shape; the decoder accepts exactly
//! that shape (any button name is allowed inside the list, and an
//! unrecognized one is ignored). Axis values are 16-bit on the wire;
//! the encoder clamps the wider local values into range.

use vstd::prelude::*;
use vstd::string::StringSliceAdditionalSpecFns;
use crate::state::Buttons;
use crate::state::GamepadState;
use crate::state::spec_update_button;

verus! {

/// The decoded form of one transmitted snapshot.
#[derive(Clone, Copy, PartialEq, Eq, Structural, Debug)]
pub struct WireSnapshot {
    pub buttons: Buttons,
    pub left_trigger: u8,
    pub right_trigger: u8,
    pub thumb_lx: i16,
    pub thumb_ly: i16,
    pub thumb_rx: i16,
    pub thumb_ry: i16,
}

/// Clamp a wide local axis value into the signed 16-bit wire range.
pub open spec fn clamp_axis(v: int) -> int {
    if v < -32768 {
        -32768
    } else if v > 32767 {
        32767
    } else {
        v
    }
}

/// The snapshot that a given controller state serializes to.
pub open spec fn snapshot_of(st: GamepadState) -> WireSnapshot {
    WireSnapshot {
        buttons: st.buttons,
        left_trigger: st.triggers.lt,
        right_trigger: st.triggers.rt,
        thumb_lx: clamp_axis(st.left_stick.x as int) as i16,
        thumb_ly: clamp_axis(st.left_stick.y as int) as i16,
        thumb_rx: clamp_axis(st.right_stick.x as int) as i16,
        thumb_ry: clamp_axis(st.right_stick.y as int) as i16,
    }
}

/// Decimal digits of `n`, most significant first.
pub open spec fn dec_digits(n: nat) -> Seq<u8>
    decreases n,
{
    if n < 10 {
        seq![(48 + n) as u8]
    } else {
        dec_digits(n / 10).push((48 + n % 10) as u8)
    }
}

/// Decimal bytes of a signed value: a minus sign for negatives.
pub open spec fn int_bytes(v: int) -> Seq<u8> {
    if v < 0 {
        seq![45u8] + dec_digits((-v) as nat)
    } else {
        dec_digits(v as nat)
    }
}

/// A name wrapped in double quotes.
pub open spec fn quoted(name: Seq<u8>) -> Seq<u8> {
    seq![34u8] + name + seq![34u8]
}

/// The comma-separated, quoted button-name list body.
pub open spec fn join_names(ns: Seq<Seq<u8>>) -> Seq<u8>
    decreases ns.len(),
{
    if ns.len() == 0 {
        seq![]
    } else if ns.len() == 1 {
        quoted(ns[0])
    } else {
        quoted(ns[0]) + seq![44u8] + join_names(ns.drop_first())
    }
}

/// The name bytes of `LB`.
pub open spec fn nm_lb() -> Seq<u8> {
    seq![76u8, 66u8]
}

/// The name bytes of `RB`.
pub open spec fn nm_rb() -> Seq<u8> {
    seq![82u8, 66u8]
}

/// The name bytes of `UP`.
pub open spec fn nm_dpad_up() -> Seq<u8> {
    seq![85u8, 80u8]
}

/// The name bytes of `DOWN`.
pub open spec fn nm_dpad_down() -> Seq<u8> {
    seq![68u8, 79u8, 87u8, 78u8]
}

/// The name bytes of `LEFT`.
pub open spec fn nm_dpad_left() -> Seq<u8> {
    seq![76u8, 69u8, 70u8, 84u8]
}

/// The name bytes of `RIGHT`.
pub open spec fn nm_dpad_right() -> Seq<u8> {
    seq![82u8, 73u8, 71u8, 72u8, 84u8]
}

/// The name bytes of `Y`.
pub open spec fn nm_y() -> Seq<u8> {
    seq![89u8]
}

/// The name bytes of `X`.
pub open spec fn nm_x() -> Seq<u8> {
    seq![88u8]
}

/// The name bytes of `A`.
pub open spec fn nm_a() -> Seq<u8> {
    seq![65u8]
}

/// The name bytes of `B`.
pub open spec fn nm_b() -> Seq<u8> {
    seq![66u8]
}

/// The name bytes of `SELECT`.
pub open spec fn nm_select() -> Seq<u8> {
    seq![83u8, 69u8, 76u8, 69u8, 67u8, 84u8]
}

/// The name bytes of `HOME`.
pub open spec fn nm_home() -> Seq<u8> {
    seq![72u8, 79u8, 77u8, 69u8]
}

/// The name bytes of `BACK`.
pub open spec fn nm_back() -> Seq<u8> {
    seq![66u8, 65u8, 67u8, 75u8]
}

/// The name bytes of `START`.
pub open spec fn nm_start() -> Seq<u8> {
    seq![83u8, 84u8, 65u8, 82u8, 84u8]
}

/// The active button names, in the order the encoder emits them.
pub open spec fn names_list(b: Buttons) -> Seq<Seq<u8>> {
    let s = Seq::<Seq<u8>>::empty();
    let s = if b.lb { s.push(nm_lb()) } else { s };
    let s = if b.rb { s.push(nm_rb()) } else { s };
    let s = if b.dpad_up { s.push(nm_dpad_up()) } else { s };
    let s = if b.dpad_down { s.push(nm_dpad_down()) } else { s };
    let s = if b.dpad_left { s.push(nm_dpad_left()) } else { s };
    let s = if b.dpad_right { s.push(nm_dpad_right()) } else { s };
    let s = if b.y { s.push(nm_y()) } else { s };
    let s = if b.x { s.push(nm_x()) } else { s };
    let s = if b.a { s.push(nm_a()) } else { s };
    let s = if b.b { s.push(nm_b()) } else { s };
    let s = if b.select { s.push(nm_select()) } else { s };
    let s = if b.home { s.push(nm_home()) } else { s };
    let s = if b.back { s.push(nm_back()) } else { s };
    let s = if b.start { s.push(nm_start()) } else { s };
    s
}

/// The literal `{\"buttons\":[`.
pub open spec fn lit_head() -> Seq<u8> {
    seq![123u8, 34u8, 98u8, 117u8, 116u8, 116u8, 111u8, 110u8, 115u8, 34u8, 58u8, 91u8]
}

/// The literal `,\"left_trigger\":`.
pub open spec fn lit_lt() -> Seq<u8> {
    seq![44u8, 34u8, 108u8, 101u8, 102u8, 116u8, 95u8, 116u8, 114u8, 105u8, 103u8, 103u8, 101u8, 114u8, 34u8, 58u8]
}

/// The literal `,\"right_trigger\":`.
pub open spec fn lit_rt() -> Seq<u8> {
    seq![44u8, 34u8, 114u8, 105u8, 103u8, 104u8, 116u8, 95u8, 116u8, 114u8, 105u8, 103u8, 103u8, 101u8, 114u8, 34u8, 58u8]
}

/// The literal `,\"thumb_lx\":`.
pub open spec fn lit_lx() -> Seq<u8> {
    seq![44u8, 34u8, 116u8, 104u8, 117u8, 109u8, 98u8, 95u8, 108u8, 120u8, 34u8, 58u8]
}

/// The literal `,\"thumb_ly\":`.
pub open spec fn lit_ly() -> Seq<u8> {
    seq![44u8, 34u8, 116u8, 104u8, 117u8, 109u8, 98u8, 95u8, 108u8, 121u8, 34u8, 58u8]
}

/// The literal `,\"thumb_rx\":`.
pub open spec fn lit_rx() -> Seq<u8> {
    seq![44u8, 34u8, 116u8, 104u8, 117u8, 109u8, 98u8, 95u8, 114u8, 120u8, 34u8, 58u8]
}

/// The literal `,\"thumb_ry\":`.
pub open spec fn lit_ry() -> Seq<u8> {
    seq![44u8, 34u8, 116u8, 104u8, 117u8, 109u8, 98u8, 95u8, 114u8, 121u8, 34u8, 58u8]
}

/// The full canonical encoding of one snapshot.
pub open spec fn spec_encode(s: WireSnapshot) -> Seq<u8> {
    lit_head() + join_names(names_list(s.buttons)) + seq![93u8] + lit_lt() + dec_digits(
        s.left_trigger as nat,
    ) + lit_rt() + dec_digits(s.right_trigger as nat) + lit_lx() + int_bytes(s.thumb_lx as int)
        + lit_ly() + int_bytes(s.thumb_ly as int) + lit_rx() + int_bytes(s.thumb_rx as int)
        + lit_ry() + int_bytes(s.thumb_ry as int) + seq![125u8]
}

/// All bytes below 128: what the encoder emits, so the result is
/// both valid UTF-8 and one character per byte.
pub open spec fn ascii_seq(s: Seq<u8>) -> bool {
    forall|k: int| 0 <= k < s.len() ==> s[k] < 128
}

/// The characters that a sequence of ASCII bytes reads as.
pub open spec fn ascii_chars(v: Seq<u8>) -> Seq<char> {
    v.map_values(|b: u8| b as char)
}

/// Append `piece` to `out`.
fn push_all(out: &mut Vec<u8>, piece: &Vec<u8>)
    ensures
        final(out)@ == old(out)@ + piece@,
        ascii_seq(old(out)@) && ascii_seq(piece@) ==> ascii_seq(final(out)@),
{
    out.extend_from_slice(piece.as_slice());
    proof {
        if ascii_seq(old(out)@) && ascii_seq(piece@) {
            assert forall|k: int| 0 <= k < out@.len() implies out@[k] < 128 by {
                if k < old(out)@.len() {
                    assert(out@[k] == old(out)@[k]);
                } else {
                    assert(out@[k] == piece@[k - old(out)@.len()]);
                }
            }
        }
    }
}

/// Append the decimal digits of `n`.
fn push_dec(out: &mut Vec<u8>, n: u32)
    ensures
        final(out)@ == old(out)@ + dec_digits(n as nat),
        ascii_seq(old(out)@) ==> ascii_seq(final(out)@),
    decreases n,
{
    if n < 10 {
        out.push(48 + n as u8);
        proof {
            assert(final(out)@ =~= old(out)@ + dec_digits(n as nat));
        }
    } else {
        push_dec(out, n / 10);
        out.push(48 + (n % 10) as u8);
        proof {
            assert(final(out)@ =~= old(out)@ + dec_digits(n as nat));
        }
    }
}

/// Append the decimal form of a signed 16-bit value.
fn push_i16(out: &mut Vec<u8>, v: i16)
    ensures
        final(out)@ == old(out)@ + int_bytes(v as int),
        ascii_seq(old(out)@) ==> ascii_seq(final(out)@),
{
    if v < 0 {
        out.push(45);
        let m: u32 = (-(v as i32)) as u32;
        assert(m as nat == (-(v as int)) as nat);
        push_dec(out, m);
        proof {
            assert(final(out)@ =~= old(out)@ + int_bytes(v as int));
        }
    } else {
        push_dec(out, v as u32);
    }
}

/// Append a name in double quotes.
fn push_quoted(out: &mut Vec<u8>, name: &Vec<u8>)
    ensures
        final(out)@ == old(out)@ + quoted(name@),
        ascii_seq(old(out)@) && ascii_seq(name@) ==> ascii_seq(final(out)@),
{
    out.push(34);
    push_all(out, name);
    out.push(34);
    proof {
        assert(final(out)@ =~= old(out)@ + quoted(name@));
    }
}

/// The literal `{\"buttons\":[` as bytes.
fn lit_head_vec() -> (v: Vec<u8>)
    ensures
        v@ == lit_head(),
        ascii_seq(v@),
{
    let v: Vec<u8> = vec![123u8, 34u8, 98u8, 117u8, 116u8, 116u8, 111u8, 110u8, 115u8, 34u8, 58u8, 91u8];
    proof {
        assert(v@ =~= lit_head());
    }
    v
}

/// The literal `,\"left_trigger\":` as bytes.
fn lit_lt_vec() -> (v: Vec<u8>)
    ensures
        v@ == lit_lt(),
        ascii_seq(v@),
{
    let v: Vec<u8> = vec![44u8, 34u8, 108u8, 101u8, 102u8, 116u8, 95u8, 116u8, 114u8, 105u8, 103u8, 103u8, 101u8, 114u8, 34u8, 58u8];
    proof {
        assert(v@ =~= lit_lt());
    }
    v
}

/// The literal `,\"right_trigger\":` as bytes.
fn lit_rt_vec() -> (v: Vec<u8>)
    ensures
        v@ == lit_rt(),
        ascii_seq(v@),
{
    let v: Vec<u8> = vec![44u8, 34u8, 114u8, 105u8, 103u8, 104u8, 116u8, 95u8, 116u8, 114u8, 105u8, 103u8, 103u8, 101u8, 114u8, 34u8, 58u8];
    proof {
        assert(v@ =~= lit_rt());
    }
    v
}

/// The literal `,\"thumb_lx\":` as bytes.
fn lit_lx_vec() -> (v: Vec<u8>)
    ensures
        v@ == lit_lx(),
        ascii_seq(v@),
{
    let v: Vec<u8> = vec![44u8, 34u8, 116u8, 104u8, 117u8, 109u8, 98u8, 95u8, 108u8, 120u8, 34u8, 58u8];
    proof {
        assert(v@ =~= lit_lx());
    }
    v
}

/// The literal `,\"thumb_ly\":` as bytes.
fn lit_ly_vec() -> (v: Vec<u8>)
    ensures
        v@ == lit_ly(),
        ascii_seq(v@),
{
    let v: Vec<u8> = vec![44u8, 34u8, 116u8, 104u8, 117u8, 109u8, 98u8, 95u8, 108u8, 121u8, 34u8, 58u8];
    proof {
        assert(v@ =~= lit_ly());
    }
    v
}

/// The literal `,\"thumb_rx\":` as bytes.
fn lit_rx_vec() -> (v: Vec<u8>)
    ensures
        v@ == lit_rx(),
        ascii_seq(v@),
{
    let v: Vec<u8> = vec![44u8, 34u8, 116u8, 104u8, 117u8, 109u8, 98u8, 95u8, 114u8, 120u8, 34u8, 58u8];
    proof {
        assert(v@ =~= lit_rx());
    }
    v
}

/// The literal `,\"thumb_ry\":` as bytes.
fn lit_ry_vec() -> (v: Vec<u8>)
    ensures
        v@ == lit_ry(),
        ascii_seq(v@),
{
    let v: Vec<u8> = vec![44u8, 34u8, 116u8, 104u8, 117u8, 109u8, 98u8, 95u8, 114u8, 121u8, 34u8, 58u8];
    proof {
        assert(v@ =~= lit_ry());
    }
    v
}

/// The views of a list of byte vectors.
pub open spec fn views_of(ns: Seq<Vec<u8>>) -> Seq<Seq<u8>> {
    ns.map_values(|v: Vec<u8>| v@)
}

/// Push `n` when `active`; the building block of the name list.
fn maybe_name(names: &mut Vec<Vec<u8>>, active: bool, n: Vec<u8>)
    requires
        ascii_seq(n@),
    ensures
        views_of(final(names)@) == (if active {
            views_of(old(names)@).push(n@)
        } else {
            views_of(old(names)@)
        }),
        (forall|k: int| 0 <= k < old(names)@.len() ==> ascii_seq(#[trigger] old(names)@[k]@))
            ==> (forall|k: int|
            0 <= k < final(names)@.len() ==> ascii_seq(#[trigger] final(names)@[k]@)),
{
    if active {
        let ghost pre = names@;
        names.push(n);
        proof {
            assert(views_of(names@) =~= views_of(pre).push(n@));
        }
    }
}

/// The active names of `b`, in encoder order.
#[verifier::rlimit(100)]
fn active_name_vecs(b: &Buttons) -> (names: Vec<Vec<u8>>)
    ensures
        views_of(names@) == names_list(*b),
        forall|k: int| 0 <= k < names@.len() ==> ascii_seq(#[trigger] names@[k]@),
{
    let mut names: Vec<Vec<u8>> = Vec::new();
    proof {
        assert(views_of(names@) =~= Seq::<Seq<u8>>::empty());
    }
    let n0: Vec<u8> = vec![76u8, 66u8];
    proof {
        assert(n0@ =~= nm_lb());
    }
    maybe_name(&mut names, b.lb, n0);
    let n1: Vec<u8> = vec![82u8, 66u8];
    proof {
        assert(n1@ =~= nm_rb());
    }
    maybe_name(&mut names, b.rb, n1);
    let n2: Vec<u8> = vec![85u8, 80u8];
    proof {
        assert(n2@ =~= nm_dpad_up());
    }
    maybe_name(&mut names, b.dpad_up, n2);
    let n3: Vec<u8> = vec![68u8, 79u8, 87u8, 78u8];
    proof {
        assert(n3@ =~= nm_dpad_down());
    }
    maybe_name(&mut names, b.dpad_down, n3);
    let n4: Vec<u8> = vec![76u8, 69u8, 70u8, 84u8];
    proof {
        assert(n4@ =~= nm_dpad_left());
    }
    maybe_name(&mut names, b.dpad_left, n4);
    let n5: Vec<u8> = vec![82u8, 73u8, 71u8, 72u8, 84u8];
    proof {
        assert(n5@ =~= nm_dpad_right());
    }
    maybe_name(&mut names, b.dpad_right, n5);
    let n6: Vec<u8> = vec![89u8];
    proof {
        assert(n6@ =~= nm_y());
    }
    maybe_name(&mut names, b.y, n6);
    let n7: Vec<u8> = vec![88u8];
    proof {
        assert(n7@ =~= nm_x());
    }
    maybe_name(&mut names, b.x, n7);
    let n8: Vec<u8> = vec![65u8];
    proof {
        assert(n8@ =~= nm_a());
    }
    maybe_name(&mut names, b.a, n8);
    let n9: Vec<u8> = vec![66u8];
    proof {
        assert(n9@ =~= nm_b());
    }
    maybe_name(&mut names, b.b, n9);
    let n10: Vec<u8> = vec![83u8, 69u8, 76u8, 69u8, 67u8, 84u8];
    proof {
        assert(n10@ =~= nm_select());
    }
    maybe_name(&mut names, b.select, n10);
    let n11: Vec<u8> = vec![72u8, 79u8, 77u8, 69u8];
    proof {
        assert(n11@ =~= nm_home());
    }
    maybe_name(&mut names, b.home, n11);
    let n12: Vec<u8> = vec![66u8, 65u8, 67u8, 75u8];
    proof {
        assert(n12@ =~= nm_back());
    }
    maybe_name(&mut names, b.back, n12);
    let n13: Vec<u8> = vec![83u8, 84u8, 65u8, 82u8, 84u8];
    proof {
        assert(n13@ =~= nm_start());
    }
    maybe_name(&mut names, b.start, n13);
    names
}

/// `join_names` over one more name: the separator comes with every
/// name after the first.
proof fn lemma_join_push(ns: Seq<Seq<u8>>, x: Seq<u8>)
    ensures
        ns.len() == 0 ==> join_names(ns.push(x)) == quoted(x),
        ns.len() > 0 ==> join_names(ns.push(x)) == join_names(ns) + seq![44u8] + quoted(x),
    decreases ns.len(),
{
    if ns.len() == 0 {
        assert(ns.push(x).len() == 1);
        assert(ns.push(x)[0] == x);
    } else {
        lemma_join_push(ns.drop_first(), x);
        assert(ns.push(x).drop_first() =~= ns.drop_first().push(x));
        if ns.len() == 1 {
            assert(join_names(ns.push(x)) == quoted(ns[0]) + seq![44u8] + join_names(
                ns.drop_first().push(x),
            ));
            assert(join_names(ns) + seq![44u8] + quoted(x) =~= quoted(ns[0]) + seq![44u8]
                + quoted(x));
        } else {
            assert(join_names(ns) + seq![44u8] + quoted(x) =~= quoted(ns[0]) + seq![44u8] + (
            join_names(ns.drop_first()) + seq![44u8] + quoted(x)));
        }
    }
}

/// Append the full quoted, comma-separated name list of `b`.
fn push_names(out: &mut Vec<u8>, b: &Buttons)
    ensures
        final(out)@ == old(out)@ + join_names(names_list(*b)),
        ascii_seq(old(out)@) ==> ascii_seq(final(out)@),
{
    let names = active_name_vecs(b);
    let ghost nsl = views_of(names@);
    let mut k: usize = 0;
    while k < names.len()
        invariant
            0 <= k <= names@.len(),
            nsl == views_of(names@),
            nsl == names_list(*b),
            forall|j: int| 0 <= j < names@.len() ==> ascii_seq(#[trigger] names@[j]@),
            out@ == old(out)@ + join_names(nsl.take(k as int)),
            ascii_seq(old(out)@) ==> ascii_seq(out@),
        decreases names@.len() - k,
    {
        if k > 0 {
            out.push(44);
        }
        push_quoted(out, &names[k]);
        proof {
            lemma_join_push(nsl.take(k as int), nsl[k as int]);
            assert(nsl.take(k as int).push(nsl[k as int]) =~= nsl.take(k as int + 1));
            assert(out@ =~= old(out)@ + join_names(nsl.take(k as int + 1)));
        }
        k = k + 1;
    }
    proof {
        assert(nsl.take(nsl.len() as int) =~= nsl);
    }
}


/// Encode one snapshot into its canonical JSON bytes.
#[verifier::rlimit(100)]
pub fn encode_snapshot(s: &WireSnapshot) -> (out: Vec<u8>)
    ensures
        out@ == spec_encode(*s),
        ascii_seq(out@),
{
    let mut out: Vec<u8> = Vec::new();
    let h = lit_head_vec();
    push_all(&mut out, &h);
    push_names(&mut out, &s.buttons);
    out.push(93);
    let t1 = lit_lt_vec();
    push_all(&mut out, &t1);
    push_dec(&mut out, s.left_trigger as u32);
    let t2 = lit_rt_vec();
    push_all(&mut out, &t2);
    push_dec(&mut out, s.right_trigger as u32);
    let a1 = lit_lx_vec();
    push_all(&mut out, &a1);
    push_i16(&mut out, s.thumb_lx);
    let a2 = lit_ly_vec();
    push_all(&mut out, &a2);
    push_i16(&mut out, s.thumb_ly);
    let a3 = lit_rx_vec();
    push_all(&mut out, &a3);
    push_i16(&mut out, s.thumb_rx);
    let a4 = lit_ry_vec();
    push_all(&mut out, &a4);
    push_i16(&mut out, s.thumb_ry);
    out.push(125);
    proof {
        assert(out@ =~= spec_encode(*s));
    }
    out
}

/// Relies on String::from_utf8: bytes that are valid UTF-8 become a
/// string of exactly those bytes, and each ASCII byte reads as the
/// character with its code.
#[verifier::external_body]
fn bytes_to_string(v: Vec<u8>) -> (r: String)
    requires
        ascii_seq(v@),
    ensures
        r@ == ascii_chars(v@),
{
    match String::from_utf8(v) {
        Ok(s) => s,
        Err(_) => String::new(),
    }
}

impl GamepadState {
    /// The wire snapshot of the current state, axes clamped to the
    /// 16-bit wire range.
    pub fn snapshot(&self) -> (r: WireSnapshot)
        ensures
            r == snapshot_of(*self),
    {
        WireSnapshot {
            buttons: self.buttons,
            left_trigger: self.triggers.lt,
            right_trigger: self.triggers.rt,
            thumb_lx: clamp_exec(self.left_stick.x),
            thumb_ly: clamp_exec(self.left_stick.y),
            thumb_rx: clamp_exec(self.right_stick.x),
            thumb_ry: clamp_exec(self.right_stick.y),
        }
    }

    /// Serialize the entire current state as one wire snapshot text.
    pub fn to_output_string(&self) -> (r: String)
        ensures
            r@ == ascii_chars(spec_encode(snapshot_of(*self))),
    {
        let snap = self.snapshot();
        let v = encode_snapshot(&snap);
        bytes_to_string(v)
    }
}

/// Clamp one wide axis value into the wire range.
fn clamp_exec(v: i32) -> (r: i16)
    ensures
        r as int == clamp_axis(v as int),
{
    if v < -32768 {
        -32768
    } else if v > 32767 {
        32767
    } else {
        v as i16
    }
}

/// A decimal digit byte.
pub open spec fn is_digit(c: u8) -> bool {
    48 <= c <= 57
}

/// The first position at or after `i` that does not hold a digit.
pub open spec fn digits_end(s: Seq<u8>, i: int) -> int
    decreases s.len() - i,
    when 0 <= i <= s.len()
{
    if i < s.len() && is_digit(s[i]) {
        digits_end(s, i + 1)
    } else {
        i
    }
}

/// The value of a digit run, most significant first.
pub open spec fn digits_val(d: Seq<u8>) -> nat
    decreases d.len(),
{
    if d.len() == 0 {
        0
    } else {
        digits_val(d.drop_last()) * 10 + (d.last() - 48) as nat
    }
}

/// Whether `lit` occurs in `s` at position `i`.
pub open spec fn matches_at(s: Seq<u8>, i: int, lit: Seq<u8>) -> bool {
    0 <= i && i + lit.len() <= s.len() && s.subrange(i, i + lit.len()) == lit
}

/// Parser state inside the button-name list.
pub enum ListMode {
    /// Just after `[`: a name or the closing bracket may come.
    Start,
    /// Inside a quoted name; the bytes read so far.
    InName(Seq<u8>),
    /// After a closing quote: a comma or the closing bracket may come.
    AfterName,
    /// After a comma: only a name may come.
    ExpectName,
}

/// Parse the button-name list, folding every recognized name into the
/// accumulated button set; an unrecognized name changes nothing.
/// Returns the set and the position just past the closing bracket.
pub open spec fn parse_list(s: Seq<u8>, i: int, m: ListMode, acc: Buttons) -> Option<
    (Buttons, int),
>
    decreases s.len() - i,
    when 0 <= i <= s.len()
{
    if i >= s.len() {
        None
    } else {
        let c = s[i];
        match m {
            ListMode::Start => {
                if c == 93 {
                    Some((acc, i + 1))
                } else if c == 34 {
                    parse_list(s, i + 1, ListMode::InName(seq![]), acc)
                } else {
                    None
                }
            },
            ListMode::InName(nm) => {
                if c == 34 {
                    parse_list(s, i + 1, ListMode::AfterName, spec_update_button(acc, nm, true))
                } else {
                    parse_list(s, i + 1, ListMode::InName(nm.push(c)), acc)
                }
            },
            ListMode::AfterName => {
                if c == 93 {
                    Some((acc, i + 1))
                } else if c == 44 {
                    parse_list(s, i + 1, ListMode::ExpectName, acc)
                } else {
                    None
                }
            },
            ListMode::ExpectName => {
                if c == 34 {
                    parse_list(s, i + 1, ListMode::InName(seq![]), acc)
                } else {
                    None
                }
            },
        }
    }
}

/// Parse one `lit` + unsigned decimal field with a byte-sized value.
pub open spec fn parse_u8_field(s: Seq<u8>, i: int, lit: Seq<u8>) -> Option<(u8, int)> {
    if !matches_at(s, i, lit) {
        None
    } else {
        let j0 = i + lit.len();
        let j = digits_end(s, j0);
        if j0 < j && j <= j0 + 3 {
            let n = digits_val(s.subrange(j0, j));
            if n <= 255 {
                Some((n as u8, j))
            } else {
                None
            }
        } else {
            None
        }
    }
}

/// Parse one `lit` + signed decimal field with a 16-bit value.
pub open spec fn parse_i16_field(s: Seq<u8>, i: int, lit: Seq<u8>) -> Option<(i16, int)> {
    if !matches_at(s, i, lit) {
        None
    } else {
        let j0 = i + lit.len();
        if j0 < s.len() && s[j0] == 45 {
            let j = digits_end(s, j0 + 1);
            if j0 + 1 < j && j <= j0 + 6 {
                let n = digits_val(s.subrange(j0 + 1, j));
                if n <= 32768 {
                    Some(((-(n as int)) as i16, j))
                } else {
                    None
                }
            } else {
                None
            }
        } else {
            let j = digits_end(s, j0);
            if j0 < j && j <= j0 + 5 {
                let n = digits_val(s.subrange(j0, j));
                if n <= 32767 {
                    Some((n as i16, j))
                } else {
                    None
                }
            } else {
                None
            }
        }
    }
}

/// Decode canonical snapshot text. Deliberately strict: the grammar
/// accepted is exactly what the encoder emits — compact text, the
/// fixed key order, no insignificant whitespace — with any button
/// names inside the list. The producer is the one writer of this
/// format and emits only the canonical form, so nothing looser is
/// accepted; `None` on any deviation, out-of-range number, or
/// trailing bytes.
pub open spec fn spec_decode(s: Seq<u8>) -> Option<WireSnapshot> {
    if !matches_at(s, 0, lit_head()) {
        None
    } else {
        match parse_list(s, lit_head().len() as int, ListMode::Start, Buttons::released()) {
            None => None,
            Some((btns, i1)) => match parse_u8_field(s, i1, lit_lt()) {
                None => None,
                Some((lt, i2)) => match parse_u8_field(s, i2, lit_rt()) {
                    None => None,
                    Some((rt, i3)) => match parse_i16_field(s, i3, lit_lx()) {
                        None => None,
                        Some((lx, i4)) => match parse_i16_field(s, i4, lit_ly()) {
                            None => None,
                            Some((ly, i5)) => match parse_i16_field(s, i5, lit_rx()) {
                                None => None,
                                Some((rx, i6)) => match parse_i16_field(s, i6, lit_ry()) {
                                    None => None,
                                    Some((ry, i7)) => {
                                        if i7 == s.len() - 1 && s[i7] == 125 {
                                            Some(
                                                WireSnapshot {
                                                    buttons: btns,
                                                    left_trigger: lt,
                                                    right_trigger: rt,
                                                    thumb_lx: lx,
                                                    thumb_ly: ly,
                                                    thumb_rx: rx,
                                                    thumb_ry: ry,
                                                },
                                            )
                                        } else {
                                            None
                                        }
                                    },
                                },
                            },
                        },
                    },
                },
            },
        }
    }
}


/// Whether `lit` occurs at `i`, checked byte by byte.
fn matches_lit(s: &[u8], i: usize, lit: &Vec<u8>) -> (r: bool)
    ensures
        r == matches_at(s@, i as int, lit@),
{
    if i > s.len() || s.len() - i < lit.len() {
        return false;
    }
    let mut k: usize = 0;
    while k < lit.len()
        invariant
            0 <= k <= lit@.len(),
            i + lit@.len() <= s@.len(),
            s@.len() <= usize::MAX,
            forall|j: int| 0 <= j < k ==> s@[i + j] == lit@[j],
        decreases lit@.len() - k,
    {
        if s[i + k] != lit[k] {
            proof {
                if matches_at(s@, i as int, lit@) {
                    assert(s@.subrange(i as int, i + lit@.len())[k as int] == s@[i + k]);
                }
            }
            return false;
        }
        k = k + 1;
    }
    proof {
        assert(s@.subrange(i as int, i + lit@.len()) =~= lit@);
    }
    true
}

/// Scan past a run of digits.
fn digits_end_exec(s: &[u8], i: usize) -> (j: usize)
    requires
        i <= s@.len(),
    ensures
        j == digits_end(s@, i as int),
        i <= j <= s@.len(),
{
    let mut j = i;
    while j < s.len() && 48 <= s[j] && s[j] <= 57
        invariant
            i <= j <= s@.len(),
            digits_end(s@, i as int) == digits_end(s@, j as int),
        decreases s@.len() - j,
    {
        j = j + 1;
    }
    j
}

/// Powers of ten.
pub open spec fn pow10(n: nat) -> nat
    decreases n,
{
    if n == 0 {
        1
    } else {
        10 * pow10((n - 1) as nat)
    }
}

/// A digit run of length `k` has a value below `pow10(k)`.
proof fn lemma_digits_val_bound(d: Seq<u8>)
    requires
        forall|k: int| 0 <= k < d.len() ==> is_digit(#[trigger] d[k]),
    ensures
        digits_val(d) < pow10(d.len()),
    decreases d.len(),
{
    if d.len() > 0 {
        lemma_digits_val_bound(d.drop_last());
    }
}

/// `pow10` grows with its argument.
proof fn lemma_pow10_mono(a: nat, b: nat)
    requires
        a <= b,
    ensures
        pow10(a) <= pow10(b),
    decreases b,
{
    if a < b && b > 0 {
        lemma_pow10_mono(a, (b - 1) as nat);
        assert(pow10(b) == 10 * pow10((b - 1) as nat));
        assert(pow10((b - 1) as nat) >= 1) by {
            lemma_pow10_mono(0, (b - 1) as nat);
        }
    }
}

/// The value of the digit run `s[i..j]`.
fn digits_val_exec(s: &[u8], i: usize, j: usize) -> (n: u32)
    requires
        i <= j <= s@.len(),
        j - i <= 5,
        forall|k: int| i <= k < j ==> is_digit(#[trigger] s@[k]),
    ensures
        n as nat == digits_val(s@.subrange(i as int, j as int)),
{
    let mut n: u32 = 0;
    let mut k: usize = i;
    while k < j
        invariant
            i <= k <= j,
            j <= s@.len(),
            j - i <= 5,
            forall|t: int| i <= t < j ==> is_digit(#[trigger] s@[t]),
            n as nat == digits_val(s@.subrange(i as int, k as int)),
        decreases j - k,
    {
        proof {
            lemma_digits_val_bound(s@.subrange(i as int, k as int));
            lemma_pow10_mono((k - i) as nat, 4);
            reveal_with_fuel(pow10, 6);
            assert(s@.subrange(i as int, k as int + 1).drop_last() =~= s@.subrange(
                i as int,
                k as int,
            ));
        }
        n = n * 10 + (s[k] - 48) as u32;
        k = k + 1;
    }
    proof {
        assert(s@.subrange(i as int, j as int) == s@.subrange(i as int, k as int));
    }
    n
}

/// Executable form of `parse_u8_field`.
fn parse_u8_field_exec(s: &[u8], i: usize, lit: &Vec<u8>) -> (r: Option<(u8, usize)>)
    ensures
        (match r {
            Some(p) => parse_u8_field(s@, i as int, lit@) == Some((p.0, p.1 as int))
                && p.1 <= s@.len(),
            None => parse_u8_field(s@, i as int, lit@) is None,
        }),
{
    if !matches_lit(s, i, lit) {
        return None;
    }
    let n_len = s.len();
    let j0 = i + lit.len();
    let j = digits_end_exec(s, j0);
    proof {
        lemma_digit_run(s@, j0 as int);
    }
    if j0 < j && j - j0 <= 3 {
        let n = digits_val_exec(s, j0, j);
        if n <= 255 {
            Some((n as u8, j))
        } else {
            None
        }
    } else {
        None
    }
}

/// Every byte between `i` and `digits_end(s, i)` is a digit.
proof fn lemma_digit_run(s: Seq<u8>, i: int)
    requires
        0 <= i <= s.len(),
    ensures
        i <= digits_end(s, i) <= s.len(),
        forall|k: int| i <= k < digits_end(s, i) ==> is_digit(#[trigger] s[k]),
        digits_end(s, i) < s.len() ==> !is_digit(s[digits_end(s, i)]),
    decreases s.len() - i,
{
    if i < s.len() && is_digit(s[i]) {
        lemma_digit_run(s, i + 1);
    }
}

/// Executable form of `parse_i16_field`.
fn parse_i16_field_exec(s: &[u8], i: usize, lit: &Vec<u8>) -> (r: Option<(i16, usize)>)
    ensures
        (match r {
            Some(p) => parse_i16_field(s@, i as int, lit@) == Some((p.0, p.1 as int))
                && p.1 <= s@.len(),
            None => parse_i16_field(s@, i as int, lit@) is None,
        }),
{
    if !matches_lit(s, i, lit) {
        return None;
    }
    let n_len = s.len();
    let j0 = i + lit.len();
    if j0 < s.len() && s[j0] == 45 {
        let j = digits_end_exec(s, j0 + 1);
        proof {
            lemma_digit_run(s@, j0 as int + 1);
        }
        if j0 + 1 < j && j - (j0 + 1) <= 5 {
            let n = digits_val_exec(s, j0 + 1, j);
            if n <= 32768 {
                Some(((-(n as i32)) as i16, j))
            } else {
                None
            }
        } else {
            None
        }
    } else {
        let j = digits_end_exec(s, j0);
        proof {
            lemma_digit_run(s@, j0 as int);
        }
        if j0 < j && j - j0 <= 5 {
            let n = digits_val_exec(s, j0, j);
            if n <= 32767 {
                Some((n as i16, j))
            } else {
                None
            }
        } else {
            None
        }
    }
}

/// Executable form of `parse_list`, from the `Start` state.
#[verifier::rlimit(100)]
fn parse_list_exec(s: &[u8], i0: usize) -> (r: Option<(Buttons, usize)>)
    requires
        i0 <= s@.len(),
    ensures
        (match r {
            Some(p) => parse_list(s@, i0 as int, ListMode::Start, Buttons::released()) == Some(
                (p.0, p.1 as int),
            ) && p.1 <= s@.len(),
            None => parse_list(s@, i0 as int, ListMode::Start, Buttons::released()) is None,
        }),
{
    let mut cur = i0;
    let mut code: u8 = 0;
    let mut name_start: usize = 0;
    let mut btns = Buttons::default();
    while cur < s.len()
        invariant
            cur <= s@.len(),
            code <= 3,
            code == 1 ==> name_start <= cur,
            parse_list(s@, i0 as int, ListMode::Start, Buttons::released()) == (if code == 0 {
                parse_list(s@, cur as int, ListMode::Start, btns)
            } else if code == 1 {
                parse_list(
                    s@,
                    cur as int,
                    ListMode::InName(s@.subrange(name_start as int, cur as int)),
                    btns,
                )
            } else if code == 2 {
                parse_list(s@, cur as int, ListMode::AfterName, btns)
            } else {
                parse_list(s@, cur as int, ListMode::ExpectName, btns)
            }),
        decreases s@.len() - cur,
    {
        let c = s[cur];
        if code == 0 {
            if c == 93 {
                return Some((btns, cur + 1));
            } else if c == 34 {
                code = 1;
                name_start = cur + 1;
                proof {
                    assert(s@.subrange(cur as int + 1, cur as int + 1) =~= Seq::<u8>::empty());
                }
            } else {
                return None;
            }
        } else if code == 1 {
            if c == 34 {
                let bc = crate::state::button_code_of(&s[name_start..cur]);
                btns = crate::state::set_flag(btns, bc, true);
                code = 2;
            } else {
                proof {
                    assert(s@.subrange(name_start as int, cur as int).push(s@[cur as int]) =~= s@
                        .subrange(name_start as int, cur as int + 1));
                }
            }
        } else if code == 2 {
            if c == 93 {
                return Some((btns, cur + 1));
            } else if c == 44 {
                code = 3;
            } else {
                return None;
            }
        } else {
            if c == 34 {
                code = 1;
                name_start = cur + 1;
                proof {
                    assert(s@.subrange(cur as int + 1, cur as int + 1) =~= Seq::<u8>::empty());
                }
            } else {
                return None;
            }
        }
        cur = cur + 1;
    }
    None
}

/// Decode one payload as a wire snapshot; `None` when it is not
/// canonical snapshot text (see `spec_decode`: the strictness is a
/// deliberate choice).
pub fn decode_snapshot(s: &[u8]) -> (r: Option<WireSnapshot>)
    ensures
        r == spec_decode(s@),
{
    let h = lit_head_vec();
    if !matches_lit(s, 0, &h) {
        return None;
    }
    let r1 = parse_list_exec(s, h.len());
    let (btns, i1) = match r1 {
        None => { return None; },
        Some(p) => p,
    };
    let t1 = lit_lt_vec();
    let (lt, i2) = match parse_u8_field_exec(s, i1, &t1) {
        None => { return None; },
        Some(p) => p,
    };
    let t2 = lit_rt_vec();
    let (rt, i3) = match parse_u8_field_exec(s, i2, &t2) {
        None => { return None; },
        Some(p) => p,
    };
    let a1 = lit_lx_vec();
    let (lx, i4) = match parse_i16_field_exec(s, i3, &a1) {
        None => { return None; },
        Some(p) => p,
    };
    let a2 = lit_ly_vec();
    let (ly, i5) = match parse_i16_field_exec(s, i4, &a2) {
        None => { return None; },
        Some(p) => p,
    };
    let a3 = lit_rx_vec();
    let (rx, i6) = match parse_i16_field_exec(s, i5, &a3) {
        None => { return None; },
        Some(p) => p,
    };
    let a4 = lit_ry_vec();
    let (ry, i7) = match parse_i16_field_exec(s, i6, &a4) {
        None => { return None; },
        Some(p) => p,
    };
    if i7 < s.len() && i7 + 1 == s.len() && s[i7] == 125 {
        Some(
            WireSnapshot {
                buttons: btns,
                left_trigger: lt,
                right_trigger: rt,
                thumb_lx: lx,
                thumb_ly: ly,
                thumb_rx: rx,
                thumb_ry: ry,
            },
        )
    } else {
        None
    }
}


/// An encoded digit run holds only digits and is never empty.
pub proof fn lemma_dec_digits_are_digits(n: nat)
    ensures
        dec_digits(n).len() >= 1,
        forall|k: int| 0 <= k < dec_digits(n).len() ==> is_digit(#[trigger] dec_digits(n)[k]),
    decreases n,
{
    if n >= 10 {
        lemma_dec_digits_are_digits(n / 10);
        assert forall|k: int| 0 <= k < dec_digits(n).len() implies is_digit(
            #[trigger] dec_digits(n)[k],
        ) by {
            if k < dec_digits(n / 10).len() {
                assert(dec_digits(n)[k] == dec_digits(n / 10)[k]);
            }
        }
    }
}

/// Reading an encoded digit run back gives the encoded value: the
/// numeric core of the encode-decode round trip.
pub proof fn lemma_digits_val_of_dec(n: nat)
    ensures
        digits_val(dec_digits(n)) == n,
    decreases n,
{
    assert(digits_val(Seq::<u8>::empty()) == 0);
    if n < 10 {
        assert(dec_digits(n) == seq![(48 + n) as u8]);
        assert(dec_digits(n).drop_last() =~= Seq::<u8>::empty());
        assert(dec_digits(n).last() == (48 + n) as u8);
    } else {
        lemma_digits_val_of_dec(n / 10);
        assert(dec_digits(n).drop_last() =~= dec_digits(n / 10));
        assert(dec_digits(n).last() == (48 + n % 10) as u8);
        assert(digits_val(dec_digits(n)) == digits_val(dec_digits(n / 10)) * 10 + n % 10);
    }
}


} // verus!
