use gamepad_relay::state::{Buttons, GamepadState};
use gamepad_relay::wire::{decode_snapshot, encode_snapshot, WireSnapshot};
use gamepad_relay::server::is_json;

fn neutral_snapshot() -> WireSnapshot {
    WireSnapshot {
        buttons: Buttons::default(),
        left_trigger: 0,
        right_trigger: 0,
        thumb_lx: 0,
        thumb_ly: 0,
        thumb_rx: 0,
        thumb_ry: 0,
    }
}

#[test]
fn decode_canonical_text() {
    let text = "{\"buttons\":[\"A\",\"LB\"],\"left_trigger\":12,\"right_trigger\":255,\"thumb_lx\":-1,\"thumb_ly\":32767,\"thumb_rx\":-32768,\"thumb_ry\":7}";
    let snap = decode_snapshot(text.as_bytes()).expect("canonical text decodes");
    assert!(snap.buttons.a);
    assert!(snap.buttons.lb);
    assert!(!snap.buttons.b);
    assert_eq!(snap.left_trigger, 12);
    assert_eq!(snap.right_trigger, 255);
    assert_eq!(snap.thumb_lx, -1);
    assert_eq!(snap.thumb_ly, 32767);
    assert_eq!(snap.thumb_rx, -32768);
    assert_eq!(snap.thumb_ry, 7);
}

#[test]
fn decode_rebuilds_buttons_from_scratch() {
    let text = "{\"buttons\":[],\"left_trigger\":0,\"right_trigger\":0,\"thumb_lx\":0,\"thumb_ly\":0,\"thumb_rx\":0,\"thumb_ry\":0}";
    let snap = decode_snapshot(text.as_bytes()).unwrap();
    assert_eq!(snap, neutral_snapshot());
}

#[test]
fn decode_ignores_unrecognized_names() {
    let text = "{\"buttons\":[\"ZZ\",\"B\"],\"left_trigger\":0,\"right_trigger\":0,\"thumb_lx\":0,\"thumb_ly\":0,\"thumb_rx\":0,\"thumb_ry\":0}";
    let snap = decode_snapshot(text.as_bytes()).unwrap();
    let mut expected = neutral_snapshot();
    expected.buttons.b = true;
    assert_eq!(snap, expected);
}

#[test]
fn decode_rejects_malformed_text() {
    for bad in [
        "",
        "{}",
        "not json at all",
        "{\"buttons\":[\"A\"],\"left_trigger\":256,\"right_trigger\":0,\"thumb_lx\":0,\"thumb_ly\":0,\"thumb_rx\":0,\"thumb_ry\":0}",
        "{\"buttons\":[\"A\"],\"left_trigger\":0,\"right_trigger\":0,\"thumb_lx\":40000,\"thumb_ly\":0,\"thumb_rx\":0,\"thumb_ry\":0}",
        "{\"buttons\":[\"A\"],\"left_trigger\":0,\"right_trigger\":0,\"thumb_lx\":0,\"thumb_ly\":0,\"thumb_rx\":0,\"thumb_ry\":0} ",
        "{\"buttons\":[\"A\",],\"left_trigger\":0,\"right_trigger\":0,\"thumb_lx\":0,\"thumb_ly\":0,\"thumb_rx\":0,\"thumb_ry\":0}",
    ] {
        assert!(decode_snapshot(bad.as_bytes()).is_none(), "accepted: {bad}");
    }
}

#[test]
fn round_trip_reproduces_snapshot() {
    let mut st = GamepadState::default();
    st.update_button("Y", true);
    st.update_button("DOWN", true);
    st.update_trigger("LT", 99);
    st.update_stick("left", -3, 17);
    let text = st.to_output_string();
    let snap = decode_snapshot(text.as_bytes()).expect("own encoding decodes");
    assert_eq!(snap, st.snapshot());
    let again = encode_snapshot(&snap);
    assert_eq!(String::from_utf8(again).unwrap(), text);
}

#[test]
fn encoder_output_is_wellformed_json() {
    let mut st = GamepadState::default();
    st.update_button("HOME", true);
    let text = st.to_output_string();
    assert!(is_json(&text));
    let v: serde_json::Value = serde_json::from_str(&text).unwrap();
    assert_eq!(v["buttons"][0], "HOME");
    assert_eq!(v["left_trigger"], 0);
}

#[test]
fn is_json_rejects_fragments() {
    assert!(is_json("{\"a\":[1,2,3]}"));
    assert!(is_json("42"));
    assert!(!is_json("{\"a\":"));
    assert!(!is_json("hello there"));
}
