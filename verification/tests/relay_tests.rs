use gamepad_relay::pad::{PadState, XBTN_A, XBTN_BACK, XBTN_DPAD_UP, XBTN_LB, XBTN_X};
use gamepad_relay::server::{ingress_payload, Frame, ServerCore};

#[test]
fn accept_replaces_active_writer() {
    let mut core = ServerCore::new();
    assert_eq!(core.outbound_target(), None);
    let a = core.on_accept();
    assert_eq!(core.outbound_target(), Some(a));
    let b = core.on_accept();
    assert_ne!(a, b);
    assert_eq!(core.outbound_target(), Some(b));
    core.on_close();
    assert_eq!(core.outbound_target(), None);
}

#[test]
fn text_frames_are_trimmed_and_forwarded() {
    let f = Frame::Text(b" \t{\"buttons\":[]}\r\n ".to_vec());
    assert_eq!(ingress_payload(&f), Some(b"{\"buttons\":[]}".to_vec()));
    assert_eq!(ingress_payload(&Frame::Other), None);
    let all_ws = Frame::Text(b" \r\n\t ".to_vec());
    assert_eq!(ingress_payload(&all_ws), Some(Vec::new()));
}

#[test]
fn fresh_session_raises_dpad_up_only() {
    let pad = PadState::new();
    assert_eq!(pad.buttons_raw, XBTN_DPAD_UP);
    assert_eq!(pad.left_trigger, 0);
}

#[test]
fn apply_payload_replaces_whole_state() {
    let mut pad = PadState::new();
    let text = "{\"buttons\":[\"A\",\"LB\",\"BACK\"],\"left_trigger\":5,\"right_trigger\":6,\"thumb_lx\":-7,\"thumb_ly\":8,\"thumb_rx\":-9,\"thumb_ry\":10}";
    assert!(pad.apply_payload(text.as_bytes()));
    assert_eq!(pad.buttons_raw, XBTN_A | XBTN_LB | XBTN_BACK);
    assert_eq!(pad.left_trigger, 5);
    assert_eq!(pad.thumb_lx, -7);
    assert_eq!(pad.thumb_ry, 10);
}

#[test]
fn apply_same_payload_twice_is_idempotent() {
    let text = "{\"buttons\":[\"UP\",\"B\"],\"left_trigger\":1,\"right_trigger\":2,\"thumb_lx\":3,\"thumb_ly\":4,\"thumb_rx\":5,\"thumb_ry\":6}";
    let mut pad = PadState::new();
    assert!(pad.apply_payload(text.as_bytes()));
    let once = pad;
    assert!(pad.apply_payload(text.as_bytes()));
    assert_eq!(pad, once);
}

#[test]
fn bad_payload_leaves_session_unchanged() {
    let mut pad = PadState::new();
    let before = pad;
    assert!(!pad.apply_payload(b"{\"buttons\":"));
    assert_eq!(pad, before);
}

#[test]
fn select_and_home_have_no_driver_bit() {
    let mut pad = PadState::new();
    let text = "{\"buttons\":[\"SELECT\",\"HOME\"],\"left_trigger\":0,\"right_trigger\":0,\"thumb_lx\":0,\"thumb_ly\":0,\"thumb_rx\":0,\"thumb_ry\":0}";
    assert!(pad.apply_payload(text.as_bytes()));
    assert_eq!(pad.buttons_raw, 0);
}

#[test]
fn press_button_a_sets_a_and_x() {
    let mut pad = PadState::new();
    pad.press_button_a();
    assert_eq!(pad.buttons_raw, XBTN_A | XBTN_X);
    assert_eq!(pad.left_trigger, 0);
}
