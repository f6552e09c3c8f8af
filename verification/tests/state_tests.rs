use gamepad_relay::state::GamepadState;

const NEUTRAL_TAIL: &str =
    ",\"left_trigger\":0,\"right_trigger\":0,\"thumb_lx\":0,\"thumb_ly\":0,\"thumb_rx\":0,\"thumb_ry\":0}";

#[test]
fn button_update_emits_full_snapshot() {
    let mut st = GamepadState::default();
    st.update_button("A", true);
    assert_eq!(
        st.to_output_string(),
        format!("{{\"buttons\":[\"A\"]{}", NEUTRAL_TAIL)
    );
}

#[test]
fn release_then_stick_update() {
    let mut st = GamepadState::default();
    st.update_button("A", true);
    st.update_button("A", false);
    st.update_stick("left", 100, -50);
    assert_eq!(
        st.to_output_string(),
        "{\"buttons\":[],\"left_trigger\":0,\"right_trigger\":0,\"thumb_lx\":100,\"thumb_ly\":-50,\"thumb_rx\":0,\"thumb_ry\":0}"
    );
}

#[test]
fn unknown_button_name_is_ignored() {
    let mut st = GamepadState::default();
    st.update_button("A", true);
    let before = st.to_output_string();
    st.update_button("Z", true);
    assert_eq!(st.to_output_string(), before);
    assert!(st.buttons.a);
}

#[test]
fn legacy_stick_names_are_aliases() {
    let mut a = GamepadState::default();
    let mut b = GamepadState::default();
    a.update_stick("left", 4, 5);
    a.update_stick("right", -6, 7);
    b.update_stick("stickLeft", 4, 5);
    b.update_stick("stickRight", -6, 7);
    assert_eq!(a.to_output_string(), b.to_output_string());
    assert_eq!(a.left_stick.x, 4);
    assert_eq!(a.right_stick.y, 7);
}

#[test]
fn unknown_stick_and_trigger_are_ignored() {
    let mut st = GamepadState::default();
    st.update_stick("stickMiddle", 7, 7);
    st.update_trigger("XT", 9);
    assert_eq!(st.to_output_string(), format!("{{\"buttons\":[]{}", NEUTRAL_TAIL));
}

#[test]
fn trigger_update_sets_value() {
    let mut st = GamepadState::default();
    st.update_trigger("LT", 200);
    st.update_trigger("RT", 3);
    assert_eq!(st.triggers.lt, 200);
    assert_eq!(st.triggers.rt, 3);
    assert_eq!(
        st.to_output_string(),
        "{\"buttons\":[],\"left_trigger\":200,\"right_trigger\":3,\"thumb_lx\":0,\"thumb_ly\":0,\"thumb_rx\":0,\"thumb_ry\":0}"
    );
}

#[test]
fn last_mutation_wins_per_name() {
    let mut st = GamepadState::default();
    st.update_button("X", true);
    st.update_button("LB", true);
    st.update_button("X", false);
    st.update_button("LB", true);
    assert!(!st.buttons.x);
    assert!(st.buttons.lb);
    assert_eq!(
        st.to_output_string(),
        format!("{{\"buttons\":[\"LB\"]{}", NEUTRAL_TAIL)
    );
}

#[test]
fn encoder_name_order_is_fixed() {
    let mut st = GamepadState::default();
    for n in ["START", "B", "UP", "SELECT", "RB"] {
        st.update_button(n, true);
    }
    assert_eq!(
        st.to_output_string(),
        format!("{{\"buttons\":[\"RB\",\"UP\",\"B\",\"SELECT\",\"START\"]{}", NEUTRAL_TAIL)
    );
}

#[test]
fn axes_clamp_to_wire_range() {
    let mut st = GamepadState::default();
    st.update_stick("right", 100000, -100000);
    assert_eq!(
        st.to_output_string(),
        "{\"buttons\":[],\"left_trigger\":0,\"right_trigger\":0,\"thumb_lx\":0,\"thumb_ly\":0,\"thumb_rx\":32767,\"thumb_ry\":-32768}"
    );
}
