use supernova::input::{InputButtons, Key, MouseButton};

#[test]
fn keys_read_last_set_state() {
    let mut b = InputButtons::new();
    assert!(!b.is_key_down(Key::W));
    b.set_key(Key::W, true);
    b.set_key(Key::Space, true);
    assert!(b.is_key_down(Key::W));
    assert!(b.is_key_down(Key::Space));
    b.set_key(Key::W, false);
    assert!(!b.is_key_down(Key::W));
    assert!(b.is_key_down(Key::Space));
    assert!(!b.is_key_down(Key::GamepadA));
}

#[test]
fn mouse_buttons_read_last_set_state() {
    let mut b = InputButtons::new();
    assert!(!b.is_mouse_button_down(MouseButton::Left));
    b.set_mouse_button(MouseButton::Left, true);
    assert!(b.is_mouse_button_down(MouseButton::Left));
    assert!(!b.is_mouse_button_down(MouseButton::Right));
    b.set_mouse_button(MouseButton::Left, false);
    assert!(!b.is_mouse_button_down(MouseButton::Left));
}
