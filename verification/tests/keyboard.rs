use r3emu::keyboard::Keyboard;

#[test]
fn queued_input_is_destructive() {
    let mut keyboard = Keyboard::new();
    keyboard.queue_keypresses(&[b'a', b'b']);

    assert_eq!(keyboard.get_key(), b'a');
    assert_eq!(keyboard.get_key(), b'b');
    assert_eq!(keyboard.get_key(), 0);
}

#[test]
fn live_keypress_takes_priority_over_queued_input() {
    let mut keyboard = Keyboard::new();
    keyboard.queue_keypresses(&[b'a']);
    keyboard.register_keypress(b'z');

    assert_eq!(keyboard.get_key(), b'z');
    assert_eq!(keyboard.get_key(), b'a');
    assert_eq!(keyboard.get_key(), 0);
}
