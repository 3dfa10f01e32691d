use r3emu::keyboard::{host_key_char, HostKey};

#[test]
fn host_keys_map_to_ascii() {
    assert_eq!(host_key_char(HostKey::Letter(0)), b'a');
    assert_eq!(host_key_char(HostKey::Letter(25)), b'z');
    assert_eq!(host_key_char(HostKey::Digit(7)), b'7');
    assert_eq!(host_key_char(HostKey::Return), b'\n');
    assert_eq!(host_key_char(HostKey::Backspace), 8);
    assert_eq!(host_key_char(HostKey::Tab), b'\t');
    assert_eq!(host_key_char(HostKey::Space), b' ');
    assert_eq!(host_key_char(HostKey::Escape), 27);
    assert_eq!(host_key_char(HostKey::Other), 0);
}
