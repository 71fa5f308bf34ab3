use qkd_worker::key::Key;

#[test]
fn key_from_is_zero_filled() {
    let k = Key::from(5);
    assert_eq!(k.len(), 5);
    assert_eq!(k.to_string(), &[0u8, 0, 0, 0, 0]);
}

#[test]
fn key_from_zero_length_is_empty() {
    let k = Key::from(0);
    assert_eq!(k.len(), 0);
    assert_eq!(k.to_string(), &[] as &[u8]);
}

#[test]
fn write_to_buffer_exact_length_reproduces_contents() {
    let mut k = Key::from(4);
    k.value = vec![0x01, 0x00, 0x01, 0x01];
    let mut buffer = vec![0xffu8; 4];
    let ok = k.write_to_buffer(&mut buffer);
    assert!(ok);
    assert_eq!(buffer, vec![0x01, 0x00, 0x01, 0x01]);
    // The key itself is left intact by the copy.
    assert_eq!(k.to_string(), &[0x01, 0x00, 0x01, 0x01]);
}

#[test]
fn write_to_buffer_longer_destination_keeps_tail() {
    let mut k = Key::from(2);
    k.value = vec![0xaa, 0xbb];
    let mut buffer = vec![0x11u8, 0x22, 0x33, 0x44];
    let ok = k.write_to_buffer(&mut buffer);
    assert!(ok);
    assert_eq!(buffer, vec![0xaa, 0xbb, 0x33, 0x44]);
}

#[test]
fn write_to_buffer_short_destination_rejected_untouched() {
    let mut k = Key::from(3);
    k.value = vec![1, 2, 3];
    let mut buffer = vec![0x55u8, 0x66];
    let ok = k.write_to_buffer(&mut buffer);
    assert!(!ok);
    assert_eq!(buffer, vec![0x55, 0x66]);
}

#[test]
fn write_to_buffer_empty_key_writes_nothing() {
    let k = Key::from(0);
    let mut buffer = vec![0x77u8; 3];
    let ok = k.write_to_buffer(&mut buffer);
    assert!(ok);
    assert_eq!(buffer, vec![0x77, 0x77, 0x77]);
}
