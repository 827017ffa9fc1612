use kosa_interface::calc_crc;

#[test]
fn crc_of_standard_check_string() {
    // CRC-16/MODBUS of "123456789" is 0x4B37; calc_crc gives it bytes exchanged.
    assert_eq!(calc_crc(b"123456789"), 0x374B);
}

#[test]
fn crc_of_empty_input_is_the_preset() {
    assert_eq!(calc_crc(&[]), 0xFFFF);
}

#[test]
fn crc_of_single_byte() {
    // register 0xFFFF ^ 0x01 = 0xFFFE, eight steps give 0x807E; exchanged 0x7E80
    assert_eq!(calc_crc(&[0x01]), 0x7E80);
}

#[test]
fn message_closed_by_its_crc_checks_to_zero() {
    for msg in [&b"123456789"[..], &[0xF8, 0x01, 0x03, 0xFF, 0x10, 0x01, 0x00][..], &[][..]] {
        let crc = calc_crc(msg);
        let mut framed = msg.to_vec();
        framed.extend_from_slice(&crc.to_be_bytes());
        assert_eq!(calc_crc(&framed), 0);
    }
}

#[test]
fn crc_tells_apart_frames_differing_in_two_adjacent_bytes() {
    let base = [0xF8u8, 0x01, 0x03, 0xFF, 0x10, 0x01, 0x00];
    for j in 0..base.len() {
        for bit in 0..16 {
            let mut other = base;
            if bit < 8 {
                other[j] ^= 1 << bit;
            } else if j + 1 < base.len() {
                other[j + 1] ^= 1 << (bit - 8);
            } else {
                continue;
            }
            assert_ne!(calc_crc(&base), calc_crc(&other));
        }
    }
}
