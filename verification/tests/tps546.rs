use mujina_miner::peripheral::tps546::{
    encode_slinear11, is_known_device_id, power_mw, slinear11_exponent, slinear11_mantissa,
    slinear11_to_int, status_registers, vout_mode_exponent,
};

#[test]
fn slinear11_words_split_into_exponent_and_mantissa() {
    assert_eq!((slinear11_exponent(0x0000), slinear11_mantissa(0x0000)), (0, 0));
    assert_eq!((slinear11_exponent(0x03FF), slinear11_mantissa(0x03FF)), (0, 1023));
    assert_eq!((slinear11_exponent(0x0400), slinear11_mantissa(0x0400)), (0, -1024));
    assert_eq!((slinear11_exponent(0x07FF), slinear11_mantissa(0x07FF)), (0, -1));
    assert_eq!((slinear11_exponent(0x7800), slinear11_mantissa(0x7800)), (15, 0));
    assert_eq!((slinear11_exponent(0x8000), slinear11_mantissa(0x8000)), (-16, 0));
    assert_eq!((slinear11_exponent(0xF800), slinear11_mantissa(0xF800)), (-1, 0));
    // 0xD2E6: exponent -6, mantissa 742, which is 11.59375.
    assert_eq!((slinear11_exponent(0xD2E6), slinear11_mantissa(0xD2E6)), (-6, 742));
}

#[test]
fn slinear11_words_are_read_as_whole_numbers() {
    assert_eq!(slinear11_to_int(0x0000), 0);
    assert_eq!(slinear11_to_int(0x0019), 25);
    assert_eq!(slinear11_to_int(0x0A8A), 650 * 2);
    assert_eq!(slinear11_to_int(0xD2E6), 11);
    assert_eq!(slinear11_to_int(0xF803), 1);
    assert_eq!(slinear11_to_int(0xF801), 0);
    assert_eq!(slinear11_to_int(0xFFFF), 0);
    assert_eq!(slinear11_to_int(0xFFFD), -1);
    assert_eq!(slinear11_to_int(0x07FF), -1);
    assert_eq!(slinear11_to_int(0x7BFF), 1023 << 15);
    assert_eq!(slinear11_to_int(0x7C00), -1024 << 15);
}

#[test]
fn whole_numbers_are_written_with_the_smallest_exponent() {
    assert_eq!(encode_slinear11(0), Some(0));
    assert_eq!(encode_slinear11(3), Some(3));
    assert_eq!(encode_slinear11(105), Some(105));
    assert_eq!(encode_slinear11(650), Some(650));
    assert_eq!(encode_slinear11(1023), Some(1023));
    assert_eq!(encode_slinear11(1024), Some(0x0800 | 512));
    assert_eq!(encode_slinear11(1025), Some(0x0800 | 512));
    assert_eq!(encode_slinear11(4096), Some(0x1800 | 512));
    assert_eq!(encode_slinear11((1 << 25) - 1), Some(0x7800 | 1023));
    assert_eq!(encode_slinear11(1 << 25), None);
    assert_eq!(encode_slinear11(i32::MAX), None);
    assert_eq!(encode_slinear11(-1), None);
}

#[test]
fn written_numbers_read_back() {
    for value in [0, 1, 105, 145, 650, 1023] {
        assert_eq!(slinear11_to_int(encode_slinear11(value).unwrap()), value);
    }
    assert_eq!(slinear11_to_int(encode_slinear11(1025).unwrap()), 1024);
}

#[test]
fn vout_mode_gives_a_signed_exponent() {
    assert_eq!(vout_mode_exponent(0x00), 0);
    assert_eq!(vout_mode_exponent(0x0F), 15);
    assert_eq!(vout_mode_exponent(0x17), -9);
    assert_eq!(vout_mode_exponent(0x1F), -1);
    assert_eq!(vout_mode_exponent(0x10), -16);
    assert_eq!(vout_mode_exponent(0xF7), -9);
}

#[test]
fn the_status_word_says_which_registers_to_read() {
    assert_eq!(status_registers(0x0000), Vec::<u8>::new());
    assert_eq!(status_registers(0x8000), vec![0x7A]);
    assert_eq!(status_registers(0x4000), vec![0x7B]);
    assert_eq!(status_registers(0x2000), vec![0x7C]);
    assert_eq!(status_registers(0x0004), vec![0x7D]);
    assert_eq!(status_registers(0x0002), vec![0x7E]);
    assert_eq!(status_registers(0x0840), Vec::<u8>::new());
    assert_eq!(status_registers(0xFFFF), vec![0x7A, 0x7B, 0x7C, 0x7D, 0x7E]);
}

#[test]
fn three_device_ids_are_known() {
    assert!(is_known_device_id(&[0x54, 0x49, 0x54, 0x6B, 0x24, 0x41]));
    assert!(is_known_device_id(&[0x54, 0x49, 0x54, 0x6D, 0x24, 0x41]));
    assert!(is_known_device_id(&[0x54, 0x49, 0x54, 0x6D, 0x24, 0x62]));
    assert!(!is_known_device_id(&[0x54, 0x49, 0x54, 0x6B, 0x24, 0x62]));
    assert!(!is_known_device_id(&[0x54, 0x49, 0x54, 0x6B, 0x24]));
    assert!(!is_known_device_id(&[]));
}

#[test]
fn power_is_voltage_times_current() {
    assert_eq!(power_mw(1200, 25000), 30000);
    assert_eq!(power_mw(0, 25000), 0);
    assert_eq!(power_mw(999, 1), 0);
    assert_eq!(power_mw(u32::MAX, u32::MAX), ((u32::MAX as u64 * u32::MAX as u64 / 1000) as u32));
}
