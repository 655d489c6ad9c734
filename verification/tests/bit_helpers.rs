use amber::mcu::avr::bit_helpers::{
    bit_field, bit_field_combined, get_d_field, get_io5, get_io6, get_k6, get_k8, get_r_field,
    get_rd_fields, is_two_word,
};

#[test]
fn bit_field_extracts_ranges() {
    assert_eq!(bit_field(0b1011_0100, 7, 4), 0b1011);
    assert_eq!(bit_field(0b1011_0100, 3, 0), 0b0100);
    assert_eq!(bit_field(0xffff, 15, 15), 1);
    assert_eq!(bit_field(0x1234, 15, 0), 0x1234);
}

#[test]
fn bit_field_combined_concatenates() {
    // High field first, low field last.
    let fields = vec![(7u16, 6u16), (3u16, 0u16)];
    assert_eq!(bit_field_combined(0b1100_0101, &fields), 0b11_0101);
}

#[test]
fn register_fields() {
    // r = 0b00100 from bit 9 and bits 3..0, d = bits 8..4.
    let opcode = 0b0000_0110_0101_1001;
    assert_eq!(get_r_field(opcode, 5), 0b1_1001);
    assert_eq!(get_d_field(opcode, 5), 0b00101);
    let (r, d) = get_rd_fields(opcode, 4);
    assert_eq!(r, 0x10 | 0b1001);
    assert_eq!(d, 0x10 | 0b0101);
}

#[test]
fn immediate_fields() {
    let opcode = 0b0000_0000_1101_0110;
    assert_eq!(get_k6(opcode), 0b11_0110);
    assert_eq!(get_k8(0b0000_1011_0100_0110), 0b1011_0110);
    assert_eq!(get_io6(0b0000_0110_0100_1010), 0b11_1010);
    assert_eq!(get_io5(0b0000_0000_1010_1000), 0b10101);
}

#[test]
fn two_word_opcodes() {
    assert!(is_two_word(0x9000));
    assert!(is_two_word(0x940C));
    assert!(is_two_word(0x940E));
    assert!(!is_two_word(0x0000));
    assert!(!is_two_word(0x9400));
}
