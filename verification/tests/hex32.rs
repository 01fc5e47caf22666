use being32::hex32::Hex32;

#[test]
fn new_bank_is_all_zero() {
    let h = Hex32::new();
    assert_eq!(h.registers(), [0u32; 32]);
    assert_eq!(h.to_bytes(), [0u8; 128]);
    assert_eq!(Hex32::WORD_LEN, 32);
    assert_eq!(Hex32::BYTE_LEN, 128);
    assert_eq!(Hex32::default().registers(), [0u32; 32]);
}

#[test]
fn set_word_changes_only_that_register() {
    let mut h = Hex32::new();
    h.set_word(3, 0xdead_beef);
    h.set_word(31, 7);
    assert_eq!(h.get_word(3), 0xdead_beef);
    assert_eq!(h.get_word(31), 7);
    for i in 0..32 {
        if i != 3 && i != 31 {
            assert_eq!(h.get_word(i), 0);
        }
    }
}

#[test]
fn to_bytes_is_little_endian() {
    let mut h = Hex32::new();
    h.set_word(0, 0x0403_0201);
    h.set_word(31, 0xff00_80aa);
    let b = h.to_bytes();
    assert_eq!(&b[0..4], &[1, 2, 3, 4]);
    assert_eq!(&b[124..128], &[0xaa, 0x80, 0x00, 0xff]);
    assert!(b[4..124].iter().all(|&x| x == 0));
}

#[test]
fn from_bytes_is_little_endian() {
    let mut bytes = [0u8; 128];
    bytes[4] = 0x78;
    bytes[5] = 0x56;
    bytes[6] = 0x34;
    bytes[7] = 0x12;
    bytes[127] = 0x80;
    let h = Hex32::from_bytes(bytes);
    assert_eq!(h.get_word(1), 0x1234_5678);
    assert_eq!(h.get_word(31), 0x8000_0000);
    assert_eq!(h.get_word(0), 0);
}

#[test]
fn bytes_roundtrip_both_ways() {
    let mut bytes = [0u8; 128];
    for (i, b) in bytes.iter_mut().enumerate() {
        *b = (i as u8).wrapping_mul(37).wrapping_add(11);
    }
    let h = Hex32::from_bytes(bytes);
    assert_eq!(h.to_bytes(), bytes);
    let back = Hex32::from_bytes(h.to_bytes());
    assert_eq!(back.registers(), h.registers());
}

#[test]
fn registers_copy_the_bank() {
    let mut h = Hex32::new();
    h.set_word(3, 0.5f32.to_bits());
    let regs = h.registers();
    assert_eq!(f32::from_bits(regs[3]), 0.5);
    assert_eq!(regs, h.words);
}
