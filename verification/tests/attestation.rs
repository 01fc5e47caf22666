use being32::hex32::Hex32;

fn sample_bank() -> Hex32 {
    let mut h = Hex32::new();
    for i in 0..32 {
        h.set_word(i, (i as u32).wrapping_mul(0x9e37_79b9) ^ 0x00ff_00ff);
    }
    h.set_word(3, 0.2f32.to_bits());
    h.set_word(4, 0.8f32.to_bits());
    h
}

#[test]
fn attestation_of_zero_bank_is_all_zero_digits() {
    let att = Hex32::new().attestation();
    assert_eq!(att.len(), 256);
    assert!(att.chars().all(|c| c == '0'));
}

#[test]
fn attestation_writes_lowercase_little_endian_bytes() {
    let mut h = Hex32::new();
    h.set_word(0, 0xabcd_ef01);
    let att = h.attestation();
    assert_eq!(&att[0..8], "01efcdab");
    assert!(att[8..].chars().all(|c| c == '0'));
}

#[test]
fn attestation_matches_byte_image() {
    let h = sample_bank();
    let expected: String = h.to_bytes().iter().map(|b| format!("{:02x}", b)).collect();
    assert_eq!(h.attestation(), expected);
}

#[test]
fn rehydrate_restores_attested_bank() {
    let h = sample_bank();
    let att = h.attestation();
    let mut other = Hex32::new();
    assert!(other.rehydrate(&att));
    assert_eq!(other.registers(), h.registers());
    assert_eq!(other.attestation(), att);
}

#[test]
fn rehydrate_accepts_uppercase_digits() {
    let h = sample_bank();
    let att = h.attestation().to_uppercase();
    let mut other = Hex32::new();
    assert!(other.rehydrate(&att));
    assert_eq!(other.registers(), h.registers());
}

#[test]
fn rehydrate_accepts_plus_sign_pairs() {
    let mut att = "00".repeat(128);
    att.replace_range(0..2, "+a");
    att.replace_range(2..4, "+F");
    let mut h = Hex32::new();
    assert!(h.rehydrate(&att));
    assert_eq!(h.get_word(0), 0x0000_0f0a);
}

#[test]
fn rehydrate_rejects_wrong_length() {
    let h = sample_bank();
    let att = h.attestation();
    let mut target = sample_bank();
    target.set_word(0, 1);
    let before = target.registers();
    assert!(!target.rehydrate(&att[..254]));
    assert!(!target.rehydrate(&format!("{}00", att)));
    assert!(!target.rehydrate(""));
    assert_eq!(target.registers(), before);
}

#[test]
fn rehydrate_rejects_bad_digits_and_keeps_bank() {
    let att = sample_bank().attestation();
    let mut target = Hex32::new();
    target.set_word(7, 42);
    let before = target.registers();
    for bad in ["zz", "-1", "++", "g0", "0 ", "a+"] {
        let mut text = att.clone();
        text.replace_range(100..102, bad);
        assert!(!target.rehydrate(&text), "{}", bad);
        assert_eq!(target.registers(), before);
    }
}

#[test]
fn rehydrate_rejects_non_ascii_pair() {
    let mut text = "00".repeat(127);
    text.push('é');
    assert_eq!(text.len(), 256);
    let mut target = Hex32::new();
    assert!(!target.rehydrate(&text));
}

#[test]
fn cmap_full() {
    // Rehydration fidelity: the attestation taken at "death" restores the
    // register bank exactly, and attesting again gives the same text.
    let being = sample_bank();
    let att = being.attestation();
    let mut revived = Hex32::new();
    assert!(revived.rehydrate(&att), "Rehydration failed");
    assert_eq!(revived.registers(), being.registers());
    assert_eq!(revived.to_bytes(), being.to_bytes());
    assert_eq!(revived.attestation(), att);
}
