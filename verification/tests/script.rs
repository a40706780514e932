use btc_primitives::{classify_script, read_pushdata, Opcode, ScriptType};

#[test]
fn classify_script_knows_p2pkh() {
    assert_eq!(classify_script(&[0x76, 0xa9, 0x14]), ScriptType::P2PKH);
    assert_eq!(
        classify_script(&[0x76, 0xa9, 0x14, 0x01, 0x02, 0x03]),
        ScriptType::P2PKH
    );
    let mut full = vec![0x76, 0xa9, 0x14];
    full.extend_from_slice(&[0xab; 20]);
    full.extend_from_slice(&[0x88, 0xac]);
    assert_eq!(classify_script(&full), ScriptType::P2PKH);
}

#[test]
fn classify_script_knows_p2wpkh() {
    assert_eq!(classify_script(&[0x00, 0x14]), ScriptType::P2WPKH);
    assert_eq!(classify_script(&[0x00, 0x14, 0xff]), ScriptType::P2WPKH);
    let mut full = vec![0x00, 0x14];
    full.extend_from_slice(&[0xcd; 20]);
    assert_eq!(classify_script(&full), ScriptType::P2WPKH);
}

#[test]
fn classify_script_gives_unknown_for_the_rest() {
    assert_eq!(classify_script(&[0x51]), ScriptType::Unknown);
    assert_eq!(classify_script(&[]), ScriptType::Unknown);
    assert_eq!(classify_script(&[0x76]), ScriptType::Unknown);
    assert_eq!(classify_script(&[0x76, 0xa9]), ScriptType::Unknown);
    assert_eq!(classify_script(&[0x76, 0xa9, 0x15]), ScriptType::Unknown);
    assert_eq!(classify_script(&[0x00]), ScriptType::Unknown);
    assert_eq!(classify_script(&[0x00, 0x15]), ScriptType::Unknown);
    assert_eq!(classify_script(&[0x14, 0x00]), ScriptType::Unknown);
    assert_eq!(classify_script(&[0x01, 0x76, 0xa9, 0x14]), ScriptType::Unknown);
}

#[test]
fn read_pushdata_starts_at_the_third_byte() {
    assert_eq!(
        read_pushdata(&[0x76, 0xa9, 0x14, 0x01, 0x02]),
        &[0x14, 0x01, 0x02]
    );
    assert_eq!(read_pushdata(&[0x00, 0x14, 0xaa]), &[0xaa]);
}

#[test]
fn read_pushdata_of_two_bytes_is_empty() {
    let empty: &[u8] = &[];
    assert_eq!(read_pushdata(&[0x00, 0x14]), empty);
}

#[test]
fn read_pushdata_does_not_look_at_the_pattern() {
    assert_eq!(read_pushdata(&[0x51, 0x52, 0x53]), &[0x53]);
}

#[test]
fn opcode_from_byte_knows_two_opcodes() {
    assert_eq!(Opcode::from_byte(0xac), Ok(Opcode::OpChecksig));
    assert_eq!(Opcode::from_byte(0x76), Ok(Opcode::OpDup));
}

#[test]
fn opcode_from_byte_names_an_unknown_byte() {
    let err = Opcode::from_byte(0xff).unwrap_err();
    assert!(err.contains("0xff"));
    assert_eq!(err, "Invalid opcode: 0xff");
    assert_eq!(
        Opcode::from_byte(0x00),
        Err("Invalid opcode: 0x00".to_string())
    );
    assert_eq!(
        Opcode::from_byte(0x0a),
        Err("Invalid opcode: 0x0a".to_string())
    );
    assert_eq!(
        Opcode::from_byte(0xa9),
        Err("Invalid opcode: 0xa9".to_string())
    );
}

#[test]
fn opcode_from_byte_refuses_every_other_byte() {
    let mut known = 0;
    for byte in 0..=255u8 {
        match Opcode::from_byte(byte) {
            Ok(_) => known += 1,
            Err(msg) => assert_eq!(msg, format!("Invalid opcode: 0x{:02x}", byte)),
        }
    }
    assert_eq!(known, 2);
}
