use chip8_disasm::{Opcode, RomData};

#[test]
fn field_extraction() {
    let op = Opcode::new(0xABCD);
    assert_eq!(op.opcode, 0xABCD);
    assert_eq!(op.n1, 0xA);
    assert_eq!(op.n2, 0xB);
    assert_eq!(op.n3, 0xC);
    assert_eq!(op.n4, 0xD);
    assert_eq!(op.constant, 0xCD);
    assert_eq!(op.address, 0xBCD);
}

#[test]
fn zero_word_is_clear_screen() {
    let v: Vec<u8> = vec![0x00, 0x00, 0x00, 0x10];
    let mut r = RomData::new(&v);
    let s = r.get_all_opcodes();
    assert_eq!(s, vec!["0x0000 CLS", "0x0002 CLS"]);
}

#[test]
fn jump_and_call_forms() {
    let v: Vec<u8> = vec![0x12, 0x34, 0x23, 0x45, 0xA1, 0x23, 0xB4, 0x56];
    let mut r = RomData::new(&v);
    let s = r.get_all_opcodes();
    assert_eq!(
        s,
        vec![
            "0x0000 JMP       0x0234",
            "0x0002 CALL      0x0345",
            "0x0004 LOAD      I  0x0123",
            "0x0006 JUMP      0x0456",
        ]
    );
}

#[test]
fn skip_forms() {
    let v: Vec<u8> = vec![
        0x34, 0x12, 0x45, 0x67, 0x56, 0x70, 0x91, 0x20, 0xE1, 0x9E, 0xE1, 0xA1,
    ];
    let mut r = RomData::new(&v);
    let s = r.get_all_opcodes();
    assert_eq!(
        s,
        vec![
            "0x0000 SKIP_EQ   V4 0x0012",
            "0x0002 SKIP_NE   V5 0x0067",
            "0x0004 SKIP_EQ   V6 V7",
            "0x0006 SKIP_NE   V1 V2",
            "0x0008 SKIP_KP   V1",
            "0x000A SKIP_NKP  V1",
        ]
    );
}

#[test]
fn immediate_and_draw_forms() {
    let v: Vec<u8> = vec![0x67, 0x89, 0x78, 0x9A, 0xC1, 0xFF, 0xD1, 0x25];
    let mut r = RomData::new(&v);
    let s = r.get_all_opcodes();
    assert_eq!(
        s,
        vec![
            "0x0000 LOAD      V7 0x0089",
            "0x0002 ADD       V8 0x009A",
            "0x0004 RND       V1 0x00FF",
            "0x0006 DRAW      V1 V2 5",
        ]
    );
}

#[test]
fn alu_forms() {
    let v: Vec<u8> = vec![
        0x81, 0x20, 0x81, 0x21, 0x81, 0x22, 0x81, 0x23, 0x81, 0x24, 0x81, 0x25, 0x81, 0x26, 0x81,
        0x27, 0x81, 0x2E, 0x81, 0x28,
    ];
    let mut r = RomData::new(&v);
    let s = r.get_all_opcodes();
    assert_eq!(
        s,
        vec![
            "0x0000 LOAD      V1 V2",
            "0x0002 OR        V1 V2",
            "0x0004 AND       V1 V2",
            "0x0006 XOR       V1 V2",
            "0x0008 ADD       V1 V2",
            "0x000A SUB       V1 V2",
            "0x000C SHIFT_R   V1 V2",
            "0x000E SUB       V2 V1",
            "0x0010 SHIFT_L   V1 V2",
            "0x0012 ???       0x8128",
        ]
    );
}

#[test]
fn timer_and_memory_forms() {
    let v: Vec<u8> = vec![
        0xF1, 0x07, 0xF1, 0x0A, 0xF1, 0x15, 0xF1, 0x18, 0xF1, 0x1E, 0xF1, 0x29, 0xF1, 0x33, 0xF1,
        0x55, 0xF1, 0x65,
    ];
    let mut r = RomData::new(&v);
    let s = r.get_all_opcodes();
    assert_eq!(
        s,
        vec![
            "0x0000 LOAD_DT   V1 DT",
            "0x0002 LOAD_KEY  V1 KEY",
            "0x0004 SET_DT    V1 DT",
            "0x0006 SET_ST    V1 DT",
            "0x0008 ADD       I  V1",
            "0x000A LOAD_FONT V1",
            "0x000C BCD       V1",
            "0x000E STORE_REG V0 - V1",
            "0x0010 LOAD_REG  V0 - V1",
        ]
    );
}

#[test]
fn unassigned_encodings_render_raw_word() {
    let v: Vec<u8> = vec![
        0x01, 0x23, 0x81, 0x29, 0xE1, 0xB0, 0xF1, 0x05, 0xF1, 0x1F, 0xF1, 0x75,
    ];
    let mut r = RomData::new(&v);
    let s = r.get_all_opcodes();
    assert_eq!(
        s,
        vec![
            "0x0000 ???       0x0123",
            "0x0002 ???       0x8129",
            "0x0004 ???       0xE1B0",
            "0x0006 ???       0xF105",
            "0x0008 ???       0xF11F",
            "0x000A ???       0xF175",
        ]
    );
    for line in &s {
        assert!(line.contains("???"));
    }
}

#[test]
fn index_load_form() {
    let v: Vec<u8> = vec![0xAA, 0xFF];
    let mut r = RomData::new(&v);
    let s = r.get_all_opcodes();
    assert_eq!(s.len(), 1);
    assert_eq!(s[0], "0x0000 LOAD      I  0x0AFF");
}
