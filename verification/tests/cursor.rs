use chip8_disasm::RomData;

#[test]
fn new() {
    let v: Vec<u8> = vec![];
    let r = RomData::new(&v);
    assert_eq!(r.counter, 0);
    assert_eq!(r.data.len(), 0);
}

#[test]
fn get_n_opcodes_no_overflow() {
    let v: Vec<u8> = vec![0x00, 0xE0, 0x00, 0xEE];
    let mut r = RomData::new(&v);
    let s = r.get_n_opcodes(0, 1);
    assert_eq!(s.len(), 1);
    assert_eq!(s[0], "0x0000 CLS");
}

#[test]
fn get_n_opcodes_overflow() {
    let v: Vec<u8> = vec![0x00, 0xE0, 0x00, 0xEE];
    let mut r = RomData::new(&v);
    let s = r.get_n_opcodes(0, 3);
    assert_eq!(s.len(), 2);
    assert_eq!(s[0], "0x0000 CLS");
    assert_eq!(s[1], "0x0002 RET");
}

#[test]
fn get_two_opcodes() {
    let v: Vec<u8> = vec![0x00, 0xE0, 0x00, 0xEE];
    let mut r = RomData::new(&v);
    let s = r.get_all_opcodes();
    assert_eq!(s.len(), 2);
    assert_eq!(s[0], "0x0000 CLS");
    assert_eq!(s[1], "0x0002 RET");
}

#[test]
fn translate_opcode() {
    let v: Vec<u8> = vec![0x00, 0xE0];
    let mut r = RomData::new(&v);
    let opcode = r.get_next_opcode();
    assert_eq!(r.translate_opcode(opcode.unwrap()), "0x0000 CLS");
}

#[test]
fn get_next_opcode_valid() {
    let v: Vec<u8> = vec![0xAA, 0xFF];
    let mut r = RomData::new(&v);

    assert_eq!(0xaaff, r.get_next_opcode().unwrap().opcode);
    assert_eq!(0, r.counter);
}

#[test]
fn get_next_opcode_invalid() {
    let v: Vec<u8> = vec![0xAA, 0xFF];
    let mut r = RomData::new(&v);
    r.counter = 2;
    assert!(r.get_next_opcode().is_none());
}

#[test]
fn next() {
    let v: Vec<u8> = vec![];
    let mut r = RomData::new(&v);
    assert_eq!(r.counter, 0);
    r.next();
    assert_eq!(r.counter, 2);
}

#[test]
fn empty_buffer_yields_no_lines() {
    let v: Vec<u8> = vec![];
    let mut r = RomData::new(&v);
    let s = r.get_all_opcodes();
    assert_eq!(s.len(), 0);
}

#[test]
fn odd_trailing_byte_is_never_consumed() {
    let v: Vec<u8> = vec![0x00, 0xE0, 0xAA];
    let mut r = RomData::new(&v);
    let s = r.get_all_opcodes();
    assert_eq!(s.len(), 1);
    assert_eq!(s[0], "0x0000 CLS");
    assert_eq!(r.counter, 2);
    assert!(r.get_next_opcode().is_none());
}

#[test]
fn addr_adds_base_offset() {
    let v: Vec<u8> = vec![0x00, 0xE0];
    let mut r = RomData::new(&v);
    r.offset = 0x200;
    assert_eq!(r.addr(), 0x200);
    let s = r.get_all_opcodes();
    assert_eq!(s.len(), 1);
    assert_eq!(s[0], "0x0200 CLS");
}

#[test]
fn wide_address_keeps_all_digits() {
    let v: Vec<u8> = vec![0x00, 0xE0, 0x00, 0xEE];
    let mut r = RomData::new(&v);
    r.offset = 0x1000;
    let s = r.get_all_opcodes();
    assert_eq!(s.len(), 2);
    assert_eq!(s[0], "0x01000 CLS");
    assert_eq!(s[1], "0x01002 RET");
}

#[test]
fn get_n_start_does_not_skip_words() {
    let v: Vec<u8> = vec![0x00, 0xE0, 0x00, 0xEE];
    let mut r = RomData::new(&v);
    let s = r.get_n_opcodes(1, 1);
    assert_eq!(s.len(), 1);
    assert_eq!(s[0], "0x0000 CLS");
}

#[test]
fn get_n_is_prefix_of_get_all() {
    let v: Vec<u8> = vec![0x12, 0x34, 0x23, 0x45, 0x00, 0xEE];
    let mut r1 = RomData::new(&v);
    let all = r1.get_all_opcodes();
    let mut r2 = RomData::new(&v);
    let some = r2.get_n_opcodes(0, 2);
    assert_eq!(some.len(), 2);
    assert_eq!(all.len(), 3);
    assert_eq!(some[..], all[..2]);
}

#[test]
fn addresses_step_by_two() {
    let v: Vec<u8> = vec![0x00, 0xE0, 0x00, 0xEE, 0x12, 0x34, 0xAA, 0xFF];
    let mut r = RomData::new(&v);
    let s = r.get_all_opcodes();
    assert_eq!(s.len(), 4);
    for (i, line) in s.iter().enumerate() {
        let want = format!("0x0{:03X}", 2 * i);
        assert_eq!(&line[..want.len()], want.as_str());
    }
}
