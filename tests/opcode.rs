use chip8::opcode::Opcode;

#[test]
fn optest() {
    let op = Opcode::from(0xAB, 0xCD);
    assert_eq!(op.c, 10);
    assert_eq!(op.x, 11);
    assert_eq!(op.y, 12);
    assert_eq!(op.n, 13);
    assert_eq!(op.nn, 205);
    assert_eq!(op.nnn, 3021);
}

#[test]
fn decode_low_and_high_words() {
    let zero = Opcode::from(0x00, 0x00);
    assert_eq!((zero.c, zero.x, zero.y, zero.n, zero.nn, zero.nnn), (0, 0, 0, 0, 0, 0));
    let full = Opcode::from(0xFF, 0xFF);
    assert_eq!((full.c, full.x, full.y, full.n, full.nn, full.nnn), (15, 15, 15, 15, 0xFF, 0xFFF));
    let draw = Opcode::from(0xD1, 0x25);
    assert_eq!((draw.c, draw.x, draw.y, draw.n, draw.nn, draw.nnn), (0xD, 1, 2, 5, 0x25, 0x125));
}
