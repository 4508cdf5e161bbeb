use chip8::Instr;
use chip8::decode::combine_nibbles;
use chip8::decode::decode;
use chip8::decode::word_nibbles;

#[test]
fn nibbles_recombine_losslessly() {
    let words: Vec<u16> = vec![0x0000, 0x00E0, 0x00EE, 0x1234, 0x8124, 0xABCD, 0xD015, 0xFFFF];
    for w in words {
        let (n0, n1, n2, n3) = word_nibbles(w);
        assert!(n0 < 16 && n1 < 16 && n2 < 16 && n3 < 16);
        assert_eq!(combine_nibbles(n0, n1, n2, n3), w);
    }
}

#[test]
fn nibbles_recombine_every_word() {
    let mut w: u32 = 0;
    while w <= 0xFFFF {
        let (n0, n1, n2, n3) = word_nibbles(w as u16);
        assert_eq!(combine_nibbles(n0, n1, n2, n3), w as u16);
        w += 1;
    }
}

#[test]
fn decode_classifies_known_opcodes() {
    assert_eq!(decode(0x0000), Instr::Nop);
    assert_eq!(decode(0x00E0), Instr::Cls);
    assert_eq!(decode(0x00EE), Instr::Ret);
    assert_eq!(decode(0x1234), Instr::Jump(0x234));
    assert_eq!(decode(0x2ABC), Instr::Call(0xABC));
    assert_eq!(decode(0x3A42), Instr::SkipEqImm(0xA, 0x42));
    assert_eq!(decode(0x4A42), Instr::SkipNeImm(0xA, 0x42));
    assert_eq!(decode(0x5120), Instr::SkipEqReg(1, 2));
    assert_eq!(decode(0x6A42), Instr::LoadImm(0xA, 0x42));
    assert_eq!(decode(0x7A42), Instr::AddImm(0xA, 0x42));
    assert_eq!(decode(0x8120), Instr::Move(1, 2));
    assert_eq!(decode(0x8121), Instr::Or(1, 2));
    assert_eq!(decode(0x8122), Instr::And(1, 2));
    assert_eq!(decode(0x8123), Instr::Xor(1, 2));
    assert_eq!(decode(0x8124), Instr::AddReg(1, 2));
    assert_eq!(decode(0x8125), Instr::SubReg(1, 2));
    assert_eq!(decode(0x8126), Instr::ShiftRight(1));
    assert_eq!(decode(0x8127), Instr::SubRev(1, 2));
    assert_eq!(decode(0x812E), Instr::ShiftLeft(1));
    assert_eq!(decode(0x9120), Instr::SkipNeReg(1, 2));
    assert_eq!(decode(0xA123), Instr::LoadIndex(0x123));
    assert_eq!(decode(0xB123), Instr::JumpOffset(0x123));
    assert_eq!(decode(0xC17B), Instr::Random(1, 0x7B));
    assert_eq!(decode(0xD125), Instr::Draw(1, 2, 5));
    assert_eq!(decode(0xE19E), Instr::SkipKey(1));
    assert_eq!(decode(0xE1A1), Instr::SkipNoKey(1));
    assert_eq!(decode(0xF107), Instr::ReadDelay(1));
    assert_eq!(decode(0xF10A), Instr::WaitKey(1));
    assert_eq!(decode(0xF115), Instr::SetDelay(1));
    assert_eq!(decode(0xF118), Instr::SetSound(1));
    assert_eq!(decode(0xF11E), Instr::AddIndex(1));
    assert_eq!(decode(0xF129), Instr::FontAddr(1));
    assert_eq!(decode(0xF133), Instr::StoreBcd(1));
    assert_eq!(decode(0xF155), Instr::StoreRegs(1));
    assert_eq!(decode(0xF165), Instr::LoadRegs(1));
}

#[test]
fn decode_rejects_unknown_patterns() {
    assert_eq!(decode(0x0123), Instr::Unknown);
    assert_eq!(decode(0x5121), Instr::Unknown);
    assert_eq!(decode(0x8128), Instr::Unknown);
    assert_eq!(decode(0x9121), Instr::Unknown);
    assert_eq!(decode(0xE100), Instr::Unknown);
    assert_eq!(decode(0xF100), Instr::Unknown);
    assert_eq!(decode(0xFFFF), Instr::Unknown);
}
