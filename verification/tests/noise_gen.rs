use yardland::noise::{Lfsr, LFSR_SEED};

/// The shift-register step, written out independently of the library.
fn reference_shift(reg: u16) -> u16 {
    let bit1 = (reg & 0b0000000000000010) >> 1;
    let bit7 = (reg & 0b0000000010000000) >> (7 + bit1);
    let bit12 = (reg & 0b0001000000000000) >> 12;
    let bit15 = (reg & 0b1000000000000000) >> (15 - bit12);

    let next1 = bit1 ^ bit7;
    let next2 = bit12 ^ bit15;

    let mut out = reg >> 2;
    out |= next1 << 14;
    out |= next2 << 15;
    out
}

fn reference_gen(reg: &mut u16) -> u8 {
    for _ in 0..(*reg as u8 & 0xF) {
        *reg = reference_shift(*reg);
    }
    *reg as u8
}

#[test]
fn noise_matches_reference_sequence() {
    let mut lfsr = Lfsr::new();
    let mut reg = LFSR_SEED;
    for _ in 0..64 {
        assert_eq!(lfsr.gen(), reference_gen(&mut reg));
    }
}

#[test]
fn noise_is_deterministic_from_the_seed() {
    let mut a = Lfsr::new();
    let mut b = Lfsr::new();
    for _ in 0..16 {
        assert_eq!(a.gen(), b.gen());
    }
}
