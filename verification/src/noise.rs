use vstd::prelude::*;

verus! {

/// The seed value the shift register starts from.
pub const LFSR_SEED: u16 = 0b1010101011001011;

/// One step of the feedback shift register: two feedback bits are computed
/// from taps 1, 7, 12 and 15 (the tap positions themselves nudged by the
/// neighbouring bit), the register shifts right by two, and the feedback
/// bits enter at the top.
pub open spec fn spec_lfsr_shift(reg: u16) -> u16 {
    let bit1 = (reg & 0x0002) >> 1u16;
    let bit7 = (reg & 0x0080) >> (7 + bit1) as u16;
    let bit12 = (reg & 0x1000) >> 12u16;
    let bit15 = (reg & 0x8000) >> (15 - bit12) as u16;
    let next1 = bit1 ^ bit7;
    let next2 = bit12 ^ bit15;
    ((reg >> 2u16) | (next1 << 14u16)) | (next2 << 15u16)
}

/// The register after `n` shift steps.
pub open spec fn spec_lfsr_iter(reg: u16, n: nat) -> u16
    decreases n,
{
    if n == 0 {
        reg
    } else {
        spec_lfsr_shift(spec_lfsr_iter(reg, (n - 1) as nat))
    }
}

/// A feedback-shift-register noise generator.
pub struct Lfsr {
    reg: u16,
}

impl View for Lfsr {
    type V = u16;

    closed spec fn view(&self) -> u16 {
        self.reg
    }
}

impl Lfsr {
    /// A generator starting from the fixed seed.
    pub fn new() -> (r: Self)
        ensures
            r@ == LFSR_SEED,
    {
        Lfsr { reg: LFSR_SEED }
    }

    /// Advances the register by one shift step.
    fn shift(&mut self)
        ensures
            final(self)@ == spec_lfsr_shift(old(self)@),
    {
        let reg = self.reg;
        proof {
            assert((reg & 0x0002) >> 1u16 <= 1 && (reg & 0x1000) >> 12u16 <= 1) by (bit_vector);
        }
        let bit1 = (reg & 0x0002) >> 1u16;
        let bit7 = (reg & 0x0080) >> (7 + bit1);
        let bit12 = (reg & 0x1000) >> 12u16;
        let bit15 = (reg & 0x8000) >> (15 - bit12);
        let next1 = bit1 ^ bit7;
        let next2 = bit12 ^ bit15;
        self.reg = ((reg >> 2u16) | (next1 << 14u16)) | (next2 << 15u16);
    }

    /// Draws the next noise byte: the register steps as many times as its
    /// current low nibble says, and the low byte of the result is returned.
    pub fn gen(&mut self) -> (r: u8)
        ensures
            final(self)@ == spec_lfsr_iter(old(self)@, (old(self)@ % 16) as nat),
            r == (final(self)@ % 256) as u8,
    {
        let count = self.reg % 16;
        let mut k: u16 = 0;
        while k < count
            invariant
                k <= count,
                count == old(self)@ % 16,
                self@ == spec_lfsr_iter(old(self)@, k as nat),
            decreases count - k,
        {
            self.shift();
            k = k + 1;
        }
        (self.reg % 256) as u8
    }
}

} // verus!
