use vstd::prelude::*;

verus! {

/// Number of entries in the bank indirection table, one per virtual bank.
pub const BANK_COUNT: usize = 256;

/// The virtual bank selected by a 24-bit-style virtual address: its top byte.
pub open spec fn spec_virtual_bank(address: u32) -> u8 {
    ((address >> 16u32) & 0xFF) as u8
}

/// The real address that `address` resolves to under bank table `table`:
/// the table entry for the virtual bank, shifted into the top half, joined
/// with the untranslated low 16 bits.
pub open spec fn spec_translate(table: Seq<u16>, address: u32) -> u32
    recommends
        table.len() == BANK_COUNT,
{
    ((table[spec_virtual_bank(address) as int] as u32) << 16u32) | (address & 0xFFFF)
}

/// Virtual-to-real address translation through a per-bank indirection table.
///
/// The table always has one 16-bit entry per virtual bank (0 to 255) and
/// starts as the identity mapping.
pub struct BankSwitchUnit {
    table: Vec<u16>,
}

impl View for BankSwitchUnit {
    type V = Seq<u16>;

    closed spec fn view(&self) -> Seq<u16> {
        self.table@
    }
}

impl BankSwitchUnit {
    /// A bank table mapping every virtual bank to itself.
    pub fn new() -> (r: Self)
        ensures
            r@.len() == BANK_COUNT,
            forall|i: int| 0 <= i < BANK_COUNT ==> r@[i] == i,
    {
        let mut table: Vec<u16> = Vec::new();
        let mut n: usize = 0;
        while n < BANK_COUNT
            invariant
                n <= BANK_COUNT,
                table@.len() == n,
                forall|i: int| 0 <= i < n ==> table@[i] == i,
            decreases BANK_COUNT - n,
        {
            table.push(n as u16);
            n = n + 1;
        }
        BankSwitchUnit { table }
    }

    /// The table always keeps one entry per virtual bank.
    pub open spec fn wf(&self) -> bool {
        self@.len() == BANK_COUNT
    }

    /// Overwrites the entry for virtual bank `virt` with the real bank `real_bank`,
    /// immediately and unconditionally.
    pub fn map_bank(&mut self, virt: u8, real_bank: u16)
        requires
            old(self).wf(),
        ensures
            final(self).wf(),
            final(self)@ == old(self)@.update(virt as int, real_bank),
    {
        self.table[virt as usize] = real_bank;
    }

    /// Translates a virtual address to a real address through the table.
    pub fn real_address(&self, address: u32) -> (r: u32)
        requires
            self.wf(),
        ensures
            r == spec_translate(self@, address),
    {
        let bank = ((address >> 16u32) & 0xFF) as usize;
        assert(bank < BANK_COUNT) by (bit_vector)
            requires
                bank == ((address >> 16u32) & 0xFF) as usize,
        ;
        let real_bank = self.table[bank];
        ((real_bank as u32) << 16u32) | (address & 0xFFFF)
    }
}

/// Mapping a bank and then accessing a virtual address in that bank resolves
/// to the mapped real bank joined with the untranslated 16-bit offset.
pub proof fn lemma_map_bank_translate(table: Seq<u16>, virt: u8, real_bank: u16, offset: u16)
    requires
        table.len() == BANK_COUNT,
    ensures
        spec_translate(
            table.update(virt as int, real_bank),
            ((virt as u32) << 16u32) | (offset as u32),
        ) == ((real_bank as u32) << 16u32) | (offset as u32),
{
    let address = ((virt as u32) << 16u32) | (offset as u32);
    assert(((address >> 16u32) & 0xFF) as u8 == virt) by (bit_vector)
        requires
            address == ((virt as u32) << 16u32) | (offset as u32),
    ;
    assert(address & 0xFFFF == offset as u32) by (bit_vector)
        requires
            address == ((virt as u32) << 16u32) | (offset as u32),
    ;
}

} // verus!
