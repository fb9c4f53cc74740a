use vstd::prelude::*;

use crate::bank::{spec_translate, BankSwitchUnit};
use crate::errors::BusError;
use crate::physical::PhysicalMemory;

verus! {

/// The store after copying `size` bytes from `src` to `dest`: the destination
/// range holds the bytes the source range held *before* the copy — the result
/// of a copy staged through a scratch buffer — and everything else is
/// unchanged. This is the reference semantics even when the ranges overlap.
pub open spec fn spec_dma(mem: Seq<u8>, src: int, dest: int, size: int) -> Seq<u8>
    recommends
        0 <= src,
        0 <= dest,
        src + size <= mem.len(),
        dest + size <= mem.len(),
{
    Seq::new(
        mem.len(),
        |i: int| if dest <= i < dest + size { mem[src + (i - dest)] } else { mem[i] },
    )
}

/// Whether both the source and the destination range fit in the store.
pub open spec fn spec_dma_in_bounds(mem: Seq<u8>, src: u32, dest: u32, size: u32) -> bool {
    src + size <= mem.len() && dest + size <= mem.len()
}

/// Copies `size` bytes from real address `src` to real address `dest`,
/// staged through a scratch buffer so overlapping ranges behave as if the
/// whole source were read before the first byte is written.
pub fn dma_transferb(mem: &mut PhysicalMemory, src: u32, dest: u32, size: u32) -> (r: Result<
    (),
    BusError,
>)
    ensures
        spec_dma_in_bounds(old(mem)@, src, dest, size) ==> r == Ok::<(), BusError>(())
            && final(mem)@ == spec_dma(old(mem)@, src as int, dest as int, size as int),
        !spec_dma_in_bounds(old(mem)@, src, dest, size) ==> r == Err::<(), BusError>(
            BusError::AddressOutOfBounds,
        ) && final(mem)@ == old(mem)@,
{
    let len = mem.len() as u64;
    if src as u64 + size as u64 > len || dest as u64 + size as u64 > len {
        return Err(BusError::AddressOutOfBounds);
    }
    let size = size as usize;
    let src = src as usize;
    let dest = dest as usize;

    let mut scratch: Vec<u8> = Vec::new();
    let mut j: usize = 0;
    while j < size
        invariant
            j <= size,
            src + size <= mem@.len(),
            mem@.len() <= usize::MAX,
            scratch@.len() == j,
            forall|k: int| 0 <= k < j ==> scratch@[k] == mem@[src + k],
        decreases size - j,
    {
        let b = match mem.read_u8(src + j) {
            Ok(b) => b,
            Err(_) => {
                proof {
                    assert(false);
                }
                0
            },
        };
        scratch.push(b);
        j = j + 1;
    }

    let mut j: usize = 0;
    while j < size
        invariant
            j <= size,
            dest + size <= mem@.len(),
            mem@.len() <= usize::MAX,
            mem@.len() == old(mem)@.len(),
            scratch@.len() == size,
            forall|k: int| 0 <= k < size ==> scratch@[k] == old(mem)@[src + k],
            forall|i: int| dest <= i < dest + j ==> mem@[i] == old(mem)@[src + (i - dest)],
            forall|i: int|
                0 <= i < mem@.len() && !(dest <= i < dest + j) ==> mem@[i] == old(mem)@[i],
        decreases size - j,
    {
        let b = scratch[j];
        let ok = mem.write_u8(dest + j, b);
        proof {
            assert(ok is Ok);
        }
        j = j + 1;
    }
    proof {
        assert(mem@ =~= spec_dma(old(mem)@, src as int, dest as int, size as int));
    }
    Ok(())
}

/// DMA variant VR: the source address is translated through the bank table,
/// the destination is used directly.
pub fn dma_transferb_vr(
    mem: &mut PhysicalMemory,
    banks: &BankSwitchUnit,
    src: u32,
    dest: u32,
    size: u32,
) -> (r: Result<(), BusError>)
    requires
        banks.wf(),
    ensures
        ({
            let rsrc = spec_translate(banks@, src);
            &&& spec_dma_in_bounds(old(mem)@, rsrc, dest, size) ==> r == Ok::<(), BusError>(())
                && final(mem)@ == spec_dma(old(mem)@, rsrc as int, dest as int, size as int)
            &&& !spec_dma_in_bounds(old(mem)@, rsrc, dest, size) ==> r == Err::<(), BusError>(
                BusError::AddressOutOfBounds,
            ) && final(mem)@ == old(mem)@
        }),
{
    let real_src = banks.real_address(src);
    dma_transferb(mem, real_src, dest, size)
}

/// DMA variant V: source and destination are both translated, independently,
/// through the bank table.
pub fn dma_transferb_v(
    mem: &mut PhysicalMemory,
    banks: &BankSwitchUnit,
    src: u32,
    dest: u32,
    size: u32,
) -> (r: Result<(), BusError>)
    requires
        banks.wf(),
    ensures
        ({
            let rsrc = spec_translate(banks@, src);
            let rdest = spec_translate(banks@, dest);
            &&& spec_dma_in_bounds(old(mem)@, rsrc, rdest, size) ==> r == Ok::<(), BusError>(())
                && final(mem)@ == spec_dma(old(mem)@, rsrc as int, rdest as int, size as int)
            &&& !spec_dma_in_bounds(old(mem)@, rsrc, rdest, size) ==> r == Err::<(), BusError>(
                BusError::AddressOutOfBounds,
            ) && final(mem)@ == old(mem)@
        }),
{
    let real_src = banks.real_address(src);
    let real_dest = banks.real_address(dest);
    dma_transferb(mem, real_src, real_dest, size)
}

/// DMA variant R: source and destination are both used directly, with no
/// translation.
pub fn dma_transferb_r(mem: &mut PhysicalMemory, src: u32, dest: u32, size: u32) -> (r: Result<
    (),
    BusError,
>)
    ensures
        spec_dma_in_bounds(old(mem)@, src, dest, size) ==> r == Ok::<(), BusError>(())
            && final(mem)@ == spec_dma(old(mem)@, src as int, dest as int, size as int),
        !spec_dma_in_bounds(old(mem)@, src, dest, size) ==> r == Err::<(), BusError>(
            BusError::AddressOutOfBounds,
        ) && final(mem)@ == old(mem)@,
{
    dma_transferb(mem, src, dest, size)
}

/// Reads the byte at a virtual address, translated through the bank table.
pub fn readb(mem: &PhysicalMemory, banks: &BankSwitchUnit, addr: u32) -> (r: Result<u8, BusError>)
    requires
        banks.wf(),
    ensures
        spec_translate(banks@, addr) < mem@.len() ==> r == Ok::<u8, BusError>(
            mem@[spec_translate(banks@, addr) as int],
        ),
        spec_translate(banks@, addr) >= mem@.len() ==> r == Err::<u8, BusError>(
            BusError::AddressOutOfBounds,
        ),
{
    let real_addr = banks.real_address(addr);
    mem.read_u8(real_addr as usize)
}

/// Writes a byte to a virtual address, translated through the bank table.
pub fn writeb(mem: &mut PhysicalMemory, banks: &BankSwitchUnit, addr: u32, byte: u8) -> (r: Result<
    (),
    BusError,
>)
    requires
        banks.wf(),
    ensures
        spec_translate(banks@, addr) < old(mem)@.len() ==> r == Ok::<(), BusError>(())
            && final(mem)@ == old(mem)@.update(spec_translate(banks@, addr) as int, byte),
        spec_translate(banks@, addr) >= old(mem)@.len() ==> r == Err::<(), BusError>(
            BusError::AddressOutOfBounds,
        ) && final(mem)@ == old(mem)@,
{
    let real_addr = banks.real_address(addr);
    mem.write_u8(real_addr as usize, byte)
}

} // verus!
