use vstd::prelude::*;

use crate::bank::{spec_translate, BankSwitchUnit};
use crate::dma::{
    dma_transferb_r, dma_transferb_v, dma_transferb_vr, spec_dma, spec_dma_in_bounds,
};
use crate::errors::BusError;
use crate::physical::PhysicalMemory;

verus! {

/// Why the CPU core stopped stepping.
#[derive(Clone, Copy, Debug, PartialEq, Eq, Structural)]
pub enum StopReason {
    /// A coprocessor instruction was trapped and awaits dispatch.
    Coprocessor,
    /// The core waits for an interrupt to be delivered.
    WaitInterrupt,
    /// The core executed an explicit stop.
    Stop,
}

/// The stop reason encoded by the core's wire value, if any.
pub open spec fn spec_stop_reason_from_code(code: isize) -> Option<StopReason> {
    if code == 1 {
        Some(StopReason::Coprocessor)
    } else if code == 2 {
        Some(StopReason::WaitInterrupt)
    } else if code == 3 {
        Some(StopReason::Stop)
    } else {
        None
    }
}

/// Decodes the core's stop-reason wire value.
pub fn stop_reason_from_code(code: isize) -> (r: Option<StopReason>)
    ensures
        r == spec_stop_reason_from_code(code),
{
    if code == 1 {
        Some(StopReason::Coprocessor)
    } else if code == 2 {
        Some(StopReason::WaitInterrupt)
    } else if code == 3 {
        Some(StopReason::Stop)
    } else {
        None
    }
}

/// The operations a trapped coprocessor instruction can request.
#[derive(Clone, Copy, Debug, PartialEq, Eq, Structural)]
pub enum CoprocessorOpcode {
    /// Rewrite bank table entries from `{virtual, real}` argument pairs.
    MmuMapBanks,
    /// DMA with translated source and direct destination.
    MmuDmaTransferBVR,
    /// DMA with source and destination both translated.
    MmuDmaTransferBV,
    /// DMA with source and destination both direct.
    MmuDmaTransferBR,
}

/// The opcode encoded by the core's wire value, if any.
pub open spec fn spec_opcode_from_code(code: u8) -> Option<CoprocessorOpcode> {
    if code == 0 {
        Some(CoprocessorOpcode::MmuMapBanks)
    } else if code == 1 {
        Some(CoprocessorOpcode::MmuDmaTransferBVR)
    } else if code == 2 {
        Some(CoprocessorOpcode::MmuDmaTransferBV)
    } else if code == 3 {
        Some(CoprocessorOpcode::MmuDmaTransferBR)
    } else {
        None
    }
}

/// Decodes the core's coprocessor opcode wire value.
pub fn opcode_from_code(code: u8) -> (r: Option<CoprocessorOpcode>)
    ensures
        r == spec_opcode_from_code(code),
{
    if code == 0 {
        Some(CoprocessorOpcode::MmuMapBanks)
    } else if code == 1 {
        Some(CoprocessorOpcode::MmuDmaTransferBVR)
    } else if code == 2 {
        Some(CoprocessorOpcode::MmuDmaTransferBV)
    } else if code == 3 {
        Some(CoprocessorOpcode::MmuDmaTransferBR)
    } else {
        None
    }
}

/// One trapped coprocessor instruction: an opcode and its argument words,
/// consumed immediately by the dispatcher.
pub struct CoprocessorInst {
    pub opcode: CoprocessorOpcode,
    pub args: Vec<u16>,
}

/// The CPU core's configuration as the dispatch loop sees it.
pub struct Processor {
    pub trace: bool,
}

/// What the dispatch loop does next after the core stops.
#[derive(Clone, Copy, Debug, PartialEq, Eq, Structural)]
pub enum LoopAction {
    /// Fetch and dispatch the trapped coprocessor instruction, then resume.
    HandleCoprocessor,
    /// Deliver an interrupt, then resume.
    DeliverInterrupt,
    /// Leave the dispatch loop.
    Halt,
}

/// The dispatch loop's decision for a stop reason: a coprocessor trap is
/// dispatched, a wait-for-interrupt gets an interrupt delivered, and an
/// explicit stop — or no reason at all — ends the loop.
pub fn next_action(reason: Option<StopReason>) -> (r: LoopAction)
    ensures
        reason == Some(StopReason::Coprocessor) <==> r == LoopAction::HandleCoprocessor,
        reason == Some(StopReason::WaitInterrupt) <==> r == LoopAction::DeliverInterrupt,
        reason == Some(StopReason::Stop) || reason is None <==> r == LoopAction::Halt,
{
    match reason {
        Some(StopReason::Coprocessor) => LoopAction::HandleCoprocessor,
        Some(StopReason::WaitInterrupt) => LoopAction::DeliverInterrupt,
        Some(StopReason::Stop) => LoopAction::Halt,
        None => LoopAction::Halt,
    }
}

/// A 32-bit operand assembled from two 16-bit argument words, low half first.
pub open spec fn spec_word_pair(lsb: u16, msb: u16) -> u32 {
    ((msb as int) * 0x10000 + lsb as int) as u32
}

/// Assembles a 32-bit operand from its low and high argument words.
pub fn words_to_u32(lsb: u16, msb: u16) -> (r: u32)
    ensures
        r == spec_word_pair(lsb, msb),
{
    proof {
        assert((msb as u32) << 16u32 == (msb as u32) * 0x10000) by (bit_vector);
    }
    ((msb as u32) << 16u32) + lsb as u32
}

/// Whether the instruction's argument count is well formed: `MmuMapBanks`
/// takes any even number of words, each DMA variant exactly six. A malformed
/// count indicates corrupted emulated control flow and is fatal, so the
/// dispatcher refuses to run on it.
pub open spec fn spec_inst_args_ok(inst: CoprocessorInst) -> bool {
    match inst.opcode {
        CoprocessorOpcode::MmuMapBanks => inst.args@.len() % 2 == 0,
        _ => inst.args@.len() == 6,
    }
}

/// Checks the instruction's argument count, so a caller can stop the run
/// before dispatching a corrupted instruction.
pub fn inst_args_ok(inst: &CoprocessorInst) -> (r: bool)
    ensures
        r == spec_inst_args_ok(*inst),
{
    match inst.opcode {
        CoprocessorOpcode::MmuMapBanks => inst.args.len() % 2 == 0,
        _ => inst.args.len() == 6,
    }
}

/// The bank table after applying the first `n` argument words as
/// `{virtual, real}` pairs, in order; the virtual word is truncated to its
/// low byte.
pub open spec fn spec_map_banks_upto(t: Seq<u16>, args: Seq<u16>, n: int) -> Seq<u16>
    decreases n,
{
    if n <= 1 {
        t
    } else {
        spec_map_banks_upto(t, args, n - 2).update((args[n - 2] % 256) as int, args[n - 1])
    }
}

/// The bank table after applying all argument pairs of a `MmuMapBanks`
/// instruction.
pub open spec fn spec_map_banks(t: Seq<u16>, args: Seq<u16>) -> Seq<u16> {
    spec_map_banks_upto(t, args, args.len() as int)
}

/// Dispatches one trapped coprocessor instruction: `MmuMapBanks` rewrites
/// the bank table pair by pair; each DMA variant assembles `{src, dest,
/// size}` from little-endian word halves and runs the matching transfer,
/// whose out-of-range failure is propagated.
pub fn handle_coprocessor_inst(
    mem: &mut PhysicalMemory,
    banks: &mut BankSwitchUnit,
    inst: &CoprocessorInst,
) -> (r: Result<(), BusError>)
    requires
        old(banks).wf(),
        spec_inst_args_ok(*inst),
    ensures
        final(banks).wf(),
        inst.opcode is MmuMapBanks ==> final(mem)@ == old(mem)@ && final(banks)@ == spec_map_banks(
            old(banks)@,
            inst.args@,
        ) && r == Ok::<(), BusError>(()),
        inst.opcode is MmuDmaTransferBVR ==> final(banks)@ == old(banks)@ && ({
            let src = spec_word_pair(inst.args@[0], inst.args@[1]);
            let dest = spec_word_pair(inst.args@[2], inst.args@[3]);
            let size = spec_word_pair(inst.args@[4], inst.args@[5]);
            let rsrc = spec_translate(old(banks)@, src);
            &&& spec_dma_in_bounds(old(mem)@, rsrc, dest, size) ==> r == Ok::<(), BusError>(())
                && final(mem)@ == spec_dma(old(mem)@, rsrc as int, dest as int, size as int)
            &&& !spec_dma_in_bounds(old(mem)@, rsrc, dest, size) ==> r == Err::<(), BusError>(
                BusError::AddressOutOfBounds,
            ) && final(mem)@ == old(mem)@
        }),
        inst.opcode is MmuDmaTransferBV ==> final(banks)@ == old(banks)@ && ({
            let src = spec_word_pair(inst.args@[0], inst.args@[1]);
            let dest = spec_word_pair(inst.args@[2], inst.args@[3]);
            let size = spec_word_pair(inst.args@[4], inst.args@[5]);
            let rsrc = spec_translate(old(banks)@, src);
            let rdest = spec_translate(old(banks)@, dest);
            &&& spec_dma_in_bounds(old(mem)@, rsrc, rdest, size) ==> r == Ok::<(), BusError>(())
                && final(mem)@ == spec_dma(old(mem)@, rsrc as int, rdest as int, size as int)
            &&& !spec_dma_in_bounds(old(mem)@, rsrc, rdest, size) ==> r == Err::<(), BusError>(
                BusError::AddressOutOfBounds,
            ) && final(mem)@ == old(mem)@
        }),
        inst.opcode is MmuDmaTransferBR ==> final(banks)@ == old(banks)@ && ({
            let src = spec_word_pair(inst.args@[0], inst.args@[1]);
            let dest = spec_word_pair(inst.args@[2], inst.args@[3]);
            let size = spec_word_pair(inst.args@[4], inst.args@[5]);
            &&& spec_dma_in_bounds(old(mem)@, src, dest, size) ==> r == Ok::<(), BusError>(())
                && final(mem)@ == spec_dma(old(mem)@, src as int, dest as int, size as int)
            &&& !spec_dma_in_bounds(old(mem)@, src, dest, size) ==> r == Err::<(), BusError>(
                BusError::AddressOutOfBounds,
            ) && final(mem)@ == old(mem)@
        }),
{
    match inst.opcode {
        CoprocessorOpcode::MmuMapBanks => {
            let n = inst.args.len();
            let mut i: usize = 0;
            while i < n
                invariant
                    i <= n,
                    i % 2 == 0,
                    n % 2 == 0,
                    n == inst.args@.len(),
                    banks.wf(),
                    banks@ == spec_map_banks_upto(old(banks)@, inst.args@, i as int),
                decreases n - i,
            {
                let virt = (inst.args[i] % 256) as u8;
                let real_bank = inst.args[i + 1];
                banks.map_bank(virt, real_bank);
                i = i + 2;
            }
            Ok(())
        },
        CoprocessorOpcode::MmuDmaTransferBVR => {
            let src = words_to_u32(inst.args[0], inst.args[1]);
            let dest = words_to_u32(inst.args[2], inst.args[3]);
            let size = words_to_u32(inst.args[4], inst.args[5]);
            dma_transferb_vr(mem, banks, src, dest, size)
        },
        CoprocessorOpcode::MmuDmaTransferBV => {
            let src = words_to_u32(inst.args[0], inst.args[1]);
            let dest = words_to_u32(inst.args[2], inst.args[3]);
            let size = words_to_u32(inst.args[4], inst.args[5]);
            dma_transferb_v(mem, banks, src, dest, size)
        },
        CoprocessorOpcode::MmuDmaTransferBR => {
            let src = words_to_u32(inst.args[0], inst.args[1]);
            let dest = words_to_u32(inst.args[2], inst.args[3]);
            let size = words_to_u32(inst.args[4], inst.args[5]);
            dma_transferb_r(mem, src, dest, size)
        },
    }
}

/// Mapping bank pairs never touches the store, and a `MmuMapBanks`
/// instruction with words `[v, r]` maps exactly virtual bank `v % 256` to
/// real bank `r`: one pair rewrites one table entry.
pub proof fn lemma_map_banks_single_pair(t: Seq<u16>, v: u16, r: u16)
    ensures
        spec_map_banks(t, seq![v, r]) == t.update((v % 256) as int, r),
{
    let args = seq![v, r];
    assert(spec_map_banks_upto(t, args, 2) == spec_map_banks_upto(t, args, 0).update(
        (args[0] % 256) as int,
        args[1],
    ));
}

} // verus!
