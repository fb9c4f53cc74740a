use yardland::bank::BankSwitchUnit;
use yardland::cop::{
    handle_coprocessor_inst, inst_args_ok, next_action, opcode_from_code, stop_reason_from_code,
    words_to_u32, CoprocessorInst, CoprocessorOpcode, LoopAction, StopReason,
};
use yardland::dma::{dma_transferb, dma_transferb_r, dma_transferb_v, readb, writeb};
use yardland::errors::BusError;
use yardland::physical::PhysicalMemory;

#[test]
pub fn test_memory_rw_b() {
    let mut mem = PhysicalMemory::new(0x1000000);
    let banks = BankSwitchUnit::new();

    writeb(&mut mem, &banks, 0xFFFFFF, 0x5A).unwrap();
    writeb(&mut mem, &banks, 0x1000000, 0x5A).unwrap();

    assert_eq!(readb(&mem, &banks, 0xFFFFFF).unwrap(), 0x5A);
    assert_eq!(readb(&mem, &banks, 0x1000000).unwrap(), 0x5A);
}

#[test]
fn bank_table_defaults_to_identity() {
    let banks = BankSwitchUnit::new();
    assert_eq!(banks.real_address(0x00420099), 0x00420099);
    assert_eq!(banks.real_address(0x0000FFFF), 0x0000FFFF);
}

#[test]
fn map_bank_translates_virtual_accesses() {
    let mut banks = BankSwitchUnit::new();
    banks.map_bank(0x05, 0x1234);
    assert_eq!(banks.real_address(0x00050042), 0x12340042);
    // The low 16 bits pass through untranslated.
    assert_eq!(banks.real_address(0x0005FFFF), 0x1234FFFF);
    // Other banks keep their identity mapping.
    assert_eq!(banks.real_address(0x00060042), 0x00060042);
}

#[test]
fn dma_overlapping_matches_scratch_copy() {
    let mut mem = PhysicalMemory::new(16);
    for i in 0..10u8 {
        mem.write_u8(i as usize, i + 1).unwrap();
    }

    // Reference copy through an explicit scratch buffer.
    let mut expected: Vec<u8> = Vec::new();
    for i in 0..16usize {
        expected.push(mem.read_u8(i).unwrap());
    }
    let mut scratch: Vec<u8> = Vec::new();
    for i in 0..8usize {
        scratch.push(expected[i]);
    }
    for i in 0..8usize {
        expected[2 + i] = scratch[i];
    }

    dma_transferb(&mut mem, 0, 2, 8).unwrap();
    let got = mem.read_slice_u8(0, 16).unwrap();
    assert_eq!(got, expected);
}

#[test]
fn dma_out_of_range_fails_and_changes_nothing() {
    let mut mem = PhysicalMemory::new(8);
    mem.write_u8(0, 7).unwrap();
    assert_eq!(dma_transferb(&mut mem, 0, 4, 5), Err(BusError::AddressOutOfBounds));
    assert_eq!(dma_transferb_r(&mut mem, 6, 0, 3), Err(BusError::AddressOutOfBounds));
    assert_eq!(mem.read_u8(0).unwrap(), 7);
    assert_eq!(mem.read_u8(4).unwrap(), 0);
}

#[test]
fn dma_variants_translate_the_right_operands() {
    // 128 KB: banks 0 and 1 both lie in the store.
    let mut mem = PhysicalMemory::new(0x20000);
    let mut banks = BankSwitchUnit::new();
    banks.map_bank(0x05, 0x0001);

    mem.write_slice_u8(0x10000, &[9, 8, 7, 6]).unwrap();
    // VR: the source goes through bank 5 -> real bank 1, the destination is
    // direct.
    yardland::dma::dma_transferb_vr(&mut mem, &banks, 0x00050000, 0x20, 4).unwrap();
    assert_eq!(mem.read_slice_u8(0x20, 4).unwrap(), vec![9, 8, 7, 6]);

    // V: both ends translate through the table.
    dma_transferb_v(&mut mem, &banks, 0x00050000, 0x00050010, 4).unwrap();
    assert_eq!(mem.read_slice_u8(0x10010, 4).unwrap(), vec![9, 8, 7, 6]);
}

#[test]
fn coprocessor_map_banks_updates_the_table() {
    let mut mem = PhysicalMemory::new(16);
    let mut banks = BankSwitchUnit::new();
    let inst = CoprocessorInst {
        opcode: CoprocessorOpcode::MmuMapBanks,
        args: vec![0x05, 0x1234],
    };
    assert!(inst_args_ok(&inst));
    handle_coprocessor_inst(&mut mem, &mut banks, &inst).unwrap();
    assert_eq!(banks.real_address(0x00050010), 0x12340010);
}

#[test]
fn coprocessor_dma_resolves_through_mapped_bank() {
    let mut mem = PhysicalMemory::new(0x20000);
    let mut banks = BankSwitchUnit::new();

    // Map virtual bank 5 to real bank 1, then DMA from bank 5 addresses.
    let map = CoprocessorInst {
        opcode: CoprocessorOpcode::MmuMapBanks,
        args: vec![0x05, 0x0001],
    };
    handle_coprocessor_inst(&mut mem, &mut banks, &map).unwrap();

    mem.write_slice_u8(0x10000, &[0xAA, 0xBB]).unwrap();
    // src = 0x00050000 (bank 5), dest = 0x40, size = 2, as LE word halves.
    let dma = CoprocessorInst {
        opcode: CoprocessorOpcode::MmuDmaTransferBVR,
        args: vec![0x0000, 0x0005, 0x0040, 0x0000, 0x0002, 0x0000],
    };
    assert!(inst_args_ok(&dma));
    handle_coprocessor_inst(&mut mem, &mut banks, &dma).unwrap();
    assert_eq!(mem.read_slice_u8(0x40, 2).unwrap(), vec![0xAA, 0xBB]);
}

#[test]
fn coprocessor_dma_out_of_range_is_reported() {
    let mut mem = PhysicalMemory::new(16);
    let mut banks = BankSwitchUnit::new();
    // dest + size exceeds the 16-byte store.
    let dma = CoprocessorInst {
        opcode: CoprocessorOpcode::MmuDmaTransferBR,
        args: vec![0x0000, 0x0000, 0x000C, 0x0000, 0x0008, 0x0000],
    };
    assert_eq!(
        handle_coprocessor_inst(&mut mem, &mut banks, &dma),
        Err(BusError::AddressOutOfBounds)
    );
}

#[test]
fn malformed_argument_counts_are_refused() {
    let odd = CoprocessorInst {
        opcode: CoprocessorOpcode::MmuMapBanks,
        args: vec![0x05],
    };
    assert!(!inst_args_ok(&odd));
    let short = CoprocessorInst {
        opcode: CoprocessorOpcode::MmuDmaTransferBV,
        args: vec![1, 2, 3],
    };
    assert!(!inst_args_ok(&short));
}

#[test]
fn wire_codes_decode_exactly() {
    assert_eq!(stop_reason_from_code(1), Some(StopReason::Coprocessor));
    assert_eq!(stop_reason_from_code(2), Some(StopReason::WaitInterrupt));
    assert_eq!(stop_reason_from_code(3), Some(StopReason::Stop));
    assert_eq!(stop_reason_from_code(0), None);
    assert_eq!(stop_reason_from_code(-1), None);

    assert_eq!(opcode_from_code(0), Some(CoprocessorOpcode::MmuMapBanks));
    assert_eq!(opcode_from_code(1), Some(CoprocessorOpcode::MmuDmaTransferBVR));
    assert_eq!(opcode_from_code(2), Some(CoprocessorOpcode::MmuDmaTransferBV));
    assert_eq!(opcode_from_code(3), Some(CoprocessorOpcode::MmuDmaTransferBR));
    assert_eq!(opcode_from_code(4), None);

    assert_eq!(words_to_u32(0x1234, 0x0005), 0x00051234);
}

#[test]
fn dispatch_loop_actions() {
    assert_eq!(next_action(Some(StopReason::Coprocessor)), LoopAction::HandleCoprocessor);
    assert_eq!(next_action(Some(StopReason::WaitInterrupt)), LoopAction::DeliverInterrupt);
    assert_eq!(next_action(Some(StopReason::Stop)), LoopAction::Halt);
    assert_eq!(next_action(None), LoopAction::Halt);
}

#[test]
fn banked_byte_access_out_of_range_fails() {
    let mut mem = PhysicalMemory::new(16);
    let banks = BankSwitchUnit::new();
    // Bank 1 lies entirely outside a 16-byte store.
    assert_eq!(readb(&mem, &banks, 0x00010000), Err(BusError::AddressOutOfBounds));
    assert_eq!(writeb(&mut mem, &banks, 0x00010000, 1), Err(BusError::AddressOutOfBounds));
}
