use yardland::devices::{DeviceManager, IoDevice, KeyboardDevice, RomDevice};
use yardland::errors::BusError;
use yardland::memory::{BasicIo, Memory};

#[test]
fn manager_unmapped_reads_zero_and_writes_drop() {
    let mut manager = DeviceManager::new();
    manager.add_device(0, IoDevice::Memory(Memory::new(16)));

    // Outside every mapping: a read returns 0 and a write is a no-op.
    assert_eq!(manager.read_u8(100), 0);
    manager.write_u8(100, 0x7F);
    assert_eq!(manager.read_u8(100), 0);
    // The mapped device is untouched by the dropped write.
    assert_eq!(manager.read_u8(0), 0);
}

#[test]
fn manager_routes_to_first_matching_device() {
    let mut manager = DeviceManager::new();
    manager.add_device(0x10, IoDevice::Memory(Memory::new(16)));
    manager.add_device(0x10, IoDevice::Memory(Memory::new(32)));

    manager.write_u8(0x14, 0xAA);
    assert_eq!(manager.read_u8(0x14), 0xAA);
}

#[test]
fn manager_copy_into_slice_reads_device_bytes() {
    let mut manager = DeviceManager::new();
    manager.add_device(0x10, IoDevice::Memory(Memory::new(16)));
    manager.write_u8(0x12, 1);
    manager.write_u8(0x13, 2);

    let mut dest = vec![0u8; 4];
    manager.copy_into_slice(0x12, 4, &mut dest);
    assert_eq!(dest, vec![1, 2, 0, 0]);

    // A destination of the wrong length is left alone.
    let mut wrong = vec![9u8; 2];
    manager.copy_into_slice(0x12, 4, &mut wrong);
    assert_eq!(wrong, vec![9, 9]);

    // So is the destination for an unmapped address.
    let mut unmapped = vec![9u8; 4];
    manager.copy_into_slice(0x100, 4, &mut unmapped);
    assert_eq!(unmapped, vec![9, 9, 9, 9]);
}

#[test]
fn rom_writes_are_accepted_and_discarded() {
    let mut rom = RomDevice::from(vec![1, 2, 3, 4]);
    assert_eq!(rom.len(), 4);
    assert_eq!(rom.read_u8(1).unwrap(), 2);

    assert_eq!(rom.write_u8(1, 0xFF), Ok(()));
    assert_eq!(rom.write_u16(0, 0xFFFF), Ok(()));
    assert_eq!(rom.write_u64(0, u64::MAX), Ok(()));
    // Subsequent reads still see the original content.
    assert_eq!(rom.read_u8(1).unwrap(), 2);
    assert_eq!(rom.read_u32(0).unwrap(), 0x04030201);

    assert_eq!(rom.read_u8(4), Err(BusError::AddressOutOfBounds));
}

#[test]
fn rom_behind_manager_keeps_its_content() {
    let mut manager = DeviceManager::new();
    manager.add_device(8, IoDevice::Rom(RomDevice::from(vec![0xCA, 0xFE])));
    manager.write_u8(8, 0x00);
    manager.write_u8(9, 0x00);
    assert_eq!(manager.read_u8(8), 0xCA);
    assert_eq!(manager.read_u8(9), 0xFE);
}

#[test]
fn keyboard_reads_zero_and_refuses_writes() {
    let mut kbd = KeyboardDevice;
    assert_eq!(kbd.len(), 2);
    assert_eq!(kbd.read_u8(0).unwrap(), 0);
    assert_eq!(kbd.read_u8(1).unwrap(), 0);
    // Reads return 0 for every offset, even past the extent.
    assert_eq!(kbd.read_u8(7).unwrap(), 0);
    assert_eq!(kbd.read_u16(1).unwrap(), 0);
    assert_eq!(kbd.write_u8(0, 1), Err(BusError::Unsupported));
    assert_eq!(kbd.write_u32(0, 1), Err(BusError::Unsupported));
}

#[test]
fn memory_word_backing_is_byte_addressable() {
    let mut memory = Memory::new(32);
    assert_eq!(memory.len(), 32);

    memory.write_u64(0, 0x0807060504030201).unwrap();
    assert_eq!(memory.read_u8(0).unwrap(), 0x01);
    assert_eq!(memory.read_u8(7).unwrap(), 0x08);
    assert_eq!(memory.read_u16(2).unwrap(), 0x0403);

    // A 32-bit write spanning two backing words lands byte for byte.
    memory.write_u32(6, 0xDDCCBBAA).unwrap();
    assert_eq!(memory.read_u8(6).unwrap(), 0xAA);
    assert_eq!(memory.read_u8(7).unwrap(), 0xBB);
    assert_eq!(memory.read_u8(8).unwrap(), 0xCC);
    assert_eq!(memory.read_u8(9).unwrap(), 0xDD);
    assert_eq!(memory.read_u32(6).unwrap(), 0xDDCCBBAA);
    // Neighbouring bytes survive the straddling write.
    assert_eq!(memory.read_u8(5).unwrap(), 0x06);
    assert_eq!(memory.read_u8(10).unwrap(), 0x00);

    assert_eq!(memory.read_u8(32), Err(BusError::AddressOutOfBounds));
    assert_eq!(memory.write_u16(31, 1), Err(BusError::AddressOutOfBounds));
}

#[test]
fn memory_new_from_ref_wraps_existing_words() {
    let memory = Memory::new_from_ref(vec![0x0807060504030201u64, 0x1817161514131211u64]);
    assert_eq!(memory.len(), 16);
    assert_eq!(memory.read_u8(0).unwrap(), 0x01);
    assert_eq!(memory.read_u8(8).unwrap(), 0x11);
    assert_eq!(memory.read_u64(8).unwrap(), 0x1817161514131211);
}

#[test]
fn memory_copy_into_slice_matches_reads() {
    let memory = Memory::new_from_ref(vec![0x0807060504030201u64]);
    let mut dest = vec![0u8; 4];
    memory.copy_into_slice(2, 4, &mut dest).unwrap();
    assert_eq!(dest, vec![3, 4, 5, 6]);

    let mut wrong = vec![0u8; 3];
    assert_eq!(memory.copy_into_slice(2, 4, &mut wrong), Err(BusError::InvalidAddress));
    assert_eq!(memory.copy_into_slice(6, 4, &mut dest), Err(BusError::AddressOutOfBounds));
}
