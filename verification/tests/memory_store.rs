use yardland::errors::BusError;
use yardland::physical::{PhysicalMemory, MEMORY_SIZE};

#[test]
fn test_memory_read_write() {
    let mut memory = PhysicalMemory::default();

    memory.write_u8(0, 0x12).unwrap();
    memory.write_u8(1, 0x34).unwrap();
    memory.write_u8(2, 0x56).unwrap();
    memory.write_u8(3, 0x78).unwrap();

    assert_eq!(memory.read_u8(0).unwrap(), 0x12);
    assert_eq!(memory.read_u8(1).unwrap(), 0x34);
    assert_eq!(memory.read_u8(2).unwrap(), 0x56);
    assert_eq!(memory.read_u8(3).unwrap(), 0x78);

    assert_eq!(memory.read_u8(0).unwrap(), 0x12);
    assert_eq!(memory.read_u8(1).unwrap(), 0x34);
    assert_eq!(memory.read_u8(2).unwrap(), 0x56);
    assert_eq!(memory.read_u8(3).unwrap(), 0x78);
}

#[test]
fn test_memory_read_write_slice() {
    let mut memory = PhysicalMemory::default();

    memory.write_slice_u8(0, &[0x12, 0x34, 0x56, 0x78]).unwrap();

    assert_eq!(memory.read_u32(0).unwrap(), 0x78563412);
}

#[test]
fn test_memory_read_write_slice_unaligned() {
    let mut memory = PhysicalMemory::default();

    memory.write_slice_u8(0, &[0x12, 0x34, 0x56, 0x78, 0x9A]).unwrap();

    assert_eq!(memory.read_u32(0).unwrap(), 0x78563412);
}

#[test]
fn test_memory_read_write_slice_type() {
    let mut memory = PhysicalMemory::default();

    memory.write_slice_u8(0, "Hello, World!".as_bytes()).unwrap();

    let v = memory.read_slice_u8(0, 13).unwrap();

    assert_eq!(v.as_slice(), "Hello, World!".as_bytes());
}

#[test]
fn test_memory_read_write_type() {
    let mut memory = PhysicalMemory::default();

    memory.write_u32(0, 0x78563412).unwrap();

    assert_eq!(memory.read_u32(0).unwrap(), 0x78563412);
}

#[test]
fn physical_default_is_zeroed_and_sized() {
    let memory = PhysicalMemory::default();
    assert_eq!(memory.len(), MEMORY_SIZE);
    assert_eq!(memory.read_u8(0).unwrap(), 0);
    assert_eq!(memory.read_u8(MEMORY_SIZE - 1).unwrap(), 0);
}

#[test]
fn physical_u16_u64_little_endian() {
    let mut memory = PhysicalMemory::new(32);
    memory.write_u16(0, 0xBEEF).unwrap();
    assert_eq!(memory.read_u8(0).unwrap(), 0xEF);
    assert_eq!(memory.read_u8(1).unwrap(), 0xBE);
    assert_eq!(memory.read_u16(0).unwrap(), 0xBEEF);

    memory.write_u64(8, 0x0807060504030201).unwrap();
    assert_eq!(memory.read_u8(8).unwrap(), 0x01);
    assert_eq!(memory.read_u8(15).unwrap(), 0x08);
    assert_eq!(memory.read_u64(8).unwrap(), 0x0807060504030201);
    assert_eq!(memory.read_u32(10).unwrap(), 0x06050403);
}

#[test]
fn physical_typed_slice_read_discards_trailing_bytes() {
    let mut memory = PhysicalMemory::new(16);
    memory
        .write_slice_u8(0, &[0x12, 0x34, 0x56, 0x78, 0x9A, 0xBC, 0xDE, 0xF0, 0x11, 0x22])
        .unwrap();

    // Ten requested bytes yield two 32-bit values; the last two bytes are
    // silently discarded.
    let values = memory.read_slice_u32(0, 10).unwrap();
    assert_eq!(values, vec![0x78563412, 0xF0DEBC9A]);

    assert_eq!(
        memory.read_slice_u32(8, 9).unwrap_err(),
        BusError::AddressOutOfBounds
    );
}

#[test]
fn physical_typed_slice_write_round_trips() {
    let mut memory = PhysicalMemory::new(16);
    memory.write_slice_u32(4, &[0xDEADBEEF, 0x01020304]).unwrap();
    assert_eq!(memory.read_u8(4).unwrap(), 0xEF);
    assert_eq!(memory.read_slice_u32(4, 8).unwrap(), vec![0xDEADBEEF, 0x01020304]);
    assert_eq!(
        memory.write_slice_u32(12, &[1, 2]),
        Err(BusError::AddressOutOfBounds)
    );
}

#[test]
fn physical_out_of_bounds_accesses_fail() {
    let mut memory = PhysicalMemory::new(8);
    assert_eq!(memory.read_u8(8), Err(BusError::AddressOutOfBounds));
    assert_eq!(memory.write_u8(8, 1), Err(BusError::AddressOutOfBounds));
    assert_eq!(memory.read_u16(7), Err(BusError::AddressOutOfBounds));
    assert_eq!(memory.read_u32(5), Err(BusError::AddressOutOfBounds));
    assert_eq!(memory.read_u64(1), Err(BusError::AddressOutOfBounds));
    assert_eq!(memory.write_u64(1, 0), Err(BusError::AddressOutOfBounds));
    assert_eq!(
        memory.read_slice_u8(4, 5).unwrap_err(),
        BusError::AddressOutOfBounds
    );
    assert_eq!(
        memory.write_slice_u8(4, &[0; 5]),
        Err(BusError::AddressOutOfBounds)
    );
    // A failed write leaves the store unchanged.
    assert_eq!(memory.read_u8(7).unwrap(), 0);
}
