use yardland::devices::{KeyboardDevice, RomDevice};
use yardland::errors::BusError;
use yardland::mmu::{BusDevice, MmuDevice, RamDevice};
use yardland::serial::{
    SerialDevice, SERIAL_CONTROL_PIPE1_ENABLE, SERIAL_REG_CONTROL, SERIAL_REG_PIPE1,
    SERIAL_REG_PIPE2, SERIAL_REG_STATUS, SERIAL_STATUS_PIPE1_RX,
};

fn ram(size: usize) -> BusDevice {
    BusDevice::Ram(RamDevice::new(vec![0u8; size]))
}

#[test]
fn bus_write_then_read_returns_the_byte() {
    let mut bus = MmuDevice::new();
    bus.map_device(0, 0x10000, ram(0x10000));
    bus.write_byte(0x1234, 0xAB).unwrap();
    assert_eq!(bus.read_byte(0x1234).unwrap(), 0xAB);
}

#[test]
fn bus_first_registered_mapping_wins() {
    let mut bus = MmuDevice::new();
    bus.map_device(0, 16, ram(16));
    bus.map_device(0, 32, ram(32));
    bus.write_byte(8, 0x55).unwrap();
    // Move the first mapping away: the second one, untouched by the write,
    // becomes visible.
    bus.remap_device(0, 0x1000).unwrap();
    assert_eq!(bus.read_byte(8).unwrap(), 0);
    assert_eq!(bus.read_byte(0x1008).unwrap(), 0x55);
}

#[test]
fn bus_unmapped_access_is_a_decode_miss() {
    let mut bus = MmuDevice::new();
    bus.map_device(0x100, 16, ram(16));
    assert_eq!(bus.read_byte(0x99), Err(BusError::AddressNotMapped));
    assert_eq!(bus.write_byte(0x10F, 1), Ok(()));
    // The interval is half-open, so base + size is already unmapped.
    assert_eq!(bus.write_byte(0x110, 1), Err(BusError::AddressNotMapped));
    assert_eq!(bus.write_byte(0x200, 1), Err(BusError::AddressNotMapped));
}

#[test]
fn bus_remap_of_unknown_base_fails() {
    let mut bus = MmuDevice::new();
    bus.map_device(0, 16, ram(16));
    assert_eq!(bus.remap_device(4, 8), Err(BusError::DeviceNotFound));
}

#[test]
fn bus_decode_returns_offset_and_index() {
    let mut bus = MmuDevice::new();
    bus.map_device(0x100, 16, ram(16));
    bus.map_device(0x200, 16, ram(16));
    assert_eq!(bus.decode_address(0x205).unwrap(), (5, 1));
    assert_eq!(bus.decode_address(0x100).unwrap(), (0, 0));
    // The interval is half-open: base + size is already outside.
    assert_eq!(bus.decode_address(0x110), Err(BusError::AddressNotMapped));
}

#[test]
fn bus_ram_bounds_are_checked() {
    let mut bus = MmuDevice::new();
    // The mapping claims more than the RAM holds, so the device's own
    // bounds check fires past its end.
    bus.map_device(0, 32, ram(16));
    assert_eq!(bus.read_byte(20), Err(BusError::AddressOutOfBounds));
    assert_eq!(bus.write_byte(20, 1), Err(BusError::AddressOutOfBounds));
}

#[test]
fn bus_word_helpers_are_little_endian() {
    let mut bus = MmuDevice::new();
    bus.map_device(0, 0x100, ram(0x100));
    bus.write_word(0, 0xBEEF).unwrap();
    assert_eq!(bus.read_byte(0).unwrap(), 0xEF);
    assert_eq!(bus.read_byte(1).unwrap(), 0xBE);
    assert_eq!(bus.read_word(0).unwrap(), 0xBEEF);

    bus.write_dword(4, 0xDEADBEEF).unwrap();
    assert_eq!(bus.read_dword(4).unwrap(), 0xDEADBEEF);

    bus.write_qword(8, 0x0807060504030201).unwrap();
    assert_eq!(bus.read_qword(8).unwrap(), 0x0807060504030201);
    assert_eq!(bus.read_byte(8).unwrap(), 0x01);
}

#[test]
fn bus_streams_reach_the_device() {
    let mut bus = MmuDevice::new();
    bus.map_device(0x10, 16, ram(16));
    bus.write_stream(0x14, &[1, 2, 3]).unwrap();
    assert_eq!(bus.read_stream(0x14, 3).unwrap(), vec![1, 2, 3]);
    assert_eq!(bus.read_byte(0x13).unwrap(), 0);
}

#[test]
fn bus_rom_keeps_content_and_keyboard_reads_zero() {
    let mut bus = MmuDevice::new();
    bus.map_device(0, 4, BusDevice::Rom(RomDevice::from(vec![0xCA, 0xFE, 0xBA, 0xBE])));
    bus.map_device(0x10, 2, BusDevice::Keyboard(KeyboardDevice));

    // ROM accepts writes and discards them.
    assert_eq!(bus.write_byte(1, 0x00), Ok(()));
    assert_eq!(bus.write_stream(0, &[0, 0, 0]), Ok(()));
    assert_eq!(bus.read_byte(1).unwrap(), 0xFE);
    assert_eq!(bus.read_stream(0, 4).unwrap(), vec![0xCA, 0xFE, 0xBA, 0xBE]);
    assert_eq!(bus.read_byte(4), Err(BusError::AddressNotMapped));

    // The keyboard stub reads zero and refuses writes.
    assert_eq!(bus.read_byte(0x10).unwrap(), 0);
    assert_eq!(bus.read_byte(0x11).unwrap(), 0);
    assert_eq!(bus.write_byte(0x10, 1), Err(BusError::Unsupported));
    assert_eq!(bus.read_stream(0x10, 2).unwrap(), vec![0, 0]);
}

#[test]
fn bus_nests_inside_bus() {
    // An inner bus with 16 bytes of RAM at its offset 0x20, mapped as a
    // device of the outer bus at 0x1000.
    let mut inner = MmuDevice::new();
    inner.map_device(0x20, 16, ram(16));

    let mut outer = MmuDevice::new();
    outer.map_device(0x1000, 0x100, BusDevice::Mmu(Box::new(inner)));

    // 0x1000 + 0x24 decodes to the inner bus at offset 0x24, then to the
    // inner RAM at offset 4.
    outer.write_byte(0x1024, 0x5C).unwrap();
    assert_eq!(outer.read_byte(0x1024).unwrap(), 0x5C);

    // A miss inside the inner bus is the inner decode's miss.
    assert_eq!(outer.read_byte(0x1000), Err(BusError::AddressNotMapped));
    // Streams and word helpers traverse the nesting too.
    outer.write_word(0x1026, 0xABCD).unwrap();
    assert_eq!(outer.read_word(0x1026).unwrap(), 0xABCD);
    assert_eq!(outer.read_stream(0x1024, 2).unwrap(), vec![0x5C, 0x00]);
}

#[test]
fn serial_register_file_behaviour() {
    let mut serial = SerialDevice::new();
    // Reading an empty pipe reports no data; offset 0 is reserved.
    assert_eq!(serial.read_byte(SERIAL_REG_PIPE1), Err(BusError::NoData));
    assert_eq!(serial.read_byte(0), Err(BusError::InvalidAddress));
    assert_eq!(serial.read_byte(9), Err(BusError::InvalidAddress));
    // Control is read-write; status writes are accepted and ignored.
    serial.write_byte(SERIAL_REG_CONTROL, 0x03).unwrap();
    assert_eq!(serial.read_byte(SERIAL_REG_CONTROL).unwrap(), 0x03);
    serial.write_byte(SERIAL_REG_STATUS, 0xFF).unwrap();
    assert_eq!(serial.read_byte(SERIAL_REG_STATUS).unwrap(), 0);
}

#[test]
fn serial_pipe1_tick_delivers_to_host() {
    let mut serial = SerialDevice::new();
    serial.write_byte(SERIAL_REG_CONTROL, SERIAL_CONTROL_PIPE1_ENABLE).unwrap();
    serial.write_byte(SERIAL_REG_PIPE1, 0x41).unwrap();

    let out = serial.worker_tick(&[]);
    assert_eq!(out, vec![0x41]);

    // Host input lands in the receive queue and shows in the status bit.
    let out2 = serial.worker_tick(&[0x42]);
    assert_eq!(out2, Vec::<u8>::new());
    let status = serial.status().unwrap();
    assert_ne!(status & SERIAL_STATUS_PIPE1_RX, 0);
    assert_eq!(serial.read_byte(SERIAL_REG_PIPE1).unwrap(), 0x42);
    let status_after = serial.status().unwrap();
    assert_eq!(status_after & SERIAL_STATUS_PIPE1_RX, 0);
}

#[test]
fn serial_disabled_pipe_moves_nothing() {
    let mut serial = SerialDevice::new();
    serial.write_byte(SERIAL_REG_PIPE1, 0x41).unwrap();
    let out = serial.worker_tick(&[0x42]);
    assert_eq!(out, Vec::<u8>::new());
    // Nothing arrived: the pipe was disabled.
    assert_eq!(serial.read_byte(SERIAL_REG_PIPE1), Err(BusError::NoData));
}

#[test]
fn serial_stream_frame_shape() {
    let mut serial = SerialDevice::new();
    assert_eq!(serial.read_stream(0, 4).unwrap_err(), BusError::InvalidAddress);
    assert_eq!(serial.write_stream(0, &[1, 2]), Err(BusError::InvalidAddress));
    assert_eq!(serial.write_stream(5, &[1, 2, 3]), Err(BusError::InvalidAddress));

    serial.write_stream(0, &[0, 0x11, 0x22]).unwrap();
    serial.write_byte(SERIAL_REG_CONTROL, SERIAL_CONTROL_PIPE1_ENABLE).unwrap();
    let out = serial.worker_tick(&[0x33]);
    assert_eq!(out, vec![0x11]);
    // The frame read pops one byte per pipe beside the status byte.
    let frame = serial.read_stream(0, 3).unwrap();
    assert_eq!(frame[1], 0x33);
    // Pipe 2 received nothing: its external sink is an unfinished extension
    // point, so the tick moved no pipe 2 bytes.
    assert_eq!(frame[2], 0);
}

#[test]
fn serial_stop_flags_the_worker() {
    let mut serial = SerialDevice::new();
    assert!(serial.is_running());
    serial.stop();
    assert!(!serial.is_running());
}

#[test]
fn machine_scenario_ram_and_serial() {
    // A 64KB RAM at base 0 and a serial device at base 0x10000.
    let mut bus = MmuDevice::new();
    bus.map_device(0, 0x10000, ram(0x10000));
    bus.map_device(0x10000, SERIAL_REG_PIPE2 + 1, BusDevice::Serial(SerialDevice::new()));

    bus.write_byte(0x10000 + SERIAL_REG_CONTROL, 0x01).unwrap();
    bus.write_byte(0x10000 + SERIAL_REG_PIPE1, 0x41).unwrap();

    let out = bus.tick_serial(0x10000, &[]).unwrap();
    assert_eq!(out, vec![0x41]);

    // RAM at base 0 still works independently.
    bus.write_byte(0x1234, 0x77).unwrap();
    assert_eq!(bus.read_byte(0x1234).unwrap(), 0x77);

    // Ticking the RAM mapping is unsupported, ticking unmapped space is a
    // decode miss.
    assert_eq!(bus.tick_serial(0, &[]), Err(BusError::Unsupported));
    assert_eq!(bus.tick_serial(0x20000, &[]), Err(BusError::AddressNotMapped));
}
