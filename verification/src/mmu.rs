use vstd::prelude::*;

use crate::devices::{KeyboardDevice, RomDevice};
use crate::errors::BusError;
use crate::lebytes::{le16, le32, le64, u16_byte, u32_byte, u64_byte};
use crate::memory::BasicIo;
use crate::serial::{
    spec_serial_read_byte, spec_serial_read_stream, spec_serial_tick, spec_serial_write_byte,
    spec_serial_write_stream, SerialDevice, SerialModel,
};

verus! {

/// A bounds-checked random-access memory device over an owned buffer.
pub struct RamDevice {
    ram: Vec<u8>,
}

impl View for RamDevice {
    type V = Seq<u8>;

    closed spec fn view(&self) -> Seq<u8> {
        self.ram@
    }
}

impl RamDevice {
    /// A RAM device over the given buffer.
    pub fn new(ram: Vec<u8>) -> (r: Self)
        ensures
            r@ == ram@,
    {
        RamDevice { ram }
    }

    /// Checks that `[address, address + length)` lies inside the buffer.
    fn check_address(&self, address: u64, length: usize) -> (r: Result<(), BusError>)
        ensures
            self@.len() <= usize::MAX,
            address + length <= self@.len() ==> r == Ok::<(), BusError>(()),
            address + length > self@.len() ==> r == Err::<(), BusError>(
                BusError::AddressOutOfBounds,
            ),
    {
        let n = self.ram.len() as u64;
        if address > n || (length as u64) > n - address {
            Err(BusError::AddressOutOfBounds)
        } else {
            Ok(())
        }
    }

    /// Reads the byte at `address`.
    pub fn read_byte(&self, address: u64) -> (r: Result<u8, BusError>)
        ensures
            address < self@.len() ==> r == Ok::<u8, BusError>(self@[address as int]),
            address >= self@.len() ==> r == Err::<u8, BusError>(BusError::AddressOutOfBounds),
    {
        match self.check_address(address, 1) {
            Ok(()) => Ok(self.ram[address as usize]),
            Err(e) => Err(e),
        }
    }

    /// Writes `data` to the byte at `address`.
    pub fn write_byte(&mut self, address: u64, data: u8) -> (r: Result<(), BusError>)
        ensures
            address < old(self)@.len() ==> r == Ok::<(), BusError>(()) && final(self)@ == old(self)@.update(address as int, data),
            address >= old(self)@.len() ==> r == Err::<(), BusError>(BusError::AddressOutOfBounds)
                && final(self)@ == old(self)@,
    {
        match self.check_address(address, 1) {
            Ok(()) => {
                self.ram[address as usize] = data;
                Ok(())
            },
            Err(e) => Err(e),
        }
    }

    /// Reads `length` bytes starting at `address`.
    pub fn read_stream(&self, address: u64, length: usize) -> (r: Result<Vec<u8>, BusError>)
        ensures
            address + length <= self@.len() ==> (r matches Ok(v) && v@ == self@.subrange(
                address as int,
                address + length,
            )),
            address + length > self@.len() ==> r == Err::<Vec<u8>, BusError>(
                BusError::AddressOutOfBounds,
            ),
    {
        match self.check_address(address, length) {
            Ok(()) => {
                let base = address as usize;
                let mut out: Vec<u8> = Vec::new();
                let mut j: usize = 0;
                while j < length
                    invariant
                        j <= length,
                        base + length <= self.ram@.len(),
                        base + length <= usize::MAX,
                        out@ == self.ram@.subrange(base as int, base + j),
                    decreases length - j,
                {
                    out.push(self.ram[base + j]);
                    proof {
                        assert(self.ram@.subrange(base as int, base + j + 1) =~= self.ram@.subrange(
                            base as int,
                            base + j,
                        ).push(self.ram@[base + j]));
                    }
                    j = j + 1;
                }
                Ok(out)
            },
            Err(e) => Err(e),
        }
    }

    /// Writes all of `stream` starting at `address`.
    pub fn write_stream(&mut self, address: u64, stream: &[u8]) -> (r: Result<(), BusError>)
        ensures
            final(self)@.len() == old(self)@.len(),
            address + stream@.len() <= old(self)@.len() ==> r == Ok::<(), BusError>(()) && final(self)@ == spec_splice(old(self)@, address as int, stream@),
            address + stream@.len() > old(self)@.len() ==> r == Err::<(), BusError>(
                BusError::AddressOutOfBounds,
            ) && final(self)@ == old(self)@,
    {
        match self.check_address(address, stream.len()) {
            Ok(()) => {
                let length = stream.len();
                let base = address as usize;
                let mut j: usize = 0;
                while j < length
                    invariant
                        j <= length,
                        length == stream@.len(),
                        base + length <= self.ram@.len(),
                        base + length <= usize::MAX,
                        self.ram@.len() == old(self)@.len(),
                        forall|k: int| 0 <= k < j ==> self.ram@[base + k] == stream@[k],
                        forall|m: int|
                            0 <= m < old(self)@.len() && !(base <= m < base + j) ==> self.ram@[m]
                                == old(self)@[m],
                    decreases length - j,
                {
                    self.ram[base + j] = stream[j];
                    j = j + 1;
                }
                proof {
                    assert(self.ram@ =~= spec_splice(old(self)@, address as int, stream@));
                }
                Ok(())
            },
            Err(e) => Err(e),
        }
    }
}

/// `s` with the range starting at `base` replaced by `data`.
pub open spec fn spec_splice(s: Seq<u8>, base: int, data: Seq<u8>) -> Seq<u8>
    recommends
        0 <= base,
        base + data.len() <= s.len(),
{
    Seq::new(
        s.len(),
        |i: int|
            if base <= i < base + data.len() {
                data[i - base]
            } else {
                s[i]
            },
    )
}

/// The abstract state of one pluggable bus device.
pub enum DevModel {
    Ram(Seq<u8>),
    Rom(Seq<u8>),
    Keyboard,
    Serial(SerialModel),
    Bus(Seq<MapModel>),
}

/// What reading one byte at device-relative offset `off` returns and leaves
/// behind.
pub open spec fn spec_dev_read_byte(d: DevModel, off: u64) -> (DevModel, Result<u8, BusError>)
    decreases d,
{
    match d {
        DevModel::Ram(s) => (
            d,
            if off < s.len() {
                Ok(s[off as int])
            } else {
                Err(BusError::AddressOutOfBounds)
            },
        ),
        DevModel::Rom(s) => (
            d,
            if off < s.len() {
                Ok(s[off as int])
            } else {
                Err(BusError::AddressOutOfBounds)
            },
        ),
        DevModel::Keyboard => (d, Ok(0)),
        DevModel::Serial(m) => {
            let (m2, r) = spec_serial_read_byte(m, off);
            (DevModel::Serial(m2), r)
        },
        DevModel::Bus(m) => {
            let (m2, r) = spec_bus_read_byte(m, off);
            (DevModel::Bus(m2), r)
        },
    }
}

/// What writing one byte at device-relative offset `off` does.
pub open spec fn spec_dev_write_byte(d: DevModel, off: u64, data: u8) -> (
    DevModel,
    Result<(), BusError>,
)
    decreases d,
{
    match d {
        DevModel::Ram(s) => {
            if off < s.len() {
                (DevModel::Ram(s.update(off as int, data)), Ok(()))
            } else {
                (d, Err(BusError::AddressOutOfBounds))
            }
        },
        DevModel::Rom(_) => (d, Ok(())),
        DevModel::Keyboard => (d, Err(BusError::Unsupported)),
        DevModel::Serial(m) => {
            let (m2, r) = spec_serial_write_byte(m, off, data);
            (DevModel::Serial(m2), r)
        },
        DevModel::Bus(m) => {
            let (m2, r) = spec_bus_write_byte(m, off, data);
            (DevModel::Bus(m2), r)
        },
    }
}

/// What a bulk read of `len` bytes at device-relative offset `off` returns
/// and leaves behind.
pub open spec fn spec_dev_read_stream(d: DevModel, off: u64, len: nat) -> (
    DevModel,
    Result<Seq<u8>, BusError>,
)
    decreases d,
{
    match d {
        DevModel::Ram(s) => (
            d,
            if off + len <= s.len() {
                Ok(s.subrange(off as int, off + len))
            } else {
                Err(BusError::AddressOutOfBounds)
            },
        ),
        DevModel::Rom(s) => (
            d,
            if off + len <= s.len() {
                Ok(s.subrange(off as int, off + len))
            } else {
                Err(BusError::AddressOutOfBounds)
            },
        ),
        DevModel::Keyboard => (
            d,
            if off + len <= 2 {
                Ok(Seq::new(len, |i: int| 0u8))
            } else {
                Err(BusError::AddressOutOfBounds)
            },
        ),
        DevModel::Serial(m) => {
            let (m2, r) = spec_serial_read_stream(m, off, len);
            (DevModel::Serial(m2), r)
        },
        DevModel::Bus(m) => {
            let (m2, r) = spec_bus_read_stream(m, off, len);
            (DevModel::Bus(m2), r)
        },
    }
}

/// What a bulk write of `data` at device-relative offset `off` does.
pub open spec fn spec_dev_write_stream(d: DevModel, off: u64, data: Seq<u8>) -> (
    DevModel,
    Result<(), BusError>,
)
    decreases d,
{
    match d {
        DevModel::Ram(s) => {
            if off + data.len() <= s.len() {
                (DevModel::Ram(spec_splice(s, off as int, data)), Ok(()))
            } else {
                (d, Err(BusError::AddressOutOfBounds))
            }
        },
        DevModel::Rom(_) => (d, Ok(())),
        DevModel::Keyboard => (d, Err(BusError::Unsupported)),
        DevModel::Serial(m) => {
            let (m2, r) = spec_serial_write_stream(m, off, data);
            (DevModel::Serial(m2), r)
        },
        DevModel::Bus(m) => {
            let (m2, r) = spec_bus_write_stream(m, off, data);
            (DevModel::Bus(m2), r)
        },
    }
}

/// One concrete peripheral pluggable into the bus, a closed set of variants
/// dispatched through one switch so decode order stays linear; a whole bus
/// can be mapped as a device of another bus.
pub enum BusDevice {
    Ram(RamDevice),
    Rom(RomDevice),
    Keyboard(KeyboardDevice),
    Serial(SerialDevice),
    Mmu(Box<MmuDevice>),
}

/// The abstract state of a pluggable device; a nested bus models
/// recursively.
pub closed spec fn spec_dev_model(d: BusDevice) -> DevModel
    decreases d,
{
    match d {
        BusDevice::Ram(ram) => DevModel::Ram(ram@),
        BusDevice::Rom(rom) => DevModel::Rom(rom.bytes()),
        BusDevice::Keyboard(_) => DevModel::Keyboard,
        BusDevice::Serial(sd) => DevModel::Serial(sd@),
        BusDevice::Mmu(b) => DevModel::Bus(spec_mmu_model(*b)),
    }
}

/// The abstract state of a whole bus: its mappings' bases, sizes and device
/// models, in registration order. The out-of-range arm of the pointwise
/// definition is never selected by `Seq::new`; it only keeps the closure
/// total so its recursion is measured on real elements.
pub closed spec fn spec_mmu_model(m: MmuDevice) -> Seq<MapModel>
    decreases m,
    via spec_mmu_model_decreases
{
    Seq::new(
        m.map@.len(),
        |i: int|
            if 0 <= i < m.map@.len() {
                MapModel {
                    base: m.map@[i].address,
                    size: m.map@[i].size,
                    dev: spec_dev_model(m.map@[i].device),
                }
            } else {
                MapModel { base: 0, size: 0, dev: DevModel::Keyboard }
            },
    )
}

#[via_fn]
proof fn spec_mmu_model_decreases(m: MmuDevice) {
    broadcast use vstd::seq::axiom_seq_index_decreases;
    broadcast use vstd::std_specs::vec::axiom_vec_decreases_to_view;

    assert forall|i: int| 0 <= i < m.map@.len() implies decreases_to!(m => m.map@[i].device) by {
        assert(decreases_to!(m => m.map));
        assert(decreases_to!(m.map => m.map@));
        assert(decreases_to!(m.map@ => m.map@[i]));
    }
}

impl View for BusDevice {
    type V = DevModel;

    closed spec fn view(&self) -> DevModel {
        spec_dev_model(*self)
    }
}

impl BusDevice {
    /// Reads one byte at device-relative offset `address`.
    pub fn read_byte(&mut self, address: u64) -> (r: Result<u8, BusError>)
        ensures
            ({
                let (d2, rr) = spec_dev_read_byte(old(self)@, address);
                final(self)@ == d2 && r == rr
            }),
        decreases *old(self),
    {
        match self {
            BusDevice::Ram(d) => d.read_byte(address),
            BusDevice::Rom(d) => {
                let n = d.len();
                if address < n as u64 {
                    d.read_u8(address as usize)
                } else {
                    Err(BusError::AddressOutOfBounds)
                }
            },
            BusDevice::Keyboard(_) => Ok(0),
            BusDevice::Serial(d) => d.read_byte(address),
            BusDevice::Mmu(b) => b.read_byte(address),
        }
    }

    /// Writes one byte at device-relative offset `address`.
    pub fn write_byte(&mut self, address: u64, data: u8) -> (r: Result<(), BusError>)
        ensures
            ({
                let (d2, rr) = spec_dev_write_byte(old(self)@, address, data);
                final(self)@ == d2 && r == rr
            }),
        decreases *old(self),
    {
        match self {
            BusDevice::Ram(d) => d.write_byte(address, data),
            BusDevice::Rom(_) => Ok(()),
            BusDevice::Keyboard(_) => Err(BusError::Unsupported),
            BusDevice::Serial(d) => d.write_byte(address, data),
            BusDevice::Mmu(b) => b.write_byte(address, data),
        }
    }

    /// Reads `length` bytes at device-relative offset `address`.
    pub fn read_stream(&mut self, address: u64, length: usize) -> (r: Result<Vec<u8>, BusError>)
        ensures
            ({
                let (d2, rr) = spec_dev_read_stream(old(self)@, address, length as nat);
                final(self)@ == d2 && (match (r, rr) {
                    (Ok(v), Ok(s)) => v@ == s,
                    (Err(e), Err(es)) => e == es,
                    _ => false,
                })
            }),
        decreases *old(self),
    {
        match self {
            BusDevice::Ram(d) => d.read_stream(address, length),
            BusDevice::Rom(d) => {
                let n = d.len();
                if address <= n as u64 && (length as u64) <= n as u64 - address {
                    let mut dest: Vec<u8> = Vec::new();
                    let mut j: usize = 0;
                    while j < length
                        invariant
                            j <= length,
                            dest@.len() == j,
                        decreases length - j,
                    {
                        dest.push(0);
                        j = j + 1;
                    }
                    match d.copy_into_slice(address as usize, length, &mut dest) {
                        Ok(()) => Ok(dest),
                        Err(e) => {
                            proof {
                                assert(false);
                            }
                            Err(e)
                        },
                    }
                } else {
                    Err(BusError::AddressOutOfBounds)
                }
            },
            BusDevice::Keyboard(_) => {
                if address <= 2 && (length as u64) <= 2 - address {
                    let mut dest: Vec<u8> = Vec::new();
                    let mut j: usize = 0;
                    while j < length
                        invariant
                            j <= length,
                            dest@.len() == j,
                            forall|k: int| 0 <= k < j ==> dest@[k] == 0u8,
                        decreases length - j,
                    {
                        dest.push(0);
                        j = j + 1;
                    }
                    proof {
                        assert(dest@ =~= Seq::new(length as nat, |i: int| 0u8));
                    }
                    Ok(dest)
                } else {
                    Err(BusError::AddressOutOfBounds)
                }
            },
            BusDevice::Serial(d) => d.read_stream(address, length),
            BusDevice::Mmu(b) => b.read_stream(address, length),
        }
    }

    /// Writes all of `stream` at device-relative offset `address`.
    pub fn write_stream(&mut self, address: u64, stream: &[u8]) -> (r: Result<(), BusError>)
        ensures
            ({
                let (d2, rr) = spec_dev_write_stream(old(self)@, address, stream@);
                final(self)@ == d2 && r == rr
            }),
        decreases *old(self),
    {
        match self {
            BusDevice::Ram(d) => d.write_stream(address, stream),
            BusDevice::Rom(_) => Ok(()),
            BusDevice::Keyboard(_) => Err(BusError::Unsupported),
            BusDevice::Serial(d) => d.write_stream(address, stream),
            BusDevice::Mmu(b) => b.write_stream(address, stream),
        }
    }
}

/// The abstract state of one bus mapping: a base address, a size, and the
/// mapped device's state.
pub struct MapModel {
    pub base: u64,
    pub size: u64,
    pub dev: DevModel,
}

/// Whether the mapping's interval `[base, base + size)` contains `address`.
pub open spec fn spec_map_contains(mm: MapModel, address: u64) -> bool {
    mm.base <= address < mm.base + mm.size
}

/// The index of the first mapping whose interval contains `address`, in
/// registration order.
pub open spec fn spec_decode(m: Seq<MapModel>, address: u64) -> Option<int>
    decreases m.len(),
{
    if m.len() == 0 {
        None
    } else if spec_map_contains(m[0], address) {
        Some(0int)
    } else {
        match spec_decode(m.skip(1), address) {
            Some(i) => Some(i + 1),
            None => None,
        }
    }
}

/// `spec_decode` returns the first matching mapping in registration order.
pub proof fn lemma_decode_first(m: Seq<MapModel>, address: u64, i: int)
    requires
        0 <= i < m.len(),
        spec_map_contains(m[i], address),
        forall|j: int| 0 <= j < i ==> !spec_map_contains(m[j], address),
    ensures
        spec_decode(m, address) == Some(i),
    decreases i,
{
    if i == 0 {
    } else {
        lemma_decode_first(m.skip(1), address, i - 1);
    }
}

/// An address contained in no mapping's interval decodes to nothing.
pub proof fn lemma_decode_none(m: Seq<MapModel>, address: u64)
    requires
        forall|j: int| 0 <= j < m.len() ==> !spec_map_contains(m[j], address),
    ensures
        spec_decode(m, address) is None,
    decreases m.len(),
{
    if m.len() > 0 {
        lemma_decode_none(m.skip(1), address);
    }
}

/// A successful decode names a real mapping whose interval contains the
/// address.
pub proof fn lemma_decode_in_range(m: Seq<MapModel>, address: u64)
    ensures
        spec_decode(m, address) matches Some(i) ==> 0 <= i < m.len() && spec_map_contains(
            m[i],
            address,
        ),
    decreases m.len(),
{
    if m.len() > 0 && !spec_map_contains(m[0], address) {
        lemma_decode_in_range(m.skip(1), address);
    }
}

/// Decoding depends only on the mappings' bases and sizes, never on the
/// devices' contents.
pub proof fn lemma_decode_geometry(m1: Seq<MapModel>, m2: Seq<MapModel>, address: u64)
    requires
        m1.len() == m2.len(),
        forall|j: int| 0 <= j < m1.len() ==> m2[j].base == m1[j].base && m2[j].size == m1[j].size,
    ensures
        spec_decode(m2, address) == spec_decode(m1, address),
    decreases m1.len(),
{
    if m1.len() > 0 {
        assert forall|j: int| 0 <= j < m1.skip(1).len() implies m2.skip(1)[j].base
            == m1.skip(1)[j].base && m2.skip(1)[j].size == m1.skip(1)[j].size by {
            assert(m1.skip(1)[j] == m1[j + 1]);
            assert(m2.skip(1)[j] == m2[j + 1]);
        }
        lemma_decode_geometry(m1.skip(1), m2.skip(1), address);
    }
}

/// What reading one byte at bus address `address` returns and leaves behind:
/// the first mapping containing the address is consulted, and its device's
/// failures are propagated unchanged; an address contained in no mapping
/// fails with `AddressNotMapped`.
pub open spec fn spec_bus_read_byte(m: Seq<MapModel>, address: u64) -> (Seq<MapModel>, Result<
    u8,
    BusError,
>)
    decreases m,
    via spec_bus_read_byte_decreases
{
    match spec_decode(m, address) {
        Some(i) => {
            let (d2, r) = spec_dev_read_byte(m[i].dev, (address - m[i].base) as u64);
            (m.update(i, MapModel { dev: d2, ..m[i] }), r)
        },
        None => (m, Err(BusError::AddressNotMapped)),
    }
}

/// What writing one byte at bus address `address` does, decoded the same way.
pub open spec fn spec_bus_write_byte(m: Seq<MapModel>, address: u64, data: u8) -> (
    Seq<MapModel>,
    Result<(), BusError>,
)
    decreases m,
    via spec_bus_write_byte_decreases
{
    match spec_decode(m, address) {
        Some(i) => {
            let (d2, r) = spec_dev_write_byte(m[i].dev, (address - m[i].base) as u64, data);
            (m.update(i, MapModel { dev: d2, ..m[i] }), r)
        },
        None => (m, Err(BusError::AddressNotMapped)),
    }
}

/// What a bulk read of `len` bytes at bus address `address` returns and
/// leaves behind, decoded the same way.
pub open spec fn spec_bus_read_stream(m: Seq<MapModel>, address: u64, len: nat) -> (
    Seq<MapModel>,
    Result<Seq<u8>, BusError>,
)
    decreases m,
    via spec_bus_read_stream_decreases
{
    match spec_decode(m, address) {
        Some(i) => {
            let (d2, r) = spec_dev_read_stream(m[i].dev, (address - m[i].base) as u64, len);
            (m.update(i, MapModel { dev: d2, ..m[i] }), r)
        },
        None => (m, Err(BusError::AddressNotMapped)),
    }
}

/// What a bulk write of `data` at bus address `address` does, decoded the
/// same way.
pub open spec fn spec_bus_write_stream(m: Seq<MapModel>, address: u64, data: Seq<u8>) -> (
    Seq<MapModel>,
    Result<(), BusError>,
)
    decreases m,
    via spec_bus_write_stream_decreases
{
    match spec_decode(m, address) {
        Some(i) => {
            let (d2, r) = spec_dev_write_stream(m[i].dev, (address - m[i].base) as u64, data);
            (m.update(i, MapModel { dev: d2, ..m[i] }), r)
        },
        None => (m, Err(BusError::AddressNotMapped)),
    }
}

/// The decode names a real mapping, so each bus operation recurses on one of
/// its own mappings' devices.
proof fn lemma_decode_measure(m: Seq<MapModel>, address: u64)
    ensures
        spec_decode(m, address) matches Some(i) ==> decreases_to!(m => m[i].dev),
{
    broadcast use vstd::seq::axiom_seq_index_decreases;

    if spec_decode(m, address) is Some {
        lemma_decode_in_range(m, address);
        let i = spec_decode(m, address)->Some_0;
        assert(decreases_to!(m => m[i]));
    }
}

#[via_fn]
proof fn spec_bus_read_byte_decreases(m: Seq<MapModel>, address: u64) {
    lemma_decode_measure(m, address);
}

#[via_fn]
proof fn spec_bus_write_byte_decreases(m: Seq<MapModel>, address: u64, data: u8) {
    lemma_decode_measure(m, address);
}

#[via_fn]
proof fn spec_bus_read_stream_decreases(m: Seq<MapModel>, address: u64, len: nat) {
    lemma_decode_measure(m, address);
}

#[via_fn]
proof fn spec_bus_write_stream_decreases(m: Seq<MapModel>, address: u64, data: Seq<u8>) {
    lemma_decode_measure(m, address);
}

/// A successful bulk read returns exactly the requested number of bytes, at
/// every nesting depth.
pub proof fn lemma_dev_read_stream_len(d: DevModel, off: u64, len: nat)
    ensures
        spec_dev_read_stream(d, off, len).1 matches Ok(s) ==> s.len() == len,
    decreases d,
{
    broadcast use vstd::seq::axiom_seq_index_decreases;

    match d {
        DevModel::Bus(m) => {
            if spec_decode(m, off) is Some {
                lemma_decode_in_range(m, off);
                let i = spec_decode(m, off)->Some_0;
                assert(decreases_to!(m => m[i]));
                lemma_dev_read_stream_len(m[i].dev, (off - m[i].base) as u64, len);
            }
        },
        _ => {},
    }
}

/// A successful bulk read through the bus returns exactly the requested
/// number of bytes.
pub proof fn lemma_bus_read_stream_len(m: Seq<MapModel>, address: u64, len: nat)
    ensures
        spec_bus_read_stream(m, address, len).1 matches Ok(s) ==> s.len() == len,
{
    if spec_decode(m, address) is Some {
        lemma_decode_in_range(m, address);
        let i = spec_decode(m, address)->Some_0;
        lemma_dev_read_stream_len(m[i].dev, (address - m[i].base) as u64, len);
    }
}

/// What one worker iteration of the serial device mapped at `address` does:
/// the tick runs on the first mapping containing the address if it is a
/// serial device; a RAM mapping has no worker.
pub open spec fn spec_bus_tick_serial(m: Seq<MapModel>, address: u64, input: Seq<u8>) -> (
    Seq<MapModel>,
    Result<Seq<u8>, BusError>,
) {
    match spec_decode(m, address) {
        Some(i) => match m[i].dev {
            DevModel::Serial(sm) => {
                let (sm2, out) = spec_serial_tick(sm, input);
                (m.update(i, MapModel { dev: DevModel::Serial(sm2), ..m[i] }), Ok(out))
            },
            _ => (m, Err(BusError::Unsupported)),
        },
        None => (m, Err(BusError::AddressNotMapped)),
    }
}

/// One device mapped at a base address on the bus.
pub struct MmuMapping {
    pub address: u64,
    pub size: u64,
    pub device: BusDevice,
}

impl View for MmuMapping {
    type V = MapModel;

    open spec fn view(&self) -> MapModel {
        MapModel { base: self.address, size: self.size, dev: spec_dev_model(self.device) }
    }
}

/// The index of the first mapping registered exactly at base `base`.
pub open spec fn spec_find_base(m: Seq<MapModel>, base: u64) -> Option<int>
    decreases m.len(),
{
    if m.len() == 0 {
        None
    } else if m[0].base == base {
        Some(0int)
    } else {
        match spec_find_base(m.skip(1), base) {
            Some(i) => Some(i + 1),
            None => None,
        }
    }
}

/// `spec_find_base` returns the first mapping with the given base.
proof fn lemma_find_base_first(m: Seq<MapModel>, base: u64, i: int)
    requires
        0 <= i < m.len(),
        m[i].base == base,
        forall|j: int| 0 <= j < i ==> m[j].base != base,
    ensures
        spec_find_base(m, base) == Some(i),
    decreases i,
{
    if i == 0 {
    } else {
        lemma_find_base_first(m.skip(1), base, i - 1);
    }
}

/// A base at which nothing is mapped is not found.
proof fn lemma_find_base_none(m: Seq<MapModel>, base: u64)
    requires
        forall|j: int| 0 <= j < m.len() ==> m[j].base != base,
    ensures
        spec_find_base(m, base) is None,
    decreases m.len(),
{
    if m.len() > 0 {
        lemma_find_base_none(m.skip(1), base);
    }
}

/// An ordered table of `{base, size, device}` mappings. Addresses are
/// decoded by a linear scan in registration order; the first mapping whose
/// half-open interval contains the address is authoritative, and overlapping
/// registrations are not rejected. All bus operations funnel through that
/// decode and propagate device-level failures unchanged.
pub struct MmuDevice {
    map: Vec<MmuMapping>,
}

impl View for MmuDevice {
    type V = Seq<MapModel>;

    closed spec fn view(&self) -> Seq<MapModel> {
        spec_mmu_model(*self)
    }
}

impl MmuDevice {
    /// A bus with no devices mapped.
    pub fn new() -> (r: Self)
        ensures
            r@ == Seq::<MapModel>::empty(),
    {
        let r = MmuDevice { map: Vec::new() };
        proof {
            assert(r@ =~= Seq::<MapModel>::empty());
        }
        r
    }

    /// Maps `device` at `[address, address + size)`, after all earlier
    /// mappings; overlaps are not rejected.
    pub fn map_device(&mut self, address: u64, size: u64, device: BusDevice)
        ensures
            final(self)@ == old(self)@.push((MapModel { base: address, size, dev: device@ })),
    {
        let ghost dm = device@;
        self.map.push(MmuMapping { address, size, device });
        proof {
            assert(self@ =~= old(self)@.push((MapModel { base: address, size, dev: dm })));
        }
    }

    /// Moves the first mapping whose base is `address` to `new_address`,
    /// keeping its size and device; fails with `DeviceNotFound` if no
    /// mapping has that base.
    pub fn remap_device(&mut self, address: u64, new_address: u64) -> (r: Result<(), BusError>)
        ensures
            ({
                match spec_find_base(old(self)@, address) {
                    Some(i) => r == Ok::<(), BusError>(()) && final(self)@ == old(self)@.update(
                        i,
                        (MapModel { base: new_address, ..old(self)@[i] }),
                    ),
                    None => r == Err::<(), BusError>(BusError::DeviceNotFound) && final(self)@
                        == old(self)@,
                }
            }),
    {
        let n = self.map.len();
        let mut i: usize = 0;
        while i < n
            invariant
                i <= n,
                n == self@.len(),
                n == self.map@.len(),
                self@ == old(self)@,
                forall|j: int| 0 <= j < i ==> self@[j].base != address,
            decreases n - i,
        {
            if self.map[i].address == address {
                proof {
                    lemma_find_base_first(self@, address, i as int);
                }
                let mut moved = self.map.remove(i);
                moved.address = new_address;
                self.map.insert(i, moved);
                proof {
                    assert(self@ =~= old(self)@.update(
                        i as int,
                        (MapModel { base: new_address, ..old(self)@[i as int] }),
                    ));
                }
                return Ok(());
            }
            i = i + 1;
        }
        proof {
            lemma_find_base_none(self@, address);
        }
        Err(BusError::DeviceNotFound)
    }

    /// Decodes a bus address to the relative offset within, and the index
    /// of, the first mapping containing it.
    pub fn decode_address(&self, address: u64) -> (r: Result<(u64, usize), BusError>)
        ensures
            ({
                match spec_decode(self@, address) {
                    Some(i) => r matches Ok(p) && p.0 == address - self@[i].base && p.1 == i,
                    None => r == Err::<(u64, usize), BusError>(BusError::AddressNotMapped),
                }
            }),
    {
        let n = self.map.len();
        let mut i: usize = 0;
        while i < n
            invariant
                i <= n,
                n == self@.len(),
                n == self.map@.len(),
                forall|j: int| 0 <= j < i ==> !spec_map_contains(self@[j], address),
            decreases n - i,
        {
            let mm = &self.map[i];
            if address >= mm.address && address - mm.address < mm.size {
                proof {
                    lemma_decode_first(self@, address, i as int);
                }
                return Ok((address - mm.address, i));
            }
            i = i + 1;
        }
        proof {
            lemma_decode_none(self@, address);
        }
        Err(BusError::AddressNotMapped)
    }

    /// Reads the byte at bus address `address` through the first mapping
    /// containing it.
    pub fn read_byte(&mut self, address: u64) -> (r: Result<u8, BusError>)
        ensures
            ({
                let (m2, rr) = spec_bus_read_byte(old(self)@, address);
                final(self)@ == m2 && r == rr
            }),
        decreases *old(self),
    {
        let n = self.map.len();
        let mut i: usize = 0;
        while i < n
            invariant
                i <= n,
                n == self@.len(),
                n == self.map@.len(),
                self.map@ == old(self).map@,
                forall|j: int| 0 <= j < i ==> !spec_map_contains(self@[j], address),
            decreases n - i,
        {
            let mm = &self.map[i];
            if address >= mm.address && address - mm.address < mm.size {
                proof {
                    lemma_decode_first(self@, address, i as int);
                }
                let off = address - self.map[i].address;
                let mut moved = self.map.remove(i);
                let r = moved.device.read_byte(off);
                self.map.insert(i, moved);
                proof {
                    assert(self@ =~= old(self)@.update(i as int, self.map@[i as int]@));
                }
                return r;
            }
            i = i + 1;
        }
        proof {
            lemma_decode_none(self@, address);
        }
        Err(BusError::AddressNotMapped)
    }

    /// Writes `data` to the byte at bus address `address` through the first
    /// mapping containing it.
    pub fn write_byte(&mut self, address: u64, data: u8) -> (r: Result<(), BusError>)
        ensures
            ({
                let (m2, rr) = spec_bus_write_byte(old(self)@, address, data);
                final(self)@ == m2 && r == rr
            }),
        decreases *old(self),
    {
        let n = self.map.len();
        let mut i: usize = 0;
        while i < n
            invariant
                i <= n,
                n == self@.len(),
                n == self.map@.len(),
                self.map@ == old(self).map@,
                forall|j: int| 0 <= j < i ==> !spec_map_contains(self@[j], address),
            decreases n - i,
        {
            let mm = &self.map[i];
            if address >= mm.address && address - mm.address < mm.size {
                proof {
                    lemma_decode_first(self@, address, i as int);
                }
                let off = address - self.map[i].address;
                let mut moved = self.map.remove(i);
                let r = moved.device.write_byte(off, data);
                self.map.insert(i, moved);
                proof {
                    assert(self@ =~= old(self)@.update(i as int, self.map@[i as int]@));
                }
                return r;
            }
            i = i + 1;
        }
        proof {
            lemma_decode_none(self@, address);
        }
        Err(BusError::AddressNotMapped)
    }

    /// Reads `length` bytes at bus address `address` through the first
    /// mapping containing it.
    pub fn read_stream(&mut self, address: u64, length: usize) -> (r: Result<Vec<u8>, BusError>)
        ensures
            ({
                let (m2, rr) = spec_bus_read_stream(old(self)@, address, length as nat);
                final(self)@ == m2 && (match (r, rr) {
                    (Ok(v), Ok(s)) => v@ == s,
                    (Err(e), Err(es)) => e == es,
                    _ => false,
                })
            }),
        decreases *old(self),
    {
        let n = self.map.len();
        let mut i: usize = 0;
        while i < n
            invariant
                i <= n,
                n == self@.len(),
                n == self.map@.len(),
                self.map@ == old(self).map@,
                forall|j: int| 0 <= j < i ==> !spec_map_contains(self@[j], address),
            decreases n - i,
        {
            let mm = &self.map[i];
            if address >= mm.address && address - mm.address < mm.size {
                proof {
                    lemma_decode_first(self@, address, i as int);
                }
                let off = address - self.map[i].address;
                let mut moved = self.map.remove(i);
                let r = moved.device.read_stream(off, length);
                self.map.insert(i, moved);
                proof {
                    assert(self@ =~= old(self)@.update(i as int, self.map@[i as int]@));
                }
                return r;
            }
            i = i + 1;
        }
        proof {
            lemma_decode_none(self@, address);
        }
        Err(BusError::AddressNotMapped)
    }

    /// Writes all of `stream` at bus address `address` through the first
    /// mapping containing it.
    pub fn write_stream(&mut self, address: u64, stream: &[u8]) -> (r: Result<(), BusError>)
        ensures
            ({
                let (m2, rr) = spec_bus_write_stream(old(self)@, address, stream@);
                final(self)@ == m2 && r == rr
            }),
        decreases *old(self),
    {
        let n = self.map.len();
        let mut i: usize = 0;
        while i < n
            invariant
                i <= n,
                n == self@.len(),
                n == self.map@.len(),
                self.map@ == old(self).map@,
                forall|j: int| 0 <= j < i ==> !spec_map_contains(self@[j], address),
            decreases n - i,
        {
            let mm = &self.map[i];
            if address >= mm.address && address - mm.address < mm.size {
                proof {
                    lemma_decode_first(self@, address, i as int);
                }
                let off = address - self.map[i].address;
                let mut moved = self.map.remove(i);
                let r = moved.device.write_stream(off, stream);
                self.map.insert(i, moved);
                proof {
                    assert(self@ =~= old(self)@.update(i as int, self.map@[i as int]@));
                }
                return r;
            }
            i = i + 1;
        }
        proof {
            lemma_decode_none(self@, address);
        }
        Err(BusError::AddressNotMapped)
    }

    /// Runs one worker iteration of the serial device mapped at `address`,
    /// handing it the available host input and returning what it emits for
    /// the host output. The worker loop itself, with its host I/O and its
    /// sleep, lives outside the library.
    pub fn tick_serial(&mut self, address: u64, host_input: &[u8]) -> (r: Result<Vec<u8>, BusError>)
        ensures
            ({
                let (m2, rr) = spec_bus_tick_serial(old(self)@, address, host_input@);
                final(self)@ == m2 && (match (r, rr) {
                    (Ok(v), Ok(s)) => v@ == s,
                    (Err(e), Err(es)) => e == es,
                    _ => false,
                })
            }),
    {
        let n = self.map.len();
        let mut i: usize = 0;
        while i < n
            invariant
                i <= n,
                n == self@.len(),
                n == self.map@.len(),
                self.map@ == old(self).map@,
                forall|j: int| 0 <= j < i ==> !spec_map_contains(self@[j], address),
            decreases n - i,
        {
            let mm = &self.map[i];
            if address >= mm.address && address - mm.address < mm.size {
                proof {
                    lemma_decode_first(self@, address, i as int);
                }
                let mut moved = self.map.remove(i);
                let r = match &mut moved.device {
                    BusDevice::Serial(d) => Ok(d.worker_tick(host_input)),
                    _ => Err(BusError::Unsupported),
                };
                self.map.insert(i, moved);
                proof {
                    assert(self@ =~= old(self)@.update(i as int, self.map@[i as int]@));
                }
                return r;
            }
            i = i + 1;
        }
        proof {
            lemma_decode_none(self@, address);
        }
        Err(BusError::AddressNotMapped)
    }

    /// Reads a 16-bit little-endian value at bus address `address`, derived
    /// from the bulk stream read.
    pub fn read_word(&mut self, address: u64) -> (r: Result<u16, BusError>)
        ensures
            ({
                let (m2, rr) = spec_bus_read_stream(old(self)@, address, 2);
                final(self)@ == m2 && (match (r, rr) {
                    (Ok(v), Ok(s)) => v == le16(s[0], s[1]),
                    (Err(e), Err(es)) => e == es,
                    _ => false,
                })
            }),
    {
        proof {
            lemma_bus_read_stream_len(old(self)@, address, 2);
        }
        match self.read_stream(address, 2) {
            Ok(v) => {
                let b0 = v[0];
                let b1 = v[1];
                Ok((b0 as u16) | ((b1 as u16) << 8u16))
            },
            Err(e) => Err(e),
        }
    }

    /// Reads a 32-bit little-endian value at bus address `address`, derived
    /// from the bulk stream read.
    pub fn read_dword(&mut self, address: u64) -> (r: Result<u32, BusError>)
        ensures
            ({
                let (m2, rr) = spec_bus_read_stream(old(self)@, address, 4);
                final(self)@ == m2 && (match (r, rr) {
                    (Ok(v), Ok(s)) => v == le32(s[0], s[1], s[2], s[3]),
                    (Err(e), Err(es)) => e == es,
                    _ => false,
                })
            }),
    {
        proof {
            lemma_bus_read_stream_len(old(self)@, address, 4);
        }
        match self.read_stream(address, 4) {
            Ok(v) => {
                let b0 = v[0];
                let b1 = v[1];
                let b2 = v[2];
                let b3 = v[3];
                Ok((b0 as u32) | ((b1 as u32) << 8u32) | ((b2 as u32) << 16u32) | ((b3 as u32)
                    << 24u32))
            },
            Err(e) => Err(e),
        }
    }

    /// Reads a 64-bit little-endian value at bus address `address`, derived
    /// from the bulk stream read.
    pub fn read_qword(&mut self, address: u64) -> (r: Result<u64, BusError>)
        ensures
            ({
                let (m2, rr) = spec_bus_read_stream(old(self)@, address, 8);
                final(self)@ == m2 && (match (r, rr) {
                    (Ok(v), Ok(s)) => v == le64(s[0], s[1], s[2], s[3], s[4], s[5], s[6], s[7]),
                    (Err(e), Err(es)) => e == es,
                    _ => false,
                })
            }),
    {
        proof {
            lemma_bus_read_stream_len(old(self)@, address, 8);
        }
        match self.read_stream(address, 8) {
            Ok(v) => {
                let b0 = v[0];
                let b1 = v[1];
                let b2 = v[2];
                let b3 = v[3];
                let b4 = v[4];
                let b5 = v[5];
                let b6 = v[6];
                let b7 = v[7];
                Ok((b0 as u64) | ((b1 as u64) << 8u64) | ((b2 as u64) << 16u64) | ((b3 as u64)
                    << 24u64) | ((b4 as u64) << 32u64) | ((b5 as u64) << 40u64) | ((b6 as u64)
                    << 48u64) | ((b7 as u64) << 56u64))
            },
            Err(e) => Err(e),
        }
    }

    /// Writes a 16-bit value little-endian at bus address `address`, derived
    /// from the bulk stream write.
    pub fn write_word(&mut self, address: u64, data: u16) -> (r: Result<(), BusError>)
        ensures
            ({
                let (m2, rr) = spec_bus_write_stream(
                    old(self)@,
                    address,
                    seq![u16_byte(data, 0), u16_byte(data, 1)],
                );
                final(self)@ == m2 && r == rr
            }),
    {
        let mut bytes: Vec<u8> = Vec::new();
        bytes.push(((data >> 0u16) & 0xFF) as u8);
        bytes.push(((data >> 8u16) & 0xFF) as u8);
        proof {
            assert(bytes@ =~= seq![u16_byte(data, 0), u16_byte(data, 1)]);
        }
        self.write_stream(address, bytes.as_slice())
    }

    /// Writes a 32-bit value little-endian at bus address `address`, derived
    /// from the bulk stream write.
    pub fn write_dword(&mut self, address: u64, data: u32) -> (r: Result<(), BusError>)
        ensures
            ({
                let (m2, rr) = spec_bus_write_stream(
                    old(self)@,
                    address,
                    seq![u32_byte(data, 0), u32_byte(data, 1), u32_byte(data, 2), u32_byte(data, 3)],
                );
                final(self)@ == m2 && r == rr
            }),
    {
        let mut bytes: Vec<u8> = Vec::new();
        bytes.push(((data >> 0u32) & 0xFF) as u8);
        bytes.push(((data >> 8u32) & 0xFF) as u8);
        bytes.push(((data >> 16u32) & 0xFF) as u8);
        bytes.push(((data >> 24u32) & 0xFF) as u8);
        proof {
            assert(bytes@ =~= seq![
                u32_byte(data, 0),
                u32_byte(data, 1),
                u32_byte(data, 2),
                u32_byte(data, 3),
            ]);
        }
        self.write_stream(address, bytes.as_slice())
    }

    /// Writes a 64-bit value little-endian at bus address `address`, derived
    /// from the bulk stream write.
    pub fn write_qword(&mut self, address: u64, data: u64) -> (r: Result<(), BusError>)
        ensures
            ({
                let (m2, rr) = spec_bus_write_stream(
                    old(self)@,
                    address,
                    seq![
                        u64_byte(data, 0),
                        u64_byte(data, 1),
                        u64_byte(data, 2),
                        u64_byte(data, 3),
                        u64_byte(data, 4),
                        u64_byte(data, 5),
                        u64_byte(data, 6),
                        u64_byte(data, 7),
                    ],
                );
                final(self)@ == m2 && r == rr
            }),
    {
        let mut bytes: Vec<u8> = Vec::new();
        bytes.push(((data >> 0u64) & 0xFF) as u8);
        bytes.push(((data >> 8u64) & 0xFF) as u8);
        bytes.push(((data >> 16u64) & 0xFF) as u8);
        bytes.push(((data >> 24u64) & 0xFF) as u8);
        bytes.push(((data >> 32u64) & 0xFF) as u8);
        bytes.push(((data >> 40u64) & 0xFF) as u8);
        bytes.push(((data >> 48u64) & 0xFF) as u8);
        bytes.push(((data >> 56u64) & 0xFF) as u8);
        proof {
            assert(bytes@ =~= seq![
                u64_byte(data, 0),
                u64_byte(data, 1),
                u64_byte(data, 2),
                u64_byte(data, 3),
                u64_byte(data, 4),
                u64_byte(data, 5),
                u64_byte(data, 6),
                u64_byte(data, 7),
            ]);
        }
        self.write_stream(address, bytes.as_slice())
    }
}

/// For every bus address whose first containing mapping is a RAM device and
/// whose offset lies inside that RAM, writing a byte succeeds and a
/// subsequent read of the same address returns exactly that byte.
pub proof fn lemma_bus_write_then_read(m: Seq<MapModel>, address: u64, data: u8)
    requires
        ({
            &&& spec_decode(m, address) matches Some(i)
            &&& m[spec_decode(m, address)->Some_0].dev matches DevModel::Ram(s)
            &&& address - m[spec_decode(m, address)->Some_0].base < s.len()
        }),
    ensures
        ({
            let (m2, r1) = spec_bus_write_byte(m, address, data);
            let (m3, r2) = spec_bus_read_byte(m2, address);
            &&& r1 == Ok::<(), BusError>(())
            &&& r2 == Ok::<u8, BusError>(data)
            &&& m3 == m2
        }),
{
    let i = spec_decode(m, address)->Some_0;
    lemma_decode_in_range(m, address);
    let (m2, r1) = spec_bus_write_byte(m, address, data);
    assert forall|j: int| 0 <= j < m.len() implies m2[j].base == m[j].base && m2[j].size
        == m[j].size by {}
    lemma_decode_geometry(m, m2, address);
}

/// Any write to a bus address whose first containing mapping is a ROM device
/// is accepted but changes nothing, so every subsequent read sees the
/// original content.
pub proof fn lemma_bus_rom_write_preserves_reads(m: Seq<MapModel>, address: u64, data: u8)
    requires
        ({
            &&& spec_decode(m, address) matches Some(i)
            &&& m[spec_decode(m, address)->Some_0].dev is Rom
        }),
    ensures
        ({
            let (m2, r1) = spec_bus_write_byte(m, address, data);
            &&& r1 == Ok::<(), BusError>(())
            &&& m2 =~= m
        }),
{
    let i = spec_decode(m, address)->Some_0;
    lemma_decode_in_range(m, address);
    let (m2, r1) = spec_bus_write_byte(m, address, data);
    assert(m2 =~= m);
}

} // verus!
