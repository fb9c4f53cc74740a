use vstd::prelude::*;

use crate::errors::BusError;
use crate::memory::{BasicIo, Memory};
use vstd::std_specs::convert::FromSpec;

verus! {

/// A read-only device backed by an immutable buffer; writes are accepted and
/// silently discarded.
pub struct RomDevice {
    data: Vec<u8>,
}

impl From<Vec<u8>> for RomDevice {
    fn from(data: Vec<u8>) -> (r: Self) {
        RomDevice { data }
    }
}

impl vstd::std_specs::convert::FromSpecImpl<Vec<u8>> for RomDevice {
    open spec fn obeys_from_spec() -> bool {
        true
    }

    closed spec fn from_spec(data: Vec<u8>) -> Self {
        RomDevice { data }
    }
}

/// A ROM built from a buffer holds exactly that buffer's bytes.
pub proof fn lemma_rom_from_bytes(data: Vec<u8>)
    ensures
        RomDevice::from_spec(data).bytes() == data@,
{
}

impl BasicIo for RomDevice {
    closed spec fn bytes(&self) -> Seq<u8> {
        self.data@
    }

    closed spec fn zero_reads(&self) -> bool {
        false
    }

    closed spec fn writes_ok(&self) -> bool {
        true
    }

    closed spec fn writes_stick(&self) -> bool {
        false
    }

    fn len(&self) -> (r: usize) {
        self.data.len()
    }

    fn read_u8(&self, index: usize) -> (r: Result<u8, BusError>) {
        if index < self.data.len() {
            Ok(self.data[index])
        } else {
            Err(BusError::AddressOutOfBounds)
        }
    }

    fn read_u16(&self, index: usize) -> (r: Result<u16, BusError>) {
        let n = self.data.len();
        if n >= 2 && index <= n - 2 {
            let b0 = self.data[index];
            let b1 = self.data[index + 1];
            Ok((b0 as u16) | ((b1 as u16) << 8u16))
        } else {
            Err(BusError::AddressOutOfBounds)
        }
    }

    fn read_u32(&self, index: usize) -> (r: Result<u32, BusError>) {
        let n = self.data.len();
        if n >= 4 && index <= n - 4 {
            let b0 = self.data[index];
            let b1 = self.data[index + 1];
            let b2 = self.data[index + 2];
            let b3 = self.data[index + 3];
            Ok((b0 as u32) | ((b1 as u32) << 8u32) | ((b2 as u32) << 16u32) | ((b3 as u32)
                << 24u32))
        } else {
            Err(BusError::AddressOutOfBounds)
        }
    }

    fn read_u64(&self, index: usize) -> (r: Result<u64, BusError>) {
        let n = self.data.len();
        if n >= 8 && index <= n - 8 {
            let b0 = self.data[index];
            let b1 = self.data[index + 1];
            let b2 = self.data[index + 2];
            let b3 = self.data[index + 3];
            let b4 = self.data[index + 4];
            let b5 = self.data[index + 5];
            let b6 = self.data[index + 6];
            let b7 = self.data[index + 7];
            Ok((b0 as u64) | ((b1 as u64) << 8u64) | ((b2 as u64) << 16u64) | ((b3 as u64)
                << 24u64) | ((b4 as u64) << 32u64) | ((b5 as u64) << 40u64) | ((b6 as u64)
                << 48u64) | ((b7 as u64) << 56u64))
        } else {
            Err(BusError::AddressOutOfBounds)
        }
    }

    fn write_u8(&mut self, index: usize, data: u8) -> (r: Result<(), BusError>) {
        Ok(())
    }

    fn write_u16(&mut self, index: usize, data: u16) -> (r: Result<(), BusError>) {
        Ok(())
    }

    fn write_u32(&mut self, index: usize, data: u32) -> (r: Result<(), BusError>) {
        Ok(())
    }

    fn write_u64(&mut self, index: usize, data: u64) -> (r: Result<(), BusError>) {
        Ok(())
    }

    fn copy_into_slice(&self, index: usize, size: usize, dest: &mut Vec<u8>) -> (r: Result<
        (),
        BusError,
    >) {
        let n = self.data.len();
        if !(size <= n && index <= n - size) {
            return Err(BusError::AddressOutOfBounds);
        }
        if dest.len() != size {
            return Err(BusError::InvalidAddress);
        }
        let mut j: usize = 0;
        while j < size
            invariant
                j <= size,
                index + size <= self.data@.len(),
                index + size <= usize::MAX,
                dest@.len() == size,
                forall|k: int| 0 <= k < j ==> dest@[k] == self.data@[index + k],
            decreases size - j,
        {
            let b = self.data[index + j];
            dest[j] = b;
            j = j + 1;
        }
        proof {
            assert(dest@ =~= self.bytes().subrange(index as int, index + size));
        }
        Ok(())
    }
}

/// A stub keyboard: two registers that always read as zero; writes are
/// refused as unsupported.
pub struct KeyboardDevice;

impl BasicIo for KeyboardDevice {
    closed spec fn bytes(&self) -> Seq<u8> {
        seq![0u8, 0u8]
    }

    closed spec fn zero_reads(&self) -> bool {
        true
    }

    closed spec fn writes_ok(&self) -> bool {
        false
    }

    closed spec fn writes_stick(&self) -> bool {
        false
    }

    fn len(&self) -> (r: usize) {
        2
    }

    fn read_u8(&self, index: usize) -> (r: Result<u8, BusError>) {
        Ok(0)
    }

    fn read_u16(&self, index: usize) -> (r: Result<u16, BusError>) {
        proof {
            crate::lebytes::lemma_le_zero();
        }
        Ok(0)
    }

    fn read_u32(&self, index: usize) -> (r: Result<u32, BusError>) {
        proof {
            crate::lebytes::lemma_le_zero();
        }
        Ok(0)
    }

    fn read_u64(&self, index: usize) -> (r: Result<u64, BusError>) {
        proof {
            crate::lebytes::lemma_le_zero();
        }
        Ok(0)
    }

    fn write_u8(&mut self, index: usize, data: u8) -> (r: Result<(), BusError>) {
        Err(BusError::Unsupported)
    }

    fn write_u16(&mut self, index: usize, data: u16) -> (r: Result<(), BusError>) {
        Err(BusError::Unsupported)
    }

    fn write_u32(&mut self, index: usize, data: u32) -> (r: Result<(), BusError>) {
        Err(BusError::Unsupported)
    }

    fn write_u64(&mut self, index: usize, data: u64) -> (r: Result<(), BusError>) {
        Err(BusError::Unsupported)
    }

    fn copy_into_slice(&self, index: usize, size: usize, dest: &mut Vec<u8>) -> (r: Result<
        (),
        BusError,
    >) {
        if !(size <= 2 && index <= 2 - size) {
            return Err(BusError::AddressOutOfBounds);
        }
        if dest.len() != size {
            return Err(BusError::InvalidAddress);
        }
        let mut j: usize = 0;
        while j < size
            invariant
                j <= size,
                size <= 2,
                dest@.len() == size,
                forall|k: int| 0 <= k < j ==> dest@[k] == 0u8,
            decreases size - j,
        {
            dest[j] = 0;
            j = j + 1;
        }
        proof {
            assert(dest@ =~= self.bytes().subrange(index as int, index + size));
        }
        Ok(())
    }
}

/// One concrete device pluggable into the device manager, dispatched as a
/// closed set of variants so decode order stays linear and first-match-wins.
pub enum IoDevice {
    Memory(Memory),
    Rom(RomDevice),
    Keyboard(KeyboardDevice),
}

impl BasicIo for IoDevice {
    closed spec fn bytes(&self) -> Seq<u8> {
        match self {
            IoDevice::Memory(d) => d.bytes(),
            IoDevice::Rom(d) => d.bytes(),
            IoDevice::Keyboard(d) => d.bytes(),
        }
    }

    closed spec fn zero_reads(&self) -> bool {
        match self {
            IoDevice::Memory(d) => d.zero_reads(),
            IoDevice::Rom(d) => d.zero_reads(),
            IoDevice::Keyboard(d) => d.zero_reads(),
        }
    }

    closed spec fn writes_ok(&self) -> bool {
        match self {
            IoDevice::Memory(d) => d.writes_ok(),
            IoDevice::Rom(d) => d.writes_ok(),
            IoDevice::Keyboard(d) => d.writes_ok(),
        }
    }

    closed spec fn writes_stick(&self) -> bool {
        match self {
            IoDevice::Memory(d) => d.writes_stick(),
            IoDevice::Rom(d) => d.writes_stick(),
            IoDevice::Keyboard(d) => d.writes_stick(),
        }
    }

    fn len(&self) -> (r: usize) {
        match self {
            IoDevice::Memory(d) => d.len(),
            IoDevice::Rom(d) => d.len(),
            IoDevice::Keyboard(d) => d.len(),
        }
    }

    fn read_u8(&self, index: usize) -> (r: Result<u8, BusError>) {
        match self {
            IoDevice::Memory(d) => d.read_u8(index),
            IoDevice::Rom(d) => d.read_u8(index),
            IoDevice::Keyboard(d) => d.read_u8(index),
        }
    }

    fn read_u16(&self, index: usize) -> (r: Result<u16, BusError>) {
        match self {
            IoDevice::Memory(d) => d.read_u16(index),
            IoDevice::Rom(d) => d.read_u16(index),
            IoDevice::Keyboard(d) => d.read_u16(index),
        }
    }

    fn read_u32(&self, index: usize) -> (r: Result<u32, BusError>) {
        match self {
            IoDevice::Memory(d) => d.read_u32(index),
            IoDevice::Rom(d) => d.read_u32(index),
            IoDevice::Keyboard(d) => d.read_u32(index),
        }
    }

    fn read_u64(&self, index: usize) -> (r: Result<u64, BusError>) {
        match self {
            IoDevice::Memory(d) => d.read_u64(index),
            IoDevice::Rom(d) => d.read_u64(index),
            IoDevice::Keyboard(d) => d.read_u64(index),
        }
    }

    fn write_u8(&mut self, index: usize, data: u8) -> (r: Result<(), BusError>) {
        match self {
            IoDevice::Memory(d) => d.write_u8(index, data),
            IoDevice::Rom(d) => d.write_u8(index, data),
            IoDevice::Keyboard(d) => d.write_u8(index, data),
        }
    }

    fn write_u16(&mut self, index: usize, data: u16) -> (r: Result<(), BusError>) {
        match self {
            IoDevice::Memory(d) => d.write_u16(index, data),
            IoDevice::Rom(d) => d.write_u16(index, data),
            IoDevice::Keyboard(d) => d.write_u16(index, data),
        }
    }

    fn write_u32(&mut self, index: usize, data: u32) -> (r: Result<(), BusError>) {
        match self {
            IoDevice::Memory(d) => d.write_u32(index, data),
            IoDevice::Rom(d) => d.write_u32(index, data),
            IoDevice::Keyboard(d) => d.write_u32(index, data),
        }
    }

    fn write_u64(&mut self, index: usize, data: u64) -> (r: Result<(), BusError>) {
        match self {
            IoDevice::Memory(d) => d.write_u64(index, data),
            IoDevice::Rom(d) => d.write_u64(index, data),
            IoDevice::Keyboard(d) => d.write_u64(index, data),
        }
    }

    fn copy_into_slice(&self, index: usize, size: usize, dest: &mut Vec<u8>) -> (r: Result<
        (),
        BusError,
    >) {
        match self {
            IoDevice::Memory(d) => d.copy_into_slice(index, size, dest),
            IoDevice::Rom(d) => d.copy_into_slice(index, size, dest),
            IoDevice::Keyboard(d) => d.copy_into_slice(index, size, dest),
        }
    }
}

/// A device registered at a base address in the manager's address space.
pub struct DeviceDefinition {
    pub start: usize,
    pub io: IoDevice,
}

/// Whether `d`'s interval `[start, start + len)` contains `index`.
pub open spec fn spec_contains(d: DeviceDefinition, index: usize) -> bool {
    d.start <= index < d.start + d.io.bytes().len()
}

/// The index of the first registered device whose interval contains `index`,
/// in registration order.
pub open spec fn spec_find(devs: Seq<DeviceDefinition>, index: usize) -> Option<int>
    decreases devs.len(),
{
    if devs.len() == 0 {
        None
    } else if spec_contains(devs[0], index) {
        Some(0int)
    } else {
        match spec_find(devs.skip(1), index) {
            Some(i) => Some(i + 1),
            None => None,
        }
    }
}

/// `spec_find` returns the first match in registration order.
pub proof fn lemma_find_first(devs: Seq<DeviceDefinition>, index: usize, i: int)
    requires
        0 <= i < devs.len(),
        spec_contains(devs[i], index),
        forall|j: int| 0 <= j < i ==> !spec_contains(devs[j], index),
    ensures
        spec_find(devs, index) == Some(i),
    decreases i,
{
    if i == 0 {
    } else {
        lemma_find_first(devs.skip(1), index, i - 1);
    }
}

/// An address contained in no registered device's interval finds nothing.
pub proof fn lemma_find_none(devs: Seq<DeviceDefinition>, index: usize)
    requires
        forall|j: int| 0 <= j < devs.len() ==> !spec_contains(devs[j], index),
    ensures
        spec_find(devs, index) is None,
    decreases devs.len(),
{
    if devs.len() > 0 {
        lemma_find_none(devs.skip(1), index);
    }
}

/// An ordered table of registered devices; the first device whose interval
/// contains an address is authoritative, overlapping registrations are not
/// rejected. Reads of addresses outside every device return 0 and writes to
/// them are dropped.
pub struct DeviceManager {
    devices: Vec<DeviceDefinition>,
}

impl View for DeviceManager {
    type V = Seq<DeviceDefinition>;

    closed spec fn view(&self) -> Seq<DeviceDefinition> {
        self.devices@
    }
}

impl DeviceManager {
    /// A manager with no devices registered.
    pub fn new() -> (r: Self)
        ensures
            r@ == Seq::<DeviceDefinition>::empty(),
    {
        DeviceManager { devices: Vec::new() }
    }

    /// Registers `io` at base address `start`, after all earlier
    /// registrations.
    pub fn add_device(&mut self, start: usize, io: IoDevice)
        ensures
            final(self)@ == old(self)@.push((DeviceDefinition { start, io })),
    {
        self.devices.push(DeviceDefinition { start, io });
    }

    /// Reads the byte at `index` from the first device containing it, or 0
    /// if no device does.
    pub fn read_u8(&self, index: usize) -> (r: u8)
        ensures
            ({
                match spec_find(self@, index) {
                    Some(i) => r == self@[i].io.bytes()[index - self@[i].start],
                    None => r == 0,
                }
            }),
    {
        let n = self.devices.len();
        let mut i: usize = 0;
        while i < n
            invariant
                i <= n,
                n == self@.len(),
                forall|j: int| 0 <= j < i ==> !spec_contains(self@[j], index),
            decreases n - i,
        {
            let d = &self.devices[i];
            let dl = d.io.len();
            if index >= d.start && index - d.start < dl {
                proof {
                    lemma_find_first(self@, index, i as int);
                }
                let rel = index - d.start;
                let b = match d.io.read_u8(rel) {
                    Ok(b) => b,
                    Err(_) => {
                        proof {
                            assert(false);
                        }
                        0
                    },
                };
                return b;
            }
            i = i + 1;
        }
        proof {
            lemma_find_none(self@, index);
        }
        0
    }

    /// Writes `data` to the byte at `index` in the first device containing
    /// it; a write outside every device changes nothing, and a device that
    /// refuses or discards writes keeps its contents.
    pub fn write_u8(&mut self, index: usize, data: u8)
        ensures
            final(self)@.len() == old(self)@.len(),
            spec_find(old(self)@, index) is None ==> final(self)@ == old(self)@,
            ({
                match spec_find(old(self)@, index) {
                    Some(i) => {
                        let d = old(self)@[i];
                        let d2 = final(self)@[i];
                        let rel = index - d.start;
                        &&& forall|j: int|
                            0 <= j < old(self)@.len() && j != i ==> final(self)@[j] == old(
                                self,
                            )@[j]
                        &&& d2.start == d.start
                        &&& d2.io.bytes().len() == d.io.bytes().len()
                        &&& d2.io.zero_reads() == d.io.zero_reads()
                        &&& d2.io.writes_ok() == d.io.writes_ok()
                        &&& d2.io.writes_stick() == d.io.writes_stick()
                        &&& d.io.writes_ok() && d.io.writes_stick() ==> d2.io.bytes()
                            == d.io.bytes().update(rel, data)
                        &&& !(d.io.writes_ok() && d.io.writes_stick()) ==> d2.io.bytes()
                            == d.io.bytes()
                    },
                    None => true,
                }
            }),
    {
        let n = self.devices.len();
        let mut i: usize = 0;
        while i < n
            invariant
                i <= n,
                n == self@.len(),
                self@ == old(self)@,
                forall|j: int| 0 <= j < i ==> !spec_contains(self@[j], index),
            decreases n - i,
        {
            let d = &self.devices[i];
            let dl = d.io.len();
            if index >= d.start && index - d.start < dl {
                proof {
                    lemma_find_first(self@, index, i as int);
                }
                let rel = index - d.start;
                let mut moved = self.devices.remove(i);
                let _ = moved.io.write_u8(rel, data);
                self.devices.insert(i, moved);
                proof {
                    assert(self.devices@ =~= old(self)@.update(i as int, self.devices@[i as int]));
                }
                return ;
            }
            i = i + 1;
        }
        proof {
            lemma_find_none(self@, index);
        }
    }

    /// Copies `size` bytes at `index` out of the first device containing
    /// `index` into `dest`; if no device contains it, or the range or
    /// `dest`'s length does not fit, `dest` is left unchanged.
    pub fn copy_into_slice(&self, index: usize, size: usize, dest: &mut Vec<u8>)
        ensures
            ({
                match spec_find(self@, index) {
                    Some(i) => {
                        let d = self@[i];
                        let rel = index - d.start;
                        if rel + size <= d.io.bytes().len() && old(dest)@.len() == size {
                            final(dest)@ == d.io.bytes().subrange(rel as int, rel + size)
                        } else {
                            final(dest)@ == old(dest)@
                        }
                    },
                    None => final(dest)@ == old(dest)@,
                }
            }),
    {
        let n = self.devices.len();
        let mut i: usize = 0;
        while i < n
            invariant
                i <= n,
                n == self@.len(),
                dest@ == old(dest)@,
                forall|j: int| 0 <= j < i ==> !spec_contains(self@[j], index),
            decreases n - i,
        {
            let d = &self.devices[i];
            let dl = d.io.len();
            if index >= d.start && index - d.start < dl {
                proof {
                    lemma_find_first(self@, index, i as int);
                }
                let rel = index - d.start;
                let _ = d.io.copy_into_slice(rel, size, dest);
                return ;
            }
            i = i + 1;
        }
        proof {
            lemma_find_none(self@, index);
        }
    }
}

} // verus!
