use vstd::prelude::*;

use crate::errors::BusError;
use crate::lebytes::{
    le16, le32, le64, lemma_le16_of_bytes, lemma_le32_of_bytes, lemma_le64_of_bytes, u16_byte,
    u32_byte, u64_byte,
};

verus! {

/// Number of bytes in the default physical address space.
pub const MEMORY_SIZE: usize = 65535;

/// Flat, fixed-size byte address space with little-endian typed accessors.
///
/// Every operation checks that the whole accessed range lies within the
/// allocated extent and fails with `AddressOutOfBounds` otherwise; multi-byte
/// values are always little-endian.
pub struct PhysicalMemory {
    bytes: Vec<u8>,
}

impl View for PhysicalMemory {
    type V = Seq<u8>;

    closed spec fn view(&self) -> Seq<u8> {
        self.bytes@
    }
}

impl Default for PhysicalMemory {
    /// A zero-filled store of `MEMORY_SIZE` bytes.
    fn default() -> (r: Self)
        ensures
            r@.len() == MEMORY_SIZE,
            forall|i: int| 0 <= i < r@.len() ==> r@[i] == 0u8,
    {
        PhysicalMemory::new(MEMORY_SIZE)
    }
}

impl PhysicalMemory {
    /// A zero-filled store of `size` bytes.
    pub fn new(size: usize) -> (r: Self)
        ensures
            r@.len() == size,
            forall|i: int| 0 <= i < r@.len() ==> r@[i] == 0u8,
    {
        let mut bytes: Vec<u8> = Vec::new();
        let mut n: usize = 0;
        while n < size
            invariant
                n <= size,
                bytes@.len() == n,
                forall|i: int| 0 <= i < n ==> bytes@[i] == 0u8,
            decreases size - n,
        {
            bytes.push(0u8);
            n = n + 1;
        }
        PhysicalMemory { bytes }
    }

    /// The length of the store in bytes.
    pub fn len(&self) -> (r: usize)
        ensures
            r == self@.len(),
    {
        self.bytes.len()
    }

    /// Reads the byte at `index`.
    pub fn read_u8(&self, index: usize) -> (r: Result<u8, BusError>)
        ensures
            index < self@.len() ==> r == Ok::<u8, BusError>(self@[index as int]),
            index >= self@.len() ==> r == Err::<u8, BusError>(BusError::AddressOutOfBounds),
    {
        if index < self.bytes.len() {
            Ok(self.bytes[index])
        } else {
            Err(BusError::AddressOutOfBounds)
        }
    }

    /// Writes `value` to the byte at `index`.
    pub fn write_u8(&mut self, index: usize, value: u8) -> (r: Result<(), BusError>)
        ensures
            index < old(self)@.len() ==> r == Ok::<(), BusError>(()) && final(self)@
                == old(self)@.update(index as int, value),
            index >= old(self)@.len() ==> r == Err::<(), BusError>(BusError::AddressOutOfBounds)
                && final(self)@ == old(self)@,
    {
        if index < self.bytes.len() {
            self.bytes[index] = value;
            Ok(())
        } else {
            Err(BusError::AddressOutOfBounds)
        }
    }

    /// Reads `size` bytes starting at `index`.
    pub fn read_slice_u8(&self, index: usize, size: usize) -> (r: Result<Vec<u8>, BusError>)
        ensures
            index + size <= self@.len() ==> (r matches Ok(v) && v@ == self@.subrange(
                index as int,
                index + size,
            )),
            index + size > self@.len() ==> r == Err::<Vec<u8>, BusError>(
                BusError::AddressOutOfBounds,
            ),
    {
        if size <= self.bytes.len() && index <= self.bytes.len() - size {
            let mut out: Vec<u8> = Vec::new();
            let mut j: usize = 0;
            while j < size
                invariant
                    j <= size,
                    index + size <= self.bytes@.len(),
                    index + size <= usize::MAX,
                    out@ == self.bytes@.subrange(index as int, index + j),
                decreases size - j,
            {
                out.push(self.bytes[index + j]);
                proof {
                    assert(self.bytes@.subrange(index as int, index + j + 1)
                        =~= self.bytes@.subrange(index as int, index + j).push(
                        self.bytes@[index + j],
                    ));
                }
                j = j + 1;
            }
            Ok(out)
        } else {
            Err(BusError::AddressOutOfBounds)
        }
    }

    /// Writes all of `slice` starting at `index`.
    pub fn write_slice_u8(&mut self, index: usize, slice: &[u8]) -> (r: Result<(), BusError>)
        ensures
            final(self)@.len() == old(self)@.len(),
            index + slice@.len() <= old(self)@.len() ==> r == Ok::<(), BusError>(())
                && (forall|k: int| 0 <= k < slice@.len() ==> final(self)@[index + k] == slice@[k])
                && (forall|m: int|
                0 <= m < old(self)@.len() && !(index <= m < index + slice@.len())
                    ==> final(self)@[m] == old(self)@[m]),
            index + slice@.len() > old(self)@.len() ==> r == Err::<(), BusError>(
                BusError::AddressOutOfBounds,
            ) && final(self)@ == old(self)@,
    {
        let size = slice.len();
        if size <= self.bytes.len() && index <= self.bytes.len() - size {
            let mut j: usize = 0;
            while j < size
                invariant
                    j <= size,
                    size == slice@.len(),
                    index + size <= self.bytes@.len(),
                    index + size <= usize::MAX,
                    self.bytes@.len() == old(self)@.len(),
                    forall|k: int| 0 <= k < j ==> self.bytes@[index + k] == slice@[k],
                    forall|m: int|
                        0 <= m < old(self)@.len() && !(index <= m < index + j)
                            ==> self.bytes@[m] == old(self)@[m],
                decreases size - j,
            {
                self.bytes[index + j] = slice[j];
                j = j + 1;
            }
            Ok(())
        } else {
            Err(BusError::AddressOutOfBounds)
        }
    }

    /// Reads a 16-bit little-endian value starting at `index`.
    pub fn read_u16(&self, index: usize) -> (r: Result<u16, BusError>)
        ensures
            index + 2 <= self@.len() ==> r == Ok::<u16, BusError>(
                le16(self@[index as int], self@[index + 1]),
            ),
            index + 2 > self@.len() ==> r == Err::<u16, BusError>(BusError::AddressOutOfBounds),
    {
        if self.bytes.len() >= 2 && index <= self.bytes.len() - 2 {
            let b0 = self.bytes[index];
            let b1 = self.bytes[index + 1];
            Ok((b0 as u16) | ((b1 as u16) << 8u16))
        } else {
            Err(BusError::AddressOutOfBounds)
        }
    }

    /// Reads a 32-bit little-endian value starting at `index`.
    pub fn read_u32(&self, index: usize) -> (r: Result<u32, BusError>)
        ensures
            index + 4 <= self@.len() ==> r == Ok::<u32, BusError>(
                le32(self@[index as int], self@[index + 1], self@[index + 2], self@[index + 3]),
            ),
            index + 4 > self@.len() ==> r == Err::<u32, BusError>(BusError::AddressOutOfBounds),
    {
        if self.bytes.len() >= 4 && index <= self.bytes.len() - 4 {
            let b0 = self.bytes[index];
            let b1 = self.bytes[index + 1];
            let b2 = self.bytes[index + 2];
            let b3 = self.bytes[index + 3];
            Ok((b0 as u32) | ((b1 as u32) << 8u32) | ((b2 as u32) << 16u32) | ((b3 as u32)
                << 24u32))
        } else {
            Err(BusError::AddressOutOfBounds)
        }
    }

    /// Reads a 64-bit little-endian value starting at `index`.
    pub fn read_u64(&self, index: usize) -> (r: Result<u64, BusError>)
        ensures
            index + 8 <= self@.len() ==> r == Ok::<u64, BusError>(
                le64(
                    self@[index as int],
                    self@[index + 1],
                    self@[index + 2],
                    self@[index + 3],
                    self@[index + 4],
                    self@[index + 5],
                    self@[index + 6],
                    self@[index + 7],
                ),
            ),
            index + 8 > self@.len() ==> r == Err::<u64, BusError>(BusError::AddressOutOfBounds),
    {
        if self.bytes.len() >= 8 && index <= self.bytes.len() - 8 {
            let b0 = self.bytes[index];
            let b1 = self.bytes[index + 1];
            let b2 = self.bytes[index + 2];
            let b3 = self.bytes[index + 3];
            let b4 = self.bytes[index + 4];
            let b5 = self.bytes[index + 5];
            let b6 = self.bytes[index + 6];
            let b7 = self.bytes[index + 7];
            Ok((b0 as u64) | ((b1 as u64) << 8u64) | ((b2 as u64) << 16u64) | ((b3 as u64)
                << 24u64) | ((b4 as u64) << 32u64) | ((b5 as u64) << 40u64) | ((b6 as u64)
                << 48u64) | ((b7 as u64) << 56u64))
        } else {
            Err(BusError::AddressOutOfBounds)
        }
    }

    /// Reads `size / 4` 32-bit little-endian values starting at `index`.
    /// When `size` is not a multiple of the element size the trailing bytes
    /// are silently discarded: that loss is documented behaviour, not an
    /// error. The whole requested byte range must still fit in the extent.
    pub fn read_slice_u32(&self, index: usize, size: usize) -> (r: Result<Vec<u32>, BusError>)
        ensures
            index + size <= self@.len() ==> (r matches Ok(v) && v@.len() == size / 4 && (forall|
                k: int,
            |
                0 <= k < size / 4 ==> v@[k] == le32(
                    self@[index + 4 * k],
                    self@[index + 4 * k + 1],
                    self@[index + 4 * k + 2],
                    self@[index + 4 * k + 3],
                ))),
            index + size > self@.len() ==> r == Err::<Vec<u32>, BusError>(
                BusError::AddressOutOfBounds,
            ),
    {
        if size <= self.bytes.len() && index <= self.bytes.len() - size {
            let count = size / 4;
            let mut out: Vec<u32> = Vec::new();
            let mut j: usize = 0;
            while j < count
                invariant
                    j <= count,
                    count == size / 4,
                    index + size <= self@.len(),
                    index + size <= usize::MAX,
                    out@.len() == j,
                    forall|k: int|
                        0 <= k < j ==> out@[k] == le32(
                            self@[index + 4 * k],
                            self@[index + 4 * k + 1],
                            self@[index + 4 * k + 2],
                            self@[index + 4 * k + 3],
                        ),
                decreases count - j,
            {
                let value = match self.read_u32(index + 4 * j) {
                    Ok(v) => v,
                    Err(_) => {
                        proof {
                            assert(false);
                        }
                        0
                    },
                };
                out.push(value);
                j = j + 1;
            }
            Ok(out)
        } else {
            Err(BusError::AddressOutOfBounds)
        }
    }

    /// Writes every value of `values` as a 32-bit little-endian group,
    /// starting at `index`.
    pub fn write_slice_u32(&mut self, index: usize, values: &[u32]) -> (r: Result<(), BusError>)
        ensures
            final(self)@.len() == old(self)@.len(),
            index + 4 * values@.len() <= old(self)@.len() ==> r == Ok::<(), BusError>(()) && (
            forall|k: int, b: u32|
                0 <= k < values@.len() && b < 4 ==> final(self)@[index + 4 * k + b] == u32_byte(
                    values@[k],
                    b,
                )) && (forall|m: int|
                0 <= m < old(self)@.len() && !(index <= m < index + 4 * values@.len()) ==> final(self)@[m] == old(self)@[m]),
            index + 4 * values@.len() > old(self)@.len() ==> r == Err::<(), BusError>(
                BusError::AddressOutOfBounds,
            ) && final(self)@ == old(self)@,
    {
        let count = values.len();
        let n = self.bytes.len();
        if !(count <= usize::MAX / 4 && 4 * count <= n && index <= n - 4 * count) {
            return Err(BusError::AddressOutOfBounds);
        }
        let mut j: usize = 0;
        while j < count
            invariant
                j <= count,
                count == values@.len(),
                index + 4 * count <= self@.len(),
                index + 4 * count <= usize::MAX,
                self@.len() == old(self)@.len(),
                forall|k: int, b: u32|
                    0 <= k < j && b < 4 ==> self@[index + 4 * k + b] == u32_byte(values@[k], b),
                forall|m: int|
                    0 <= m < old(self)@.len() && !(index <= m < index + 4 * j) ==> self@[m] == old(self)@[m],
            decreases count - j,
        {
            let ok = self.write_u32(index + 4 * j, values[j]);
            proof {
                assert(ok is Ok);
            }
            j = j + 1;
        }
        Ok(())
    }

    /// Writes a 16-bit value little-endian starting at `index`.
    pub fn write_u16(&mut self, index: usize, data: u16) -> (r: Result<(), BusError>)
        ensures
            final(self)@.len() == old(self)@.len(),
            index + 2 <= old(self)@.len() ==> r == Ok::<(), BusError>(())
                && (forall|k: u16| k < 2 ==> final(self)@[index + k] == u16_byte(data, k))
                && (forall|m: int|
                0 <= m < old(self)@.len() && !(index <= m < index + 2)
                    ==> final(self)@[m] == old(self)@[m]),
            index + 2 > old(self)@.len() ==> r == Err::<(), BusError>(
                BusError::AddressOutOfBounds,
            ) && final(self)@ == old(self)@,
    {
        if self.bytes.len() >= 2 && index <= self.bytes.len() - 2 {
            let b0 = ((data >> 0u16) & 0xFF) as u8;
            let b1 = ((data >> 8u16) & 0xFF) as u8;
            self.bytes[index] = b0;
            self.bytes[index + 1] = b1;
            proof {
                assert forall|k: u16| k < 2 implies final(self)@[index + k] == u16_byte(
                    data,
                    k,
                ) by {
                    assert(k == 0 || k == 1);
                }
            }
            Ok(())
        } else {
            Err(BusError::AddressOutOfBounds)
        }
    }

    /// Writes a 32-bit value little-endian starting at `index`.
    pub fn write_u32(&mut self, index: usize, data: u32) -> (r: Result<(), BusError>)
        ensures
            final(self)@.len() == old(self)@.len(),
            index + 4 <= old(self)@.len() ==> r == Ok::<(), BusError>(())
                && (forall|k: u32| k < 4 ==> final(self)@[index + k] == u32_byte(data, k))
                && (forall|m: int|
                0 <= m < old(self)@.len() && !(index <= m < index + 4)
                    ==> final(self)@[m] == old(self)@[m]),
            index + 4 > old(self)@.len() ==> r == Err::<(), BusError>(
                BusError::AddressOutOfBounds,
            ) && final(self)@ == old(self)@,
    {
        if self.bytes.len() >= 4 && index <= self.bytes.len() - 4 {
            let b0 = ((data >> 0u32) & 0xFF) as u8;
            let b1 = ((data >> 8u32) & 0xFF) as u8;
            let b2 = ((data >> 16u32) & 0xFF) as u8;
            let b3 = ((data >> 24u32) & 0xFF) as u8;
            self.bytes[index] = b0;
            self.bytes[index + 1] = b1;
            self.bytes[index + 2] = b2;
            self.bytes[index + 3] = b3;
            proof {
                assert forall|k: u32| k < 4 implies final(self)@[index + k] == u32_byte(
                    data,
                    k,
                ) by {
                    assert(k == 0 || k == 1 || k == 2 || k == 3);
                }
            }
            Ok(())
        } else {
            Err(BusError::AddressOutOfBounds)
        }
    }

    /// Writes a 64-bit value little-endian starting at `index`.
    pub fn write_u64(&mut self, index: usize, data: u64) -> (r: Result<(), BusError>)
        ensures
            final(self)@.len() == old(self)@.len(),
            index + 8 <= old(self)@.len() ==> r == Ok::<(), BusError>(())
                && (forall|k: u64| k < 8 ==> final(self)@[index + k] == u64_byte(data, k))
                && (forall|m: int|
                0 <= m < old(self)@.len() && !(index <= m < index + 8)
                    ==> final(self)@[m] == old(self)@[m]),
            index + 8 > old(self)@.len() ==> r == Err::<(), BusError>(
                BusError::AddressOutOfBounds,
            ) && final(self)@ == old(self)@,
    {
        if self.bytes.len() >= 8 && index <= self.bytes.len() - 8 {
            let b0 = ((data >> 0u64) & 0xFF) as u8;
            let b1 = ((data >> 8u64) & 0xFF) as u8;
            let b2 = ((data >> 16u64) & 0xFF) as u8;
            let b3 = ((data >> 24u64) & 0xFF) as u8;
            let b4 = ((data >> 32u64) & 0xFF) as u8;
            let b5 = ((data >> 40u64) & 0xFF) as u8;
            let b6 = ((data >> 48u64) & 0xFF) as u8;
            let b7 = ((data >> 56u64) & 0xFF) as u8;
            self.bytes[index] = b0;
            self.bytes[index + 1] = b1;
            self.bytes[index + 2] = b2;
            self.bytes[index + 3] = b3;
            self.bytes[index + 4] = b4;
            self.bytes[index + 5] = b5;
            self.bytes[index + 6] = b6;
            self.bytes[index + 7] = b7;
            proof {
                assert forall|k: u64| k < 8 implies final(self)@[index + k] == u64_byte(
                    data,
                    k,
                ) by {
                    assert(k == 0 || k == 1 || k == 2 || k == 3 || k == 4 || k == 5 || k == 6
                        || k == 7);
                }
            }
            Ok(())
        } else {
            Err(BusError::AddressOutOfBounds)
        }
    }
}


/// A 16-bit little-endian write followed by a 16-bit read of the same
/// address returns the value written: a store whose bytes at `index` are the
/// value's little-endian bytes reads back as that value.
pub proof fn lemma_write_read_u16(s: Seq<u8>, index: int, data: u16)
    requires
        0 <= index,
        index + 2 <= s.len(),
        forall|k: u16| k < 2 ==> s[index + k] == u16_byte(data, k),
    ensures
        le16(s[index], s[index + 1]) == data,
{
    assert(s[index + 0u16] == u16_byte(data, 0));
    assert(s[index + 1u16] == u16_byte(data, 1));
    lemma_le16_of_bytes(data);
}

/// A 32-bit little-endian write followed by a 32-bit read of the same
/// address returns the value written.
pub proof fn lemma_write_read_u32(s: Seq<u8>, index: int, data: u32)
    requires
        0 <= index,
        index + 4 <= s.len(),
        forall|k: u32| k < 4 ==> s[index + k] == u32_byte(data, k),
    ensures
        le32(s[index], s[index + 1], s[index + 2], s[index + 3]) == data,
{
    assert(s[index + 0u32] == u32_byte(data, 0));
    assert(s[index + 1u32] == u32_byte(data, 1));
    assert(s[index + 2u32] == u32_byte(data, 2));
    assert(s[index + 3u32] == u32_byte(data, 3));
    lemma_le32_of_bytes(data);
}

/// A 64-bit little-endian write followed by a 64-bit read of the same
/// address returns the value written.
pub proof fn lemma_write_read_u64(s: Seq<u8>, index: int, data: u64)
    requires
        0 <= index,
        index + 8 <= s.len(),
        forall|k: u64| k < 8 ==> s[index + k] == u64_byte(data, k),
    ensures
        le64(
            s[index],
            s[index + 1],
            s[index + 2],
            s[index + 3],
            s[index + 4],
            s[index + 5],
            s[index + 6],
            s[index + 7],
        ) == data,
{
    assert(s[index + 0u64] == u64_byte(data, 0));
    assert(s[index + 1u64] == u64_byte(data, 1));
    assert(s[index + 2u64] == u64_byte(data, 2));
    assert(s[index + 3u64] == u64_byte(data, 3));
    assert(s[index + 4u64] == u64_byte(data, 4));
    assert(s[index + 5u64] == u64_byte(data, 5));
    assert(s[index + 6u64] == u64_byte(data, 6));
    assert(s[index + 7u64] == u64_byte(data, 7));
    lemma_le64_of_bytes(data);
}

} // verus!
