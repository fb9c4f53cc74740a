use vstd::prelude::*;

use crate::errors::BusError;
use crate::lebytes::{le16, le32, le64, u16_byte, u32_byte, u64_byte};

verus! {

/// Byte `j` (0 = least significant) of a 64-bit word.
pub open spec fn word_byte(w: u64, j: u64) -> u8
    recommends
        j < 8,
{
    ((w >> (8 * j) as u64) & 0xFF) as u8
}

/// The byte contents of a sequence of 64-bit words, little-endian within
/// each word.
pub open spec fn words_bytes(words: Seq<u64>) -> Seq<u8> {
    Seq::new(words.len() * 8, |i: int| word_byte(words[i / 8], (i % 8) as u64))
}

/// Updating one byte of a word changes exactly that byte of it.
proof fn lemma_word_byte_update(w: u64, j: u64, jp: u64, d: u8)
    requires
        j < 8,
        jp < 8,
    ensures
        word_byte((w & !(0xFFu64 << (8 * j) as u64)) | ((d as u64) << (8 * j) as u64), jp) == (
        if j == jp {
            d
        } else {
            word_byte(w, jp)
        }),
{
    let w2 = (w & !(0xFFu64 << (8 * j) as u64)) | ((d as u64) << (8 * j) as u64);
    assert(((w2 >> (8 * jp) as u64) & 0xFF) as u8 == (if j == jp {
        d
    } else {
        ((w >> (8 * jp) as u64) & 0xFF) as u8
    })) by (bit_vector)
        requires
            j < 8,
            jp < 8,
            w2 == (w & !(0xFFu64 << (8 * j) as u64)) | ((d as u64) << (8 * j) as u64),
    ;
}

/// Every byte of a zero word is zero.
proof fn lemma_word_byte_zero(j: u64)
    requires
        j < 8,
    ensures
        word_byte(0u64, j) == 0,
{
    assert(((0u64 >> (8 * j) as u64) & 0xFF) as u8 == 0) by (bit_vector)
        requires
            j < 8,
    ;
}

/// The basic read and write operations of a device on the 64-bit bus.
///
/// Contracts are stated over three per-device facts: the device's visible
/// byte contents (`bytes`), whether out-of-range reads yield zero instead of
/// an error (`zero_reads`), whether writes are accepted at all (`writes_ok`),
/// and whether accepted writes change the contents (`writes_stick`).
/// Multi-byte values are always little-endian.
pub trait BasicIo: Sized {
    /// The device's visible byte contents.
    spec fn bytes(&self) -> Seq<u8>;

    /// Whether reads outside the extent yield zero rather than an error.
    spec fn zero_reads(&self) -> bool;

    /// Whether writes are accepted at all.
    spec fn writes_ok(&self) -> bool;

    /// Whether accepted writes change the contents.
    spec fn writes_stick(&self) -> bool;

    /// The length of the device's contents in bytes.
    fn len(&self) -> (r: usize)
        ensures
            r == self.bytes().len(),
    ;

    /// Reads the byte at `index`.
    fn read_u8(&self, index: usize) -> (r: Result<u8, BusError>)
        ensures
            index < self.bytes().len() ==> r == Ok::<u8, BusError>(self.bytes()[index as int]),
            index >= self.bytes().len() && self.zero_reads() ==> r == Ok::<u8, BusError>(0),
            index >= self.bytes().len() && !self.zero_reads() ==> r == Err::<u8, BusError>(
                BusError::AddressOutOfBounds,
            ),
    ;

    /// Reads a 16-bit little-endian value starting at `index`.
    fn read_u16(&self, index: usize) -> (r: Result<u16, BusError>)
        ensures
            index + 2 <= self.bytes().len() ==> r == Ok::<u16, BusError>(
                le16(self.bytes()[index as int], self.bytes()[index + 1]),
            ),
            index + 2 > self.bytes().len() && self.zero_reads() ==> r == Ok::<u16, BusError>(0),
            index + 2 > self.bytes().len() && !self.zero_reads() ==> r == Err::<u16, BusError>(
                BusError::AddressOutOfBounds,
            ),
    ;

    /// Reads a 32-bit little-endian value starting at `index`.
    fn read_u32(&self, index: usize) -> (r: Result<u32, BusError>)
        ensures
            index + 4 <= self.bytes().len() ==> r == Ok::<u32, BusError>(
                le32(
                    self.bytes()[index as int],
                    self.bytes()[index + 1],
                    self.bytes()[index + 2],
                    self.bytes()[index + 3],
                ),
            ),
            index + 4 > self.bytes().len() && self.zero_reads() ==> r == Ok::<u32, BusError>(0),
            index + 4 > self.bytes().len() && !self.zero_reads() ==> r == Err::<u32, BusError>(
                BusError::AddressOutOfBounds,
            ),
    ;

    /// Reads a 64-bit little-endian value starting at `index`.
    fn read_u64(&self, index: usize) -> (r: Result<u64, BusError>)
        ensures
            index + 8 <= self.bytes().len() ==> r == Ok::<u64, BusError>(
                le64(
                    self.bytes()[index as int],
                    self.bytes()[index + 1],
                    self.bytes()[index + 2],
                    self.bytes()[index + 3],
                    self.bytes()[index + 4],
                    self.bytes()[index + 5],
                    self.bytes()[index + 6],
                    self.bytes()[index + 7],
                ),
            ),
            index + 8 > self.bytes().len() && self.zero_reads() ==> r == Ok::<u64, BusError>(0),
            index + 8 > self.bytes().len() && !self.zero_reads() ==> r == Err::<u64, BusError>(
                BusError::AddressOutOfBounds,
            ),
    ;

    /// Writes `data` to the byte at `index`.
    fn write_u8(&mut self, index: usize, data: u8) -> (r: Result<(), BusError>)
        ensures
            final(self).bytes().len() == old(self).bytes().len(),
            final(self).zero_reads() == old(self).zero_reads(),
            final(self).writes_ok() == old(self).writes_ok(),
            final(self).writes_stick() == old(self).writes_stick(),
            !old(self).writes_ok() ==> r == Err::<(), BusError>(BusError::Unsupported) && final(self).bytes() == old(self).bytes(),
            old(self).writes_ok() && !old(self).writes_stick() ==> r == Ok::<(), BusError>(())
                && final(self).bytes() == old(self).bytes(),
            old(self).writes_ok() && old(self).writes_stick() && index < old(self).bytes().len()
                ==> r == Ok::<(), BusError>(()) && final(self).bytes() == old(self).bytes().update(
                index as int,
                data,
            ),
            old(self).writes_ok() && old(self).writes_stick() && index >= old(self).bytes().len()
                ==> r == Err::<(), BusError>(BusError::AddressOutOfBounds) && final(self).bytes()
                == old(self).bytes(),
    ;

    /// Writes a 16-bit value little-endian starting at `index`.
    fn write_u16(&mut self, index: usize, data: u16) -> (r: Result<(), BusError>)
        ensures
            final(self).bytes().len() == old(self).bytes().len(),
            final(self).zero_reads() == old(self).zero_reads(),
            final(self).writes_ok() == old(self).writes_ok(),
            final(self).writes_stick() == old(self).writes_stick(),
            !old(self).writes_ok() ==> r == Err::<(), BusError>(BusError::Unsupported) && final(self).bytes() == old(self).bytes(),
            old(self).writes_ok() && !old(self).writes_stick() ==> r == Ok::<(), BusError>(())
                && final(self).bytes() == old(self).bytes(),
            old(self).writes_ok() && old(self).writes_stick() && index + 2 <= old(self).bytes().len() ==> r == Ok::<(), BusError>(()) && (forall|k: u16|
                k < 2 ==> final(self).bytes()[index + k] == u16_byte(data, k)) && (forall|m: int|
                0 <= m < old(self).bytes().len() && !(index <= m < index + 2) ==> final(self).bytes()[m] == old(self).bytes()[m]),
            old(self).writes_ok() && old(self).writes_stick() && index + 2 > old(self).bytes().len() ==> r == Err::<(), BusError>(BusError::AddressOutOfBounds) && final(self).bytes() == old(self).bytes(),
    ;

    /// Writes a 32-bit value little-endian starting at `index`.
    fn write_u32(&mut self, index: usize, data: u32) -> (r: Result<(), BusError>)
        ensures
            final(self).bytes().len() == old(self).bytes().len(),
            final(self).zero_reads() == old(self).zero_reads(),
            final(self).writes_ok() == old(self).writes_ok(),
            final(self).writes_stick() == old(self).writes_stick(),
            !old(self).writes_ok() ==> r == Err::<(), BusError>(BusError::Unsupported) && final(self).bytes() == old(self).bytes(),
            old(self).writes_ok() && !old(self).writes_stick() ==> r == Ok::<(), BusError>(())
                && final(self).bytes() == old(self).bytes(),
            old(self).writes_ok() && old(self).writes_stick() && index + 4 <= old(self).bytes().len() ==> r == Ok::<(), BusError>(()) && (forall|k: u32|
                k < 4 ==> final(self).bytes()[index + k] == u32_byte(data, k)) && (forall|m: int|
                0 <= m < old(self).bytes().len() && !(index <= m < index + 4) ==> final(self).bytes()[m] == old(self).bytes()[m]),
            old(self).writes_ok() && old(self).writes_stick() && index + 4 > old(self).bytes().len() ==> r == Err::<(), BusError>(BusError::AddressOutOfBounds) && final(self).bytes() == old(self).bytes(),
    ;

    /// Writes a 64-bit value little-endian starting at `index`.
    fn write_u64(&mut self, index: usize, data: u64) -> (r: Result<(), BusError>)
        ensures
            final(self).bytes().len() == old(self).bytes().len(),
            final(self).zero_reads() == old(self).zero_reads(),
            final(self).writes_ok() == old(self).writes_ok(),
            final(self).writes_stick() == old(self).writes_stick(),
            !old(self).writes_ok() ==> r == Err::<(), BusError>(BusError::Unsupported) && final(self).bytes() == old(self).bytes(),
            old(self).writes_ok() && !old(self).writes_stick() ==> r == Ok::<(), BusError>(())
                && final(self).bytes() == old(self).bytes(),
            old(self).writes_ok() && old(self).writes_stick() && index + 8 <= old(self).bytes().len() ==> r == Ok::<(), BusError>(()) && (forall|k: u64|
                k < 8 ==> final(self).bytes()[index + k] == u64_byte(data, k)) && (forall|m: int|
                0 <= m < old(self).bytes().len() && !(index <= m < index + 8) ==> final(self).bytes()[m] == old(self).bytes()[m]),
            old(self).writes_ok() && old(self).writes_stick() && index + 8 > old(self).bytes().len() ==> r == Err::<(), BusError>(BusError::AddressOutOfBounds) && final(self).bytes() == old(self).bytes(),
    ;

    /// Copies `size` bytes starting at `index` into `dest`, which must
    /// already have exactly `size` elements.
    fn copy_into_slice(&self, index: usize, size: usize, dest: &mut Vec<u8>) -> (r: Result<
        (),
        BusError,
    >)
        ensures
            index + size <= self.bytes().len() && old(dest)@.len() == size ==> r == Ok::<
                (),
                BusError,
            >(()) && final(dest)@ == self.bytes().subrange(index as int, index + size),
            index + size <= self.bytes().len() && old(dest)@.len() != size ==> r == Err::<
                (),
                BusError,
            >(BusError::InvalidAddress) && final(dest)@ == old(dest)@,
            index + size > self.bytes().len() ==> r == Err::<(), BusError>(
                BusError::AddressOutOfBounds,
            ) && final(dest)@ == old(dest)@,
    ;
}

/// A memory device backed by 64-bit words, byte-addressable little-endian.
pub struct Memory {
    buffer: Vec<u64>,
}

impl Memory {
    /// The backing words.
    pub closed spec fn words(&self) -> Seq<u64> {
        self.buffer@
    }

    #[verifier::type_invariant]
    spec fn inv(&self) -> bool {
        self.buffer@.len() * 8 <= usize::MAX
    }

    /// A zero-filled memory of `size / 8` words.
    pub fn new(size: usize) -> (r: Self)
        ensures
            r.bytes().len() == 8 * (size / 8),
            forall|i: int| 0 <= i < r.bytes().len() ==> r.bytes()[i] == 0u8,
    {
        let words = size / 8;
        let mut buffer: Vec<u64> = Vec::new();
        let mut n: usize = 0;
        while n < words
            invariant
                n <= words,
                buffer@.len() == n,
                forall|i: int| 0 <= i < n ==> buffer@[i] == 0u64,
            decreases words - n,
        {
            buffer.push(0u64);
            n = n + 1;
        }
        let r = Memory { buffer };
        proof {
            assert forall|i: int| 0 <= i < r.bytes().len() implies r.bytes()[i] == 0u8 by {
                lemma_word_byte_zero((i % 8) as u64);
            }
        }
        r
    }

    /// A memory wrapping an existing word buffer.
    pub fn new_from_ref(buffer: Vec<u64>) -> (r: Self)
        requires
            buffer@.len() * 8 <= usize::MAX,
        ensures
            r.bytes() == words_bytes(buffer@),
    {
        Memory { buffer }
    }

    /// Reads the byte at `index` directly from the backing word.
    fn get_byte(&self, index: usize) -> (r: u8)
        requires
            index < self.bytes().len(),
        ensures
            r == self.bytes()[index as int],
    {
        let w = self.buffer[index / 8];
        let sh = ((index % 8) * 8) as u64;
        ((w >> sh) & 0xFF) as u8
    }

    /// Writes the byte at `index` into the backing word, leaving the word's
    /// other bytes unchanged.
    fn set_byte(&mut self, index: usize, data: u8)
        requires
            index < old(self).bytes().len(),
        ensures
            final(self).bytes() == old(self).bytes().update(index as int, data),
    {
        proof {
            use_type_invariant(&*self);
        }
        let wi = index / 8;
        let sh = ((index % 8) * 8) as u64;
        let w = self.buffer[wi];
        let w2 = (w & !(0xFFu64 << sh)) | ((data as u64) << sh);
        self.buffer[wi] = w2;
        proof {
            let oldb = old(self).bytes();
            let newb = self.bytes();
            assert forall|m: int| 0 <= m < newb.len() implies newb[m] == oldb.update(
                index as int,
                data,
            )[m] by {
                if m / 8 == wi {
                    lemma_word_byte_update(w, (index % 8) as u64, (m % 8) as u64, data);
                }
            }
            assert(newb =~= oldb.update(index as int, data));
        }
    }
}

impl BasicIo for Memory {
    closed spec fn bytes(&self) -> Seq<u8> {
        words_bytes(self.buffer@)
    }

    closed spec fn zero_reads(&self) -> bool {
        false
    }

    closed spec fn writes_ok(&self) -> bool {
        true
    }

    closed spec fn writes_stick(&self) -> bool {
        true
    }

    fn len(&self) -> (r: usize) {
        proof {
            use_type_invariant(&*self);
        }
        self.buffer.len() * 8
    }

    fn read_u8(&self, index: usize) -> (r: Result<u8, BusError>) {
        if index < self.len() {
            Ok(self.get_byte(index))
        } else {
            Err(BusError::AddressOutOfBounds)
        }
    }

    fn read_u16(&self, index: usize) -> (r: Result<u16, BusError>) {
        let n = self.len();
        if n >= 2 && index <= n - 2 {
            let b0 = self.get_byte(index);
            let b1 = self.get_byte(index + 1);
            Ok((b0 as u16) | ((b1 as u16) << 8u16))
        } else {
            Err(BusError::AddressOutOfBounds)
        }
    }

    fn read_u32(&self, index: usize) -> (r: Result<u32, BusError>) {
        let n = self.len();
        if n >= 4 && index <= n - 4 {
            let b0 = self.get_byte(index);
            let b1 = self.get_byte(index + 1);
            let b2 = self.get_byte(index + 2);
            let b3 = self.get_byte(index + 3);
            Ok((b0 as u32) | ((b1 as u32) << 8u32) | ((b2 as u32) << 16u32) | ((b3 as u32)
                << 24u32))
        } else {
            Err(BusError::AddressOutOfBounds)
        }
    }

    fn read_u64(&self, index: usize) -> (r: Result<u64, BusError>) {
        let n = self.len();
        if n >= 8 && index <= n - 8 {
            let b0 = self.get_byte(index);
            let b1 = self.get_byte(index + 1);
            let b2 = self.get_byte(index + 2);
            let b3 = self.get_byte(index + 3);
            let b4 = self.get_byte(index + 4);
            let b5 = self.get_byte(index + 5);
            let b6 = self.get_byte(index + 6);
            let b7 = self.get_byte(index + 7);
            Ok((b0 as u64) | ((b1 as u64) << 8u64) | ((b2 as u64) << 16u64) | ((b3 as u64)
                << 24u64) | ((b4 as u64) << 32u64) | ((b5 as u64) << 40u64) | ((b6 as u64)
                << 48u64) | ((b7 as u64) << 56u64))
        } else {
            Err(BusError::AddressOutOfBounds)
        }
    }

    fn write_u8(&mut self, index: usize, data: u8) -> (r: Result<(), BusError>) {
        if index < self.len() {
            self.set_byte(index, data);
            Ok(())
        } else {
            Err(BusError::AddressOutOfBounds)
        }
    }

    fn write_u16(&mut self, index: usize, data: u16) -> (r: Result<(), BusError>) {
        let n = self.len();
        if n >= 2 && index <= n - 2 {
            let b0 = ((data >> 0u16) & 0xFF) as u8;
            let b1 = ((data >> 8u16) & 0xFF) as u8;
            self.set_byte(index, b0);
            self.set_byte(index + 1, b1);
            proof {
                assert forall|k: u16| k < 2 implies self.bytes()[index + k] == u16_byte(
                    data,
                    k,
                ) by {
                    assert(k == 0 || k == 1);
                }
            }
            Ok(())
        } else {
            Err(BusError::AddressOutOfBounds)
        }
    }

    fn write_u32(&mut self, index: usize, data: u32) -> (r: Result<(), BusError>) {
        let n = self.len();
        if n >= 4 && index <= n - 4 {
            let b0 = ((data >> 0u32) & 0xFF) as u8;
            let b1 = ((data >> 8u32) & 0xFF) as u8;
            let b2 = ((data >> 16u32) & 0xFF) as u8;
            let b3 = ((data >> 24u32) & 0xFF) as u8;
            self.set_byte(index, b0);
            self.set_byte(index + 1, b1);
            self.set_byte(index + 2, b2);
            self.set_byte(index + 3, b3);
            proof {
                assert forall|k: u32| k < 4 implies self.bytes()[index + k] == u32_byte(
                    data,
                    k,
                ) by {
                    assert(k == 0 || k == 1 || k == 2 || k == 3);
                }
            }
            Ok(())
        } else {
            Err(BusError::AddressOutOfBounds)
        }
    }

    fn write_u64(&mut self, index: usize, data: u64) -> (r: Result<(), BusError>) {
        let n = self.len();
        if n >= 8 && index <= n - 8 {
            let b0 = ((data >> 0u64) & 0xFF) as u8;
            let b1 = ((data >> 8u64) & 0xFF) as u8;
            let b2 = ((data >> 16u64) & 0xFF) as u8;
            let b3 = ((data >> 24u64) & 0xFF) as u8;
            let b4 = ((data >> 32u64) & 0xFF) as u8;
            let b5 = ((data >> 40u64) & 0xFF) as u8;
            let b6 = ((data >> 48u64) & 0xFF) as u8;
            let b7 = ((data >> 56u64) & 0xFF) as u8;
            self.set_byte(index, b0);
            self.set_byte(index + 1, b1);
            self.set_byte(index + 2, b2);
            self.set_byte(index + 3, b3);
            self.set_byte(index + 4, b4);
            self.set_byte(index + 5, b5);
            self.set_byte(index + 6, b6);
            self.set_byte(index + 7, b7);
            proof {
                assert forall|k: u64| k < 8 implies self.bytes()[index + k] == u64_byte(
                    data,
                    k,
                ) by {
                    assert(k == 0 || k == 1 || k == 2 || k == 3 || k == 4 || k == 5 || k == 6
                        || k == 7);
                }
            }
            Ok(())
        } else {
            Err(BusError::AddressOutOfBounds)
        }
    }

    fn copy_into_slice(&self, index: usize, size: usize, dest: &mut Vec<u8>) -> (r: Result<
        (),
        BusError,
    >) {
        let n = self.len();
        if !(size <= n && index <= n - size) {
            return Err(BusError::AddressOutOfBounds);
        }
        if dest.len() != size {
            return Err(BusError::InvalidAddress);
        }
        let mut j: usize = 0;
        while j < size
            invariant
                j <= size,
                index + size <= self.bytes().len(),
                index + size <= usize::MAX,
                dest@.len() == size,
                forall|k: int| 0 <= k < j ==> dest@[k] == self.bytes()[index + k],
            decreases size - j,
        {
            let b = self.get_byte(index + j);
            dest[j] = b;
            j = j + 1;
        }
        proof {
            assert(dest@ =~= self.bytes().subrange(index as int, index + size));
        }
        Ok(())
    }
}

} // verus!
