//! Miscellaneous tools and types used across the crate.

use vstd::prelude::*;

verus! {

/// The smallest multiple of `to` that is at least `value`. With a zero
/// alignment there is nothing to round to, and the result is zero.
pub open spec fn align_up(value: int, to: int) -> int {
    if to <= 0 {
        0
    } else if value % to == 0 {
        value
    } else {
        value + (to - value % to)
    }
}

/// `align_up` never moves a value down, moves it by less than one alignment
/// step, and lands on a multiple of the alignment.
pub proof fn lemma_align_up(value: int, to: int)
    requires
        0 <= value,
        0 < to,
    ensures
        value <= align_up(value, to) < value + to,
        align_up(value, to) % to == 0,
        value % to == 0 ==> align_up(value, to) == value,
{
    let r = value % to;
    if r != 0 {
        assert((value + (to - r)) % to == 0) by (nonlinear_arith)
            requires
                r == value % to,
                0 < r < to,
                0 <= value,
        ;
    }
}

/// Align a value upwards to the given alignment.
///
/// The sum wraps around like the machine addition it is built on when the
/// rounded value does not fit in a `usize`.
#[inline(always)]
pub fn align(value: usize, to: usize) -> (aligned: usize)
    ensures
        align_up(value as int, to as int) <= usize::MAX ==> aligned == align_up(
            value as int,
            to as int,
        ),
        align_up(value as int, to as int) > usize::MAX ==> aligned == align_up(
            value as int,
            to as int,
        ) - (usize::MAX + 1),
{
    if to == 0 {
        return 0;
    }
    let rem: usize = value % to;
    if rem == 0 {
        value
    } else {
        value.wrapping_add(to - rem)
    }
}

/// An amount of memory in a named unit, convertible to bytes.
pub enum MemoryAmount {
    Bytes(usize),
    Kilobytes(usize),
    Kibibytes(usize),
    Megabytes(usize),
    Mebibytes(usize),
    Gigabytes(usize),
    Gibibytes(usize),
}

impl MemoryAmount {
    /// How many bytes one unit of this amount holds.
    pub open spec fn unit(self) -> int {
        match self {
            MemoryAmount::Bytes(_) => 1,
            MemoryAmount::Kilobytes(_) => 1000,
            MemoryAmount::Kibibytes(_) => 1024,
            MemoryAmount::Megabytes(_) => 1000000,
            MemoryAmount::Mebibytes(_) => 1048576,
            MemoryAmount::Gigabytes(_) => 1000000000,
            MemoryAmount::Gibibytes(_) => 1073741824,
        }
    }

    /// The number of units this amount counts.
    pub open spec fn amount(self) -> int {
        match self {
            MemoryAmount::Bytes(a) => a as int,
            MemoryAmount::Kilobytes(a) => a as int,
            MemoryAmount::Kibibytes(a) => a as int,
            MemoryAmount::Megabytes(a) => a as int,
            MemoryAmount::Mebibytes(a) => a as int,
            MemoryAmount::Gigabytes(a) => a as int,
            MemoryAmount::Gibibytes(a) => a as int,
        }
    }

    /// The amount in bytes, as a mathematical integer.
    pub open spec fn bytes(self) -> int {
        self.amount() * self.unit()
    }

    /// Converts the amount to bytes. The amount must fit in a `usize`.
    pub fn into_bytes(self) -> (bytes: usize)
        requires
            self.bytes() <= usize::MAX,
        ensures
            bytes == self.bytes(),
    {
        match self {
            MemoryAmount::Bytes(amount) => amount,
            MemoryAmount::Kilobytes(amount) => amount * 1000,
            MemoryAmount::Kibibytes(amount) => amount * 1024,
            MemoryAmount::Megabytes(amount) => amount * 1000000,
            MemoryAmount::Mebibytes(amount) => amount * 1048576,
            MemoryAmount::Gigabytes(amount) => amount * 1000000000,
            MemoryAmount::Gibibytes(amount) => amount * 1073741824,
        }
    }

    /// Converts the amount to bytes, or reports that it does not fit in a
    /// `usize`.
    pub fn checked_into_bytes(self) -> (bytes: Option<usize>)
        ensures
            bytes == (if self.bytes() <= usize::MAX {
                Some(self.bytes() as usize)
            } else {
                None
            }),
    {
        match self {
            MemoryAmount::Bytes(amount) => Some(amount),
            MemoryAmount::Kilobytes(amount) => amount.checked_mul(1000),
            MemoryAmount::Kibibytes(amount) => amount.checked_mul(1024),
            MemoryAmount::Megabytes(amount) => amount.checked_mul(1000000),
            MemoryAmount::Mebibytes(amount) => amount.checked_mul(1048576),
            MemoryAmount::Gigabytes(amount) => amount.checked_mul(1000000000),
            MemoryAmount::Gibibytes(amount) => amount.checked_mul(1073741824),
        }
    }
}

/// Hashn'ts values. It builds hashers that don't actually do any hashing.
/// This can be useful for hashmaps where the keys are numbers, especially
/// if you know those numbers will be unique.
///
/// This is the builder; for the hasher itself, see [`HashntHash`].
#[derive(Default)]
pub struct Hashnt;

impl Hashnt {
    /// A hasher that has seen nothing yet.
    pub fn build_hasher(&self) -> (hasher: HashntHash)
        ensures
            hasher.result == 0,
    {
        HashntHash { result: 0 }
    }
}

/// The number that some bytes stand for when the first byte counts least.
pub open spec fn le_value(bytes: Seq<u8>) -> int
    decreases bytes.len(),
{
    if bytes.len() == 0 {
        0
    } else {
        bytes[0] as int + 256 * le_value(bytes.skip(1))
    }
}

/// The `len`th power of 256.
pub open spec fn pow256(len: nat) -> int
    decreases len,
{
    if len == 0 {
        1
    } else {
        256 * pow256((len - 1) as nat)
    }
}

/// The number of `len` bytes is below the `len`th power of 256.
pub proof fn lemma_le_value_bounded_by(bytes: Seq<u8>, len: nat)
    requires
        bytes.len() == len,
    ensures
        0 <= le_value(bytes) < pow256(len),
        len <= 8 ==> pow256(len) <= 0x1_0000_0000_0000_0000,
        len <= 7 ==> pow256(len) <= 0x100_0000_0000_0000,
    decreases len,
{
    reveal_with_fuel(pow256, 9);
    if len > 0 {
        lemma_le_value_bounded_by(bytes.skip(1), (len - 1) as nat);
    }
}

/// The hasher of [`Hashnt`]. It simply keeps the last number that was
/// written to it and returns it in `finish`, without doing any actual
/// hashing.
#[derive(Default)]
pub struct HashntHash {
    pub result: u64,
}

impl HashntHash {
    /// Takes up to eight bytes for the number that they stand for when the
    /// first byte counts least; of more bytes, the first eight.
    pub fn write(&mut self, i: &[u8])
        ensures
            final(self).result == le_value(
                if i@.len() <= 8 {
                    i@
                } else {
                    i@.take(8)
                },
            ),
    {
        let count: usize = if i.len() <= 8 {
            i.len()
        } else {
            8
        };
        let ghost taken = i@.take(count as int);
        let mut value: u64 = 0;
        let mut idx: usize = count;
        proof {
            assert(taken.skip(count as int) =~= Seq::<u8>::empty());
            if i@.len() <= 8 {
                assert(taken =~= i@);
            }
        }
        while idx > 0
            invariant
                idx <= count <= 8,
                count <= i@.len(),
                taken == i@.take(count as int),
                value == le_value(taken.skip(idx as int)),
            decreases idx,
        {
            idx = idx - 1;
            proof {
                let rest = taken.skip(idx as int);
                assert(rest.skip(1) =~= taken.skip(idx + 1));
                assert(rest[0] == i@[idx as int]);
                lemma_le_value_bounded_by(taken.skip(idx + 1), (count - idx - 1) as nat);
                lemma_le_value_bounded_by(rest, (count - idx) as nat);
            }
            value = value * 256 + i[idx] as u64;
        }
        proof {
            assert(taken.skip(0) =~= taken);
        }
        self.result = value;
    }

    pub fn write_u8(&mut self, i: u8)
        ensures
            final(self).result == i,
    {
        self.result = i as u64;
    }

    pub fn write_u16(&mut self, i: u16)
        ensures
            final(self).result == i,
    {
        self.result = i as u64;
    }

    pub fn write_u32(&mut self, i: u32)
        ensures
            final(self).result == i,
    {
        self.result = i as u64;
    }

    pub fn write_u64(&mut self, i: u64)
        ensures
            final(self).result == i,
    {
        self.result = i;
    }

    pub fn write_usize(&mut self, i: usize)
        ensures
            final(self).result == i,
    {
        self.result = i as u64;
    }

    /// The number that was written last.
    pub fn finish(&self) -> (hash: u64)
        ensures
            hash == self.result,
    {
        self.result
    }
}

} // verus!
