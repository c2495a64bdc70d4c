//! Bit-packed validity bitmaps.
//!
//! A bitmap stores one bit per element, least significant bit first within
//! each byte; bit value 0 at position `i` means element `i` is null. An
//! absent bitmap means "no nulls", and is handled by the callers. The same
//! packing also carries the values of a boolean column.

use vstd::prelude::*;

verus! {

/// Bit `k` of byte `b`.
pub open spec fn bit_of_byte(b: u8, k: u8) -> bool {
    (b >> k) & 1 == 1
}

/// Bit `i` of a bit-packed buffer.
pub open spec fn bitmap_get(bytes: Seq<u8>, i: int) -> bool {
    bit_of_byte(bytes[i / 8], (i % 8) as u8)
}

/// The least number of bytes that can hold `len` bits.
pub open spec fn min_bitmap_bytes(len: nat) -> nat {
    (len + 7) / 8
}

/// How many of the first `n` bits of `bytes` are clear; with bit value 0
/// meaning null, this is the null count of an array of length `n`.
pub open spec fn spec_null_count(bytes: Seq<u8>, n: nat) -> nat
    decreases n,
{
    if n == 0 {
        0
    } else {
        spec_null_count(bytes, (n - 1) as nat) + if bitmap_get(bytes, n - 1) {
            0nat
        } else {
            1nat
        }
    }
}

/// Reads bit `i` of a bit-packed buffer.
pub fn get_bit(bytes: &Vec<u8>, i: usize) -> (r: bool)
    requires
        i < bytes@.len() * 8,
    ensures
        r == bitmap_get(bytes@, i as int),
{
    let byte: u8 = bytes[i / 8];
    let k: u8 = (i % 8) as u8;
    ((byte >> k) & 1) == 1
}

proof fn lemma_set_bit(b: u8, k: u8, j: u8)
    requires
        k < 8,
        j < 8,
    ensures
        bit_of_byte(b | (1u8 << k), k),
        j != k ==> bit_of_byte(b | (1u8 << k), j) == bit_of_byte(b, j),
{
    assert((b | (1u8 << k)) >> k & 1 == 1) by (bit_vector)
        requires
            k < 8,
    ;
    assert(j != k ==> (b | (1u8 << k)) >> j & 1 == b >> j & 1) by (bit_vector)
        requires
            k < 8 && j < 8,
    ;
}

proof fn lemma_zero_byte(k: u8)
    requires
        k < 8,
    ensures
        !bit_of_byte(0u8, k),
{
    assert(0u8 >> k & 1 == 0) by (bit_vector);
}

/// Packs one bit per element into a buffer of minimal length; the padding
/// bits of the last byte are left clear.
pub fn pack_bits(bits: &Vec<bool>) -> (r: Vec<u8>)
    ensures
        r@.len() == min_bitmap_bytes(bits@.len()),
        forall|i: int| 0 <= i < bits@.len() ==> bitmap_get(r@, i) == bits@[i],
        forall|i: int| bits@.len() <= i < r@.len() * 8 ==> !bitmap_get(r@, i),
{
    let n: usize = bits.len();
    let n_bytes: usize = n / 8 + if n % 8 == 0 {
        0
    } else {
        1
    };
    assert(n_bytes == min_bitmap_bytes(n as nat));
    let mut r: Vec<u8> = Vec::new();
    let mut j: usize = 0;
    while j < n_bytes
        invariant
            j <= n_bytes,
            n == bits@.len(),
            n_bytes == min_bitmap_bytes(n as nat),
            r@.len() == j,
            forall|i: int| 0 <= i < j * 8 && i < n ==> bitmap_get(r@, i) == bits@[i],
            forall|i: int| 0 <= i < j * 8 && n <= i ==> !bitmap_get(r@, i),
        decreases n_bytes - j,
    {
        proof {
            assert(j + 1 <= (n + 7) / 8);
            vstd::arithmetic::div_mod::lemma_fundamental_div_mod(n + 7, 8);
            vstd::arithmetic::div_mod::lemma_mod_bound(n + 7, 8);
            assert(8 * ((n + 7) / 8) <= n + 7);
            assert((j + 1) * 8 <= n + 7);
        }
        let base: usize = j * 8;
        let mut byte: u8 = 0;
        let mut k: u8 = 0;
        proof {
            assert forall|kk: u8| kk < 8 implies !bit_of_byte(0u8, kk) by {
                lemma_zero_byte(kk);
            }
        }
        while k < 8
            invariant
                k <= 8,
                j < n_bytes,
                n == bits@.len(),
                base == j * 8,
                base + 8 <= n + 7,
                forall|kk: u8|
                    kk < k ==> bit_of_byte(byte, kk) == {
                        let i = j * 8 + kk;
                        i < n && bits@[i]
                    },
                forall|kk: u8| k <= kk < 8 ==> !bit_of_byte(byte, kk),
            decreases 8 - k,
        {
            if (k as usize) < n - base && bits[base + (k as usize)] {
                let ghost old_byte = byte;
                byte = byte | (1u8 << k);
                proof {
                    assert forall|kk: u8| kk < 8 implies bit_of_byte(byte, kk) == (kk == k
                        || bit_of_byte(old_byte, kk)) by {
                        lemma_set_bit(old_byte, k, kk);
                    }
                }
            }
            k = k + 1;
        }
        r.push(byte);
        assert forall|i: int| 0 <= i < (j + 1) * 8 implies bitmap_get(r@, i) == (i < n
            && bits@[i]) by {
            assert(0 <= i / 8 <= j);
            if i / 8 < j {
                assert(r@[i / 8] == r@.subrange(0, j as int)[i / 8]);
            } else {
                assert(i / 8 == j);
                assert(i % 8 < 8);
                assert(i == j * 8 + (i % 8));
            }
        }
        j = j + 1;
    }
    r
}

/// A buffer of the minimal byte length holds all `len` bits.
pub proof fn lemma_bitmap_bytes_cover(len: nat)
    ensures
        min_bitmap_bytes(len) * 8 >= len,
{
    vstd::arithmetic::div_mod::lemma_fundamental_div_mod((len + 7) as int, 8);
    vstd::arithmetic::div_mod::lemma_mod_bound((len + 7) as int, 8);
}

/// Counts the nulls among the first `len` bits: the clear bits, bit value 0
/// meaning null.
pub fn count_nulls(bytes: &Vec<u8>, len: usize) -> (r: usize)
    requires
        len <= bytes@.len() * 8,
    ensures
        r == spec_null_count(bytes@, len as nat),
        r <= len,
{
    let mut count: usize = 0;
    let mut i: usize = 0;
    while i < len
        invariant
            i <= len,
            len <= bytes@.len() * 8,
            count == spec_null_count(bytes@, i as nat),
            count <= i,
        decreases len - i,
    {
        if !get_bit(bytes, i) {
            count = count + 1;
        }
        i = i + 1;
    }
    count
}

} // verus!
