//! Bit sequences packed eight to a byte, lowest bit first, and the sentinel
//! bit that marks the end of a bit list.

use vstd::prelude::*;

verus! {

/// `2^k` for a bit position `k` inside a byte.
pub open spec fn pow2(k: int) -> nat {
    if k <= 0 {
        1
    } else if k == 1 {
        2
    } else if k == 2 {
        4
    } else if k == 3 {
        8
    } else if k == 4 {
        16
    } else if k == 5 {
        32
    } else if k == 6 {
        64
    } else if k == 7 {
        128
    } else {
        256
    }
}

/// Bit `i` of `bits` as a number; positions past the end count as unset.
pub open spec fn bit(bits: Seq<bool>, i: int) -> nat {
    if 0 <= i < bits.len() && bits[i] {
        1
    } else {
        0
    }
}

/// The value of byte `j` of the packed form of `bits`.
pub open spec fn packed_byte(bits: Seq<bool>, j: int) -> nat {
    bit(bits, 8 * j) + 2 * bit(bits, 8 * j + 1) + 4 * bit(bits, 8 * j + 2) + 8 * bit(
        bits,
        8 * j + 3,
    ) + 16 * bit(bits, 8 * j + 4) + 32 * bit(bits, 8 * j + 5) + 64 * bit(bits, 8 * j + 6) + 128
        * bit(bits, 8 * j + 7)
}

/// The number of bytes that `n` bits take up.
pub open spec fn bytes_for_bits(n: nat) -> nat {
    (n + 7) / 8
}

/// `bits` packed eight to a byte, lowest bit first, the last byte padded
/// with unset bits.
pub open spec fn pack_bits(bits: Seq<bool>) -> Seq<u8> {
    Seq::new(bytes_for_bits(bits.len()), |j: int| packed_byte(bits, j) as u8)
}

/// Bit `k` of a byte.
pub open spec fn byte_bit(b: u8, k: int) -> bool {
    (b as nat / pow2(k)) % 2 == 1
}

/// The first `n` bits held in `bytes`.
pub open spec fn unpack_bits(bytes: Seq<u8>, n: nat) -> Seq<bool> {
    Seq::new(n, |i: int| byte_bit(bytes[i / 8], i % 8))
}

/// The position of the highest set bit of a byte that is not zero.
pub open spec fn high_bit(b: u8) -> int {
    if b >= 128 {
        7
    } else if b >= 64 {
        6
    } else if b >= 32 {
        5
    } else if b >= 16 {
        4
    } else if b >= 8 {
        3
    } else if b >= 4 {
        2
    } else if b >= 2 {
        1
    } else {
        0
    }
}

/// A bit list on the wire: its bits, then one set bit, packed.
pub open spec fn bitlist_bytes(bits: Seq<bool>) -> Seq<u8> {
    pack_bits(bits.push(true))
}

/// The number of bits of the bit list that `bytes` encodes, where `bytes`
/// ends in a byte that is not zero.
pub open spec fn bitlist_len(bytes: Seq<u8>) -> int {
    8 * (bytes.len() - 1) + high_bit(bytes.last())
}

/// Whether `bytes` is the packed form of some `n` bits: the right number of
/// bytes, and no bit set at position `n` or above.
pub open spec fn is_packed(bytes: Seq<u8>, n: nat) -> bool {
    &&& bytes.len() == bytes_for_bits(n)
    &&& n % 8 != 0 ==> (bytes.last() as nat) < pow2((n % 8) as int)
}

/// A packed byte fits in a byte.
pub proof fn lemma_packed_byte_bound(bits: Seq<bool>, j: int)
    ensures
        packed_byte(bits, j) < 256,
{
}

/// Bit `k` of packed byte `j` is bit `8 j + k` of the sequence.
pub proof fn lemma_packed_byte_bit(bits: Seq<bool>, j: int, k: int)
    requires
        0 <= k < 8,
    ensures
        byte_bit(packed_byte(bits, j) as u8, k) == (bit(bits, 8 * j + k) == 1),
{
    let b0 = bit(bits, 8 * j);
    let b1 = bit(bits, 8 * j + 1);
    let b2 = bit(bits, 8 * j + 2);
    let b3 = bit(bits, 8 * j + 3);
    let b4 = bit(bits, 8 * j + 4);
    let b5 = bit(bits, 8 * j + 5);
    let b6 = bit(bits, 8 * j + 6);
    let b7 = bit(bits, 8 * j + 7);
    let v = packed_byte(bits, j);
    assert(v == b0 + 2 * b1 + 4 * b2 + 8 * b3 + 16 * b4 + 32 * b5 + 64 * b6 + 128 * b7);
    if k == 0 {
        assert((v / 1) % 2 == b0);
    } else if k == 1 {
        assert((v / 2) % 2 == b1);
    } else if k == 2 {
        assert((v / 4) % 2 == b2);
    } else if k == 3 {
        assert((v / 8) % 2 == b3);
    } else if k == 4 {
        assert((v / 16) % 2 == b4);
    } else if k == 5 {
        assert((v / 32) % 2 == b5);
    } else if k == 6 {
        assert((v / 64) % 2 == b6);
    } else {
        assert((v / 128) % 2 == b7);
    }
}

/// Unpacking what was packed gives the bits back.
pub proof fn lemma_unpack_pack(bits: Seq<bool>)
    ensures
        unpack_bits(pack_bits(bits), bits.len()) == bits,
        pack_bits(bits).len() == bytes_for_bits(bits.len()),
{
    let packed = pack_bits(bits);
    let back = unpack_bits(packed, bits.len());
    assert forall|i: int| 0 <= i < bits.len() implies back[i] == bits[i] by {
        lemma_packed_byte_bit(bits, i / 8, i % 8);
        lemma_packed_byte_bound(bits, i / 8);
        assert(8 * (i / 8) + i % 8 == i);
    }
    assert(back =~= bits);
}

/// The packed form leaves the bits past the end unset.
pub proof fn lemma_pack_is_packed(bits: Seq<bool>)
    ensures
        is_packed(pack_bits(bits), bits.len()),
{
    let n = bits.len();
    if n % 8 != 0 {
        let j = (n / 8) as int;
        assert(bytes_for_bits(n) == j + 1);
        lemma_packed_byte_bound(bits, j);
        assert(pack_bits(bits).last() == packed_byte(bits, j) as u8);
    }
}

/// The sentinel is the highest set bit of the last byte of a bit list on the
/// wire, so the number of bits can be read back.
pub proof fn lemma_bitlist_len(bits: Seq<bool>)
    ensures
        bitlist_bytes(bits).len() == bits.len() / 8 + 1,
        bitlist_bytes(bits).last() != 0,
        bitlist_len(bitlist_bytes(bits)) == bits.len(),
{
    let n = bits.len() as int;
    let all = bits.push(true);
    let j = n / 8;
    let v = packed_byte(all, j);
    assert(bytes_for_bits(all.len()) == j + 1);
    assert(bitlist_bytes(bits).last() == v as u8);
    assert(bit(all, n) == 1);
    assert(forall|i: int| i > n ==> bit(all, i) == 0);
    assert(8 * j + n % 8 == n);
}

/// Unpacking the bytes of a bit list, up to the sentinel, gives its bits.
pub proof fn lemma_bitlist_unpack(bits: Seq<bool>)
    ensures
        unpack_bits(bitlist_bytes(bits), bits.len()) == bits,
{
    let all = bits.push(true);
    lemma_unpack_pack(all);
    let back = unpack_bits(pack_bits(all), bits.len());
    assert forall|i: int| 0 <= i < bits.len() implies back[i] == bits[i] by {
        assert(unpack_bits(pack_bits(all), all.len())[i] == all[i]);
    }
    assert(back =~= bits);
}

/// `2^k` for `k < 8`.
pub fn pow2_of(k: usize) -> (r: u8)
    requires
        k < 8,
    ensures
        r as nat == pow2(k as int),
{
    if k == 0 {
        1
    } else if k == 1 {
        2
    } else if k == 2 {
        4
    } else if k == 3 {
        8
    } else if k == 4 {
        16
    } else if k == 5 {
        32
    } else if k == 6 {
        64
    } else {
        128
    }
}

/// The position of the highest set bit of `b`.
pub fn high_bit_of(b: u8) -> (r: usize)
    ensures
        r as int == high_bit(b),
        r < 8,
{
    if b >= 128 {
        7
    } else if b >= 64 {
        6
    } else if b >= 32 {
        5
    } else if b >= 16 {
        4
    } else if b >= 8 {
        3
    } else if b >= 4 {
        2
    } else if b >= 2 {
        1
    } else {
        0
    }
}

/// The bits that are packed: `bits`, followed by one set bit where
/// `sentinel` holds.
pub open spec fn with_sentinel(bits: Seq<bool>, sentinel: bool) -> Seq<bool> {
    if sentinel {
        bits.push(true)
    } else {
        bits
    }
}

/// Bit `base + k` of the bits that are packed, as a number.
fn bit_at(bits: &[bool], sentinel: bool, base: usize, k: usize) -> (r: u8)
    ensures
        r as nat == bit(with_sentinel(bits@, sentinel), base + k),
{
    let n: usize = bits.len();
    if k > usize::MAX - base {
        return 0;
    }
    let i: usize = base + k;
    if i < n {
        if bits[i] {
            1
        } else {
            0
        }
    } else if i == n && sentinel {
        1
    } else {
        0
    }
}

/// Appends to `out` the packed form of `bits`, followed by a set bit where
/// `sentinel` holds.
pub fn push_packed_bits(bits: &[bool], sentinel: bool, out: &mut Vec<u8>)
    ensures
        final(out)@ == old(out)@ + pack_bits(with_sentinel(bits@, sentinel)),
{
    let ghost all = with_sentinel(bits@, sentinel);
    let count: usize = if sentinel || bits.len() % 8 != 0 {
        bits.len() / 8 + 1
    } else {
        bits.len() / 8
    };
    let mut j: usize = 0;
    while j < count
        invariant
            j <= count,
            count == bytes_for_bits(all.len()),
            all == with_sentinel(bits@, sentinel),
            count <= bits.len() / 8 + 1,
            out@.len() == old(out)@.len() + j,
            out@.subrange(0, old(out)@.len() as int) == old(out)@,
            forall|m: int| 0 <= m < j ==> out@[old(out)@.len() + m] == packed_byte(all, m) as u8,
        decreases count - j,
    {
        let base: usize = 8 * j;
        let b0: u8 = bit_at(bits, sentinel, base, 0);
        let b1: u8 = bit_at(bits, sentinel, base, 1);
        let b2: u8 = bit_at(bits, sentinel, base, 2);
        let b3: u8 = bit_at(bits, sentinel, base, 3);
        let b4: u8 = bit_at(bits, sentinel, base, 4);
        let b5: u8 = bit_at(bits, sentinel, base, 5);
        let b6: u8 = bit_at(bits, sentinel, base, 6);
        let b7: u8 = bit_at(bits, sentinel, base, 7);
        let byte: u8 = b0 + 2 * b1 + 4 * b2 + 8 * b3 + 16 * b4 + 32 * b5 + 64 * b6 + 128 * b7;
        let ghost before = out@;
        out.push(byte);
        proof {
            assert(out@.subrange(0, old(out)@.len() as int) =~= before.subrange(
                0,
                old(out)@.len() as int,
            ));
        }
        j = j + 1;
    }
    proof {
        assert(out@ =~= old(out)@ + pack_bits(all));
    }
}

/// The first `8 * full + extra` bits held in `bytes`.
pub fn unpack_bits_of(bytes: &[u8], full: usize, extra: usize) -> (r: Vec<bool>)
    requires
        full <= bytes.len(),
        extra < 8,
        extra > 0 ==> full < bytes.len(),
    ensures
        r@ == unpack_bits(bytes@, (8 * full + extra) as nat),
{
    let mut r: Vec<bool> = Vec::new();
    let mut j: usize = 0;
    while j < full
        invariant
            j <= full <= bytes.len(),
            r@.len() == 8 * j,
            forall|m: int| 0 <= m < 8 * j ==> r@[m] == byte_bit(bytes@[m / 8], m % 8),
        decreases full - j,
    {
        let b: u8 = bytes[j];
        let mut k: usize = 0;
        while k < 8
            invariant
                k <= 8,
                j < full <= bytes.len(),
                b == bytes@[j as int],
                r@.len() == 8 * j + k,
                forall|m: int| 0 <= m < 8 * j + k ==> r@[m] == byte_bit(bytes@[m / 8], m % 8),
            decreases 8 - k,
        {
            let p: u8 = pow2_of(k);
            r.push((b / p) % 2 == 1);
            k = k + 1;
        }
        j = j + 1;
    }
    let mut k: usize = 0;
    while k < extra
        invariant
            k <= extra < 8,
            full <= bytes.len(),
            extra > 0 ==> full < bytes.len(),
            r@.len() == 8 * full + k,
            forall|m: int| 0 <= m < 8 * full + k ==> r@[m] == byte_bit(bytes@[m / 8], m % 8),
        decreases extra - k,
    {
        let b: u8 = bytes[full];
        let p: u8 = pow2_of(k);
        r.push((b / p) % 2 == 1);
        k = k + 1;
    }
    proof {
        assert(r@ =~= unpack_bits(bytes@, (8 * full + extra) as nat));
    }
    r
}

} // verus!
