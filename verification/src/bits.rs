//! Bit-level helpers and the append-only bit buffer in which segments and
//! data codewords are assembled (most significant bit first within a byte).
use vstd::prelude::*;

verus! {

/// Bit `i` of `x`, counted from the least significant bit.
pub open spec fn u32_bit(x: u32, i: int) -> bool {
    (x >> (i as u32)) & 1u32 == 1u32
}

/// Bit `j` of byte `b`, counted from the most significant bit (`j == 0` is bit 7).
pub open spec fn msb_bit(b: u8, j: int) -> bool {
    (b >> ((7 - j) as u8)) & 1u8 == 1u8
}

/// The `len` low bits of `val`, most significant first.
pub open spec fn value_bits(val: u32, len: int) -> Seq<bool> {
    Seq::new(len as nat, |k: int| u32_bit(val, len - 1 - k))
}

/// The bits of a byte string, each byte most significant bit first.
pub open spec fn bytes_to_bits(bytes: Seq<u8>) -> Seq<bool> {
    Seq::new(bytes.len() * 8, |i: int| msb_bit(bytes[i / 8], i % 8))
}

/// The number that a bit string denotes, most significant bit first.
pub open spec fn bits_value(bits: Seq<bool>) -> nat
    decreases bits.len(),
{
    if bits.len() == 0 {
        0
    } else {
        2 * bits_value(bits.drop_last()) + if bits.last() { 1nat } else { 0nat }
    }
}

/// The byte whose bits, most significant first, are `bits[start..start + 8]`.
pub open spec fn bits_to_byte(bits: Seq<bool>, start: int) -> u8 {
    ((if bits[start] { 128int } else { 0int }) + (if bits[start + 1] { 64int } else { 0int }) + (
    if bits[start + 2] { 32int } else { 0int }) + (if bits[start + 3] { 16int } else { 0int }) + (
    if bits[start + 4] { 8int } else { 0int }) + (if bits[start + 5] { 4int } else { 0int }) + (
    if bits[start + 6] { 2int } else { 0int }) + (if bits[start + 7] { 1int } else { 0int })) as u8
}

/// The bytes whose bits, most significant first, are `bits` (whole bytes only).
pub open spec fn bits_to_bytes(bits: Seq<bool>) -> Seq<u8> {
    Seq::new(bits.len() / 8, |i: int| bits_to_byte(bits, 8 * i))
}

proof fn lemma_byte_from_bits(b: u8)
    ensures
        b == ((if (b >> 7u8) & 1u8 == 1u8 { 128int } else { 0int }) + (if (b >> 6u8) & 1u8
            == 1u8 { 64int } else { 0int }) + (if (b >> 5u8) & 1u8 == 1u8 { 32int } else { 0int })
            + (if (b >> 4u8) & 1u8 == 1u8 { 16int } else { 0int }) + (if (b >> 3u8) & 1u8 == 1u8 {
            8int
        } else { 0int }) + (if (b >> 2u8) & 1u8 == 1u8 { 4int } else { 0int }) + (if (b >> 1u8)
            & 1u8 == 1u8 { 2int } else { 0int }) + (if (b >> 0u8) & 1u8 == 1u8 { 1int } else {
            0int
        })) as u8,
{
    assert(b == ((if (b >> 7u8) & 1u8 == 1u8 { 128u8 } else { 0u8 }) + (if (b >> 6u8) & 1u8
        == 1u8 { 64u8 } else { 0u8 }) + (if (b >> 5u8) & 1u8 == 1u8 { 32u8 } else { 0u8 }) + (if (
    b >> 4u8) & 1u8 == 1u8 { 16u8 } else { 0u8 }) + (if (b >> 3u8) & 1u8 == 1u8 { 8u8 } else {
        0u8
    }) + (if (b >> 2u8) & 1u8 == 1u8 { 4u8 } else { 0u8 }) + (if (b >> 1u8) & 1u8 == 1u8 {
        2u8
    } else { 0u8 }) + (if (b >> 0u8) & 1u8 == 1u8 { 1u8 } else { 0u8 }))) by (bit_vector);
}

/// Reading bytes as bits and back gives the bytes again.
pub proof fn lemma_bits_to_bytes_roundtrip(bytes: Seq<u8>)
    ensures
        bits_to_bytes(bytes_to_bits(bytes)) == bytes,
{
    let bits = bytes_to_bits(bytes);
    assert forall|i: int| 0 <= i < bytes.len() implies #[trigger] bits_to_bytes(bits)[i]
        == bytes[i] by {
        let b = bytes[i];
        lemma_byte_from_bits(b);
        assert(bits[8 * i] == msb_bit(b, 0));
        assert((8 * i + 1) / 8 == i && (8 * i + 1) % 8 == 1);
        assert(bits[8 * i + 1] == msb_bit(b, 1));
        assert((8 * i + 2) / 8 == i && (8 * i + 2) % 8 == 2);
        assert(bits[8 * i + 2] == msb_bit(b, 2));
        assert((8 * i + 3) / 8 == i && (8 * i + 3) % 8 == 3);
        assert(bits[8 * i + 3] == msb_bit(b, 3));
        assert((8 * i + 4) / 8 == i && (8 * i + 4) % 8 == 4);
        assert(bits[8 * i + 4] == msb_bit(b, 4));
        assert((8 * i + 5) / 8 == i && (8 * i + 5) % 8 == 5);
        assert(bits[8 * i + 5] == msb_bit(b, 5));
        assert((8 * i + 6) / 8 == i && (8 * i + 6) % 8 == 6);
        assert(bits[8 * i + 6] == msb_bit(b, 6));
        assert((8 * i + 7) / 8 == i && (8 * i + 7) % 8 == 7);
        assert(bits[8 * i + 7] == msb_bit(b, 7));
    }
    assert(bits_to_bytes(bits) =~= bytes);
}

/// `(x >> i) & 1 != 0`: whether bit `i` of `x` is set.
pub fn get_bit(x: u32, i: u8) -> (r: bool)
    requires
        i < 32,
    ensures
        r == u32_bit(x, i as int),
{
    let r = (x >> i) & 1 != 0;
    assert(((x >> i) & 1u32 != 0u32) == ((x >> i) & 1u32 == 1u32)) by (bit_vector);
    r
}

/// Effect of or-ing `write_bits` bits of `val`, taken from position `shift`
/// upwards, into byte `b0` right after its first `bit_offset` bits.
proof fn lemma_fill_byte(b0: u8, val: u32, bo: u8, wb: u8, shift: u32, j: u8)
    requires
        bo < 8,
        1 <= wb,
        bo + wb <= 8,
        shift + wb <= 32,
        j < 8,
        b0 & (0xFFu8 >> bo) == 0,
    ensures
        ({
            let mask: u8 = if wb == 8 { 0xFFu8 } else { ((1u8 << wb) - 1) as u8 };
            let nb: u8 = b0 | ((((val >> shift) as u8) & mask) << (8 - bo - wb) as u8);
            &&& j < bo ==> ((nb >> (7 - j) as u8) & 1u8 == (b0 >> (7 - j) as u8) & 1u8)
            &&& (bo <= j && j < bo + wb) ==> (((nb >> (7 - j) as u8) & 1u8 == 1u8) == ((val >> (
                shift + (wb - 1 - (j - bo)) as u32)) & 1u32 == 1u32))
            &&& bo + wb < 8 ==> nb & (0xFFu8 >> (bo + wb) as u8) == 0
        }),
{
    let mask: u8 = if wb == 8 { 0xFFu8 } else { ((1u8 << wb) - 1) as u8 };
    let nb: u8 = b0 | ((((val >> shift) as u8) & mask) << (8 - bo - wb) as u8);
    assert(j < bo ==> ((nb >> (7 - j) as u8) & 1u8 == (b0 >> (7 - j) as u8) & 1u8)) by (bit_vector)
        requires
            bo < 8,
            1 <= wb,
            bo + wb <= 8,
            shift + wb <= 32,
            j < 8,
            mask == if wb == 8 { 0xFFu8 } else { ((1u8 << wb) - 1) as u8 },
            nb == b0 | ((((val >> shift) as u8) & mask) << (8 - bo - wb) as u8),
    ;
    assert((bo <= j && j < bo + wb) ==> (((nb >> (7 - j) as u8) & 1u8 == 1u8) == ((val >> (shift
        + (wb - 1 - (j - bo)) as u32)) & 1u32 == 1u32))) by (bit_vector)
        requires
            bo < 8,
            1 <= wb,
            bo + wb <= 8,
            shift + wb <= 32,
            j < 8,
            b0 & (0xFFu8 >> bo) == 0,
            mask == if wb == 8 { 0xFFu8 } else { ((1u8 << wb) - 1) as u8 },
            nb == b0 | ((((val >> shift) as u8) & mask) << (8 - bo - wb) as u8),
    ;
    assert(bo + wb < 8 ==> nb & (0xFFu8 >> (bo + wb) as u8) == 0) by (bit_vector)
        requires
            bo < 8,
            1 <= wb,
            bo + wb <= 8,
            shift + wb <= 32,
            b0 & (0xFFu8 >> bo) == 0,
            mask == if wb == 8 { 0xFFu8 } else { ((1u8 << wb) - 1) as u8 },
            nb == b0 | ((((val >> shift) as u8) & mask) << (8 - bo - wb) as u8),
    ;
}

/// The top `r` bits of a byte, read as an `r`-bit number, are its first `r`
/// bits most significant first.
proof fn lemma_byte_prefix_bits(b: u8, r: u8, k: u8)
    requires
        1 <= r <= 8,
        k < r,
    ensures
        (((b >> (8 - r) as u8) as u32) >> ((r - 1 - k) as u32)) & 1u32 == 1u32 <==> (b >> (7
            - k) as u8) & 1u8 == 1u8,
        ((b >> (8 - r) as u8) as u32) >> (r as u32) == 0,
{
    assert((((b >> (8 - r) as u8) as u32) >> ((r - 1 - k) as u32)) & 1u32 == 1u32 <==> (b >> (7
        - k) as u8) & 1u8 == 1u8) by (bit_vector)
        requires
            1 <= r <= 8,
            k < r,
    ;
    assert(((b >> (8 - r) as u8) as u32) >> (r as u32) == 0) by (bit_vector)
        requires
            1 <= r <= 8,
    ;
}

/// Whether the bits of `data` after the first `length`, up to the end of the
/// byte that holds the last of them, are zero.
pub open spec fn tail_byte_clear(data: Seq<u8>, length: int) -> bool {
    length % 8 != 0 ==> data[length / 8] & (0xFFu8 >> ((length % 8) as u8)) == 0
}

/// An append-only sequence of bits stored in a byte buffer of fixed length,
/// most significant bit first within each byte.
pub struct BitBuffer {
    pub data: Vec<u8>,
    pub length: usize,
}

impl BitBuffer {
    /// The bits appended so far.
    pub open spec fn bits(&self) -> Seq<bool> {
        bytes_to_bits(self.data@).take(self.length as int)
    }

    /// The buffer never holds more bits than its bytes, and the unused bits of
    /// a partly filled last byte are zero.
    pub open spec fn wf(&self) -> bool {
        &&& self.length <= self.data.len() * 8
        &&& self.data.len() * 8 <= usize::MAX
        &&& tail_byte_clear(self.data@, self.length as int)
    }

    /// An empty bit buffer over `buffer`.
    pub fn new(buffer: Vec<u8>) -> (r: Self)
        requires
            buffer.len() * 8 <= usize::MAX,
        ensures
            r.data@ == buffer@,
            r.length == 0,
            r.wf(),
            r.bits() == Seq::<bool>::empty(),
    {
        let r = BitBuffer { data: buffer, length: 0 };
        assert(r.bits() =~= Seq::<bool>::empty());
        r
    }

    /// Appends the `len` low bits of `val`, most significant first.
    pub fn append_bits(&mut self, val: u32, len: u8)
        requires
            old(self).wf(),
            len <= 31,
            val >> len == 0,
            old(self).length + len <= old(self).data.len() * 8,
        ensures
            final(self).wf(),
            final(self).data.len() == old(self).data.len(),
            final(self).length == old(self).length + len,
            final(self).bits() == old(self).bits() + value_bits(val, len as int),
            forall|i: int|
                (final(self).length + 7) / 8 <= i < final(self).data.len() ==> final(self).data@[i]
                    == old(self).data@[i],
    {
        let ghost old_bits = self.bits();
        let ghost vb = value_bits(val, len as int);
        let mut remaining: usize = len as usize;
        assert(vb.take(0) =~= Seq::<bool>::empty());
        assert(old_bits + vb.take(0) =~= old_bits);
        while remaining > 0
            invariant
                self.wf(),
                self.data.len() == old(self).data.len(),
                remaining <= len,
                len <= 31,
                self.length == old(self).length + (len - remaining),
                self.length + remaining <= self.data.len() * 8,
                old_bits == old(self).bits(),
                vb == value_bits(val, len as int),
                self.bits() == old_bits + vb.take(len - remaining),
                forall|i: int|
                    (self.length + 7) / 8 <= i < self.data.len() ==> self.data@[i] == old(self).data@[i],
            decreases remaining,
        {
            let index = self.length / 8;
            let bit_offset = self.length % 8;
            let free_bits = 8 - bit_offset;
            let write_bits = if remaining < free_bits {
                remaining
            } else {
                free_bits
            };
            let shift = remaining - write_bits;
            let mask: u8 = if write_bits == 8 {
                0xFF
            } else {
                let w = write_bits as u8;
                assert(1 <= w < 8 ==> 1u8 << w >= 1) by (bit_vector);
                (1u8 << w) - 1
            };
            let chunk: u8 = ((val >> (shift as u32)) as u8) & mask;
            let ghost pre = self.data@;
            let ghost plen = self.length;
            if bit_offset == 0 {
                self.data.set(index, 0);
                assert(0u8 & (0xFFu8 >> 0u8) == 0) by (bit_vector);
            }
            let b0 = self.data[index];
            let nb = b0 | (chunk << ((free_bits - write_bits) as u8));
            self.data.set(index, nb);
            self.length = self.length + write_bits;
            remaining = remaining - write_bits;
            proof {
                let bo = bit_offset as u8;
                let wb = write_bits as u8;
                assert(self.bits() =~= old_bits + vb.take(len - remaining)) by {
                    let nbits = self.bits();
                    let target = old_bits + vb.take(len - remaining);
                    assert forall|i: int| 0 <= i < nbits.len() implies nbits[i] == target[i] by {
                        if i < plen {
                            if i / 8 != index as int {
                                assert(self.data@[i / 8] == pre[i / 8]);
                            } else {
                                let j = (i % 8) as u8;
                                lemma_fill_byte(b0, val, bo, wb, shift as u32, j);
                                assert(j < bo);
                            }
                            assert(nbits[i] == bytes_to_bits(pre).take(plen as int)[i]);
                        } else {
                            let j = (i % 8) as u8;
                            lemma_fill_byte(b0, val, bo, wb, shift as u32, j);
                            assert(i / 8 == index as int);
                            assert(bo <= j && j < bo + wb);
                            assert(target[i] == vb[(len - remaining - write_bits) + (i - plen)]);
                        }
                    }
                }
                if self.length % 8 != 0 {
                    lemma_fill_byte(b0, val, bo, wb, shift as u32, 0);
                    assert(self.length / 8 == index as int);
                    assert(((self.length % 8) as u8) == bo + wb);
                }
            }
        }
        assert(vb.take(len as int) =~= vb);
    }

    /// Appends the first `bitlength` bits of `data`.
    pub fn append_data(&mut self, data: &[u8], bitlength: usize)
        requires
            old(self).wf(),
            bitlength <= data.len() * 8,
            old(self).length + bitlength <= old(self).data.len() * 8,
        ensures
            final(self).wf(),
            final(self).data.len() == old(self).data.len(),
            final(self).length == old(self).length + bitlength,
            final(self).bits() == old(self).bits() + bytes_to_bits(data@).take(bitlength as int),
            forall|i: int|
                (final(self).length + 7) / 8 <= i < final(self).data.len() ==> final(self).data@[i]
                    == old(self).data@[i],
    {
        let ghost old_bits = self.bits();
        let ghost db = bytes_to_bits(data@);
        let full_bytes = bitlength / 8;
        let mut i: usize = 0;
        assert(db.take(0) =~= Seq::<bool>::empty());
        assert(old_bits + db.take(0) =~= old_bits);
        while i < full_bytes
            invariant
                self.wf(),
                self.data.len() == old(self).data.len(),
                i <= full_bytes,
                full_bytes == bitlength / 8,
                bitlength <= data.len() * 8,
                self.length == old(self).length + 8 * i,
                old(self).length + bitlength <= self.data.len() * 8,
                old_bits == old(self).bits(),
                db == bytes_to_bits(data@),
                self.bits() == old_bits + db.take(8 * i),
                forall|k: int|
                    (self.length + 7) / 8 <= k < self.data.len() ==> self.data@[k] == old(self).data@[k],
            decreases full_bytes - i,
        {
            let byte = data[i];
            assert((byte as u32) >> 8u8 == 0) by (bit_vector);
            self.append_bits(byte as u32, 8);
            proof {
                assert forall|k: int| 0 <= k < 8 implies #[trigger] value_bits(byte as u32, 8)[k] == db[8
                    * i + k] by {
                    lemma_byte_prefix_bits(byte, 8, k as u8);
                    assert((8 * i + k) / 8 == i as int);
                    assert((8 * i + k) % 8 == k);
                }
                assert(db.take(8 * (i + 1)) =~= db.take(8 * i) + value_bits(byte as u32, 8));
            }
            i = i + 1;
        }
        let remaining_bits = (bitlength % 8) as u8;
        if remaining_bits != 0 {
            let byte = data[full_bytes];
            let part = byte >> (8 - remaining_bits);
            proof {
                lemma_byte_prefix_bits(byte, remaining_bits, 0);
            }
            self.append_bits(part as u32, remaining_bits);
            proof {
                assert forall|k: int| 0 <= k < remaining_bits implies #[trigger] value_bits(
                    part as u32,
                    remaining_bits as int,
                )[k] == db[8 * full_bytes + k] by {
                    lemma_byte_prefix_bits(byte, remaining_bits, k as u8);
                    assert((8 * full_bytes + k) / 8 == full_bytes as int);
                    assert((8 * full_bytes + k) % 8 == k);
                }
                assert(db.take(bitlength as int) =~= db.take(8 * full_bytes) + value_bits(
                    part as u32,
                    remaining_bits as int,
                ));
            }
        } else {
            assert(8 * full_bytes == bitlength);
        }
    }
}

} // verus!
