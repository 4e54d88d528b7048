//! RDS blocks on the wire: the 10-bit checkword (CRC with polynomial 0x1B9, offset
//! word per block position) and the 104 bits of a group, most significant bit first.
use vstd::prelude::*;

verus! {

/// Blocks per group.
pub const GROUP_LENGTH: usize = 4;
/// Information bits per block.
pub const BLOCK_SIZE: usize = 16;
/// Degree of the checkword polynomial, the number of check bits per block.
pub const POLY_DEG: usize = 10;
/// The checkword generator polynomial without its leading term.
pub const POLY: u16 = 0x1B9;
/// Bits per group on the wire.
pub const BITS_PER_GROUP: usize = 104;

/// Bit `j` (0 = least significant) of `x`, as 0 or 1.
pub open spec fn bit_of(x: u16, j: int) -> u8 {
    if (x >> (j as u16)) & 1 == 1 { 1 } else { 0 }
}

/// One step of the checkword shift register, feeding in one information bit.
pub open spec fn crc_step(crc: u16, bit: bool) -> u16 {
    let msb = (crc >> 9u16) & 1;
    let shifted = crc << 1u16;
    if (msb != 0) != bit { shifted ^ POLY } else { shifted }
}

/// The shift register after the `k` most significant bits of `block` went in.
pub open spec fn crc_upto(block: u16, k: nat) -> u16
    decreases k,
{
    if k == 0 {
        0
    } else {
        crc_step(crc_upto(block, (k - 1) as nat), bit_of(block, 16 - k) == 1)
    }
}

/// The shift register after all 16 bits of `block` went in.
pub open spec fn crc_register(block: u16) -> u16 {
    crc_upto(block, 16)
}

/// The 10-bit CRC of a 16-bit block: the low 10 bits of the shift register.
pub open spec fn crc_of(block: u16) -> u16 {
    crc_register(block) & 0x3FF
}

/// The offset word of block position `i` (A, B, C, D).
pub open spec fn offset_of(i: int) -> u16 {
    if i == 0 {
        0x0FC
    } else if i == 1 {
        0x198
    } else if i == 2 {
        0x168
    } else {
        0x1B4
    }
}

/// The checkword sent after the information bits of block `block` at position `i`.
pub open spec fn checkword(block: u16, i: int) -> u16 {
    crc_of(block) ^ offset_of(i)
}

/// The 26 wire bits of one block: 16 information bits, then 10 check bits.
pub open spec fn wire_block(block: u16, i: int) -> Seq<u8> {
    Seq::new(
        26,
        |k: int|
            if k < 16 {
                bit_of(block, 15 - k)
            } else {
                bit_of(checkword(block, i), 25 - k)
            },
    )
}

/// The 104 wire bits of a group of four blocks, in block order A, B, C, D.
pub open spec fn wire_group(blocks: Seq<u16>) -> Seq<u8> {
    Seq::new(104, |k: int| wire_block(blocks[k / 26], k / 26)[k % 26])
}

/// The offset word of block position `i`.
pub fn offset_word(i: usize) -> (r: u16)
    requires
        i < 4,
    ensures
        r == offset_of(i as int),
{
    if i == 0 {
        0x0FC
    } else if i == 1 {
        0x198
    } else if i == 2 {
        0x168
    } else {
        0x1B4
    }
}

/// The 10-bit CRC of a block, computed with the shift register one bit at a time.
pub fn crc(block: u16) -> (r: u16)
    ensures
        r == crc_of(block),
        r < 0x400,
{
    let mut crc: u16 = 0;
    let mut i: usize = 0;
    while i < BLOCK_SIZE
        invariant
            i <= 16,
            crc == crc_upto(block, i as nat),
        decreases 16 - i,
    {
        let bit = (block >> ((15 - i) as u16)) & 1 == 1;
        let msb = (crc >> 9u16) & 1;
        let shifted = crc << 1u16;
        crc = if (msb != 0) != bit { shifted ^ POLY } else { shifted };
        i += 1;
    }
    assert(crc & 0x3FF < 0x400) by (bit_vector);
    crc & 0x3FF
}

/// The 104 wire bits of a group: each block's information bits followed by its checkword,
/// most significant bit first.
pub fn group_bits(blocks: &[u16; 4]) -> (r: [u8; 104])
    ensures
        r@ == wire_group(blocks@),
{
    let mut out = [0u8; 104];
    let mut i: usize = 0;
    while i < GROUP_LENGTH
        invariant
            i <= 4,
            out@.len() == 104,
            forall|k: int| 0 <= k < 26 * i ==> out@[k] == wire_group(blocks@)[k],
        decreases 4 - i,
    {
        let block = blocks[i];
        let check = crc(block) ^ offset_word(i);
        let mut j: usize = 0;
        while j < 26
            invariant
                i < 4,
                j <= 26,
                out@.len() == 104,
                block == blocks@[i as int],
                check == checkword(block, i as int),
                forall|k: int| 0 <= k < 26 * i + j ==> out@[k] == wire_group(blocks@)[k],
            decreases 26 - j,
        {
            let b: u8 = if j < 16 {
                if (block >> ((15 - j) as u16)) & 1 == 1 { 1 } else { 0 }
            } else {
                if (check >> ((25 - j) as u16)) & 1 == 1 { 1 } else { 0 }
            };
            proof {
                let k = 26 * i + j;
                assert(k / 26 == i as int);
                assert(k % 26 == j as int);
            }
            out[26 * i + j] = b;
            j += 1;
        }
        i += 1;
    }
    assert(out@ =~= wire_group(blocks@));
    out
}


/// Every wire bit is 0 or 1.
pub proof fn lemma_wire_bits(blocks: Seq<u16>)
    ensures
        forall|k: int| 0 <= k < 104 ==> #[trigger] wire_group(blocks)[k] < 2,
{
}


/// The number that a sequence of bits spells, most significant bit first.
pub open spec fn bits_value(s: Seq<u8>) -> nat
    decreases s.len(),
{
    if s.len() == 0 {
        0
    } else {
        2 * bits_value(s.drop_last()) + s.last() as nat
    }
}

/// The top `n` of the low `w` bits of `x`, most significant first, spell `x >> (w - n)`.
proof fn lemma_top_bits(x: u16, w: u16, n: nat)
    requires
        n <= w <= 16,
        x >> w == 0,
    ensures
        bits_value(Seq::new(n, |k: int| bit_of(x, w - 1 - k))) == (x >> ((w - n) as u16)),
    decreases n,
{
    let s = Seq::new(n, |k: int| bit_of(x, w - 1 - k));
    if n == 0 {
        assert(s.len() == 0);
    } else {
        let m = (n - 1) as nat;
        lemma_top_bits(x, w, m);
        assert(s.drop_last() =~= Seq::new(m, |k: int| bit_of(x, w - 1 - k)));
        let sh = (w - n) as u16;
        let hi = x >> ((w - m) as u16);
        let lo = x >> sh;
        assert(sh < 16 && (w - m) as u16 == sh + 1);
        assert(lo == 2 * (x >> (sh + 1)) + (lo & 1) && (lo & 1) < 2) by (bit_vector)
            requires
                lo == x >> sh,
                sh < 16,
        ;
        assert(s.last() == bit_of(x, w - 1 - m));
        assert(w - 1 - m == sh);
        assert(s.last() as nat == (lo & 1));
    }
}

/// Every block of a group's wire form reads back as the block, followed by a check field
/// that reads back as the 10-bit CRC of that block XOR its position's offset word.
pub proof fn lemma_group_checkwords(blocks: Seq<u16>)
    requires
        blocks.len() == 4,
    ensures
        forall|i: int|
            0 <= i < 4 ==> {
                let wire = #[trigger] wire_group(blocks).subrange(26 * i, 26 * i + 26);
                let info = bits_value(wire.subrange(0, 16));
                &&& info == blocks[i]
                &&& bits_value(wire.subrange(16, 26)) == crc_of(info as u16) ^ offset_of(i)
            },
{
    assert forall|i: int| 0 <= i < 4 implies {
        let wire = #[trigger] wire_group(blocks).subrange(26 * i, 26 * i + 26);
        let info = bits_value(wire.subrange(0, 16));
        &&& info == blocks[i]
        &&& bits_value(wire.subrange(16, 26)) == crc_of(info as u16) ^ offset_of(i)
    } by {
        let wire = wire_group(blocks).subrange(26 * i, 26 * i + 26);
        let x = blocks[i];
        let c = checkword(x, i);
        assert forall|k: int| 0 <= k < 26 implies wire[k] == wire_block(x, i)[k] by {
            assert((26 * i + k) / 26 == i);
            assert((26 * i + k) % 26 == k);
        }
        assert(wire.subrange(0, 16) =~= Seq::new(16, |k: int| bit_of(x, 16 - 1 - k)));
        assert(wire.subrange(16, 26) =~= Seq::new(10, |k: int| bit_of(c, 10 - 1 - k)));
        assert(x >> 16u16 == 0) by (bit_vector);
        lemma_top_bits(x, 16, 16);
        assert(x >> 0u16 == x) by (bit_vector);
        let reg = crc_register(x);
        let off = offset_of(i);
        assert(off < 0x400);
        assert(((reg & 0x3FF) ^ off) >> 10u16 == 0) by (bit_vector)
            requires
                off < 0x400,
        ;
        lemma_top_bits(c, 10, 10);
        assert(c >> 0u16 == c) by (bit_vector);
    }
}

} // verus!
