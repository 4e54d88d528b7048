//! Mapping of Unicode text onto the 8-bit RDS character set (EN 50067, table G0).
use vstd::prelude::*;
use vstd::string::StrSliceExecFns;

verus! {

/// The byte that stands for a character absent from the RDS character set.
pub const RDS_SPACE: u8 = 0x20;

/// The RDS code unit of a Unicode code point; code points outside the table map to a space.
pub open spec fn rds_code(cp: u32) -> u8 {
    if (0x20 <= cp <= 0x23) || (0x25 <= cp <= 0x5D) || cp == 0x5F || (0x61 <= cp <= 0x7D) {
        cp as u8
    } else {
        match cp {
            0xA4 => 0x24u8, 0x2015 => 0x5E, 0x2016 => 0x60, 0xAF => 0x7E,
            0xE1 => 0x80, 0xE0 => 0x81, 0xE9 => 0x82, 0xE8 => 0x83,
            0xED => 0x84, 0xEC => 0x85, 0xF3 => 0x86, 0xF2 => 0x87,
            0xFA => 0x88, 0xF9 => 0x89, 0xD1 => 0x8A, 0xC7 => 0x8B,
            0x15E => 0x8C, 0xDF => 0x8D, 0xA1 => 0x8E, 0x132 => 0x8F,
            0xE2 => 0x90, 0xE4 => 0x91, 0xEA => 0x92, 0xEB => 0x93,
            0xEE => 0x94, 0xEF => 0x95, 0xF4 => 0x96, 0xF6 => 0x97,
            0xFB => 0x98, 0xFC => 0x99, 0xF1 => 0x9A, 0xE7 => 0x9B,
            0x15F => 0x9C, 0x11F => 0x9D, 0x131 => 0x9E, 0x133 => 0x9F,
            0xAA => 0xA0, 0x3B1 => 0xA1, 0xA9 => 0xA2, 0x2030 => 0xA3,
            0x11E => 0xA4, 0x11B => 0xA5, 0x148 => 0xA6, 0x151 => 0xA7,
            0x3C0 => 0xA8, 0x20AC => 0xA9, 0xA3 => 0xAA, 0x24 => 0xAB,
            0x2190 => 0xAC, 0x2191 => 0xAD, 0x2192 => 0xAE, 0x2193 => 0xAF,
            0xBA => 0xB0, 0xB9 => 0xB1, 0xB2 => 0xB2, 0xB3 => 0xB3,
            0xB1 => 0xB4, 0x130 => 0xB5, 0x144 => 0xB6, 0x171 => 0xB7,
            0xB5 => 0xB8, 0xBF => 0xB9, 0xF7 => 0xBA, 0xB0 => 0xBB,
            0xBC => 0xBC, 0xBD => 0xBD, 0xBE => 0xBE, 0xA7 => 0xBF,
            0xC1 => 0xC0, 0xC0 => 0xC1, 0xC9 => 0xC2, 0xC8 => 0xC3,
            0xCD => 0xC4, 0xCC => 0xC5, 0xD3 => 0xC6, 0xD2 => 0xC7,
            0xDA => 0xC8, 0xD9 => 0xC9, 0x158 => 0xCA, 0x10C => 0xCB,
            0x160 => 0xCC, 0x17D => 0xCD, 0xD0 => 0xCE, 0x13F => 0xCF,
            0xC2 => 0xD0, 0xC4 => 0xD1, 0xCA => 0xD2, 0xCB => 0xD3,
            0xCE => 0xD4, 0xCF => 0xD5, 0xD4 => 0xD6, 0xD6 => 0xD7,
            0xDB => 0xD8, 0xDC => 0xD9, 0x159 => 0xDA, 0x10D => 0xDB,
            0x161 => 0xDC, 0x17E => 0xDD, 0x111 => 0xDE, 0x140 => 0xDF,
            0xC3 => 0xE0, 0xC5 => 0xE1, 0xC6 => 0xE2, 0x152 => 0xE3,
            0x177 => 0xE4, 0xDD => 0xE5, 0xD5 => 0xE6, 0xD8 => 0xE7,
            0xDE => 0xE8, 0x14A => 0xE9, 0x154 => 0xEA, 0x106 => 0xEB,
            0x15A => 0xEC, 0x179 => 0xED, 0x166 => 0xEE, 0xF0 => 0xEF,
            0xE3 => 0xF0, 0xE5 => 0xF1, 0xE6 => 0xF2, 0x153 => 0xF3,
            0x175 => 0xF4, 0xFD => 0xF5, 0xF5 => 0xF6, 0xF8 => 0xF7,
            0xFE => 0xF8, 0x14B => 0xF9, 0x155 => 0xFA, 0x107 => 0xFB,
            0x15B => 0xFC, 0x17A => 0xFD, 0x167 => 0xFE,
            _ => RDS_SPACE,
        }
    }
}

/// What an RDS text buffer of `len` bytes holds after it is filled from `text`:
/// the mapped characters of `text`, cut at `len`, then spaces.
pub open spec fn rds_text(text: Seq<char>, len: nat) -> Seq<u8> {
    Seq::new(len, |i: int| if i < text.len() { rds_code(text[i] as u32) } else { RDS_SPACE })
}

/// Looks up the RDS code unit of one code point.
pub fn rds_map(cp: u32) -> (r: u8)
    ensures
        r == rds_code(cp),
{
    if (0x20 <= cp && cp <= 0x23) || (0x25 <= cp && cp <= 0x5D) || cp == 0x5F || (0x61 <= cp
        && cp <= 0x7D) {
        cp as u8
    } else {
        match cp {
            0xA4 => 0x24u8, 0x2015 => 0x5E, 0x2016 => 0x60, 0xAF => 0x7E,
            0xE1 => 0x80, 0xE0 => 0x81, 0xE9 => 0x82, 0xE8 => 0x83,
            0xED => 0x84, 0xEC => 0x85, 0xF3 => 0x86, 0xF2 => 0x87,
            0xFA => 0x88, 0xF9 => 0x89, 0xD1 => 0x8A, 0xC7 => 0x8B,
            0x15E => 0x8C, 0xDF => 0x8D, 0xA1 => 0x8E, 0x132 => 0x8F,
            0xE2 => 0x90, 0xE4 => 0x91, 0xEA => 0x92, 0xEB => 0x93,
            0xEE => 0x94, 0xEF => 0x95, 0xF4 => 0x96, 0xF6 => 0x97,
            0xFB => 0x98, 0xFC => 0x99, 0xF1 => 0x9A, 0xE7 => 0x9B,
            0x15F => 0x9C, 0x11F => 0x9D, 0x131 => 0x9E, 0x133 => 0x9F,
            0xAA => 0xA0, 0x3B1 => 0xA1, 0xA9 => 0xA2, 0x2030 => 0xA3,
            0x11E => 0xA4, 0x11B => 0xA5, 0x148 => 0xA6, 0x151 => 0xA7,
            0x3C0 => 0xA8, 0x20AC => 0xA9, 0xA3 => 0xAA, 0x24 => 0xAB,
            0x2190 => 0xAC, 0x2191 => 0xAD, 0x2192 => 0xAE, 0x2193 => 0xAF,
            0xBA => 0xB0, 0xB9 => 0xB1, 0xB2 => 0xB2, 0xB3 => 0xB3,
            0xB1 => 0xB4, 0x130 => 0xB5, 0x144 => 0xB6, 0x171 => 0xB7,
            0xB5 => 0xB8, 0xBF => 0xB9, 0xF7 => 0xBA, 0xB0 => 0xBB,
            0xBC => 0xBC, 0xBD => 0xBD, 0xBE => 0xBE, 0xA7 => 0xBF,
            0xC1 => 0xC0, 0xC0 => 0xC1, 0xC9 => 0xC2, 0xC8 => 0xC3,
            0xCD => 0xC4, 0xCC => 0xC5, 0xD3 => 0xC6, 0xD2 => 0xC7,
            0xDA => 0xC8, 0xD9 => 0xC9, 0x158 => 0xCA, 0x10C => 0xCB,
            0x160 => 0xCC, 0x17D => 0xCD, 0xD0 => 0xCE, 0x13F => 0xCF,
            0xC2 => 0xD0, 0xC4 => 0xD1, 0xCA => 0xD2, 0xCB => 0xD3,
            0xCE => 0xD4, 0xCF => 0xD5, 0xD4 => 0xD6, 0xD6 => 0xD7,
            0xDB => 0xD8, 0xDC => 0xD9, 0x159 => 0xDA, 0x10D => 0xDB,
            0x161 => 0xDC, 0x17E => 0xDD, 0x111 => 0xDE, 0x140 => 0xDF,
            0xC3 => 0xE0, 0xC5 => 0xE1, 0xC6 => 0xE2, 0x152 => 0xE3,
            0x177 => 0xE4, 0xDD => 0xE5, 0xD5 => 0xE6, 0xD8 => 0xE7,
            0xDE => 0xE8, 0x14A => 0xE9, 0x154 => 0xEA, 0x106 => 0xEB,
            0x15A => 0xEC, 0x179 => 0xED, 0x166 => 0xEE, 0xF0 => 0xEF,
            0xE3 => 0xF0, 0xE5 => 0xF1, 0xE6 => 0xF2, 0x153 => 0xF3,
            0x175 => 0xF4, 0xFD => 0xF5, 0xF5 => 0xF6, 0xF8 => 0xF7,
            0xFE => 0xF8, 0x14B => 0xF9, 0x155 => 0xFA, 0x107 => 0xFB,
            0x15B => 0xFC, 0x17A => 0xFD, 0x167 => 0xFE,
            _ => RDS_SPACE,
        }
    }
}

/// Fills `target` with the RDS code units of `input`, one per character, stopping at the
/// end of `target`; characters outside the RDS set become spaces and the rest of
/// `target` is padded with spaces.
pub fn fill_rds_string(target: &mut [u8], input: &str)
    ensures
        final(target)@ == rds_text(input@, old(target)@.len()),
{
    let n = input.unicode_len();
    let len = target.len();
    let mut i: usize = 0;
    while i < len
        invariant
            0 <= i <= len,
            n == input@.len(),
            len == old(target)@.len(),
            target@.len() == len,
            forall|j: int| 0 <= j < i ==> target@[j] == rds_text(input@, len as nat)[j],
        decreases len - i,
    {
        if i < n {
            let c = input.get_char(i);
            target[i] = rds_map(c as u32);
        } else {
            target[i] = RDS_SPACE;
        }
        i += 1;
    }
    assert(target@ =~= rds_text(input@, len as nat));
}

} // verus!
