//! The RDS programme types (PTY codes 0 to 31) with their European names, and the
//! decoder-information nibble built from its four flags.
use vstd::prelude::*;

verus! {

/// A programme type code with its name.
#[derive(Clone, Copy, Debug, PartialEq, Eq)]
pub struct PtyItem {
    pub code: u8,
    pub label: &'static str,
}

/// The name of programme type `code` (0 to 31).
pub open spec fn pty_name(code: u8) -> Seq<char> {
        if code == 0 {
            "None"@
        } else if code == 1 {
            "News"@
        } else if code == 2 {
            "Current affairs"@
        } else if code == 3 {
            "Information"@
        } else if code == 4 {
            "Sport"@
        } else if code == 5 {
            "Education"@
        } else if code == 6 {
            "Drama"@
        } else if code == 7 {
            "Culture"@
        } else if code == 8 {
            "Science"@
        } else if code == 9 {
            "Varied"@
        } else if code == 10 {
            "Pop music"@
        } else if code == 11 {
            "Rock music"@
        } else if code == 12 {
            "Easy listening"@
        } else if code == 13 {
            "Light classical"@
        } else if code == 14 {
            "Serious classical"@
        } else if code == 15 {
            "Other music"@
        } else if code == 16 {
            "Weather"@
        } else if code == 17 {
            "Finance"@
        } else if code == 18 {
            "Children's programmes"@
        } else if code == 19 {
            "Social affairs"@
        } else if code == 20 {
            "Religion"@
        } else if code == 21 {
            "Phone-in"@
        } else if code == 22 {
            "Travel"@
        } else if code == 23 {
            "Leisure"@
        } else if code == 24 {
            "Jazz music"@
        } else if code == 25 {
            "Country music"@
        } else if code == 26 {
            "National music"@
        } else if code == 27 {
            "Oldies music"@
        } else if code == 28 {
            "Folk music"@
        } else if code == 29 {
            "Documentary"@
        } else if code == 30 {
            "Alarm test"@
        } else if code == 31 {
            "Alarm"@
        } else {
            "Alarm"@
        }
}

/// The name of programme type `code`.
pub fn pty_label(code: u8) -> (r: &'static str)
    requires
        code < 32,
    ensures
        r@ == pty_name(code),
{
        if code == 0 {
            "None"
        } else if code == 1 {
            "News"
        } else if code == 2 {
            "Current affairs"
        } else if code == 3 {
            "Information"
        } else if code == 4 {
            "Sport"
        } else if code == 5 {
            "Education"
        } else if code == 6 {
            "Drama"
        } else if code == 7 {
            "Culture"
        } else if code == 8 {
            "Science"
        } else if code == 9 {
            "Varied"
        } else if code == 10 {
            "Pop music"
        } else if code == 11 {
            "Rock music"
        } else if code == 12 {
            "Easy listening"
        } else if code == 13 {
            "Light classical"
        } else if code == 14 {
            "Serious classical"
        } else if code == 15 {
            "Other music"
        } else if code == 16 {
            "Weather"
        } else if code == 17 {
            "Finance"
        } else if code == 18 {
            "Children's programmes"
        } else if code == 19 {
            "Social affairs"
        } else if code == 20 {
            "Religion"
        } else if code == 21 {
            "Phone-in"
        } else if code == 22 {
            "Travel"
        } else if code == 23 {
            "Leisure"
        } else if code == 24 {
            "Jazz music"
        } else if code == 25 {
            "Country music"
        } else if code == 26 {
            "National music"
        } else if code == 27 {
            "Oldies music"
        } else if code == 28 {
            "Folk music"
        } else if code == 29 {
            "Documentary"
        } else if code == 30 {
            "Alarm test"
        } else if code == 31 {
            "Alarm"
        } else {
            "Alarm"
        }
}

/// All 32 programme types, in code order.
pub fn pty_items() -> (r: Vec<PtyItem>)
    ensures
        r@.len() == 32,
        forall|i: int| 0 <= i < 32 ==> #[trigger] r@[i].code == i && r@[i].label@ == pty_name(i as u8),
{
    let mut r: Vec<PtyItem> = Vec::new();
    let mut code: u8 = 0;
    while code < 32
        invariant
            code <= 32,
            r@.len() == code,
            forall|i: int| 0 <= i < code ==> #[trigger] r@[i].code == i && r@[i].label@ == pty_name(i as u8),
        decreases 32 - code,
    {
        r.push(PtyItem { code, label: pty_label(code) });
        code += 1;
    }
    r
}

/// The decoder-information nibble: stereo (bit 3), artificial head (bit 2), compressed
/// (bit 1) and dynamic PTY (bit 0).
pub fn di_bits(stereo: bool, artificial_head: bool, compressed: bool, dynamic_pty: bool) -> (r: u8)
    ensures
        r == (if stereo { 8u8 } else { 0u8 }) + (if artificial_head { 4u8 } else { 0u8 }) + (
        if compressed { 2u8 } else { 0u8 }) + (if dynamic_pty { 1u8 } else { 0u8 }),
{
    let mut bits: u8 = 0;
    if stereo {
        bits = bits + 8;
    }
    if artificial_head {
        bits = bits + 4;
    }
    if compressed {
        bits = bits + 2;
    }
    if dynamic_pty {
        bits = bits + 1;
    }
    bits
}

} // verus!
