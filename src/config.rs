//! Parsing of the station identifiers that a user types: the PI code, an ECC byte, and a PI
//! code assembled from country, area and programme-reference digits.
use vstd::prelude::*;
use vstd::string::StrSliceExecFns;

verus! {

/// Whether `c` is white space as `char::is_whitespace` defines it (Unicode `White_Space`).
pub open spec fn is_ws(c: char) -> bool {
    ('\u{9}' <= c <= '\u{d}') || c == ' ' || c == '\u{85}' || c == '\u{a0}' || c == '\u{1680}'
        || ('\u{2000}' <= c <= '\u{200a}') || c == '\u{2028}' || c == '\u{2029}' || c == '\u{202f}'
        || c == '\u{205f}' || c == '\u{3000}'
}

/// `s` without leading white space.
pub open spec fn trim_start(s: Seq<char>) -> Seq<char>
    decreases s.len(),
{
    if s.len() > 0 && is_ws(s[0]) {
        trim_start(s.drop_first())
    } else {
        s
    }
}

/// `s` without trailing white space.
pub open spec fn trim_end(s: Seq<char>) -> Seq<char>
    decreases s.len(),
{
    if s.len() > 0 && is_ws(s.last()) {
        trim_end(s.drop_last())
    } else {
        s
    }
}

/// `s` without leading and trailing white space.
pub open spec fn trimmed(s: Seq<char>) -> Seq<char> {
    trim_end(trim_start(s))
}

/// Relies on str::trim: the text without leading and trailing white space.
#[verifier::external_body]
pub(crate) fn trim(s: &str) -> (r: &str)
    ensures
        r@ == trimmed(s@),
{
    s.trim()
}

/// Whether `s` begins with "0x".
pub open spec fn has_hex_prefix(s: Seq<char>) -> bool {
    s.len() >= 2 && s[0] == '0' && s[1] == 'x'
}

/// `s` with one leading "0x" removed, where it has one.
pub open spec fn strip_hex_prefix(s: Seq<char>) -> Seq<char> {
    if has_hex_prefix(s) { s.subrange(2, s.len() as int) } else { s }
}

/// `s` with every leading "0x" removed.
pub open spec fn strip_hex_prefixes(s: Seq<char>) -> Seq<char>
    decreases s.len(),
{
    if has_hex_prefix(s) {
        strip_hex_prefixes(s.subrange(2, s.len() as int))
    } else {
        s
    }
}

/// Whether `c` is a hexadecimal digit.
pub open spec fn is_hex_digit(c: char) -> bool {
    ('0' <= c <= '9') || ('a' <= c <= 'f') || ('A' <= c <= 'F')
}

/// The value of a hexadecimal digit.
pub open spec fn hex_digit_value(c: char) -> int {
    if '0' <= c <= '9' {
        c as int - '0' as int
    } else if 'a' <= c <= 'f' {
        c as int - 'a' as int + 10
    } else {
        c as int - 'A' as int + 10
    }
}

/// The number that a string of hexadecimal digits spells.
pub open spec fn hex_value(s: Seq<char>) -> int
    decreases s.len(),
{
    if s.len() == 0 {
        0
    } else {
        16 * hex_value(s.drop_last()) + hex_digit_value(s.last())
    }
}

/// The digits of a number as `from_str_radix` reads them: `s` after an optional `+`.
pub open spec fn unsigned_digits(s: Seq<char>) -> Seq<char> {
    if s.len() > 0 && s[0] == '+' { s.drop_first() } else { s }
}

/// The number below `bound` that `digits` spell in base 16: at least one digit, all
/// hexadecimal.
pub open spec fn hex_digits_value(digits: Seq<char>, bound: int) -> Option<int> {
    if digits.len() > 0 && (forall|i: int| 0 <= i < digits.len() ==> is_hex_digit(#[trigger] digits[i]))
        && hex_value(digits) < bound {
        Some(hex_value(digits))
    } else {
        None
    }
}

/// The unsigned number below `bound` that `s` spells in base 16, as `from_str_radix`
/// reads it: an optional `+`, then at least one hexadecimal digit and nothing else.
pub open spec fn parse_hex(s: Seq<char>, bound: int) -> Option<int> {
    hex_digits_value(unsigned_digits(s), bound)
}

/// The hexadecimal number below `bound` that `s` spells from char `start` on.
fn parse_hex_from(s: &str, start: usize, bound: u32) -> (r: Option<u32>)
    requires
        start <= s@.len(),
        0 < bound <= 0x10000,
    ensures
        r matches Some(v) ==> parse_hex(s@.subrange(start as int, s@.len() as int), bound as int)
            == Some(v as int),
        r is None ==> parse_hex(s@.subrange(start as int, s@.len() as int), bound as int) is None,
{
    let n = s.unicode_len();
    assert(n == s@.len());
    let ghost t = s@.subrange(start as int, n as int);
    let mut i = start;
    if i < n && s.get_char(i) == '+' {
        i += 1;
    }
    let ghost digits = s@.subrange(i as int, n as int);
    assert(digits == unsigned_digits(t));
    if i == n {
        return None;
    }
    let mut val: u32 = 0;
    let first = i;
    while i < n
        invariant
            start <= first <= i <= n,
            n == s@.len(),
            digits == s@.subrange(first as int, n as int),
            t == s@.subrange(start as int, n as int),
            digits == unsigned_digits(t),
            val as int == hex_value(digits.take(i - first)),
            val < bound,
            bound <= 0x10000,
            forall|k: int| 0 <= k < i - first ==> is_hex_digit(#[trigger] digits[k]),
        decreases n - i,
    {
        let c = s.get_char(i);
        let d: u32 = if '0' <= c && c <= '9' {
            (c as u32) - ('0' as u32)
        } else if 'a' <= c && c <= 'f' {
            (c as u32) - ('a' as u32) + 10
        } else if 'A' <= c && c <= 'F' {
            (c as u32) - ('A' as u32) + 10
        } else {
            assert(!is_hex_digit(digits[i - first]));
            assert(!(forall|k: int| 0 <= k < digits.len() ==> is_hex_digit(#[trigger] digits[k])));
            assert(parse_hex(t, bound as int) is None);
            return None;
        };
        assert(digits.take(i - first + 1).drop_last() =~= digits.take(i - first));
        val = val * 16 + d;
        i += 1;
        if val >= bound {
            proof {
                if forall|k: int| 0 <= k < digits.len() ==> is_hex_digit(#[trigger] digits[k]) {
                    lemma_hex_value_grows(digits, i - first);
                }
                assert(parse_hex(t, bound as int) is None);
            }
            return None;
        }
    }
    assert(digits.take(n - first) =~= digits);
    Some(val)
}

/// A hexadecimal value is never negative.
proof fn lemma_hex_value_nonneg(s: Seq<char>)
    requires
        forall|i: int| 0 <= i < s.len() ==> is_hex_digit(#[trigger] s[i]),
    ensures
        hex_value(s) >= 0,
    decreases s.len(),
{
    if s.len() > 0 {
        lemma_hex_value_nonneg(s.drop_last());
    }
}

/// A hexadecimal value never shrinks as digits are appended.
proof fn lemma_hex_value_grows(s: Seq<char>, k: int)
    requires
        0 <= k <= s.len(),
        forall|i: int| 0 <= i < s.len() ==> is_hex_digit(#[trigger] s[i]),
    ensures
        hex_value(s) >= hex_value(s.take(k)),
    decreases s.len() - k,
{
    if k < s.len() {
        lemma_hex_value_grows(s, k + 1);
        assert(s.take(k + 1).drop_last() =~= s.take(k));
        lemma_hex_value_nonneg(s.take(k));
    } else {
        assert(s.take(k) =~= s);
    }
}


/// What `parse_pi` gives for a text: a 16-bit hexadecimal number after trimming white
/// space and one "0x", or the message for a missing or malformed code.
pub open spec fn pi_of_text(input: Seq<char>) -> Result<u16, Seq<char>> {
    let t = trimmed(input);
    if t.len() == 0 {
        Err("PI code is required"@)
    } else {
        match parse_hex(strip_hex_prefix(t), 0x10000) {
            Some(v) => Ok(v as u16),
            None => Err("PI must be a 4-hex-digit value"@),
        }
    }
}

/// What `parse_hex_byte` gives for a text: an 8-bit hexadecimal number after trimming white
/// space and one "0x", or the message for a missing or malformed byte.
pub open spec fn byte_of_text(input: Seq<char>) -> Result<u8, Seq<char>> {
    let t = trimmed(input);
    if t.len() == 0 {
        Err("Hex byte is required"@)
    } else {
        match parse_hex(strip_hex_prefix(t), 0x100) {
            Some(v) => Ok(v as u8),
            None => Err("Hex must be 2 digits"@),
        }
    }
}

/// The index in `t` where the digits start after one leading "0x", if any.
fn skip_hex_prefix(t: &str) -> (k: usize)
    ensures
        k <= t@.len(),
        t@.subrange(k as int, t@.len() as int) == strip_hex_prefix(t@),
{
    let n = t.unicode_len();
    if n >= 2 && t.get_char(0) == '0' && t.get_char(1) == 'x' {
        2
    } else {
        assert(t@.subrange(0, n as int) =~= t@);
        0
    }
}

/// The index in `t` where the digits start after every leading "0x".
fn skip_hex_prefixes(t: &str) -> (k: usize)
    ensures
        k <= t@.len(),
        t@.subrange(k as int, t@.len() as int) == strip_hex_prefixes(t@),
{
    let n = t.unicode_len();
    let mut k: usize = 0;
    assert(t@.subrange(0, n as int) =~= t@);
    while n >= 2 && k <= n - 2 && t.get_char(k) == '0' && t.get_char(k + 1) == 'x'
        invariant
            k <= n,
            n == t@.len(),
            strip_hex_prefixes(t@.subrange(k as int, n as int)) == strip_hex_prefixes(t@),
        decreases n - k,
    {
        let ghost rest = t@.subrange(k as int, n as int);
        assert(has_hex_prefix(rest));
        assert(rest.subrange(2, rest.len() as int) =~= t@.subrange(k + 2, n as int));
        k += 2;
    }
    let ghost rest = t@.subrange(k as int, n as int);
    assert(!has_hex_prefix(rest));
    k
}

/// Parses a PI code typed in hexadecimal ("7200", "0x7200", " 7200 ").
pub fn parse_pi(input: &str) -> (r: Result<u16, String>)
    ensures
        match r {
            Ok(v) => pi_of_text(input@) == Ok::<u16, Seq<char>>(v),
            Err(e) => pi_of_text(input@) == Err::<u16, Seq<char>>(e@),
        },
{
    let t = trim(input);
    if t.unicode_len() == 0 {
        return Err("PI code is required".to_owned());
    }
    let k = skip_hex_prefix(t);
    match parse_hex_from(t, k, 0x10000) {
        Some(v) => Ok(v as u16),
        None => Err("PI must be a 4-hex-digit value".to_owned()),
    }
}

/// Parses a byte typed in hexadecimal ("E2", "0xe2").
pub fn parse_hex_byte(input: &str) -> (r: Result<u8, String>)
    ensures
        match r {
            Ok(v) => byte_of_text(input@) == Ok::<u8, Seq<char>>(v),
            Err(e) => byte_of_text(input@) == Err::<u8, Seq<char>>(e@),
        },
{
    let t = trim(input);
    if t.unicode_len() == 0 {
        return Err("Hex byte is required".to_owned());
    }
    let k = skip_hex_prefix(t);
    match parse_hex_from(t, k, 0x100) {
        Some(v) => Ok(v as u8),
        None => Err("Hex must be 2 digits".to_owned()),
    }
}

/// Whether an ECC reads "E2" once upper-cased.
pub open spec fn is_ecc_e2(s: Seq<char>) -> bool {
    s.len() == 2 && (s[0] == 'E' || s[0] == 'e') && s[1] == '2'
}

/// A hexadecimal field of `build_pi_from_parts`: trimmed, every leading "0x" removed, below
/// 0x10000.
pub open spec fn hex_field(s: Seq<char>) -> Option<int> {
    parse_hex(strip_hex_prefixes(trimmed(s)), 0x10000)
}

/// What `build_pi_from_parts` gives: the PI code `country << 12 | area << 8 | program`,
/// the country digit defaulting to 7 where it is empty and the ECC is E2.
pub open spec fn pi_of_parts(country: Seq<char>, area: Seq<char>, program: Seq<char>, ecc: Seq<char>) -> Result<
    u16,
    Seq<char>,
> {
    let c = if trimmed(country).len() == 0 {
        if is_ecc_e2(strip_hex_prefixes(trimmed(ecc))) {
            Ok(7int)
        } else {
            Err("Country code is empty and ECC is unknown. Set country code manually."@)
        }
    } else {
        match hex_field(country) {
            Some(v) => Ok(v),
            None => Err("Invalid country code hex"@),
        }
    };
    match c {
        Err(e) => Err(e),
        Ok(c) => match hex_field(area) {
            None => Err("Invalid area code hex"@),
            Some(a) => match hex_field(program) {
                None => Err("Invalid program ref hex"@),
                Some(p) => if c > 0xF {
                    Err("Country code must be 0..F"@)
                } else if a > 0xF {
                    Err("Area code must be 0..F"@)
                } else if p > 0xFF {
                    Err("Program ref must be 00..FF"@)
                } else {
                    Ok((c * 4096 + a * 256 + p) as u16)
                },
            },
        },
    }
}

/// A hexadecimal field: trimmed, every leading "0x" removed, read in base 16.
fn parse_hex_field(s: &str) -> (r: Option<u16>)
    ensures
        match r {
            Some(v) => hex_field(s@) == Some(v as int),
            None => hex_field(s@) is None,
        },
{
    let t = trim(s);
    let k = skip_hex_prefixes(t);
    match parse_hex_from(t, k, 0x10000) {
        Some(v) => Some(v as u16),
        None => None,
    }
}

/// Builds a PI code from its country, area and programme-reference hex digits; an empty
/// country takes 7 where the ECC is E2.
pub fn build_pi_from_parts(country_hex: &str, area_hex: &str, program_hex: &str, ecc_hex: &str) -> (r:
    Result<u16, String>)
    ensures
        match r {
            Ok(v) => pi_of_parts(country_hex@, area_hex@, program_hex@, ecc_hex@) == Ok::<
                u16,
                Seq<char>,
            >(v),
            Err(e) => pi_of_parts(country_hex@, area_hex@, program_hex@, ecc_hex@) == Err::<
                u16,
                Seq<char>,
            >(e@),
        },
{
    let ct = trim(country_hex);
    let country: u16 = if ct.unicode_len() == 0 {
        let et = trim(ecc_hex);
        let k = skip_hex_prefixes(et);
        let n = et.unicode_len();
        if n >= 2 && k == n - 2 && (et.get_char(k) == 'E' || et.get_char(k) == 'e') && et.get_char(k + 1) == '2' {
            7
        } else {
            proof {
                let e = strip_hex_prefixes(trimmed(ecc_hex@));
                if is_ecc_e2(e) {
                    assert(e[0] == et@[k as int] && e[1] == et@[k + 1]);
                }
            }
            return Err("Country code is empty and ECC is unknown. Set country code manually.".to_owned());
        }
    } else {
        match parse_hex_field(country_hex) {
            Some(v) => v,
            None => return Err("Invalid country code hex".to_owned()),
        }
    };
    let area = match parse_hex_field(area_hex) {
        Some(v) => v,
        None => return Err("Invalid area code hex".to_owned()),
    };
    let program = match parse_hex_field(program_hex) {
        Some(v) => v,
        None => return Err("Invalid program ref hex".to_owned()),
    };
    if country > 0xF {
        return Err("Country code must be 0..F".to_owned());
    }
    if area > 0xF {
        return Err("Area code must be 0..F".to_owned());
    }
    if program > 0xFF {
        return Err("Program ref must be 00..FF".to_owned());
    }
    assert((country << 12u16) | (area << 8u16) | program == country * 4096 + area * 256 + program)
        by (bit_vector)
        requires
            country <= 0xF,
            area <= 0xF,
            program <= 0xFF,
    ;
    Ok((country << 12u16) | (area << 8u16) | program)
}

} // verus!
