//! Alternative-frequency list encoding: frequencies in kHz become one-byte codes
//! (87.6 MHz is code 1, 107.9 MHz is code 204), sorted, without duplicates, at most 25,
//! after a count byte `0xE0 + N`, padded with 0x00 to an even length.
use vstd::prelude::*;

verus! {

/// Lowest frequency an AF code can name, in kHz.
pub const AF_MIN_KHZ: u32 = 87600;
/// Highest frequency an AF code can name, in kHz.
pub const AF_MAX_KHZ: u32 = 107900;
/// Largest number of codes in one AF stream.
pub const AF_MAX_CODES: usize = 25;

/// A frequency in MHz, held exactly in thousandths of a MHz (98.0 MHz is
/// `Mhz { thousandths: 98000 }`).
#[derive(Clone, Copy, Debug, PartialEq, Eq)]
pub struct Mhz {
    pub thousandths: u32,
}

/// The frequencies of a list in thousandths of a MHz (that is, in kHz).
pub open spec fn thousandths_of(freqs: Seq<Mhz>) -> Seq<u32> {
    freqs.map_values(|f: Mhz| f.thousandths)
}

/// Whether a frequency in kHz can be sent as an AF code.
pub open spec fn af_valid(khz: u32) -> bool {
    AF_MIN_KHZ <= khz <= AF_MAX_KHZ
}

/// The AF code of a valid frequency: its distance from 87.6 MHz in steps of 100 kHz,
/// rounded half up, plus one.
pub open spec fn af_code(khz: u32) -> int {
    (khz - AF_MIN_KHZ + 50) / 100 + 1
}

/// Whether some valid frequency of `freqs` has AF code `c`.
pub open spec fn code_present(freqs: Seq<u32>, c: int) -> bool {
    exists|i: int| 0 <= i < freqs.len() && af_valid(freqs[i]) && af_code(freqs[i]) == c
}

/// The AF codes in `1..=m` that some valid frequency of `freqs` has, in increasing order.
pub open spec fn present_codes(freqs: Seq<u32>, m: nat) -> Seq<u8>
    decreases m,
{
    if m == 0 {
        Seq::empty()
    } else if code_present(freqs, m as int) {
        present_codes(freqs, (m - 1) as nat).push(m as u8)
    } else {
        present_codes(freqs, (m - 1) as nat)
    }
}

/// The AF codes of `freqs`: sorted, without duplicates, invalid frequencies left out.
pub open spec fn af_codes(freqs: Seq<u32>) -> Seq<u8> {
    present_codes(freqs, 204)
}

/// The number of codes that the AF stream of `freqs` carries.
pub open spec fn af_count(freqs: Seq<u32>) -> nat {
    if af_codes(freqs).len() < 25 { af_codes(freqs).len() } else { 25 }
}

/// The AF stream of `freqs`: empty when no frequency is valid, else the count byte,
/// the first `af_count` codes, and a 0x00 pad where that length is odd.
pub open spec fn af_stream(freqs: Seq<u32>) -> Seq<u8> {
    let n = af_count(freqs);
    if n == 0 {
        Seq::empty()
    } else {
        let s = seq![(0xE0 + n) as u8] + af_codes(freqs).take(n as int);
        if s.len() % 2 == 1 { s.push(0u8) } else { s }
    }
}

/// Every code of `present_codes(freqs, m)` is in `1..=m` and present, in increasing order.
pub proof fn lemma_present_codes(freqs: Seq<u32>, m: nat)
    requires
        m <= 255,
    ensures
        present_codes(freqs, m).len() <= m,
        forall|i: int|
            0 <= i < present_codes(freqs, m).len() ==> 1 <= #[trigger] present_codes(freqs, m)[i]
                <= m && code_present(freqs, present_codes(freqs, m)[i] as int),
        forall|i: int, j: int|
            0 <= i < j < present_codes(freqs, m).len() ==> present_codes(freqs, m)[i]
                < present_codes(freqs, m)[j],
    decreases m,
{
    if m > 0 {
        lemma_present_codes(freqs, (m - 1) as nat);
    }
}

/// The AF code of one frequency, or `None` where it lies outside 87.6 to 107.9 MHz.
pub fn af_code_of(khz: u32) -> (r: Option<u8>)
    ensures
        r is Some <==> af_valid(khz),
        r is Some ==> r->0 as int == af_code(khz) && 1 <= r->0 <= 204,
{
    if khz < AF_MIN_KHZ || khz > AF_MAX_KHZ {
        None
    } else {
        Some(((khz - AF_MIN_KHZ + 50) / 100 + 1) as u8)
    }
}

/// Encodes a list of frequencies in kHz as an AF stream.
pub fn encode_af_list(freqs: &[u32]) -> (r: Vec<u8>)
    ensures
        r@ == af_stream(freqs@),
{
    let mut seen: Vec<bool> = Vec::new();
    let mut c: usize = 0;
    while c < 205
        invariant
            c <= 205,
            seen@.len() == c,
            forall|j: int| 0 <= j < c ==> !seen@[j],
        decreases 205 - c,
    {
        seen.push(false);
        c += 1;
    }
    let mut k: usize = 0;
    while k < freqs.len()
        invariant
            k <= freqs@.len(),
            seen@.len() == 205,
            forall|j: int|
                0 <= j < 205 ==> (seen@[j] <==> exists|i: int|
                    0 <= i < k && af_valid(freqs@[i]) && af_code(freqs@[i]) == j),
        decreases freqs@.len() - k,
    {
        match af_code_of(freqs[k]) {
            Some(code) => {
                seen.set(code as usize, true);
            },
            None => {},
        }
        proof {
            assert forall|j: int| 0 <= j < 205 implies (seen@[j] <==> exists|i: int|
                0 <= i < k + 1 && af_valid(freqs@[i]) && af_code(freqs@[i]) == j) by {
                if seen@[j] && !(exists|i: int|
                    0 <= i < k && af_valid(freqs@[i]) && af_code(freqs@[i]) == j) {
                    assert(0 <= k < k + 1 && af_valid(freqs@[k as int]) && af_code(
                        freqs@[k as int],
                    ) == j);
                }
            }
        }
        k += 1;
    }
    let mut codes: Vec<u8> = Vec::new();
    let mut m: usize = 1;
    while m <= 204
        invariant
            1 <= m <= 205,
            seen@.len() == 205,
            forall|j: int| 0 <= j < 205 ==> (seen@[j] <==> code_present(freqs@, j)),
            codes@ == present_codes(freqs@, (m - 1) as nat),
        decreases 205 - m,
    {
        if seen[m] {
            codes.push(m as u8);
        }
        m += 1;
    }
    let ghost all = codes@;
    assert(all == af_codes(freqs@));
    proof {
        lemma_present_codes(freqs@, 204);
    }
    if codes.len() == 0 {
        assert(af_stream(freqs@) =~= Seq::<u8>::empty());
        return Vec::new();
    }
    let count: usize = if codes.len() < AF_MAX_CODES { codes.len() } else { AF_MAX_CODES };
    let mut stream: Vec<u8> = Vec::new();
    stream.push((0xE0 + count) as u8);
    let mut i: usize = 0;
    while i < count
        invariant
            i <= count,
            count <= codes@.len(),
            codes@ == all,
            stream@ == seq![(0xE0 + count) as u8] + all.take(i as int),
        decreases count - i,
    {
        stream.push(codes[i]);
        proof {
            assert(all.take(i as int + 1) =~= all.take(i as int).push(all[i as int]));
            assert(stream@ =~= seq![(0xE0 + count) as u8] + all.take(i as int + 1));
        }
        i += 1;
    }
    if stream.len() % 2 != 0 {
        stream.push(0x00);
    }
    stream
}


/// The AF stream of any list has whole byte pairs and at most 26 bytes.
pub proof fn lemma_af_stream_shape(freqs: Seq<u32>)
    ensures
        af_stream(freqs).len() % 2 == 0,
        af_stream(freqs).len() <= 26,
{
}


/// How many of the first `n` frequencies of `freqs` have an AF code of at most `m`.
pub open spec fn count_upto(freqs: Seq<u32>, m: int, n: nat) -> nat
    decreases n,
{
    if n == 0 {
        0
    } else {
        count_upto(freqs, m, (n - 1) as nat) + if af_code(freqs[n - 1]) <= m { 1nat } else { 0nat }
    }
}

/// With all frequencies valid and their codes distinct, exactly one of the first `n`
/// frequencies has code `m` where one has it, and none otherwise.
proof fn lemma_count_step(freqs: Seq<u32>, m: int, n: nat)
    requires
        n <= freqs.len(),
        forall|i: int| 0 <= i < freqs.len() ==> af_valid(#[trigger] freqs[i]),
        forall|i: int, j: int|
            0 <= i < j < freqs.len() ==> af_code(#[trigger] freqs[i]) != af_code(
                #[trigger] freqs[j],
            ),
    ensures
        count_upto(freqs, m, n) == count_upto(freqs, m - 1, n) + if exists|i: int|
            0 <= i < n && af_code(freqs[i]) == m {
            1nat
        } else {
            0nat
        },
    decreases n,
{
    if n > 0 {
        lemma_count_step(freqs, m, (n - 1) as nat);
        if af_code(freqs[n - 1]) == m {
            assert(!exists|i: int| 0 <= i < n - 1 && af_code(freqs[i]) == m);
        } else if exists|i: int| 0 <= i < n && af_code(freqs[i]) == m {
            let i = choose|i: int| 0 <= i < n && af_code(freqs[i]) == m;
            assert(0 <= i < n - 1);
        }
    }
}

/// Counting by code bounds: no code is below 1, all are at most 204.
proof fn lemma_count_bounds(freqs: Seq<u32>, n: nat)
    requires
        n <= freqs.len(),
        forall|i: int| 0 <= i < freqs.len() ==> af_valid(#[trigger] freqs[i]),
    ensures
        count_upto(freqs, 0, n) == 0,
        count_upto(freqs, 204, n) == n,
    decreases n,
{
    if n > 0 {
        lemma_count_bounds(freqs, (n - 1) as nat);
        assert(af_valid(freqs[n - 1]));
    }
}

/// With all frequencies valid and their codes distinct, the codes up to `m` that are
/// present number as many as the frequencies whose code is at most `m`.
proof fn lemma_present_len(freqs: Seq<u32>, m: nat)
    requires
        forall|i: int| 0 <= i < freqs.len() ==> af_valid(#[trigger] freqs[i]),
        forall|i: int, j: int|
            0 <= i < j < freqs.len() ==> af_code(#[trigger] freqs[i]) != af_code(
                #[trigger] freqs[j],
            ),
    ensures
        present_codes(freqs, m).len() == count_upto(freqs, m as int, freqs.len()),
    decreases m,
{
    if m == 0 {
        lemma_count_bounds(freqs, freqs.len());
    } else {
        lemma_present_len(freqs, (m - 1) as nat);
        lemma_count_step(freqs, m as int, freqs.len());
    }
}

/// For a list of at most 25 valid frequencies with distinct AF codes (an ordered list
/// without duplicates), at least one, the AF stream begins with `0xE0 + N` for the list's
/// length N, then holds N codes in `1..=204`, and has even length.
pub proof fn lemma_af_stream_of_list(freqs: Seq<u32>)
    requires
        1 <= freqs.len() <= 25,
        forall|i: int| 0 <= i < freqs.len() ==> af_valid(#[trigger] freqs[i]),
        forall|i: int, j: int|
            0 <= i < j < freqs.len() ==> af_code(#[trigger] freqs[i]) != af_code(
                #[trigger] freqs[j],
            ),
    ensures
        af_stream(freqs)[0] == 0xE0 + freqs.len(),
        forall|k: int|
            1 <= k <= freqs.len() ==> 1 <= #[trigger] af_stream(freqs)[k] <= 204,
        af_stream(freqs).len() == if freqs.len() % 2 == 1 {
            freqs.len() + 1
        } else {
            freqs.len() + 2
        },
        af_stream(freqs).len() % 2 == 0,
{
    lemma_present_len(freqs, 204);
    lemma_count_bounds(freqs, freqs.len());
    lemma_present_codes(freqs, 204);
    assert(af_codes(freqs).len() == freqs.len());
    assert(af_count(freqs) == freqs.len());
    let n = freqs.len();
    let s = seq![(0xE0 + n) as u8] + af_codes(freqs).take(n as int);
    assert forall|k: int| 1 <= k <= n implies 1 <= #[trigger] af_stream(freqs)[k] <= 204 by {
        assert(s[k] == af_codes(freqs)[k - 1]);
    }
}


/// The AF codes of a list, in list order.
pub open spec fn codes_in_order(freqs: Seq<u32>) -> Seq<u8> {
    Seq::new(freqs.len(), |i: int| af_code(freqs[i]) as u8)
}

/// For a list with increasing codes, the frequencies with code at most `m` are a prefix of
/// the list, `count_upto` long.
proof fn lemma_sorted_count(freqs: Seq<u32>, m: int, n: nat)
    requires
        n <= freqs.len(),
        forall|i: int, j: int|
            0 <= i < j < freqs.len() ==> af_code(#[trigger] freqs[i]) < af_code(#[trigger] freqs[j]),
    ensures
        count_upto(freqs, m, n) <= n,
        forall|i: int| 0 <= i < n ==> (i < count_upto(freqs, m, n) <==> af_code(#[trigger] freqs[i]) <= m),
    decreases n,
{
    if n > 0 {
        lemma_sorted_count(freqs, m, (n - 1) as nat);
        if af_code(freqs[n - 1]) <= m {
            assert forall|i: int| 0 <= i < n - 1 implies af_code(#[trigger] freqs[i]) <= m by {
                assert(af_code(freqs[i]) < af_code(freqs[n - 1]));
            }
        }
    }
}

/// For a list of valid frequencies with increasing codes, the present codes up to `m` are
/// the codes of the list's first `count_upto` frequencies.
proof fn lemma_present_prefix(freqs: Seq<u32>, m: nat)
    requires
        forall|i: int| 0 <= i < freqs.len() ==> af_valid(#[trigger] freqs[i]),
        forall|i: int, j: int|
            0 <= i < j < freqs.len() ==> af_code(#[trigger] freqs[i]) < af_code(#[trigger] freqs[j]),
    ensures
        count_upto(freqs, m as int, freqs.len()) <= freqs.len(),
        present_codes(freqs, m) =~= codes_in_order(freqs).take(
            count_upto(freqs, m as int, freqs.len()) as int,
        ),
    decreases m,
{
    let n = freqs.len();
    lemma_sorted_count(freqs, m as int, n);
    if m == 0 {
        lemma_count_bounds(freqs, n);
    } else {
        lemma_present_prefix(freqs, (m - 1) as nat);
        lemma_sorted_count(freqs, m - 1, n);
        lemma_count_step(freqs, m as int, n);
        let j = count_upto(freqs, m - 1, n) as int;
        if code_present(freqs, m as int) {
            assert(exists|i: int| 0 <= i < n && af_code(freqs[i]) == m) by {
                let i = choose|i: int|
                    0 <= i < freqs.len() && af_valid(freqs[i]) && af_code(freqs[i]) == m;
                assert(0 <= i < n && af_code(freqs[i]) == m);
            }
            assert(j < count_upto(freqs, m as int, n));
            assert(af_code(freqs[j]) <= m);
            assert(!(af_code(freqs[j]) <= m - 1));
            assert(codes_in_order(freqs)[j] == m as u8);
        } else {
            assert(!exists|i: int| 0 <= i < n && af_code(freqs[i]) == m) by {
                if exists|i: int| 0 <= i < n && af_code(freqs[i]) == m {
                    let i = choose|i: int| 0 <= i < n && af_code(freqs[i]) == m;
                    assert(af_valid(freqs[i]));
                }
            }
        }
    }
}

/// For an ordered list of 1 to 25 valid frequencies with distinct codes, the AF stream is
/// the count byte `0xE0 + N`, the code of each frequency in list order, and a 0x00 pad where
/// that makes an odd length even.
pub proof fn lemma_af_stream_in_order(freqs: Seq<u32>)
    requires
        1 <= freqs.len() <= 25,
        forall|i: int| 0 <= i < freqs.len() ==> af_valid(#[trigger] freqs[i]),
        forall|i: int, j: int|
            0 <= i < j < freqs.len() ==> af_code(#[trigger] freqs[i]) < af_code(#[trigger] freqs[j]),
    ensures
        af_stream(freqs)[0] == 0xE0 + freqs.len(),
        forall|k: int|
            0 <= k < freqs.len() ==> #[trigger] af_stream(freqs)[k + 1] == af_code(freqs[k]),
        af_stream(freqs).len() == freqs.len() + 1 + (freqs.len() + 1) % 2,
        af_stream(freqs).len() > freqs.len() + 1 ==> af_stream(freqs)[freqs.len() as int + 1] == 0,
{
    assert forall|i: int, j: int| 0 <= i < j < freqs.len() implies af_code(#[trigger] freqs[i])
        != af_code(#[trigger] freqs[j]) by {}
    lemma_af_stream_of_list(freqs);
    lemma_present_prefix(freqs, 204);
    lemma_count_bounds(freqs, freqs.len());
    let n = freqs.len();
    assert(af_codes(freqs) =~= codes_in_order(freqs));
    assert forall|k: int| 0 <= k < n implies #[trigger] af_stream(freqs)[k + 1] == af_code(freqs[k]) by {
        assert(1 <= af_code(freqs[k]) <= 204);
    }
}

} // verus!
