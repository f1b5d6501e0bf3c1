//! LEB128 integer codec.
//!
//! The decoders accumulate the low seven bits of each input byte, least
//! significant group first, until a byte without the continuation bit is
//! found.  They are parameterized by a maximum byte count and a logical bit
//! width `N`: a decoded value outside the `N`-bit window is an `Overflow`,
//! and an input that ends while the continuation bit is still set is
//! `Unterminated`.

use vstd::prelude::*;
use vstd::arithmetic::div_mod::lemma_fundamental_div_mod;
use vstd::arithmetic::mul::lemma_mul_is_associative;
use vstd::arithmetic::power2::{
    pow2, lemma_pow2_adds, lemma_pow2_pos, lemma_pow2_strictly_increases, lemma2_to64,
    lemma2_to64_rest,
};

verus! {

/// Failure of a LEB128 decode.
#[derive(Debug, Clone, Copy, PartialEq, Eq, Structural)]
pub enum Leb128Err {
    /// The input ended (or the byte budget ran out) with the continuation
    /// bit still set.
    Unterminated,
    /// The decoded value does not fit the requested bit width, or more
    /// continuation bytes appeared than the bit width allows.
    Overflow,
}

/// The continuation bit of a LEB128 byte.
pub open spec fn continuation(b: u8) -> bool {
    b & 0x80 != 0
}

/// Byte `t` terminates the encoding: it has no continuation bit and every
/// byte before it has one.
pub open spec fn terminator_at(s: Seq<u8>, t: int) -> bool {
    &&& 0 <= t < s.len()
    &&& !continuation(s[t])
    &&& forall|j: int| 0 <= j < t ==> continuation(s[j])
}

/// The unsigned value of the low seven bits of the first `n` bytes,
/// least significant group first.
pub open spec fn uleb_value(s: Seq<u8>, n: int) -> int
    decreases n,
{
    if n <= 0 || n > s.len() {
        0
    } else {
        uleb_value(s, n - 1) + (s[n - 1] & 0x7f) * pow2((7 * (n - 1)) as nat)
    }
}

/// The value of the first `n` bytes with every seven-bit group complemented.
pub open spec fn uleb_cvalue(s: Seq<u8>, n: int) -> int
    decreases n,
{
    if n <= 0 || n > s.len() {
        0
    } else {
        uleb_cvalue(s, n - 1) + (0x7f - (s[n - 1] & 0x7f)) * pow2((7 * (n - 1)) as nat)
    }
}

/// The signed value of the first `n` bytes: the unsigned accumulation,
/// sign-extended when the final byte's sign bit (0x40) is set.
pub open spec fn sleb_value(s: Seq<u8>, n: int) -> int {
    if 0 < n <= s.len() && s[n - 1] & 0x40 != 0 {
        uleb_value(s, n) - pow2((7 * n) as nat)
    } else {
        uleb_value(s, n)
    }
}

/// The bit width actually enforced: widths above 64 cannot constrain a
/// 64-bit result any further.
pub open spec fn eff_bits(max_bits: u32) -> int {
    if max_bits > 64 {
        64
    } else {
        max_bits as int
    }
}

/// The decoder reaches byte `t`: no earlier continuation byte exhausts the
/// bit width.
pub open spec fn reachable_byte(t: int, nbits: int) -> bool {
    t == 0 || 7 * t < nbits
}

/// A successful unsigned decode ends at terminator `t` within the byte
/// budget, and the value fits the bit width.
pub open spec fn uleb_ok_at(s: Seq<u8>, max_bytes: int, nbits: int, t: int) -> bool {
    &&& terminator_at(s, t)
    &&& t < max_bytes
    &&& reachable_byte(t, nbits)
    &&& uleb_value(s, t + 1) < pow2(nbits as nat)
}

/// An unsigned decode overflows: either the terminated value does not fit
/// the bit width, or continuation bytes alone exhaust it.
pub open spec fn uleb_overflow(s: Seq<u8>, max_bytes: int, nbits: int) -> bool {
    ||| exists|t: int|
        terminator_at(s, t) && t < max_bytes && reachable_byte(t, nbits)
            && uleb_value(s, t + 1) >= pow2(nbits as nat)
    ||| exists|k: int|
        0 <= k < max_bytes && k < s.len() && reachable_byte(k, nbits) && 7 * (k + 1) >= nbits
            && (forall|j: int| 0 <= j <= k ==> continuation(s[j]))
}

/// A decode runs out of input (or byte budget) with the continuation bit
/// still set on every byte it saw.
pub open spec fn leb_unterminated(s: Seq<u8>, max_bytes: int, nbits: int) -> bool {
    let m = if max_bytes < s.len() {
        max_bytes
    } else {
        s.len() as int
    };
    &&& forall|j: int| 0 <= j < m ==> continuation(s[j])
    &&& (m == 0 || 7 * m < nbits)
}

/// The signed `nbits`-wide window: `-2^(nbits-1) <= v < 2^(nbits-1)`,
/// written doubled so that a width of zero admits only zero.
pub open spec fn in_signed_window(v: int, nbits: int) -> bool {
    &&& -pow2(nbits as nat) <= 2 * v
    &&& 2 * v < pow2(nbits as nat)
}

/// A successful signed decode ends at terminator `t` within the byte
/// budget, and the sign-extended value lies in the signed window.
pub open spec fn sleb_ok_at(s: Seq<u8>, max_bytes: int, nbits: int, t: int) -> bool {
    &&& terminator_at(s, t)
    &&& t < max_bytes
    &&& reachable_byte(t, nbits)
    &&& in_signed_window(sleb_value(s, t + 1), nbits)
}

/// A signed decode overflows: the terminated value leaves the signed
/// window, or continuation bytes alone exhaust the bit width.
pub open spec fn sleb_overflow(s: Seq<u8>, max_bytes: int, nbits: int) -> bool {
    ||| exists|t: int|
        terminator_at(s, t) && t < max_bytes && reachable_byte(t, nbits)
            && !in_signed_window(sleb_value(s, t + 1), nbits)
    ||| exists|k: int|
        0 <= k < max_bytes && k < s.len() && reachable_byte(k, nbits) && 7 * (k + 1) >= nbits
            && (forall|j: int| 0 <= j <= k ==> continuation(s[j]))
}

/// The low seven bits of a byte are below 128, and a byte without its high
/// bit is its own low seven bits.
proof fn lemma_low7(b: u8)
    ensures
        b & 0x7f < 128,
        b & 0x80 == 0 ==> b & 0x7f == b,
{
    assert(b & 0x7f < 128) by (bit_vector);
    assert(b & 0x80 == 0 ==> b & 0x7f == b) by (bit_vector);
}

/// The unsigned accumulation only grows as more bytes are taken in.
proof fn lemma_uleb_value_monotonic(s: Seq<u8>, n: int, m: int)
    requires
        n <= m <= s.len(),
    ensures
        uleb_value(s, n) <= uleb_value(s, m),
    decreases m,
{
    if m > n && m > 0 {
        lemma_uleb_value_monotonic(s, n, m - 1);
        lemma_pow2_pos((7 * (m - 1)) as nat);
        let p = pow2((7 * (m - 1)) as nat) as int;
        let low = (s[m - 1] & 0x7f) as int;
        assert(low * p >= 0) by (nonlinear_arith)
            requires low >= 0 && p > 0;
    }
}

/// The unsigned accumulation of `n` bytes stays below `2^(7n)`, and the
/// complemented accumulation is its exact complement within that range.
proof fn lemma_uleb_value_bound(s: Seq<u8>, n: int)
    requires
        0 <= n <= s.len(),
    ensures
        0 <= uleb_value(s, n) < pow2((7 * n) as nat),
        uleb_value(s, n) + uleb_cvalue(s, n) == pow2((7 * n) as nat) - 1,
    decreases n,
{
    if n == 0 {
        assert(pow2(0) == 1) by {
            lemma2_to64();
        }
    } else {
        lemma_uleb_value_bound(s, n - 1);
        lemma_low7(s[n - 1]);
        lemma_pow2_adds((7 * (n - 1)) as nat, 7);
        assert(pow2(7) == 128) by {
            lemma2_to64();
        }
        lemma_pow2_pos((7 * (n - 1)) as nat);
        let p = pow2((7 * (n - 1)) as nat) as int;
        let low = (s[n - 1] & 0x7f) as int;
        assert(low * p <= 127 * p) by (nonlinear_arith)
            requires low <= 127 && p > 0;
        assert(uleb_value(s, n) == uleb_value(s, n - 1) + low * p);
        assert(uleb_cvalue(s, n) == uleb_cvalue(s, n - 1) + (127 - low) * p);
        assert(low * p + (127 - low) * p == 127 * p) by (nonlinear_arith);
        assert(pow2((7 * n) as nat) == 128 * p);
    }
}

/// There is at most one terminator position.
pub proof fn lemma_terminator_unique(s: Seq<u8>, t1: int, t2: int)
    requires
        terminator_at(s, t1),
        terminator_at(s, t2),
    ensures
        t1 == t2,
{
}

/// Computes `2^e` for exponents that fit a 64-bit word.
pub fn pow2_u64(e: u32) -> (r: u64)
    requires
        e <= 63,
    ensures
        r == pow2(e as nat),
{
    let mut i: u32 = 0;
    let mut r: u64 = 1;
    proof {
        lemma2_to64();
        lemma2_to64_rest();
    }
    while i < e
        invariant
            i <= e <= 63,
            r == pow2(i as nat),
            pow2(63) == 0x8000000000000000,
        decreases e - i,
    {
        proof {
            lemma_pow2_adds(i as nat, 1);
            lemma2_to64();
            if i + 1 < 63 {
                lemma_pow2_strictly_increases((i + 1) as nat, 63);
            }
        }
        r = r * 2;
        i = i + 1;
    }
    r
}

/// Decodes an unsigned LEB128 integer from the front of `input`.
///
/// At most `max_bytes` bytes are consumed; the decoded value must fit in
/// `max_bits` bits.  Returns the value and the number of bytes consumed, or
/// the exact failure: `Overflow` when the value does not fit the width or
/// continuation bytes alone exhaust it, `Unterminated` when the input ends
/// first.
pub fn decode_uleb128_u64(input: &[u8], max_bytes: usize, max_bits: u32) -> (r: Result<
    (u64, usize),
    Leb128Err,
>)
    ensures
        ({
            let s = input@;
            let mb = max_bytes as int;
            let nb = eff_bits(max_bits);
            &&& (r matches Ok(p) ==> {
                &&& uleb_ok_at(s, mb, nb, p.1 - 1)
                &&& 1 <= p.1 <= s.len()
                &&& p.1 <= mb
                &&& p.0 == uleb_value(s, p.1 as int)
            })
            &&& (r is Ok <==> exists|t: int| uleb_ok_at(s, mb, nb, t))
            &&& (r == Err::<(u64, usize), Leb128Err>(Leb128Err::Overflow) <==> uleb_overflow(
                s,
                mb,
                nb,
            ))
            &&& (r == Err::<(u64, usize), Leb128Err>(Leb128Err::Unterminated) <==> leb_unterminated(
                s,
                mb,
                nb,
            ))
        }),
{
    let ghost s = input@;
    let ghost mb = max_bytes as int;
    let nb: u32 = if max_bits > 64 {
        64
    } else {
        max_bits
    };
    proof {
        lemma2_to64();
        lemma2_to64_rest();
    }
    let mut k: usize = 0;
    let mut acc: u64 = 0;
    let mut lost: bool = false;
    let mut place: u64 = 1;
    loop
        invariant
            s == input@,
            mb == max_bytes as int,
            nb == eff_bits(max_bits),
            k <= max_bytes,
            k <= s.len(),
            reachable_byte(k as int, nb as int),
            forall|j: int| 0 <= j < k ==> continuation(s[j]),
            place == pow2((7 * k) as nat),
            !lost ==> acc == uleb_value(s, k as int),
            lost ==> uleb_value(s, k as int) >= pow2(64),
            pow2(64) == 0x10000000000000000,
        decreases max_bytes - k,
    {
        if k >= max_bytes || k >= input.len() {
            proof {
                // No terminator was seen, so no run can end in success or in
                // a value overflow; no continuation byte exhausted the width.
                let m = if mb < s.len() { mb } else { s.len() as int };
                assert(m == k as int);
                assert(leb_unterminated(s, mb, nb as int));
                assert forall|t: int| !uleb_ok_at(s, mb, nb as int, t) by {
                    if terminator_at(s, t) && t < mb {
                        assert(t >= m);
                        assert(t < s.len());
                        assert(continuation(s[t]));
                    }
                }
                assert forall|t: int| !(terminator_at(s, t) && t < mb && reachable_byte(t, nb as int)
                    && uleb_value(s, t + 1) >= pow2(nb as nat)) by {
                    if terminator_at(s, t) && t < mb {
                        assert(continuation(s[t]));
                    }
                }
                assert forall|q: int| !(0 <= q < mb && q < s.len() && reachable_byte(q, nb as int)
                    && 7 * (q + 1) >= nb as int && (forall|j: int| 0 <= j <= q ==> continuation(
                    s[j],
                ))) by {
                    if 0 <= q < mb && q < s.len() {
                        assert(q < k as int);
                        assert(7 * (q + 1) <= 7 * (k as int));
                        assert(k == 0 || 7 * (k as int) < nb as int);
                    }
                }
                assert(!uleb_overflow(s, mb, nb as int));
            }
            return Err(Leb128Err::Unterminated);
        }
        let b = input[k];
        proof {
            lemma_low7(b);
            lemma_uleb_value_monotonic(s, k as int, k as int + 1);
            lemma_pow2_pos((7 * k) as nat);
        }
        let low: u64 = (b & 0x7f) as u64;
        let mut new_acc = acc;
        let mut new_lost = lost;
        match low.checked_mul(place) {
            Some(c) => {
                match new_acc.checked_add(c) {
                    Some(a) => {
                        if !lost {
                            new_acc = a;
                        } else {
                            proof {
                                lemma_uleb_value_monotonic(s, k as int, k as int + 1);
                            }
                        }
                    },
                    None => {
                        new_lost = true;
                        proof {
                            if !lost {
                                assert(uleb_value(s, k as int + 1) == acc + low * place);
                            }
                        }
                    },
                }
            },
            None => {
                new_lost = true;
                proof {
                    if !lost {
                        assert(uleb_value(s, k as int + 1) == acc + low * place);
                        assert(low * place > u64::MAX);
                    }
                }
            },
        }
        proof {
            assert(!new_lost ==> new_acc == uleb_value(s, k as int + 1));
            assert(new_lost ==> uleb_value(s, k as int + 1) >= pow2(64));
        }
        if b & 0x80 == 0 {
            // `b` terminates the run.
            proof {
                assert(terminator_at(s, k as int));
            }
            let fits: bool = if new_lost {
                false
            } else if nb >= 64 {
                true
            } else {
                let bound = pow2_u64(nb);
                new_acc < bound
            };
            proof {
                if nb < 64 {
                    lemma_pow2_strictly_increases(nb as nat, 64);
                }
                assert(fits <==> uleb_value(s, k as int + 1) < pow2(nb as nat));
                assert forall|t: int| terminator_at(s, t) implies t == k as int by {
                    lemma_terminator_unique(s, t, k as int);
                }
                let m = if mb < s.len() { mb } else { s.len() as int };
                assert(!continuation(s[k as int]));
                assert(!leb_unterminated(s, mb, nb as int));
                assert forall|q: int| !(0 <= q < mb && q < s.len() && reachable_byte(q, nb as int)
                    && 7 * (q + 1) >= nb as int && (forall|j: int| 0 <= j <= q ==> continuation(
                    s[j],
                ))) by {
                    if 0 <= q < mb && q < s.len() && (forall|j: int|
                        0 <= j <= q ==> continuation(s[j])) {
                        assert(q < k as int);
                        assert(7 * (q + 1) <= 7 * (k as int));
                        assert(k == 0 || 7 * (k as int) < nb as int);
                    }
                }
            }
            if fits {
                return Ok((new_acc, k + 1));
            } else {
                proof {
                    assert(terminator_at(s, k as int) && (k as int) < mb && reachable_byte(
                        k as int,
                        nb as int,
                    ) && uleb_value(s, k as int + 1) >= pow2(nb as nat));
                    assert(uleb_overflow(s, mb, nb as int));
                }
                return Err(Leb128Err::Overflow);
            }
        }
        // `b` continues the run; stop if the next group cannot fit the width.
        if 7 * (k as u32 + 1) >= nb {
            proof {
                assert(0 <= (k as int) && (k as int) < mb && (k as int) < s.len() && reachable_byte(
                    k as int,
                    nb as int,
                ) && 7 * (k as int + 1) >= nb as int);
                assert(forall|j: int| 0 <= j <= k as int ==> continuation(s[j]));
                assert(uleb_overflow(s, mb, nb as int));
                // Any terminator lies beyond this byte, out of reach.
                assert forall|t: int| !uleb_ok_at(s, mb, nb as int, t) by {
                    if terminator_at(s, t) {
                        assert(t > k as int);
                        assert(7 * t >= 7 * (k as int + 1));
                    }
                }
                let m = if mb < s.len() { mb } else { s.len() as int };
                assert(m >= k as int + 1);
                assert(!leb_unterminated(s, mb, nb as int));
            }
            return Err(Leb128Err::Overflow);
        }
        proof {
            assert(7 * (k as int + 1) < nb as int && nb <= 64);
            assert(7 * (k as int + 1) <= 63);
            lemma_pow2_adds((7 * k) as nat, 7);
            lemma2_to64();
            if 7 * (k as int + 1) < 63 {
                lemma_pow2_strictly_increases((7 * (k + 1)) as nat, 63);
            }
            assert(pow2(63) == 0x8000000000000000) by {
                lemma2_to64_rest();
            }
        }
        place = place * 128;
        acc = new_acc;
        lost = new_lost;
        k = k + 1;
    }
}

/// The complemented accumulation only grows as more bytes are taken in.
proof fn lemma_uleb_cvalue_monotonic(s: Seq<u8>, n: int, m: int)
    requires
        n <= m <= s.len(),
    ensures
        uleb_cvalue(s, n) <= uleb_cvalue(s, m),
    decreases m,
{
    if m > n && m > 0 {
        lemma_uleb_cvalue_monotonic(s, n, m - 1);
        lemma_pow2_pos((7 * (m - 1)) as nat);
        lemma_low7(s[m - 1]);
        let p = pow2((7 * (m - 1)) as nat) as int;
        let clow = 0x7f - (s[m - 1] & 0x7f) as int;
        assert(clow * p >= 0) by (nonlinear_arith)
            requires
                clow >= 0 && p > 0,
        ;
    }
}

/// Decodes a signed LEB128 integer from the front of `input`.
///
/// At most `max_bytes` bytes are consumed; the sign-extended value must lie
/// in the signed `max_bits`-wide window.  Returns the value and the number
/// of bytes consumed, or the exact failure, as the unsigned decoder does.
pub fn decode_sleb128_i64(input: &[u8], max_bytes: usize, max_bits: u32) -> (r: Result<
    (i64, usize),
    Leb128Err,
>)
    ensures
        ({
            let s = input@;
            let mb = max_bytes as int;
            let nb = eff_bits(max_bits);
            &&& (r matches Ok(p) ==> {
                &&& sleb_ok_at(s, mb, nb, p.1 - 1)
                &&& 1 <= p.1 <= s.len()
                &&& p.1 <= mb
                &&& p.0 == sleb_value(s, p.1 as int)
            })
            &&& (r is Ok <==> exists|t: int| sleb_ok_at(s, mb, nb, t))
            &&& (r == Err::<(i64, usize), Leb128Err>(Leb128Err::Overflow) <==> sleb_overflow(
                s,
                mb,
                nb,
            ))
            &&& (r == Err::<(i64, usize), Leb128Err>(Leb128Err::Unterminated) <==> leb_unterminated(
                s,
                mb,
                nb,
            ))
        }),
{
    let ghost s = input@;
    let ghost mb = max_bytes as int;
    let nb: u32 = if max_bits > 64 {
        64
    } else {
        max_bits
    };
    proof {
        lemma2_to64();
        lemma2_to64_rest();
    }
    let mut k: usize = 0;
    let mut acc: u64 = 0;
    let mut cacc: u64 = 0;
    let mut lost: bool = false;
    let mut closs: bool = false;
    let mut place: u64 = 1;
    loop
        invariant
            s == input@,
            mb == max_bytes as int,
            nb == eff_bits(max_bits),
            k <= max_bytes,
            k <= s.len(),
            reachable_byte(k as int, nb as int),
            forall|j: int| 0 <= j < k ==> continuation(s[j]),
            place == pow2((7 * k) as nat),
            !lost ==> acc == uleb_value(s, k as int),
            lost ==> uleb_value(s, k as int) >= pow2(64),
            !closs ==> cacc == uleb_cvalue(s, k as int),
            closs ==> uleb_cvalue(s, k as int) >= pow2(64),
            pow2(64) == 0x10000000000000000,
        decreases max_bytes - k,
    {
        if k >= max_bytes || k >= input.len() {
            proof {
                let m = if mb < s.len() { mb } else { s.len() as int };
                assert(m == k as int);
                assert(leb_unterminated(s, mb, nb as int));
                assert forall|t: int| !sleb_ok_at(s, mb, nb as int, t) by {
                    if terminator_at(s, t) && t < mb {
                        assert(t >= m);
                        assert(t < s.len());
                        assert(continuation(s[t]));
                    }
                }
                assert forall|t: int| !(terminator_at(s, t) && t < mb && reachable_byte(t, nb as int)
                    && !in_signed_window(sleb_value(s, t + 1), nb as int)) by {
                    if terminator_at(s, t) && t < mb {
                        assert(continuation(s[t]));
                    }
                }
                assert forall|q: int| !(0 <= q < mb && q < s.len() && reachable_byte(q, nb as int)
                    && 7 * (q + 1) >= nb as int && (forall|j: int| 0 <= j <= q ==> continuation(
                    s[j],
                ))) by {
                    if 0 <= q < mb && q < s.len() {
                        assert(q < k as int);
                        assert(7 * (q + 1) <= 7 * (k as int));
                        assert(k == 0 || 7 * (k as int) < nb as int);
                    }
                }
                assert(!sleb_overflow(s, mb, nb as int));
            }
            return Err(Leb128Err::Unterminated);
        }
        let b = input[k];
        proof {
            lemma_low7(b);
            lemma_uleb_value_monotonic(s, k as int, k as int + 1);
            lemma_uleb_cvalue_monotonic(s, k as int, k as int + 1);
            lemma_pow2_pos((7 * k) as nat);
        }
        let low: u64 = (b & 0x7f) as u64;
        let clow: u64 = 0x7f - low;
        let mut new_acc = acc;
        let mut new_lost = lost;
        let mut new_cacc = cacc;
        let mut new_closs = closs;
        match low.checked_mul(place) {
            Some(c) => {
                match new_acc.checked_add(c) {
                    Some(a) => {
                        if !lost {
                            new_acc = a;
                        }
                    },
                    None => {
                        new_lost = true;
                    },
                }
            },
            None => {
                new_lost = true;
            },
        }
        match clow.checked_mul(place) {
            Some(c) => {
                match new_cacc.checked_add(c) {
                    Some(a) => {
                        if !closs {
                            new_cacc = a;
                        }
                    },
                    None => {
                        new_closs = true;
                    },
                }
            },
            None => {
                new_closs = true;
            },
        }
        proof {
            assert(!new_lost ==> new_acc == uleb_value(s, k as int + 1));
            assert(new_lost ==> uleb_value(s, k as int + 1) >= pow2(64));
            assert(!new_closs ==> new_cacc == uleb_cvalue(s, k as int + 1));
            assert(new_closs ==> uleb_cvalue(s, k as int + 1) >= pow2(64));
        }
        if b & 0x80 == 0 {
            // `b` terminates the run; decide the signed window over the
            // value and its complement.
            let ghost n = k as int + 1;
            let ghost v = sleb_value(s, n);
            proof {
                assert(terminator_at(s, k as int));
                lemma_uleb_value_bound(s, n);
                lemma2_to64();
                lemma_pow2_pos(nb as nat);
                if nb >= 1 {
                    lemma_pow2_adds((nb - 1) as nat, 1);
                    assert(pow2(nb as nat) == 2 * pow2((nb - 1) as nat));
                    lemma_pow2_strictly_increases((nb - 1) as nat, 64);
                }
                if nb < 64 {
                    lemma_pow2_strictly_increases(nb as nat, 64);
                }
            }
            let sign = b & 0x40 != 0;
            proof {
                if sign {
                    assert(v == uleb_value(s, n) - pow2((7 * n) as nat));
                    assert(v == -(uleb_cvalue(s, n) + 1));
                } else {
                    assert(v == uleb_value(s, n));
                }
            }
            let fits: bool = if nb == 0 {
                !sign && !new_lost && new_acc == 0
            } else if !sign {
                !new_lost && new_acc < pow2_u64(nb - 1)
            } else {
                !new_closs && new_cacc < pow2_u64(nb - 1)
            };
            proof {
                let uu = uleb_value(s, n);
                let cc = uleb_cvalue(s, n);
                assert(0 <= uu && 0 <= cc);
                if sign {
                    assert(v == -(cc + 1));
                    if nb == 0 {
                        assert(2 * v <= -2 && -pow2(0) == -1);
                        assert(!in_signed_window(v, nb as int));
                    } else {
                        assert(2 * v < 0 < pow2(nb as nat));
                        assert(in_signed_window(v, nb as int) <==> 2 * (cc + 1) <= pow2(
                            nb as nat,
                        ));
                        assert(in_signed_window(v, nb as int) <==> cc < pow2((nb - 1) as nat));
                        if new_closs {
                            assert(cc >= pow2(64) > pow2((nb - 1) as nat));
                        }
                    }
                } else {
                    assert(v == uu);
                    if nb == 0 {
                        assert(in_signed_window(v, nb as int) <==> uu == 0);
                    } else {
                        assert(in_signed_window(v, nb as int) <==> uu < pow2((nb - 1) as nat));
                        if new_lost {
                            assert(uu >= pow2(64) > pow2((nb - 1) as nat));
                        }
                    }
                }
                assert(fits <==> in_signed_window(v, nb as int));
                assert forall|t: int| terminator_at(s, t) implies t == k as int by {
                    lemma_terminator_unique(s, t, k as int);
                }
                assert(!continuation(s[k as int]));
                assert(!leb_unterminated(s, mb, nb as int));
                assert forall|q: int| !(0 <= q < mb && q < s.len() && reachable_byte(q, nb as int)
                    && 7 * (q + 1) >= nb as int && (forall|j: int| 0 <= j <= q ==> continuation(
                    s[j],
                ))) by {
                    if 0 <= q < mb && q < s.len() && (forall|j: int|
                        0 <= j <= q ==> continuation(s[j])) {
                        assert(q < k as int);
                        assert(7 * (q + 1) <= 7 * (k as int));
                        assert(k == 0 || 7 * (k as int) < nb as int);
                    }
                }
            }
            if fits {
                let value: i64 = if !sign {
                    proof {
                        assert(new_acc < 0x8000000000000000);
                    }
                    new_acc as i64
                } else {
                    proof {
                        assert(new_cacc < 0x8000000000000000);
                    }
                    -(new_cacc as i64) - 1
                };
                return Ok((value, k + 1));
            } else {
                proof {
                    assert(terminator_at(s, k as int) && (k as int) < mb && reachable_byte(
                        k as int,
                        nb as int,
                    ) && !in_signed_window(sleb_value(s, k as int + 1), nb as int));
                    assert(sleb_overflow(s, mb, nb as int));
                }
                return Err(Leb128Err::Overflow);
            }
        }
        // `b` continues the run; stop if the next group cannot fit the width.
        if 7 * (k as u32 + 1) >= nb {
            proof {
                assert(0 <= (k as int) && (k as int) < mb && (k as int) < s.len() && reachable_byte(
                    k as int,
                    nb as int,
                ) && 7 * (k as int + 1) >= nb as int);
                assert(forall|j: int| 0 <= j <= k as int ==> continuation(s[j]));
                assert(sleb_overflow(s, mb, nb as int));
                assert forall|t: int| !sleb_ok_at(s, mb, nb as int, t) by {
                    if terminator_at(s, t) {
                        assert(t > k as int);
                        assert(7 * t >= 7 * (k as int + 1));
                    }
                }
                let m = if mb < s.len() { mb } else { s.len() as int };
                assert(m >= k as int + 1);
                assert(!leb_unterminated(s, mb, nb as int));
            }
            return Err(Leb128Err::Overflow);
        }
        proof {
            assert(7 * (k as int + 1) < nb as int && nb <= 64);
            assert(7 * (k as int + 1) <= 63);
            lemma_pow2_adds((7 * k) as nat, 7);
            lemma2_to64();
            if 7 * (k as int + 1) < 63 {
                lemma_pow2_strictly_increases((7 * (k + 1)) as nat, 63);
            }
            assert(pow2(63) == 0x8000000000000000) by {
                lemma2_to64_rest();
            }
        }
        place = place * 128;
        acc = new_acc;
        lost = new_lost;
        cacc = new_cacc;
        closs = new_closs;
        k = k + 1;
    }
}

/// The canonical unsigned LEB128 encoding: seven bits per byte, least
/// significant group first, the continuation bit on every byte but the last.
pub open spec fn uleb_encode(v: nat) -> Seq<u8>
    decreases v,
{
    if v < 128 {
        seq![v as u8]
    } else {
        seq![((v % 128) + 128) as u8] + uleb_encode(v / 128)
    }
}

/// The canonical signed LEB128 encoding: seven bits per byte, ending with
/// the byte whose sign bit matches the value's sign.
pub open spec fn sleb_encode(v: int) -> Seq<u8>
    decreases (if v < 0 { -v } else { v }),
{
    if -64 <= v < 64 {
        seq![(v % 128) as u8]
    } else {
        seq![((v % 128) + 128) as u8] + sleb_encode(v / 128)
    }
}

/// Relates a byte's range to its continuation, sign, and low-bit fields.
proof fn lemma_byte_fields(b: u8)
    ensures
        b < 128 ==> b & 0x80 == 0,
        b >= 128 ==> b & 0x80 != 0,
        b < 128 ==> b & 0x7f == b,
        b >= 128 ==> b & 0x7f == b - 128,
        64 <= b < 128 ==> b & 0x40 != 0,
        b < 64 ==> b & 0x40 == 0,
{
    assert(b < 128 ==> b & 0x80 == 0) by (bit_vector);
    assert(b >= 128 ==> b & 0x80 != 0) by (bit_vector);
    assert(b < 128 ==> b & 0x7f == b) by (bit_vector);
    assert(b >= 128 ==> b & 0x7f == b - 128) by (bit_vector);
    assert(64 <= b < 128 ==> b & 0x40 != 0) by (bit_vector);
    assert(b < 64 ==> b & 0x40 == 0) by (bit_vector);
}

/// Unfolds the unsigned accumulation at the front byte instead of the back.
proof fn lemma_uleb_value_prepend(s: Seq<u8>, n: int)
    requires
        1 <= n <= s.len(),
    ensures
        uleb_value(s, n) == (s[0] & 0x7f) + 128 * uleb_value(s.subrange(1, s.len() as int), n - 1),
    decreases n,
{
    let rest = s.subrange(1, s.len() as int);
    if n == 1 {
        assert(pow2(0) == 1) by {
            lemma2_to64();
        }
        assert(uleb_value(s, 1) == uleb_value(s, 0) + (s[0] & 0x7f) * pow2(0));
        assert(uleb_value(rest, 0) == 0);
    } else {
        lemma_uleb_value_prepend(s, n - 1);
        let low = (s[n - 1] & 0x7f) as int;
        let p = pow2((7 * (n - 2)) as nat) as int;
        assert(rest[n - 2] == s[n - 1]);
        lemma_pow2_adds((7 * (n - 2)) as nat, 7);
        assert(pow2(7) == 128) by {
            lemma2_to64();
        }
        assert((7 * (n - 1)) as nat == (7 * (n - 2)) as nat + 7);
        assert(pow2((7 * (n - 1)) as nat) == 128 * p);
        assert(low * (128 * p) == 128 * (low * p)) by {
            lemma_mul_is_associative(low, 128, p);
            lemma_mul_is_associative(128, low, p);
        }
        assert(uleb_value(s, n) == uleb_value(s, n - 1) + low * (128 * p));
        assert(uleb_value(rest, n - 1) == uleb_value(rest, n - 2) + low * p);
        assert(uleb_value(s, n - 1) == (s[0] & 0x7f) + 128 * uleb_value(rest, n - 2));
        assert(uleb_value(s, n) == (s[0] & 0x7f) + 128 * uleb_value(rest, n - 2) + 128 * (low
            * p));
    }
}

/// Unfolds the signed value at the front byte instead of the back.
proof fn lemma_sleb_value_prepend(s: Seq<u8>, n: int)
    requires
        2 <= n <= s.len(),
    ensures
        sleb_value(s, n) == (s[0] & 0x7f) + 128 * sleb_value(s.subrange(1, s.len() as int), n - 1),
{
    let rest = s.subrange(1, s.len() as int);
    lemma_uleb_value_prepend(s, n);
    assert(rest[n - 2] == s[n - 1]);
    lemma_pow2_adds((7 * (n - 1)) as nat, 7);
    assert(pow2(7) == 128) by {
        lemma2_to64();
    }
    if s[n - 1] & 0x40 != 0 {
        let p = pow2((7 * (n - 1)) as nat) as int;
        let u = uleb_value(rest, n - 1);
        assert(128 * (u - p) == 128 * u - 128 * p) by (nonlinear_arith);
    }
}

/// The canonical unsigned encoding terminates exactly at its last byte and
/// accumulates back to the encoded value.
proof fn lemma_uleb_encode_decodes(v: nat)
    ensures
        1 <= uleb_encode(v).len(),
        terminator_at(uleb_encode(v), uleb_encode(v).len() - 1),
        uleb_value(uleb_encode(v), uleb_encode(v).len() as int) == v,
    decreases v,
{
    let e = uleb_encode(v);
    if v < 128 {
        lemma_byte_fields(v as u8);
        assert(pow2(0) == 1) by {
            lemma2_to64();
        }
        assert(uleb_value(e, 1) == uleb_value(e, 0) + (e[0] & 0x7f) * pow2(0));
        assert(e[0] == v as u8);
    } else {
        let b = ((v % 128) + 128) as u8;
        let rest = uleb_encode(v / 128);
        lemma_uleb_encode_decodes(v / 128);
        lemma_byte_fields(b);
        assert(e == seq![b] + rest);
        assert(e.subrange(1, e.len() as int) =~= rest);
        assert(forall|j: int| 1 <= j < e.len() - 1 ==> e[j] == rest[j - 1]);
        assert(terminator_at(e, e.len() - 1));
        lemma_uleb_value_prepend(e, e.len() as int);
        assert(e[0] == b);
        assert(b & 0x7f == b - 128);
        assert(uleb_value(e, e.len() as int) == (v % 128) + 128 * uleb_value(
            rest,
            rest.len() as int,
        ));
        lemma_fundamental_div_mod(v as int, 128);
    }
}

/// The canonical unsigned encoding of a value below `2^(7k)` takes at most
/// `k` bytes.
proof fn lemma_uleb_encode_len(v: nat, k: nat)
    requires
        1 <= k,
        v < pow2(7 * k),
    ensures
        uleb_encode(v).len() <= k,
    decreases v,
{
    if v >= 128 {
        assert(pow2(7) == 128) by {
            lemma2_to64();
        }
        if k == 1 {
            assert(false);
        } else {
            lemma_pow2_adds(7, 7 * (k - 1) as nat);
            let p = pow2((7 * (k - 1)) as nat) as int;
            lemma_fundamental_div_mod(v as int, 128);
            assert(v / 128 < p) by (nonlinear_arith)
                requires
                    v < 128 * p && v == 128 * (v as int / 128) + v as int % 128 && 0 <= v as int
                        % 128 < 128,
            ;
            lemma_uleb_encode_len(v / 128, (k - 1) as nat);
        }
    }
}

/// The canonical signed encoding terminates exactly at its last byte and
/// sign-extends back to the encoded value.
proof fn lemma_sleb_encode_decodes(v: int)
    ensures
        1 <= sleb_encode(v).len(),
        terminator_at(sleb_encode(v), sleb_encode(v).len() - 1),
        sleb_value(sleb_encode(v), sleb_encode(v).len() as int) == v,
    decreases (if v < 0 { -v } else { v }),
{
    let e = sleb_encode(v);
    assert(pow2(7) == 128) by {
        lemma2_to64();
    }
    if -64 <= v < 64 {
        let b = (v % 128) as u8;
        lemma_byte_fields(b);
        assert(pow2(0) == 1) by {
            lemma2_to64();
        }
        assert(uleb_value(e, 1) == uleb_value(e, 0) + (e[0] & 0x7f) * pow2(0));
        if v >= 0 {
            assert(v % 128 == v);
            assert(b < 64);
            assert(uleb_value(e, 1) == b);
        } else {
            assert(v % 128 == v + 128);
            assert(64 <= b < 128);
            assert(uleb_value(e, 1) == b);
            assert((7 * 1) as nat == 7);
            assert(sleb_value(e, 1) == uleb_value(e, 1) - 128);
        }
    } else {
        let b = ((v % 128) + 128) as u8;
        let rest = sleb_encode(v / 128);
        lemma_sleb_encode_decodes(v / 128);
        lemma_byte_fields(b);
        assert(e == seq![b] + rest);
        assert(e.subrange(1, e.len() as int) =~= rest);
        assert(forall|j: int| 1 <= j < e.len() - 1 ==> e[j] == rest[j - 1]);
        assert(terminator_at(e, e.len() - 1));
        lemma_sleb_value_prepend(e, e.len() as int);
        assert(e[0] == b);
        assert(b & 0x7f == b - 128);
        assert(sleb_value(e, e.len() as int) == (v % 128) + 128 * sleb_value(
            rest,
            rest.len() as int,
        ));
        lemma_fundamental_div_mod(v, 128);
    }
}

/// The canonical signed encoding of a value in the signed `7k`-bit window
/// takes at most `k` bytes.
proof fn lemma_sleb_encode_len(v: int, k: nat)
    requires
        1 <= k,
        in_signed_window(v, 7 * k as int),
    ensures
        sleb_encode(v).len() <= k,
    decreases (if v < 0 { -v } else { v }),
{
    if -64 <= v < 64 {
    } else {
        assert(pow2(7) == 128) by {
            lemma2_to64();
        }
        if k == 1 {
            assert(pow2(7) == 128);
            assert(false);
        } else {
            lemma_pow2_adds(7, (7 * (k - 1)) as nat);
            let p = pow2((7 * (k - 1)) as nat) as int;
            lemma_pow2_pos((7 * (k - 1)) as nat);
            lemma_pow2_adds(7, (7 * (k - 2)) as nat);
            let p2 = pow2((7 * (k - 2)) as nat) as int;
            lemma_pow2_pos((7 * (k - 2)) as nat);
            assert((7 * (k - 1)) as nat == 7 + (7 * (k - 2)) as nat);
            assert(p == 128 * p2);
            lemma_fundamental_div_mod(v, 128);
            let q = v / 128;
            let r = v % 128;
            assert(0 <= r < 128);
            assert(128 * q == v - r);
            // Lower bound: -(128 p) <= 2 v gives v >= -(64 p), so
            // 128 q >= -(64 p) - 127, and with 64 p == 128 * (64 p2)
            // the quotient satisfies q >= -(64 p2).
            assert(v >= -(64 * p));
            assert(64 * p == 128 * (64 * p2)) by {
                lemma_mul_is_associative(64, 128, p2);
                lemma_mul_is_associative(128, 64, p2);
            }
            assert(128 * q >= -(128 * (64 * p2)) - 127);
            assert(q >= -(64 * p2));
            // Upper bound: 2 v < 128 p gives v <= 64 p - 1, so q <= 64 p2 - 1.
            assert(v <= 64 * p - 1);
            assert(128 * q <= 128 * (64 * p2) - 1);
            assert(q <= 64 * p2 - 1);
            assert(2 * q >= -p && 2 * q < p);
            assert(in_signed_window(q, 7 * (k - 1) as int));
            lemma_sleb_encode_len(q, (k - 1) as nat);
        }
    }
}

/// Law: decoding the canonical unsigned LEB128 encoding of a value that
/// fits `nbits` bits yields that value back, consuming at most
/// one byte per seven bits of width.  Together with the decoder contract,
/// `decode_uleb128_u64` on `uleb_encode(v)` returns `Ok((v, len))`.
pub proof fn lemma_uleb128_round_trip(v: u64, nbits: u32)
    requires
        nbits == 32 || nbits == 64,
        (v as nat) < pow2(nbits as nat),
    ensures
        ({
            let e = uleb_encode(v as nat);
            let cap = ((nbits + 6) / 7) as int;
            &&& 1 <= e.len() <= cap
            &&& uleb_ok_at(e, cap, eff_bits(nbits), e.len() - 1)
            &&& uleb_value(e, e.len() as int) == v
        }),
{
    let e = uleb_encode(v as nat);
    lemma_uleb_encode_decodes(v as nat);
    if nbits == 32 {
        lemma_pow2_strictly_increases(32, 35);
        lemma_uleb_encode_len(v as nat, 5);
    } else {
        lemma_pow2_strictly_increases(64, 70);
        lemma_uleb_encode_len(v as nat, 10);
    }
}

/// Law: decoding the canonical signed LEB128 encoding of a value in the
/// signed `nbits`-bit window yields that value back, consuming at most one
/// byte per seven bits of width.  Together with the decoder contract,
/// `decode_sleb128_i64` on `sleb_encode(v)` returns `Ok((v, len))`.
pub proof fn lemma_sleb128_round_trip(v: i64, nbits: u32)
    requires
        nbits == 32 || nbits == 64,
        in_signed_window(v as int, nbits as int),
    ensures
        ({
            let e = sleb_encode(v as int);
            let cap = ((nbits + 6) / 7) as int;
            &&& 1 <= e.len() <= cap
            &&& sleb_ok_at(e, cap, eff_bits(nbits), e.len() - 1)
            &&& sleb_value(e, e.len() as int) == v
        }),
{
    let e = sleb_encode(v as int);
    lemma_sleb_encode_decodes(v as int);
    if nbits == 32 {
        lemma_pow2_strictly_increases(32, 35);
        lemma_sleb_encode_len(v as int, 5);
    } else {
        lemma_pow2_strictly_increases(64, 70);
        lemma_sleb_encode_len(v as int, 10);
    }
}

/// Law: an input whose first `ceil(nbits / 7)` bytes all carry the
/// continuation bit overflows the unsigned decoder: together with the
/// decoder contract, `decode_uleb128_u64` returns `Err(Overflow)` on it.
pub proof fn lemma_uleb128_too_many_bytes(s: Seq<u8>, max_bytes: int, nbits: int)
    requires
        1 <= nbits,
        (nbits + 6) / 7 <= max_bytes,
        (nbits + 6) / 7 <= s.len(),
        forall|j: int| 0 <= j < (nbits + 6) / 7 ==> continuation(s[j]),
    ensures
        uleb_overflow(s, max_bytes, nbits),
        sleb_overflow(s, max_bytes, nbits),
{
    let cap = (nbits + 6) / 7;
    lemma_fundamental_div_mod(nbits + 6, 7);
    let k = cap - 1;
    assert(0 <= k < max_bytes && k < s.len() && reachable_byte(k, nbits) && 7 * (k + 1) >= nbits
        && (forall|j: int| 0 <= j <= k ==> continuation(s[j])));
}


/// The unsigned accumulation reads only the first `n` bytes.
pub proof fn lemma_uleb_value_agree(s1: Seq<u8>, s2: Seq<u8>, n: int)
    requires
        0 <= n <= s1.len(),
        n <= s2.len(),
        forall|j: int| 0 <= j < n ==> s1[j] == s2[j],
    ensures
        uleb_value(s1, n) == uleb_value(s2, n),
    decreases n,
{
    if n > 0 {
        lemma_uleb_value_agree(s1, s2, n - 1);
    }
}

} // verus!
