//! The bus / number conversion layer.
//!
//! A [`Bus`] is an ordered, fixed-length sequence of signals, index 0 being
//! the least-significant bit. It converts bidirectionally to and from signed
//! and unsigned integers; a conversion fails — rather than silently
//! truncating — when the source value needs more bits than the bus holds,
//! or when the bus is wider than the destination integer type.
//!
//! The mathematical model is the pair [`bits_of`] / [`bus_val`] (and
//! [`bus_sval`] for two's-complement readings); the round-trip laws between
//! them are proved below.

use vstd::arithmetic::div_mod::{
    lemma_basic_div, lemma_breakdown, lemma_fundamental_div_mod,
    lemma_fundamental_div_mod_converse, lemma_hoist_over_denominator,
    lemma_mod_division_less_than_divisor, lemma_mod_multiples_vanish, lemma_small_mod,
};
use vstd::arithmetic::mul::{lemma_mul_is_associative, lemma_mul_is_commutative};
use vstd::arithmetic::power2::{
    lemma2_to64, lemma2_to64_rest, lemma_pow2_adds, lemma_pow2_pos, lemma_pow2_strictly_increases,
    lemma_pow2_unfold, pow2,
};
use vstd::bits::{
    low_bits_mask, lemma_u64_low_bits_mask_is_mod, lemma_u64_pow2_no_overflow,
    lemma_u64_shl_is_mul, lemma_u64_shr_is_div,
};
use vstd::layout::size_of;
use vstd::prelude::*;

verus! {

/// Bit `i` of the two's-complement representation of `v`, least-significant
/// bit first. For non-negative `v` this is the ordinary binary digit.
pub open spec fn bit_of(v: int, i: nat) -> bool {
    (v / pow2(i) as int) % 2 == 1
}

/// The low `n` bits of `v`, least-significant first.
pub open spec fn bits_of(v: int, n: nat) -> Seq<bool> {
    Seq::new(n, |i: int| bit_of(v, i as nat))
}

/// The unsigned value of a little-endian bit sequence.
pub open spec fn bus_val(s: Seq<bool>) -> nat
    decreases s.len(),
{
    if s.len() == 0 {
        0
    } else {
        bus_val(s.drop_last()) + if s.last() {
            pow2((s.len() - 1) as nat)
        } else {
            0
        }
    }
}

/// The two's-complement value of a little-endian bit sequence: the top bit
/// carries weight `-2^(n-1)` instead of `2^(n-1)`.
pub open spec fn bus_sval(s: Seq<bool>) -> int {
    bus_val(s) - if s.len() > 0 && s.last() {
        pow2(s.len()) as int
    } else {
        0
    }
}

/// Whether `v` is representable as an `n`-bit unsigned value.
pub open spec fn unsigned_fits(v: int, n: nat) -> bool {
    0 <= v < pow2(n)
}

/// Whether `v` is representable as an `n`-bit two's-complement value.
pub open spec fn signed_fits(v: int, n: nat) -> bool {
    if n == 0 {
        v == 0
    } else {
        -(pow2((n - 1) as nat) as int) <= v < pow2((n - 1) as nat)
    }
}

/// An `n`-bit bus holds values below `2^n`.
pub proof fn lemma_bus_val_bound(s: Seq<bool>)
    ensures
        bus_val(s) < pow2(s.len()),
    decreases s.len(),
{
    lemma_pow2_pos(s.len());
    if s.len() > 0 {
        lemma_bus_val_bound(s.drop_last());
        lemma_pow2_unfold(s.len());
    }
}

/// Appending a bit adds its weight at the old top position.
pub proof fn lemma_bus_val_push(s: Seq<bool>, b: bool)
    ensures
        bus_val(s.push(b)) == bus_val(s) + if b {
            pow2(s.len())
        } else {
            0
        },
{
    assert(s.push(b).drop_last() =~= s);
    assert(s.push(b).last() == b);
}

/// A bit position below `n` only depends on the value modulo `2^n`.
proof fn lemma_bit_of_mod(v: int, n: nat, i: nat)
    requires
        i < n,
    ensures
        bit_of(v, i) == bit_of(v % pow2(n) as int, i),
{
    let p = pow2(n) as int;
    let d = pow2(i) as int;
    let c = pow2((n - i) as nat) as int;
    lemma_pow2_pos(n);
    lemma_pow2_pos(i);
    lemma_pow2_pos((n - i) as nat);
    lemma_pow2_adds(i, (n - i) as nat);
    assert(d * c == p);
    let k = v / p;
    let r = v % p;
    lemma_fundamental_div_mod(v, p);
    assert(v == p * k + r);
    // v / d == r / d + c * k
    lemma_hoist_over_denominator(r, c * k, pow2(i));
    assert(r / d + c * k == (r + (c * k) * d) / d);
    lemma_mul_is_associative(c, k, d);
    lemma_mul_is_commutative(k, d);
    lemma_mul_is_associative(c, d, k);
    lemma_mul_is_commutative(c, d);
    lemma_mul_is_associative(d, c, k);
    assert((c * k) * d == p * k);
    assert(v / d == r / d + c * k);
    // c * k is even, so it vanishes modulo 2
    lemma_pow2_unfold((n - i) as nat);
    let h = pow2((n - i - 1) as nat) as int;
    assert(c == 2 * h);
    lemma_mul_is_associative(2, h, k);
    assert(c * k == 2 * (h * k));
    lemma_mod_multiples_vanish(h * k, r / d, 2);
    assert((2 * (h * k) + r / d) % 2 == (r / d) % 2);
    assert((v / d) % 2 == (r / d) % 2);
}

/// For non-negative `v`, reading back the low `n` bits yields `v mod 2^n`.
proof fn lemma_bus_val_of_bits_nonneg(v: int, n: nat)
    requires
        v >= 0,
    ensures
        bus_val(bits_of(v, n)) == v % pow2(n) as int,
    decreases n,
{
    lemma_pow2_pos(n);
    if n == 0 {
        lemma2_to64();
        assert(bits_of(v, 0) =~= Seq::<bool>::empty());
        assert(v % 1 == 0) by {
            lemma_mod_multiples_vanish(v, 0, 1);
        }
    } else {
        let m = (n - 1) as nat;
        lemma_pow2_pos(m);
        lemma_bus_val_of_bits_nonneg(v, m);
        assert(bits_of(v, n).drop_last() =~= bits_of(v, m));
        assert(bits_of(v, n).last() == bit_of(v, m));
        lemma_breakdown(v, pow2(m) as int, 2);
        lemma_pow2_unfold(n);
        lemma_mul_is_commutative(2, pow2(m) as int);
        assert(pow2(m) as int * 2 == pow2(n) as int);
        lemma_mod_division_less_than_divisor(v / pow2(m) as int, 2);
        assert(v % pow2(n) as int == pow2(m) as int * ((v / pow2(m) as int) % 2) + v % pow2(
            m,
        ) as int);
        assert(bus_val(bits_of(v, n)) == bus_val(bits_of(v, m)) + if bit_of(v, m) {
            pow2(m)
        } else {
            0nat
        });
        if bit_of(v, m) {
            assert((v / pow2(m) as int) % 2 == 1);
            assert(pow2(m) as int * 1 == pow2(m) as int);
        } else {
            assert((v / pow2(m) as int) % 2 == 0);
            assert(pow2(m) as int * 0 == 0);
        }
    }
}

/// Reading back the low `n` bits of any integer yields `v mod 2^n`.
pub proof fn lemma_bus_val_of_bits(v: int, n: nat)
    ensures
        bus_val(bits_of(v, n)) == v % pow2(n) as int,
{
    if v >= 0 {
        lemma_bus_val_of_bits_nonneg(v, n);
    } else {
        let p = pow2(n) as int;
        lemma_pow2_pos(n);
        let r = v % p;
        lemma_mod_division_less_than_divisor(v, p);
        assert(0 <= r < p);
        assert forall|i: int| 0 <= i < n implies bits_of(v, n)[i] == bits_of(r, n)[i] by {
            lemma_bit_of_mod(v, n, i as nat);
        }
        assert(bits_of(v, n) =~= bits_of(r, n));
        lemma_bus_val_of_bits_nonneg(r, n);
        lemma_small_mod(r as nat, pow2(n));
    }
}

/// Writing out the value of a bus reproduces the bus, bit for bit.
pub proof fn lemma_bus_int_round_trip(s: Seq<bool>)
    ensures
        bits_of(bus_val(s) as int, s.len()) == s,
    decreases s.len(),
{
    if s.len() == 0 {
        assert(bits_of(bus_val(s) as int, 0) =~= s);
    } else {
        let n = s.len();
        let m = (n - 1) as nat;
        let t = s.drop_last();
        let b = s.last();
        let v = bus_val(s) as int;
        let w = bus_val(t) as int;
        lemma_pow2_pos(m);
        lemma_bus_val_bound(t);
        lemma_bus_int_round_trip(t);
        assert(v == w + if b {
            pow2(m) as int
        } else {
            0
        });
        let q: int = if b {
            1
        } else {
            0
        };
        lemma_fundamental_div_mod_converse(v, pow2(m) as int, q, w);
        assert(v % pow2(m) as int == w);
        assert(v / pow2(m) as int == q);
        assert(q % 2 == q) by {
            lemma_small_mod(q as nat, 2);
        }
        assert forall|i: int| 0 <= i < n implies bits_of(v, n)[i] == s[i] by {
            if i < m {
                // bits below the top agree with the tail
                lemma_bit_of_mod(v, m, i as nat);
                assert(bit_of(v, i as nat) == bit_of(w, i as nat));
                assert(bits_of(w, m)[i] == t[i]);
                assert(t[i] == s[i]);
            } else {
                // the top bit reads back as the last element
                assert(i == m);
                assert(bit_of(v, m) == (q == 1));
                assert(bits_of(v, n)[i] == b);
            }
        }
        assert(bits_of(v, n) =~= s);
    }
}

/// Round trip for unsigned values: any `v` that fits in `n` bits is
/// reproduced exactly by writing it onto a bus and reading the bus back.
pub proof fn lemma_int_bus_round_trip(v: int, n: nat)
    requires
        unsigned_fits(v, n),
    ensures
        bus_val(bits_of(v, n)) == v,
{
    lemma_bus_val_of_bits(v, n);
    lemma_pow2_pos(n);
    lemma_small_mod(v as nat, pow2(n));
}

/// Round trip for signed values: any `v` that fits in `n` bits in
/// two's complement is reproduced exactly by the signed reading.
pub proof fn lemma_sint_bus_round_trip(v: int, n: nat)
    requires
        n > 0,
        signed_fits(v, n),
    ensures
        bus_sval(bits_of(v, n)) == v,
{
    let m = (n - 1) as nat;
    let p = pow2(n) as int;
    let h = pow2(m) as int;
    lemma_pow2_pos(n);
    lemma_pow2_pos(m);
    lemma_pow2_unfold(n);
    lemma_bus_val_of_bits(v, n);
    assert(bits_of(v, n).last() == bit_of(v, m));
    if v >= 0 {
        lemma_pow2_strictly_increases(m, n);
        lemma_small_mod(v as nat, pow2(n));
        assert(v % p == v);
        lemma_basic_div(v, h);
        assert(bit_of(v, m) == false);
    } else {
        lemma_fundamental_div_mod_converse(v, p, -1, v + p);
        assert(v % p == v + p);
        lemma_fundamental_div_mod_converse(v, h, -1, v + h);
        assert(v / h == -1);
        lemma_fundamental_div_mod_converse(-1, 2, -1, 1);
        assert(bit_of(v, m) == true);
    }
}

/// Writing out the signed value of a non-empty bus reproduces the bus.
pub proof fn lemma_bus_sint_round_trip(s: Seq<bool>)
    requires
        s.len() > 0,
    ensures
        bits_of(bus_sval(s), s.len()) == s,
{
    let n = s.len();
    let p = pow2(n) as int;
    let u = bus_val(s) as int;
    let v = bus_sval(s);
    lemma_pow2_pos(n);
    assert(v % p == u % p) by {
        if s.last() {
            assert(v == p * (-1) + u);
            lemma_mod_multiples_vanish(-1, u, p);
        }
    }
    lemma_bus_int_round_trip(s);
    assert forall|i: int| 0 <= i < n implies bits_of(v, n)[i] == bits_of(u, n)[i] by {
        lemma_bit_of_mod(v, n, i as nat);
        lemma_bit_of_mod(u, n, i as nat);
    }
    assert(bits_of(v, n) =~= bits_of(u, n));
}

/// The error returned when a value does not fit the requested width, or a
/// bus does not fit the destination integer type.
#[derive(Clone, Copy, Debug, PartialEq, Eq, Structural)]
pub struct WidthError;

/// A collection of parallel signals, least-significant bit first, that can
/// be read or written as an integer value. The width is fixed when the bit
/// vector is built and never changes.
#[derive(Clone, Debug)]
pub struct Bus {
    pub bits: Vec<bool>,
}

/// Whether a value of type `T` always fits into `n` bits, judged by the
/// size of the type.
pub fn fits_in_bits<T>(_value: T, n: usize) -> (r: bool)
    ensures
        r == (size_of::<T>() * 8 <= n),
{
    let s: usize = core::mem::size_of::<T>();
    proof {
        lemma_fundamental_div_mod(n as int, 8);
        lemma_mod_division_less_than_divisor(n as int, 8);
    }
    s <= n / 8
}

/// Whether `n` bits always fit into a value of type `T`, judged by the
/// size of the type.
pub fn fits_in_type<T>(n: usize, _value: T) -> (r: bool)
    ensures
        r == (n <= size_of::<T>() * 8),
{
    let s: usize = core::mem::size_of::<T>();
    proof {
        lemma_fundamental_div_mod(n as int, 8);
        lemma_mod_division_less_than_divisor(n as int, 8);
    }
    n / 8 < s || (n / 8 == s && n % 8 == 0)
}

/// Reads one binary digit of `u`.
fn bit_at(u: u64, i: u64) -> (r: bool)
    requires
        i < 64,
    ensures
        r == bit_of(u as int, i as nat),
{
    proof {
        lemma_u64_shr_is_div(u, i);
        lemma_u64_low_bits_mask_is_mod(u >> i, 1);
        lemma2_to64();
        assert(low_bits_mask(1) == 1);
        assert((u >> i) % 2 == ((u as int / pow2(i as nat) as int) % 2));
    }
    (u >> i) & 1 == 1
}

/// Writes the low `width` bits of `v`, least-significant first.
pub(crate) fn bits_from_u64(v: u64, width: usize) -> (r: Vec<bool>)
    ensures
        r@ == bits_of(v as int, width as nat),
{
    let mut out: Vec<bool> = Vec::new();
    assert(out@ =~= bits_of(v as int, 0));
    for i in 0..width
        invariant
            out@ == bits_of(v as int, i as nat),
    {
        let b: bool = if i < 64 {
            bit_at(v, i as u64)
        } else {
            proof {
                lemma2_to64();
                if i > 64 {
                    lemma_pow2_strictly_increases(64, i as nat);
                }
                lemma_basic_div(v as int, pow2(i as nat) as int);
            }
            false
        };
        out.push(b);
        assert(out@ =~= bits_of(v as int, (i + 1) as nat));
    }
    out
}

/// Writes the low `width` bits of the two's-complement form of `v`,
/// least-significant first; bits beyond the 64th repeat the sign.
fn bits_from_i64(v: i64, width: usize) -> (r: Vec<bool>)
    ensures
        r@ == bits_of(v as int, width as nat),
{
    let u: u64 = if v >= 0 {
        v as u64
    } else {
        u64::MAX - ((-(v + 1)) as u64)
    };
    proof {
        lemma2_to64();
        lemma2_to64_rest();
        if v < 0 {
            assert(u as int == v as int + pow2(64) as int);
        }
    }
    let mut out: Vec<bool> = Vec::new();
    assert(out@ =~= bits_of(v as int, 0));
    for i in 0..width
        invariant
            out@ == bits_of(v as int, i as nat),
            u as int == v as int + if v < 0 {
                pow2(64) as int
            } else {
                0
            },
    {
        let b: bool = if i < 64 {
            proof {
                lemma2_to64();
                lemma2_to64_rest();
                if v < 0 {
                    lemma_bit_of_mod(v as int, 64, i as nat);
                    lemma_fundamental_div_mod_converse(v as int, pow2(64) as int, -1, u as int);
                    assert(v as int % pow2(64) as int == u as int);
                }
            }
            bit_at(u, i as u64)
        } else {
            proof {
                lemma2_to64();
                lemma2_to64_rest();
                if i > 64 {
                    lemma_pow2_strictly_increases(64, i as nat);
                }
                let d = pow2(i as nat) as int;
                if v >= 0 {
                    lemma_pow2_strictly_increases(63, i as nat);
                    lemma_basic_div(v as int, d);
                } else {
                    lemma_pow2_strictly_increases(63, i as nat);
                    lemma_fundamental_div_mod_converse(v as int, d, -1, v as int + d);
                    lemma_fundamental_div_mod_converse(-1, 2, -1, 1);
                }
            }
            v < 0
        };
        out.push(b);
        assert(out@ =~= bits_of(v as int, (i + 1) as nat));
    }
    out
}

/// Reads a bit sequence of at most 64 bits as an unsigned value.
pub(crate) fn u64_from_bits(bits: &[bool]) -> (r: u64)
    requires
        bits@.len() <= 64,
    ensures
        r as nat == bus_val(bits@),
{
    let mut val: u64 = 0;
    assert(bits@.take(0) =~= Seq::<bool>::empty());
    for i in 0..bits.len()
        invariant
            bits@.len() <= 64,
            val as nat == bus_val(bits@.take(i as int)),
    {
        proof {
            lemma_bus_val_bound(bits@.take(i as int));
            lemma_u64_pow2_no_overflow(i as nat);
            lemma_u64_shl_is_mul(1, i as u64);
            lemma_pow2_unfold((i + 1) as nat);
            if i + 1 < 64 {
                lemma_pow2_strictly_increases((i + 1) as nat, 64);
            }
            lemma2_to64();
            lemma_bus_val_push(bits@.take(i as int), bits@[i as int]);
            assert(bits@.take(i + 1) =~= bits@.take(i as int).push(bits@[i as int]));
        }
        if bits[i] {
            val = val + (1u64 << (i as u64));
        }
    }
    proof {
        assert(bits@.take(bits@.len() as int) =~= bits@);
    }
    val
}

/// Reads a non-empty bit sequence of fewer than 64 bits as a signed,
/// two's-complement value.
fn i64_from_bits(bits: &[bool]) -> (r: i64)
    requires
        bits@.len() < 64,
    ensures
        r as int == bus_sval(bits@),
{
    let n: usize = bits.len();
    let u: u64 = u64_from_bits(bits);
    proof {
        lemma_bus_val_bound(bits@);
        lemma_u64_pow2_no_overflow(n as nat);
        lemma_u64_shl_is_mul(1, n as u64);
    }
    if n > 0 && bits[n - 1] {
        proof {
            assert(bits@.drop_last().len() == n - 1);
            lemma_bus_val_bound(bits@.drop_last());
            lemma_pow2_unfold(n as nat);
            assert(bus_val(bits@) >= pow2((n - 1) as nat));
        }
        let p: u64 = 1u64 << (n as u64);
        let diff: u64 = p - u;
        -(diff as i64)
    } else {
        proof {
            if n > 0 {
                lemma_bus_val_bound(bits@.drop_last());
            }
            lemma2_to64();
            lemma2_to64_rest();
            if n > 0 && n - 1 < 63 {
                lemma_pow2_strictly_increases((n - 1) as nat, 63);
            }
        }
        u as i64
    }
}

impl Bus {
    /// The number of signals on the bus.
    pub fn width(&self) -> (r: usize)
        ensures
            r == self.bits@.len(),
    {
        self.bits.len()
    }

    /// Builds a `width`-bit bus holding `value`; fails if the value needs
    /// more than `width` bits.
    pub fn from_u8(value: u8, width: usize) -> (r: Result<Bus, WidthError>)
        ensures
            r is Ok <==> unsigned_fits(value as int, width as nat),
            r matches Ok(b) ==> b.bits@ == bits_of(value as int, width as nat),
    {
        if fits_unsigned(value as u64, width) {
            Ok(Bus { bits: bits_from_u64(value as u64, width) })
        } else {
            Err(WidthError)
        }
    }

    /// Builds a `width`-bit bus holding `value`; fails if the value needs
    /// more than `width` bits.
    pub fn from_u16(value: u16, width: usize) -> (r: Result<Bus, WidthError>)
        ensures
            r is Ok <==> unsigned_fits(value as int, width as nat),
            r matches Ok(b) ==> b.bits@ == bits_of(value as int, width as nat),
    {
        if fits_unsigned(value as u64, width) {
            Ok(Bus { bits: bits_from_u64(value as u64, width) })
        } else {
            Err(WidthError)
        }
    }

    /// Builds a `width`-bit bus holding `value`; fails if the value needs
    /// more than `width` bits.
    pub fn from_u32(value: u32, width: usize) -> (r: Result<Bus, WidthError>)
        ensures
            r is Ok <==> unsigned_fits(value as int, width as nat),
            r matches Ok(b) ==> b.bits@ == bits_of(value as int, width as nat),
    {
        if fits_unsigned(value as u64, width) {
            Ok(Bus { bits: bits_from_u64(value as u64, width) })
        } else {
            Err(WidthError)
        }
    }

    /// Builds a `width`-bit bus holding `value` in two's complement; fails
    /// if the value needs more than `width` bits.
    pub fn from_i8(value: i8, width: usize) -> (r: Result<Bus, WidthError>)
        ensures
            r is Ok <==> signed_fits(value as int, width as nat),
            r matches Ok(b) ==> b.bits@ == bits_of(value as int, width as nat),
    {
        if fits_signed(value as i64, width) {
            Ok(Bus { bits: bits_from_i64(value as i64, width) })
        } else {
            Err(WidthError)
        }
    }

    /// Builds a `width`-bit bus holding `value` in two's complement; fails
    /// if the value needs more than `width` bits.
    pub fn from_i16(value: i16, width: usize) -> (r: Result<Bus, WidthError>)
        ensures
            r is Ok <==> signed_fits(value as int, width as nat),
            r matches Ok(b) ==> b.bits@ == bits_of(value as int, width as nat),
    {
        if fits_signed(value as i64, width) {
            Ok(Bus { bits: bits_from_i64(value as i64, width) })
        } else {
            Err(WidthError)
        }
    }

    /// Builds a `width`-bit bus holding `value` in two's complement; fails
    /// if the value needs more than `width` bits.
    pub fn from_i32(value: i32, width: usize) -> (r: Result<Bus, WidthError>)
        ensures
            r is Ok <==> signed_fits(value as int, width as nat),
            r matches Ok(b) ==> b.bits@ == bits_of(value as int, width as nat),
    {
        if fits_signed(value as i64, width) {
            Ok(Bus { bits: bits_from_i64(value as i64, width) })
        } else {
            Err(WidthError)
        }
    }

    /// Reads the bus as an unsigned value; fails if the bus is wider than
    /// the destination type.
    pub fn to_u8(&self) -> (r: Result<u8, WidthError>)
        ensures
            r is Ok <==> self.bits@.len() <= 8,
            r matches Ok(v) ==> v as nat == bus_val(self.bits@),
    {
        proof {
            broadcast use vstd::layout::layout_of_primitives;

        }
        if fits_in_type(self.bits.len(), 0u8) {
            let val: u64 = u64_from_bits(self.bits.as_slice());
            proof {
                lemma_bus_val_bound(self.bits@);
                lemma2_to64();
                if self.bits@.len() < 8 {
                    lemma_pow2_strictly_increases(self.bits@.len(), 8);
                }
            }
            Ok(val as u8)
        } else {
            Err(WidthError)
        }
    }

    /// Reads the bus as an unsigned value; fails if the bus is wider than
    /// the destination type.
    pub fn to_u16(&self) -> (r: Result<u16, WidthError>)
        ensures
            r is Ok <==> self.bits@.len() <= 16,
            r matches Ok(v) ==> v as nat == bus_val(self.bits@),
    {
        proof {
            broadcast use vstd::layout::layout_of_primitives;

        }
        if fits_in_type(self.bits.len(), 0u16) {
            let val: u64 = u64_from_bits(self.bits.as_slice());
            proof {
                lemma_bus_val_bound(self.bits@);
                lemma2_to64();
                if self.bits@.len() < 16 {
                    lemma_pow2_strictly_increases(self.bits@.len(), 16);
                }
            }
            Ok(val as u16)
        } else {
            Err(WidthError)
        }
    }

    /// Reads the bus as an unsigned value; fails if the bus is wider than
    /// the destination type.
    pub fn to_u32(&self) -> (r: Result<u32, WidthError>)
        ensures
            r is Ok <==> self.bits@.len() <= 32,
            r matches Ok(v) ==> v as nat == bus_val(self.bits@),
    {
        proof {
            broadcast use vstd::layout::layout_of_primitives;

        }
        if fits_in_type(self.bits.len(), 0u32) {
            let val: u64 = u64_from_bits(self.bits.as_slice());
            proof {
                lemma_bus_val_bound(self.bits@);
                lemma2_to64();
                if self.bits@.len() < 32 {
                    lemma_pow2_strictly_increases(self.bits@.len(), 32);
                }
            }
            Ok(val as u32)
        } else {
            Err(WidthError)
        }
    }

    /// Reads the bus as a signed, two's-complement value; fails if the bus
    /// is wider than the destination type.
    pub fn to_i8(&self) -> (r: Result<i8, WidthError>)
        ensures
            r is Ok <==> self.bits@.len() <= 8,
            r matches Ok(v) ==> v as int == bus_sval(self.bits@),
    {
        proof {
            broadcast use vstd::layout::layout_of_primitives;

        }
        if fits_in_type(self.bits.len(), 0i8) {
            let val: i64 = i64_from_bits(self.bits.as_slice());
            proof {
                lemma_sval_in_type_range(self.bits@, 8);
                lemma2_to64();
            }
            Ok(val as i8)
        } else {
            Err(WidthError)
        }
    }

    /// Reads the bus as a signed, two's-complement value; fails if the bus
    /// is wider than the destination type.
    pub fn to_i16(&self) -> (r: Result<i16, WidthError>)
        ensures
            r is Ok <==> self.bits@.len() <= 16,
            r matches Ok(v) ==> v as int == bus_sval(self.bits@),
    {
        proof {
            broadcast use vstd::layout::layout_of_primitives;

        }
        if fits_in_type(self.bits.len(), 0i16) {
            let val: i64 = i64_from_bits(self.bits.as_slice());
            proof {
                lemma_sval_in_type_range(self.bits@, 16);
                lemma2_to64();
            }
            Ok(val as i16)
        } else {
            Err(WidthError)
        }
    }

    /// Reads the bus as a signed, two's-complement value; fails if the bus
    /// is wider than the destination type.
    pub fn to_i32(&self) -> (r: Result<i32, WidthError>)
        ensures
            r is Ok <==> self.bits@.len() <= 32,
            r matches Ok(v) ==> v as int == bus_sval(self.bits@),
    {
        proof {
            broadcast use vstd::layout::layout_of_primitives;

        }
        if fits_in_type(self.bits.len(), 0i32) {
            let val: i64 = i64_from_bits(self.bits.as_slice());
            proof {
                lemma_sval_in_type_range(self.bits@, 32);
                lemma2_to64();
            }
            Ok(val as i32)
        } else {
            Err(WidthError)
        }
    }
}

/// The signed reading of an `n`-bit bus lies in the `n`-bit range.
proof fn lemma_sval_in_type_range(s: Seq<bool>, n: nat)
    requires
        s.len() <= n,
        0 < n <= 63,
    ensures
        -(pow2((n - 1) as nat) as int) <= bus_sval(s) < pow2((n - 1) as nat),
{
    lemma2_to64();
    lemma2_to64_rest();
    if s.len() == 0 {
        lemma_pow2_pos((n - 1) as nat);
    } else {
        let m = (s.len() - 1) as nat;
        lemma_bus_val_bound(s.drop_last());
        lemma_bus_val_bound(s);
        lemma_pow2_unfold(s.len());
        if m < n - 1 {
            lemma_pow2_strictly_increases(m, (n - 1) as nat);
        }
    }
}

/// Whether `v` fits in `width` bits as an unsigned value.
fn fits_unsigned(v: u64, width: usize) -> (r: bool)
    ensures
        r == unsigned_fits(v as int, width as nat),
{
    if width >= 64 {
        proof {
            lemma2_to64();
            if width > 64 {
                lemma_pow2_strictly_increases(64, width as nat);
            }
        }
        true
    } else {
        proof {
            lemma_u64_pow2_no_overflow(width as nat);
            lemma_u64_shl_is_mul(1, width as u64);
        }
        v < (1u64 << (width as u64))
    }
}

/// Whether `v` fits in `width` bits as a two's-complement value.
fn fits_signed(v: i64, width: usize) -> (r: bool)
    ensures
        r == signed_fits(v as int, width as nat),
{
    if width == 0 {
        v == 0
    } else if width >= 64 {
        proof {
            lemma2_to64();
            lemma2_to64_rest();
            if width - 1 > 63 {
                lemma_pow2_strictly_increases(63, (width - 1) as nat);
            }
        }
        true
    } else {
        let bound: u64 = 1u64 << ((width - 1) as u64);
        proof {
            lemma_u64_pow2_no_overflow((width - 1) as nat);
            lemma_u64_shl_is_mul(1, (width - 1) as u64);
            lemma2_to64();
            lemma2_to64_rest();
            if width - 1 < 63 {
                lemma_pow2_strictly_increases((width - 1) as nat, 63);
            }
        }
        let bi: i64 = bound as i64;
        -bi <= v && v < bi
    }
}

/// The low 8 bits of `v`, least-significant first.
pub fn u8_to_bus(v: u8) -> (r: Vec<bool>)
    ensures
        r@ == bits_of(v as int, 8),
        r@.len() == 8,
{
    bits_from_u64(v as u64, 8)
}

/// The low 16 bits of `v`, least-significant first.
pub fn u16_to_bus(v: u16) -> (r: Vec<bool>)
    ensures
        r@ == bits_of(v as int, 16),
        r@.len() == 16,
{
    bits_from_u64(v as u64, 16)
}

/// The low 32 bits of `v`, least-significant first.
pub fn u32_to_bus(v: u32) -> (r: Vec<bool>)
    ensures
        r@ == bits_of(v as int, 32),
        r@.len() == 32,
{
    bits_from_u64(v as u64, 32)
}

} // verus!
