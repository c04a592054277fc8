//! Fixed-width integers held as a sequence of bits, most significant first.

use vstd::arithmetic::power2::{lemma_pow2_pos, lemma_pow2_unfold, pow2};
use vstd::prelude::*;

verus! {

/// The widest operand that can be encoded.
pub const MAX_WIDTH: usize = 128;

/// What the leading bit of a number contributes before any doubling: in a
/// two's-complement number a set sign bit counts negative.
pub open spec fn lead_value(bit: bool, signed: bool) -> int {
    if !bit {
        0
    } else if signed {
        -1
    } else {
        1
    }
}

/// The number written by the `count` bits of `bits` that begin at `start`,
/// most significant first; with `signed`, read as two's complement.
pub open spec fn prefix_value(bits: Seq<bool>, start: int, count: nat, signed: bool) -> int
    decreases count,
{
    if count == 0 {
        0
    } else if count == 1 {
        lead_value(bits[start], signed)
    } else {
        2 * prefix_value(bits, start, (count - 1) as nat, signed) + (if bits[start + count - 1] {
            1int
        } else {
            0int
        })
    }
}

/// `m` halved `k` times, rounding down.
pub open spec fn halved(m: nat, k: nat) -> nat
    decreases k,
{
    if k == 0 {
        m
    } else {
        halved(m, (k - 1) as nat) / 2
    }
}

/// The integer that a sign flag and a magnitude stand for: `m`, or `-m - 1`.
pub open spec fn signed_of(m: nat, negative: bool) -> int {
    if negative {
        -(m as int) - 1
    } else {
        m as int
    }
}

proof fn lemma_halved_bound(m: nat, k: nat)
    ensures
        halved(m, k) * pow2(k) <= m,
    decreases k,
{
    if k == 0 {
        assert(pow2(0) == 1) by {
            vstd::arithmetic::power2::lemma2_to64();
        };
    } else {
        lemma_halved_bound(m, (k - 1) as nat);
        lemma_pow2_unfold(k);
        let h = halved(m, (k - 1) as nat);
        let p = pow2((k - 1) as nat);
        assert((h / 2) * (2 * p) <= h * p) by (nonlinear_arith)
            requires
                h >= 0,
                p >= 0,
        ;
    }
}

proof fn lemma_halved_zero(m: nat, k: nat)
    requires
        m < pow2(k),
    ensures
        halved(m, k) == 0,
{
    lemma_halved_bound(m, k);
    lemma_pow2_pos(k);
    let h = halved(m, k);
    let p = pow2(k);
    assert(h == 0) by (nonlinear_arith)
        requires
            h * p <= m,
            m < p,
            h >= 0,
            p > 0,
    ;
}

/// Bits read off a magnitude from the low end spell the number it stands for.
proof fn lemma_prefix_of_halved(
    bits: Seq<bool>,
    m: nat,
    negative: bool,
    signed: bool,
    width: nat,
    count: nat,
)
    requires
        1 <= count <= width,
        bits.len() == width,
        negative ==> signed,
        m < pow2(if signed { (width - 1) as nat } else { width }),
        forall|j: int|
            0 <= j < width ==> bits[width - 1 - j] == ((#[trigger] halved(m, j as nat) % 2 == 1) != negative),
    ensures
        prefix_value(bits, 0, count, signed) == signed_of(
            halved(m, (width - count) as nat),
            negative,
        ),
    decreases count,
{
    if count == 1 {
        let top = halved(m, (width - 1) as nat);
        assert(bits[0] == ((top % 2 == 1) != negative));
        if signed {
            lemma_halved_zero(m, (width - 1) as nat);
        } else {
            lemma_halved_zero(m, width);
            assert(halved(m, width) == top / 2);
        }
    } else {
        lemma_prefix_of_halved(bits, m, negative, signed, width, (count - 1) as nat);
        let lower = halved(m, (width - count) as nat);
        assert(halved(m, (width - count + 1) as nat) == lower / 2);
        assert(bits[width - 1 - (width - count)] == ((lower % 2 == 1) != negative));
    }
}

/// Writes `width` bits, most significant first, for the number that
/// `magnitude` and `negative` stand for.
fn bits_of(magnitude: u128, negative: bool, signed: bool, width: usize) -> (bits: Vec<bool>)
    requires
        1 <= width <= MAX_WIDTH,
        negative ==> signed,
        magnitude < pow2(if signed { (width - 1) as nat } else { width as nat }),
    ensures
        bits@.len() == width,
        prefix_value(bits@, 0, width as nat, signed) == signed_of(magnitude as nat, negative),
{
    let mut bits: Vec<bool> = Vec::new();
    let mut i: usize = 0;
    while i < width
        invariant
            i <= width,
            bits@.len() == i,
        decreases width - i,
    {
        bits.push(false);
        i = i + 1;
    }
    let mut rest: u128 = magnitude;
    let mut k: usize = 0;
    while k < width
        invariant
            k <= width,
            bits@.len() == width,
            rest == halved(magnitude as nat, k as nat),
            forall|j: int|
                0 <= j < k ==> bits@[width - 1 - j] == ((#[trigger] halved(magnitude as nat, j as nat) % 2
                    == 1) != negative),
        decreases width - k,
    {
        let odd: bool = rest % 2 == 1;
        bits.set(width - 1 - k, odd != negative);
        rest = rest / 2;
        k = k + 1;
    }
    proof {
        lemma_prefix_of_halved(bits@, magnitude as nat, negative, signed, width as nat, width as nat);
    }
    bits
}

/// An unsigned integer of `N` bits, each bit one wire of a comparison.
#[derive(Debug)]
pub struct GarbledUint<const N: usize> {
    bits: Vec<bool>,
}

/// A two's-complement integer of `N` bits, each bit one wire of a comparison.
#[derive(Debug)]
pub struct GarbledInt<const N: usize> {
    bits: Vec<bool>,
}

impl<const N: usize> View for GarbledUint<N> {
    type V = Seq<bool>;

    closed spec fn view(&self) -> Seq<bool> {
        self.bits@
    }
}

impl<const N: usize> View for GarbledInt<N> {
    type V = Seq<bool>;

    closed spec fn view(&self) -> Seq<bool> {
        self.bits@
    }
}

impl<const N: usize> GarbledUint<N> {
    #[verifier::type_invariant]
    closed spec fn inv(&self) -> bool {
        1 <= N <= MAX_WIDTH && self.bits@.len() == N
    }

    /// The number that the bits spell.
    pub open spec fn value(&self) -> int {
        prefix_value(self@, 0, N as nat, false)
    }

    /// Takes the bits as they are. `None` when the width is zero or above
    /// `MAX_WIDTH`, or when `bits` does not hold exactly `N` of them.
    pub fn new(bits: Vec<bool>) -> (r: Option<Self>)
        ensures
            r is Some <==> (1 <= N <= MAX_WIDTH && bits@.len() == N),
            r is Some ==> r->0@ == bits@,
    {
        if N == 0 || N > MAX_WIDTH || bits.len() != N {
            None
        } else {
            Some(GarbledUint { bits })
        }
    }

    /// Encodes `value` in `N` bits. `None` when the width is zero or above
    /// `MAX_WIDTH`, or when `value` needs more than `N` bits.
    pub fn encode(value: u128) -> (r: Option<Self>)
        ensures
            r is Some <==> (1 <= N <= MAX_WIDTH && value < pow2(N as nat)),
            r is Some ==> r->0.value() == value && r->0@.len() == N,
    {
        if N == 0 || N > MAX_WIDTH {
            return None;
        }
        if N < 128 {
            let limit: u128 = two_to(N);
            if value >= limit {
                return None;
            }
        } else {
            proof {
                lemma_pow2_128();
            }
        }
        Some(GarbledUint { bits: bits_of(value, false, false, N) })
    }

    /// The bits, most significant first.
    pub fn bits(&self) -> (bits: &Vec<bool>)
        ensures
            bits@ == self@,
            bits@.len() == N,
            1 <= N <= MAX_WIDTH,
    {
        proof {
            use_type_invariant(self);
        }
        &self.bits
    }

    /// The number of bits.
    pub fn width(&self) -> (n: usize)
        ensures
            n == N,
            n == self@.len(),
            1 <= n <= MAX_WIDTH,
    {
        proof {
            use_type_invariant(self);
        }
        N
    }

    /// The bit at position `i`, counted from the most significant.
    pub fn bit_at(&self, i: usize) -> (bit: bool)
        requires
            i < N,
        ensures
            bit == self@[i as int],
    {
        proof {
            use_type_invariant(self);
        }
        self.bits[i]
    }
}

impl<const N: usize> GarbledInt<N> {
    #[verifier::type_invariant]
    closed spec fn inv(&self) -> bool {
        1 <= N <= MAX_WIDTH && self.bits@.len() == N
    }

    /// The number that the bits spell in two's complement.
    pub open spec fn value(&self) -> int {
        prefix_value(self@, 0, N as nat, true)
    }

    /// Takes the bits as they are. `None` when the width is zero or above
    /// `MAX_WIDTH`, or when `bits` does not hold exactly `N` of them.
    pub fn new(bits: Vec<bool>) -> (r: Option<Self>)
        ensures
            r is Some <==> (1 <= N <= MAX_WIDTH && bits@.len() == N),
            r is Some ==> r->0@ == bits@,
    {
        if N == 0 || N > MAX_WIDTH || bits.len() != N {
            None
        } else {
            Some(GarbledInt { bits })
        }
    }

    /// Encodes `value` in `N` bits of two's complement. `None` when the width
    /// is zero or above `MAX_WIDTH`, or when `value` is out of range for it.
    pub fn encode(value: i128) -> (r: Option<Self>)
        ensures
            r is Some <==> (1 <= N <= MAX_WIDTH && -pow2((N - 1) as nat) <= value < pow2(
                (N - 1) as nat,
            )),
            r is Some ==> r->0.value() == value && r->0@.len() == N,
    {
        if N == 0 || N > MAX_WIDTH {
            return None;
        }
        let negative: bool = value < 0;
        let magnitude: u128 = magnitude_of(value);
        let limit: u128 = two_to(N - 1);
        if magnitude >= limit {
            return None;
        }
        Some(GarbledInt { bits: bits_of(magnitude, negative, true, N) })
    }

    /// The bits, most significant first.
    pub fn bits(&self) -> (bits: &Vec<bool>)
        ensures
            bits@ == self@,
            bits@.len() == N,
            1 <= N <= MAX_WIDTH,
    {
        proof {
            use_type_invariant(self);
        }
        &self.bits
    }

    /// The number of bits.
    pub fn width(&self) -> (n: usize)
        ensures
            n == N,
            n == self@.len(),
            1 <= n <= MAX_WIDTH,
    {
        proof {
            use_type_invariant(self);
        }
        N
    }

    /// The bit at position `i`, counted from the most significant (the sign).
    pub fn bit_at(&self, i: usize) -> (bit: bool)
        requires
            i < N,
        ensures
            bit == self@[i as int],
    {
        proof {
            use_type_invariant(self);
        }
        self.bits[i]
    }
}

/// Two to the power 128 is one more than the largest `u128`.
proof fn lemma_pow2_128()
    ensures
        pow2(128) == u128::MAX + 1,
{
    vstd::arithmetic::power2::lemma2_to64();
    vstd::arithmetic::power2::lemma_pow2_adds(64, 64);
    assert(0x1_0000_0000_0000_0000int * 0x1_0000_0000_0000_0000int
        == 0x1_0000_0000_0000_0000_0000_0000_0000_0000int) by (nonlinear_arith);
}

/// Two to the power `n`, for an `n` whose power fits.
fn two_to(n: usize) -> (r: u128)
    requires
        n < 128,
    ensures
        r == pow2(n as nat),
{
    let mut r: u128 = 1;
    let mut i: usize = 0;
    proof {
        vstd::arithmetic::power2::lemma2_to64();
    }
    while i < n
        invariant
            i <= n,
            n < 128,
            r == pow2(i as nat),
        decreases n - i,
    {
        proof {
            lemma_pow2_unfold((i + 1) as nat);
            lemma_pow2_128();
            if i + 1 < 127 {
                vstd::arithmetic::power2::lemma_pow2_strictly_increases((i + 1) as nat, 127);
            }
            lemma_pow2_unfold(128);
        }
        r = r * 2;
        i = i + 1;
    }
    r
}

/// The bits of a left operand followed by those of a right operand spell,
/// each in its half, the numbers that the operands spell alone.
pub proof fn lemma_prefix_value_of_halves(
    left: Seq<bool>,
    right: Seq<bool>,
    count: nat,
    signed: bool,
)
    requires
        count <= left.len(),
        count <= right.len(),
    ensures
        prefix_value(left + right, 0, count, signed) == prefix_value(left, 0, count, signed),
        prefix_value(left + right, left.len() as int, count, signed) == prefix_value(
            right,
            0,
            count,
            signed,
        ),
    decreases count,
{
    if count > 0 {
        lemma_prefix_value_of_halves(left, right, (count - 1) as nat, signed);
        assert((left + right)[count - 1] == left[count - 1]);
        assert((left + right)[left.len() + count - 1] == right[count - 1]);
        assert((left + right)[0] == left[0]);
        assert((left + right)[left.len() as int] == right[0]);
    }
}

/// Two bit sequences spell the same number as two's complement exactly when
/// they spell the same unsigned number.
pub proof fn lemma_equal_in_either_reading(
    left: Seq<bool>,
    left_start: int,
    right: Seq<bool>,
    right_start: int,
    count: nat,
)
    ensures
        (prefix_value(left, left_start, count, true) == prefix_value(
            right,
            right_start,
            count,
            true,
        )) == (prefix_value(left, left_start, count, false) == prefix_value(
            right,
            right_start,
            count,
            false,
        )),
    decreases count,
{
    if count > 1 {
        lemma_equal_in_either_reading(left, left_start, right, right_start, (count - 1) as nat);
    }
}

pub type GarbledUint8 = GarbledUint<8>;

pub type GarbledUint16 = GarbledUint<16>;

pub type GarbledUint32 = GarbledUint<32>;

pub type GarbledUint64 = GarbledUint<64>;

pub type GarbledUint128 = GarbledUint<128>;

pub type GarbledInt8 = GarbledInt<8>;

pub type GarbledInt16 = GarbledInt<16>;

pub type GarbledInt32 = GarbledInt<32>;

pub type GarbledInt64 = GarbledInt<64>;

pub type GarbledInt128 = GarbledInt<128>;

/// The powers of two at the supported widths.
proof fn lemma_width_powers()
    ensures
        pow2(7) == 0x80,
        pow2(8) == 0x100,
        pow2(15) == 0x8000,
        pow2(16) == 0x1_0000,
        pow2(31) == 0x8000_0000,
        pow2(32) == 0x1_0000_0000,
        pow2(63) == 0x8000_0000_0000_0000,
        pow2(64) == 0x1_0000_0000_0000_0000,
        pow2(127) == 0x8000_0000_0000_0000_0000_0000_0000_0000,
        pow2(128) == 0x1_0000_0000_0000_0000_0000_0000_0000_0000,
{
    vstd::arithmetic::power2::lemma2_to64();
    vstd::arithmetic::power2::lemma2_to64_rest();
    lemma_pow2_128();
    lemma_pow2_unfold(128);
}

/// The magnitude that stands for a two's-complement number: `v`, or `-v - 1`.
fn magnitude_of(v: i128) -> (m: u128)
    ensures
        signed_of(m as nat, v < 0) == v,
{
    if v < 0 {
        (-(v + 1)) as u128
    } else {
        v as u128
    }
}

impl vstd::std_specs::convert::FromSpecImpl<u8> for GarbledUint<8> {
    open spec fn obeys_from_spec() -> bool {
        false
    }

    open spec fn from_spec(v: u8) -> Self {
        arbitrary()
    }
}

impl From<u8> for GarbledUint<8> {
    /// Encodes `v` in 8 bits.
    fn from(v: u8) -> (r: Self)
        ensures
            r.value() == v,
            r@.len() == 8,
    {
        proof {
            lemma_width_powers();
        }
        GarbledUint { bits: bits_of(v as u128, false, false, 8) }
    }
}

impl vstd::std_specs::convert::FromSpecImpl<u16> for GarbledUint<16> {
    open spec fn obeys_from_spec() -> bool {
        false
    }

    open spec fn from_spec(v: u16) -> Self {
        arbitrary()
    }
}

impl From<u16> for GarbledUint<16> {
    /// Encodes `v` in 16 bits.
    fn from(v: u16) -> (r: Self)
        ensures
            r.value() == v,
            r@.len() == 16,
    {
        proof {
            lemma_width_powers();
        }
        GarbledUint { bits: bits_of(v as u128, false, false, 16) }
    }
}

impl vstd::std_specs::convert::FromSpecImpl<u32> for GarbledUint<32> {
    open spec fn obeys_from_spec() -> bool {
        false
    }

    open spec fn from_spec(v: u32) -> Self {
        arbitrary()
    }
}

impl From<u32> for GarbledUint<32> {
    /// Encodes `v` in 32 bits.
    fn from(v: u32) -> (r: Self)
        ensures
            r.value() == v,
            r@.len() == 32,
    {
        proof {
            lemma_width_powers();
        }
        GarbledUint { bits: bits_of(v as u128, false, false, 32) }
    }
}

impl vstd::std_specs::convert::FromSpecImpl<u64> for GarbledUint<64> {
    open spec fn obeys_from_spec() -> bool {
        false
    }

    open spec fn from_spec(v: u64) -> Self {
        arbitrary()
    }
}

impl From<u64> for GarbledUint<64> {
    /// Encodes `v` in 64 bits.
    fn from(v: u64) -> (r: Self)
        ensures
            r.value() == v,
            r@.len() == 64,
    {
        proof {
            lemma_width_powers();
        }
        GarbledUint { bits: bits_of(v as u128, false, false, 64) }
    }
}

impl vstd::std_specs::convert::FromSpecImpl<u128> for GarbledUint<128> {
    open spec fn obeys_from_spec() -> bool {
        false
    }

    open spec fn from_spec(v: u128) -> Self {
        arbitrary()
    }
}

impl From<u128> for GarbledUint<128> {
    /// Encodes `v` in 128 bits.
    fn from(v: u128) -> (r: Self)
        ensures
            r.value() == v,
            r@.len() == 128,
    {
        proof {
            lemma_width_powers();
        }
        GarbledUint { bits: bits_of(v, false, false, 128) }
    }
}

impl vstd::std_specs::convert::FromSpecImpl<i8> for GarbledInt<8> {
    open spec fn obeys_from_spec() -> bool {
        false
    }

    open spec fn from_spec(v: i8) -> Self {
        arbitrary()
    }
}

impl From<i8> for GarbledInt<8> {
    /// Encodes `v` in 8 bits of two's complement.
    fn from(v: i8) -> (r: Self)
        ensures
            r.value() == v,
            r@.len() == 8,
    {
        proof {
            lemma_width_powers();
        }
        GarbledInt { bits: bits_of(magnitude_of(v as i128), v < 0, true, 8) }
    }
}

impl vstd::std_specs::convert::FromSpecImpl<i16> for GarbledInt<16> {
    open spec fn obeys_from_spec() -> bool {
        false
    }

    open spec fn from_spec(v: i16) -> Self {
        arbitrary()
    }
}

impl From<i16> for GarbledInt<16> {
    /// Encodes `v` in 16 bits of two's complement.
    fn from(v: i16) -> (r: Self)
        ensures
            r.value() == v,
            r@.len() == 16,
    {
        proof {
            lemma_width_powers();
        }
        GarbledInt { bits: bits_of(magnitude_of(v as i128), v < 0, true, 16) }
    }
}

impl vstd::std_specs::convert::FromSpecImpl<i32> for GarbledInt<32> {
    open spec fn obeys_from_spec() -> bool {
        false
    }

    open spec fn from_spec(v: i32) -> Self {
        arbitrary()
    }
}

impl From<i32> for GarbledInt<32> {
    /// Encodes `v` in 32 bits of two's complement.
    fn from(v: i32) -> (r: Self)
        ensures
            r.value() == v,
            r@.len() == 32,
    {
        proof {
            lemma_width_powers();
        }
        GarbledInt { bits: bits_of(magnitude_of(v as i128), v < 0, true, 32) }
    }
}

impl vstd::std_specs::convert::FromSpecImpl<i64> for GarbledInt<64> {
    open spec fn obeys_from_spec() -> bool {
        false
    }

    open spec fn from_spec(v: i64) -> Self {
        arbitrary()
    }
}

impl From<i64> for GarbledInt<64> {
    /// Encodes `v` in 64 bits of two's complement.
    fn from(v: i64) -> (r: Self)
        ensures
            r.value() == v,
            r@.len() == 64,
    {
        proof {
            lemma_width_powers();
        }
        GarbledInt { bits: bits_of(magnitude_of(v as i128), v < 0, true, 64) }
    }
}

impl vstd::std_specs::convert::FromSpecImpl<i128> for GarbledInt<128> {
    open spec fn obeys_from_spec() -> bool {
        false
    }

    open spec fn from_spec(v: i128) -> Self {
        arbitrary()
    }
}

impl From<i128> for GarbledInt<128> {
    /// Encodes `v` in 128 bits of two's complement.
    fn from(v: i128) -> (r: Self)
        ensures
            r.value() == v,
            r@.len() == 128,
    {
        proof {
            lemma_width_powers();
        }
        GarbledInt { bits: bits_of(magnitude_of(v), v < 0, true, 128) }
    }
}

} // verus!
