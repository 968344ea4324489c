use vstd::array::{spec_array_fill_for_copy_type, spec_array_update};
use vstd::prelude::*;
use crate::engine::{advance, lemma_advance_add, lemma_advance_one, next_state, Random};

verus! {

/// A type of which an engine can draw a value.
pub trait RandomT: Sized {
    /// How many raw draws one value of this type consumes.
    spec fn draw_count() -> nat;

    /// The value that an engine in state `s` draws.
    spec fn drawn(s: u64) -> Self;

    /// Draws one value, consuming `draw_count()` raw draws.
    fn random(r: &mut Random) -> (v: Self)
        ensures
            v == Self::drawn(old(r)@),
            final(r)@ == advance(old(r)@, Self::draw_count()),
    ;
}

/// Whether `c` is a Unicode scalar value: a code point that is no surrogate.
pub open spec fn is_scalar(c: u32) -> bool {
    c <= 0xD7FF || (0xE000 <= c && c <= 0x10FFFF)
}

/// The character of a byte taken as a code point, or a space where that code
/// point is no scalar value.
pub open spec fn char_of_byte(b: u8) -> char {
    if is_scalar(b as u32) {
        (b as u32) as char
    } else {
        ' '
    }
}

/// Relies on char::from_u32: `Some` of the character exactly where the code
/// point is a Unicode scalar value.
pub assume_specification[ char::from_u32 ](i: u32) -> (r: Option<char>)
    ensures
        r == if is_scalar(i) {
            Some(i as char)
        } else {
            None
        },
;

impl RandomT for bool {
    open spec fn draw_count() -> nat {
        1
    }

    open spec fn drawn(s: u64) -> bool {
        next_state(s) & 1 != 0
    }

    fn random(r: &mut Random) -> (v: bool) {
        (r.next() & 1) != 0
    }
}

impl RandomT for char {
    open spec fn draw_count() -> nat {
        1
    }

    open spec fn drawn(s: u64) -> char {
        char_of_byte(next_state(s) as u8)
    }

    fn random(r: &mut Random) -> (v: char) {
        let b = r.get::<u8>();
        char::from_u32(b as u32).unwrap_or(' ')
    }
}

impl RandomT for u8 {
    open spec fn draw_count() -> nat {
        1
    }

    open spec fn drawn(s: u64) -> u8 {
        next_state(s) as u8
    }

    fn random(r: &mut Random) -> (v: u8) {
        r.next() as u8
    }
}

impl RandomT for u16 {
    open spec fn draw_count() -> nat {
        1
    }

    open spec fn drawn(s: u64) -> u16 {
        next_state(s) as u16
    }

    fn random(r: &mut Random) -> (v: u16) {
        r.next() as u16
    }
}

impl RandomT for u32 {
    open spec fn draw_count() -> nat {
        1
    }

    open spec fn drawn(s: u64) -> u32 {
        next_state(s) as u32
    }

    fn random(r: &mut Random) -> (v: u32) {
        r.next() as u32
    }
}

impl RandomT for u64 {
    open spec fn draw_count() -> nat {
        1
    }

    open spec fn drawn(s: u64) -> u64 {
        next_state(s)
    }

    fn random(r: &mut Random) -> (v: u64) {
        r.next()
    }
}

impl RandomT for u128 {
    open spec fn draw_count() -> nat {
        2
    }

    /// The first draw gives the high 64 bits, the second the low 64 bits.
    open spec fn drawn(s: u64) -> u128 {
        ((next_state(s) as u128) << 64u32) | (next_state(next_state(s)) as u128)
    }

    fn random(r: &mut Random) -> (v: u128) {
        proof {
            lemma_advance_one(r@);
            lemma_advance_one(next_state(r@));
            lemma_advance_add(r@, 1, 1);
        }
        let hi = r.next();
        let lo = r.next();
        ((hi as u128) << 64u32) | (lo as u128)
    }
}

impl RandomT for usize {
    open spec fn draw_count() -> nat {
        1
    }

    open spec fn drawn(s: u64) -> usize {
        next_state(s) as usize
    }

    fn random(r: &mut Random) -> (v: usize) {
        r.next() as usize
    }
}

impl RandomT for i8 {
    open spec fn draw_count() -> nat {
        1
    }

    open spec fn drawn(s: u64) -> i8 {
        next_state(s) as i8
    }

    fn random(r: &mut Random) -> (v: i8) {
        r.next() as i8
    }
}

impl RandomT for i16 {
    open spec fn draw_count() -> nat {
        1
    }

    open spec fn drawn(s: u64) -> i16 {
        next_state(s) as i16
    }

    fn random(r: &mut Random) -> (v: i16) {
        r.next() as i16
    }
}

impl RandomT for i32 {
    open spec fn draw_count() -> nat {
        1
    }

    open spec fn drawn(s: u64) -> i32 {
        next_state(s) as i32
    }

    fn random(r: &mut Random) -> (v: i32) {
        r.next() as i32
    }
}

impl RandomT for i64 {
    open spec fn draw_count() -> nat {
        1
    }

    open spec fn drawn(s: u64) -> i64 {
        next_state(s) as i64
    }

    fn random(r: &mut Random) -> (v: i64) {
        r.next() as i64
    }
}

impl RandomT for i128 {
    open spec fn draw_count() -> nat {
        2
    }

    /// The first draw gives the high 64 bits, the second the low 64 bits.
    open spec fn drawn(s: u64) -> i128 {
        ((next_state(s) as i128) << 64u32) | (next_state(next_state(s)) as i128)
    }

    fn random(r: &mut Random) -> (v: i128) {
        proof {
            lemma_advance_one(r@);
            lemma_advance_one(next_state(r@));
            lemma_advance_add(r@, 1, 1);
        }
        let hi = r.next();
        let lo = r.next();
        ((hi as i128) << 64u32) | (lo as i128)
    }
}

impl RandomT for isize {
    open spec fn draw_count() -> nat {
        1
    }

    open spec fn drawn(s: u64) -> isize {
        next_state(s) as isize
    }

    fn random(r: &mut Random) -> (v: isize) {
        r.next() as isize
    }
}

/// The bits of a 32-bit float in [1.0, 2.0): the low 23 bits of `w` as the
/// mantissa under the sign and exponent bits of 1.0.
pub open spec fn unit_f32_bits_of(w: u32) -> u32 {
    (w & 0x7f_ffffu32) | 0x3f80_0000u32
}

/// The bits of a 64-bit float in [1.0, 2.0): the low 52 bits of `w` as the
/// mantissa under the sign and exponent bits of 1.0.
pub open spec fn unit_f64_bits_of(w: u64) -> u64 {
    (w & 0xf_ffff_ffff_ffffu64) | 0x3ff0_0000_0000_0000u64
}

impl Random {
    /// Draws the bits of a 32-bit float in [1.0, 2.0), from one `u32` draw.
    /// Less 1.0, that float is uniform in [0.0, 1.0).
    pub fn unit_f32_bits(&mut self) -> (v: u32)
        ensures
            v == unit_f32_bits_of(next_state(old(self)@) as u32),
            0x3f80_0000u32 <= v <= 0x3fff_ffffu32,
            final(self)@ == advance(old(self)@, 1),
    {
        let w = self.get::<u32>();
        let v = (w & 0x7f_ffffu32) | 0x3f80_0000u32;
        assert(0x3f80_0000u32 <= (w & 0x7f_ffffu32) | 0x3f80_0000u32 <= 0x3fff_ffffu32)
            by (bit_vector);
        v
    }

    /// Draws the bits of a 64-bit float in [1.0, 2.0), from one `u64` draw.
    /// Less 1.0, that float is uniform in [0.0, 1.0).
    pub fn unit_f64_bits(&mut self) -> (v: u64)
        ensures
            v == unit_f64_bits_of(next_state(old(self)@)),
            0x3ff0_0000_0000_0000u64 <= v <= 0x3fff_ffff_ffff_ffffu64,
            final(self)@ == advance(old(self)@, 1),
    {
        let w = self.get::<u64>();
        let v = (w & 0xf_ffff_ffff_ffffu64) | 0x3ff0_0000_0000_0000u64;
        assert(0x3ff0_0000_0000_0000u64 <= (w & 0xf_ffff_ffff_ffffu64) | 0x3ff0_0000_0000_0000u64
            <= 0x3fff_ffff_ffff_ffffu64) by (bit_vector);
        v
    }
}

/// An array whose first `k` slots hold the first `k` values of `T` drawn in
/// turn from state `s`, and whose other slots hold the first of them.
pub open spec fn array_prefix<T: RandomT + Copy, const N: usize>(s: u64, k: nat) -> [T; N]
    decreases k,
{
    if k == 0 {
        spec_array_fill_for_copy_type::<T, N>(T::drawn(s))
    } else {
        spec_array_update(
            array_prefix::<T, N>(s, (k - 1) as nat),
            k - 1,
            T::drawn(advance(s, ((k - 1) * T::draw_count()) as nat)),
        )
    }
}

/// Slot `j` of `array_prefix(s, k)`.
pub proof fn lemma_array_prefix<T: RandomT + Copy, const N: usize>(s: u64, k: nat, j: int)
    requires
        k <= N,
        0 <= j < N,
    ensures
        array_prefix::<T, N>(s, k)[j] == if j < k {
            T::drawn(advance(s, (j * T::draw_count()) as nat))
        } else {
            T::drawn(s)
        },
    decreases k,
{
    broadcast use vstd::array::group_array_axioms;

    if k > 0 {
        lemma_array_prefix::<T, N>(s, (k - 1) as nat, j);
    }
}

/// A tuple is drawn slot by slot, from the left.
impl<A: RandomT> RandomT for (A,) {
    open spec fn draw_count() -> nat {
        A::draw_count()
    }

    open spec fn drawn(s: u64) -> (A,) {
        (A::drawn(s),)
    }

    fn random(r: &mut Random) -> (v: (A,)) {
        let ghost s = r@;
        let a = A::random(r);
        (a,)
    }
}

impl<A: RandomT, B: RandomT> RandomT for (A, B) {
    open spec fn draw_count() -> nat {
        A::draw_count() + B::draw_count()
    }

    open spec fn drawn(s: u64) -> (A, B) {
        let s1 = advance(s, A::draw_count());
        (A::drawn(s), B::drawn(s1))
    }

    fn random(r: &mut Random) -> (v: (A, B)) {
        let ghost s = r@;
        let a = A::random(r);
        let b = B::random(r);
        proof {
            lemma_advance_add(s, A::draw_count(), B::draw_count());
        }
        (a, b)
    }
}

impl<A: RandomT, B: RandomT, C: RandomT> RandomT for (A, B, C) {
    open spec fn draw_count() -> nat {
        A::draw_count() + B::draw_count() + C::draw_count()
    }

    open spec fn drawn(s: u64) -> (A, B, C) {
        let s1 = advance(s, A::draw_count());
        let s2 = advance(s1, B::draw_count());
        (A::drawn(s), B::drawn(s1), C::drawn(s2))
    }

    fn random(r: &mut Random) -> (v: (A, B, C)) {
        let ghost s = r@;
        let a = A::random(r);
        let b = B::random(r);
        proof {
            lemma_advance_add(s, A::draw_count(), B::draw_count());
        }
        let c = C::random(r);
        proof {
            lemma_advance_add(s, A::draw_count() + B::draw_count(), C::draw_count());
        }
        (a, b, c)
    }
}

impl<A: RandomT, B: RandomT, C: RandomT, D: RandomT> RandomT for (A, B, C, D) {
    open spec fn draw_count() -> nat {
        A::draw_count() + B::draw_count() + C::draw_count() + D::draw_count()
    }

    open spec fn drawn(s: u64) -> (A, B, C, D) {
        let s1 = advance(s, A::draw_count());
        let s2 = advance(s1, B::draw_count());
        let s3 = advance(s2, C::draw_count());
        (A::drawn(s), B::drawn(s1), C::drawn(s2), D::drawn(s3))
    }

    fn random(r: &mut Random) -> (v: (A, B, C, D)) {
        let ghost s = r@;
        let a = A::random(r);
        let b = B::random(r);
        proof {
            lemma_advance_add(s, A::draw_count(), B::draw_count());
        }
        let c = C::random(r);
        proof {
            lemma_advance_add(s, A::draw_count() + B::draw_count(), C::draw_count());
        }
        let d = D::random(r);
        proof {
            lemma_advance_add(s, A::draw_count() + B::draw_count() + C::draw_count(), D::draw_count());
        }
        (a, b, c, d)
    }
}

impl<A: RandomT, B: RandomT, C: RandomT, D: RandomT, E: RandomT> RandomT for (A, B, C, D, E) {
    open spec fn draw_count() -> nat {
        A::draw_count() + B::draw_count() + C::draw_count() + D::draw_count() + E::draw_count()
    }

    open spec fn drawn(s: u64) -> (A, B, C, D, E) {
        let s1 = advance(s, A::draw_count());
        let s2 = advance(s1, B::draw_count());
        let s3 = advance(s2, C::draw_count());
        let s4 = advance(s3, D::draw_count());
        (A::drawn(s), B::drawn(s1), C::drawn(s2), D::drawn(s3), E::drawn(s4))
    }

    fn random(r: &mut Random) -> (v: (A, B, C, D, E)) {
        let ghost s = r@;
        let a = A::random(r);
        let b = B::random(r);
        proof {
            lemma_advance_add(s, A::draw_count(), B::draw_count());
        }
        let c = C::random(r);
        proof {
            lemma_advance_add(s, A::draw_count() + B::draw_count(), C::draw_count());
        }
        let d = D::random(r);
        proof {
            lemma_advance_add(s, A::draw_count() + B::draw_count() + C::draw_count(), D::draw_count());
        }
        let e = E::random(r);
        proof {
            lemma_advance_add(s, A::draw_count() + B::draw_count() + C::draw_count() + D::draw_count(), E::draw_count());
        }
        (a, b, c, d, e)
    }
}

impl<A: RandomT, B: RandomT, C: RandomT, D: RandomT, E: RandomT, F: RandomT> RandomT for (A, B, C, D, E, F) {
    open spec fn draw_count() -> nat {
        A::draw_count() + B::draw_count() + C::draw_count() + D::draw_count() + E::draw_count() + F::draw_count()
    }

    open spec fn drawn(s: u64) -> (A, B, C, D, E, F) {
        let s1 = advance(s, A::draw_count());
        let s2 = advance(s1, B::draw_count());
        let s3 = advance(s2, C::draw_count());
        let s4 = advance(s3, D::draw_count());
        let s5 = advance(s4, E::draw_count());
        (A::drawn(s), B::drawn(s1), C::drawn(s2), D::drawn(s3), E::drawn(s4), F::drawn(s5))
    }

    fn random(r: &mut Random) -> (v: (A, B, C, D, E, F)) {
        let ghost s = r@;
        let a = A::random(r);
        let b = B::random(r);
        proof {
            lemma_advance_add(s, A::draw_count(), B::draw_count());
        }
        let c = C::random(r);
        proof {
            lemma_advance_add(s, A::draw_count() + B::draw_count(), C::draw_count());
        }
        let d = D::random(r);
        proof {
            lemma_advance_add(s, A::draw_count() + B::draw_count() + C::draw_count(), D::draw_count());
        }
        let e = E::random(r);
        proof {
            lemma_advance_add(s, A::draw_count() + B::draw_count() + C::draw_count() + D::draw_count(), E::draw_count());
        }
        let f = F::random(r);
        proof {
            lemma_advance_add(s, A::draw_count() + B::draw_count() + C::draw_count() + D::draw_count() + E::draw_count(), F::draw_count());
        }
        (a, b, c, d, e, f)
    }
}

impl<A: RandomT, B: RandomT, C: RandomT, D: RandomT, E: RandomT, F: RandomT, G: RandomT> RandomT for (A, B, C, D, E, F, G) {
    open spec fn draw_count() -> nat {
        A::draw_count() + B::draw_count() + C::draw_count() + D::draw_count() + E::draw_count() + F::draw_count() + G::draw_count()
    }

    open spec fn drawn(s: u64) -> (A, B, C, D, E, F, G) {
        let s1 = advance(s, A::draw_count());
        let s2 = advance(s1, B::draw_count());
        let s3 = advance(s2, C::draw_count());
        let s4 = advance(s3, D::draw_count());
        let s5 = advance(s4, E::draw_count());
        let s6 = advance(s5, F::draw_count());
        (A::drawn(s), B::drawn(s1), C::drawn(s2), D::drawn(s3), E::drawn(s4), F::drawn(s5), G::drawn(s6))
    }

    fn random(r: &mut Random) -> (v: (A, B, C, D, E, F, G)) {
        let ghost s = r@;
        let a = A::random(r);
        let b = B::random(r);
        proof {
            lemma_advance_add(s, A::draw_count(), B::draw_count());
        }
        let c = C::random(r);
        proof {
            lemma_advance_add(s, A::draw_count() + B::draw_count(), C::draw_count());
        }
        let d = D::random(r);
        proof {
            lemma_advance_add(s, A::draw_count() + B::draw_count() + C::draw_count(), D::draw_count());
        }
        let e = E::random(r);
        proof {
            lemma_advance_add(s, A::draw_count() + B::draw_count() + C::draw_count() + D::draw_count(), E::draw_count());
        }
        let f = F::random(r);
        proof {
            lemma_advance_add(s, A::draw_count() + B::draw_count() + C::draw_count() + D::draw_count() + E::draw_count(), F::draw_count());
        }
        let g = G::random(r);
        proof {
            lemma_advance_add(s, A::draw_count() + B::draw_count() + C::draw_count() + D::draw_count() + E::draw_count() + F::draw_count(), G::draw_count());
        }
        (a, b, c, d, e, f, g)
    }
}

impl<A: RandomT, B: RandomT, C: RandomT, D: RandomT, E: RandomT, F: RandomT, G: RandomT, H: RandomT> RandomT for (A, B, C, D, E, F, G, H) {
    open spec fn draw_count() -> nat {
        A::draw_count() + B::draw_count() + C::draw_count() + D::draw_count() + E::draw_count() + F::draw_count() + G::draw_count() + H::draw_count()
    }

    open spec fn drawn(s: u64) -> (A, B, C, D, E, F, G, H) {
        let s1 = advance(s, A::draw_count());
        let s2 = advance(s1, B::draw_count());
        let s3 = advance(s2, C::draw_count());
        let s4 = advance(s3, D::draw_count());
        let s5 = advance(s4, E::draw_count());
        let s6 = advance(s5, F::draw_count());
        let s7 = advance(s6, G::draw_count());
        (A::drawn(s), B::drawn(s1), C::drawn(s2), D::drawn(s3), E::drawn(s4), F::drawn(s5), G::drawn(s6), H::drawn(s7))
    }

    fn random(r: &mut Random) -> (v: (A, B, C, D, E, F, G, H)) {
        let ghost s = r@;
        let a = A::random(r);
        let b = B::random(r);
        proof {
            lemma_advance_add(s, A::draw_count(), B::draw_count());
        }
        let c = C::random(r);
        proof {
            lemma_advance_add(s, A::draw_count() + B::draw_count(), C::draw_count());
        }
        let d = D::random(r);
        proof {
            lemma_advance_add(s, A::draw_count() + B::draw_count() + C::draw_count(), D::draw_count());
        }
        let e = E::random(r);
        proof {
            lemma_advance_add(s, A::draw_count() + B::draw_count() + C::draw_count() + D::draw_count(), E::draw_count());
        }
        let f = F::random(r);
        proof {
            lemma_advance_add(s, A::draw_count() + B::draw_count() + C::draw_count() + D::draw_count() + E::draw_count(), F::draw_count());
        }
        let g = G::random(r);
        proof {
            lemma_advance_add(s, A::draw_count() + B::draw_count() + C::draw_count() + D::draw_count() + E::draw_count() + F::draw_count(), G::draw_count());
        }
        let h = H::random(r);
        proof {
            lemma_advance_add(s, A::draw_count() + B::draw_count() + C::draw_count() + D::draw_count() + E::draw_count() + F::draw_count() + G::draw_count(), H::draw_count());
        }
        (a, b, c, d, e, f, g, h)
    }
}

impl<A: RandomT, B: RandomT, C: RandomT, D: RandomT, E: RandomT, F: RandomT, G: RandomT, H: RandomT, I: RandomT> RandomT for (A, B, C, D, E, F, G, H, I) {
    open spec fn draw_count() -> nat {
        A::draw_count() + B::draw_count() + C::draw_count() + D::draw_count() + E::draw_count() + F::draw_count() + G::draw_count() + H::draw_count() + I::draw_count()
    }

    open spec fn drawn(s: u64) -> (A, B, C, D, E, F, G, H, I) {
        let s1 = advance(s, A::draw_count());
        let s2 = advance(s1, B::draw_count());
        let s3 = advance(s2, C::draw_count());
        let s4 = advance(s3, D::draw_count());
        let s5 = advance(s4, E::draw_count());
        let s6 = advance(s5, F::draw_count());
        let s7 = advance(s6, G::draw_count());
        let s8 = advance(s7, H::draw_count());
        (A::drawn(s), B::drawn(s1), C::drawn(s2), D::drawn(s3), E::drawn(s4), F::drawn(s5), G::drawn(s6), H::drawn(s7), I::drawn(s8))
    }

    fn random(r: &mut Random) -> (v: (A, B, C, D, E, F, G, H, I)) {
        let ghost s = r@;
        let a = A::random(r);
        let b = B::random(r);
        proof {
            lemma_advance_add(s, A::draw_count(), B::draw_count());
        }
        let c = C::random(r);
        proof {
            lemma_advance_add(s, A::draw_count() + B::draw_count(), C::draw_count());
        }
        let d = D::random(r);
        proof {
            lemma_advance_add(s, A::draw_count() + B::draw_count() + C::draw_count(), D::draw_count());
        }
        let e = E::random(r);
        proof {
            lemma_advance_add(s, A::draw_count() + B::draw_count() + C::draw_count() + D::draw_count(), E::draw_count());
        }
        let f = F::random(r);
        proof {
            lemma_advance_add(s, A::draw_count() + B::draw_count() + C::draw_count() + D::draw_count() + E::draw_count(), F::draw_count());
        }
        let g = G::random(r);
        proof {
            lemma_advance_add(s, A::draw_count() + B::draw_count() + C::draw_count() + D::draw_count() + E::draw_count() + F::draw_count(), G::draw_count());
        }
        let h = H::random(r);
        proof {
            lemma_advance_add(s, A::draw_count() + B::draw_count() + C::draw_count() + D::draw_count() + E::draw_count() + F::draw_count() + G::draw_count(), H::draw_count());
        }
        let i = I::random(r);
        proof {
            lemma_advance_add(s, A::draw_count() + B::draw_count() + C::draw_count() + D::draw_count() + E::draw_count() + F::draw_count() + G::draw_count() + H::draw_count(), I::draw_count());
        }
        (a, b, c, d, e, f, g, h, i)
    }
}

impl<A: RandomT, B: RandomT, C: RandomT, D: RandomT, E: RandomT, F: RandomT, G: RandomT, H: RandomT, I: RandomT, J: RandomT> RandomT for (A, B, C, D, E, F, G, H, I, J) {
    open spec fn draw_count() -> nat {
        A::draw_count() + B::draw_count() + C::draw_count() + D::draw_count() + E::draw_count() + F::draw_count() + G::draw_count() + H::draw_count() + I::draw_count() + J::draw_count()
    }

    open spec fn drawn(s: u64) -> (A, B, C, D, E, F, G, H, I, J) {
        let s1 = advance(s, A::draw_count());
        let s2 = advance(s1, B::draw_count());
        let s3 = advance(s2, C::draw_count());
        let s4 = advance(s3, D::draw_count());
        let s5 = advance(s4, E::draw_count());
        let s6 = advance(s5, F::draw_count());
        let s7 = advance(s6, G::draw_count());
        let s8 = advance(s7, H::draw_count());
        let s9 = advance(s8, I::draw_count());
        (A::drawn(s), B::drawn(s1), C::drawn(s2), D::drawn(s3), E::drawn(s4), F::drawn(s5), G::drawn(s6), H::drawn(s7), I::drawn(s8), J::drawn(s9))
    }

    fn random(r: &mut Random) -> (v: (A, B, C, D, E, F, G, H, I, J)) {
        let ghost s = r@;
        let a = A::random(r);
        let b = B::random(r);
        proof {
            lemma_advance_add(s, A::draw_count(), B::draw_count());
        }
        let c = C::random(r);
        proof {
            lemma_advance_add(s, A::draw_count() + B::draw_count(), C::draw_count());
        }
        let d = D::random(r);
        proof {
            lemma_advance_add(s, A::draw_count() + B::draw_count() + C::draw_count(), D::draw_count());
        }
        let e = E::random(r);
        proof {
            lemma_advance_add(s, A::draw_count() + B::draw_count() + C::draw_count() + D::draw_count(), E::draw_count());
        }
        let f = F::random(r);
        proof {
            lemma_advance_add(s, A::draw_count() + B::draw_count() + C::draw_count() + D::draw_count() + E::draw_count(), F::draw_count());
        }
        let g = G::random(r);
        proof {
            lemma_advance_add(s, A::draw_count() + B::draw_count() + C::draw_count() + D::draw_count() + E::draw_count() + F::draw_count(), G::draw_count());
        }
        let h = H::random(r);
        proof {
            lemma_advance_add(s, A::draw_count() + B::draw_count() + C::draw_count() + D::draw_count() + E::draw_count() + F::draw_count() + G::draw_count(), H::draw_count());
        }
        let i = I::random(r);
        proof {
            lemma_advance_add(s, A::draw_count() + B::draw_count() + C::draw_count() + D::draw_count() + E::draw_count() + F::draw_count() + G::draw_count() + H::draw_count(), I::draw_count());
        }
        let j = J::random(r);
        proof {
            lemma_advance_add(s, A::draw_count() + B::draw_count() + C::draw_count() + D::draw_count() + E::draw_count() + F::draw_count() + G::draw_count() + H::draw_count() + I::draw_count(), J::draw_count());
        }
        (a, b, c, d, e, f, g, h, i, j)
    }
}

impl<A: RandomT, B: RandomT, C: RandomT, D: RandomT, E: RandomT, F: RandomT, G: RandomT, H: RandomT, I: RandomT, J: RandomT, K: RandomT> RandomT for (A, B, C, D, E, F, G, H, I, J, K) {
    open spec fn draw_count() -> nat {
        A::draw_count() + B::draw_count() + C::draw_count() + D::draw_count() + E::draw_count() + F::draw_count() + G::draw_count() + H::draw_count() + I::draw_count() + J::draw_count() + K::draw_count()
    }

    open spec fn drawn(s: u64) -> (A, B, C, D, E, F, G, H, I, J, K) {
        let s1 = advance(s, A::draw_count());
        let s2 = advance(s1, B::draw_count());
        let s3 = advance(s2, C::draw_count());
        let s4 = advance(s3, D::draw_count());
        let s5 = advance(s4, E::draw_count());
        let s6 = advance(s5, F::draw_count());
        let s7 = advance(s6, G::draw_count());
        let s8 = advance(s7, H::draw_count());
        let s9 = advance(s8, I::draw_count());
        let s10 = advance(s9, J::draw_count());
        (A::drawn(s), B::drawn(s1), C::drawn(s2), D::drawn(s3), E::drawn(s4), F::drawn(s5), G::drawn(s6), H::drawn(s7), I::drawn(s8), J::drawn(s9), K::drawn(s10))
    }

    fn random(r: &mut Random) -> (v: (A, B, C, D, E, F, G, H, I, J, K)) {
        let ghost s = r@;
        let a = A::random(r);
        let b = B::random(r);
        proof {
            lemma_advance_add(s, A::draw_count(), B::draw_count());
        }
        let c = C::random(r);
        proof {
            lemma_advance_add(s, A::draw_count() + B::draw_count(), C::draw_count());
        }
        let d = D::random(r);
        proof {
            lemma_advance_add(s, A::draw_count() + B::draw_count() + C::draw_count(), D::draw_count());
        }
        let e = E::random(r);
        proof {
            lemma_advance_add(s, A::draw_count() + B::draw_count() + C::draw_count() + D::draw_count(), E::draw_count());
        }
        let f = F::random(r);
        proof {
            lemma_advance_add(s, A::draw_count() + B::draw_count() + C::draw_count() + D::draw_count() + E::draw_count(), F::draw_count());
        }
        let g = G::random(r);
        proof {
            lemma_advance_add(s, A::draw_count() + B::draw_count() + C::draw_count() + D::draw_count() + E::draw_count() + F::draw_count(), G::draw_count());
        }
        let h = H::random(r);
        proof {
            lemma_advance_add(s, A::draw_count() + B::draw_count() + C::draw_count() + D::draw_count() + E::draw_count() + F::draw_count() + G::draw_count(), H::draw_count());
        }
        let i = I::random(r);
        proof {
            lemma_advance_add(s, A::draw_count() + B::draw_count() + C::draw_count() + D::draw_count() + E::draw_count() + F::draw_count() + G::draw_count() + H::draw_count(), I::draw_count());
        }
        let j = J::random(r);
        proof {
            lemma_advance_add(s, A::draw_count() + B::draw_count() + C::draw_count() + D::draw_count() + E::draw_count() + F::draw_count() + G::draw_count() + H::draw_count() + I::draw_count(), J::draw_count());
        }
        let k = K::random(r);
        proof {
            lemma_advance_add(s, A::draw_count() + B::draw_count() + C::draw_count() + D::draw_count() + E::draw_count() + F::draw_count() + G::draw_count() + H::draw_count() + I::draw_count() + J::draw_count(), K::draw_count());
        }
        (a, b, c, d, e, f, g, h, i, j, k)
    }
}

impl<A: RandomT, B: RandomT, C: RandomT, D: RandomT, E: RandomT, F: RandomT, G: RandomT, H: RandomT, I: RandomT, J: RandomT, K: RandomT, L: RandomT> RandomT for (A, B, C, D, E, F, G, H, I, J, K, L) {
    open spec fn draw_count() -> nat {
        A::draw_count() + B::draw_count() + C::draw_count() + D::draw_count() + E::draw_count() + F::draw_count() + G::draw_count() + H::draw_count() + I::draw_count() + J::draw_count() + K::draw_count() + L::draw_count()
    }

    open spec fn drawn(s: u64) -> (A, B, C, D, E, F, G, H, I, J, K, L) {
        let s1 = advance(s, A::draw_count());
        let s2 = advance(s1, B::draw_count());
        let s3 = advance(s2, C::draw_count());
        let s4 = advance(s3, D::draw_count());
        let s5 = advance(s4, E::draw_count());
        let s6 = advance(s5, F::draw_count());
        let s7 = advance(s6, G::draw_count());
        let s8 = advance(s7, H::draw_count());
        let s9 = advance(s8, I::draw_count());
        let s10 = advance(s9, J::draw_count());
        let s11 = advance(s10, K::draw_count());
        (A::drawn(s), B::drawn(s1), C::drawn(s2), D::drawn(s3), E::drawn(s4), F::drawn(s5), G::drawn(s6), H::drawn(s7), I::drawn(s8), J::drawn(s9), K::drawn(s10), L::drawn(s11))
    }

    fn random(r: &mut Random) -> (v: (A, B, C, D, E, F, G, H, I, J, K, L)) {
        let ghost s = r@;
        let a = A::random(r);
        let b = B::random(r);
        proof {
            lemma_advance_add(s, A::draw_count(), B::draw_count());
        }
        let c = C::random(r);
        proof {
            lemma_advance_add(s, A::draw_count() + B::draw_count(), C::draw_count());
        }
        let d = D::random(r);
        proof {
            lemma_advance_add(s, A::draw_count() + B::draw_count() + C::draw_count(), D::draw_count());
        }
        let e = E::random(r);
        proof {
            lemma_advance_add(s, A::draw_count() + B::draw_count() + C::draw_count() + D::draw_count(), E::draw_count());
        }
        let f = F::random(r);
        proof {
            lemma_advance_add(s, A::draw_count() + B::draw_count() + C::draw_count() + D::draw_count() + E::draw_count(), F::draw_count());
        }
        let g = G::random(r);
        proof {
            lemma_advance_add(s, A::draw_count() + B::draw_count() + C::draw_count() + D::draw_count() + E::draw_count() + F::draw_count(), G::draw_count());
        }
        let h = H::random(r);
        proof {
            lemma_advance_add(s, A::draw_count() + B::draw_count() + C::draw_count() + D::draw_count() + E::draw_count() + F::draw_count() + G::draw_count(), H::draw_count());
        }
        let i = I::random(r);
        proof {
            lemma_advance_add(s, A::draw_count() + B::draw_count() + C::draw_count() + D::draw_count() + E::draw_count() + F::draw_count() + G::draw_count() + H::draw_count(), I::draw_count());
        }
        let j = J::random(r);
        proof {
            lemma_advance_add(s, A::draw_count() + B::draw_count() + C::draw_count() + D::draw_count() + E::draw_count() + F::draw_count() + G::draw_count() + H::draw_count() + I::draw_count(), J::draw_count());
        }
        let k = K::random(r);
        proof {
            lemma_advance_add(s, A::draw_count() + B::draw_count() + C::draw_count() + D::draw_count() + E::draw_count() + F::draw_count() + G::draw_count() + H::draw_count() + I::draw_count() + J::draw_count(), K::draw_count());
        }
        let l = L::random(r);
        proof {
            lemma_advance_add(s, A::draw_count() + B::draw_count() + C::draw_count() + D::draw_count() + E::draw_count() + F::draw_count() + G::draw_count() + H::draw_count() + I::draw_count() + J::draw_count() + K::draw_count(), L::draw_count());
        }
        (a, b, c, d, e, f, g, h, i, j, k, l)
    }
}

/// An array is drawn slot by slot, from index 0 up.
impl<T: RandomT + Copy, const N: usize> RandomT for [T; N] {
    open spec fn draw_count() -> nat {
        N as nat * T::draw_count()
    }

    open spec fn drawn(s: u64) -> [T; N] {
        array_prefix::<T, N>(s, N as nat)
    }

    fn random(r: &mut Random) -> (v: [T; N]) {
        broadcast use vstd::array::group_array_axioms;

        let ghost s = r@;
        let ghost c = T::draw_count();
        let mut scratch = r.fork();
        let filler = T::random(&mut scratch);
        let mut a: [T; N] = [filler; N];
        let mut i: usize = 0;
        while i < N
            invariant
                0 <= i <= N,
                c == T::draw_count(),
                filler == T::drawn(s),
                r@ == advance(s, (i * c) as nat),
                forall|j: int| 0 <= j < i ==> a[j] == T::drawn(advance(s, (j * c) as nat)),
                forall|j: int| i <= j < N ==> a[j] == filler,
            decreases N - i,
        {
            let x = T::random(r);
            proof {
                lemma_advance_add(s, (i * c) as nat, c);
                assert((i + 1) * c == i * c + c) by (nonlinear_arith);
            }
            a[i] = x;
            i = i + 1;
        }
        proof {
            assert forall|j: int| 0 <= j < N implies a[j] == array_prefix::<T, N>(s, N as nat)[j] by {
                lemma_array_prefix::<T, N>(s, N as nat, j);
            }
            assert(a =~= array_prefix::<T, N>(s, N as nat));
        }
        a
    }
}

} // verus!
