//! Properties that relate several draws or several engines.
use vstd::prelude::*;
use crate::draw::{char_of_byte, is_scalar, RandomT};
use crate::engine::{advance, lemma_advance_add, lemma_advance_one, lemma_next_state_moves, next_state, Random};

verus! {

/// Two engines in the same state (two engines built from one seed, say)
/// draw the same value of any type and are left in the same state again, so
/// any sequence of draws asked of both gives the same values.
pub proof fn lemma_same_state_same_draw<T: RandomT>(a: Random, b: Random)
    requires
        a@ == b@,
    ensures
        T::drawn(a@) == T::drawn(b@),
        advance(a@, T::draw_count()) == advance(b@, T::draw_count()),
{
}

/// Every draw changes the state, so two consecutive draws never read the
/// same state word nor hand out the same raw word.
pub proof fn lemma_consecutive_draws_differ(s: u64)
    ensures
        advance(s, 1) != s,
        advance(advance(s, 1), 1) != advance(s, 1),
        <u64 as RandomT>::drawn(s) != <u64 as RandomT>::drawn(advance(s, 1)),
{
    lemma_advance_one(s);
    lemma_advance_one(next_state(s));
    lemma_next_state_moves(s);
    lemma_next_state_moves(next_state(s));
}

/// A 128-bit unsigned draw is the first of two 64-bit draws in the high
/// half and the second in the low half.
pub proof fn lemma_u128_from_two_u64(s: u64)
    ensures
        <u128 as RandomT>::drawn(s) == ((<u64 as RandomT>::drawn(s) as u128) << 64u32) | (
        <u64 as RandomT>::drawn(advance(s, <u64 as RandomT>::draw_count())) as u128),
{
    lemma_advance_one(s);
}

/// Slot `i` of an array draw is the `i`-th of as many draws of its element
/// type made one after another.
pub proof fn lemma_array_draws_in_order<T: RandomT + Copy, const N: usize>(s: u64, i: int)
    requires
        0 <= i < N,
    ensures
        <[T; N] as RandomT>::drawn(s)[i] == T::drawn(advance(s, (i * T::draw_count()) as nat)),
{
    crate::draw::lemma_array_prefix::<T, N>(s, N as nat, i);
}

/// A triple draw is three draws of its slot types made one after another,
/// from the left.
pub proof fn lemma_triple_draws_in_order<A: RandomT, B: RandomT, C: RandomT>(s: u64)
    ensures
        <(A, B, C) as RandomT>::drawn(s) == (
            A::drawn(s),
            B::drawn(advance(s, A::draw_count())),
            C::drawn(advance(s, A::draw_count() + B::draw_count())),
        ),
{
    lemma_advance_add(s, A::draw_count(), B::draw_count());
}

/// From seed 0 the engine never stays at the word 0: no two consecutive
/// states are both 0, however many draws are made.
pub proof fn lemma_zero_seed_never_stalls(n: nat)
    ensures
        !(advance(0, n) == 0 && advance(0, n + 1) == 0),
{
    lemma_advance_add(0, n, 1);
    lemma_advance_one(advance(0, n));
    lemma_next_state_moves(advance(0, n));
}

/// A character draw whose low byte is no Unicode scalar value gives a space.
pub proof fn lemma_char_fallback(s: u64)
    requires
        !is_scalar((next_state(s) as u8) as u32),
    ensures
        <char as RandomT>::drawn(s) == ' ',
{
}

/// Every byte is a Unicode scalar value, so a character draw is the low byte
/// of the raw word taken as a code point.
pub proof fn lemma_char_is_low_byte(s: u64)
    ensures
        is_scalar((next_state(s) as u8) as u32),
        <char as RandomT>::drawn(s) == ((next_state(s) as u8) as u32) as char,
{
}

} // verus!
