//! The block-model variant generator: the 48-bit linear congruential generator
//! of Java, seeded from a block position.

use vstd::arithmetic::power2::*;
use vstd::prelude::*;

verus! {

pub const MULTIPLIER: u64 = 25_214_903_917;

pub const INCREMENT: u64 = 11;

pub const MASK: u64 = 0xffff_ffff_ffff;

pub open spec fn is_two_power(value: int) -> bool {
    exists|e: nat| #[trigger] pow2(e) == value
}

/// Whether a number is two to some power.
fn is_power_of_two(value: u32) -> (yes: bool)
    ensures
        yes == is_two_power(value as int),
{
    let mut power: u64 = 1;
    let ghost mut e: nat = 0;
    proof {
        lemma2_to64();
    }
    while power < value as u64
        invariant
            0 < power < 0x2_0000_0000,
            power == pow2(e),
            forall|k: nat| k < e ==> #[trigger] pow2(k) < value,
        decreases 0x2_0000_0000 - power,
    {
        proof {
            lemma_pow2_unfold(e + 1);
        }
        power = power * 2;
        proof {
            e = e + 1;
        }
    }
    proof {
        if is_two_power(value as int) {
            let found = choose|k: nat| #[trigger] pow2(k) == value;
            if e < found {
                lemma_pow2_strictly_increases(e, found);
            }
        }
    }
    power == value as u64
}

/// The state that follows `seed`, of the 2^48 states.
pub open spec fn successor(seed: int) -> int {
    (seed * MULTIPLIER + INCREMENT) % 0x1_0000_0000_0000
}

/// The state after `n` steps from `seed`.
pub open spec fn after(seed: int, n: int) -> int
    decreases n,
{
    if n <= 0 {
        seed
    } else {
        successor(after(seed, n - 1))
    }
}

/// The top 31 bits of a state, the draw from which an integer is made.
pub open spec fn draw(state: int) -> int {
    state / 0x2_0000
}

/// Whether a draw lies in a whole run of `bound` values below 2^31, so that its
/// remainder is unbiased.
pub open spec fn unbiased(bits: int, bound: int) -> bool {
    bits - bits % bound + (bound - 1) < 0x8000_0000
}

/// `n` steps from `seed` comes the first state with an unbiased draw.
pub open spec fn first_unbiased(seed: int, bound: int, n: int) -> bool {
    &&& n >= 1
    &&& unbiased(draw(after(seed, n)), bound)
    &&& forall|k: int| 1 <= k < n ==> !unbiased(draw(#[trigger] after(seed, k)), bound)
}

/// How many steps it takes to the first unbiased draw.
pub open spec fn steps_to_unbiased(seed: int, bound: int) -> int {
    choose|n: int| first_unbiased(seed, bound, n)
}

/// The integer below `bound` that a state gives, and the state after it. There
/// is none for a bound that is zero or does not fit in an `i32`.
pub open spec fn next_int_result(seed: int, bound: int) -> (Option<int>, int) {
    if bound <= 0 || bound > i32::MAX {
        (None, seed)
    } else if is_two_power(bound) {
        (Some(bound * draw(successor(seed)) / 0x8000_0000), successor(seed))
    } else {
        let state = after(seed, steps_to_unbiased(seed, bound));
        (Some(draw(state) % bound), state)
    }
}

/// The hash of a block position whose upper bits are the position's seed.
pub open spec fn position_hash(x: i32, y: i32, z: i32) -> i64 {
    let mixed: i64 = (x.wrapping_mul(3_129_871) as i64) ^ (z as i64).wrapping_mul(116_129_781) ^ (
    y as i64);
    mixed.wrapping_mul(mixed).wrapping_mul(42_317_861).wrapping_add(mixed.wrapping_mul(11))
}

/// The seed of the block at a position.
pub fn model_position_seed(x: i32, y: i32, z: i32) -> (seed: i64)
    ensures
        seed == position_hash(x, y, z) >> 16u32,
{
    let mixed: i64 = (x.wrapping_mul(3_129_871) as i64) ^ (z as i64).wrapping_mul(116_129_781) ^ (
    y as i64);
    mixed.wrapping_mul(mixed).wrapping_mul(42_317_861).wrapping_add(mixed.wrapping_mul(11)) >> 16u32
}

/// The noise of a block column, by whose sign swamp grass picks its colour.
pub open spec fn column_noise(x: i32, z: i32) -> i64 {
    let seed: i64 = (x as i64).wrapping_mul(3_129_871) ^ (z as i64).wrapping_mul(116_129_781);
    seed.wrapping_mul(seed.wrapping_mul(42_317_861).wrapping_add(11))
}

pub fn position_noise(x: i32, z: i32) -> (noise: i64)
    ensures
        noise == column_noise(x, z),
{
    let seed: i64 = (x as i64).wrapping_mul(3_129_871) ^ (z as i64).wrapping_mul(116_129_781);
    seed.wrapping_mul(seed.wrapping_mul(42_317_861).wrapping_add(11))
}

/// One generator is reset per block and drawn from once by each weighted model
/// group.
#[derive(Clone, Copy, Debug, PartialEq, Eq, Structural)]
pub struct ModelVariantRandom {
    pub seed: u64,
}

impl ModelVariantRandom {
    /// The state fits in 48 bits.
    pub open spec fn well_formed(self) -> bool {
        self.seed <= MASK
    }

    pub fn at_position(x: i32, y: i32, z: i32) -> (random: Self)
        ensures
            random.well_formed(),
            random.seed == (((position_hash(x, y, z) >> 16u32) as u64) ^ MULTIPLIER) & MASK,
    {
        let position_seed: i64 = model_position_seed(x, y, z);
        let scrambled: u64 = (position_seed as u64) ^ MULTIPLIER;
        assert(scrambled & 0xffff_ffff_ffff <= 0xffff_ffff_ffff) by (bit_vector);
        ModelVariantRandom { seed: scrambled & MASK }
    }

    /// Steps the generator and returns the top `bits` bits of its new state.
    pub fn next(&mut self, bits: u32) -> (drawn: u32)
        requires
            old(self).well_formed(),
            bits <= 48,
        ensures
            final(self).well_formed(),
            final(self).seed == successor(old(self).seed as int),
            drawn == (final(self).seed >> ((48 - bits) as u32)) as u32,
            bits == 31 ==> drawn == draw(successor(old(self).seed as int)) && drawn < 0x8000_0000,
    {
        let product: u64 = self.seed.wrapping_mul(MULTIPLIER);
        let sum: u64 = product.wrapping_add(INCREMENT);
        proof {
            let exact = self.seed * MULTIPLIER;
            assert(product == (self.seed as nat * MULTIPLIER as nat) % 0x1_0000_0000_0000_0000);
            lemma_masked_sum(exact, product as int, sum as int);
            assert(sum & 0xffff_ffff_ffff == sum % 0x1_0000_0000_0000u64) by (bit_vector);
        }
        self.seed = sum & MASK;
        proof {
            let state = self.seed;
            assert(state >> 17u32 == state / 0x2_0000u64) by (bit_vector);
            assert(state <= 0xffff_ffff_ffff ==> (state >> 17u32) <= 0x7fff_ffff) by (bit_vector);
        }
        (self.seed >> (48 - bits)) as u32
    }

    /// An integer below `bound`: scaled from one draw where `bound` is a power
    /// of two, and else the remainder of the first unbiased draw.
    pub fn next_int(&mut self, bound: u32) -> (value: Option<u32>)
        requires
            old(self).well_formed(),
        ensures
            final(self).well_formed(),
            ({
                let (drawn, state) = next_int_result(old(self).seed as int, bound as int);
                &&& final(self).seed == state
                &&& match value {
                    Some(v) => drawn == Some(v as int),
                    None => drawn is None,
                }
            }),
            0 < bound <= i32::MAX && !is_two_power(bound as int) ==> first_unbiased(
                old(self).seed as int,
                bound as int,
                steps_to_unbiased(old(self).seed as int, bound as int),
            ),
            value matches Some(v) ==> v < bound,
    {
        if bound == 0 || bound > 0x7fff_ffff {
            return None;
        }
        if is_power_of_two(bound) {
            let drawn: u32 = self.next(31);
            proof {
                assert(0 <= bound * drawn <= 0x7fff_ffff * 0x7fff_ffff) by (nonlinear_arith)
                    requires
                        0 <= bound <= 0x7fff_ffff,
                        0 <= drawn <= 0x7fff_ffff,
                ;
            }
            let product: u64 = bound as u64 * drawn as u64;
            assert(product >> 31u32 == product / 0x8000_0000u64) by (bit_vector);
            assert(bound * drawn < bound * 0x8000_0000) by (nonlinear_arith)
                requires
                    0 < bound,
                    drawn < 0x8000_0000,
            ;
            return Some((product >> 31u32) as u32);
        }
        let ghost start = self.seed as int;
        let ghost mut n: int = 0;
        loop
            invariant
                self.well_formed(),
                start == old(self).seed,
                0 <= start < 0x1_0000_0000_0000,
                !is_two_power(bound as int),
                n >= 0,
                0 < bound <= 0x7fff_ffff,
                self.seed == after(start, n),
                forall|k: int|
                    1 <= k <= n ==> !unbiased(draw(#[trigger] after(start, k)), bound as int),
            decreases 0x8000_0000_0001 - n,
        {
            proof {
                lemma_draws_end(start, bound as int, n);
            }
            let bits: u32 = self.next(31);
            proof {
                n = n + 1;
            }
            if draw_is_unbiased(bits, bound) {
                proof {
                    assert(first_unbiased(start, bound as int, n));
                    lemma_first_unbiased_unique(
                        start,
                        bound as int,
                        n,
                        steps_to_unbiased(start, bound as int),
                    );
                    vstd::arithmetic::div_mod::lemma_mod_bound(bits as int, bound as int);
                }
                return Some(bits % bound);
            }
        }
    }
}

fn draw_is_unbiased(bits: u32, bound: u32) -> (yes: bool)
    requires
        bits < 0x8000_0000,
        0 < bound <= 0x7fff_ffff,
    ensures
        yes == unbiased(bits as int, bound as int),
{
    proof {
        vstd::arithmetic::div_mod::lemma_mod_bound(bits as int, bound as int);
        vstd::arithmetic::div_mod::lemma_mod_decreases(bits as nat, bound as nat);
    }
    let value: u32 = bits % bound;
    (bits - value) as u64 + (bound - 1) as u64 <= 0x7fff_ffffu64
}

proof fn lemma_masked_sum(exact: int, product: int, sum: int)
    requires
        exact >= 0,
        product == exact % 0x1_0000_0000_0000_0000,
        sum == product + INCREMENT || sum == product + INCREMENT - 0x1_0000_0000_0000_0000,
    ensures
        sum % 0x1_0000_0000_0000 == (exact + INCREMENT) % 0x1_0000_0000_0000,
{
}

proof fn lemma_draws_end(seed: int, bound: int, n: int)
    requires
        0 <= seed < 0x1_0000_0000_0000,
        0 < bound <= 0x7fff_ffff,
        forall|k: int| 1 <= k <= n ==> !unbiased(draw(#[trigger] after(seed, k)), bound),
    ensures
        n <= 0x8000_0000_0000,
{
    lemma_unbiased_draw_comes(seed, bound);
    if n >= 0x8000_0000_0001 {
        assert(!unbiased(draw(after(seed, 1)), bound));
        assert(!unbiased(draw(after(seed, 0x8000_0000_0001)), bound));
    }
}

proof fn lemma_first_unbiased_unique(seed: int, bound: int, m: int, n: int)
    requires
        first_unbiased(seed, bound, m),
        first_unbiased(seed, bound, n),
    ensures
        m == n,
{
    if m < n {
        assert(!unbiased(draw(after(seed, m)), bound));
    }
    if n < m {
        assert(!unbiased(draw(after(seed, n)), bound));
    }
}

/// The state after `n` steps, before reduction.
spec fn raw(seed: int, n: int) -> int
    decreases n,
{
    if n <= 0 {
        seed
    } else {
        raw(seed, n - 1) * MULTIPLIER + INCREMENT
    }
}

/// The factor and the summand of 2^k steps at once, before reduction.
spec fn jump(k: nat) -> (int, int)
    decreases k,
{
    if k == 0 {
        (MULTIPLIER as int, INCREMENT as int)
    } else {
        let (factor, summand) = jump((k - 1) as nat);
        (factor * factor, factor * summand + summand)
    }
}

proof fn lemma_after_is_raw(seed: int, n: int)
    requires
        0 <= seed < 0x1_0000_0000_0000,
    ensures
        after(seed, n) == raw(seed, n) % 0x1_0000_0000_0000,
    decreases n,
{
    if n > 0 {
        lemma_after_is_raw(seed, n - 1);
        let value = raw(seed, n - 1);
        let m: int = 0x1_0000_0000_0000;
        let quotient = value / m;
        assert(value == m * quotient + value % m);
        assert(value * MULTIPLIER == m * (quotient * MULTIPLIER) + (value % m) * MULTIPLIER)
            by (nonlinear_arith)
            requires
                value == m * quotient + value % m,
        ;
        vstd::arithmetic::div_mod::lemma_mod_multiples_vanish(
            quotient * MULTIPLIER,
            (value % m) * MULTIPLIER + INCREMENT,
            m,
        );
    }
}

proof fn lemma_raw_adds(seed: int, m: int, n: int)
    requires
        m >= 0,
        n >= 0,
    ensures
        raw(seed, m + n) == raw(raw(seed, m), n),
    decreases n,
{
    if n > 0 {
        lemma_raw_adds(seed, m, n - 1);
    }
}

proof fn lemma_raw_jumps(seed: int, k: nat)
    ensures
        raw(seed, pow2(k) as int) == jump(k).0 * seed + jump(k).1,
    decreases k,
{
    lemma_pow2_pos(k);
    if k == 0 {
        lemma2_to64();
        reveal_with_fuel(raw, 2);
    } else {
        let half = pow2((k - 1) as nat) as int;
        lemma_pow2_unfold(k);
        lemma_pow2_pos((k - 1) as nat);
        lemma_raw_adds(seed, half, half);
        lemma_raw_jumps(seed, (k - 1) as nat);
        lemma_raw_jumps(raw(seed, half), (k - 1) as nat);
        let (factor, summand) = jump((k - 1) as nat);
        assert(factor * (factor * seed + summand) + summand == (factor * factor) * seed + (factor
            * summand + summand)) by (nonlinear_arith);
    }
}

/// The factor of 2^k steps is one more than a multiple of 2^(k+2), and the
/// summand is an odd multiple of 2^k.
proof fn lemma_jump_shape(k: nat) -> (shape: (int, int))
    ensures
        jump(k).0 == 1 + pow2(k) * (4 * shape.0),
        jump(k).1 == pow2(k) * (1 + 2 * shape.1),
    decreases k,
{
    if k == 0 {
        lemma2_to64();
        (6_303_725_979, 5)
    } else {
        let (u, v) = lemma_jump_shape((k - 1) as nat);
        let p = pow2((k - 1) as nat) as int;
        let (factor, summand) = jump((k - 1) as nat);
        lemma_pow2_unfold(k);
        assert(factor * factor == 1 + (2 * p) * (4 * (u + 2 * (p * (u * u))))) by (nonlinear_arith)
            requires
                factor == 1 + p * (4 * u),
        ;
        assert(factor * summand + summand == (2 * p) * (1 + 2 * (v + p * u + 2 * (p * (u * v)))))
            by (nonlinear_arith)
            requires
                factor == 1 + p * (4 * u),
                summand == p * (1 + 2 * v),
        ;
        (u + 2 * (p * (u * u)), v + p * u + 2 * (p * (u * v)))
    }
}

/// Half of the states apart, the top bit of the state is flipped and the others
/// are the same: the generator runs through all 2^48 states.
pub proof fn lemma_half_period(seed: int)
    requires
        0 <= seed < 0x1_0000_0000_0000,
    ensures
        after(seed, 0x8000_0000_0000) == (seed + 0x8000_0000_0000) % 0x1_0000_0000_0000,
{
    let half: int = 0x8000_0000_0000;
    let m: int = 0x1_0000_0000_0000;
    lemma2_to64_rest();
    assert(pow2(47) == half);
    lemma_after_is_raw(seed, half);
    lemma_raw_jumps(seed, 47);
    let (u, v) = lemma_jump_shape(47);
    let (factor, summand) = jump(47);
    assert(factor * seed + summand == m * (2 * (u * seed) + v) + (seed + half)) by (nonlinear_arith)
        requires
            factor == 1 + half * (4 * u),
            summand == half * (1 + 2 * v),
            m == 2 * half,
    ;
    vstd::arithmetic::div_mod::lemma_mod_multiples_vanish(
        2 * (u * seed) + v,
        seed + half,
        m,
    );
}

proof fn lemma_after_adds(seed: int, m: int, n: int)
    requires
        m >= 0,
        n >= 0,
    ensures
        after(seed, m + n) == after(after(seed, m), n),
    decreases n,
{
    if n > 0 {
        lemma_after_adds(seed, m, n - 1);
    }
}

/// Of any two draws that are half of the states apart one is unbiased, so
/// drawing until an unbiased draw comes always ends.
pub proof fn lemma_unbiased_draw_comes(seed: int, bound: int)
    requires
        0 <= seed < 0x1_0000_0000_0000,
        0 < bound <= 0x7fff_ffff,
    ensures
        unbiased(draw(after(seed, 1)), bound) || unbiased(
            draw(after(seed, 0x8000_0000_0001)),
            bound,
        ),
{
    let half: int = 0x8000_0000_0000;
    reveal_with_fuel(after, 2);
    let first = after(seed, 1);
    assert(0 <= first < 0x1_0000_0000_0000);
    lemma_half_period(first);
    lemma_after_adds(seed, 1, half);
    let second = after(seed, half + 1);
    let low = if first < half {
        first
    } else {
        second
    };
    assert(0 <= low < half);
    let bits = draw(low);
    assert(0 <= bits < 0x4000_0000);
    if bound > 0x4000_0000 {
        vstd::arithmetic::div_mod::lemma_small_mod(bits as nat, bound as nat);
    } else {
        vstd::arithmetic::div_mod::lemma_mod_bound(bits, bound);
    }
    assert(unbiased(bits, bound));
}

/// The random numbers are those of a linear congruential generator with 48 bits: two
/// seeds that differ lead to seeds that differ by 0x5deece66d times as much, and the
/// seed after nought is eleven.
pub proof fn lemma_seeds_follow_each_other(seed: int, distance: int)
    ensures
        successor(0) == 11,
        (successor(seed + distance) - successor(seed) - 0x5_deec_e66d * distance)
            % 0x1_0000_0000_0000 == 0,
        0 <= successor(seed) < 0x1_0000_0000_0000,
{
    let modulus = 0x1_0000_0000_0000int;
    let a = seed * MULTIPLIER + INCREMENT;
    let b = (seed + distance) * MULTIPLIER + INCREMENT;
    assert(b - a == MULTIPLIER * distance) by (nonlinear_arith)
        requires
            a == seed * MULTIPLIER + INCREMENT,
            b == (seed + distance) * MULTIPLIER + INCREMENT,
    ;
    vstd::arithmetic::div_mod::lemma_fundamental_div_mod(a, modulus);
    vstd::arithmetic::div_mod::lemma_fundamental_div_mod(b, modulus);
    let difference = b % modulus - a % modulus - MULTIPLIER * distance;
    let turns = a / modulus - b / modulus;
    assert(difference == modulus * turns) by (nonlinear_arith)
        requires
            a == modulus * (a / modulus) + a % modulus,
            b == modulus * (b / modulus) + b % modulus,
            b - a == MULTIPLIER * distance,
            difference == b % modulus - a % modulus - MULTIPLIER * distance,
            turns == a / modulus - b / modulus,
    ;
    vstd::arithmetic::div_mod::lemma_mod_multiples_basic(turns, modulus);
    assert(turns * modulus == modulus * turns) by (nonlinear_arith);
}

/// What is drawn are the 31 highest bits of the seed.
pub proof fn lemma_draws_are_the_highest_bits(state: int)
    requires
        0 <= state < 0x1_0000_0000_0000,
    ensures
        0 <= draw(state) < 0x8000_0000,
        draw(state) * 0x2_0000 <= state < (draw(state) + 1) * 0x2_0000,
{
}

/// A number is drawn below its bound, and none where there is no room below it.
pub proof fn lemma_numbers_are_drawn_below_their_bound(seed: int, bound: int)
    requires
        0 <= seed < 0x1_0000_0000_0000,
    ensures
        next_int_result(seed, bound).0 is Some <==> 0 < bound <= 0x7fff_ffff,
        next_int_result(seed, bound).0 is None ==> next_int_result(seed, bound).1 == seed,
        next_int_result(seed, bound).0 matches Some(drawn) ==> 0 <= drawn < bound,
        0 < bound <= 0x7fff_ffff && is_two_power(bound) ==> {
            let next = successor(seed);
            let drawn = next_int_result(seed, bound).0->Some_0;
            &&& next_int_result(seed, bound).1 == next
            &&& drawn * 0x8000_0000 <= bound * draw(next) < (drawn + 1) * 0x8000_0000
        },
{
    if 0 < bound <= 0x7fff_ffff {
        if is_two_power(bound) {
            let next = successor(seed);
            lemma_draws_are_the_highest_bits(next);
            let product = bound * draw(next);
            assert(0 <= product < bound * 0x8000_0000) by (nonlinear_arith)
                requires
                    product == bound * draw(next),
                    0 <= draw(next) < 0x8000_0000,
                    0 < bound,
            ;
        } else {
            let state = after(seed, steps_to_unbiased(seed, bound));
            vstd::arithmetic::div_mod::lemma_mod_bound(draw(state), bound);
        }
    }
}

/// A draw is used only where all numbers below the bound are as likely: the draws from the
/// last multiple of the bound on are left out.
pub proof fn lemma_last_draws_are_left_out(bits: int, bound: int)
    requires
        0 < bound,
        0 <= bits,
    ensures
        unbiased(bits, bound) <==> bound * (bits / bound) + bound <= 0x8000_0000,
{
    vstd::arithmetic::div_mod::lemma_fundamental_div_mod(bits, bound);
}

/// The seed of a place is a mixture of its coordinates, each with a factor of its own.
pub proof fn lemma_places_are_mixed(x: i32, y: i32, z: i32)
    ensures
        ({
            let mixed = (x.wrapping_mul(3_129_871) as i64) ^ (z as i64).wrapping_mul(116_129_781)
                ^ (y as i64);
            position_hash(x, y, z) == mixed.wrapping_mul(mixed).wrapping_mul(
                42_317_861,
            ).wrapping_add(mixed.wrapping_mul(11))
        }),
        ({
            let mixed = (x as i64).wrapping_mul(3_129_871) ^ (z as i64).wrapping_mul(116_129_781);
            column_noise(x, z) == mixed.wrapping_mul(
                mixed.wrapping_mul(42_317_861).wrapping_add(11),
            )
        }),
{
}

} // verus!
