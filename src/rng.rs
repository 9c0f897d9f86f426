//! A small, fast random number generator for the game, handed explicitly to
//! whatever draws numbers from it.

use vstd::prelude::*;
use rand::rngs::OsRng;
use rand::{Rng, RngCore, SeedableRng};
use rand_xorshift::XorShiftRng;

verus! {

#[verifier::external_type_specification]
#[verifier::external_body]
pub struct ExXorShiftRng(XorShiftRng);

#[verifier::external_type_specification]
#[verifier::external_body]
pub struct ExRandError(rand::Error);

/// The generator that `SeedableRng::from_seed` of `XorShiftRng` builds from
/// a 16-byte seed.
pub uninterp spec fn xorshift_from_seed_bytes(seed: Seq<u8>) -> XorShiftRng;

/// The generator that `SeedableRng::seed_from_u64` of `XorShiftRng` builds
/// from `state`.
pub uninterp spec fn xorshift_seeded(state: u64) -> XorShiftRng;

/// The number that `RngCore::next_u32` of `XorShiftRng` returns from state
/// `s`.
pub uninterp spec fn xorshift_output(s: XorShiftRng) -> u32;

/// The state that `RngCore::next_u32` of `XorShiftRng` leaves behind from
/// state `s`.
pub uninterp spec fn xorshift_advance(s: XorShiftRng) -> XorShiftRng;

/// Relies on `SeedableRng::from_seed` of `XorShiftRng`: the generator is a
/// function of the seed alone.
#[verifier::external_body]
fn xorshift_from_seed(seed: [u8; 16]) -> (r: XorShiftRng)
    ensures
        r == xorshift_from_seed_bytes(seed@),
{
    XorShiftRng::from_seed(seed)
}

/// Relies on `SeedableRng::seed_from_u64` of `XorShiftRng`: the generator is
/// a function of `state` alone.
#[verifier::external_body]
fn xorshift_seed_from_u64(state: u64) -> (r: XorShiftRng)
    ensures
        r == xorshift_seeded(state),
{
    XorShiftRng::seed_from_u64(state)
}

/// Relies on `SeedableRng::from_rng` of `XorShiftRng` fed by `OsRng`: a
/// generator seeded from the operating system's entropy, or the error met
/// while drawing the seed.
#[verifier::external_body]
fn xorshift_from_os_rng() -> Result<XorShiftRng, rand::Error> {
    XorShiftRng::from_rng(OsRng)
}

/// Relies on `RngCore::next_u32` of `XorShiftRng`: the number returned and
/// the state left behind are functions of the state before the call alone.
#[verifier::external_body]
fn xorshift_next_u32(rng: &mut XorShiftRng) -> (r: u32)
    ensures
        r == xorshift_output(*old(rng)),
        *final(rng) == xorshift_advance(*old(rng)),
{
    rng.next_u32()
}

/// Relies on `Rng::gen_range` (rand 0.7): a number in `[low, high)`; it
/// panics where `low >= high`.
#[verifier::external_body]
fn xorshift_gen_range(rng: &mut XorShiftRng, low: i32, high: i32) -> (r: i32)
    requires
        low < high,
    ensures
        low <= r < high,
{
    rng.gen_range(low, high)
}

/// The game's random number generator.
#[derive(Debug)]
pub struct GameRng {
    rng: XorShiftRng,
}

impl GameRng {
    /// The state of the underlying generator.
    pub closed spec fn state(&self) -> XorShiftRng {
        self.rng
    }
}

/// The first `k` numbers that `next_u32` returns from state `s`.
pub open spec fn stream(s: XorShiftRng, k: nat) -> Seq<u32>
    decreases k,
{
    if k == 0 {
        Seq::empty()
    } else {
        seq![xorshift_output(s)] + stream(xorshift_advance(s), (k - 1) as nat)
    }
}

/// The seed of a reproducible stream.
pub const FIXED_SEED: u64 = 0x7275696e730a;

/// A generator in its initial state, seeded with sixteen zero bytes.
pub fn get_rng() -> (r: GameRng)
    ensures
        r.state() == xorshift_from_seed_bytes(Seq::new(16, |i: int| 0u8)),
{
    let seed: [u8; 16] = [0u8; 16];
    assert(seed@ =~= Seq::new(16, |i: int| 0u8));
    GameRng { rng: xorshift_from_seed(seed) }
}

/// Reseeds the generator: with a fixed seed where `fixed`, which gives the
/// same stream every time, and otherwise from the system's entropy. The
/// result is false, and the generator unchanged, where no entropy could be
/// had.
pub fn reseed(rng: &mut GameRng, fixed: bool) -> (r: bool)
    ensures
        fixed ==> r,
        fixed ==> final(rng).state() == xorshift_seeded(FIXED_SEED),
        !r ==> *final(rng) == *old(rng),
{
    if fixed {
        rng.rng = xorshift_seed_from_u64(FIXED_SEED);
        true
    } else {
        match xorshift_from_os_rng() {
            Ok(new_rng) => {
                rng.rng = new_rng;
                true
            },
            Err(_) => false,
        }
    }
}

/// Two generators reseeded with the fixed seed give the same stream of
/// numbers, however many are drawn.
pub proof fn lemma_fixed_reseed_reproducible(a: GameRng, b: GameRng, k: nat)
    requires
        a.state() == xorshift_seeded(FIXED_SEED),
        b.state() == xorshift_seeded(FIXED_SEED),
    ensures
        stream(a.state(), k) == stream(b.state(), k),
        stream(a.state(), k).len() == k,
{
    lemma_stream_len(a.state(), k);
}

proof fn lemma_stream_len(s: XorShiftRng, k: nat)
    ensures
        stream(s, k).len() == k,
    decreases k,
{
    if k > 0 {
        lemma_stream_len(xorshift_advance(s), (k - 1) as nat);
    }
}

/// The next number of the stream.
pub fn next_u32(rng: &mut GameRng) -> (r: u32)
    ensures
        r == xorshift_output(old(rng).state()),
        final(rng).state() == xorshift_advance(old(rng).state()),
{
    xorshift_next_u32(&mut rng.rng)
}

/// A number in `[low, high)`.
pub fn gen_range(rng: &mut GameRng, low: i32, high: i32) -> (r: i32)
    requires
        low < high,
    ensures
        low <= r < high,
{
    xorshift_gen_range(&mut rng.rng, low, high)
}

/// The sum of a sequence of numbers.
pub open spec fn seq_sum(s: Seq<i32>) -> int
    decreases s.len(),
{
    if s.len() == 0 {
        0
    } else {
        seq_sum(s.drop_last()) + s.last()
    }
}

/// The sum of rolls of a die with faces `1..=x`.
pub fn sum_rolls(rolls: &Vec<i32>, x: i32) -> (r: i32)
    requires
        1 <= x,
        forall|i: int| 0 <= i < rolls@.len() ==> 1 <= #[trigger] rolls@[i] <= x,
        rolls@.len() * x <= i32::MAX,
    ensures
        r == seq_sum(rolls@),
        rolls@.len() <= r <= rolls@.len() * x,
{
    let mut sum: i32 = 0;
    let mut i: usize = 0;
    while i < rolls.len()
        invariant
            1 <= x,
            forall|j: int| 0 <= j < rolls@.len() ==> 1 <= #[trigger] rolls@[j] <= x,
            rolls@.len() * x <= i32::MAX,
            i <= rolls@.len(),
            sum == seq_sum(rolls@.take(i as int)),
            i <= sum <= i * x,
        decreases rolls@.len() - i,
    {
        proof {
            assert((i + 1) * x <= rolls@.len() * x) by (nonlinear_arith)
                requires
                    i + 1 <= rolls@.len(),
                    1 <= x,
            ;
            assert((i + 1) * x == i * x + x) by (nonlinear_arith);
            assert(rolls@.take(i + 1).drop_last() =~= rolls@.take(i as int));
        }
        sum = sum + rolls[i];
        i = i + 1;
    }
    assert(rolls@.take(i as int) =~= rolls@);
    sum
}

/// The sum of `n` rolls of a die with faces `1..=x`, drawn from `rng`; 0,
/// with nothing drawn, where `n` is not positive.
pub fn dice(rng: &mut GameRng, n: i32, x: i32) -> (r: i32)
    requires
        n > 0 ==> 1 <= x < i32::MAX && n * x <= i32::MAX,
    ensures
        n <= 0 ==> r == 0 && *final(rng) == *old(rng),
        n > 0 ==> n <= r <= n * x,
{
    if n <= 0 {
        return 0;
    }
    let mut rolls: Vec<i32> = Vec::new();
    let mut k: i32 = 0;
    while k < n
        invariant
            1 <= x < i32::MAX,
            0 <= k <= n,
            rolls@.len() == k,
            forall|j: int| 0 <= j < rolls@.len() ==> 1 <= #[trigger] rolls@[j] <= x,
        decreases n - k,
    {
        let roll = gen_range(rng, 1, x + 1);
        rolls.push(roll);
        k = k + 1;
    }
    sum_rolls(&rolls, x)
}

} // verus!
