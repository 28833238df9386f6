use vstd::prelude::*;
use vstd::wrapping::u64_specs;

verus! {

/// Increment between two successive states of a generator.
pub const GOLDEN_GAMMA: u64 = 0x9e37_79b9_7f4a_7c15;

pub const MIX_A: u64 = 0xbf58_476d_1ce4_e5b9;

pub const MIX_B: u64 = 0x94d0_49bb_1331_11eb;

/// The finaliser that turns a state into a well-spread value.
pub open spec fn mix(z: u64) -> u64 {
    let z1 = u64_specs::wrapping_mul(z ^ (z >> 30u64), MIX_A);
    let z2 = u64_specs::wrapping_mul(z1 ^ (z1 >> 27u64), MIX_B);
    z2 ^ (z2 >> 31u64)
}

/// The state that follows `s`.
pub open spec fn advance(s: u64) -> u64 {
    u64_specs::wrapping_add(s, GOLDEN_GAMMA)
}

/// The `n` values that a wheel seeded with `s` hands out, in order.
pub open spec fn wheel_values(s: u64, n: nat) -> Seq<u64>
    decreases n,
{
    if n == 0 {
        Seq::empty()
    } else {
        seq![mix(advance(s))] + wheel_values(advance(s), (n - 1) as nat)
    }
}

/// A wheel of length `n` hands out exactly `n` values.
pub proof fn lemma_wheel_len(s: u64, n: nat)
    ensures
        wheel_values(s, n).len() == n,
    decreases n,
{
    if n > 0 {
        lemma_wheel_len(advance(s), (n - 1) as nat);
    }
}

/// The one value that a scalar generator seeded with `seed` hands out.
pub open spec fn scalar_value(seed: u64) -> u64 {
    mix(advance(seed))
}

/// The index that a value picks in a list of `len` items.
pub open spec fn reduce(value: u64, len: nat) -> nat
    recommends
        len > 0,
{
    (value as nat) % len
}

fn mix_exec(z: u64) -> (r: u64)
    ensures
        r == mix(z),
{
    let z1 = (z ^ (z >> 30u64)).wrapping_mul(MIX_A);
    let z2 = (z1 ^ (z1 >> 27u64)).wrapping_mul(MIX_B);
    z2 ^ (z2 >> 31u64)
}

/// A finite run of pseudo-random values. It cannot be rewound: a new run
/// needs a new wheel.
pub struct RNGWheel {
    state: u64,
    remaining: usize,
}

impl RNGWheel {
    /// What is still to come out of the wheel.
    pub closed spec fn pending(&self) -> Seq<u64> {
        wheel_values(self.state, self.remaining as nat)
    }

    pub fn new(length: usize, seed: u64) -> (w: RNGWheel)
        ensures
            w.pending() == wheel_values(seed, length as nat),
    {
        RNGWheel { state: seed, remaining: length }
    }

    pub fn next_value(&mut self) -> (r: Option<u64>)
        ensures
            old(self).pending().len() == 0 ==> r is None && final(self).pending().len() == 0,
            old(self).pending().len() > 0 ==> r == Some(old(self).pending()[0])
                && final(self).pending() == old(self).pending().drop_first(),
    {
        if self.remaining == 0 {
            None
        } else {
            let ghost before = self.pending();
            self.state = self.state.wrapping_add(GOLDEN_GAMMA);
            self.remaining = self.remaining - 1;
            proof {
                assert(before == seq![mix(self.state)] + self.pending());
                assert(before.drop_first() =~= self.pending());
            }
            Some(mix_exec(self.state))
        }
    }
}

/// A generator of single values that is seeded afresh before every draw.
pub struct RNG {
    state: u64,
}

impl RNG {
    pub closed spec fn current(&self) -> u64 {
        self.state
    }

    pub fn new() -> (r: RNG)
        ensures
            r.current() == 0,
    {
        RNG { state: 0 }
    }

    /// Starts the generator over from `entropy`, forgetting earlier state.
    pub fn seed(&mut self, entropy: u64)
        ensures
            final(self).current() == entropy,
    {
        self.state = entropy;
    }

    pub fn get(&mut self) -> (r: u64)
        ensures
            r == scalar_value(old(self).current()),
            final(self).current() == advance(old(self).current()),
    {
        self.state = self.state.wrapping_add(GOLDEN_GAMMA);
        mix_exec(self.state)
    }
}

/// The seed that follows `s`, for a second independent draw.
pub fn next_seed(s: u64) -> (r: u64)
    ensures
        r == advance(s),
{
    s.wrapping_add(GOLDEN_GAMMA)
}

/// Reduces a drawn value to an index into a list of `len` items.
pub fn pick_index(value: u64, len: usize) -> (i: usize)
    requires
        len > 0,
    ensures
        i < len,
        i as nat == reduce(value, len as nat),
{
    (value % (len as u64)) as usize
}

/// Every value reduces to an index inside the list.
pub proof fn lemma_reduce_in_range(value: u64, len: nat)
    requires
        len > 0,
    ensures
        reduce(value, len) < len,
{
}

} // verus!
