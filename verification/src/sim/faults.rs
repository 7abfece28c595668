//! Faults of the simulated network: lost messages, late messages, severed pairs of shards.

use vstd::prelude::*;

use crate::idmap::{IdMap, Key};
use crate::ShardId;
use crate::sim::{Lcg64, lcg_next};

verus! {

/// The number of values that a draw of the random generator can have.
pub const DRAWS: u32 = 0x8000_0000;

/// A pair of shards, in no order.
#[derive(Clone, Copy, Debug, PartialEq, Eq, Structural)]
pub struct ShardPair {
    low: u64,
    high: u64,
}

impl Key for ShardPair {
    closed spec fn code(self) -> u128 {
        (self.low * 0x1_0000_0000_0000_0000 + self.high) as u128
    }

    fn to_code(self) -> (code: u128) {
        self.low as u128 * 0x1_0000_0000_0000_0000 + self.high as u128
    }

    fn from_code(code: u128) -> (key: Option<Self>) {
        Some(
            ShardPair {
                low: (code / 0x1_0000_0000_0000_0000) as u64,
                high: (code % 0x1_0000_0000_0000_0000) as u64,
            },
        )
    }

    proof fn code_injective(a: Self, b: Self) {
    }
}

/// The pair of two shards.
pub closed spec fn pair_of(a: ShardId, b: ShardId) -> ShardPair {
    if a.0 <= b.0 {
        ShardPair { low: a.0, high: b.0 }
    } else {
        ShardPair { low: b.0, high: a.0 }
    }
}

/// A pair has no order, and is made of its two shards.
pub proof fn law_pair_has_no_order(a: ShardId, b: ShardId, c: ShardId, d: ShardId)
    ensures
        pair_of(a, b) == pair_of(b, a),
        pair_of(a, b) == pair_of(c, d) <==> (a == c && b == d) || (a == d && b == c),
{
}

fn shard_pair(a: ShardId, b: ShardId) -> (pair: ShardPair)
    ensures
        pair == pair_of(a, b),
{
    if a.0 <= b.0 {
        ShardPair { low: a.0, high: b.0 }
    } else {
        ShardPair { low: b.0, high: a.0 }
    }
}

/// What goes wrong on the network.
#[derive(Debug)]
pub struct FaultPolicy {
    /// How many of the `DRAWS` values of a draw mean that a message is lost.
    pub drop_threshold: u32,
    /// The most ticks that a message takes; 0 for delivery on the next tick.
    pub max_delay_ticks: u32,
    /// The pairs between which nothing gets through.
    pub partitioned: IdMap<ShardPair, ()>,
}

/// The mathematical content of a [`FaultPolicy`].
pub struct Faults {
    pub drop_threshold: u32,
    pub max_delay_ticks: u32,
    /// The pairs between which nothing gets through.
    pub severed: Set<ShardPair>,
}

impl View for FaultPolicy {
    type V = Faults;

    open spec fn view(&self) -> Faults {
        Faults {
            drop_threshold: self.drop_threshold,
            max_delay_ticks: self.max_delay_ticks,
            severed: self.partitioned@.dom(),
        }
    }
}

/// A network on which nothing goes wrong.
pub open spec fn no_faults() -> Faults {
    Faults { drop_threshold: 0, max_delay_ticks: 0, severed: Set::empty() }
}

/// The ticks that a message takes, with the random generator at `state`; and the generator's
/// state after that.
pub open spec fn sampled_delay(faults: Faults, state: u64) -> (u32, u64) {
    if faults.max_delay_ticks == 0 {
        (1, state)
    } else {
        let x = lcg_next(state);
        ((1 + (x as int % 0x1_0000_0000) % faults.max_delay_ticks as int) as u32, x)
    }
}

impl Default for FaultPolicy {
    fn default() -> (faults: Self)
        ensures
            faults@ == no_faults(),
    {
        let faults = FaultPolicy {
            drop_threshold: 0,
            max_delay_ticks: 0,
            partitioned: IdMap::new(),
        };
        assert(faults@.severed =~= Set::empty());
        faults
    }
}

impl FaultPolicy {
    pub fn new() -> (faults: Self)
        ensures
            faults@ == no_faults(),
    {
        FaultPolicy::default()
    }

    /// A network on which nothing goes wrong.
    pub fn perfect() -> (faults: Self)
        ensures
            faults@ == no_faults(),
    {
        FaultPolicy::default()
    }

    /// A network that loses a message where the draw is below `threshold`, of `DRAWS` at most.
    pub fn with_drop_threshold(self, threshold: u32) -> (faults: Self)
        ensures
            faults@ == (Faults {
                drop_threshold: if threshold <= DRAWS {
                    threshold
                } else {
                    DRAWS
                },
                ..self@
            }),
    {
        let mut faults = self;
        faults.drop_threshold = if threshold <= DRAWS {
            threshold
        } else {
            DRAWS
        };
        faults
    }

    /// A network on which a message takes up to `ticks` ticks.
    pub fn with_max_delay(self, ticks: u32) -> (faults: Self)
        ensures
            faults@ == (Faults { max_delay_ticks: ticks, ..self@ }),
    {
        let mut faults = self;
        faults.max_delay_ticks = ticks;
        faults
    }

    /// Severs two shards, in both directions.
    pub fn add_partition(&mut self, a: ShardId, b: ShardId)
        ensures
            final(self)@ == (Faults {
                severed: old(self)@.severed.insert(pair_of(a, b)),
                ..old(self)@
            }),
    {
        let _ = self.partitioned.insert(shard_pair(a, b), ());
        assert(self@.severed =~= old(self)@.severed.insert(pair_of(a, b)));
    }

    /// Lets two shards reach each other again.
    pub fn remove_partition(&mut self, a: ShardId, b: ShardId)
        ensures
            final(self)@ == (Faults {
                severed: old(self)@.severed.remove(pair_of(a, b)),
                ..old(self)@
            }),
    {
        let _ = self.partitioned.remove(&shard_pair(a, b));
        assert(self@.severed =~= old(self)@.severed.remove(pair_of(a, b)));
    }

    /// Whether nothing gets through between two shards.
    pub fn is_partitioned(&self, a: ShardId, b: ShardId) -> (severed: bool)
        ensures
            severed == self@.severed.contains(pair_of(a, b)),
    {
        self.partitioned.contains_key(&shard_pair(a, b))
    }

    /// Draws the ticks that a message takes: from 1 to the most that are allowed.
    pub fn sample_delay_ticks(&self, rng: &mut Lcg64) -> (ticks: u32)
        ensures
            (ticks, final(rng)@) == sampled_delay(self@, old(rng)@),
            1 <= ticks,
            ticks == 1 || ticks <= self@.max_delay_ticks,
    {
        if self.max_delay_ticks == 0 {
            1
        } else {
            let x: u64 = rng.next_u64();
            1 + (x % 0x1_0000_0000) as u32 % self.max_delay_ticks
        }
    }
}

} // verus!
