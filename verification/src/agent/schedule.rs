//! When things are sampled and how long they stay valid.

use crate::arith::{add_up, plus};
use vstd::prelude::*;

verus! {

/// The sampling intervals in seconds.
#[derive(Debug, Clone, Copy, PartialEq, Eq, Structural)]
pub struct Cadence {
    pub interval: u64,
    pub medium: u64,
    pub slow: u64,
}

/// The intervals do not shrink from hot to slow.
pub open spec fn is_ordered(c: Cadence) -> bool {
    c.interval <= c.medium <= c.slow
}

/// How many hot samples a longer interval takes, rounded up.
pub open spec fn ticks_of(longer: u64, interval: u64) -> u64 {
    ((longer + interval - 1) / interval as int) as u64
}

/// The medium samples: the first, and then one in each medium interval.
pub open spec fn is_medium_due(c: Cadence, tick: u64) -> bool {
    tick == 1 || tick % ticks_of(c.medium, c.interval) == 0
}

/// The slow samples: one in each slow interval.
pub open spec fn is_slow_due(c: Cadence, tick: u64) -> bool {
    tick % ticks_of(c.slow, c.interval) == 0
}

fn ticks(longer: u64, interval: u64) -> (r: u64)
    requires
        0 < interval <= longer,
    ensures
        r == ticks_of(longer, interval),
        r > 0,
{
    let q = longer / interval;
    let rest = longer % interval;
    proof {
        let l = longer as int;
        let i = interval as int;
        vstd::arithmetic::div_mod::lemma_fundamental_div_mod(l, i);
        if rest == 0 {
            assert(l + i - 1 == i * q + (i - 1));
            vstd::arithmetic::div_mod::lemma_fundamental_div_mod_converse(
                l + i - 1,
                i,
                q as int,
                i - 1,
            );
        } else {
            assert(l + i - 1 == (q + 1) * i + (rest - 1)) by (nonlinear_arith)
                requires
                    l == i * q + rest,
            ;
            vstd::arithmetic::div_mod::lemma_fundamental_div_mod_converse(
                l + i - 1,
                i,
                q + 1,
                rest - 1,
            );
        }
        assert(q >= 1) by (nonlinear_arith)
            requires
                l == i * q + rest,
                rest < i,
                i <= l,
                i > 0,
        ;
        assert(q < l || rest == 0) by (nonlinear_arith)
            requires
                l == i * q + rest,
                rest >= 0,
                i >= 1,
                rest < i,
                q >= 1,
        ;
    }
    if rest == 0 {
        q
    } else {
        q + 1
    }
}

impl Cadence {
    /// Whether the intervals do not shrink from hot to slow.
    pub fn ordered(&self) -> (r: bool)
        ensures
            r == is_ordered(*self),
    {
        self.interval <= self.medium && self.medium <= self.slow
    }

    /// Whether the medium sample is due at a tick.
    pub fn medium_due(&self, tick: u64) -> (r: bool)
        requires
            self.interval > 0,
            is_ordered(*self),
        ensures
            r == is_medium_due(*self, tick),
    {
        tick == 1 || tick % ticks(self.medium, self.interval) == 0
    }

    /// Whether the slow sample is due at a tick.
    pub fn slow_due(&self, tick: u64) -> (r: bool)
        requires
            self.interval > 0,
            is_ordered(*self),
        ensures
            r == is_slow_due(*self, tick),
    {
        tick % ticks(self.slow, self.interval) == 0
    }
}

/// The tick after another.
pub fn next_tick(tick: u64) -> (r: u64)
    ensures
        r == plus(tick, 1),
{
    add_up(tick, 1)
}

/// What the agent publishes.
#[derive(Debug, Clone, Copy, PartialEq, Eq, Structural)]
pub enum Batch {
    Status,
    Inventory,
    System,
    Network,
    Storage,
    Nvidia,
    Service,
    Llm,
    Event,
}

/// The last components of the subject of a batch.
pub open spec fn suffix_of(b: Batch) -> Seq<char> {
    match b {
        Batch::Status => "status.agent"@,
        Batch::Inventory => "inventory"@,
        Batch::System => "sample.system"@,
        Batch::Network => "sample.network"@,
        Batch::Storage => "sample.storage"@,
        Batch::Nvidia => "sample.nvidia"@,
        Batch::Service => "sample.service"@,
        Batch::Llm => "sample.llm"@,
        Batch::Event => "event.health"@,
    }
}

/// How long a batch is valid, in milliseconds: samples for three of their
/// intervals.
pub open spec fn validity_of(b: Batch, c: Cadence) -> u128 {
    match b {
        Batch::Status => 10_000,
        Batch::Inventory => 120_000,
        Batch::System => (c.interval * 3000) as u128,
        Batch::Network => (c.interval * 3000) as u128,
        Batch::Storage => (c.medium * 3000) as u128,
        Batch::Nvidia => (c.interval * 3000) as u128,
        Batch::Service => 30_000,
        Batch::Llm => 30_000,
        Batch::Event => 60_000,
    }
}

impl Batch {
    /// The last components of the subject.
    pub fn suffix(&self) -> (r: &'static str)
        ensures
            r@ == suffix_of(*self),
    {
        match self {
            Batch::Status => "status.agent",
            Batch::Inventory => "inventory",
            Batch::System => "sample.system",
            Batch::Network => "sample.network",
            Batch::Storage => "sample.storage",
            Batch::Nvidia => "sample.nvidia",
            Batch::Service => "sample.service",
            Batch::Llm => "sample.llm",
            Batch::Event => "event.health",
        }
    }

    /// How long the batch is valid, in milliseconds.
    pub fn valid_for_ms(&self, c: &Cadence) -> (r: u128)
        ensures
            r == validity_of(*self, *c),
    {
        match self {
            Batch::Status => 10_000,
            Batch::Inventory => 120_000,
            Batch::System => c.interval as u128 * 3000,
            Batch::Network => c.interval as u128 * 3000,
            Batch::Storage => c.medium as u128 * 3000,
            Batch::Nvidia => c.interval as u128 * 3000,
            Batch::Service => 30_000,
            Batch::Llm => 30_000,
            Batch::Event => 60_000,
        }
    }
}

} // verus!
