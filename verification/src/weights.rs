//! Weights charged for the mixer's calls and block hooks.

use vstd::prelude::*;

verus! {

/// Units of execution time charged for a call.
pub type Weight = u64;

/// `u64::saturating_mul`: the product, or `u64::MAX` where it does not fit.
pub assume_specification[<u64>::saturating_mul](x: u64, y: u64) -> (r: u64)
    ensures
        r == sat_mul(x, y),
;

/// The sum of `a` and `b`, held at `u64::MAX` where it does not fit.
pub open spec fn sat_add(a: u64, b: u64) -> u64 {
    if a + b > u64::MAX {
        u64::MAX
    } else {
        (a + b) as u64
    }
}

/// The product of `a` and `b`, held at `u64::MAX` where it does not fit.
pub open spec fn sat_mul(a: u64, b: u64) -> u64 {
    if a * b > u64::MAX {
        u64::MAX
    } else {
        (a * b) as u64
    }
}

/// The cost of one storage read and of one storage write.
#[derive(Clone, Copy, Debug)]
pub struct RuntimeDbWeight {
    pub read: Weight,
    pub write: Weight,
}

impl RuntimeDbWeight {
    /// The weight of `r` storage reads.
    pub fn reads(self, r: Weight) -> (w: Weight)
        ensures
            w == sat_mul(self.read, r),
    {
        self.read.saturating_mul(r)
    }

    /// The weight of `w` storage writes.
    pub fn writes(self, w: Weight) -> (r: Weight)
        ensures
            r == sat_mul(self.write, w),
    {
        self.write.saturating_mul(w)
    }
}

/// Weight functions needed for the mixer.
pub trait WeightInfo {
    /// What `deposit` charges for `n` deposited leaves.
    spec fn deposit_weight(&self, n: u32) -> Weight;

    /// What `withdraw` charges.
    spec fn withdraw_weight(&self) -> Weight;

    /// What `set_stopped` charges.
    spec fn set_stopped_weight(&self) -> Weight;

    /// What `transfer_admin` charges.
    spec fn transfer_admin_weight(&self) -> Weight;

    /// What the end of a block charges while the mixer is not yet initialised.
    spec fn on_finalize_uninitialized_weight(&self) -> Weight;

    /// What the end of a block charges once the mixer is initialised.
    spec fn on_finalize_initialized_weight(&self) -> Weight;

    fn deposit(&self, n: u32) -> (w: Weight)
        ensures
            w == self.deposit_weight(n),
    ;

    fn withdraw(&self) -> (w: Weight)
        ensures
            w == self.withdraw_weight(),
    ;

    fn set_stopped(&self) -> (w: Weight)
        ensures
            w == self.set_stopped_weight(),
    ;

    fn transfer_admin(&self) -> (w: Weight)
        ensures
            w == self.transfer_admin_weight(),
    ;

    fn on_finalize_uninitialized(&self) -> (w: Weight)
        ensures
            w == self.on_finalize_uninitialized_weight(),
    ;

    fn on_finalize_initialized(&self) -> (w: Weight)
        ensures
            w == self.on_finalize_initialized_weight(),
    ;
}

/// Benchmarked weights for the mixer, priced against the runtime's
/// database weights.
#[derive(Clone, Copy, Debug)]
pub struct Weights {
    pub db_weight: RuntimeDbWeight,
}

/// A base weight plus the weight of `reads` reads and `writes` writes, each
/// addition saturating.
pub open spec fn with_db(db: RuntimeDbWeight, base: u64, reads: u64, writes: u64) -> Weight {
    sat_add(sat_add(base, sat_mul(db.read, reads)), sat_mul(db.write, writes))
}

impl WeightInfo for Weights {
    open spec fn deposit_weight(&self, n: u32) -> Weight {
        with_db(self.db_weight, sat_add(417_168_400_000, sat_mul(21_400_442_000, n as u64)), 8, 5)
    }

    open spec fn withdraw_weight(&self) -> Weight {
        with_db(self.db_weight, 1_078_562_000_000, 9, 3)
    }

    open spec fn set_stopped_weight(&self) -> Weight {
        with_db(self.db_weight, 36_000_000, 6, 4)
    }

    open spec fn transfer_admin_weight(&self) -> Weight {
        with_db(self.db_weight, 7_000_000, 1, 1)
    }

    open spec fn on_finalize_uninitialized_weight(&self) -> Weight {
        with_db(self.db_weight, 53_000_000, 2, 16)
    }

    open spec fn on_finalize_initialized_weight(&self) -> Weight {
        with_db(self.db_weight, 93_000_000, 10, 4)
    }

    fn deposit(&self, d: u32) -> (w: Weight) {
        (417_168_400_000 as Weight).saturating_add((21_400_442_000 as Weight).saturating_mul(d as Weight))
            .saturating_add(self.db_weight.reads(8 as Weight))
            .saturating_add(self.db_weight.writes(5 as Weight))
    }

    fn withdraw(&self) -> (w: Weight) {
        (1_078_562_000_000 as Weight).saturating_add(self.db_weight.reads(9 as Weight))
            .saturating_add(self.db_weight.writes(3 as Weight))
    }

    fn set_stopped(&self) -> (w: Weight) {
        (36_000_000 as Weight).saturating_add(self.db_weight.reads(6 as Weight))
            .saturating_add(self.db_weight.writes(4 as Weight))
    }

    fn transfer_admin(&self) -> (w: Weight) {
        (7_000_000 as Weight).saturating_add(self.db_weight.reads(1 as Weight))
            .saturating_add(self.db_weight.writes(1 as Weight))
    }

    fn on_finalize_uninitialized(&self) -> (w: Weight) {
        (53_000_000 as Weight).saturating_add(self.db_weight.reads(2 as Weight))
            .saturating_add(self.db_weight.writes(16 as Weight))
    }

    fn on_finalize_initialized(&self) -> (w: Weight) {
        (93_000_000 as Weight).saturating_add(self.db_weight.reads(10 as Weight))
            .saturating_add(self.db_weight.writes(4 as Weight))
    }
}

/// Saturating addition never goes below either summand.
pub proof fn lemma_sat_add_monotonic(a: u64, b: u64, c: u64)
    requires
        a <= b,
    ensures
        sat_add(a, c) <= sat_add(b, c),
        sat_add(c, a) <= sat_add(c, b),
        a <= sat_add(a, c),
{
}

/// Saturating multiplication is monotonic in its second factor.
pub proof fn lemma_sat_mul_monotonic(k: u64, a: u64, b: u64)
    requires
        a <= b,
    ensures
        sat_mul(k, a) <= sat_mul(k, b),
{
    assert(k * a <= k * b) by (nonlinear_arith)
        requires
            a <= b,
            0 <= k,
    ;
}

/// Depositing more leaves never costs less: the weight of `deposit` grows
/// with the number of leaves.
pub proof fn lemma_deposit_weight_monotonic(weights: Weights, a: u32, b: u32)
    requires
        a <= b,
    ensures
        weights.deposit_weight(a) <= weights.deposit_weight(b),
{
    let db = weights.db_weight;
    lemma_sat_mul_monotonic(21_400_442_000, a as u64, b as u64);
    let base_a = sat_add(417_168_400_000, sat_mul(21_400_442_000, a as u64));
    let base_b = sat_add(417_168_400_000, sat_mul(21_400_442_000, b as u64));
    lemma_sat_add_monotonic(sat_mul(21_400_442_000, a as u64), sat_mul(21_400_442_000, b as u64), 417_168_400_000);
    lemma_sat_add_monotonic(base_a, base_b, sat_mul(db.read, 8));
    lemma_sat_add_monotonic(
        sat_add(base_a, sat_mul(db.read, 8)),
        sat_add(base_b, sat_mul(db.read, 8)),
        sat_mul(db.write, 5),
    );
}

/// Every weight covers at least its benchmarked base, whatever the
/// database weights are: saturation never lets a sum wrap below it.
pub proof fn lemma_weights_cover_base(weights: Weights, n: u32)
    ensures
        weights.deposit_weight(n) >= 417_168_400_000,
        weights.deposit_weight(n) >= sat_mul(21_400_442_000, n as u64),
        weights.withdraw_weight() >= 1_078_562_000_000,
        weights.set_stopped_weight() >= 36_000_000,
        weights.transfer_admin_weight() >= 7_000_000,
        weights.on_finalize_uninitialized_weight() >= 53_000_000,
        weights.on_finalize_initialized_weight() >= 93_000_000,
{
}

/// Every weight is its benchmarked base plus the runtime's price of the
/// storage reads and writes it makes, wherever that sum fits: a `deposit` of
/// `n` leaves also pays 21_400_442_000 per leaf. The weights follow the
/// database weights they are given: one more unit of read or write price
/// adds the number of reads or writes.
pub proof fn lemma_weights_price_storage(weights: Weights, n: u32)
    ensures
        ({
            let r = weights.db_weight.read as int;
            let w = weights.db_weight.write as int;
            &&& 417_168_400_000 + 21_400_442_000 * n + 8 * r + 5 * w <= u64::MAX ==> weights.deposit_weight(n)
                == 417_168_400_000 + 21_400_442_000 * n + 8 * r + 5 * w
            &&& 1_078_562_000_000 + 9 * r + 3 * w <= u64::MAX ==> weights.withdraw_weight()
                == 1_078_562_000_000 + 9 * r + 3 * w
            &&& 36_000_000 + 6 * r + 4 * w <= u64::MAX ==> weights.set_stopped_weight() == 36_000_000 + 6 * r
                + 4 * w
            &&& 7_000_000 + r + w <= u64::MAX ==> weights.transfer_admin_weight() == 7_000_000 + r + w
            &&& 53_000_000 + 2 * r + 16 * w <= u64::MAX ==> weights.on_finalize_uninitialized_weight()
                == 53_000_000 + 2 * r + 16 * w
            &&& 93_000_000 + 10 * r + 4 * w <= u64::MAX ==> weights.on_finalize_initialized_weight()
                == 93_000_000 + 10 * r + 4 * w
        }),
{
    let r = weights.db_weight.read as int;
    let w = weights.db_weight.write as int;
    assert(21_400_442_000 * n >= 0) by (nonlinear_arith);
}

/// Weights follow the price of storage: pricing a read one unit higher
/// makes `transfer_admin` one unit heavier and the initialised end of a
/// block ten units heavier, wherever the weights do not saturate.
pub proof fn lemma_weights_follow_db_price(read: u64, write: u64)
    requires
        read < u64::MAX,
        93_000_000 + 10 * (read + 1) + 4 * write <= u64::MAX,
    ensures
        (Weights { db_weight: RuntimeDbWeight { read: (read + 1) as u64, write } }).transfer_admin_weight()
            == (Weights { db_weight: RuntimeDbWeight { read, write } }).transfer_admin_weight() + 1,
        (Weights { db_weight: RuntimeDbWeight { read: (read + 1) as u64, write } }).on_finalize_initialized_weight()
            == (Weights { db_weight: RuntimeDbWeight { read, write } }).on_finalize_initialized_weight() + 10,
{
}

} // verus!
