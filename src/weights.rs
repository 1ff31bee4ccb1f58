//! Two-dimensional dispatch weights (reference time, proof size) and the
//! benchmarked weight table of the whitelist calls.
use vstd::prelude::*;

verus! {

/// A weight: reference time in picoseconds and proof size in bytes.
#[derive(Clone, Copy, Debug, PartialEq, Eq, Structural)]
pub struct Weight {
    pub ref_time: u64,
    pub proof_size: u64,
}

/// `a + b`, or the largest `u64` where that is larger.
pub open spec fn sat_add(a: u64, b: u64) -> u64 {
    if a + b > u64::MAX {
        u64::MAX
    } else {
        (a + b) as u64
    }
}

/// `a * b`, or the largest `u64` where that is larger.
pub open spec fn sat_mul(a: u64, b: u64) -> u64 {
    if a * b > u64::MAX {
        u64::MAX
    } else {
        (a * b) as u64
    }
}

fn mul_saturating(a: u64, b: u64) -> (r: u64)
    ensures
        r == sat_mul(a, b),
{
    match a.checked_mul(b) {
        Some(p) => p,
        None => u64::MAX,
    }
}

pub open spec fn weight_add(a: Weight, b: Weight) -> Weight {
    Weight {
        ref_time: sat_add(a.ref_time, b.ref_time),
        proof_size: sat_add(a.proof_size, b.proof_size),
    }
}

pub open spec fn weight_mul(a: Weight, n: u64) -> Weight {
    Weight { ref_time: sat_mul(a.ref_time, n), proof_size: sat_mul(a.proof_size, n) }
}

pub open spec fn parts(ref_time: u64, proof_size: u64) -> Weight {
    Weight { ref_time, proof_size }
}

impl Weight {
    pub fn from_parts(ref_time: u64, proof_size: u64) -> (r: Weight)
        ensures
            r == parts(ref_time, proof_size),
    {
        Weight { ref_time, proof_size }
    }

    /// Adds each component, saturating.
    pub fn saturating_add(self, rhs: Weight) -> (r: Weight)
        ensures
            r == weight_add(self, rhs),
    {
        Weight {
            ref_time: self.ref_time.saturating_add(rhs.ref_time),
            proof_size: self.proof_size.saturating_add(rhs.proof_size),
        }
    }

    /// Multiplies each component by `scalar`, saturating.
    pub fn saturating_mul(self, scalar: u64) -> (r: Weight)
        ensures
            r == weight_mul(self, scalar),
    {
        Weight {
            ref_time: mul_saturating(self.ref_time, scalar),
            proof_size: mul_saturating(self.proof_size, scalar),
        }
    }
}

/// The reference time of one storage read and of one storage write.
#[derive(Clone, Copy, Debug, PartialEq, Eq, Structural)]
pub struct RuntimeDbWeight {
    pub read: u64,
    pub write: u64,
}

pub open spec fn reads_weight(db: RuntimeDbWeight, r: u64) -> Weight {
    parts(sat_mul(db.read, r), 0)
}

pub open spec fn writes_weight(db: RuntimeDbWeight, w: u64) -> Weight {
    parts(sat_mul(db.write, w), 0)
}

impl RuntimeDbWeight {
    /// The weight of `r` reads.
    pub fn reads(self, r: u64) -> (w: Weight)
        ensures
            w == reads_weight(self, r),
    {
        Weight::from_parts(mul_saturating(self.read, r), 0)
    }

    /// The weight of `w` writes.
    pub fn writes(self, w: u64) -> (r: Weight)
        ensures
            r == writes_weight(self, w),
    {
        Weight::from_parts(mul_saturating(self.write, w), 0)
    }
}

/// Benchmarked weight of a call: a base time, a proof size, a cost per unit
/// of `n` in each component, and its storage reads and writes.
pub open spec fn benchmarked(
    db: RuntimeDbWeight,
    base: u64,
    proof: u64,
    per_n: u64,
    proof_per_n: u64,
    n: u64,
    reads: u64,
    writes: u64,
) -> Weight {
    weight_add(
        weight_add(
            weight_add(
                weight_add(
                    weight_add(parts(base, 0), parts(0, proof)),
                    weight_mul(parts(per_n, 0), n),
                ),
                reads_weight(db, reads),
            ),
            writes_weight(db, writes),
        ),
        weight_mul(parts(0, proof_per_n), n),
    )
}

/// Weights of the whitelist calls, over the runtime's storage costs.
#[derive(Clone, Copy, Debug, PartialEq, Eq, Structural)]
pub struct WeightInfo {
    pub db_weight: RuntimeDbWeight,
}

impl WeightInfo {
    /// Two reads and two writes.
    pub fn whitelist_call(&self) -> (r: Weight)
        ensures
            r == benchmarked(self.db_weight, 16_200_000, 3556, 0, 0, 0, 2, 2),
    {
        let db = self.db_weight;
        let r = Weight::from_parts(16_200_000, 0)
            .saturating_add(Weight::from_parts(0, 3556))
            .saturating_add(db.reads(2))
            .saturating_add(db.writes(2));
        assert(weight_mul(parts(0, 0), 0) == parts(0, 0));
        r
    }

    /// Two reads and two writes.
    pub fn remove_whitelisted_call(&self) -> (r: Weight)
        ensures
            r == benchmarked(self.db_weight, 14_266_000, 3556, 0, 0, 0, 2, 2),
    {
        let db = self.db_weight;
        Weight::from_parts(14_266_000, 0)
            .saturating_add(Weight::from_parts(0, 3556))
            .saturating_add(db.reads(2))
            .saturating_add(db.writes(2))
    }

    /// For a call of `n` bytes: three reads and three writes.
    pub fn dispatch_whitelisted_call(&self, n: u32) -> (r: Weight)
        ensures
            r == benchmarked(self.db_weight, 23_284_000, 3858, 1_204, 1, n as u64, 3, 3),
    {
        let db = self.db_weight;
        Weight::from_parts(23_284_000, 0)
            .saturating_add(Weight::from_parts(0, 3858))
            .saturating_add(Weight::from_parts(1_204, 0).saturating_mul(n as u64))
            .saturating_add(db.reads(3))
            .saturating_add(db.writes(3))
            .saturating_add(Weight::from_parts(0, 1).saturating_mul(n as u64))
    }

    /// For a call of `n` bytes given with its preimage: two reads and two
    /// writes.
    pub fn dispatch_whitelisted_call_with_preimage(&self, n: u32) -> (r: Weight)
        ensures
            r == benchmarked(self.db_weight, 17_191_619, 3556, 1_094, 0, n as u64, 2, 2),
    {
        let db = self.db_weight;
        Weight::from_parts(17_191_619, 0)
            .saturating_add(Weight::from_parts(0, 3556))
            .saturating_add(Weight::from_parts(1_094, 0).saturating_mul(n as u64))
            .saturating_add(db.reads(2))
            .saturating_add(db.writes(2))
    }
}

} // verus!
