//! Progress of the consumer, derived from how many results it has received.

use vstd::prelude::*;
use vstd::arithmetic::div_mod::{lemma_fundamental_div_mod, lemma_mod_multiples_basic};

verus! {

/// Number of results between two progress reports: a hundredth of the
/// total, rounded down.
pub open spec fn cadence(total: nat) -> nat {
    total / 100
}

/// Whether `n` is a multiple of `step`. Zero is a multiple of every step,
/// and the only multiple of zero.
pub open spec fn is_multiple_of(n: nat, step: nat) -> bool {
    exists|k: nat| n == #[trigger] (k * step)
}

/// Whether a report is due once `received` of `total` results have arrived.
pub open spec fn is_milestone(received: nat, total: nat) -> bool {
    is_multiple_of(received, cadence(total))
}

/// Percentage of `total` that `received` makes, rounded down.
pub open spec fn spec_percent(received: nat, total: nat) -> nat {
    (received * 100) / total
}

/// A progress notification: `received` results out of `total` have arrived.
#[derive(Clone, Copy, Debug, PartialEq, Eq)]
pub struct ProgressReport {
    received: u64,
    total: u64,
}

impl ProgressReport {
    /// Number of results that have arrived.
    pub closed spec fn spec_received(self) -> nat {
        self.received as nat
    }

    /// Number of results that make the image complete.
    pub closed spec fn spec_total(self) -> nat {
        self.total as nat
    }

    /// There is something to receive, and no more was received than that.
    #[verifier::type_invariant]
    pub open spec fn wf(self) -> bool {
        &&& self.spec_received() <= self.spec_total() <= u64::MAX
        &&& self.spec_total() > 0
    }

    /// The report that is due after `received` of `total` results, if one
    /// is: `Some` exactly when `received` does not exceed `total`, `total`
    /// is positive and `received` is a multiple of `total / 100`.
    pub fn due(received: u64, total: u64) -> (r: Option<ProgressReport>)
        ensures
            r.is_some() <==> (received <= total && total > 0 && is_milestone(
                received as nat,
                total as nat,
            )),
            r matches Some(report) ==> {
                &&& report.wf()
                &&& report.spec_received() == received
                &&& report.spec_total() == total
            },
    {
        if received > total || total == 0 {
            return None;
        }
        let step: u64 = total / 100;
        proof {
            lemma_multiple_by_remainder(received as nat, step as nat);
        }
        let due: bool = if step == 0 {
            received == 0
        } else {
            received % step == 0
        };
        if due {
            Some(ProgressReport { received, total })
        } else {
            None
        }
    }

    /// Number of results that have arrived.
    pub fn received(&self) -> (n: u64)
        ensures
            n == self.spec_received(),
    {
        self.received
    }

    /// Number of results that make the image complete.
    pub fn total(&self) -> (n: u64)
        ensures
            n == self.spec_total(),
            n > 0,
    {
        proof {
            use_type_invariant(self);
        }
        self.total
    }

    /// Percentage complete, rounded down to a whole number.
    pub fn percent(&self) -> (p: u64)
        ensures
            p == spec_percent(self.spec_received(), self.spec_total()),
            p <= 100,
    {
        proof {
            use_type_invariant(self);
        }
        let scaled: u128 = (self.received as u128) * 100;
        let whole: u128 = scaled / (self.total as u128);
        proof {
            let r = self.received as int;
            let t = self.total as int;
            assert((r * 100) / t <= 100) by (nonlinear_arith)
                requires
                    0 <= r <= t,
                    t > 0,
            ;
        }
        whole as u64
    }
}

/// Being a multiple can be decided by a remainder: for a positive step the
/// remainder is zero, and only zero is a multiple of zero.
pub proof fn lemma_multiple_by_remainder(n: nat, step: nat)
    ensures
        step == 0 ==> (is_multiple_of(n, step) <==> n == 0),
        step > 0 ==> (is_multiple_of(n, step) <==> n % step == 0),
{
    if step == 0 {
        if n == 0 {
            assert(n == 0nat * step);
        }
        if is_multiple_of(n, step) {
            let k = choose|k: nat| n == #[trigger] (k * step);
            assert(k * step == 0) by (nonlinear_arith)
                requires
                    step == 0,
            ;
        }
    } else {
        if n % step == 0 {
            lemma_fundamental_div_mod(n as int, step as int);
            let q = n / step;
            assert(q * step == step * q) by (nonlinear_arith);
        }
        if is_multiple_of(n, step) {
            let k = choose|k: nat| n == #[trigger] (k * step);
            lemma_mod_multiples_basic(k as int, step as int);
        }
    }
}

} // verus!
