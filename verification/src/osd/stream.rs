//! Bookkeeping of one connection to the daemon's audio-frame socket: how
//! many frames arrived, and when a status line is due.

use vstd::prelude::*;
use vstd::arithmetic::div_mod::{lemma_fundamental_div_mod, lemma_mod_multiples_basic};
use vstd::arithmetic::div_mod::{lemma_mod_multiples_vanish, lemma_small_mod};

verus! {

/// The frames received on one connection.
pub struct FrameCounter {
    pub total: u64,
    /// Report every this many frames; never when 0.
    pub log_every: u32,
}

/// A report is due after the `total`-th frame: every `log_every` frames,
/// never when `log_every` is 0.
pub open spec fn report_due(total: int, log_every: u32) -> bool {
    log_every > 0 && total % (log_every as int) == 0
}

impl FrameCounter {
    /// A connection on which nothing has arrived yet.
    pub fn new(log_every: u32) -> (c: Self)
        ensures
            c.total == 0,
            c.log_every == log_every,
    {
        FrameCounter { total: 0, log_every }
    }

    /// Counts one more frame, and tells whether a report is due.
    pub fn record(&mut self) -> (due: bool)
        requires
            old(self).total < u64::MAX,
        ensures
            final(self).total == old(self).total + 1,
            final(self).log_every == old(self).log_every,
            due == report_due(final(self).total as int, old(self).log_every),
    {
        self.total = self.total + 1;
        self.log_every > 0 && self.total % (self.log_every as u64) == 0
    }
}

/// Reports come exactly `log_every` frames apart: after a due report, the
/// next `log_every - 1` frames are not due and the one after is.
pub proof fn law_reports_evenly_spaced(total: int, log_every: u32, k: int)
    requires
        total >= 0,
        report_due(total, log_every),
        0 < k <= log_every,
    ensures
        report_due(total + k, log_every) <==> k == log_every,
{
    let n = log_every as int;
    let q = total / n;
    assert((total + k) % n == k % n) by {
        lemma_fundamental_div_mod(total, n);
        assert(total + k == n * q + k);
        lemma_mod_multiples_vanish(q, k, n);
    }
    if k < n {
        lemma_small_mod(k as nat, n as nat);
    } else {
        lemma_mod_multiples_basic(1, n);
        assert(1 * n == n);
    }
}

} // verus!
