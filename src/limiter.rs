use vstd::prelude::*;

verus! {

/// The length of the rolling window of the connection budget, in milliseconds.
pub const WINDOW_MS: u64 = 1000;

/// Whether a new attempt at time `now` keeps every rolling window within the
/// budget: fewer than `k` attempts so far, or the `k`-th latest one at least a
/// window ago.
pub open spec fn has_room(admitted: Seq<u64>, k: nat, now: u64) -> bool {
    admitted.len() < k || now >= admitted[admitted.len() - k] + WINDOW_MS
}

/// Admission times never go back.
pub open spec fn times_ordered(admitted: Seq<u64>) -> bool {
    forall|i: int, j: int| 0 <= i <= j < admitted.len() ==> admitted[i] <= admitted[j]
}

/// Any attempt and the `k`-th one after it lie at least a window apart.
pub open spec fn spaced_by_window(admitted: Seq<u64>, k: nat) -> bool {
    forall|m: int| k <= m < admitted.len() ==> #[trigger] admitted[m] >= admitted[m - k] + WINDOW_MS
}

/// The connection budget of a fleet's setup: at most `per_second` connection
/// attempts in any rolling window of one second.
pub struct RateLimiter {
    per_second: usize,
    recent: Vec<u64>,
    admitted: Ghost<Seq<u64>>,
}

impl RateLimiter {
    /// The number of attempts that one window admits.
    pub closed spec fn budget(&self) -> nat {
        self.per_second as nat
    }

    /// The times of all admitted attempts, in order.
    pub closed spec fn admitted_times(&self) -> Seq<u64> {
        self.admitted@
    }

    pub closed spec fn wf(&self) -> bool {
        &&& self.per_second >= 1
        &&& times_ordered(self.admitted@)
        &&& spaced_by_window(self.admitted@, self.per_second as nat)
        &&& self.recent@.len() <= self.per_second
        &&& (self.admitted@.len() >= self.per_second ==> self.recent@.len() == self.per_second)
        &&& (self.admitted@.len() < self.per_second ==> self.recent@.len() == self.admitted@.len())
        &&& self.recent@ == self.admitted@.subrange(
            self.admitted@.len() - self.recent@.len(),
            self.admitted@.len() as int,
        )
    }

    /// A budget of `per_second` attempts per window, none admitted yet.
    pub fn new(per_second: usize) -> (r: Self)
        requires
            per_second >= 1,
        ensures
            r.wf(),
            r.budget() == per_second,
            r.admitted_times().len() == 0,
    {
        let r = RateLimiter { per_second, recent: Vec::new(), admitted: Ghost(Seq::empty()) };
        proof {
            assert(r.recent@ =~= r.admitted@.subrange(0, 0));
        }
        r
    }

    /// Admits an attempt at time `now` (in milliseconds) if the budget has
    /// room for it; times passed in must not go back.
    pub fn try_admit(&mut self, now: u64) -> (r: bool)
        requires
            old(self).wf(),
            old(self).admitted_times().len() > 0 ==> now >= old(self).admitted_times().last(),
        ensures
            final(self).wf(),
            final(self).budget() == old(self).budget(),
            r == has_room(old(self).admitted_times(), old(self).budget(), now),
            r ==> final(self).admitted_times() == old(self).admitted_times().push(now),
            !r ==> final(self).admitted_times() == old(self).admitted_times(),
    {
        let ghost h = self.admitted@;
        let k = self.per_second;
        if self.recent.len() < k {
            proof {
                lemma_admit_keeps_spacing(h, k as nat, now);
            }
            self.recent.push(now);
            self.admitted = Ghost(h.push(now));
            proof {
                assert(self.recent@ =~= self.admitted@.subrange(
                    self.admitted@.len() - self.recent@.len(),
                    self.admitted@.len() as int,
                ));
            }
            return true;
        }
        let oldest = self.recent[0];
        proof {
            assert(oldest == h[h.len() - k]);
            assert(h[h.len() - 1] >= oldest);
        }
        if now - oldest >= WINDOW_MS {
            proof {
                lemma_admit_keeps_spacing(h, k as nat, now);
            }
            self.recent.remove(0);
            self.recent.push(now);
            self.admitted = Ghost(h.push(now));
            proof {
                assert(self.recent@ =~= self.admitted@.subrange(
                    self.admitted@.len() - self.recent@.len(),
                    self.admitted@.len() as int,
                ));
            }
            true
        } else {
            false
        }
    }

    /// The earliest time at which the budget has room for another attempt.
    pub fn next_admission_at(&self) -> (r: u64)
        requires
            self.wf(),
        ensures
            self.admitted_times().len() < self.budget() ==> r == 0,
            self.admitted_times().len() >= self.budget() ==> {
                let h = self.admitted_times();
                let t = h[h.len() - self.budget()] + WINDOW_MS;
                &&& t <= u64::MAX ==> r == t
                &&& t > u64::MAX ==> r == u64::MAX
            },
    {
        if self.recent.len() < self.per_second {
            0
        } else {
            let oldest = self.recent[0];
            if oldest > u64::MAX - WINDOW_MS {
                u64::MAX
            } else {
                oldest + WINDOW_MS
            }
        }
    }

    pub fn get_budget(&self) -> (r: usize)
        ensures
            r == self.budget(),
    {
        self.per_second
    }
}

proof fn lemma_admit_keeps_spacing(h: Seq<u64>, k: nat, now: u64)
    requires
        k >= 1,
        times_ordered(h),
        spaced_by_window(h, k),
        h.len() > 0 ==> now >= h.last(),
        has_room(h, k, now),
    ensures
        times_ordered(h.push(now)),
        spaced_by_window(h.push(now), k),
{
    let a = h.push(now);
    assert forall|i: int, j: int| 0 <= i <= j < a.len() implies a[i] <= a[j] by {
        if j == h.len() && i < h.len() {
            assert(h[i] <= h[h.len() - 1]);
        }
    }
    assert forall|m: int| k <= m < a.len() implies #[trigger] a[m] >= a[m - k] + WINDOW_MS by {
        if m < h.len() {
            assert(a[m] == h[m]);
            assert(a[m - k] == h[m - k]);
        }
    }
}

/// However the attempts of a setup are timed, no window of one second holds
/// more attempts than the budget: any two admitted attempts less than a
/// window apart are fewer than `budget` positions apart, so a window holds at
/// most `budget` of them.
pub proof fn lemma_window_never_exceeds_budget(l: &RateLimiter, i: int, j: int)
    requires
        l.wf(),
        0 <= i <= j < l.admitted_times().len(),
        l.admitted_times()[j] < l.admitted_times()[i] + WINDOW_MS,
    ensures
        j - i < l.budget(),
{
    let h = l.admitted_times();
    let k = l.budget() as int;
    if j - i >= k {
        assert(h[j] >= h[j - k] + WINDOW_MS);
        assert(h[j - k] >= h[i]);
    }
}

} // verus!
