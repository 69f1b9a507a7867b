//! Factory leases.  A lease is a timed reservation of one queued job by
//! one factory while it provisions a worker.  The set of leases lives in
//! memory; the invariant is that no job ever carries two leases.

use vstd::prelude::*;
use crate::ids::JobId;
use crate::text::str_eq;

verus! {

use vstd::string::StringExecFns;

/// One reservation: which factory holds which job, and when the hold
/// lapses.
#[derive(Debug)]
pub struct Lease {
    pub factory: String,
    pub job: JobId,
    pub expires: i64,
}

/// The index of the lease on the given job, searching from `i`.
pub open spec fn spec_find_lease_from(s: Seq<Lease>, job: Seq<char>, i: int) -> Option<int>
    decreases s.len() - i when 0 <= i <= s.len()
{
    if i >= s.len() {
        None
    } else if s[i].job.id@ == job {
        Some(i)
    } else {
        spec_find_lease_from(s, job, i + 1)
    }
}

/// A failed search means no lease from `i` on names the job.
pub proof fn lemma_find_lease_none(s: Seq<Lease>, job: Seq<char>, i: int)
    requires
        0 <= i <= s.len(),
        spec_find_lease_from(s, job, i) is None,
    ensures
        forall|k: int| i <= k < s.len() ==> (#[trigger] s[k]).job.id@ != job,
    decreases s.len() - i,
{
    if i < s.len() {
        lemma_find_lease_none(s, job, i + 1);
    }
}

/// A table with no entry for a job is searched in vain.
pub proof fn lemma_find_lease_all(s: Seq<Lease>, job: Seq<char>, i: int)
    requires
        0 <= i <= s.len(),
        forall|k: int| i <= k < s.len() ==> (#[trigger] s[k]).job.id@ != job,
    ensures
        spec_find_lease_from(s, job, i) is None,
    decreases s.len() - i,
{
    if i < s.len() {
        lemma_find_lease_all(s, job, i + 1);
    }
}

/// The in-memory lease table.
#[derive(Debug)]
pub struct Leases {
    pub leases: Vec<Lease>,
}

impl Leases {
    /// No two leases name the same job.
    pub open spec fn wf(&self) -> bool {
        forall|i: int, k: int|
            0 <= i < self.leases@.len() && 0 <= k < self.leases@.len() && i != k
                ==> (#[trigger] self.leases@[i]).job.id@ != (#[trigger] self.leases@[k]).job.id@
    }

    pub fn new() -> (r: Leases)
        ensures
            r.wf(),
            r.leases@.len() == 0,
    {
        Leases { leases: Vec::new() }
    }

    /// Find the position of the lease on a job.
    fn find(&self, job: &JobId) -> (r: Option<usize>)
        ensures
            match r {
                Some(i) => spec_find_lease_from(self.leases@, job.id@, 0) == Some(i as int) && i
                    < self.leases@.len() && self.leases@[i as int].job.id@ == job.id@,
                None => spec_find_lease_from(self.leases@, job.id@, 0) is None,
            },
    {
        let mut i: usize = 0;
        while i < self.leases.len()
            invariant
                i <= self.leases@.len(),
                spec_find_lease_from(self.leases@, job.id@, 0) == spec_find_lease_from(
                    self.leases@,
                    job.id@,
                    i as int,
                ),
            decreases self.leases@.len() - i,
        {
            if str_eq(self.leases[i].job.id.as_str(), job.id.as_str()) {
                return Some(i);
            }
            i = i + 1;
        }
        None
    }

    /// When the lease on a job lapses, if one is held.
    pub fn lease_of(&self, job: &JobId) -> (r: Option<i64>)
        ensures
            r == match spec_find_lease_from(self.leases@, job.id@, 0) {
                Some(i) => Some(self.leases@[i].expires),
                None => None::<i64>,
            },
    {
        match self.find(job) {
            Some(i) => Some(self.leases[i].expires),
            None => None,
        }
    }

    /// Whether a job is under lease at the given instant, by a factory
    /// other than the one asking.
    pub fn held_by_other(&self, job: &JobId, factory: &str, now: i64) -> (r: bool)
        ensures
            r == match spec_find_lease_from(self.leases@, job.id@, 0) {
                Some(i) => self.leases@[i].factory@ != factory@ && self.leases@[i].expires > now,
                None => false,
            },
    {
        match self.find(job) {
            Some(i) => !str_eq(self.leases[i].factory.as_str(), factory) && self.leases[i].expires
                > now,
            None => false,
        }
    }

    /// Grant a lease on a job to a factory.  A job that is already under
    /// an unexpired lease cannot be leased again; an expired lease is
    /// replaced.  Granting never creates a second lease for a job.
    pub fn grant(&mut self, factory: &str, job: &JobId, now: i64, expires: i64) -> (r: bool)
        requires
            old(self).wf(),
        ensures
            final(self).wf(),
            match spec_find_lease_from(old(self).leases@, job.id@, 0) {
                Some(i) => {
                    if old(self).leases@[i].expires > now {
                        r == false && *final(self) == *old(self)
                    } else {
                        &&& r == true
                        &&& final(self).leases@.len() == old(self).leases@.len()
                        &&& forall|k: int|
                            0 <= k < old(self).leases@.len() && k != i ==> final(self).leases@[k]
                                == old(self).leases@[k]
                        &&& final(self).leases@[i].factory@ == factory@
                        &&& final(self).leases@[i].job.id@ == job.id@
                        &&& final(self).leases@[i].expires == expires
                    }
                },
                None => {
                    &&& r == true
                    &&& final(self).leases@.len() == old(self).leases@.len() + 1
                    &&& final(self).leases@.subrange(0, old(self).leases@.len() as int) == old(
                        self,
                    ).leases@
                    &&& final(self).leases@.last().factory@ == factory@
                    &&& final(self).leases@.last().job.id@ == job.id@
                    &&& final(self).leases@.last().expires == expires
                },
            },
    {
        let rec = Lease {
            factory: String::from_str(factory),
            job: JobId { id: job.id.clone() },
            expires,
        };
        match self.find(job) {
            Some(i) => {
                if self.leases[i].expires > now {
                    return false;
                }
                self.leases.set(i, rec);
                true
            },
            None => {
                self.leases.push(rec);
                proof {
                    lemma_find_lease_none(old(self).leases@, job.id@, 0);
                    assert(final(self).leases@.subrange(0, old(self).leases@.len() as int) =~= old(
                        self,
                    ).leases@);
                }
                true
            },
        }
    }

    /// Extend a lease, if the same factory still holds it and it has
    /// not lapsed.
    pub fn renew(&mut self, factory: &str, job: &JobId, now: i64, expires: i64) -> (r: bool)
        requires
            old(self).wf(),
        ensures
            final(self).wf(),
            match spec_find_lease_from(old(self).leases@, job.id@, 0) {
                Some(i) => {
                    if old(self).leases@[i].factory@ == factory@ && old(self).leases@[i].expires
                        > now {
                        &&& r == true
                        &&& final(self).leases@.len() == old(self).leases@.len()
                        &&& forall|k: int|
                            0 <= k < old(self).leases@.len() && k != i ==> final(self).leases@[k]
                                == old(self).leases@[k]
                        &&& final(self).leases@[i].factory@ == factory@
                        &&& final(self).leases@[i].job.id@ == job.id@
                        &&& final(self).leases@[i].expires == expires
                    } else {
                        r == false && *final(self) == *old(self)
                    }
                },
                None => r == false && *final(self) == *old(self),
            },
    {
        match self.find(job) {
            Some(i) => {
                if str_eq(self.leases[i].factory.as_str(), factory) && self.leases[i].expires
                    > now {
                    let rec = Lease {
                        factory: String::from_str(factory),
                        job: JobId { id: job.id.clone() },
                        expires,
                    };
                    self.leases.set(i, rec);
                    true
                } else {
                    false
                }
            },
            None => false,
        }
    }

    /// Drop the lease on a job, if any: when a worker bootstraps bound
    /// to the job the lease is consumed, and when a factory abandons a
    /// job its lease is released.
    pub fn release(&mut self, job: &JobId)
        requires
            old(self).wf(),
        ensures
            final(self).wf(),
            match spec_find_lease_from(old(self).leases@, job.id@, 0) {
                Some(i) => final(self).leases@ == old(self).leases@.remove(i),
                None => *final(self) == *old(self),
            },
            spec_find_lease_from(final(self).leases@, job.id@, 0) is None,
    {
        match self.find(job) {
            Some(i) => {
                self.leases.remove(i);
                proof {
                    assert forall|k: int|
                        0 <= k < final(self).leases@.len() implies (
                    #[trigger] final(self).leases@[k]).job.id@ != job.id@ by {
                        if k < i {
                            assert(final(self).leases@[k] == old(self).leases@[k]);
                        } else {
                            assert(final(self).leases@[k] == old(self).leases@[k + 1]);
                        }
                    }
                    lemma_find_lease_all(final(self).leases@, job.id@, 0);
                }
            },
            None => {
            },
        }
    }

    /// Drop every lease that lapsed at or before the given instant.
    /// Unexpired leases survive, in order.
    pub fn expire(&mut self, now: i64)
        requires
            old(self).wf(),
        ensures
            final(self).wf(),
            final(self).leases@ == spec_unexpired(old(self).leases@, now),
    {
        let ghost orig = self.leases@;
        let mut kept: Vec<Lease> = Vec::new();
        while self.leases.len() > 0
            invariant
                kept@ + spec_unexpired(self.leases@, now) =~= spec_unexpired(orig, now),
            decreases self.leases@.len(),
        {
            let ghost pre = self.leases@;
            let l = self.leases.remove(0);
            proof {
                assert(pre[0] == l);
                assert(pre.skip(1) =~= self.leases@);
            }
            if l.expires > now {
                kept.push(l);
                proof {
                    assert(kept@ + spec_unexpired(self.leases@, now) =~= spec_unexpired(
                        orig,
                        now,
                    ));
                }
            }
        }
        proof {
            assert(kept@ + spec_unexpired(self.leases@, now) =~= kept@);
        }
        self.leases = kept;
        proof {
            lemma_unexpired_wf(orig, now);
        }
    }
}

/// The leases of a table that survive past a given instant, in order.
pub open spec fn spec_unexpired(s: Seq<Lease>, now: i64) -> Seq<Lease>
    decreases s.len(),
{
    if s.len() == 0 {
        Seq::empty()
    } else if s[0].expires > now {
        seq![s[0]] + spec_unexpired(s.skip(1), now)
    } else {
        spec_unexpired(s.skip(1), now)
    }
}

/// Expiry keeps the one-lease-per-job invariant: the survivors carry
/// distinct jobs, each of them a job of the original table.
pub proof fn lemma_unexpired_wf(s: Seq<Lease>, now: i64)
    requires
        forall|i: int, k: int|
            0 <= i < s.len() && 0 <= k < s.len() && i != k ==> (#[trigger] s[i]).job.id@ != (
            #[trigger] s[k]).job.id@,
    ensures
        ({
            let u = spec_unexpired(s, now);
            &&& forall|i: int, k: int|
                0 <= i < u.len() && 0 <= k < u.len() && i != k ==> (#[trigger] u[i]).job.id@ != (
                #[trigger] u[k]).job.id@
            &&& forall|i: int|
                0 <= i < u.len() ==> exists|k: int|
                    0 <= k < s.len() && (#[trigger] u[i]).job.id@ == s[k].job.id@
        }),
    decreases s.len(),
{
    if s.len() > 0 {
        let rest = s.skip(1);
        assert forall|i: int, k: int|
            0 <= i < rest.len() && 0 <= k < rest.len() && i != k implies (
        #[trigger] rest[i]).job.id@ != (#[trigger] rest[k]).job.id@ by {
            assert(rest[i] == s[i + 1]);
            assert(rest[k] == s[k + 1]);
        }
        lemma_unexpired_wf(rest, now);
        let ur = spec_unexpired(rest, now);
        assert forall|i: int|
            0 <= i < ur.len() implies exists|k: int|
            0 <= k < s.len() && (#[trigger] ur[i]).job.id@ == s[k].job.id@ by {
            let k0 = choose|k0: int| 0 <= k0 < rest.len() && ur[i].job.id@ == rest[k0].job.id@;
            assert(rest[k0] == s[k0 + 1]);
            assert(0 <= k0 + 1 < s.len() && ur[i].job.id@ == s[k0 + 1].job.id@);
        }
        if s[0].expires > now {
            let u = spec_unexpired(s, now);
            assert(u =~= seq![s[0]] + ur);
            assert forall|i: int, k: int|
                0 <= i < u.len() && 0 <= k < u.len() && i != k implies (#[trigger] u[i]).job.id@
                != (#[trigger] u[k]).job.id@ by {
                if i == 0 {
                    let k1 = choose|k1: int|
                        0 <= k1 < rest.len() && ur[k - 1].job.id@ == rest[k1].job.id@;
                    assert(rest[k1] == s[k1 + 1]);
                    assert(s[0].job.id@ != s[k1 + 1].job.id@);
                } else if k == 0 {
                    let k1 = choose|k1: int|
                        0 <= k1 < rest.len() && ur[i - 1].job.id@ == rest[k1].job.id@;
                    assert(rest[k1] == s[k1 + 1]);
                    assert(s[0].job.id@ != s[k1 + 1].job.id@);
                } else {
                    assert(u[i] == ur[i - 1]);
                    assert(u[k] == ur[k - 1]);
                }
            }
        }
    }
}

/// No job carries two leases: for a well-formed table, any two entries
/// that name the same job are the same entry.
pub proof fn lemma_lease_per_job(t: Leases, i: int, k: int)
    requires
        t.wf(),
        0 <= i < t.leases@.len(),
        0 <= k < t.leases@.len(),
        t.leases@[i].job.id@ == t.leases@[k].job.id@,
    ensures
        i == k,
{
}

} // verus!
