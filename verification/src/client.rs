//! Client-side conveniences over the wire shapes.

use vstd::prelude::*;
use crate::api::Job;
use crate::jobs::spec_assoc;
use crate::text::str_eq;

verus! {

/// How long a job spent between two recorded phases, in milliseconds.
pub trait ClientJobExt {
    /// The time from the `from` phase to the `until` phase, if both
    /// were recorded and the span is positive.
    fn duration(&self, from: &str, until: &str) -> Option<u64>;
}

/// The recorded times of a job as an association list of views.
pub open spec fn spec_times_of(j: Job) -> Seq<(Seq<char>, i64)> {
    Seq::new(j.times@.len(), |i: int| (j.times@[i].0@, j.times@[i].1))
}

/// Look a phase time up among a job's recorded times.
pub fn time_lookup(times: &Vec<(String, i64)>, name: &str) -> (r: Option<i64>)
    ensures
        r == spec_assoc(Seq::new(times@.len(), |i: int| (times@[i].0@, times@[i].1)), name@),
{
    let ghost m = Seq::new(times@.len(), |i: int| (times@[i].0@, times@[i].1));
    let mut i: usize = times.len();
    proof {
        assert(m.subrange(0, m.len() as int) =~= m);
    }
    while i > 0
        invariant
            i <= times@.len(),
            m == Seq::new(times@.len(), |k: int| (times@[k].0@, times@[k].1)),
            spec_assoc(m, name@) == spec_assoc(m.subrange(0, i as int), name@),
        decreases i,
    {
        proof {
            assert(m.subrange(0, i as int).last() == m[i - 1]);
            assert(m.subrange(0, i as int).drop_last() =~= m.subrange(0, i - 1 as int));
        }
        if str_eq(times[i - 1].0.as_str(), name) {
            return Some(times[i - 1].1);
        }
        i = i - 1;
    }
    proof {
        assert(m.subrange(0, 0) =~= Seq::<(Seq<char>, i64)>::empty());
    }
    None
}

impl ClientJobExt for Job {
    /// The span between two phases: present exactly when both phases
    /// were recorded and `until` came strictly after `from`.
    fn duration(&self, from: &str, until: &str) -> (r: Option<u64>)
        ensures
            match (
                spec_assoc(spec_times_of(*self), from@),
                spec_assoc(spec_times_of(*self), until@),
            ) {
                (Some(f), Some(u)) => {
                    if u > f {
                        r == Some((u - f) as u64)
                    } else {
                        r is None
                    }
                },
                _ => r is None,
            },
    {
        let f = match time_lookup(&self.times, from) {
            Some(f) => f,
            None => {
                return None;
            },
        };
        let u = match time_lookup(&self.times, until) {
            Some(u) => u,
            None => {
                return None;
            },
        };
        if u > f {
            let d: i128 = (u as i128) - (f as i128);
            Some(d as u64)
        } else {
            None
        }
    }
}

} // verus!
