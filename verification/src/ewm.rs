//! The exponentially weighted moving-average state machine: when the
//! running state is initialized, how the observation count evolves, and
//! which items produce an output. The numeric steps are taken as
//! caller-supplied functions — the kernel's arithmetic is floating
//! point, which the verified core does not model — and the control logic
//! here is proved for every behaviour of those functions.

use vstd::prelude::*;
use crate::util::copy_vec;

verus! {

/// How many of the values are present (not missing).
pub open spec fn n_somes<T>(s: Seq<Option<T>>) -> nat
    decreases s.len(),
{
    if s.len() == 0 {
        0
    } else {
        n_somes(s.drop_last()) + (if s.last() is Some {
            1nat
        } else {
            0nat
        })
    }
}

/// Extending a prefix by one value raises the count by one exactly when
/// that value is present.
proof fn lemma_n_somes_take<T>(s: Seq<Option<T>>, i: int)
    requires
        0 <= i < s.len(),
    ensures
        n_somes(s.take(i + 1)) == n_somes(s.take(i)) + (if s[i] is Some {
            1nat
        } else {
            0nat
        }),
{
    assert(s.take(i + 1).drop_last() =~= s.take(i));
    assert(s.take(i + 1).last() == s[i]);
}

/// No more values are present than there are values.
proof fn lemma_n_somes_le<T>(s: Seq<Option<T>>)
    ensures
        n_somes(s) <= s.len(),
    decreases s.len(),
{
    if s.len() > 0 {
        lemma_n_somes_le(s.drop_last());
    }
}

/// The running state of an exponentially weighted moving average over a
/// stream of optional values.
pub struct EwmMeanState<T> {
    /// The weighted mean and its weight, once the first value was seen.
    state: Option<(T, T)>,
    alpha: T,
    non_null_count: usize,
    adjust: bool,
    min_periods: usize,
    ignore_nulls: bool,
}

impl<T: Copy> EwmMeanState<T> {
    /// The state holds a running mean exactly after the first present
    /// value, and at least one observation is always demanded before an
    /// output is produced.
    pub closed spec fn wf(&self) -> bool {
        &&& (self.state is Some <==> self.non_null_count > 0)
        &&& self.min_periods >= 1
    }

    /// How many present values have been observed.
    pub closed spec fn seen(&self) -> nat {
        self.non_null_count as nat
    }

    /// How many present values an output demands.
    pub closed spec fn min_needed(&self) -> nat {
        self.min_periods as nat
    }

    /// Whether missing values leave the weight untouched.
    pub closed spec fn ignores_nulls(&self) -> bool {
        self.ignore_nulls
    }

    /// Whether weights accumulate instead of being renormalized.
    pub closed spec fn adjusts(&self) -> bool {
        self.adjust
    }

    /// The smoothing factor handed to `new`.
    pub closed spec fn smoothing(&self) -> T {
        self.alpha
    }

    /// The smoothing factor handed to `new`, back as a value.
    pub fn alpha(&self) -> (r: T)
        ensures
            r == self.smoothing(),
    {
        self.alpha
    }

    /// Whether weights accumulate instead of being renormalized.
    pub fn adjust(&self) -> (r: bool)
        ensures
            r == self.adjusts(),
    {
        self.adjust
    }

    /// Whether missing values leave the weight untouched.
    pub fn ignore_nulls(&self) -> (r: bool)
        ensures
            r == self.ignores_nulls(),
    {
        self.ignore_nulls
    }

    /// How many present values have been observed.
    pub fn count(&self) -> (r: usize)
        ensures
            r == self.seen(),
    {
        self.non_null_count
    }

    /// A fresh state: nothing observed yet; at least one observation is
    /// demanded before an output, even when `min_periods` says zero.
    pub fn new(alpha: T, adjust: bool, min_periods: usize, ignore_nulls: bool) -> (r: Self)
        ensures
            r.wf(),
            r.seen() == 0,
            r.min_needed() == if min_periods >= 1 {
                min_periods as nat
            } else {
                1nat
            },
            r.adjusts() == adjust,
            r.ignores_nulls() == ignore_nulls,
            r.smoothing() == alpha,
    {
        EwmMeanState {
            state: None,
            alpha,
            non_null_count: 0,
            adjust,
            min_periods: if min_periods < 1 {
                1
            } else {
                min_periods
            },
            ignore_nulls,
        }
    }

    /// Feeds a batch of optional values through the state, one by one,
    /// and returns one optional output per input: an output is present
    /// exactly for a present input once enough values have been
    /// observed. The supplied functions perform the arithmetic: `init`
    /// turns the first value into mean and weight, `decay` ages a
    /// weight, and `blend` folds a value into mean and aged weight.
    #[verifier::loop_isolation(false)]
    pub fn update_iter<I: Fn(T) -> (T, T), D: Fn(T) -> T, B: Fn(T, T, T) -> (T, T)>(
        &mut self,
        values: Vec<Option<T>>,
        init: &I,
        decay: &D,
        blend: &B,
    ) -> (r: Vec<Option<T>>)
        requires
            old(self).wf(),
            old(self).seen() + values@.len() <= usize::MAX,
            forall|v: T| #[trigger] call_requires(*init, (v,)),
            forall|w: T| #[trigger] call_requires(*decay, (w,)),
            forall|m: T, w: T, v: T| #[trigger] call_requires(*blend, (m, w, v)),
        ensures
            final(self).wf(),
            r@.len() == values@.len(),
            final(self).seen() == old(self).seen() + n_somes(values@),
            final(self).min_needed() == old(self).min_needed(),
            final(self).adjusts() == old(self).adjusts(),
            final(self).ignores_nulls() == old(self).ignores_nulls(),
            final(self).smoothing() == old(self).smoothing(),
            forall|i: int|
                0 <= i < values@.len() ==> ((#[trigger] r@[i]) is Some <==> (values@[i] is Some
                    && old(self).seen() + n_somes(values@.take(i + 1)) >= old(self).min_needed())),
    {
        let n = values.len();
        let mut out: Vec<Option<T>> = Vec::new();
        let mut i: usize = 0;
        while i < n
            invariant
                i <= n,
                n == values@.len(),
                out@.len() == i,
                self.wf(),
                self.non_null_count as nat == old(self).seen() + n_somes(values@.take(i as int)),
                self.min_periods == old(self).min_needed(),
                self.adjust == old(self).adjusts(),
                self.ignore_nulls == old(self).ignores_nulls(),
                self.alpha == old(self).smoothing(),
                forall|j: int|
                    0 <= j < i ==> ((#[trigger] out@[j]) is Some <==> (values@[j] is Some && old(
                        self,
                    ).seen() + n_somes(values@.take(j + 1)) >= old(self).min_needed())),
            decreases n - i,
        {
            proof {
                lemma_n_somes_take(values@, i as int);
                lemma_n_somes_le(values@.take(i as int));
                lemma_n_somes_le(values@);
            }
            match values[i] {
                Some(v) => {
                    match self.state {
                        None => {
                            self.state = Some(init(v));
                            self.non_null_count = 1;
                        },
                        Some((mean, weight)) => {
                            let aged = decay(weight);
                            self.state = Some(blend(mean, aged, v));
                            self.non_null_count = self.non_null_count + 1;
                        },
                    }
                    if self.non_null_count >= self.min_periods {
                        match self.state {
                            Some((mean, _)) => out.push(Some(mean)),
                            None => out.push(None),
                        }
                    } else {
                        out.push(None);
                    }
                },
                None => {
                    match self.state {
                        Some((mean, weight)) => {
                            if !self.ignore_nulls {
                                self.state = Some((mean, decay(weight)));
                            }
                        },
                        None => {},
                    }
                    out.push(None);
                },
            }
            i = i + 1;
        }
        proof {
            assert(values@.take(n as int) =~= values@);
        }
        out
    }

    /// As [`EwmMeanState::update_iter`], over a borrowed batch.
    pub fn update<I: Fn(T) -> (T, T), D: Fn(T) -> T, B: Fn(T, T, T) -> (T, T)>(
        &mut self,
        values: &Vec<Option<T>>,
        init: &I,
        decay: &D,
        blend: &B,
    ) -> (r: Vec<Option<T>>)
        requires
            old(self).wf(),
            old(self).seen() + values@.len() <= usize::MAX,
            forall|v: T| #[trigger] call_requires(*init, (v,)),
            forall|w: T| #[trigger] call_requires(*decay, (w,)),
            forall|m: T, w: T, v: T| #[trigger] call_requires(*blend, (m, w, v)),
        ensures
            final(self).wf(),
            r@.len() == values@.len(),
            final(self).seen() == old(self).seen() + n_somes(values@),
            final(self).min_needed() == old(self).min_needed(),
            final(self).adjusts() == old(self).adjusts(),
            final(self).ignores_nulls() == old(self).ignores_nulls(),
            final(self).smoothing() == old(self).smoothing(),
            forall|i: int|
                0 <= i < values@.len() ==> ((#[trigger] r@[i]) is Some <==> (values@[i] is Some
                    && old(self).seen() + n_somes(values@.take(i + 1)) >= old(self).min_needed())),
    {
        self.update_iter(copy_vec(values), init, decay, blend)
    }
}

} // verus!
