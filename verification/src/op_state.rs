//! Fault configuration and call counting for a single operation.

use vstd::prelude::*;
use crate::rng::{draw_at, next_draw, next_seed};
use crate::types::{Fault, InjectionError};
use std::collections::BTreeSet;

verus! {

broadcast use vstd::laws_cmp::group_laws_cmp;

/// `calls + n`, saturating at `u64::MAX`: the absolute index of the check
/// that comes `n` checks after index `calls`.
pub open spec fn offset_from(calls: u64, n: u64) -> u64 {
    if calls + n > u64::MAX {
        u64::MAX
    } else {
        (calls + n) as u64
    }
}

/// The call index that follows `calls` (wrapping at `u64::MAX`).
pub open spec fn next_index(calls: u64) -> u64 {
    if calls == u64::MAX {
        0
    } else {
        (calls + 1) as u64
    }
}

/// Abstract state of one operation's faults.
pub struct OpModel {
    /// Number of checks counted so far (the index of the next check).
    pub calls: u64,
    /// Absolute indices of the checks that must fail once.
    pub points: Set<u64>,
    /// Chance of failure per check, in units of `1 / PROBABILITY_SCALE`.
    pub probability: u64,
    /// Absolute index from which every check fails.
    pub persist_after: Option<u64>,
}

impl OpModel {
    /// No fault configured and no check counted.
    pub open spec fn empty() -> OpModel {
        OpModel { calls: 0, points: Set::empty(), probability: 0, persist_after: None }
    }

    /// Some fault is configured for this operation.
    pub open spec fn is_active(self) -> bool {
        !self.points.is_empty() || self.probability > 0 || self.persist_after is Some
    }

    /// A check consumes a draw of the generator.
    pub open spec fn draws(self) -> bool {
        self.is_active() && self.probability > 0
    }

    pub open spec fn discrete_hit(self) -> bool {
        self.points.contains(self.calls)
    }

    pub open spec fn probabilistic_hit(self, seed: u64) -> bool {
        self.probability > 0 && draw_at(seed) < self.probability
    }

    pub open spec fn persistent_hit(self) -> bool {
        match self.persist_after {
            Some(p) => self.calls >= p,
            None => false,
        }
    }

    /// Whether the next check fails, the generator standing at `seed`.
    pub open spec fn fires(self, seed: u64) -> bool {
        self.is_active() && (self.discrete_hit() || self.probabilistic_hit(seed)
            || self.persistent_hit())
    }

    /// The state after the next check: an idle operation is left as it is;
    /// otherwise the call is counted and its fail point, if any, consumed.
    pub open spec fn checked(self) -> OpModel {
        if self.is_active() {
            OpModel {
                calls: next_index(self.calls),
                points: self.points.remove(self.calls),
                probability: self.probability,
                persist_after: self.persist_after,
            }
        } else {
            self
        }
    }

    /// The generator's seed after the next check.
    pub open spec fn seed_after(self, seed: u64) -> u64 {
        if self.draws() {
            next_seed(seed)
        } else {
            seed
        }
    }

    /// Relative offsets turned into absolute call indices.
    pub open spec fn armed(self, offsets: Seq<u64>) -> Seq<u64> {
        offsets.map_values(|o: u64| offset_from(self.calls, o))
    }

    /// New absolute points that repeat each other or an armed point.
    pub open spec fn conflicts(self, points: Seq<u64>) -> bool {
        ||| !points.no_duplicates()
        ||| exists|i: int| 0 <= i < points.len() && self.points.contains(#[trigger] points[i])
    }

    /// The state with new absolute points added and the given probability and
    /// relative persistence (if any) set.
    pub open spec fn rearmed(
        self,
        points: Seq<u64>,
        probability: Option<u64>,
        persist: Option<u64>,
    ) -> OpModel {
        OpModel {
            calls: self.calls,
            points: self.points + points.to_set(),
            probability: match probability {
                Some(p) => p,
                None => self.probability,
            },
            persist_after: match persist {
                Some(n) => Some(offset_from(self.calls, n)),
                None => self.persist_after,
            },
        }
    }

    /// The outcome of injecting relative `offsets`, `probability` and `persist`.
    pub open spec fn arm_result(
        self,
        offsets: Seq<u64>,
        probability: Option<u64>,
        persist: Option<u64>,
    ) -> Result<OpModel, InjectionError> {
        if self.conflicts(self.armed(offsets)) {
            Err(InjectionError::DuplicateFailPoint)
        } else {
            Ok(self.rearmed(self.armed(offsets), probability, persist))
        }
    }

    /// The outcome of injecting `f` into this operation.
    pub open spec fn with_fault(self, f: Fault) -> Result<OpModel, InjectionError> {
        self.arm_result(f.offsets(), f.new_probability(), f.new_persistence())
    }

    pub open spec fn persistent_count(self) -> nat {
        if self.persist_after is Some {
            1
        } else {
            0
        }
    }

    pub open spec fn probabilistic_count(self) -> nat {
        if self.probability > 0 {
            1
        } else {
            0
        }
    }
}

/// Faults configured for one operation, and its count of checks.
#[derive(Debug)]
pub struct OpState {
    calls: u64,
    fail_points: Vec<u64>,
    probability: u64,
    persist_after: Option<u64>,
}

impl View for OpState {
    type V = OpModel;

    closed spec fn view(&self) -> OpModel {
        OpModel {
            calls: self.calls,
            points: self.fail_points@.to_set(),
            probability: self.probability,
            persist_after: self.persist_after,
        }
    }
}

proof fn lemma_empty_seq_set(s: Seq<u64>)
    ensures
        s.len() == 0 <==> s.to_set().is_empty(),
{
    if s.len() == 0 {
        assert(s.to_set() =~= Set::<u64>::empty());
    } else {
        assert(s.to_set().contains(s[0]));
    }
}

proof fn lemma_remove_point(s: Seq<u64>, i: int)
    requires
        s.no_duplicates(),
        0 <= i < s.len(),
    ensures
        s.remove(i).no_duplicates(),
        s.remove(i).to_set() =~= s.to_set().remove(s[i]),
{
    let r = s.remove(i);
    assert forall|a: int, b: int| 0 <= a < r.len() && 0 <= b < r.len() && a != b implies r[a]
        != r[b] by {
        let sa = if a < i { a } else { a + 1 };
        let sb = if b < i { b } else { b + 1 };
        assert(r[a] == s[sa]);
        assert(r[b] == s[sb]);
    }
    assert forall|x: u64| #[trigger] r.to_set().contains(x) <==> s.to_set().remove(s[i]).contains(
        x,
    ) by {
        if r.to_set().contains(x) {
            let a = choose|a: int| 0 <= a < r.len() && r[a] == x;
            let sa = if a < i { a } else { a + 1 };
            assert(s[sa] == x);
            assert(s.contains(x));
        }
        if s.to_set().remove(s[i]).contains(x) {
            let a = choose|a: int| 0 <= a < s.len() && s[a] == x;
            assert(a != i);
            let ra = if a < i { a } else { a - 1 };
            assert(r[ra] == x);
            assert(r.contains(x));
        }
    }
}

proof fn lemma_append_points(s: Seq<u64>, t: Seq<u64>)
    requires
        s.no_duplicates(),
        t.no_duplicates(),
        forall|i: int| 0 <= i < t.len() ==> !s.contains(#[trigger] t[i]),
    ensures
        (s + t).no_duplicates(),
        (s + t).to_set() =~= s.to_set() + t.to_set(),
{
    let u = s + t;
    assert forall|a: int, b: int| 0 <= a < u.len() && 0 <= b < u.len() && a != b implies u[a]
        != u[b] by {
        if a < s.len() && b >= s.len() {
            assert(u[b] == t[b - s.len()]);
            assert(s.contains(u[a]));
        } else if b < s.len() && a >= s.len() {
            assert(u[a] == t[a - s.len()]);
            assert(s.contains(u[b]));
        } else if a >= s.len() {
            assert(u[a] == t[a - s.len()]);
            assert(u[b] == t[b - s.len()]);
        }
    }
    assert forall|x: u64| #[trigger] u.to_set().contains(x) <==> (s.to_set() + t.to_set()).contains(
        x,
    ) by {
        if u.contains(x) {
            let a = choose|a: int| 0 <= a < u.len() && u[a] == x;
            if a < s.len() {
                assert(s.contains(x));
            } else {
                assert(t[a - s.len()] == x);
                assert(t.contains(x));
            }
        }
        if s.contains(x) {
            let a = choose|a: int| 0 <= a < s.len() && s[a] == x;
            assert(u[a] == x);
            assert(u.contains(x));
        }
        if t.contains(x) {
            let a = choose|a: int| 0 <= a < t.len() && t[a] == x;
            assert(u[a + s.len()] == x);
            assert(u.contains(x));
        }
    }
}

proof fn lemma_take_one_more(s: Seq<u64>, j: int)
    requires
        0 <= j < s.len(),
    ensures
        s.take(j + 1).to_set() =~= s.take(j).to_set().insert(s[j]),
{
    let t = s.take(j + 1);
    let u = s.take(j);
    assert forall|x: u64| #[trigger] t.contains(x) <==> u.to_set().insert(s[j]).contains(x) by {
        if x == s[j] {
            assert(t[j] == x);
        }
        if u.contains(x) {
            let a = choose|a: int| 0 <= a < j && u[a] == x;
            assert(t[a] == x);
        }
        if t.contains(x) {
            let a = choose|a: int| 0 <= a < j + 1 && t[a] == x;
            if a < j {
                assert(u[a] == x);
            }
        }
    }
}

/// Index of `x` in `v`, if `v` holds it.
fn position_of(v: &Vec<u64>, x: u64) -> (r: Option<usize>)
    ensures
        match r {
            Some(i) => i < v.len() && v@[i as int] == x,
            None => !v@.contains(x),
        },
{
    let len = v.len();
    let mut i: usize = 0;
    while i < len
        invariant
            len == v.len(),
            i <= len,
            forall|j: int| 0 <= j < i ==> v@[j] != x,
        decreases len - i,
    {
        if v[i] == x {
            return Some(i);
        }
        i = i + 1;
    }
    None
}

impl OpState {
    /// No fail point is armed twice.
    pub closed spec fn wf(&self) -> bool {
        self.fail_points@.no_duplicates()
    }

    /// A state with no fault and no counted check.
    pub fn new() -> (s: OpState)
        ensures
            s.wf(),
            s@ == OpModel::empty(),
    {
        let s = OpState { calls: 0, fail_points: Vec::new(), probability: 0, persist_after: None };
        assert(s.fail_points@.to_set() =~= Set::<u64>::empty());
        s
    }

    /// True when this operation has any fault configured.
    pub fn is_active(&self) -> (b: bool)
        ensures
            b == self@.is_active(),
    {
        proof {
            lemma_empty_seq_set(self.fail_points@);
        }
        !self.fail_points.is_empty() || self.probability > 0 || self.persist_after.is_some()
    }

    /// Decides whether this check fails, counting it and consuming its fail
    /// point. An operation with no fault configured is left untouched (its
    /// count does not advance). A draw of the generator is consumed only when
    /// a probability is set.
    pub fn check(&mut self, seed: &mut u64) -> (fired: bool)
        requires
            old(self).wf(),
        ensures
            final(self).wf(),
            fired == old(self)@.fires(*old(seed)),
            final(self)@ == old(self)@.checked(),
            *final(seed) == old(self)@.seed_after(*old(seed)),
    {
        if !self.is_active() {
            return false;
        }
        let ghost pre = self@;
        let ghost pre_points = self.fail_points@;
        let current = self.calls;
        self.calls = self.calls.wrapping_add(1);
        let discrete_hit = match position_of(&self.fail_points, current) {
            Some(i) => {
                proof {
                    lemma_remove_point(pre_points, i as int);
                }
                self.fail_points.remove(i);
                true
            },
            None => {
                assert(pre_points.to_set().remove(current) =~= pre_points.to_set());
                false
            },
        };
        let mut probabilistic_hit = false;
        if self.probability > 0 {
            let draw = next_draw(seed);
            probabilistic_hit = draw < self.probability;
        }
        let persistent_hit = match self.persist_after {
            Some(p) => current >= p,
            None => false,
        };
        assert(self@.points =~= pre.points.remove(current));
        discrete_hit || probabilistic_hit || persistent_hit
    }

    /// Arms the absolute points `calls + offsets[i]` (saturating) and sets the
    /// given probability and relative persistence. The whole request is
    /// validated first: if a new point repeats another new point or an armed
    /// one, nothing changes and `DuplicateFailPoint` is returned.
    pub fn arm(&mut self, offsets: Vec<u64>, probability: Option<u64>, persist: Option<u64>) -> (r:
        Result<(), InjectionError>)
        requires
            old(self).wf(),
        ensures
            final(self).wf(),
            match r {
                Ok(()) => old(self)@.arm_result(offsets@, probability, persist) == Ok::<
                    OpModel,
                    InjectionError,
                >(final(self)@),
                Err(e) => old(self)@.arm_result(offsets@, probability, persist) == Err::<
                    OpModel,
                    InjectionError,
                >(e) && final(self)@ == old(self)@,
            },
    {
        let calls = self.calls;
        let ghost armed = self@.armed(offsets@);
        let mut new_points: Vec<u64> = Vec::new();
        let n = offsets.len();
        let mut i: usize = 0;
        while i < n
            invariant
                n == offsets.len(),
                i <= n,
                armed == offsets@.map_values(|o: u64| offset_from(calls, o)),
                new_points@ == armed.take(i as int),
            decreases n - i,
        {
            new_points.push(calls.saturating_add(offsets[i]));
            assert(armed.take(i + 1) =~= armed.take(i as int).push(armed[i as int]));
            i = i + 1;
        }
        assert(new_points@ =~= armed);
        if new_points.len() > 0 {
            let mut seen: BTreeSet<u64> = BTreeSet::new();
            let m = self.fail_points.len();
            let mut j: usize = 0;
            while j < m
                invariant
                    m == self.fail_points.len(),
                    j <= m,
                    self.wf(),
                    self@ == old(self)@,
                    seen@ == self.fail_points@.take(j as int).to_set(),
                decreases m - j,
            {
                seen.insert(self.fail_points[j]);
                assert(self.fail_points@.take(j + 1) =~= self.fail_points@.take(j as int).push(
                    self.fail_points@[j as int],
                ));
                proof {
                    lemma_take_one_more(self.fail_points@, j as int);
                }
                j = j + 1;
            }
            assert(self.fail_points@.take(m as int) =~= self.fail_points@);
            let k = new_points.len();
            let mut j: usize = 0;
            while j < k
                invariant
                    k == new_points.len(),
                    j <= k,
                    self.wf(),
                    self@ == old(self)@,
                    armed == old(self)@.armed(offsets@),
                    new_points@ == armed,
                    seen@ == self@.points + armed.take(j as int).to_set(),
                    armed.take(j as int).no_duplicates(),
                    forall|a: int| 0 <= a < j ==> !self@.points.contains(#[trigger] armed[a]),
                decreases k - j,
            {
                let p = new_points[j];
                assert(armed.take(j + 1) =~= armed.take(j as int).push(p));
                let fresh = seen.insert(p);
                proof {
                    lemma_take_one_more(armed, j as int);
                    assert(seen@ =~= self@.points + armed.take(j + 1).to_set());
                }
                if !fresh {
                    proof {
                        if self@.points.contains(p) {
                            assert(self@.conflicts(armed));
                        } else {
                            let a = choose|a: int| 0 <= a < j && armed.take(j as int)[a] == p;
                            assert(armed[a] == armed[j as int]);
                            assert(!armed.no_duplicates());
                        }
                    }
                    return Err(InjectionError::DuplicateFailPoint);
                }
                assert(armed.take(j + 1).no_duplicates()) by {
                    let t = armed.take(j + 1);
                    assert forall|a: int, b: int|
                        0 <= a < t.len() && 0 <= b < t.len() && a != b implies #[trigger] t[a]
                        != #[trigger] t[b] by {
                        if a == j {
                            assert(armed.take(j as int)[b] == armed[b]);
                            assert(armed.take(j as int).contains(armed[b]));
                        } else if b == j {
                            assert(armed.take(j as int)[a] == armed[a]);
                            assert(armed.take(j as int).contains(armed[a]));
                        }
                    }
                }
                j = j + 1;
            }
            assert(armed.take(k as int) =~= armed);
        }
        assert(!self@.conflicts(armed));
        proof {
            lemma_append_points(self.fail_points@, armed);
        }
        self.fail_points.append(&mut new_points);
        if let Some(p) = probability {
            self.probability = p;
        }
        if let Some(n) = persist {
            self.persist_after = Some(calls.saturating_add(n));
        }
        Ok(())
    }

    /// A copy of this state.
    pub fn snapshot(&self) -> (s: OpState)
        ensures
            s@ == self@,
            s.wf() == self.wf(),
    {
        OpState {
            calls: self.calls,
            fail_points: self.fail_points.clone(),
            probability: self.probability,
            persist_after: self.persist_after,
        }
    }

    /// Number of armed fail points.
    pub fn fail_point_count(&self) -> (n: usize)
        requires
            self.wf(),
        ensures
            n == self@.points.len(),
    {
        proof {
            self.fail_points@.unique_seq_to_set();
        }
        self.fail_points.len()
    }

    /// 1 when a persistent fault is set, else 0.
    pub fn persistent_count(&self) -> (n: usize)
        ensures
            n == self@.persistent_count(),
    {
        if self.persist_after.is_some() {
            1
        } else {
            0
        }
    }

    /// 1 when a positive probability is set, else 0.
    pub fn probabilistic_count(&self) -> (n: usize)
        ensures
            n == self@.probabilistic_count(),
    {
        if self.probability > 0 {
            1
        } else {
            0
        }
    }
}

} // verus!
