//! Properties of fault injection that span several operations or calls.

use vstd::prelude::*;
use crate::fault_state::FaultModel;
use crate::op_state::{offset_from, OpModel};
use crate::registry::RegistryModel;
use crate::rng::lemma_draw_below_scale;
use crate::types::{Fault, Operation, PROBABILITY_SCALE};

verus! {

/// The state of an operation, and the generator's seed, after `k` checks.
pub open spec fn checks_from(m: OpModel, seed: u64, k: nat) -> (OpModel, u64)
    decreases k,
{
    if k == 0 {
        (m, seed)
    } else {
        let prev = checks_from(m, seed, (k - 1) as nat);
        (prev.0.checked(), prev.0.seed_after(prev.1))
    }
}

/// Whether the check that follows `k` earlier checks fails (counting from 0).
pub open spec fn fires_at(m: OpModel, seed: u64, k: nat) -> bool {
    checks_from(m, seed, k).0.fires(checks_from(m, seed, k).1)
}

/// A check never turns on a fault: if no operation of a scope had a fault
/// configured before checking `op`, none has one afterwards.
pub proof fn lemma_check_keeps_consistency(m: FaultModel, op: Operation)
    ensures
        m.checked(op).any_active() ==> m.any_active(),
{
    let o = m.get(op);
    if o.is_active() {
        assert(o.checked().points.subset_of(o.points));
        if !o.checked().points.is_empty() {
            let x = choose|x: u64| o.checked().points.contains(x);
            assert(o.points.contains(x));
        }
    }
}

/// Checking an operation with no fault configured fails nothing, changes
/// nothing (not even its count of checks) and draws nothing.
pub proof fn lemma_idle_check_changes_nothing(m: OpModel, seed: u64)
    requires
        !m.is_active(),
    ensures
        !m.fires(seed),
        m.checked() == m,
        m.seed_after(seed) == seed,
{
}

proof fn lemma_discrete_run(m: OpModel, seed: u64, j: nat)
    requires
        m.probability == 0,
        m.persist_after is None,
        forall|p: u64| m.points.contains(p) ==> p >= m.calls,
        m.calls + j <= u64::MAX,
    ensures
        checks_from(m, seed, j).0.probability == 0,
        checks_from(m, seed, j).0.persist_after is None,
        checks_from(m, seed, j).0.points =~= m.points.filter(|p: u64| p >= m.calls + j),
        !checks_from(m, seed, j).0.points.is_empty() ==> checks_from(m, seed, j).0.calls
            == m.calls + j,
    decreases j,
{
    if j == 0 {
        assert(m.points.filter(|p: u64| p >= m.calls + 0) =~= m.points);
    } else {
        lemma_discrete_run(m, seed, (j - 1) as nat);
        let prev = checks_from(m, seed, (j - 1) as nat).0;
        let next = checks_from(m, seed, j).0;
        assert(next == prev.checked());
        if prev.is_active() {
            assert(!prev.points.is_empty());
            assert(next.points =~= m.points.filter(|p: u64| p >= m.calls + j));
        } else {
            assert(prev.points =~= Set::<u64>::empty());
            assert(m.points.filter(|p: u64| p >= m.calls + j) =~= Set::<u64>::empty()) by {
                assert forall|p: u64| #[trigger] m.points.contains(p) implies !(p >= m.calls + j) by {
                    if p >= m.calls + j {
                        assert(m.points.filter(|p: u64| p >= m.calls + (j - 1)).contains(p));
                    }
                }
            }
        }
    }
}

/// Discrete fail points fire exactly at their index: with no probability and
/// no persistence, and no armed point behind the count, the check that follows
/// `k` earlier checks fails if and only if `calls + k` is an armed point.
pub proof fn lemma_fail_points_fire_at_their_index(m: OpModel, seed: u64, k: nat)
    requires
        m.probability == 0,
        m.persist_after is None,
        forall|p: u64| m.points.contains(p) ==> p >= m.calls,
        m.calls + k <= u64::MAX,
    ensures
        fires_at(m, seed, k) <==> m.points.contains((m.calls + k) as u64),
{
    lemma_discrete_run(m, seed, k);
    let s = checks_from(m, seed, k).0;
    if m.points.contains((m.calls + k) as u64) {
        assert(s.points.contains((m.calls + k) as u64));
    }
}

/// Fail points are relative to the current count: injecting a fault whose
/// relative fail points are `f.offsets()` (no probability, no persistence) into
/// an operation with nothing configured makes the check that follows `k`
/// further checks fail exactly when `k` is one of the offsets.
pub proof fn lemma_relative_fail_points(m: OpModel, f: Fault, seed: u64, k: nat)
    requires
        !m.is_active(),
        f.new_probability() is None,
        f.new_persistence() is None,
        f.offsets().no_duplicates(),
        forall|i: int| 0 <= i < f.offsets().len() ==> m.calls + #[trigger] f.offsets()[i] <= u64::MAX,
        m.calls + k <= u64::MAX,
    ensures
        m.with_fault(f) is Ok,
        fires_at(m.with_fault(f)->Ok_0, seed, k) <==> f.offsets().contains(k as u64),
{
    let offs = f.offsets();
    let pts = m.armed(offs);
    assert(m.points =~= Set::<u64>::empty());
    assert forall|a: int, b: int| 0 <= a < pts.len() && 0 <= b < pts.len() && a != b implies #[trigger] pts[a]
        != #[trigger] pts[b] by {
        assert(pts[a] == m.calls + offs[a]);
        assert(pts[b] == m.calls + offs[b]);
        assert(offs[a] != offs[b]);
    }
    assert(!m.conflicts(pts));
    let m2 = m.with_fault(f)->Ok_0;
    assert(m2.points =~= pts.to_set());
    assert forall|p: u64| m2.points.contains(p) implies p >= m2.calls by {
        let i = choose|i: int| 0 <= i < pts.len() && pts[i] == p;
        assert(pts[i] == offset_from(m.calls, offs[i]));
    }
    lemma_fail_points_fire_at_their_index(m2, seed, k);
    let target = (m.calls + k) as u64;
    if offs.contains(k as u64) {
        let i = choose|i: int| 0 <= i < offs.len() && offs[i] == k as u64;
        assert(pts[i] == target);
        assert(pts.contains(target));
    }
    if m2.points.contains(target) {
        let i = choose|i: int| 0 <= i < pts.len() && pts[i] == target;
        assert(pts[i] == offset_from(m.calls, offs[i]));
        assert(offs[i] == k);
        assert(offs.contains(k as u64));
    }
}

proof fn lemma_persistent_run(m: OpModel, seed: u64, j: nat)
    requires
        m.points.is_empty(),
        m.probability == 0,
        m.persist_after is Some,
        m.calls + j <= u64::MAX,
    ensures
        checks_from(m, seed, j).0 == (OpModel { calls: (m.calls + j) as u64, ..m }),
    decreases j,
{
    if j > 0 {
        lemma_persistent_run(m, seed, (j - 1) as nat);
        let prev = checks_from(m, seed, (j - 1) as nat).0;
        assert(prev.points.remove(prev.calls) =~= prev.points);
    }
}

/// A persistent fault fires on every check from its start on, and (alone)
/// on no check before it.
pub proof fn lemma_persistent_fires_from_its_start(m: OpModel, seed: u64, k: nat)
    requires
        m.points.is_empty(),
        m.probability == 0,
        m.persist_after is Some,
        m.calls + k <= u64::MAX,
    ensures
        fires_at(m, seed, k) <==> m.calls + k >= m.persist_after->Some_0,
{
    lemma_persistent_run(m, seed, k);
}

/// Persistence is relative to the current count: injecting
/// `Persistent { fail_after: n }` into an operation with nothing configured
/// lets exactly `n` further checks pass and fails every one after.
pub proof fn lemma_relative_persistence(m: OpModel, op: Operation, n: u64, seed: u64, k: nat)
    requires
        !m.is_active(),
        m.calls + n <= u64::MAX,
        m.calls + k <= u64::MAX,
    ensures
        m.with_fault(Fault::Persistent { op, fail_after: n }) is Ok,
        fires_at(m.with_fault(Fault::Persistent { op, fail_after: n })->Ok_0, seed, k) <==> k >= n,
{
    let f = Fault::Persistent { op, fail_after: n };
    assert(m.armed(f.offsets()) =~= Seq::<u64>::empty());
    assert(!m.conflicts(m.armed(f.offsets())));
    let m2 = m.with_fault(f)->Ok_0;
    assert(m.points =~= Set::<u64>::empty());
    assert(m2.points =~= Set::<u64>::empty());
    lemma_persistent_fires_from_its_start(m2, seed, k);
}

proof fn lemma_certain_run(m: OpModel, seed: u64, j: nat)
    requires
        m.probability >= PROBABILITY_SCALE,
    ensures
        checks_from(m, seed, j).0.probability == m.probability,
    decreases j,
{
    if j > 0 {
        lemma_certain_run(m, seed, (j - 1) as nat);
    }
}

/// A probability of `PROBABILITY_SCALE` or more fails every check.
pub proof fn lemma_certain_probability_always_fires(m: OpModel, seed: u64, k: nat)
    requires
        m.probability >= PROBABILITY_SCALE,
    ensures
        fires_at(m, seed, k),
{
    lemma_certain_run(m, seed, k);
    lemma_draw_below_scale(checks_from(m, seed, k).1);
}

/// A zero probability adds no failure and consumes no draw.
pub proof fn lemma_zero_probability_never_draws(m: OpModel, seed: u64)
    requires
        m.probability == 0,
    ensures
        m.fires(seed) == (m.is_active() && (m.discrete_hit() || m.persistent_hit())),
        m.seed_after(seed) == seed,
{
}

/// When neither this thread nor the process has a fault enabled, no check
/// fails and checking changes nothing.
pub proof fn lemma_disabled_never_fires(r: RegistryModel, op: Operation)
    requires
        r.consistent(),
        !r.is_enabled(),
    ensures
        !r.fires(op),
        r.checked(op) == r,
{
    assert(!r.local.get(op).is_active());
}

/// After `clear`, fault injection is disabled and no check fails.
pub proof fn lemma_cleared_is_quiet(r: RegistryModel, op: Operation)
    ensures
        r.cleared().consistent(),
        !r.cleared().is_enabled(),
        !r.cleared().fires(op),
        r.cleared().checked(op) == r.cleared(),
        r.cleared().summary() == (crate::types::ClearedFaults {
            mmap: 0,
            read: 0,
            write: 0,
            alloc: 0,
            send: 0,
            persistent: 0,
            probabilistic: 0,
        }),
{
    lemma_disabled_never_fires(r.cleared(), op);
}

/// Thread-scoped injection never touches what other threads see.
pub proof fn lemma_thread_injection_is_isolated(r: RegistryModel, f: Fault)
    requires
        r.injected(f) is Ok,
    ensures
        r.injected(f)->Ok_0.global == r.global,
        r.injected(f)->Ok_0.enabled == r.enabled,
        forall|op: Operation| op != f.target() ==> #[trigger] r.injected(f)->Ok_0.local.get(op)
            == r.local.get(op),
{
}

/// A check decided by a thread-scoped fault leaves the process-wide faults
/// untouched.
pub proof fn lemma_thread_check_is_isolated(r: RegistryModel, op: Operation)
    requires
        r.local.get(op).is_active(),
    ensures
        r.checked(op).global == r.global,
        r.checked(op).enabled == r.enabled,
{
}

/// Restoring a guard touches only the guarded operation, in its own scope.
pub proof fn lemma_restore_touches_only_its_operation(
    r: RegistryModel,
    op: Operation,
    saved: OpModel,
    global: bool,
    other: Operation,
)
    requires
        other != op,
    ensures
        r.restored(op, saved, global).local.get(other) == r.local.get(other),
        r.restored(op, saved, global).global.get(other) == r.global.get(other),
        global ==> r.restored(op, saved, global).local == r.local,
        !global ==> r.restored(op, saved, global).global == r.global,
        !global ==> r.restored(op, saved, global).enabled == r.enabled,
{
}

/// A thread-scoped injection followed by the restoration of its guard leaves
/// the registry exactly as it was.
pub proof fn lemma_scoped_injection_undone(r: RegistryModel, f: Fault)
    requires
        r.injected(f) is Ok,
    ensures
        r.injected(f)->Ok_0.restored(f.target(), r.local.get(f.target()), false) == r,
{
    let r2 = r.injected(f)->Ok_0;
    let op = f.target();
    assert(r2.local.set(op, r.local.get(op)) == r.local) by {
        match op {
            Operation::Mmap => {},
            Operation::Read => {},
            Operation::Write => {},
            Operation::Alloc => {},
            Operation::Send => {},
        }
    }
}

/// A process-wide injection followed by the restoration of its guard leaves
/// the registry as it was, provided the process-wide flag was exact (it is
/// recomputed on restoration).
pub proof fn lemma_scoped_global_injection_undone(r: RegistryModel, f: Fault)
    requires
        r.injected_global(f) is Ok,
        r.enabled == r.global.any_active(),
    ensures
        r.injected_global(f)->Ok_0.restored(f.target(), r.global.get(f.target()), true) == r,
{
    let r2 = r.injected_global(f)->Ok_0;
    let op = f.target();
    assert(r2.global.set(op, r.global.get(op)) == r.global) by {
        match op {
            Operation::Mmap => {},
            Operation::Read => {},
            Operation::Write => {},
            Operation::Alloc => {},
            Operation::Send => {},
        }
    }
}

/// A successful process-wide injection that configures a fault makes it
/// visible: fault injection is then enabled for every thread.
pub proof fn lemma_global_injection_enables(r: RegistryModel, f: Fault)
    requires
        r.injected_global(f) is Ok,
        r.injected_global(f)->Ok_0.global.get(f.target()).is_active(),
    ensures
        r.injected_global(f)->Ok_0.enabled,
        r.injected_global(f)->Ok_0.is_enabled(),
{
    let g = r.injected_global(f)->Ok_0.global;
    match f.target() {
        Operation::Mmap => assert(g.mmap.is_active()),
        Operation::Read => assert(g.read.is_active()),
        Operation::Write => assert(g.write.is_active()),
        Operation::Alloc => assert(g.alloc.is_active()),
        Operation::Send => assert(g.send.is_active()),
    }
}

/// A fault that asks for no fail point, no probability and no persistence
/// (an empty `Multiple`) is accepted and changes nothing, so it does not
/// enable fault injection either.
pub proof fn lemma_empty_fault_changes_nothing(m: OpModel, f: Fault)
    requires
        f.offsets().len() == 0,
        f.new_probability() is None,
        f.new_persistence() is None,
    ensures
        m.with_fault(f) == Ok::<OpModel, crate::types::InjectionError>(m),
{
    assert(m.armed(f.offsets()) =~= Seq::<u64>::empty());
    assert(m.points + Seq::<u64>::empty().to_set() =~= m.points);
}

/// The fail point of the check being made is consumed whether or not a
/// probabilistic or persistent fault also fired: none is left behind.
pub proof fn lemma_checked_point_is_consumed(m: OpModel)
    requires
        m.is_active(),
    ensures
        !m.checked().points.contains(m.calls),
        m.checked().points.subset_of(m.points),
        m.checked().calls == crate::op_state::next_index(m.calls),
{
}

/// A refused injection changes nothing, in either scope.
pub proof fn lemma_refused_injection_is_atomic(m: OpModel, f: Fault)
    requires
        m.with_fault(f) is Err,
    ensures
        m.conflicts(m.armed(f.offsets())),
{
}

/// An armed fail point at the index being checked fails that check, and a
/// reached persistent start fails it too, whatever probability is also
/// configured and whatever the generator draws.
pub proof fn lemma_deterministic_triggers_fire_regardless_of_draw(m: OpModel, seed: u64)
    ensures
        m.points.contains(m.calls) ==> m.fires(seed),
        (m.persist_after matches Some(p) && m.calls >= p) ==> m.fires(seed),
{
    if m.points.contains(m.calls) {
        assert(!m.points.is_empty()) by {
            if m.points =~= Set::<u64>::empty() {
                assert(!Set::<u64>::empty().contains(m.calls));
            }
        }
    }
}

/// A successful injection arms every requested point, at the current count
/// plus its offset, keeps every point armed before, and arms nothing else.
pub proof fn lemma_injection_arms_every_requested_point(m: OpModel, f: Fault)
    requires
        m.with_fault(f) is Ok,
    ensures
        forall|i: int|
            0 <= i < f.offsets().len() ==> (m.with_fault(f)->Ok_0).points.contains(
                #[trigger] offset_from(m.calls, f.offsets()[i]),
            ),
        forall|p: u64| m.points.contains(p) ==> (m.with_fault(f)->Ok_0).points.contains(p),
        forall|p: u64|
            (m.with_fault(f)->Ok_0).points.contains(p) ==> m.points.contains(p) || exists|i: int|
                0 <= i < f.offsets().len() && p == offset_from(m.calls, f.offsets()[i]),
        (m.with_fault(f)->Ok_0).calls == m.calls,
{
    let pts = m.armed(f.offsets());
    let m2 = m.with_fault(f)->Ok_0;
    assert forall|i: int| 0 <= i < f.offsets().len() implies m2.points.contains(
        #[trigger] offset_from(m.calls, f.offsets()[i]),
    ) by {
        assert(pts[i] == offset_from(m.calls, f.offsets()[i]));
        assert(pts.contains(pts[i]));
    }
    assert forall|p: u64| m2.points.contains(p) implies m.points.contains(p) || exists|i: int|
        0 <= i < f.offsets().len() && p == offset_from(m.calls, f.offsets()[i]) by {
        if !m.points.contains(p) {
            let i = choose|i: int| 0 <= i < pts.len() && pts[i] == p;
            assert(p == offset_from(m.calls, f.offsets()[i]));
        }
    }
}

/// A persistent injection always succeeds and sets the persistent start to
/// the current count plus `fail_after`, replacing any earlier start; it arms
/// no point and keeps the probability.
pub proof fn lemma_persistent_injection_replaces_start(m: OpModel, op: Operation, n: u64)
    ensures
        m.with_fault(Fault::Persistent { op, fail_after: n }) is Ok,
        (m.with_fault(Fault::Persistent { op, fail_after: n })->Ok_0).persist_after == Some(
            offset_from(m.calls, n),
        ),
        (m.with_fault(Fault::Persistent { op, fail_after: n })->Ok_0).points == m.points,
        (m.with_fault(Fault::Persistent { op, fail_after: n })->Ok_0).probability
            == m.probability,
        (m.with_fault(Fault::Persistent { op, fail_after: n })->Ok_0).calls == m.calls,
{
    let f = Fault::Persistent { op, fail_after: n };
    assert(m.armed(f.offsets()) =~= Seq::<u64>::empty());
    assert(m.points + Seq::<u64>::empty().to_set() =~= m.points);
}

/// A probabilistic injection always succeeds and sets the probability to the
/// one given, replacing any earlier one; it arms no point and keeps the
/// persistent start.
pub proof fn lemma_probabilistic_injection_replaces_probability(
    m: OpModel,
    op: Operation,
    p: u64,
)
    ensures
        m.with_fault(Fault::Probabilistic { op, probability: p }) is Ok,
        (m.with_fault(Fault::Probabilistic { op, probability: p })->Ok_0).probability == p,
        (m.with_fault(Fault::Probabilistic { op, probability: p })->Ok_0).points == m.points,
        (m.with_fault(Fault::Probabilistic { op, probability: p })->Ok_0).persist_after
            == m.persist_after,
{
    let f = Fault::Probabilistic { op, probability: p };
    assert(m.armed(f.offsets()) =~= Seq::<u64>::empty());
    assert(m.points + Seq::<u64>::empty().to_set() =~= m.points);
}

/// The summary of `clear` counts both scopes: per operation, the points armed
/// in the thread's scope plus those armed process-wide; and the operations
/// with a persistent start, or a positive probability, in either scope. In
/// particular a fault of either scope is never left out of the count.
pub proof fn lemma_summary_counts_both_scopes(r: RegistryModel, op: Operation)
    requires
        r.totals_fit(),
    ensures
        r.summary().mmap == r.local.mmap.points.len() + r.global.mmap.points.len(),
        r.summary().read == r.local.read.points.len() + r.global.read.points.len(),
        r.summary().write == r.local.write.points.len() + r.global.write.points.len(),
        r.summary().alloc == r.local.alloc.points.len() + r.global.alloc.points.len(),
        r.summary().send == r.local.send.points.len() + r.global.send.points.len(),
        r.local.get(op).probability > 0 ==> r.summary().probabilistic >= 1,
        r.global.get(op).probability > 0 ==> r.summary().probabilistic >= 1,
        r.local.get(op).probability > 0 && r.global.get(op).probability > 0
            ==> r.summary().probabilistic >= 2,
        r.local.get(op).persist_after is Some ==> r.summary().persistent >= 1,
        r.global.get(op).persist_after is Some ==> r.summary().persistent >= 1,
        r.summary().probabilistic <= 10,
        r.summary().persistent <= 10,
{
    assert(r.point_total(Operation::Mmap) <= usize::MAX);
    assert(r.point_total(Operation::Read) <= usize::MAX);
    assert(r.point_total(Operation::Write) <= usize::MAX);
    assert(r.point_total(Operation::Alloc) <= usize::MAX);
    assert(r.point_total(Operation::Send) <= usize::MAX);
}

/// A thread-scoped fault shadows process-wide faults only on its own
/// operation: when the thread has no fault on `op` and the process-wide flag
/// is raised, the process-wide state of `op` alone decides the check, and the
/// check advances that state while leaving the thread's faults untouched.
pub proof fn lemma_process_fault_decides_when_thread_has_none(r: RegistryModel, op: Operation)
    requires
        !r.local.get(op).is_active(),
        r.enabled,
    ensures
        r.fires(op) == r.global.get(op).fires(r.seed),
        r.checked(op).global == r.global.set(op, r.global.get(op).checked()),
        r.checked(op).local == r.local,
        r.checked(op).seed == r.global.get(op).seed_after(r.seed),
{
}

} // verus!
