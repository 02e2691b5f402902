//! The smooth actuator: stepping device levels toward the target.
//!
//! A direct jump to the target is visually jarring, so each device walks
//! from its current level to the target in unit steps, one write per step,
//! with a fixed delay between steps. The walk for one device is the state
//! machine [`DeviceWalk`]: the caller asks [`next_write`] for the level to
//! write, performs the hardware write, and reports the outcome with
//! [`write_succeeded`] or [`write_failed`]. A failed walk issues no
//! further writes and keeps the last successfully written level.
//!
//! Devices are independent: a failure on one is recorded and the others
//! are still attempted. [`aggregate`] turns the per-device outcomes of one
//! pass into a single result that lists exactly the devices that failed.

use vstd::prelude::*;

verus! {

/// Why a device's walk stopped short of the target.
#[derive(Clone, Copy, Debug, PartialEq, Eq, Structural)]
pub enum DeviceFailure {
    /// The device's current level could not be read; its walk never started.
    Read,
    /// A step write was rejected; the walk aborted at its last good level.
    Write,
}

/// One device's failure, tagged with the device's position in enumeration
/// order.
#[derive(Clone, Copy, Debug, PartialEq, Eq, Structural)]
pub struct DeviceReport {
    /// The device's index in the enumeration order of the pass.
    pub index: usize,
    /// What went wrong on that device.
    pub failure: DeviceFailure,
}

/// The aggregate failure of one actuation pass: every device that failed,
/// in enumeration order.
#[derive(Debug)]
pub struct ActuationError {
    /// One report per failed device, ordered by device index.
    pub failures: Vec<DeviceReport>,
}

/// The level one unit step moves `level` toward `target`.
pub open spec fn step_toward(level: int, target: int) -> int {
    if level < target {
        level + 1
    } else {
        level - 1
    }
}

/// The distance from `level` to `target`: how many unit steps a walk takes.
pub open spec fn steps_between(level: int, target: int) -> int {
    if level <= target {
        target - level
    } else {
        level - target
    }
}

/// The exact sequence of levels a fault-free walk writes, in order: each
/// entry one unit closer to the target than the one before, the last one
/// the target itself, and nothing at all when the level already matches.
pub open spec fn walk_writes(level: int, target: int) -> Seq<int>
    decreases steps_between(level, target),
{
    if level == target {
        Seq::empty()
    } else {
        seq![step_toward(level, target)] + walk_writes(step_toward(level, target), target)
    }
}

/// The stepping state for one device within one actuation pass.
///
/// `level` is the device's starting level until the first write, then the
/// last level successfully written. It is read fresh from the device each
/// pass; no state survives across passes.
pub struct DeviceWalk {
    /// The last level known to be on the device.
    pub level: u32,
    /// The level the walk is stepping toward.
    pub target: u32,
    /// Whether a write was rejected. A failed walk issues no more writes.
    pub failed: bool,
}

/// Begin a walk for a device whose current level is `current`.
pub fn walk_start(current: u32, target: u32) -> (w: DeviceWalk)
    ensures
        w.level == current,
        w.target == target,
        !w.failed,
{
    DeviceWalk { level: current, target, failed: false }
}

/// The next level to write to the device, or `None` when the walk is over:
/// either the device already sits at the target (no write, no delay) or a
/// previous write failed.
pub fn next_write(w: &DeviceWalk) -> (r: Option<u32>)
    ensures
        r is Some <==> (!w.failed && w.level != w.target),
        r is Some ==> r->0 == step_toward(w.level as int, w.target as int),
        r is Some ==> r->0 == walk_writes(w.level as int, w.target as int)[0],
{
    if w.failed || w.level == w.target {
        None
    } else if w.level < w.target {
        Some(w.level + 1)
    } else {
        Some(w.level - 1)
    }
}

/// Record that the pending write (the level [`next_write`] returned) was
/// accepted by the device: the walk advances one step.
pub fn write_succeeded(w: &mut DeviceWalk)
    requires
        !old(w).failed,
        old(w).level != old(w).target,
    ensures
        final(w).level == step_toward(old(w).level as int, old(w).target as int),
        final(w).target == old(w).target,
        !final(w).failed,
        walk_writes(final(w).level as int, final(w).target as int) == walk_writes(
            old(w).level as int,
            old(w).target as int,
        ).drop_first(),
{
    if w.level < w.target {
        w.level = w.level + 1;
    } else {
        w.level = w.level - 1;
    }
    proof {
        let before = walk_writes(old(w).level as int, old(w).target as int);
        let after = walk_writes(w.level as int, w.target as int);
        assert(before =~= seq![before[0]] + after);
        assert(after =~= before.drop_first());
    }
}

/// Record that the pending write was rejected: the walk aborts, keeping
/// the last successfully written level. Partial progress is not rolled
/// back.
pub fn write_failed(w: &mut DeviceWalk)
    ensures
        final(w).level == old(w).level,
        final(w).target == old(w).target,
        final(w).failed,
{
    w.failed = true;
}

/// Law (idempotence at the fixed point): a walk whose starting level
/// already equals the target writes nothing, so it incurs no delay
/// either.
pub proof fn lemma_walk_at_target_writes_nothing(level: int)
    ensures
        walk_writes(level, level) == Seq::<int>::empty(),
{
}

/// Law (shape of a walk): from `level` toward `target` the walk writes
/// exactly the distance between them in levels; the i-th write is i + 1
/// units from the start, moving toward the target, so the writes are
/// consecutive, strictly monotone, and the last one is the target itself.
pub proof fn lemma_walk_writes_shape(level: int, target: int)
    ensures
        walk_writes(level, target).len() == steps_between(level, target),
        forall|i: int| 0 <= i < walk_writes(level, target).len() ==> walk_writes(level, target)[i]
            == (if level < target { level + i + 1 } else { level - i - 1 }),
        level != target ==> walk_writes(level, target).last() == target,
    decreases steps_between(level, target),
{
    if level != target {
        let stepped = step_toward(level, target);
        lemma_walk_writes_shape(stepped, target);
        let w = walk_writes(level, target);
        let rest = walk_writes(stepped, target);
        assert forall|i: int| 0 <= i < w.len() implies w[i] == (if level < target {
            level + i + 1
        } else {
            level - i - 1
        }) by {
            if i > 0 {
                assert(w[i] == rest[i - 1]);
            }
        }
    }
}

/// The reports an actuation pass with the given per-device outcomes must
/// carry: one per device that failed, tagged with its index, in
/// enumeration order. `None` is a device whose walk reached the target.
pub open spec fn failed_reports(outcomes: Seq<Option<DeviceFailure>>) -> Seq<DeviceReport>
    decreases outcomes.len(),
{
    if outcomes.len() == 0 {
        Seq::empty()
    } else {
        let rest = failed_reports(outcomes.drop_last());
        match outcomes.last() {
            Some(f) => rest.push(
                DeviceReport { index: (outcomes.len() - 1) as usize, failure: f },
            ),
            None => rest,
        }
    }
}

/// A pass with no failed device produces no reports, and only such a pass.
pub proof fn lemma_failed_reports_empty(outcomes: Seq<Option<DeviceFailure>>)
    ensures
        failed_reports(outcomes).len() == 0 <==> (forall|i: int|
            0 <= i < outcomes.len() ==> outcomes[i] is None),
    decreases outcomes.len(),
{
    if outcomes.len() > 0 {
        lemma_failed_reports_empty(outcomes.drop_last());
        if failed_reports(outcomes).len() == 0 {
            assert(forall|i: int| 0 <= i < outcomes.len() - 1 ==> outcomes.drop_last()[i] == outcomes[i]);
        }
    }
}

/// Law (per-device independence of reporting): whether a pass's reports
/// mention a device depends on that device's own outcome alone. A report
/// for device `j` is present exactly when device `j` failed in the way
/// the report says, whatever happened on the other devices — so one
/// device's failure neither hides nor invents another's.
pub proof fn lemma_report_membership(outcomes: Seq<Option<DeviceFailure>>, r: DeviceReport)
    requires
        outcomes.len() <= usize::MAX,
    ensures
        failed_reports(outcomes).contains(r) <==> (r.index < outcomes.len() && outcomes[r.index
            as int] == Some(r.failure)),
    decreases outcomes.len(),
{
    if outcomes.len() > 0 {
        let prefix = outcomes.drop_last();
        lemma_report_membership(prefix, r);
        assert(forall|i: int| 0 <= i < prefix.len() ==> prefix[i] == outcomes[i]);
        match outcomes.last() {
            Some(f) => {
                let last_report = DeviceReport {
                    index: (outcomes.len() - 1) as usize,
                    failure: f,
                };
                vstd::seq_lib::lemma_seq_contains_after_push(
                    failed_reports(prefix),
                    last_report,
                    r,
                );
            },
            None => {},
        }
    }
}

/// Combine the per-device outcomes of one actuation pass. The pass
/// succeeds if and only if every device's walk did; otherwise the error
/// lists exactly the devices that failed, each with what went wrong, in
/// enumeration order. A failure on one device never hides another's.
pub fn aggregate(outcomes: &Vec<Option<DeviceFailure>>) -> (r: Result<(), ActuationError>)
    ensures
        r is Ok <==> (forall|i: int| 0 <= i < outcomes@.len() ==> outcomes@[i] is None),
        r is Err ==> (r->Err_0).failures@ == failed_reports(outcomes@),
{
    let mut failures: Vec<DeviceReport> = Vec::new();
    let mut i: usize = 0;
    while i < outcomes.len()
        invariant
            i <= outcomes@.len(),
            failures@ == failed_reports(outcomes@.take(i as int)),
        decreases outcomes@.len() - i,
    {
        proof {
            assert(outcomes@.take(i + 1).drop_last() =~= outcomes@.take(i as int));
            assert(outcomes@.take(i + 1).last() == outcomes@[i as int]);
        }
        match outcomes[i] {
            Some(f) => failures.push(DeviceReport { index: i, failure: f }),
            None => {},
        }
        i = i + 1;
    }
    proof {
        assert(outcomes@.take(outcomes@.len() as int) =~= outcomes@);
        lemma_failed_reports_empty(outcomes@);
    }
    if failures.len() == 0 {
        Ok(())
    } else {
        Err(ActuationError { failures })
    }
}

} // verus!
