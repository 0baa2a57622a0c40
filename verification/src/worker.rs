//! The delivery worker: the consumer half of the transactional outbox. It
//! claims a bounded batch of due tasks with mutual exclusion, hands each one
//! to the email transport, and resolves the outcome: delivered, requeued with
//! capped exponential backoff, or parked permanently after the attempt
//! ceiling.

use vstd::prelude::*;
use crate::store::Database;
use crate::store::TaskModel;
use crate::store::TaskStatus;

verus! {

/// The worker's knobs: attempt ceiling, backoff curve, claim visibility
/// timeout and batch size. All bounded, so the worker never attempts
/// unbounded-concurrency delivery.
pub struct WorkerConfig {
    /// How many delivery attempts a task gets before it is parked as
    /// permanently failed.
    pub max_attempts: u64,
    /// The delay after the first failed attempt, in milliseconds.
    pub base_backoff: u64,
    /// The largest backoff delay ever scheduled, in milliseconds.
    pub backoff_cap: u64,
    /// How long a claim may sit unresolved before the task counts as
    /// abandoned and becomes claimable again, in milliseconds.
    pub claim_timeout: u64,
    /// The largest number of tasks one poll may claim.
    pub batch_size: usize,
}

impl WorkerConfig {
    /// A usable configuration: at least one attempt is allowed.
    pub open spec fn wf(self) -> bool {
        self.max_attempts >= 1
    }
}

impl Default for WorkerConfig {
    /// Conservative defaults: five attempts, backoff from one second capped
    /// at five minutes, five-minute claim timeout, batches of ten.
    fn default() -> (c: WorkerConfig)
        ensures
            c.wf(),
            c.max_attempts == 5,
            c.base_backoff == 1000,
            c.backoff_cap == 300000,
            c.claim_timeout == 300000,
            c.batch_size == 10,
    {
        WorkerConfig {
            max_attempts: 5,
            base_backoff: 1000,
            backoff_cap: 300000,
            claim_timeout: 300000,
            batch_size: 10,
        }
    }
}

/// What the email transport reported for one delivery attempt. A transient
/// failure is worth retrying; a permanent one is not.
pub enum SendOutcome {
    Sent,
    TransientFailure(String),
    PermanentFailure(String),
}

/// True when a worker may claim the task now: it is pending and due, or a
/// previous claim has sat unresolved past the visibility timeout. Delivered
/// and permanently failed tasks are never claimable.
pub open spec fn claimable(t: TaskModel, now: u64, cfg: WorkerConfig) -> bool {
    ||| (t.status is Pending && t.next_retry_at <= now)
    ||| (t.status is InProgress && t.claimed_at + cfg.claim_timeout <= now)
}

/// The task as a claim leaves it: in progress, stamped with the claim time.
pub open spec fn claimed_model(t: TaskModel, now: u64) -> TaskModel {
    TaskModel {
        issue_id: t.issue_id,
        email: t.email,
        status: TaskStatus::InProgress,
        attempts: t.attempts,
        last_error: t.last_error,
        claimed_at: now,
        next_retry_at: t.next_retry_at,
    }
}

/// The delay scheduled after the given number of failures: the base doubled
/// per further failure, capped.
pub open spec fn backoff_delay(cfg: WorkerConfig, failures: u64) -> int
    decreases failures,
{
    if failures <= 1 {
        if cfg.base_backoff <= cfg.backoff_cap {
            cfg.base_backoff as int
        } else {
            cfg.backoff_cap as int
        }
    } else {
        let prev = backoff_delay(cfg, (failures - 1) as u64);
        if 2 * prev <= cfg.backoff_cap {
            2 * prev
        } else {
            cfg.backoff_cap as int
        }
    }
}

/// The backoff delay never exceeds the configured cap.
pub proof fn lemma_backoff_delay_bounds(cfg: WorkerConfig, failures: u64)
    ensures
        0 <= backoff_delay(cfg, failures) <= cfg.backoff_cap,
    decreases failures,
{
    if failures > 1 {
        lemma_backoff_delay_bounds(cfg, (failures - 1) as u64);
    }
}

/// The task as a transient failure leaves it: one more attempt on record and
/// the error kept; requeued with backoff while attempts remain, parked as
/// permanently failed once the ceiling is reached.
pub open spec fn failed_once(t: TaskModel, err: Seq<char>, now: u64, cfg: WorkerConfig) -> TaskModel {
    let a = (t.attempts + 1) as u64;
    if a >= cfg.max_attempts {
        TaskModel {
            issue_id: t.issue_id,
            email: t.email,
            status: TaskStatus::FailedPermanently,
            attempts: a,
            last_error: Some(err),
            claimed_at: t.claimed_at,
            next_retry_at: t.next_retry_at,
        }
    } else {
        TaskModel {
            issue_id: t.issue_id,
            email: t.email,
            status: TaskStatus::Pending,
            attempts: a,
            last_error: Some(err),
            claimed_at: t.claimed_at,
            next_retry_at: (now + backoff_delay(cfg, a)) as u64,
        }
    }
}

/// The task as a successful delivery leaves it. This transition and nothing
/// else is authoritative for "this subscriber got this issue".
pub open spec fn delivered_model(t: TaskModel) -> TaskModel {
    TaskModel {
        issue_id: t.issue_id,
        email: t.email,
        status: TaskStatus::Delivered,
        attempts: t.attempts,
        last_error: t.last_error,
        claimed_at: t.claimed_at,
        next_retry_at: t.next_retry_at,
    }
}

/// The task as a permanent transport failure leaves it: parked at once.
pub open spec fn permanently_failed_model(t: TaskModel, err: Seq<char>) -> TaskModel {
    TaskModel {
        issue_id: t.issue_id,
        email: t.email,
        status: TaskStatus::FailedPermanently,
        attempts: (t.attempts + 1) as u64,
        last_error: Some(err),
        claimed_at: t.claimed_at,
        next_retry_at: t.next_retry_at,
    }
}

/// How a claimed task ends up after its outcome is applied.
pub open spec fn resolve_model(
    t: TaskModel,
    outcome: SendOutcome,
    now: u64,
    cfg: WorkerConfig,
) -> TaskModel {
    match outcome {
        SendOutcome::Sent => delivered_model(t),
        SendOutcome::TransientFailure(e) => failed_once(t, e@, now, cfg),
        SendOutcome::PermanentFailure(e) => permanently_failed_model(t, e@),
    }
}

/// What `claim_due_tasks` does: the returned indices are distinct rows that
/// were claimable and are now in progress under this claim time; every other
/// row — and everything else in the database — is untouched; no more than a
/// batch is taken, and a batch that came back short proves that nothing
/// claimable was left behind.
pub open spec fn claim_post(
    db0: Database,
    db1: Database,
    claimed: Seq<usize>,
    now: u64,
    cfg: WorkerConfig,
) -> bool {
    &&& db1.subscriptions == db0.subscriptions
    &&& db1.tokens == db0.tokens
    &&& db1.issues == db0.issues
    &&& db1.idempotency == db0.idempotency
    &&& db1.next_subscriber_id == db0.next_subscriber_id
    &&& db1.next_issue_id == db0.next_issue_id
    &&& db1.tasks@.len() == db0.tasks@.len()
    &&& claimed.len() <= cfg.batch_size
    &&& forall|k: int| 0 <= k < claimed.len() ==> (#[trigger] claimed[k]) < db0.tasks@.len()
    &&& forall|k1: int, k2: int|
        0 <= k1 < k2 < claimed.len() ==> claimed[k1] != claimed[k2]
    &&& forall|k: int|
        0 <= k < claimed.len() ==> claimable(db0.tasks@[#[trigger] claimed[k] as int]@, now, cfg)
    &&& forall|k: int|
        0 <= k < claimed.len() ==> db1.tasks@[#[trigger] claimed[k] as int]@ == claimed_model(
            db0.tasks@[claimed[k] as int]@,
            now,
        )
    &&& forall|j: int|
        0 <= j < db0.tasks@.len() && !claimed.contains(j as usize) ==> #[trigger] db1.tasks@[j]
            == db0.tasks@[j]
    &&& (claimed.len() < cfg.batch_size ==> forall|j: int|
        0 <= j < db0.tasks@.len() && !claimed.contains(j as usize) ==> !claimable(
            #[trigger] db0.tasks@[j]@,
            now,
            cfg,
        ))
}

/// Claims up to one batch of due tasks: the atomic conditional update that
/// serializes workers. A task a worker claims here cannot be claimed by any
/// other worker until the visibility timeout has passed.
pub fn claim_due_tasks(db: &mut Database, now: u64, cfg: &WorkerConfig) -> (claimed: Vec<usize>)
    requires
        old(db).wf(),
    ensures
        final(db).wf(),
        claim_post(*old(db), *final(db), claimed@, now, *cfg),
{
    let ghost db0 = *db;
    let mut claimed: Vec<usize> = Vec::new();
    let n = db.tasks.len();
    for j in 0..n
        invariant
            n == db.tasks@.len(),
            n == db0.tasks@.len(),
            db.subscriptions == db0.subscriptions,
            db.tokens == db0.tokens,
            db.issues == db0.issues,
            db.idempotency == db0.idempotency,
            db.next_subscriber_id == db0.next_subscriber_id,
            db.next_issue_id == db0.next_issue_id,
            claimed@.len() <= cfg.batch_size,
            forall|k1: int, k2: int|
                0 <= k1 < k2 < claimed@.len() ==> claimed@[k1] < claimed@[k2],
            forall|k: int| 0 <= k < claimed@.len() ==> (#[trigger] claimed@[k]) < j,
            forall|k: int|
                0 <= k < claimed@.len() ==> claimable(
                    db0.tasks@[#[trigger] claimed@[k] as int]@,
                    now,
                    *cfg,
                ),
            forall|k: int|
                0 <= k < claimed@.len() ==> db.tasks@[#[trigger] claimed@[k] as int]@
                    == claimed_model(db0.tasks@[claimed@[k] as int]@, now),
            forall|i: int|
                0 <= i < n && !claimed@.contains(i as usize) ==> #[trigger] db.tasks@[i]
                    == db0.tasks@[i],
            (claimed@.len() < cfg.batch_size ==> forall|i: int|
                0 <= i < j && !claimed@.contains(i as usize) ==> !claimable(
                    #[trigger] db0.tasks@[i]@,
                    now,
                    *cfg,
                )),
    {
        if claimed.len() < cfg.batch_size {
            let due = match db.tasks[j].status {
                TaskStatus::Pending => db.tasks[j].next_retry_at <= now,
                TaskStatus::InProgress => db.tasks[j].claimed_at <= now && now - db.tasks[j].claimed_at
                    >= cfg.claim_timeout,
                TaskStatus::Delivered => false,
                TaskStatus::FailedPermanently => false,
            };
            proof {
                assert(!claimed@.contains(j));
                assert(db.tasks@[j as int] == db0.tasks@[j as int]);
                assert(due == claimable(db0.tasks@[j as int]@, now, *cfg));
            }
            if due {
                db.tasks[j].status = TaskStatus::InProgress;
                db.tasks[j].claimed_at = now;
                let ghost claimed_before = claimed@;
                claimed.push(j);
                proof {
                    assert(claimed@.drop_last() =~= claimed_before);
                    assert(claimed@.last() == j);
                    assert forall|i: int|
                        0 <= i < n && !claimed@.contains(i as usize) implies db.tasks@[i]
                        == db0.tasks@[i] by {
                        assert(i != j);
                        assert(!claimed_before.contains(i as usize)) by {
                            if claimed_before.contains(i as usize) {
                                let w = choose|k: int|
                                    0 <= k < claimed_before.len() && claimed_before[k]
                                        == i as usize;
                                assert(claimed@[w] == i as usize);
                            }
                        }
                    }
                    assert(db.tasks@[j as int]@ == claimed_model(db0.tasks@[j as int]@, now));
                }
            }
        }
    }
    proof {
        assert forall|j: int|
            0 <= j < db0.tasks@.len() && !claimed@.contains(j as usize) implies db.tasks@[j]
            == db0.tasks@[j] by {}
    }
    claimed
}

/// What `resolve_task` does: exactly one row — the claimed one, still in
/// progress — moves to its resolved state, and nothing else changes.
pub open spec fn resolve_post(
    db0: Database,
    db1: Database,
    index: usize,
    outcome: SendOutcome,
    now: u64,
    cfg: WorkerConfig,
) -> bool {
    &&& index < db0.tasks@.len()
    &&& db0.tasks@[index as int]@.status is InProgress
    &&& db1.subscriptions == db0.subscriptions
    &&& db1.tokens == db0.tokens
    &&& db1.issues == db0.issues
    &&& db1.idempotency == db0.idempotency
    &&& db1.next_subscriber_id == db0.next_subscriber_id
    &&& db1.next_issue_id == db0.next_issue_id
    &&& db1.tasks@.len() == db0.tasks@.len()
    &&& forall|j: int|
        0 <= j < db0.tasks@.len() && j != index ==> #[trigger] db1.tasks@[j] == db0.tasks@[j]
    &&& db1.tasks@[index as int]@ == resolve_model(db0.tasks@[index as int]@, outcome, now, cfg)
}

/// Resolves one claimed task with the transport's outcome: success delivers
/// it for good; a transient failure requeues it with capped exponential
/// backoff until the attempt ceiling parks it; a permanent failure parks it
/// at once. Parked and delivered tasks stay in the outbox as an audit trail.
pub fn resolve_task(
    db: &mut Database,
    index: usize,
    outcome: SendOutcome,
    now: u64,
    cfg: &WorkerConfig,
) -> (r: TaskStatus)
    requires
        old(db).wf(),
        index < old(db).tasks@.len(),
        old(db).tasks@[index as int]@.status is InProgress,
        old(db).tasks@[index as int]@.attempts < u64::MAX,
        now + cfg.backoff_cap <= u64::MAX,
    ensures
        final(db).wf(),
        resolve_post(*old(db), *final(db), index, outcome, now, *cfg),
        r == final(db).tasks@[index as int]@.status,
{
    let ghost db0 = *db;
    let status: TaskStatus;
    match outcome {
        SendOutcome::Sent => {
            db.tasks[index].status = TaskStatus::Delivered;
            status = TaskStatus::Delivered;
        },
        SendOutcome::TransientFailure(e) => {
            let a = db.tasks[index].attempts + 1;
            db.tasks[index].attempts = a;
            db.tasks[index].last_error = Some(e);
            if a >= cfg.max_attempts {
                db.tasks[index].status = TaskStatus::FailedPermanently;
                status = TaskStatus::FailedPermanently;
            } else {
                proof {
                    lemma_backoff_delay_bounds(*cfg, a);
                }
                let delay = compute_backoff(cfg, a);
                db.tasks[index].status = TaskStatus::Pending;
                db.tasks[index].next_retry_at = now + delay;
                status = TaskStatus::Pending;
            }
        },
        SendOutcome::PermanentFailure(e) => {
            db.tasks[index].attempts = db.tasks[index].attempts + 1;
            db.tasks[index].last_error = Some(e);
            db.tasks[index].status = TaskStatus::FailedPermanently;
            status = TaskStatus::FailedPermanently;
        },
    }
    proof {
        assert forall|j: int| 0 <= j < db0.tasks@.len() && j != index implies db.tasks@[j]
            == db0.tasks@[j] by {}
    }
    status
}

/// Computes the backoff delay after the given number of failures.
fn compute_backoff(cfg: &WorkerConfig, failures: u64) -> (d: u64)
    requires
        failures >= 1,
    ensures
        d == backoff_delay(*cfg, failures),
{
    let mut d: u64 = if cfg.base_backoff <= cfg.backoff_cap {
        cfg.base_backoff
    } else {
        cfg.backoff_cap
    };
    let mut k: u64 = 1;
    while k < failures
        invariant
            1 <= k <= failures,
            d == backoff_delay(*cfg, k),
            d <= cfg.backoff_cap,
        decreases failures - k,
    {
        if d <= cfg.backoff_cap / 2 {
            d = d * 2;
        } else {
            d = cfg.backoff_cap;
        }
        k = k + 1;
    }
    d
}

/// Claim exclusivity: two claims — two workers polling the outbox — never
/// hand out the same task while the first claim is inside its visibility
/// timeout. Together with `lemma_terminal_tasks_are_final`, each task is
/// resolved as delivered or permanently failed exactly once.
pub proof fn lemma_claim_exclusivity(
    db0: Database,
    db1: Database,
    db2: Database,
    c1: Seq<usize>,
    c2: Seq<usize>,
    now1: u64,
    now2: u64,
    cfg: WorkerConfig,
)
    requires
        claim_post(db0, db1, c1, now1, cfg),
        claim_post(db1, db2, c2, now2, cfg),
        now2 < now1 + cfg.claim_timeout,
    ensures
        forall|a: int, b: int|
            0 <= a < c1.len() && 0 <= b < c2.len() ==> #[trigger] c1[a] != #[trigger] c2[b],
{
    assert forall|a: int, b: int| 0 <= a < c1.len() && 0 <= b < c2.len() implies #[trigger] c1[a]
        != #[trigger] c2[b] by {
        if c1[a] == c2[b] {
            let j = c1[a];
            assert(db1.tasks@[j as int]@ == claimed_model(db0.tasks@[j as int]@, now1));
            assert(claimable(db1.tasks@[j as int]@, now2, cfg));
        }
    }
}

/// Delivered and permanently failed are terminal: neither a claim nor a
/// resolve ever touches a task again once it reached one of them.
pub proof fn lemma_terminal_tasks_are_final(
    db0: Database,
    db1: Database,
    claimed: Seq<usize>,
    index: usize,
    outcome: SendOutcome,
    now: u64,
    cfg: WorkerConfig,
    j: usize,
)
    requires
        j < db0.tasks@.len(),
        db0.tasks@[j as int]@.status is Delivered || db0.tasks@[j as int]@.status
            is FailedPermanently,
        claim_post(db0, db1, claimed, now, cfg) || resolve_post(db0, db1, index, outcome, now, cfg),
    ensures
        db1.tasks@[j as int] == db0.tasks@[j as int],
{
    if claim_post(db0, db1, claimed, now, cfg) {
        if claimed.contains(j) {
            let w = choose|k: int| 0 <= k < claimed.len() && claimed[k] == j;
            assert(claimable(db0.tasks@[claimed[w] as int]@, now, cfg));
        }
    } else {
        assert(j != index);
    }
}

/// The retry ceiling: a task whose transport call always fails transiently is
/// parked as permanently failed after exactly the configured number of
/// attempts — pending with a full audit of attempts below the ceiling, parked
/// exactly at it, and never claimable again afterwards.
pub open spec fn after_fail_cycles(
    t: TaskModel,
    errs: Seq<Seq<char>>,
    claim_times: Seq<u64>,
    resolve_times: Seq<u64>,
    cfg: WorkerConfig,
) -> TaskModel
    decreases errs.len(),
{
    if errs.len() == 0 {
        t
    } else {
        failed_once(
            claimed_model(
                after_fail_cycles(
                    t,
                    errs.drop_last(),
                    claim_times.drop_last(),
                    resolve_times.drop_last(),
                    cfg,
                ),
                claim_times.last(),
            ),
            errs.last(),
            resolve_times.last(),
            cfg,
        )
    }
}

/// After `k` claim-and-fail cycles a fresh task records exactly `k` attempts:
/// still pending below the ceiling, permanently failed exactly at it, and
/// never claimable again once parked.
pub proof fn lemma_retry_ceiling(
    t: TaskModel,
    errs: Seq<Seq<char>>,
    claim_times: Seq<u64>,
    resolve_times: Seq<u64>,
    cfg: WorkerConfig,
)
    requires
        cfg.wf(),
        t.status is Pending,
        errs.len() == claim_times.len(),
        errs.len() == resolve_times.len(),
        t.attempts + errs.len() <= cfg.max_attempts,
    ensures
        after_fail_cycles(t, errs, claim_times, resolve_times, cfg).attempts == t.attempts
            + errs.len(),
        t.attempts + errs.len() < cfg.max_attempts ==> after_fail_cycles(
            t,
            errs,
            claim_times,
            resolve_times,
            cfg,
        ).status is Pending,
        t.attempts + errs.len() == cfg.max_attempts && errs.len() > 0 ==> after_fail_cycles(
            t,
            errs,
            claim_times,
            resolve_times,
            cfg,
        ).status is FailedPermanently,
        t.attempts + errs.len() == cfg.max_attempts && errs.len() > 0 ==> forall|later: u64|
            !claimable(after_fail_cycles(t, errs, claim_times, resolve_times, cfg), later, cfg),
    decreases errs.len(),
{
    if errs.len() > 0 {
        lemma_retry_ceiling(
            t,
            errs.drop_last(),
            claim_times.drop_last(),
            resolve_times.drop_last(),
            cfg,
        );
    }
}

} // verus!
