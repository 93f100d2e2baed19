//! The mathematical model of the registry: its state, its invariant, and
//! what each operation does to it.
use vstd::prelude::*;
use crate::text::{decimal, workers_line};
use crate::types::{
    CheckView, DeployStatus, DeploymentView, DriftItemView, EnvironmentStatus,
    EnvironmentSummaryView, EnvironmentType, EnvironmentView, PoolType, Timestamp, WorkerPoolView,
};

verus! {

/// The registry: its environments, in registration order, and every
/// deployment ever recorded, oldest first.
#[verifier::ext_equal]
pub struct ServerView {
    pub envs: Seq<EnvironmentView>,
    pub deploys: Seq<DeploymentView>,
}

/// Capacity bounds of a pool: `min <= desired <= max`, and the pool runs
/// exactly its desired capacity.
pub open spec fn pool_in_bounds(p: WorkerPoolView) -> bool {
    &&& p.min_capacity <= p.desired_capacity
    &&& p.desired_capacity <= p.max_capacity
    &&& p.current_capacity == p.desired_capacity
}

pub open spec fn env_well_formed(e: EnvironmentView) -> bool {
    &&& e.config_version >= 1
    &&& forall|k: int| 0 <= k < e.worker_pools.len() ==> pool_in_bounds(#[trigger] e.worker_pools[k])
}

pub open spec fn has_env_id(envs: Seq<EnvironmentView>, id: Seq<char>) -> bool {
    exists|i: int| 0 <= i < envs.len() && #[trigger] envs[i].environment_id == id
}

/// The invariant of the registry.
pub open spec fn well_formed(s: ServerView) -> bool {
    &&& forall|i: int, j: int|
        0 <= i < s.envs.len() && 0 <= j < s.envs.len() && i != j
            ==> #[trigger] s.envs[i].environment_id != #[trigger] s.envs[j].environment_id
    &&& forall|i: int| 0 <= i < s.envs.len() ==> env_well_formed(#[trigger] s.envs[i])
    &&& forall|d: int|
        0 <= d < s.deploys.len() ==> has_env_id(s.envs, #[trigger] s.deploys[d].environment_id)
    &&& forall|d: int| 0 <= d < s.deploys.len() ==> (#[trigger] s.deploys[d]).status == DeployStatus::Succeeded
}

// ---------------------------------------------------------------------------
// Looking up an environment and a pool.

pub open spec fn is_first_env(envs: Seq<EnvironmentView>, id: Seq<char>, i: int) -> bool {
    &&& 0 <= i < envs.len()
    &&& envs[i].environment_id == id
    &&& forall|j: int| 0 <= j < i ==> (#[trigger] envs[j]).environment_id != id
}

/// The position of the environment with identifier `id`, if there is one.
pub open spec fn env_index(envs: Seq<EnvironmentView>, id: Seq<char>) -> Option<int> {
    if exists|i: int| is_first_env(envs, id, i) {
        Some(choose|i: int| is_first_env(envs, id, i))
    } else {
        None
    }
}

pub open spec fn is_first_pool(pools: Seq<WorkerPoolView>, ty: PoolType, k: int) -> bool {
    &&& 0 <= k < pools.len()
    &&& pools[k].pool_type == ty
    &&& forall|j: int| 0 <= j < k ==> (#[trigger] pools[j]).pool_type != ty
}

/// The position of the first pool of type `ty`, if there is one.
pub open spec fn pool_index(pools: Seq<WorkerPoolView>, ty: PoolType) -> Option<int> {
    if exists|k: int| is_first_pool(pools, ty, k) {
        Some(choose|k: int| is_first_pool(pools, ty, k))
    } else {
        None
    }
}

// ---------------------------------------------------------------------------
// Listing.

pub open spec fn status_matches(e: EnvironmentView, filter: Option<EnvironmentStatus>) -> bool {
    match filter {
        None => true,
        Some(st) => e.status == st,
    }
}

pub open spec fn summary_of(e: EnvironmentView) -> EnvironmentSummaryView {
    EnvironmentSummaryView {
        environment_id: e.environment_id,
        name: e.name,
        env_type: e.env_type,
        region: e.region,
        status: e.status,
        runtime_version: e.runtime_version,
        active_release_id: e.active_release_id,
        workers: workers_line(e.worker_pools),
    }
}

/// The summaries of the environments that pass the filter, in registration
/// order.
pub open spec fn listing(envs: Seq<EnvironmentView>, filter: Option<EnvironmentStatus>) -> Seq<
    EnvironmentSummaryView,
>
    decreases envs.len(),
{
    if envs.len() == 0 {
        Seq::empty()
    } else {
        let rest = listing(envs.drop_last(), filter);
        if status_matches(envs.last(), filter) {
            rest.push(summary_of(envs.last()))
        } else {
            rest
        }
    }
}

// ---------------------------------------------------------------------------
// Configuration sync.

/// Whether a sync request is in apply mode (the mode defaults to `plan`, and
/// any other mode is a plan too).
pub open spec fn is_apply(mode: Option<Seq<char>>) -> bool {
    mode == Some("apply"@)
}

/// An environment after an apply: the configuration is replaced when one is
/// given, and the version rises by one in any case.
pub open spec fn with_config(e: EnvironmentView, config: Option<Seq<char>>, now: Timestamp) -> EnvironmentView {
    EnvironmentView {
        config: match config {
            Some(c) => c,
            None => e.config,
        },
        config_version: (e.config_version + 1) as u32,
        updated_at: now,
        ..e
    }
}

/// Whether a sync needs a governance approval it does not carry: an apply to
/// a production environment without an approval identifier.
pub open spec fn sync_needs_approval(
    e: EnvironmentView,
    mode: Option<Seq<char>>,
    approval: Option<Seq<char>>,
) -> bool {
    is_apply(mode) && e.env_type == EnvironmentType::Production && approval is None
}

/// The registry after a sync of environment `i` that was not refused: only
/// an apply changes anything.
pub open spec fn synced(
    s: ServerView,
    i: int,
    config: Option<Seq<char>>,
    mode: Option<Seq<char>>,
    now: Timestamp,
) -> ServerView {
    if is_apply(mode) {
        ServerView { envs: s.envs.update(i, with_config(s.envs[i], config, now)), ..s }
    } else {
        s
    }
}

// ---------------------------------------------------------------------------
// Scaling.

/// `v` brought into `lo..=hi`.
pub open spec fn clamp(v: u32, lo: u32, hi: u32) -> u32 {
    if v < lo {
        lo
    } else if v > hi {
        hi
    } else {
        v
    }
}

pub open spec fn scaled_pool(p: WorkerPoolView, desired: u32) -> WorkerPoolView {
    let c = clamp(desired, p.min_capacity, p.max_capacity);
    WorkerPoolView { desired_capacity: c, current_capacity: c, ..p }
}

pub open spec fn scaled_env(e: EnvironmentView, k: int, desired: u32, now: Timestamp) -> EnvironmentView {
    EnvironmentView {
        worker_pools: e.worker_pools.update(k, scaled_pool(e.worker_pools[k], desired)),
        updated_at: now,
        ..e
    }
}

// ---------------------------------------------------------------------------
// Promotion and rollback.

pub open spec fn with_release(e: EnvironmentView, release: Seq<char>, now: Timestamp) -> EnvironmentView {
    EnvironmentView { active_release_id: Some(release), updated_at: now, ..e }
}

/// The record of a promotion; `token` is the random part of its identifier.
pub open spec fn promotion_record(
    token: Seq<char>,
    env_id: Seq<char>,
    release: Seq<char>,
    previous: Option<Seq<char>>,
    strategy: Option<Seq<char>>,
    promoted_by: Seq<char>,
    validation: Option<Seq<char>>,
    approval: Option<Seq<char>>,
    now: Timestamp,
) -> DeploymentView {
    DeploymentView {
        deployment_id: "deploy_"@ + token,
        environment_id: env_id,
        release_bundle_id: release,
        previous_release_id: previous,
        strategy: match strategy {
            Some(st) => st,
            None => "immediate"@,
        },
        status: DeployStatus::Succeeded,
        promoted_by: promoted_by,
        validation_id: validation,
        approval_id: approval,
        created_at: now,
        completed_at: Some(now),
    }
}

/// The registry after promoting `release` to environment `i`.
pub open spec fn promoted(
    s: ServerView,
    i: int,
    token: Seq<char>,
    release: Seq<char>,
    strategy: Option<Seq<char>>,
    promoted_by: Seq<char>,
    validation: Option<Seq<char>>,
    approval: Option<Seq<char>>,
    now: Timestamp,
) -> ServerView {
    ServerView {
        envs: s.envs.update(i, with_release(s.envs[i], release, now)),
        deploys: s.deploys.push(
            promotion_record(
                token,
                s.envs[i].environment_id,
                release,
                s.envs[i].active_release_id,
                strategy,
                promoted_by,
                validation,
                approval,
                now,
            ),
        ),
    }
}

/// Why a promotion to environment `e` is refused, if it is: a production
/// environment takes a release only with a validation and an approval.
pub open spec fn promotion_refusal(
    e: EnvironmentView,
    validation: Option<Seq<char>>,
    approval: Option<Seq<char>>,
) -> Option<PromotionGate> {
    if e.env_type == EnvironmentType::Production && validation is None {
        Some(PromotionGate::Validation)
    } else if e.env_type == EnvironmentType::Production && approval is None {
        Some(PromotionGate::Approval)
    } else {
        None
    }
}

/// What a production promotion lacks.
pub enum PromotionGate {
    Validation,
    Approval,
}

pub open spec fn is_success_of(d: DeploymentView, env_id: Seq<char>) -> bool {
    d.environment_id == env_id && d.status == DeployStatus::Succeeded
}

/// The most recent successful deployment of `env_id`, if there is one.
pub open spec fn last_success(deploys: Seq<DeploymentView>, env_id: Seq<char>) -> Option<DeploymentView>
    decreases deploys.len(),
{
    if deploys.len() == 0 {
        None
    } else if is_success_of(deploys.last(), env_id) {
        Some(deploys.last())
    } else {
        last_success(deploys.drop_last(), env_id)
    }
}

/// The release a rollback returns to: the one that the most recent
/// successful deployment of the environment replaced.
pub open spec fn rollback_target(deploys: Seq<DeploymentView>, env_id: Seq<char>) -> Option<Seq<char>> {
    match last_success(deploys, env_id) {
        Some(d) => d.previous_release_id,
        None => None,
    }
}

// ---------------------------------------------------------------------------
// Deployment history.

/// The deployments of `env_id`, newest first.
pub open spec fn newest_first(deploys: Seq<DeploymentView>, env_id: Seq<char>) -> Seq<DeploymentView>
    decreases deploys.len(),
{
    if deploys.len() == 0 {
        Seq::empty()
    } else {
        let rest = newest_first(deploys.drop_first(), env_id);
        if deploys[0].environment_id == env_id {
            rest.push(deploys[0])
        } else {
            rest
        }
    }
}

/// The first `n` elements of `s`, or all of them if there are fewer.
pub open spec fn at_most<A>(s: Seq<A>, n: nat) -> Seq<A> {
    if n < s.len() {
        s.take(n as int)
    } else {
        s
    }
}

// ---------------------------------------------------------------------------
// Validation.

pub open spec fn workers_healthy(pools: Seq<WorkerPoolView>) -> bool {
    forall|k: int| 0 <= k < pools.len() ==> (#[trigger] pools[k]).current_capacity >= pools[k].min_capacity
}

pub open spec fn check_of(name: Seq<char>, status: Seq<char>, message: Seq<char>) -> CheckView {
    CheckView { name, status, message }
}

/// The rollback readiness check: it passes when a rollback has a release to
/// return to, and asks for review otherwise.
pub open spec fn readiness_check(ready: bool) -> CheckView {
    if ready {
        check_of("rollback_readiness"@, "passing"@, "Previous release available"@)
    } else {
        check_of("rollback_readiness"@, "review"@, "No previous release to roll back to"@)
    }
}

/// The checks run on an environment, in order; `ready` tells whether a
/// rollback of it has a release to return to.
pub open spec fn validation_checks(e: EnvironmentView, ready: bool) -> Seq<CheckView> {
    seq![
        check_of("provider_connectivity"@, "passing"@, "Model routes reachable"@),
        check_of("memory_backend"@, "passing"@, "Redis/Postgres connected"@),
        check_of(
            "worker_health"@,
            if workers_healthy(e.worker_pools) { "passing"@ } else { "failing"@ },
            decimal(e.worker_pools.len()) + " pools"@,
        ),
        check_of("protocol_bindings"@, "passing"@, "A2A/MCP/ACP enabled"@),
        check_of("credential_bindings"@, "passing"@, decimal(e.credential_refs.len()) + " refs valid"@),
        check_of("config_schema"@, "passing"@, "Configuration valid"@),
        readiness_check(ready),
    ]
}

/// How many checks have the given status.
pub open spec fn count_status(checks: Seq<CheckView>, status: Seq<char>) -> nat
    decreases checks.len(),
{
    if checks.len() == 0 {
        0
    } else {
        count_status(checks.drop_last(), status) + if checks.last().status == status {
            1nat
        } else {
            0nat
        }
    }
}

// ---------------------------------------------------------------------------
// Drift.

/// What a drift check finds: the configuration version, if it has moved past
/// its initial value.
pub open spec fn expected_drift(e: EnvironmentView) -> Seq<DriftItemView> {
    if e.config_version > 1 {
        seq![
            DriftItemView {
                target: "config_version"@,
                expected: "1"@,
                actual: decimal(e.config_version as nat),
                severity: "low"@,
            },
        ]
    } else {
        Seq::empty()
    }
}

// ---------------------------------------------------------------------------
// Lemmas on lookups.

/// There is at most one first environment with a given identifier.
pub proof fn lemma_first_env_unique(envs: Seq<EnvironmentView>, id: Seq<char>, i: int, k: int)
    requires
        is_first_env(envs, id, i),
        is_first_env(envs, id, k),
    ensures
        i == k,
{
    if i < k {
        assert(envs[i].environment_id != id);
    } else if k < i {
        assert(envs[k].environment_id != id);
    }
}

/// A first environment with a given identifier is the one `env_index` names.
pub proof fn lemma_env_index_is(envs: Seq<EnvironmentView>, id: Seq<char>, i: int)
    requires
        is_first_env(envs, id, i),
    ensures
        env_index(envs, id) == Some(i),
{
    let k = choose|k: int| is_first_env(envs, id, k);
    lemma_first_env_unique(envs, id, i, k);
}

/// A first pool of a given type is the one `pool_index` names.
pub proof fn lemma_pool_index_is(pools: Seq<WorkerPoolView>, ty: PoolType, k: int)
    requires
        is_first_pool(pools, ty, k),
    ensures
        pool_index(pools, ty) == Some(k),
{
    let m = choose|m: int| is_first_pool(pools, ty, m);
    if m < k {
        assert(pools[m].pool_type != ty);
    } else if k < m {
        assert(pools[k].pool_type != ty);
    }
}

/// What `env_index` names is an environment with that identifier.
pub proof fn lemma_env_index_valid(envs: Seq<EnvironmentView>, id: Seq<char>)
    ensures
        env_index(envs, id) matches Some(i) ==> is_first_env(envs, id, i),
        env_index(envs, id) is None ==> forall|i: int| 0 <= i < envs.len() ==> #[trigger] envs[i].environment_id != id,
{
    if env_index(envs, id) is None {
        assert forall|i: int| 0 <= i < envs.len() implies #[trigger] envs[i].environment_id != id by {
            if envs[i].environment_id == id {
                lemma_some_first_env(envs, id, i);
            }
        }
    }
}

/// If some environment has identifier `id`, there is a first one.
pub proof fn lemma_some_first_env(envs: Seq<EnvironmentView>, id: Seq<char>, i: int)
    requires
        0 <= i < envs.len(),
        envs[i].environment_id == id,
    ensures
        exists|k: int| is_first_env(envs, id, k),
    decreases i,
{
    if exists|j: int| 0 <= j < i && (#[trigger] envs[j]).environment_id == id {
        let j = choose|j: int| 0 <= j < i && (#[trigger] envs[j]).environment_id == id;
        lemma_some_first_env(envs, id, j);
    } else {
        assert(is_first_env(envs, id, i));
    }
}

/// Sequences of environments with the same identifiers at the same positions
/// resolve every identifier alike.
pub proof fn lemma_same_ids(a: Seq<EnvironmentView>, b: Seq<EnvironmentView>)
    requires
        a.len() == b.len(),
        forall|i: int| 0 <= i < a.len() ==> #[trigger] b[i].environment_id == a[i].environment_id,
    ensures
        forall|id: Seq<char>| #[trigger] has_env_id(b, id) == has_env_id(a, id),
        forall|id: Seq<char>| #[trigger] env_index(b, id) == env_index(a, id),
{
    assert forall|id: Seq<char>| #[trigger] has_env_id(b, id) == has_env_id(a, id) by {
        if has_env_id(a, id) {
            let i = choose|i: int| 0 <= i < a.len() && #[trigger] a[i].environment_id == id;
            assert(b[i].environment_id == id);
        }
        if has_env_id(b, id) {
            let i = choose|i: int| 0 <= i < b.len() && #[trigger] b[i].environment_id == id;
            assert(a[i].environment_id == id);
        }
    }
    assert forall|id: Seq<char>| #[trigger] env_index(b, id) == env_index(a, id) by {
        assert forall|i: int| is_first_env(a, id, i) <==> is_first_env(b, id, i) by {
            if is_first_env(a, id, i) {
                assert forall|j: int| 0 <= j < i implies (#[trigger] b[j]).environment_id != id by {
                    assert(a[j].environment_id != id);
                }
            }
            if is_first_env(b, id, i) {
                assert forall|j: int| 0 <= j < i implies (#[trigger] a[j]).environment_id != id by {
                    assert(b[j].environment_id != id);
                }
            }
        }
        if exists|i: int| is_first_env(a, id, i) {
            let i = choose|i: int| is_first_env(a, id, i);
            lemma_env_index_is(a, id, i);
            lemma_env_index_is(b, id, i);
        } else {
            assert(!exists|i: int| is_first_env(b, id, i));
        }
    }
}

/// Replacing one environment by one with the same identifier that is itself
/// well formed keeps the registry well formed and every lookup unchanged.
pub proof fn lemma_replace_env(s: ServerView, i: int, e: EnvironmentView)
    requires
        well_formed(s),
        0 <= i < s.envs.len(),
        e.environment_id == s.envs[i].environment_id,
        env_well_formed(e),
    ensures
        well_formed(ServerView { envs: s.envs.update(i, e), ..s }),
        forall|id: Seq<char>| #[trigger] env_index(s.envs.update(i, e), id) == env_index(s.envs, id),
{
    let envs2 = s.envs.update(i, e);
    lemma_same_ids(s.envs, envs2);
    let s2 = ServerView { envs: envs2, ..s };
    assert forall|d: int| 0 <= d < s2.deploys.len() implies has_env_id(s2.envs, #[trigger] s2.deploys[d].environment_id) by {
        assert(has_env_id(s.envs, s.deploys[d].environment_id));
    }
}

} // verus!
