//! Properties of the registry that span several operations.
use vstd::prelude::*;
use crate::model::{
    count_status, env_index, env_well_formed, expected_drift, is_apply, is_success_of,
    at_most, last_success, lemma_env_index_valid, lemma_same_ids, listing, newest_first, pool_in_bounds,
    pool_index, rollback_target, validation_checks, well_formed, workers_healthy, ServerView,
};
use crate::server::{
    drift_post, promote_post, rollback_post, scale_post, seed, sync_fits, sync_post, validate_post,
    DetectConfigDriftInput, PromoteBuildInput, RollbackDeployInput, ScaleWorkerPoolInput,
    SyncConfigInput, ValidateEnvironmentInput,
};
use crate::text::decimal;
use crate::types::{
    DeployStatus, EnvironmentStatus, EnvironmentType, EnvironmentView, drift_items_view, opt_view, Deployment, DeploymentView, DriftItemView, DriftReport,
    RollbackReport, ScaleReport, SyncReport, Timestamp, ToolError, ValidationResult,
};

verus! {

/// The most recent successful deployment after one more record.
pub proof fn lemma_last_success_push(deploys: Seq<DeploymentView>, d: DeploymentView, id: Seq<char>)
    ensures
        last_success(deploys.push(d), id) == if is_success_of(d, id) {
            Some(d)
        } else {
            last_success(deploys, id)
        },
{
    assert(deploys.push(d).drop_last() =~= deploys);
}

/// A deployment recorded last comes first in the history of its environment.
pub proof fn lemma_newest_first_push(deploys: Seq<DeploymentView>, d: DeploymentView, id: Seq<char>)
    requires
        d.environment_id == id,
    ensures
        newest_first(deploys.push(d), id) == seq![d] + newest_first(deploys, id),
    decreases deploys.len(),
{
    let pushed = deploys.push(d);
    if deploys.len() == 0 {
        assert(pushed.drop_first() =~= Seq::<DeploymentView>::empty());
        assert(pushed[0] == d);
        assert(newest_first(pushed.drop_first(), id) == Seq::<DeploymentView>::empty());
        assert(newest_first(pushed, id) =~= seq![d]);
    } else {
        assert(pushed.drop_first() =~= deploys.drop_first().push(d));
        lemma_newest_first_push(deploys.drop_first(), d, id);
        assert(pushed[0] == deploys[0]);
        assert(newest_first(pushed, id) =~= seq![d] + newest_first(deploys, id));
    }
}

/// Rolling back right after a successful promotion returns the environment
/// to the release that was active before the promotion; the rollback is
/// refused only if no release was active then.
pub proof fn law_promote_then_rollback(
    s0: ServerView,
    s1: ServerView,
    s2: ServerView,
    pin: PromoteBuildInput,
    now1: Timestamp,
    token1: Seq<char>,
    r1: Result<Deployment, ToolError>,
    rin: RollbackDeployInput,
    now2: Timestamp,
    token2: Seq<char>,
    r2: Result<RollbackReport, ToolError>,
)
    requires
        well_formed(s0),
        promote_post(s0, s1, pin, now1, token1, r1),
        r1 is Ok,
        rollback_post(s1, s2, rin, now2, token2, r2),
        rin.environment_id@ == pin.target_environment_id@,
        rin.reason@.len() > 0,
    ensures
        env_index(s0.envs, pin.target_environment_id@) matches Some(i) && ({
            &&& env_index(s2.envs, pin.target_environment_id@) == Some(i)
            &&& r2 is Ok <==> s0.envs[i].active_release_id is Some
            &&& s0.envs[i].active_release_id is Some ==> s2.envs[i].active_release_id
                == s0.envs[i].active_release_id
            &&& r2 matches Ok(rep) ==> opt_view(rep.from_release) == Some(pin.release_bundle_id@)
        }),
{
    let id = pin.target_environment_id@;
    lemma_env_index_valid(s0.envs, id);
    let i = env_index(s0.envs, id)->0;
    lemma_same_ids(s0.envs, s1.envs);
    lemma_same_ids(s1.envs, s2.envs);
    let rec = s1.deploys.last();
    assert(s1.deploys == s0.deploys.push(rec));
    lemma_last_success_push(s0.deploys, rec, id);
    assert(rollback_target(s1.deploys, id) == s0.envs[i].active_release_id);
}

/// Rolling back twice in a row lands on the same release both times.
pub proof fn law_rollback_is_repeatable(
    s0: ServerView,
    s1: ServerView,
    s2: ServerView,
    in1: RollbackDeployInput,
    now1: Timestamp,
    token1: Seq<char>,
    r1: Result<RollbackReport, ToolError>,
    in2: RollbackDeployInput,
    now2: Timestamp,
    token2: Seq<char>,
    r2: Result<RollbackReport, ToolError>,
)
    requires
        well_formed(s0),
        rollback_post(s0, s1, in1, now1, token1, r1),
        r1 is Ok,
        rollback_post(s1, s2, in2, now2, token2, r2),
        in2.environment_id@ == in1.environment_id@,
        in2.reason@.len() > 0,
    ensures
        r2 is Ok,
        s2.deploys == s0.deploys,
        r1 matches Ok(a) && (r2 matches Ok(b) && a.to_release@ == b.to_release@),
        env_index(s2.envs, in1.environment_id@) matches Some(i) && s2.envs[i].active_release_id
            == s1.envs[i].active_release_id,
{
    let id = in1.environment_id@;
    lemma_env_index_valid(s0.envs, id);
    lemma_same_ids(s0.envs, s1.envs);
    lemma_same_ids(s1.envs, s2.envs);
}

/// A promotion records the release that was active before it, so that it can
/// be rolled back to, and the new deployment heads the environment's history.
pub proof fn law_promotion_record(
    s0: ServerView,
    s1: ServerView,
    pin: PromoteBuildInput,
    now: Timestamp,
    token: Seq<char>,
    r: Result<Deployment, ToolError>,
)
    requires
        well_formed(s0),
        promote_post(s0, s1, pin, now, token, r),
        r is Ok,
    ensures
        env_index(s0.envs, pin.target_environment_id@) matches Some(i) && opt_view(
            r->Ok_0.previous_release_id,
        ) == s0.envs[i].active_release_id && s1.envs[i].active_release_id == Some(
            pin.release_bundle_id@,
        ) && (s0.envs[i].env_type == crate::types::EnvironmentType::Production ==> (
        r->Ok_0.validation_id is Some && r->Ok_0.approval_id is Some)),
        newest_first(s1.deploys, pin.target_environment_id@) == seq![r->Ok_0@] + newest_first(
            s0.deploys,
            pin.target_environment_id@,
        ),
{
    let id = pin.target_environment_id@;
    lemma_env_index_valid(s0.envs, id);
    let rec = s1.deploys.last();
    assert(s1.deploys == s0.deploys.push(rec));
    lemma_newest_first_push(s0.deploys, rec, id);
}

/// An apply to a production environment without an approval changes nothing
/// and is refused.
pub proof fn law_production_apply_needs_approval(
    s0: ServerView,
    s1: ServerView,
    input: SyncConfigInput,
    now: Timestamp,
    r: Result<SyncReport, ToolError>,
)
    requires
        sync_post(s0, s1, input, now, r),
        is_apply(opt_view(input.mode)),
        input.approval_id is None,
        env_index(s0.envs, input.environment_id@) matches Some(i) && s0.envs[i].env_type
            == crate::types::EnvironmentType::Production,
    ensures
        s1 == s0,
        r matches Err(ToolError::ApprovalRequired(x)) && x@ == input.environment_id@,
{
}

/// A promotion to a production environment without a validation or without
/// an approval changes nothing and is refused.
pub proof fn law_production_promotion_needs_gates(
    s0: ServerView,
    s1: ServerView,
    input: PromoteBuildInput,
    now: Timestamp,
    token: Seq<char>,
    r: Result<Deployment, ToolError>,
)
    requires
        promote_post(s0, s1, input, now, token, r),
        input.validation_id is None || input.approval_id is None,
        env_index(s0.envs, input.target_environment_id@) matches Some(i) && s0.envs[i].env_type
            == crate::types::EnvironmentType::Production,
    ensures
        s1 == s0,
        r is Err,
{
}

/// A plan never changes the registry, and a production plan always asks for
/// approval.
pub proof fn law_plan_changes_nothing(
    s0: ServerView,
    s1: ServerView,
    input: SyncConfigInput,
    now: Timestamp,
    r: Result<SyncReport, ToolError>,
)
    requires
        sync_post(s0, s1, input, now, r),
        !is_apply(opt_view(input.mode)),
    ensures
        s1 == s0,
        r matches Ok(SyncReport::Planned { requires_approval, .. }) ==> (env_index(
            s0.envs,
            input.environment_id@,
        ) matches Some(i) && requires_approval == (s0.envs[i].env_type
            == crate::types::EnvironmentType::Production)),
{
}

/// Every apply that goes ahead raises the configuration version by exactly
/// one (installing the configuration if one is given), and a drift check
/// right after reports the version as drifted.
pub proof fn law_apply_then_drift(
    s0: ServerView,
    s1: ServerView,
    sin: SyncConfigInput,
    now1: Timestamp,
    r1: Result<SyncReport, ToolError>,
    din: DetectConfigDriftInput,
    now2: Timestamp,
    token: Seq<char>,
    r2: Result<DriftReport, ToolError>,
)
    requires
        well_formed(s0),
        sync_fits(s0, sin),
        sync_post(s0, s1, sin, now1, r1),
        r1 is Ok,
        is_apply(opt_view(sin.mode)),
        drift_post(s1, din, now2, token, r2),
        din.environment_id@ == sin.environment_id@,
    ensures
        env_index(s0.envs, sin.environment_id@) matches Some(i) && s1.envs[i].config_version
            == s0.envs[i].config_version + 1 && s1.envs[i].config == match sin.config {
            Some(c) => c@,
            None => s0.envs[i].config,
        },
        r2 matches Ok(rep) && rep.total_drifted == 1 && drift_items_view(rep.drifted_items@)
            == seq![
            DriftItemView {
                target: "config_version"@,
                expected: "1"@,
                actual: decimal((s0.envs[env_index(s0.envs, sin.environment_id@)->0].config_version
                    + 1) as nat),
                severity: "low"@,
            },
        ],
{
    let id = sin.environment_id@;
    lemma_env_index_valid(s0.envs, id);
    let i = env_index(s0.envs, id)->0;
    assert(env_well_formed(s0.envs[i]));
    lemma_same_ids(s0.envs, s1.envs);
    assert(env_index(s1.envs, id) == Some(i));
    assert(s1.envs[i].config_version == s0.envs[i].config_version + 1);
    assert(expected_drift(s1.envs[i]).len() == 1);
    let rep = r2->Ok_0;
    assert(drift_items_view(rep.drifted_items@).len() == rep.drifted_items@.len());
}

/// Scaling brings the requested capacity into the pool's bounds, and a
/// request within the bounds is taken as it is.
pub proof fn law_scale_respects_bounds(
    s0: ServerView,
    s1: ServerView,
    input: ScaleWorkerPoolInput,
    now: Timestamp,
    r: Result<ScaleReport, ToolError>,
)
    requires
        well_formed(s0),
        scale_post(s0, s1, input, now, r),
        r is Ok,
    ensures
        env_index(s0.envs, input.environment_id@) matches Some(i) && (pool_index(
            s0.envs[i].worker_pools,
            input.pool_type,
        ) matches Some(k) && ({
            let p = s1.envs[i].worker_pools[k];
            &&& p.min_capacity <= p.desired_capacity <= p.max_capacity
            &&& p.current_capacity == p.desired_capacity
            &&& p.desired_capacity == r->Ok_0.target_capacity
            &&& p.min_capacity <= input.desired_capacity <= p.max_capacity ==> p.desired_capacity
                == input.desired_capacity
        })),
{
    let id = input.environment_id@;
    lemma_env_index_valid(s0.envs, id);
    let i = env_index(s0.envs, id)->0;
    assert(env_well_formed(s0.envs[i]));
    let k = pool_index(s0.envs[i].worker_pools, input.pool_type)->0;
    assert(pool_in_bounds(s0.envs[i].worker_pools[k]));
}

/// Scaling a pool twice to the same request leaves it as the first scaling
/// did.
pub proof fn law_scale_is_idempotent(
    s0: ServerView,
    s1: ServerView,
    s2: ServerView,
    input: ScaleWorkerPoolInput,
    now1: Timestamp,
    r1: Result<ScaleReport, ToolError>,
    again: ScaleWorkerPoolInput,
    now2: Timestamp,
    r2: Result<ScaleReport, ToolError>,
)
    requires
        well_formed(s0),
        scale_post(s0, s1, input, now1, r1),
        r1 is Ok,
        scale_post(s1, s2, again, now2, r2),
        again.environment_id@ == input.environment_id@,
        again.pool_type == input.pool_type,
        again.desired_capacity == input.desired_capacity,
    ensures
        r2 matches Ok(b) && (r1 matches Ok(a) && b.target_capacity == a.target_capacity
            && b.previous_capacity == a.target_capacity),
        env_index(s0.envs, input.environment_id@) matches Some(i) && s2.envs[i].worker_pools
            == s1.envs[i].worker_pools,
{
    let id = input.environment_id@;
    lemma_env_index_valid(s0.envs, id);
    let i = env_index(s0.envs, id)->0;
    lemma_same_ids(s0.envs, s1.envs);
    let p0 = s0.envs[i].worker_pools;
    let p1 = s1.envs[i].worker_pools;
    let k = pool_index(p0, input.pool_type)->0;
    assert(p1.len() == p0.len());
    assert forall|j: int| 0 <= j < p1.len() implies (#[trigger] p1[j]).pool_type == p0[j].pool_type by {}
    assert(crate::model::is_first_pool(p1, input.pool_type, k));
    crate::model::lemma_pool_index_is(p1, input.pool_type, k);
    assert(s2.envs[i].worker_pools =~= s1.envs[i].worker_pools);
}

/// The verdict of a validation: the checks split into passing, failing and
/// review, and promotion is allowed exactly when every pool runs at least its
/// minimum capacity.
pub proof fn law_validation_verdict(
    s: ServerView,
    input: ValidateEnvironmentInput,
    now: Timestamp,
    token: Seq<char>,
    r: Result<ValidationResult, ToolError>,
)
    requires
        validate_post(s, input, now, token, r),
        r is Ok,
    ensures
        r matches Ok(v) && v.passing + v.failing + v.review == 7 && (env_index(
            s.envs,
            input.environment_id@,
        ) matches Some(i) && v.promotion_allowed == workers_healthy(s.envs[i].worker_pools)),
{
    let i = env_index(s.envs, input.environment_id@)->0;
    let c = validation_checks(s.envs[i], rollback_target(s.deploys, input.environment_id@) is Some);
    reveal_strlit("passing");
    reveal_strlit("failing");
    reveal_strlit("review");
    assert("passing"@[0] != "failing"@[0]);
    assert("passing"@[0] != "review"@[0]);
    assert("failing"@[0] != "review"@[0]);
    reveal_with_fuel(count_status, 8);
    assert(c.drop_last().drop_last().drop_last().drop_last().drop_last().drop_last().drop_last()
        =~= Seq::<crate::types::CheckView>::empty());
}

/// In a well-formed registry every pool runs at least its minimum capacity,
/// so validation always allows promotion.
pub proof fn law_validation_allows_promotion(
    s: ServerView,
    input: ValidateEnvironmentInput,
    now: Timestamp,
    token: Seq<char>,
    r: Result<ValidationResult, ToolError>,
)
    requires
        well_formed(s),
        validate_post(s, input, now, token, r),
        r is Ok,
    ensures
        r matches Ok(v) && v.promotion_allowed && v.failing == 0,
{
    law_validation_verdict(s, input, now, token, r);
    let i = env_index(s.envs, input.environment_id@)->0;
    lemma_env_index_valid(s.envs, input.environment_id@);
    assert(env_well_formed(s.envs[i]));
    let pools = s.envs[i].worker_pools;
    assert forall|k: int| 0 <= k < pools.len() implies (#[trigger] pools[k]).current_capacity
        >= pools[k].min_capacity by {
        assert(pool_in_bounds(pools[k]));
    }
}

// ---------------------------------------------------------------------------
// What every operation keeps.

/// Two registry states hold the same environments, by identifier and type,
/// in the same order.
pub open spec fn same_environments(a: ServerView, b: ServerView) -> bool {
    &&& b.envs.len() == a.envs.len()
    &&& forall|k: int|
        0 <= k < a.envs.len() ==> (#[trigger] b.envs[k]).environment_id == a.envs[k].environment_id
            && b.envs[k].env_type == a.envs[k].env_type
}

/// Every configuration version in `b` is at least the one at the same
/// position in `a`.
pub open spec fn versions_not_lower(a: ServerView, b: ServerView) -> bool {
    forall|k: int|
        0 <= k < a.envs.len() && k < b.envs.len() ==> a.envs[k].config_version <= (
        #[trigger] b.envs[k]).config_version
}

/// `a`'s deployments are the first deployments of `b`.
pub open spec fn deploys_prefix(a: ServerView, b: ServerView) -> bool {
    &&& a.deploys.len() <= b.deploys.len()
    &&& forall|d: int| 0 <= d < a.deploys.len() ==> #[trigger] b.deploys[d] == a.deploys[d]
}

/// Every recorded deployment succeeded.
pub open spec fn all_succeeded(a: ServerView) -> bool {
    forall|d: int| 0 <= d < a.deploys.len() ==> (#[trigger] a.deploys[d]).status == DeployStatus::Succeeded
}

/// Environment `k`'s configuration version was changed by an apply to it.
pub open spec fn applied_to(a: ServerView, b: ServerView, k: int) -> bool {
    exists|input: SyncConfigInput, now: Timestamp, r: Result<SyncReport, ToolError>|
        #[trigger] sync_post(a, b, input, now, r) && is_apply(opt_view(input.mode))
            && env_index(a.envs, input.environment_id@) == Some(k)
}

/// One operation of the registry took `a` to `b`: a read (which changes
/// nothing), a sync the registry accepts to run, a scaling, a promotion or a
/// rollback.
pub open spec fn is_step(a: ServerView, b: ServerView) -> bool {
    ||| b == a
    ||| exists|input: SyncConfigInput, now: Timestamp, r: Result<SyncReport, ToolError>|
        sync_fits(a, input) && #[trigger] sync_post(a, b, input, now, r)
    ||| exists|input: ScaleWorkerPoolInput, now: Timestamp, r: Result<ScaleReport, ToolError>|
        #[trigger] scale_post(a, b, input, now, r)
    ||| exists|
        input: PromoteBuildInput,
        now: Timestamp,
        token: Seq<char>,
        r: Result<Deployment, ToolError>,
    | #[trigger] promote_post(a, b, input, now, token, r)
    ||| exists|
        input: RollbackDeployInput,
        now: Timestamp,
        token: Seq<char>,
        r: Result<RollbackReport, ToolError>,
    | #[trigger] rollback_post(a, b, input, now, token, r)
}

/// Every operation keeps the environments (none is added, removed, renamed
/// or changes type); a configuration version never decreases, rises by at
/// most one, and changes only through an apply to that environment; the
/// deployment list only grows, by at most one successful record.
pub proof fn law_step(a: ServerView, b: ServerView)
    requires
        is_step(a, b),
    ensures
        same_environments(a, b),
        versions_not_lower(a, b),
        forall|k: int|
            0 <= k < a.envs.len() && (#[trigger] b.envs[k]).config_version != a.envs[k].config_version
                ==> b.envs[k].config_version == a.envs[k].config_version + 1 && applied_to(a, b, k),
        deploys_prefix(a, b),
        b.deploys.len() <= a.deploys.len() + 1,
        b.deploys.len() == a.deploys.len() + 1 ==> b.deploys.last().status == DeployStatus::Succeeded,
{
    if b == a {
    } else if exists|input: SyncConfigInput, now: Timestamp, r: Result<SyncReport, ToolError>|
        sync_fits(a, input) && #[trigger] sync_post(a, b, input, now, r) {
        let (input, now, r) = choose|input: SyncConfigInput, now: Timestamp, r: Result<SyncReport, ToolError>|
            sync_fits(a, input) && #[trigger] sync_post(a, b, input, now, r);
        match env_index(a.envs, input.environment_id@) {
            None => {},
            Some(i) => {
                lemma_env_index_valid(a.envs, input.environment_id@);
                assert forall|k: int|
                    0 <= k < a.envs.len() && (#[trigger] b.envs[k]).config_version
                        != a.envs[k].config_version implies b.envs[k].config_version
                    == a.envs[k].config_version + 1 && applied_to(a, b, k) by {
                    assert(k == i);
                    assert(sync_post(a, b, input, now, r));
                }
            },
        }
    } else if exists|input: ScaleWorkerPoolInput, now: Timestamp, r: Result<ScaleReport, ToolError>|
        #[trigger] scale_post(a, b, input, now, r) {
        let (input, now, r) = choose|input: ScaleWorkerPoolInput, now: Timestamp, r: Result<ScaleReport, ToolError>|
            #[trigger] scale_post(a, b, input, now, r);
        lemma_env_index_valid(a.envs, input.environment_id@);
    } else if exists|
        input: PromoteBuildInput,
        now: Timestamp,
        token: Seq<char>,
        r: Result<Deployment, ToolError>,
    | #[trigger] promote_post(a, b, input, now, token, r) {
        let (input, now, token, r) = choose|
            input: PromoteBuildInput,
            now: Timestamp,
            token: Seq<char>,
            r: Result<Deployment, ToolError>,
        | #[trigger] promote_post(a, b, input, now, token, r);
        lemma_env_index_valid(a.envs, input.target_environment_id@);
    } else {
        let (input, now, token, r) = choose|
            input: RollbackDeployInput,
            now: Timestamp,
            token: Seq<char>,
            r: Result<RollbackReport, ToolError>,
        | #[trigger] rollback_post(a, b, input, now, token, r);
        lemma_env_index_valid(a.envs, input.environment_id@);
    }
}

/// Step `k` of a run: the state after it follows from the one before by one
/// operation.
pub open spec fn step_at(run: Seq<ServerView>, k: int) -> bool {
    is_step(run[k], run[k + 1])
}

/// A run of the registry: it starts as `EnvironmentServer::new_at(now)`
/// leaves it and goes on by operations.
pub open spec fn is_run(run: Seq<ServerView>, now: Timestamp) -> bool {
    &&& run.len() >= 1
    &&& run[0] == seed(now)
    &&& forall|k: int| 0 <= k < run.len() - 1 ==> #[trigger] step_at(run, k)
}

proof fn lemma_run_upto(run: Seq<ServerView>, now: Timestamp, k: int)
    requires
        is_run(run, now),
        0 <= k < run.len(),
    ensures
        same_environments(run[0], run[k]),
        all_succeeded(run[k]),
        forall|j: int| 0 <= j <= k ==> versions_not_lower(#[trigger] run[j], run[k]),
        forall|j: int| 0 <= j <= k ==> deploys_prefix(#[trigger] run[j], run[k]),
    decreases k,
{
    if k == 0 {
        assert(run[0].deploys.len() == 0);
        assert forall|j: int| 0 <= j <= k implies versions_not_lower(#[trigger] run[j], run[k]) by {}
        assert forall|j: int| 0 <= j <= k implies deploys_prefix(#[trigger] run[j], run[k]) by {}
    } else {
        lemma_run_upto(run, now, k - 1);
        assert(step_at(run, k - 1));
        law_step(run[k - 1], run[k]);
        let a = run[k - 1];
        let b = run[k];
        assert forall|d: int| 0 <= d < b.deploys.len() implies (#[trigger] b.deploys[d]).status
            == DeployStatus::Succeeded by {
            if d < a.deploys.len() {
                assert(b.deploys[d] == a.deploys[d]);
            }
        }
        assert forall|j: int| 0 <= j <= k implies versions_not_lower(#[trigger] run[j], run[k]) by {
            if j < k {
                assert(versions_not_lower(run[j], run[k - 1]));
                assert forall|e: int|
                    0 <= e < run[j].envs.len() && e < run[k].envs.len() implies run[j].envs[e].config_version
                    <= (#[trigger] run[k].envs[e]).config_version by {
                    assert(run[j].envs[e].config_version <= run[k - 1].envs[e].config_version);
                    assert(run[k - 1].envs[e].config_version <= run[k].envs[e].config_version);
                }
            }
        }
        assert forall|j: int| 0 <= j <= k implies deploys_prefix(#[trigger] run[j], run[k]) by {
            if j < k {
                assert(deploys_prefix(run[j], run[k - 1]));
                assert forall|d: int| 0 <= d < run[j].deploys.len() implies #[trigger] run[k].deploys[d]
                    == run[j].deploys[d] by {
                    assert(run[k - 1].deploys[d] == run[j].deploys[d]);
                }
            }
        }
    }
}

/// Along any run of the registry from its start: the environments stay the
/// four it started with (same identifiers and types, in order), every
/// recorded deployment succeeded, configuration versions never go down, and
/// the deployment list only grows (each state's deployments begin with those
/// of every earlier state).
pub proof fn law_run_from_start(run: Seq<ServerView>, now: Timestamp)
    requires
        is_run(run, now),
    ensures
        forall|k: int| 0 <= k < run.len() ==> same_environments(seed(now), #[trigger] run[k]),
        forall|k: int| 0 <= k < run.len() ==> all_succeeded(#[trigger] run[k]),
        forall|j: int, k: int|
            0 <= j <= k < run.len() ==> versions_not_lower(#[trigger] run[j], #[trigger] run[k]),
        forall|j: int, k: int| 0 <= j <= k < run.len() ==> deploys_prefix(#[trigger] run[j], #[trigger] run[k]),
{
    assert forall|k: int| 0 <= k < run.len() implies same_environments(seed(now), #[trigger] run[k])
        && all_succeeded(run[k]) by {
        lemma_run_upto(run, now, k);
    }
    assert forall|j: int, k: int| 0 <= j <= k < run.len() implies versions_not_lower(
        #[trigger] run[j],
        #[trigger] run[k],
    ) && deploys_prefix(run[j], run[k]) by {
        lemma_run_upto(run, now, k);
    }
}

// ---------------------------------------------------------------------------
// Where a rollback goes, and what the readiness check says.

/// Where a rollback of environment `id` goes, record by record: nowhere with
/// no records; a record of another environment, or one that did not succeed,
/// changes nothing; a successful deployment of `id` sends the rollback to the
/// release that deployment replaced.
pub proof fn law_rollback_target_by_record(deploys: Seq<DeploymentView>, x: DeploymentView, id: Seq<char>)
    ensures
        rollback_target(Seq::<DeploymentView>::empty(), id) is None,
        x.environment_id != id ==> rollback_target(deploys.push(x), id) == rollback_target(deploys, id),
        x.status != DeployStatus::Succeeded ==> rollback_target(deploys.push(x), id) == rollback_target(
            deploys,
            id,
        ),
        x.environment_id == id && x.status == DeployStatus::Succeeded ==> rollback_target(
            deploys.push(x),
            id,
        ) == x.previous_release_id,
{
    lemma_last_success_push(deploys, x, id);
}

/// A promotion of another environment does not change what a rollback of
/// this environment does: whether it is accepted, where it goes and what it
/// leaves this environment on.
pub proof fn law_rollback_ignores_other_promotions(
    s0: ServerView,
    s1: ServerView,
    pin: PromoteBuildInput,
    pnow: Timestamp,
    ptoken: Seq<char>,
    pr: Result<Deployment, ToolError>,
    rin: RollbackDeployInput,
    now: Timestamp,
    token: Seq<char>,
    a: ServerView,
    ra: Result<RollbackReport, ToolError>,
    b: ServerView,
    rb: Result<RollbackReport, ToolError>,
)
    requires
        well_formed(s0),
        promote_post(s0, s1, pin, pnow, ptoken, pr),
        pr is Ok,
        pin.target_environment_id@ != rin.environment_id@,
        rollback_post(s0, a, rin, now, token, ra),
        rollback_post(s1, b, rin, now, token, rb),
    ensures
        ra is Ok <==> rb is Ok,
        ra matches Ok(x) ==> (rb matches Ok(y) && x.to_release@ == y.to_release@ && opt_view(
            x.from_release,
        ) == opt_view(y.from_release)),
        env_index(s0.envs, rin.environment_id@) matches Some(i) ==> a.envs[i].active_release_id
            == b.envs[i].active_release_id,
{
    lemma_env_index_valid(s0.envs, pin.target_environment_id@);
    let j = env_index(s0.envs, pin.target_environment_id@)->0;
    lemma_same_ids(s0.envs, s1.envs);
    let rec = s1.deploys.last();
    assert(s1.deploys == s0.deploys.push(rec));
    law_rollback_target_by_record(s0.deploys, rec, rin.environment_id@);
    lemma_env_index_valid(s0.envs, rin.environment_id@);
    if let Some(i) = env_index(s0.envs, rin.environment_id@) {
        assert(i != j);
    }
}

/// The rollback readiness check that validation reports passes exactly when a
/// rollback of that environment, asked at the same moment with an audit
/// reason, is accepted.
pub proof fn law_readiness_matches_rollback(
    s: ServerView,
    vin: ValidateEnvironmentInput,
    vnow: Timestamp,
    vtoken: Seq<char>,
    vr: Result<ValidationResult, ToolError>,
    rin: RollbackDeployInput,
    rnow: Timestamp,
    rtoken: Seq<char>,
    s2: ServerView,
    rr: Result<RollbackReport, ToolError>,
)
    requires
        validate_post(s, vin, vnow, vtoken, vr),
        vr is Ok,
        rollback_post(s, s2, rin, rnow, rtoken, rr),
        rin.environment_id@ == vin.environment_id@,
        rin.reason@.len() > 0,
    ensures
        vr matches Ok(v) && v.checks@.len() == 7 && v.checks@[6].name@ == "rollback_readiness"@ && (
        v.checks@[6].status@ == "passing"@ <==> rr is Ok),
{
    let v = vr->Ok_0;
    assert(crate::types::checks_view(v.checks@)[6] == v.checks@[6]@);
    reveal_strlit("passing");
    reveal_strlit("review");
    assert("passing"@[0] != "review"@[0]);
}

// ---------------------------------------------------------------------------
// Sync modes.

/// Only the mode `apply` applies: a sync in any other mode (or none) changes
/// nothing and reports a plan; an apply that is not refused reports the
/// apply and raises the version by one.
pub proof fn law_sync_mode(
    s0: ServerView,
    s1: ServerView,
    input: SyncConfigInput,
    now: Timestamp,
    r: Result<SyncReport, ToolError>,
)
    requires
        well_formed(s0),
        sync_fits(s0, input),
        sync_post(s0, s1, input, now, r),
    ensures
        opt_view(input.mode) != Some("apply"@) ==> s1 == s0 && (r is Ok ==> r matches Ok(
            SyncReport::Planned { .. },
        )),
        env_index(s0.envs, input.environment_id@) matches Some(i) ==> (opt_view(input.mode) == Some(
            "apply"@,
        ) && !(s0.envs[i].env_type == EnvironmentType::Production && input.approval_id is None) ==> (
        r matches Ok(SyncReport::Applied { config_version, .. }) && config_version
            == s0.envs[i].config_version + 1 && s1.envs[i].config_version == config_version)),
{
    lemma_env_index_valid(s0.envs, input.environment_id@);
}

// ---------------------------------------------------------------------------
// Scaling.

/// Scaling keeps every pool's bounds, type and identity, and the number of
/// pools of every environment; only desired and current capacities move.
pub proof fn law_scale_keeps_bounds(
    s0: ServerView,
    s1: ServerView,
    input: ScaleWorkerPoolInput,
    now: Timestamp,
    r: Result<ScaleReport, ToolError>,
)
    requires
        scale_post(s0, s1, input, now, r),
    ensures
        s1.envs.len() == s0.envs.len(),
        forall|e: int|
            0 <= e < s0.envs.len() ==> (#[trigger] s1.envs[e]).worker_pools.len()
                == s0.envs[e].worker_pools.len(),
        forall|e: int, k: int|
            0 <= e < s0.envs.len() && 0 <= k < s0.envs[e].worker_pools.len() ==> {
                let p0 = s0.envs[e].worker_pools[k];
                let p1 = #[trigger] s1.envs[e].worker_pools[k];
                &&& p1.min_capacity == p0.min_capacity
                &&& p1.max_capacity == p0.max_capacity
                &&& p1.pool_type == p0.pool_type
                &&& p1.pool_id == p0.pool_id
            },
{
    if let Some(i) = env_index(s0.envs, input.environment_id@) {
        if let Some(k) = pool_index(s0.envs[i].worker_pools, input.pool_type) {
            assert forall|e: int, k2: int|
                0 <= e < s0.envs.len() && 0 <= k2 < s0.envs[e].worker_pools.len() implies {
                let p0 = s0.envs[e].worker_pools[k2];
                let p1 = #[trigger] s1.envs[e].worker_pools[k2];
                &&& p1.min_capacity == p0.min_capacity
                &&& p1.max_capacity == p0.max_capacity
                &&& p1.pool_type == p0.pool_type
                &&& p1.pool_id == p0.pool_id
            } by {
                if e == i {
                    if k2 != k {
                        assert(s1.envs[e].worker_pools[k2] == s0.envs[e].worker_pools[k2]);
                    }
                }
            }
        }
    }
}

/// A scaling after an earlier one of the same pool answers against the
/// pool's original bounds: a request within them is taken as is, one below
/// is raised to the minimum, one above is lowered to the maximum.
pub proof fn law_scale_after_scale(
    s0: ServerView,
    s1: ServerView,
    s2: ServerView,
    in1: ScaleWorkerPoolInput,
    now1: Timestamp,
    r1: Result<ScaleReport, ToolError>,
    in2: ScaleWorkerPoolInput,
    now2: Timestamp,
    r2: Result<ScaleReport, ToolError>,
)
    requires
        well_formed(s0),
        scale_post(s0, s1, in1, now1, r1),
        r1 is Ok,
        scale_post(s1, s2, in2, now2, r2),
        in2.environment_id@ == in1.environment_id@,
        in2.pool_type == in1.pool_type,
    ensures
        r2 is Ok,
        env_index(s0.envs, in1.environment_id@) matches Some(i) && (pool_index(
            s0.envs[i].worker_pools,
            in1.pool_type,
        ) matches Some(k) && ({
            let lo = s0.envs[i].worker_pools[k].min_capacity;
            let hi = s0.envs[i].worker_pools[k].max_capacity;
            let want = in2.desired_capacity;
            &&& r2->Ok_0.previous_capacity == r1->Ok_0.target_capacity
            &&& lo <= want <= hi ==> r2->Ok_0.target_capacity == want
            &&& want < lo ==> r2->Ok_0.target_capacity == lo
            &&& want > hi ==> r2->Ok_0.target_capacity == hi
        })),
{
    let id = in1.environment_id@;
    lemma_env_index_valid(s0.envs, id);
    let i = env_index(s0.envs, id)->0;
    lemma_same_ids(s0.envs, s1.envs);
    let p0 = s0.envs[i].worker_pools;
    let p1 = s1.envs[i].worker_pools;
    let k = pool_index(p0, in1.pool_type)->0;
    law_scale_keeps_bounds(s0, s1, in1, now1, r1);
    assert forall|j: int| 0 <= j < p1.len() implies (#[trigger] p1[j]).pool_type == p0[j].pool_type by {}
    assert(crate::model::is_first_pool(p1, in1.pool_type, k));
    crate::model::lemma_pool_index_is(p1, in1.pool_type, k);
}

// ---------------------------------------------------------------------------
// Listing.

/// Every environment a filtered listing holds has the filter's status.
pub proof fn law_listing_has_status(envs: Seq<EnvironmentView>, st: EnvironmentStatus)
    ensures
        forall|j: int|
            0 <= j < listing(envs, Some(st)).len() ==> (#[trigger] listing(envs, Some(st))[j]).status == st,
    decreases envs.len(),
{
    if envs.len() > 0 {
        law_listing_has_status(envs.drop_last(), st);
    }
}

/// Every environment with the filter's status is in the filtered listing.
pub proof fn law_listing_is_complete(envs: Seq<EnvironmentView>, st: EnvironmentStatus, k: int)
    requires
        0 <= k < envs.len(),
        envs[k].status == st,
    ensures
        exists|j: int|
            0 <= j < listing(envs, Some(st)).len() && #[trigger] listing(envs, Some(st))[j]
                == crate::model::summary_of(envs[k]),
    decreases envs.len(),
{
    let l = listing(envs, Some(st));
    if k < envs.len() - 1 {
        let init = envs.drop_last();
        law_listing_is_complete(init, st, k);
        let li = listing(init, Some(st));
        let j = choose|j: int| 0 <= j < li.len() && #[trigger] li[j] == crate::model::summary_of(init[k]);
        assert(l[j] == li[j]);
    } else {
        assert(l[l.len() - 1] == crate::model::summary_of(envs[k]));
    }
}

/// Every summary in a filtered listing is that of a listed environment.
pub proof fn law_listing_is_sound(envs: Seq<EnvironmentView>, st: EnvironmentStatus, j: int)
    requires
        0 <= j < listing(envs, Some(st)).len(),
    ensures
        exists|k: int|
            0 <= k < envs.len() && envs[k].status == st && crate::model::summary_of(#[trigger] envs[k])
                == listing(envs, Some(st))[j],
    decreases envs.len(),
{
    let init = envs.drop_last();
    let l = listing(envs, Some(st));
    let li = listing(init, Some(st));
    if j < li.len() {
        law_listing_is_sound(init, st, j);
        assert(l[j] == li[j]);
        let k = choose|k: int|
            0 <= k < init.len() && init[k].status == st && crate::model::summary_of(#[trigger] init[k]) == li[j];
        assert(envs[k] == init[k]);
    } else {
        assert(crate::model::summary_of(envs[envs.len() - 1]) == l[j]);
    }
}

/// A listing without a filter holds every environment, in order.
pub proof fn law_listing_unfiltered(envs: Seq<EnvironmentView>)
    ensures
        listing(envs, None).len() == envs.len(),
        forall|k: int|
            0 <= k < envs.len() ==> #[trigger] listing(envs, None)[k] == crate::model::summary_of(envs[k]),
    decreases envs.len(),
{
    if envs.len() > 0 {
        let init = envs.drop_last();
        law_listing_unfiltered(init);
        assert forall|k: int| 0 <= k < envs.len() implies #[trigger] listing(envs, None)[k]
            == crate::model::summary_of(envs[k]) by {
            if k < envs.len() - 1 {
                assert(init[k] == envs[k]);
                assert(listing(envs, None)[k] == listing(init, None)[k]);
            }
        }
    }
}

// ---------------------------------------------------------------------------
// Promotion records, history, validation, drift and the starting registry.

/// What a successful promotion hands back: the deployment of the requested
/// release to the requested environment, by the requested person, with the
/// requested strategy (`immediate` if none), the given validation and
/// approval, succeeded, identified by `deploy_` and the token, created and
/// completed at `now`; it is also the newest record of the registry.
pub proof fn law_promotion_result(
    s0: ServerView,
    s1: ServerView,
    input: PromoteBuildInput,
    now: Timestamp,
    token: Seq<char>,
    r: Result<Deployment, ToolError>,
)
    requires
        promote_post(s0, s1, input, now, token, r),
        r is Ok,
    ensures
        r matches Ok(d) && ({
            &&& d.deployment_id@ == "deploy_"@ + token
            &&& d.environment_id@ == input.target_environment_id@
            &&& d.release_bundle_id@ == input.release_bundle_id@
            &&& d.promoted_by@ == input.promoted_by@
            &&& d.strategy@ == match input.strategy {
                Some(st) => st@,
                None => "immediate"@,
            }
            &&& d.status == DeployStatus::Succeeded
            &&& opt_view(d.validation_id) == opt_view(input.validation_id)
            &&& opt_view(d.approval_id) == opt_view(input.approval_id)
            &&& d.created_at == now
            &&& d.completed_at == Some(now)
            &&& s1.deploys.len() == s0.deploys.len() + 1
            &&& s1.deploys.last() == d@
        }),
{
    lemma_env_index_valid(s0.envs, input.target_environment_id@);
}

/// The history of an environment holds only its deployments, newest first:
/// a new record of it comes first, a record of another environment does not
/// appear; a history answer holds at most `limit` of them, the newest.
pub proof fn law_history_shape(deploys: Seq<DeploymentView>, x: DeploymentView, id: Seq<char>, n: nat)
    ensures
        forall|j: int|
            0 <= j < newest_first(deploys, id).len() ==> (#[trigger] newest_first(deploys, id)[j]).environment_id
                == id,
        x.environment_id == id ==> newest_first(deploys.push(x), id) == seq![x] + newest_first(deploys, id),
        x.environment_id != id ==> newest_first(deploys.push(x), id) == newest_first(deploys, id),
        at_most(newest_first(deploys, id), n).len() == if n < newest_first(deploys, id).len() {
            n as int
        } else {
            newest_first(deploys, id).len() as int
        },
        forall|j: int|
            0 <= j < at_most(newest_first(deploys, id), n).len() ==> #[trigger] at_most(
                newest_first(deploys, id),
                n,
            )[j] == newest_first(deploys, id)[j],
{
    if x.environment_id == id {
        lemma_newest_first_push(deploys, x, id);
    } else {
        lemma_newest_first_other(deploys, x, id);
    }
    lemma_newest_first_only(deploys, id);
}

proof fn lemma_newest_first_other(deploys: Seq<DeploymentView>, x: DeploymentView, id: Seq<char>)
    requires
        x.environment_id != id,
    ensures
        newest_first(deploys.push(x), id) == newest_first(deploys, id),
    decreases deploys.len(),
{
    let pushed = deploys.push(x);
    if deploys.len() == 0 {
        assert(pushed.drop_first() =~= Seq::<DeploymentView>::empty());
        assert(pushed[0] == x);
        assert(newest_first(pushed.drop_first(), id) == Seq::<DeploymentView>::empty());
    } else {
        assert(pushed.drop_first() =~= deploys.drop_first().push(x));
        lemma_newest_first_other(deploys.drop_first(), x, id);
        assert(pushed[0] == deploys[0]);
    }
}

proof fn lemma_newest_first_only(deploys: Seq<DeploymentView>, id: Seq<char>)
    ensures
        forall|j: int|
            0 <= j < newest_first(deploys, id).len() ==> (#[trigger] newest_first(deploys, id)[j]).environment_id
                == id,
    decreases deploys.len(),
{
    if deploys.len() > 0 {
        lemma_newest_first_only(deploys.drop_first(), id);
    }
}

/// The worker health check passes exactly when every pool of the
/// environment runs at least its minimum capacity, and names the number of
/// pools; the credential check names the number of credential references.
pub proof fn law_validation_checks_read_the_environment(
    s: ServerView,
    input: ValidateEnvironmentInput,
    now: Timestamp,
    token: Seq<char>,
    r: Result<ValidationResult, ToolError>,
)
    requires
        validate_post(s, input, now, token, r),
        r is Ok,
    ensures
        env_index(s.envs, input.environment_id@) matches Some(i) && (r matches Ok(v) && ({
            let pools = s.envs[i].worker_pools;
            &&& v.checks@.len() == 7
            &&& v.checks@[2].name@ == "worker_health"@
            &&& (v.checks@[2].status@ == "passing"@ <==> forall|k: int|
                0 <= k < pools.len() ==> (#[trigger] pools[k]).current_capacity >= pools[k].min_capacity)
            &&& v.checks@[2].message@ == decimal(pools.len()) + " pools"@
            &&& v.checks@[4].message@ == decimal(s.envs[i].credential_refs.len()) + " refs valid"@
            &&& v.environment_id@ == input.environment_id@
            &&& v.validated_at == now
            &&& v.validation_id@ == "val_"@ + token
        })),
{
    let v = r->Ok_0;
    assert(crate::types::checks_view(v.checks@)[2] == v.checks@[2]@);
    assert(crate::types::checks_view(v.checks@)[4] == v.checks@[4]@);
    reveal_strlit("passing");
    reveal_strlit("failing");
    assert("passing"@[0] != "failing"@[0]);
}

/// A drift check reports nothing while an environment is at its first
/// configuration version, and otherwise exactly one item: the version, with
/// its expected and actual values.
pub proof fn law_drift_report(
    s: ServerView,
    input: DetectConfigDriftInput,
    now: Timestamp,
    token: Seq<char>,
    r: Result<DriftReport, ToolError>,
)
    requires
        well_formed(s),
        drift_post(s, input, now, token, r),
        r is Ok,
    ensures
        env_index(s.envs, input.environment_id@) matches Some(i) && (r matches Ok(rep) && ({
            let v = s.envs[i].config_version;
            &&& rep.total_drifted as int == rep.drifted_items@.len()
            &&& (rep.total_drifted == 0 <==> v == 1)
            &&& v != 1 ==> (rep.drifted_items@.len() == 1 && rep.drifted_items@[0].target@
                == "config_version"@ && rep.drifted_items@[0].expected@ == "1"@
                && rep.drifted_items@[0].actual@ == decimal(v as nat))
            &&& rep.drift_id@ == "drift_"@ + token
            &&& rep.detected_at == now
        })),
{
    lemma_env_index_valid(s.envs, input.environment_id@);
    let i = env_index(s.envs, input.environment_id@)->0;
    assert(env_well_formed(s.envs[i]));
    let rep = r->Ok_0;
    assert(drift_items_view(rep.drifted_items@).len() == rep.drifted_items@.len());
    if s.envs[i].config_version != 1 {
        assert(drift_items_view(rep.drifted_items@)[0] == rep.drifted_items@[0]@);
    }
}

/// The registry starts with four healthy environments at configuration
/// version 1, distinct identifiers, exactly one of them production
/// (`env_prod`), every pool within its bounds, and no deployments.
pub proof fn law_seed(now: Timestamp)
    ensures
        ({
            let s = seed(now);
            &&& well_formed(s)
            &&& s.envs.len() == 4
            &&& s.deploys.len() == 0
            &&& forall|k: int| 0 <= k < 4 ==> (#[trigger] s.envs[k]).status == EnvironmentStatus::Healthy
                && s.envs[k].config_version == 1 && s.envs[k].updated_at == now
            &&& forall|k: int|
                0 <= k < 4 ==> ((#[trigger] s.envs[k]).env_type == EnvironmentType::Production <==> k == 2)
            &&& s.envs[2].environment_id == "env_prod"@
        }),
{
    reveal_strlit("env_dev");
    reveal_strlit("env_staging");
    reveal_strlit("env_prod");
    reveal_strlit("env_eu_prod");
    let s = seed(now);
    assert(s.envs[1].environment_id[4] != s.envs[3].environment_id[4]);
    assert forall|i: int| 0 <= i < s.envs.len() implies env_well_formed(#[trigger] s.envs[i]) by {
        assert forall|k: int| 0 <= k < s.envs[i].worker_pools.len() implies pool_in_bounds(
            #[trigger] s.envs[i].worker_pools[k],
        ) by {}
    }
}

} // verus!
