//! The environment registry and its operations.
use vstd::prelude::*;
use crate::model::{
    at_most, check_of, clamp, count_status, env_index, env_well_formed, expected_drift, has_env_id,
    is_apply, is_first_env, is_first_pool, lemma_env_index_is, lemma_pool_index_is,
    lemma_replace_env, last_success, listing, newest_first, pool_in_bounds, pool_index, promoted,
    promotion_refusal, rollback_target, scaled_env, summary_of, sync_needs_approval, synced,
    validation_checks, well_formed, with_config, with_release, workers_healthy, PromotionGate,
    ServerView,
};
use crate::outside::{current_time, is_lower_hex, random_token};
use crate::text::{decimal_text, workers_text};
use crate::types::{
    checks_view, clone_opt_string, deploys_view, drift_items_view, envs_view, opt_view, pools_view,
    summaries_view, Check, DeployStatus, Deployment, DriftItem, DriftReport, Environment,
    EnvironmentStatus, EnvironmentSummary, EnvironmentType, EnvironmentView, PoolType,
    RollbackReport, ScaleReport, SyncReport, Timestamp, ToolError, ValidationResult, WorkerPool,
    WorkerPoolView,
};

verus! {

/// The environments and deployments, without the invariant attached.
struct Registry {
    envs: Vec<Environment>,
    deploys: Vec<Deployment>,
}

impl View for Registry {
    type V = ServerView;

    closed spec fn view(&self) -> ServerView {
        ServerView { envs: envs_view(self.envs@), deploys: deploys_view(self.deploys@) }
    }
}

/// The registry of environments and of the deployments made to them. Its
/// model is always `well_formed`.
pub struct EnvironmentServer {
    reg: Registry,
}

impl View for EnvironmentServer {
    type V = ServerView;

    closed spec fn view(&self) -> ServerView {
        self.reg@
    }
}

impl EnvironmentServer {
    #[verifier::type_invariant]
    spec fn keeps_invariant(&self) -> bool {
        well_formed(self.reg@)
    }
}

// ---------------------------------------------------------------------------
// Inputs of the operations.

/// Lists environments, optionally only those with one status.
pub struct ListEnvironmentsInput {
    pub status_filter: Option<EnvironmentStatus>,
}

/// Names the environment to inspect.
pub struct GetEnvironmentInput {
    pub environment_id: String,
}

/// A configuration sync: `mode` is `plan` (the default) or `apply`; `config`
/// is the new configuration document; `approval_id` names the governance
/// approval that an apply to a production environment needs.
pub struct SyncConfigInput {
    pub environment_id: String,
    pub config: Option<String>,
    pub mode: Option<String>,
    pub approval_id: Option<String>,
}

/// Names the environment to validate and the scope of the validation.
pub struct ValidateEnvironmentInput {
    pub environment_id: String,
    pub scope: Option<String>,
}

/// Sets the desired capacity of the pool of one type in an environment.
pub struct ScaleWorkerPoolInput {
    pub environment_id: String,
    pub pool_type: PoolType,
    pub desired_capacity: u32,
    pub reason: Option<String>,
}

/// Promotes a release bundle to an environment. A production environment
/// takes it only with a validation and an approval identifier.
pub struct PromoteBuildInput {
    pub release_bundle_id: String,
    pub target_environment_id: String,
    pub promoted_by: String,
    pub strategy: Option<String>,
    pub validation_id: Option<String>,
    pub approval_id: Option<String>,
}

/// Rolls an environment back to the release that its last successful
/// deployment replaced; `reason` is the audit reason and must not be empty.
pub struct RollbackDeployInput {
    pub environment_id: String,
    pub reason: String,
    pub reason_code: Option<String>,
}

/// Asks for the deployment history of an environment (`limit` defaults to 10).
pub struct GetDeployHistoryInput {
    pub environment_id: String,
    pub limit: Option<usize>,
}

/// Names the environment to check for configuration drift.
pub struct DetectConfigDriftInput {
    pub environment_id: String,
}

/// Names the environment whose worker pools to report.
pub struct GetWorkerPoolStatusInput {
    pub environment_id: String,
}

// ---------------------------------------------------------------------------
// The registry as it starts.

pub open spec fn seed_pool(
    env_id: Seq<char>,
    suffix: Seq<char>,
    ty: PoolType,
    min: u32,
    desired: u32,
    max: u32,
) -> WorkerPoolView {
    WorkerPoolView {
        pool_id: env_id + suffix,
        pool_type: ty,
        min_capacity: min,
        desired_capacity: desired,
        max_capacity: max,
        current_capacity: desired,
        status: "healthy"@,
    }
}

pub open spec fn seed_env(
    id: Seq<char>,
    name: Seq<char>,
    ty: EnvironmentType,
    region: Seq<char>,
    now: Timestamp,
) -> EnvironmentView {
    EnvironmentView {
        environment_id: id,
        name: name,
        env_type: ty,
        region: region,
        status: EnvironmentStatus::Healthy,
        runtime_version: "adk-rust-0.12.4"@,
        active_release_id: Some("rel_2026_0518_1842"@),
        config_version: 1,
        config: "{\"memory_backend\":\"redis\",\"model_route\":\"gemini-3.1-flash\",\"payment_mode\":\"production\"}"@,
        worker_pools: seq![
            seed_pool(id, "_model"@, PoolType::Model, 2, 4, 20),
            seed_pool(id, "_graph"@, PoolType::Graph, 1, 2, 10),
            seed_pool(id, "_browser"@, PoolType::Browser, 2, 5, 50),
            seed_pool(id, "_payment"@, PoolType::Payment, 1, 2, 8),
        ],
        credential_refs: seq!["credref_anthropic_prod"@, "credref_payments_signing_key"@],
        protocol_bindings: "{\"a2a\":\"enabled\",\"acp\":\"enabled\",\"mcp\":\"enabled\"}"@,
        updated_at: now,
    }
}

/// The four environments the registry starts with, all stamped `now`, and no
/// deployments.
pub open spec fn seed(now: Timestamp) -> ServerView {
    ServerView {
        envs: seq![
            seed_env("env_dev"@, "Development"@, EnvironmentType::Development, "local"@, now),
            seed_env("env_staging"@, "Staging"@, EnvironmentType::Staging, "us-east-1"@, now),
            seed_env("env_prod"@, "Production"@, EnvironmentType::Production, "us-east-1"@, now),
            seed_env("env_eu_prod"@, "EU Production"@, EnvironmentType::Regional, "eu-west-1"@, now),
        ],
        deploys: Seq::empty(),
    }
}

fn make_seed_pool(
    env_id: &String,
    suffix: &str,
    ty: PoolType,
    min: u32,
    desired: u32,
    max: u32,
) -> (p: WorkerPool)
    ensures
        p@ == seed_pool(env_id@, suffix@, ty, min, desired, max),
{
    WorkerPool {
        pool_id: env_id.clone().concat(suffix),
        pool_type: ty,
        min_capacity: min,
        desired_capacity: desired,
        max_capacity: max,
        current_capacity: desired,
        status: String::from_str("healthy"),
    }
}

fn make_seed_env(id: &str, name: &str, ty: EnvironmentType, region: &str, now: Timestamp) -> (e:
    Environment)
    ensures
        e@ == seed_env(id@, name@, ty, region@, now),
{
    let env_id = String::from_str(id);
    let mut pools: Vec<WorkerPool> = Vec::new();
    pools.push(make_seed_pool(&env_id, "_model", PoolType::Model, 2, 4, 20));
    pools.push(make_seed_pool(&env_id, "_graph", PoolType::Graph, 1, 2, 10));
    pools.push(make_seed_pool(&env_id, "_browser", PoolType::Browser, 2, 5, 50));
    pools.push(make_seed_pool(&env_id, "_payment", PoolType::Payment, 1, 2, 8));
    let mut refs: Vec<String> = Vec::new();
    refs.push(String::from_str("credref_anthropic_prod"));
    refs.push(String::from_str("credref_payments_signing_key"));
    let e = Environment {
        environment_id: env_id,
        name: String::from_str(name),
        env_type: ty,
        region: String::from_str(region),
        status: EnvironmentStatus::Healthy,
        runtime_version: String::from_str("adk-rust-0.12.4"),
        active_release_id: Some(String::from_str("rel_2026_0518_1842")),
        config_version: 1,
        config: String::from_str(
            "{\"memory_backend\":\"redis\",\"model_route\":\"gemini-3.1-flash\",\"payment_mode\":\"production\"}",
        ),
        worker_pools: pools,
        credential_refs: refs,
        protocol_bindings: String::from_str("{\"a2a\":\"enabled\",\"acp\":\"enabled\",\"mcp\":\"enabled\"}"),
        updated_at: now,
    };
    assert(e@ =~= seed_env(id@, name@, ty, region@, now));
    e
}

impl Registry {
    /// The registry as it starts, with every environment stamped `now`.
    fn new_at(now: Timestamp) -> (s: Self)
        ensures
            s@ == seed(now),
            well_formed(s@),
    {
        let mut envs: Vec<Environment> = Vec::new();
        envs.push(make_seed_env("env_dev", "Development", EnvironmentType::Development, "local", now));
        envs.push(make_seed_env("env_staging", "Staging", EnvironmentType::Staging, "us-east-1", now));
        envs.push(make_seed_env("env_prod", "Production", EnvironmentType::Production, "us-east-1", now));
        envs.push(make_seed_env("env_eu_prod", "EU Production", EnvironmentType::Regional, "eu-west-1", now));
        let s = Registry { envs, deploys: Vec::new() };
        assert(s@ =~= seed(now));
        proof {
            reveal_strlit("env_dev");
            reveal_strlit("env_staging");
            reveal_strlit("env_prod");
            reveal_strlit("env_eu_prod");
            let v = s@;
            assert forall|k: int| 0 <= k < 4 implies pool_in_bounds(#[trigger] v.envs[0].worker_pools[k]) by {}
            assert forall|i: int| 0 <= i < v.envs.len() implies env_well_formed(#[trigger] v.envs[i]) by {
                assert forall|k: int| 0 <= k < v.envs[i].worker_pools.len() implies pool_in_bounds(
                    #[trigger] v.envs[i].worker_pools[k],
                ) by {}
            }
            assert(v.envs[0].environment_id != v.envs[1].environment_id);
            assert(v.envs[0].environment_id != v.envs[2].environment_id);
            assert(v.envs[0].environment_id != v.envs[3].environment_id);
            assert(v.envs[1].environment_id != v.envs[2].environment_id);
            assert(v.envs[1].environment_id[4] != v.envs[3].environment_id[4]);
            assert(v.envs[2].environment_id != v.envs[3].environment_id);
        }
        s
    }


    /// The position of the environment named `id`.
    fn find_env(&self, id: &String) -> (r: Option<usize>)
        ensures
            match r {
                Some(i) => i < self@.envs.len() && env_index(self@.envs, id@) == Some(i as int),
                None => env_index(self@.envs, id@) is None,
            },
    {
        let mut i: usize = 0;
        while i < self.envs.len()
            invariant
                i <= self.envs.len(),
                forall|j: int| 0 <= j < i ==> (#[trigger] self@.envs[j]).environment_id != id@,
            decreases self.envs.len() - i,
        {
            if self.envs[i].environment_id == *id {
                proof {
                    assert(is_first_env(self@.envs, id@, i as int));
                    lemma_env_index_is(self@.envs, id@, i as int);
                }
                return Some(i);
            }
            i += 1;
        }
        None
    }

    /// The environment named in the input.
    fn get_environment(&self, input: GetEnvironmentInput) -> (r: Result<&Environment, ToolError>)
        ensures
            match env_index(self@.envs, input.environment_id@) {
                Some(i) => r matches Ok(e) && e@ == self@.envs[i],
                None => not_found(r, input.environment_id@),
            },
    {
        match self.find_env(&input.environment_id) {
            Some(i) => Ok(&self.envs[i]),
            None => Err(ToolError::EnvironmentNotFound(input.environment_id)),
        }
    }
}

// ---------------------------------------------------------------------------
// What each operation does, over the model.

/// The refusal for an identifier that names no environment.
pub open spec fn not_found<T>(r: Result<T, ToolError>, id: Seq<char>) -> bool {
    r matches Err(ToolError::EnvironmentNotFound(x)) && x@ == id
}

/// An apply that goes ahead must be able to count one more configuration
/// version.
pub open spec fn sync_fits(s: ServerView, input: SyncConfigInput) -> bool {
    match env_index(s.envs, input.environment_id@) {
        Some(i) => is_apply(opt_view(input.mode)) && !sync_needs_approval(
            s.envs[i],
            opt_view(input.mode),
            opt_view(input.approval_id),
        ) ==> s.envs[i].config_version < u32::MAX,
        None => true,
    }
}

pub open spec fn sync_post(
    old: ServerView,
    new: ServerView,
    input: SyncConfigInput,
    now: Timestamp,
    r: Result<SyncReport, ToolError>,
) -> bool {
    match env_index(old.envs, input.environment_id@) {
        None => new == old && not_found(r, input.environment_id@),
        Some(i) => if sync_needs_approval(old.envs[i], opt_view(input.mode), opt_view(input.approval_id)) {
            &&& new == old
            &&& r matches Err(ToolError::ApprovalRequired(x)) && x@ == input.environment_id@
        } else {
            &&& new == synced(old, i, opt_view(input.config), opt_view(input.mode), now)
            &&& if is_apply(opt_view(input.mode)) {
                r matches Ok(SyncReport::Applied { environment_id, config_version })
                    && environment_id@ == input.environment_id@
                    && config_version == new.envs[i].config_version
            } else {
                r matches Ok(
                    SyncReport::Planned {
                        environment_id,
                        current_config_version,
                        changes_pending,
                        requires_approval,
                    },
                ) && environment_id@ == input.environment_id@ && current_config_version
                    == old.envs[i].config_version && changes_pending == (input.config is Some)
                    && requires_approval == (old.envs[i].env_type == EnvironmentType::Production)
            }
        },
    }
}

pub open spec fn scale_post(
    old: ServerView,
    new: ServerView,
    input: ScaleWorkerPoolInput,
    now: Timestamp,
    r: Result<ScaleReport, ToolError>,
) -> bool {
    match env_index(old.envs, input.environment_id@) {
        None => new == old && not_found(r, input.environment_id@),
        Some(i) => match pool_index(old.envs[i].worker_pools, input.pool_type) {
            None => {
                &&& new == old
                &&& r matches Err(ToolError::PoolTypeNotFound(p)) && p == input.pool_type
            },
            Some(k) => {
                let p = old.envs[i].worker_pools[k];
                &&& new == ServerView {
                    envs: old.envs.update(i, scaled_env(old.envs[i], k, input.desired_capacity, now)),
                    ..old
                }
                &&& r matches Ok(rep)
                &&& rep.environment_id@ == input.environment_id@
                &&& rep.pool_type == input.pool_type
                &&& rep.previous_capacity == p.desired_capacity
                &&& rep.target_capacity == clamp(input.desired_capacity, p.min_capacity, p.max_capacity)
                &&& rep.reason@ == match input.reason {
                    Some(x) => x@,
                    None => Seq::empty(),
                }
            },
        },
    }
}

pub open spec fn promote_post(
    old: ServerView,
    new: ServerView,
    input: PromoteBuildInput,
    now: Timestamp,
    token: Seq<char>,
    r: Result<Deployment, ToolError>,
) -> bool {
    match env_index(old.envs, input.target_environment_id@) {
        None => new == old && not_found(r, input.target_environment_id@),
        Some(i) => match promotion_refusal(
            old.envs[i],
            opt_view(input.validation_id),
            opt_view(input.approval_id),
        ) {
            Some(PromotionGate::Validation) => {
                &&& new == old
                &&& r matches Err(ToolError::ValidationRequired(x)) && x@ == input.target_environment_id@
            },
            Some(PromotionGate::Approval) => {
                &&& new == old
                &&& r matches Err(ToolError::ApprovalRequired(x)) && x@ == input.target_environment_id@
            },
            None => {
                &&& new == promoted(
                    old,
                    i,
                    token,
                    input.release_bundle_id@,
                    opt_view(input.strategy),
                    input.promoted_by@,
                    opt_view(input.validation_id),
                    opt_view(input.approval_id),
                    now,
                )
                &&& r matches Ok(d) && d@ == new.deploys.last()
            },
        },
    }
}

pub open spec fn rollback_post(
    old: ServerView,
    new: ServerView,
    input: RollbackDeployInput,
    now: Timestamp,
    token: Seq<char>,
    r: Result<RollbackReport, ToolError>,
) -> bool {
    match env_index(old.envs, input.environment_id@) {
        None => new == old && not_found(r, input.environment_id@),
        Some(i) => if input.reason@.len() == 0 {
            &&& new == old
            &&& r matches Err(ToolError::ReasonRequired)
        } else {
            match rollback_target(old.deploys, input.environment_id@) {
                None => {
                    &&& new == old
                    &&& r matches Err(ToolError::NoPreviousDeployment)
                },
                Some(t) => {
                    &&& new == ServerView {
                        envs: old.envs.update(i, with_release(old.envs[i], t, now)),
                        ..old
                    }
                    &&& r matches Ok(rep)
                    &&& rep.rollback_id@ == "rb_"@ + token
                    &&& rep.environment_id@ == input.environment_id@
                    &&& opt_view(rep.from_release) == old.envs[i].active_release_id
                    &&& rep.to_release@ == t
                    &&& rep.reason@ == input.reason@
                    &&& opt_view(rep.reason_code) == opt_view(input.reason_code)
                },
            }
        },
    }
}

/// How many deployments a history holds at most (10 unless asked).
pub open spec fn history_limit(limit: Option<usize>) -> nat {
    match limit {
        Some(n) => n as nat,
        None => 10,
    }
}

pub open spec fn validate_post(
    s: ServerView,
    input: ValidateEnvironmentInput,
    now: Timestamp,
    token: Seq<char>,
    r: Result<ValidationResult, ToolError>,
) -> bool {
    match env_index(s.envs, input.environment_id@) {
        None => not_found(r, input.environment_id@),
        Some(i) => {
            &&& r matches Ok(v)
            &&& v.validation_id@ == "val_"@ + token
            &&& v.environment_id@ == input.environment_id@
            &&& v.scope@ == match input.scope {
                Some(x) => x@,
                None => "full"@,
            }
            &&& checks_view(v.checks@) == validation_checks(
                s.envs[i],
                rollback_target(s.deploys, input.environment_id@) is Some,
            )
            &&& v.passing == count_status(checks_view(v.checks@), "passing"@)
            &&& v.failing == count_status(checks_view(v.checks@), "failing"@)
            &&& v.review == count_status(checks_view(v.checks@), "review"@)
            &&& v.promotion_allowed == (v.failing == 0)
            &&& v.validated_at == now
        },
    }
}

pub open spec fn drift_post(
    s: ServerView,
    input: DetectConfigDriftInput,
    now: Timestamp,
    token: Seq<char>,
    r: Result<DriftReport, ToolError>,
) -> bool {
    match env_index(s.envs, input.environment_id@) {
        None => not_found(r, input.environment_id@),
        Some(i) => {
            &&& r matches Ok(rep)
            &&& rep.drift_id@ == "drift_"@ + token
            &&& rep.environment_id@ == input.environment_id@
            &&& drift_items_view(rep.drifted_items@) == expected_drift(s.envs[i])
            &&& rep.total_drifted == rep.drifted_items.len()
            &&& rep.detected_at == now
        },
    }
}

/// A random identifier as `random_token` hands it out.
pub open spec fn is_token(t: Seq<char>) -> bool {
    t.len() == 32 && forall|i: int| 0 <= i < 32 ==> is_lower_hex(#[trigger] t[i])
}

fn summarize(e: &Environment) -> (r: EnvironmentSummary)
    ensures
        r@ == summary_of(e@),
{
    EnvironmentSummary {
        environment_id: e.environment_id.clone(),
        name: e.name.clone(),
        env_type: e.env_type,
        region: e.region.clone(),
        status: e.status,
        runtime_version: e.runtime_version.clone(),
        active_release_id: clone_opt_string(&e.active_release_id),
        workers: workers_text(&e.worker_pools),
    }
}

/// The identifier `prefix` followed by a random token.
fn tagged_id(prefix: &str, token: &String) -> (s: String)
    ensures
        s@ == prefix@ + token@,
{
    String::from_str(prefix).concat(token.as_str())
}

impl Registry {
    /// Summaries of the environments whose status passes the filter, in
    /// registration order.
    fn list_environments(&self, input: ListEnvironmentsInput) -> (r: Vec<EnvironmentSummary>)
        ensures
            summaries_view(r@) == listing(self@.envs, input.status_filter),
    {
        let ghost ev = self@.envs;
        let mut out: Vec<EnvironmentSummary> = Vec::new();
        assert(ev.take(0) =~= Seq::<EnvironmentView>::empty());
        for i in 0..self.envs.len()
            invariant
                ev == self@.envs,
                summaries_view(out@) == listing(ev.take(i as int), input.status_filter),
        {
            assert(ev.take(i + 1).drop_last() =~= ev.take(i as int));
            assert(ev.take(i + 1).last() == self.envs@[i as int]@);
            let keep = match input.status_filter {
                None => true,
                Some(st) => self.envs[i].status == st,
            };
            if keep {
                out.push(summarize(&self.envs[i]));
            }
            assert(summaries_view(out@) =~= listing(ev.take(i + 1), input.status_filter));
        }
        assert(ev.take(self.envs.len() as int) =~= ev);
        out
    }

    /// Plans or applies a configuration change; `now` stamps an applied one.
    fn sync_environment_config_at(&mut self, input: SyncConfigInput, now: Timestamp) -> (r:
        Result<SyncReport, ToolError>)
        requires
            well_formed(old(self)@),
            sync_fits(old(self)@, input),
        ensures
            well_formed(final(self)@),
            sync_post(old(self)@, final(self)@, input, now, r),
    {
        let ghost input0 = input;
        let apply_mode = match &input.mode {
            Some(m) => *m == String::from_str("apply"),
            None => false,
        };
        match self.find_env(&input.environment_id) {
            None => Err(ToolError::EnvironmentNotFound(input.environment_id)),
            Some(i) => {
                let ghost old_s = self@;
                if apply_mode && self.envs[i].env_type == EnvironmentType::Production
                    && input.approval_id.is_none() {
                    return Err(ToolError::ApprovalRequired(input.environment_id));
                }
                if apply_mode {
                    let ghost e2 = with_config(old_s.envs[i as int], opt_view(input0.config), now);
                    match input.config {
                        Some(config) => {
                            self.envs[i].config = config;
                        },
                        None => {},
                    }
                    self.envs[i].config_version = self.envs[i].config_version + 1;
                    self.envs[i].updated_at = now;
                    proof {
                        lemma_replace_env(old_s, i as int, e2);
                        assert(self@.envs =~= old_s.envs.update(i as int, e2));
                        assert(self@ =~= synced(
                            old_s,
                            i as int,
                            opt_view(input0.config),
                            opt_view(input0.mode),
                            now,
                        ));
                    }
                    Ok(
                        SyncReport::Applied {
                            environment_id: input.environment_id,
                            config_version: self.envs[i].config_version,
                        },
                    )
                } else {
                    Ok(
                        SyncReport::Planned {
                            environment_id: input.environment_id,
                            current_config_version: self.envs[i].config_version,
                            changes_pending: input.config.is_some(),
                            requires_approval: self.envs[i].env_type == EnvironmentType::Production,
                        },
                    )
                }
            },
        }
    }


    /// The position of the first pool of type `ty` in environment `i`.
    fn find_pool(&self, i: usize, ty: PoolType) -> (r: Option<usize>)
        requires
            i < self@.envs.len(),
        ensures
            match r {
                Some(k) => k < self@.envs[i as int].worker_pools.len() && pool_index(
                    self@.envs[i as int].worker_pools,
                    ty,
                ) == Some(k as int),
                None => pool_index(self@.envs[i as int].worker_pools, ty) is None,
            },
    {
        let ghost pv = self@.envs[i as int].worker_pools;
        let pools = &self.envs[i].worker_pools;
        assert(pv == pools_view(pools@));
        let mut k: usize = 0;
        while k < pools.len()
            invariant
                i < self@.envs.len(),
                pv == self@.envs[i as int].worker_pools,
                pv == pools_view(pools@),
                k <= pools.len(),
                forall|j: int| 0 <= j < k ==> (#[trigger] pv[j]).pool_type != ty,
            decreases pools.len() - k,
        {
            if pools[k].pool_type == ty {
                proof {
                    assert(is_first_pool(pv, ty, k as int));
                    lemma_pool_index_is(pv, ty, k as int);
                }
                return Some(k);
            }
            k += 1;
        }
        None
    }

    /// Sets the desired capacity of a pool, clamped to the pool's bounds; the
    /// pool then runs that capacity. `now` stamps the change.
    fn scale_worker_pool_at(&mut self, input: ScaleWorkerPoolInput, now: Timestamp) -> (r:
        Result<ScaleReport, ToolError>)
        requires
            well_formed(old(self)@),
        ensures
            well_formed(final(self)@),
            scale_post(old(self)@, final(self)@, input, now, r),
    {
        match self.find_env(&input.environment_id) {
            None => Err(ToolError::EnvironmentNotFound(input.environment_id)),
            Some(i) => match self.find_pool(i, input.pool_type) {
                None => Err(ToolError::PoolTypeNotFound(input.pool_type)),
                Some(k) => {
                    let ghost old_s = self@;
                    let ghost e2 = scaled_env(old_s.envs[i as int], k as int, input.desired_capacity, now);
                    proof {
                        assert(env_well_formed(old_s.envs[i as int]));
                        assert(pool_in_bounds(old_s.envs[i as int].worker_pools[k as int]));
                        assert(old_s.envs[i as int].worker_pools[k as int] == self.envs@[i as int].worker_pools@[k as int]@);
                    }
                    let prev = self.envs[i].worker_pools[k].desired_capacity;
                    let lo = self.envs[i].worker_pools[k].min_capacity;
                    let hi = self.envs[i].worker_pools[k].max_capacity;
                    let v = input.desired_capacity;
                    let c = if v < lo {
                        lo
                    } else if v > hi {
                        hi
                    } else {
                        v
                    };
                    self.envs[i].worker_pools[k].desired_capacity = c;
                    self.envs[i].worker_pools[k].current_capacity = c;
                    self.envs[i].updated_at = now;
                    proof {
                        assert(pools_view(self.envs@[i as int].worker_pools@) =~= e2.worker_pools);
                        assert forall|j: int| 0 <= j < e2.worker_pools.len() implies pool_in_bounds(
                            #[trigger] e2.worker_pools[j],
                        ) by {
                            if j != k {
                                assert(e2.worker_pools[j] == old_s.envs[i as int].worker_pools[j]);
                            }
                        }
                        lemma_replace_env(old_s, i as int, e2);
                        assert(self@.envs =~= old_s.envs.update(i as int, e2));
                        assert(self@ =~= ServerView { envs: old_s.envs.update(i as int, e2), ..old_s });
                    }
                    let reason = match input.reason {
                        Some(x) => x,
                        None => String::new(),
                    };
                    Ok(
                        ScaleReport {
                            environment_id: input.environment_id,
                            pool_type: input.pool_type,
                            previous_capacity: prev,
                            target_capacity: c,
                            reason,
                        },
                    )
                },
            },
        }
    }


    /// Makes the release the environment's active one and records the
    /// deployment, `deploy_` followed by `token`, stamped `now`.
    fn promote_build_at(&mut self, input: PromoteBuildInput, now: Timestamp, token: String) -> (r:
        Result<Deployment, ToolError>)
        requires
            well_formed(old(self)@),
        ensures
            well_formed(final(self)@),
            promote_post(old(self)@, final(self)@, input, now, token@, r),
    {
        let ghost input0 = input;
        match self.find_env(&input.target_environment_id) {
            None => Err(ToolError::EnvironmentNotFound(input.target_environment_id)),
            Some(i) => {
                if self.envs[i].env_type == EnvironmentType::Production {
                    if input.validation_id.is_none() {
                        return Err(ToolError::ValidationRequired(input.target_environment_id));
                    }
                    if input.approval_id.is_none() {
                        return Err(ToolError::ApprovalRequired(input.target_environment_id));
                    }
                }
                let ghost old_s = self@;
                let ghost e2 = with_release(old_s.envs[i as int], input.release_bundle_id@, now);
                let prev = clone_opt_string(&self.envs[i].active_release_id);
                self.envs[i].active_release_id = Some(input.release_bundle_id.clone());
                self.envs[i].updated_at = now;
                proof {
                    assert(env_well_formed(old_s.envs[i as int]));
                    lemma_replace_env(old_s, i as int, e2);
                    assert(self@.envs =~= old_s.envs.update(i as int, e2));
                }
                let strategy = match input.strategy {
                    Some(st) => st,
                    None => String::from_str("immediate"),
                };
                let deploy = Deployment {
                    deployment_id: tagged_id("deploy_", &token),
                    environment_id: input.target_environment_id,
                    release_bundle_id: input.release_bundle_id,
                    previous_release_id: prev,
                    strategy,
                    status: DeployStatus::Succeeded,
                    promoted_by: input.promoted_by,
                    validation_id: input.validation_id,
                    approval_id: input.approval_id,
                    created_at: now,
                    completed_at: Some(now),
                };
                let out = deploy.duplicate();
                let ghost s1 = self@;
                self.deploys.push(deploy);
                proof {
                    let target = promoted(
                        old_s,
                        i as int,
                        token@,
                        input0.release_bundle_id@,
                        opt_view(input0.strategy),
                        input0.promoted_by@,
                        opt_view(input0.validation_id),
                        opt_view(input0.approval_id),
                        now,
                    );
                    assert(self@.deploys =~= s1.deploys.push(out@));
                    assert(self@ =~= target);
                    assert forall|d: int| 0 <= d < self@.deploys.len() implies has_env_id(
                        self@.envs,
                        #[trigger] self@.deploys[d].environment_id,
                    ) by {
                        if d == self@.deploys.len() - 1 {
                            assert(self@.envs[i as int].environment_id == self@.deploys[d].environment_id);
                        } else {
                            assert(self@.deploys[d] == s1.deploys[d]);
                        }
                    }
                }
                Ok(out)
            },
        }
    }


    /// The release that the most recent successful deployment of the
    /// environment `id` replaced.
    fn find_rollback_target(&self, id: &String) -> (r: Option<String>)
        ensures
            opt_view(r) == rollback_target(self@.deploys, id@),
    {
        let ghost dv = self@.deploys;
        let mut last: Option<usize> = None;
        assert(dv.take(0) =~= Seq::<crate::types::DeploymentView>::empty());
        for j in 0..self.deploys.len()
            invariant
                dv == self@.deploys,
                dv.len() == self.deploys.len(),
                last matches Some(a) ==> a < j && last_success(dv.take(j as int), id@) == Some(dv[a as int]),
                last is None ==> last_success(dv.take(j as int), id@) is None,
        {
            assert(dv.take(j + 1).drop_last() =~= dv.take(j as int));
            assert(dv.take(j + 1).last() == dv[j as int]);
            assert(dv[j as int] == self.deploys@[j as int]@);
            if self.deploys[j].environment_id == *id && self.deploys[j].status == DeployStatus::Succeeded {
                last = Some(j);
            }
        }
        assert(dv.take(self.deploys.len() as int) =~= dv);
        match last {
            Some(a) => clone_opt_string(&self.deploys[a].previous_release_id),
            None => None,
        }
    }

    /// Returns the environment to the release of its previous successful
    /// deployment; `now` stamps the change and `token` makes the rollback
    /// identifier `rb_` followed by `token`.
    fn rollback_deploy_at(&mut self, input: RollbackDeployInput, now: Timestamp, token: String) -> (r:
        Result<RollbackReport, ToolError>)
        requires
            well_formed(old(self)@),
        ensures
            well_formed(final(self)@),
            rollback_post(old(self)@, final(self)@, input, now, token@, r),
    {
        match self.find_env(&input.environment_id) {
            None => Err(ToolError::EnvironmentNotFound(input.environment_id)),
            Some(i) => {
                let empty = String::new();
                if input.reason == empty {
                    return Err(ToolError::ReasonRequired);
                }
                proof {
                    if input.reason@.len() == 0 {
                        assert(input.reason@ =~= empty@);
                    }
                }
                match self.find_rollback_target(&input.environment_id) {
                    None => Err(ToolError::NoPreviousDeployment),
                    Some(target) => {
                        let ghost old_s = self@;
                        let ghost e2 = with_release(old_s.envs[i as int], target@, now);
                        let from = clone_opt_string(&self.envs[i].active_release_id);
                        let to = target.clone();
                        self.envs[i].active_release_id = Some(target);
                        self.envs[i].updated_at = now;
                        proof {
                            assert(env_well_formed(old_s.envs[i as int]));
                            lemma_replace_env(old_s, i as int, e2);
                            assert(self@.envs =~= old_s.envs.update(i as int, e2));
                            assert(self@ =~= ServerView { envs: old_s.envs.update(i as int, e2), ..old_s });
                        }
                        Ok(
                            RollbackReport {
                                rollback_id: tagged_id("rb_", &token),
                                environment_id: input.environment_id,
                                from_release: from,
                                to_release: to,
                                reason: input.reason,
                                reason_code: input.reason_code,
                            },
                        )
                    },
                }
            },
        }
    }

}

fn pools_healthy(pools: &Vec<WorkerPool>) -> (b: bool)
    ensures
        b == workers_healthy(pools_view(pools@)),
{
    let ghost pv = pools_view(pools@);
    for k in 0..pools.len()
        invariant
            pv == pools_view(pools@),
            forall|j: int| 0 <= j < k ==> (#[trigger] pv[j]).current_capacity >= pv[j].min_capacity,
    {
        if pools[k].current_capacity < pools[k].min_capacity {
            assert(pv[k as int] == pools@[k as int]@);
            return false;
        }
    }
    true
}

fn make_check(name: &str, status: &str, message: String) -> (c: Check)
    ensures
        c@ == check_of(name@, status@, message@),
{
    Check { name: String::from_str(name), status: String::from_str(status), message }
}

/// How many of the checks have the given status.
fn count_checks(checks: &Vec<Check>, status: &str) -> (n: u32)
    requires
        checks.len() <= u32::MAX,
    ensures
        n == count_status(checks_view(checks@), status@),
{
    let ghost cv = checks_view(checks@);
    let wanted = String::from_str(status);
    let mut n: u32 = 0;
    assert(cv.take(0) =~= Seq::<crate::types::CheckView>::empty());
    for i in 0..checks.len()
        invariant
            checks.len() <= u32::MAX,
            cv == checks_view(checks@),
            wanted@ == status@,
            n == count_status(cv.take(i as int), status@),
            n <= i,
    {
        assert(cv.take(i + 1).drop_last() =~= cv.take(i as int));
        assert(cv.take(i + 1).last() == checks@[i as int]@);
        if checks[i].status == wanted {
            n = n + 1;
        }
    }
    assert(cv.take(checks.len() as int) =~= cv);
    n
}

impl Registry {
    /// The deployments of an environment, newest first, at most `limit` of
    /// them (10 unless asked).
    fn get_deploy_history(&self, input: GetDeployHistoryInput) -> (r: Vec<Deployment>)
        ensures
            deploys_view(r@) == at_most(
                newest_first(self@.deploys, input.environment_id@),
                history_limit(input.limit),
            ),
    {
        let limit: usize = match input.limit {
            Some(n) => n,
            None => 10,
        };
        let ghost dv = self@.deploys;
        let ghost id = input.environment_id@;
        let mut out: Vec<Deployment> = Vec::new();
        let mut j: usize = self.deploys.len();
        assert(dv.skip(j as int) =~= Seq::<crate::types::DeploymentView>::empty());
        while j > 0
            invariant
                j <= self.deploys.len(),
                dv == self@.deploys,
                dv.len() == self.deploys.len(),
                id == input.environment_id@,
                limit as nat == history_limit(input.limit),
                deploys_view(out@) == at_most(newest_first(dv.skip(j as int), id), limit as nat),
            decreases j,
        {
            j -= 1;
            let ghost prev = newest_first(dv.skip(j + 1), id);
            assert(dv.skip(j as int).drop_first() =~= dv.skip(j + 1));
            assert(dv.skip(j as int)[0] == dv[j as int]);
            assert(dv[j as int] == self.deploys@[j as int]@);
            let ghost cur = dv.skip(j as int);
            assert(newest_first(cur, id) == if cur[0].environment_id == id {
                prev.push(cur[0])
            } else {
                prev
            });
            let ghost old_out = deploys_view(out@);
            assert(old_out.len() == out.len());
            if self.deploys[j].environment_id == input.environment_id {
                if out.len() < limit {
                    let d = self.deploys[j].duplicate();
                    out.push(d);
                    proof {
                        assert(prev.len() < limit);
                        assert(old_out =~= prev);
                        assert(deploys_view(out@) =~= prev.push(cur[0]));
                    }
                } else {
                    proof {
                        assert(prev.len() >= limit);
                        assert(prev.push(cur[0]).take(limit as int) =~= at_most(prev, limit as nat));
                    }
                }
            }
            assert(deploys_view(out@) =~= at_most(newest_first(dv.skip(j as int), id), limit as nat));
        }
        assert(dv.skip(0) =~= dv);
        out
    }

    /// Runs the checks on an environment; `now` stamps the result and
    /// `token` makes its identifier `val_` followed by `token`.
    fn validate_environment_at(
        &self,
        input: ValidateEnvironmentInput,
        now: Timestamp,
        token: String,
    ) -> (r: Result<ValidationResult, ToolError>)
        ensures
            validate_post(self@, input, now, token@, r),
    {
        match self.find_env(&input.environment_id) {
            None => Err(ToolError::EnvironmentNotFound(input.environment_id)),
            Some(i) => {
                let e = &self.envs[i];
                let healthy = pools_healthy(&e.worker_pools);
                let mut checks: Vec<Check> = Vec::new();
                checks.push(
                    make_check(
                        "provider_connectivity",
                        "passing",
                        String::from_str("Model routes reachable"),
                    ),
                );
                checks.push(
                    make_check("memory_backend", "passing", String::from_str("Redis/Postgres connected")),
                );
                let pools_msg = decimal_text(e.worker_pools.len() as u64).concat(" pools");
                checks.push(
                    make_check("worker_health", if healthy { "passing" } else { "failing" }, pools_msg),
                );
                checks.push(
                    make_check("protocol_bindings", "passing", String::from_str("A2A/MCP/ACP enabled")),
                );
                let refs_msg = decimal_text(e.credential_refs.len() as u64).concat(" refs valid");
                checks.push(make_check("credential_bindings", "passing", refs_msg));
                checks.push(make_check("config_schema", "passing", String::from_str("Configuration valid")));
                let ready = self.find_rollback_target(&input.environment_id).is_some();
                if ready {
                    checks.push(
                        make_check(
                            "rollback_readiness",
                            "passing",
                            String::from_str("Previous release available"),
                        ),
                    );
                } else {
                    checks.push(
                        make_check(
                            "rollback_readiness",
                            "review",
                            String::from_str("No previous release to roll back to"),
                        ),
                    );
                }
                proof {
                    assert(self@.envs[i as int] == e@);
                    assert(checks_view(checks@) =~= validation_checks(
                        self@.envs[i as int],
                        rollback_target(self@.deploys, input.environment_id@) is Some,
                    ));
                }
                let passing = count_checks(&checks, "passing");
                let failing = count_checks(&checks, "failing");
                let review = count_checks(&checks, "review");
                let scope = match input.scope {
                    Some(x) => x,
                    None => String::from_str("full"),
                };
                Ok(
                    ValidationResult {
                        validation_id: tagged_id("val_", &token),
                        environment_id: input.environment_id,
                        scope,
                        checks,
                        passing,
                        failing,
                        review,
                        promotion_allowed: failing == 0,
                        validated_at: now,
                    },
                )
            },
        }
    }


    /// Reports the configuration values of an environment that moved from
    /// their expected state; `now` stamps the report and `token` makes its
    /// identifier `drift_` followed by `token`.
    fn detect_config_drift_at(&self, input: DetectConfigDriftInput, now: Timestamp, token: String) -> (r:
        Result<DriftReport, ToolError>)
        ensures
            drift_post(self@, input, now, token@, r),
    {
        match self.find_env(&input.environment_id) {
            None => Err(ToolError::EnvironmentNotFound(input.environment_id)),
            Some(i) => {
                let version = self.envs[i].config_version;
                let mut items: Vec<DriftItem> = Vec::new();
                if version > 1 {
                    items.push(
                        DriftItem {
                            target: String::from_str("config_version"),
                            expected: String::from_str("1"),
                            actual: decimal_text(version as u64),
                            severity: String::from_str("low"),
                        },
                    );
                }
                proof {
                    assert(drift_items_view(items@) =~= expected_drift(self@.envs[i as int]));
                }
                let total = items.len() as u32;
                Ok(
                    DriftReport {
                        drift_id: tagged_id("drift_", &token),
                        environment_id: input.environment_id,
                        total_drifted: total,
                        drifted_items: items,
                        detected_at: now,
                    },
                )
            },
        }
    }


    /// The worker pools of an environment.
    fn get_worker_pool_status(&self, input: GetWorkerPoolStatusInput) -> (r: Result<
        &Vec<WorkerPool>,
        ToolError,
    >)
        ensures
            match env_index(self@.envs, input.environment_id@) {
                Some(i) => r matches Ok(p) && pools_view(p@) == self@.envs[i].worker_pools,
                None => not_found(r, input.environment_id@),
            },
    {
        match self.find_env(&input.environment_id) {
            Some(i) => Ok(&self.envs[i].worker_pools),
            None => Err(ToolError::EnvironmentNotFound(input.environment_id)),
        }
    }
}

// ---------------------------------------------------------------------------
// The public operations. Each one that changes the registry takes the
// registry out of the server (leaving an empty one, which is well formed),
// works on it and puts it back.

impl EnvironmentServer {
    /// The registry as it starts, with every environment stamped `now`.
    pub fn new_at(now: Timestamp) -> (s: Self)
        ensures
            s@ == seed(now),
            well_formed(s@),
    {
        EnvironmentServer { reg: Registry::new_at(now) }
    }

    /// The registry as it starts, stamped with the current time.
    pub fn new() -> (s: Self)
        ensures
            exists|now: Timestamp| s@ == seed(now),
            well_formed(s@),
    {
        let now = current_time();
        Self::new_at(now)
    }

    /// The environment named in the input.
    pub fn get_environment(&self, input: GetEnvironmentInput) -> (r: Result<&Environment, ToolError>)
        ensures
            match env_index(self@.envs, input.environment_id@) {
                Some(i) => r matches Ok(e) && e@ == self@.envs[i],
                None => not_found(r, input.environment_id@),
            },
    {
        self.reg.get_environment(input)
    }

    /// Summaries of the environments whose status passes the filter, in
    /// registration order.
    pub fn list_environments(&self, input: ListEnvironmentsInput) -> (r: Vec<EnvironmentSummary>)
        ensures
            summaries_view(r@) == listing(self@.envs, input.status_filter),
    {
        self.reg.list_environments(input)
    }

    /// Plans or applies a configuration change; `now` stamps an apply. An
    /// apply to a production environment needs an approval identifier.
    pub fn sync_environment_config_at(&mut self, input: SyncConfigInput, now: Timestamp) -> (r:
        Result<SyncReport, ToolError>)
        requires
            sync_fits(old(self)@, input),
        ensures
            well_formed(final(self)@),
            sync_post(old(self)@, final(self)@, input, now, r),
    {
        proof {
            use_type_invariant(&*self);
        }
        let mut reg = Registry { envs: Vec::new(), deploys: Vec::new() };
        std::mem::swap(&mut reg, &mut self.reg);
        let r = reg.sync_environment_config_at(input, now);
        self.reg = reg;
        r
    }

    /// Plans or applies a configuration change, stamped with the current time.
    pub fn sync_environment_config(&mut self, input: SyncConfigInput) -> (r: Result<
        SyncReport,
        ToolError,
    >)
        requires
            sync_fits(old(self)@, input),
        ensures
            well_formed(final(self)@),
            exists|now: Timestamp| sync_post(old(self)@, final(self)@, input, now, r),
    {
        let now = current_time();
        self.sync_environment_config_at(input, now)
    }

    /// Sets the desired capacity of a pool, clamped to the pool's bounds; the
    /// pool then runs that capacity. `now` stamps the change.
    pub fn scale_worker_pool_at(&mut self, input: ScaleWorkerPoolInput, now: Timestamp) -> (r:
        Result<ScaleReport, ToolError>)
        ensures
            well_formed(final(self)@),
            scale_post(old(self)@, final(self)@, input, now, r),
    {
        proof {
            use_type_invariant(&*self);
        }
        let mut reg = Registry { envs: Vec::new(), deploys: Vec::new() };
        std::mem::swap(&mut reg, &mut self.reg);
        let r = reg.scale_worker_pool_at(input, now);
        self.reg = reg;
        r
    }

    /// Sets the desired capacity of a pool, stamped with the current time.
    pub fn scale_worker_pool(&mut self, input: ScaleWorkerPoolInput) -> (r: Result<ScaleReport, ToolError>)
        ensures
            well_formed(final(self)@),
            exists|now: Timestamp| scale_post(old(self)@, final(self)@, input, now, r),
    {
        let now = current_time();
        self.scale_worker_pool_at(input, now)
    }

    /// Makes the release the environment's active one and records the
    /// deployment, `deploy_` followed by `token`, stamped `now`. A production
    /// environment takes it only with a validation and an approval.
    pub fn promote_build_at(&mut self, input: PromoteBuildInput, now: Timestamp, token: String) -> (r:
        Result<Deployment, ToolError>)
        ensures
            well_formed(final(self)@),
            promote_post(old(self)@, final(self)@, input, now, token@, r),
    {
        proof {
            use_type_invariant(&*self);
        }
        let mut reg = Registry { envs: Vec::new(), deploys: Vec::new() };
        std::mem::swap(&mut reg, &mut self.reg);
        let r = reg.promote_build_at(input, now, token);
        self.reg = reg;
        r
    }

    /// Promotes a release, stamped with the current time and a random
    /// deployment identifier.
    pub fn promote_build(&mut self, input: PromoteBuildInput) -> (r: Result<Deployment, ToolError>)
        ensures
            well_formed(final(self)@),
            exists|now: Timestamp, token: Seq<char>|
                is_token(token) && promote_post(old(self)@, final(self)@, input, now, token, r),
    {
        let now = current_time();
        let token = random_token();
        let ghost t = token@;
        let r = self.promote_build_at(input, now, token);
        assert(is_token(t));
        r
    }

    /// Returns the environment to the release that its last successful
    /// deployment replaced; `now` stamps the change and `token` makes the
    /// rollback identifier `rb_` followed by `token`.
    pub fn rollback_deploy_at(&mut self, input: RollbackDeployInput, now: Timestamp, token: String) -> (r:
        Result<RollbackReport, ToolError>)
        ensures
            well_formed(final(self)@),
            rollback_post(old(self)@, final(self)@, input, now, token@, r),
    {
        proof {
            use_type_invariant(&*self);
        }
        let mut reg = Registry { envs: Vec::new(), deploys: Vec::new() };
        std::mem::swap(&mut reg, &mut self.reg);
        let r = reg.rollback_deploy_at(input, now, token);
        self.reg = reg;
        r
    }

    /// Rolls an environment back, stamped with the current time and a random
    /// rollback identifier.
    pub fn rollback_deploy(&mut self, input: RollbackDeployInput) -> (r: Result<RollbackReport, ToolError>)
        ensures
            well_formed(final(self)@),
            exists|now: Timestamp, token: Seq<char>|
                is_token(token) && rollback_post(old(self)@, final(self)@, input, now, token, r),
    {
        let now = current_time();
        let token = random_token();
        let ghost t = token@;
        let r = self.rollback_deploy_at(input, now, token);
        assert(is_token(t));
        r
    }

    /// The deployments of an environment, newest first, at most `limit` of
    /// them (10 unless asked).
    pub fn get_deploy_history(&self, input: GetDeployHistoryInput) -> (r: Vec<Deployment>)
        ensures
            deploys_view(r@) == at_most(
                newest_first(self@.deploys, input.environment_id@),
                history_limit(input.limit),
            ),
    {
        self.reg.get_deploy_history(input)
    }

    /// Runs the checks on an environment; `now` stamps the result and
    /// `token` makes its identifier `val_` followed by `token`.
    pub fn validate_environment_at(
        &self,
        input: ValidateEnvironmentInput,
        now: Timestamp,
        token: String,
    ) -> (r: Result<ValidationResult, ToolError>)
        ensures
            validate_post(self@, input, now, token@, r),
    {
        self.reg.validate_environment_at(input, now, token)
    }

    /// Validates an environment, stamped with the current time and a random
    /// validation identifier.
    pub fn validate_environment(&self, input: ValidateEnvironmentInput) -> (r: Result<
        ValidationResult,
        ToolError,
    >)
        ensures
            exists|now: Timestamp, token: Seq<char>|
                is_token(token) && validate_post(self@, input, now, token, r),
    {
        let now = current_time();
        let token = random_token();
        let ghost t = token@;
        let r = self.validate_environment_at(input, now, token);
        assert(is_token(t));
        r
    }

    /// Reports the configuration values of an environment that moved from
    /// their expected state; `now` stamps the report and `token` makes its
    /// identifier `drift_` followed by `token`.
    pub fn detect_config_drift_at(&self, input: DetectConfigDriftInput, now: Timestamp, token: String) -> (r:
        Result<DriftReport, ToolError>)
        ensures
            drift_post(self@, input, now, token@, r),
    {
        self.reg.detect_config_drift_at(input, now, token)
    }

    /// Checks an environment for drift, stamped with the current time and a
    /// random report identifier.
    pub fn detect_config_drift(&self, input: DetectConfigDriftInput) -> (r: Result<DriftReport, ToolError>)
        ensures
            exists|now: Timestamp, token: Seq<char>|
                is_token(token) && drift_post(self@, input, now, token, r),
    {
        let now = current_time();
        let token = random_token();
        let ghost t = token@;
        let r = self.detect_config_drift_at(input, now, token);
        assert(is_token(t));
        r
    }

    /// The worker pools of an environment.
    pub fn get_worker_pool_status(&self, input: GetWorkerPoolStatusInput) -> (r: Result<
        &Vec<WorkerPool>,
        ToolError,
    >)
        ensures
            match env_index(self@.envs, input.environment_id@) {
                Some(i) => r matches Ok(p) && pools_view(p@) == self@.envs[i].worker_pools,
                None => not_found(r, input.environment_id@),
            },
    {
        self.reg.get_worker_pool_status(input)
    }
}

} // verus!
