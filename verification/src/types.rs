//! Data types of the registry and their mathematical views.
use vstd::prelude::*;

verus! {

/// Health of an environment.
#[derive(Clone, Copy, Debug, PartialEq, Eq, Structural)]
pub enum EnvironmentStatus {
    Healthy,
    Degraded,
    Review,
    Disabled,
    Maintenance,
}

/// Kind of an environment.
#[derive(Clone, Copy, Debug, PartialEq, Eq, Structural)]
pub enum EnvironmentType {
    Development,
    Staging,
    Production,
    Regional,
}

/// Kind of workers that a pool runs.
#[derive(Clone, Copy, Debug, PartialEq, Eq, Structural)]
pub enum PoolType {
    Model,
    Graph,
    Browser,
    Code,
    Realtime,
    Payment,
    Mcp,
    A2a,
    Acp,
}

/// Lifecycle state of a deployment.
#[derive(Clone, Copy, Debug, PartialEq, Eq, Structural)]
pub enum DeployStatus {
    Pending,
    InProgress,
    Succeeded,
    Failed,
    RolledBack,
}

/// A point in time: whole seconds since the Unix epoch and the nanoseconds
/// past that second.
#[derive(Clone, Copy, Debug, PartialEq, Eq, Structural)]
pub struct Timestamp {
    pub secs: i64,
    pub nanos: u32,
}

pub open spec fn opt_view(o: Option<String>) -> Option<Seq<char>> {
    match o {
        Some(s) => Some(s@),
        None => None,
    }
}

pub open spec fn strings_view(v: Seq<String>) -> Seq<Seq<char>> {
    v.map_values(|s: String| s@)
}

/// Copies an optional string.
pub fn clone_opt_string(o: &Option<String>) -> (r: Option<String>)
    ensures
        opt_view(r) == opt_view(*o),
{
    match o {
        Some(s) => Some(s.clone()),
        None => None,
    }
}

/// A pool of workers of one type, with its capacity bounds.
#[derive(Debug)]
pub struct WorkerPool {
    pub pool_id: String,
    pub pool_type: PoolType,
    pub min_capacity: u32,
    pub desired_capacity: u32,
    pub max_capacity: u32,
    pub current_capacity: u32,
    pub status: String,
}

#[verifier::ext_equal]
pub struct WorkerPoolView {
    pub pool_id: Seq<char>,
    pub pool_type: PoolType,
    pub min_capacity: u32,
    pub desired_capacity: u32,
    pub max_capacity: u32,
    pub current_capacity: u32,
    pub status: Seq<char>,
}

impl View for WorkerPool {
    type V = WorkerPoolView;

    open spec fn view(&self) -> WorkerPoolView {
        WorkerPoolView {
            pool_id: self.pool_id@,
            pool_type: self.pool_type,
            min_capacity: self.min_capacity,
            desired_capacity: self.desired_capacity,
            max_capacity: self.max_capacity,
            current_capacity: self.current_capacity,
            status: self.status@,
        }
    }
}

pub open spec fn pools_view(v: Seq<WorkerPool>) -> Seq<WorkerPoolView> {
    v.map_values(|p: WorkerPool| p@)
}

/// A runtime environment and its worker pools.
///
/// `config` and `protocol_bindings` hold JSON documents as text; the
/// registry stores and replaces them but never looks inside.
#[derive(Debug)]
pub struct Environment {
    pub environment_id: String,
    pub name: String,
    pub env_type: EnvironmentType,
    pub region: String,
    pub status: EnvironmentStatus,
    pub runtime_version: String,
    pub active_release_id: Option<String>,
    pub config_version: u32,
    pub config: String,
    pub worker_pools: Vec<WorkerPool>,
    pub credential_refs: Vec<String>,
    pub protocol_bindings: String,
    pub updated_at: Timestamp,
}

#[verifier::ext_equal]
pub struct EnvironmentView {
    pub environment_id: Seq<char>,
    pub name: Seq<char>,
    pub env_type: EnvironmentType,
    pub region: Seq<char>,
    pub status: EnvironmentStatus,
    pub runtime_version: Seq<char>,
    pub active_release_id: Option<Seq<char>>,
    pub config_version: u32,
    pub config: Seq<char>,
    pub worker_pools: Seq<WorkerPoolView>,
    pub credential_refs: Seq<Seq<char>>,
    pub protocol_bindings: Seq<char>,
    pub updated_at: Timestamp,
}

impl View for Environment {
    type V = EnvironmentView;

    open spec fn view(&self) -> EnvironmentView {
        EnvironmentView {
            environment_id: self.environment_id@,
            name: self.name@,
            env_type: self.env_type,
            region: self.region@,
            status: self.status,
            runtime_version: self.runtime_version@,
            active_release_id: opt_view(self.active_release_id),
            config_version: self.config_version,
            config: self.config@,
            worker_pools: pools_view(self.worker_pools@),
            credential_refs: strings_view(self.credential_refs@),
            protocol_bindings: self.protocol_bindings@,
            updated_at: self.updated_at,
        }
    }
}

pub open spec fn envs_view(v: Seq<Environment>) -> Seq<EnvironmentView> {
    v.map_values(|e: Environment| e@)
}

/// The record of one promotion of a release bundle to an environment.
#[derive(Debug)]
pub struct Deployment {
    pub deployment_id: String,
    pub environment_id: String,
    pub release_bundle_id: String,
    pub previous_release_id: Option<String>,
    pub strategy: String,
    pub status: DeployStatus,
    pub promoted_by: String,
    pub validation_id: Option<String>,
    pub approval_id: Option<String>,
    pub created_at: Timestamp,
    pub completed_at: Option<Timestamp>,
}

#[verifier::ext_equal]
pub struct DeploymentView {
    pub deployment_id: Seq<char>,
    pub environment_id: Seq<char>,
    pub release_bundle_id: Seq<char>,
    pub previous_release_id: Option<Seq<char>>,
    pub strategy: Seq<char>,
    pub status: DeployStatus,
    pub promoted_by: Seq<char>,
    pub validation_id: Option<Seq<char>>,
    pub approval_id: Option<Seq<char>>,
    pub created_at: Timestamp,
    pub completed_at: Option<Timestamp>,
}

impl View for Deployment {
    type V = DeploymentView;

    open spec fn view(&self) -> DeploymentView {
        DeploymentView {
            deployment_id: self.deployment_id@,
            environment_id: self.environment_id@,
            release_bundle_id: self.release_bundle_id@,
            previous_release_id: opt_view(self.previous_release_id),
            strategy: self.strategy@,
            status: self.status,
            promoted_by: self.promoted_by@,
            validation_id: opt_view(self.validation_id),
            approval_id: opt_view(self.approval_id),
            created_at: self.created_at,
            completed_at: self.completed_at,
        }
    }
}

pub open spec fn deploys_view(v: Seq<Deployment>) -> Seq<DeploymentView> {
    v.map_values(|d: Deployment| d@)
}

impl Deployment {
    /// A field-by-field copy of this record.
    pub fn duplicate(&self) -> (r: Deployment)
        ensures
            r@ == self@,
    {
        Deployment {
            deployment_id: self.deployment_id.clone(),
            environment_id: self.environment_id.clone(),
            release_bundle_id: self.release_bundle_id.clone(),
            previous_release_id: clone_opt_string(&self.previous_release_id),
            strategy: self.strategy.clone(),
            status: self.status,
            promoted_by: self.promoted_by.clone(),
            validation_id: clone_opt_string(&self.validation_id),
            approval_id: clone_opt_string(&self.approval_id),
            created_at: self.created_at,
            completed_at: self.completed_at,
        }
    }
}

/// One named validation check and its outcome (`passing`, `failing` or
/// `review`).
#[derive(Debug)]
pub struct Check {
    pub name: String,
    pub status: String,
    pub message: String,
}

#[verifier::ext_equal]
pub struct CheckView {
    pub name: Seq<char>,
    pub status: Seq<char>,
    pub message: Seq<char>,
}

impl View for Check {
    type V = CheckView;

    open spec fn view(&self) -> CheckView {
        CheckView { name: self.name@, status: self.status@, message: self.message@ }
    }
}

pub open spec fn checks_view(v: Seq<Check>) -> Seq<CheckView> {
    v.map_values(|c: Check| c@)
}

/// The outcome of validating an environment.
#[derive(Debug)]
pub struct ValidationResult {
    pub validation_id: String,
    pub environment_id: String,
    pub scope: String,
    pub checks: Vec<Check>,
    pub passing: u32,
    pub failing: u32,
    pub review: u32,
    pub promotion_allowed: bool,
    pub validated_at: Timestamp,
}

/// One configuration value that differs from its expected state.
#[derive(Debug)]
pub struct DriftItem {
    pub target: String,
    pub expected: String,
    pub actual: String,
    pub severity: String,
}

#[verifier::ext_equal]
pub struct DriftItemView {
    pub target: Seq<char>,
    pub expected: Seq<char>,
    pub actual: Seq<char>,
    pub severity: Seq<char>,
}

impl View for DriftItem {
    type V = DriftItemView;

    open spec fn view(&self) -> DriftItemView {
        DriftItemView {
            target: self.target@,
            expected: self.expected@,
            actual: self.actual@,
            severity: self.severity@,
        }
    }
}

pub open spec fn drift_items_view(v: Seq<DriftItem>) -> Seq<DriftItemView> {
    v.map_values(|d: DriftItem| d@)
}

/// The outcome of a drift check on an environment.
#[derive(Debug)]
pub struct DriftReport {
    pub drift_id: String,
    pub environment_id: String,
    pub total_drifted: u32,
    pub drifted_items: Vec<DriftItem>,
    pub detected_at: Timestamp,
}

/// One line of the environment listing.
#[derive(Debug)]
pub struct EnvironmentSummary {
    pub environment_id: String,
    pub name: String,
    pub env_type: EnvironmentType,
    pub region: String,
    pub status: EnvironmentStatus,
    pub runtime_version: String,
    pub active_release_id: Option<String>,
    pub workers: String,
}

#[verifier::ext_equal]
pub struct EnvironmentSummaryView {
    pub environment_id: Seq<char>,
    pub name: Seq<char>,
    pub env_type: EnvironmentType,
    pub region: Seq<char>,
    pub status: EnvironmentStatus,
    pub runtime_version: Seq<char>,
    pub active_release_id: Option<Seq<char>>,
    pub workers: Seq<char>,
}

impl View for EnvironmentSummary {
    type V = EnvironmentSummaryView;

    open spec fn view(&self) -> EnvironmentSummaryView {
        EnvironmentSummaryView {
            environment_id: self.environment_id@,
            name: self.name@,
            env_type: self.env_type,
            region: self.region@,
            status: self.status,
            runtime_version: self.runtime_version@,
            active_release_id: opt_view(self.active_release_id),
            workers: self.workers@,
        }
    }
}

pub open spec fn summaries_view(v: Seq<EnvironmentSummary>) -> Seq<EnvironmentSummaryView> {
    v.map_values(|s: EnvironmentSummary| s@)
}

/// What a configuration sync reports.
#[derive(Debug)]
pub enum SyncReport {
    /// Plan mode: nothing was changed.
    Planned {
        environment_id: String,
        current_config_version: u32,
        changes_pending: bool,
        requires_approval: bool,
    },
    /// Apply mode: the configuration (if one was given) was installed.
    Applied { environment_id: String, config_version: u32 },
}

/// What a worker pool scaling reports.
#[derive(Debug)]
pub struct ScaleReport {
    pub environment_id: String,
    pub pool_type: PoolType,
    pub previous_capacity: u32,
    pub target_capacity: u32,
    pub reason: String,
}

/// What a rollback reports.
#[derive(Debug)]
pub struct RollbackReport {
    pub rollback_id: String,
    pub environment_id: String,
    pub from_release: Option<String>,
    pub to_release: String,
    pub reason: String,
    pub reason_code: Option<String>,
}

/// Why a registry operation was refused.
#[derive(Debug)]
pub enum ToolError {
    /// No environment has the given identifier.
    EnvironmentNotFound(String),
    /// The environment has no pool of the given type.
    PoolTypeNotFound(PoolType),
    /// The environment has no successful deployment that replaced a release.
    NoPreviousDeployment,
    /// A production change lacks its governance approval.
    ApprovalRequired(String),
    /// A promotion to production lacks its validation.
    ValidationRequired(String),
    /// A rollback was asked for without an audit reason.
    ReasonRequired,
}

} // verus!
