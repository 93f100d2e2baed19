use mcp_environment::server::{
    DetectConfigDriftInput, EnvironmentServer, GetDeployHistoryInput, GetEnvironmentInput,
    GetWorkerPoolStatusInput, ListEnvironmentsInput, PromoteBuildInput, RollbackDeployInput,
    ScaleWorkerPoolInput, SyncConfigInput, ValidateEnvironmentInput,
};
use mcp_environment::types::{
    DeployStatus, EnvironmentStatus, EnvironmentType, PoolType, SyncReport, Timestamp, ToolError,
};

fn t(secs: i64) -> Timestamp {
    Timestamp { secs, nanos: 0 }
}

fn fresh() -> EnvironmentServer {
    EnvironmentServer::new_at(t(100))
}

fn s(x: &str) -> String {
    x.to_string()
}

fn promote(srv: &mut EnvironmentServer, env: &str, release: &str, secs: i64) {
    let r = srv.promote_build_at(
        PromoteBuildInput {
            release_bundle_id: s(release),
            target_environment_id: s(env),
            promoted_by: s("ops"),
            strategy: None,
            validation_id: Some(s("val_1")),
            approval_id: Some(s("appr_1")),
        },
        t(secs),
        s("0123456789abcdef0123456789abcdef"),
    );
    assert!(r.is_ok());
}

fn active_release(srv: &EnvironmentServer, env: &str) -> Option<String> {
    srv.get_environment(GetEnvironmentInput { environment_id: s(env) })
        .unwrap()
        .active_release_id
        .clone()
}

#[test]
fn seed_has_four_environments() {
    let srv = fresh();
    let all = srv.list_environments(ListEnvironmentsInput { status_filter: None });
    let ids: Vec<&str> = all.iter().map(|e| e.environment_id.as_str()).collect();
    assert_eq!(ids, vec!["env_dev", "env_staging", "env_prod", "env_eu_prod"]);
    assert_eq!(all[2].name, "Production");
    assert_eq!(all[2].env_type, EnvironmentType::Production);
    assert_eq!(all[3].region, "eu-west-1");
    assert_eq!(all[0].runtime_version, "adk-rust-0.12.4");
    assert_eq!(all[0].active_release_id.as_deref(), Some("rel_2026_0518_1842"));
    assert_eq!(all[0].workers, "Model:4/4, Graph:2/2, Browser:5/5, Payment:2/2");
}

#[test]
fn seed_environment_details() {
    let srv = fresh();
    let e = srv.get_environment(GetEnvironmentInput { environment_id: s("env_staging") }).unwrap();
    assert_eq!(e.config_version, 1);
    assert_eq!(e.status, EnvironmentStatus::Healthy);
    assert_eq!(e.worker_pools.len(), 4);
    assert_eq!(e.worker_pools[0].pool_id, "env_staging_model");
    assert_eq!(e.worker_pools[2].pool_id, "env_staging_browser");
    assert_eq!(e.worker_pools[2].max_capacity, 50);
    assert_eq!(e.credential_refs, vec![s("credref_anthropic_prod"), s("credref_payments_signing_key")]);
    assert_eq!(
        e.config,
        "{\"memory_backend\":\"redis\",\"model_route\":\"gemini-3.1-flash\",\"payment_mode\":\"production\"}"
    );
    assert_eq!(e.updated_at, t(100));
}

#[test]
fn new_reads_the_clock() {
    let srv = EnvironmentServer::new();
    let e = srv.get_environment(GetEnvironmentInput { environment_id: s("env_dev") }).unwrap();
    // Any clock of this century is past 2020-01-01.
    assert!(e.updated_at.secs > 1_577_836_800);
}

#[test]
fn list_filters_by_status() {
    let srv = fresh();
    let healthy = srv.list_environments(ListEnvironmentsInput {
        status_filter: Some(EnvironmentStatus::Healthy),
    });
    assert_eq!(healthy.len(), 4);
    let degraded = srv.list_environments(ListEnvironmentsInput {
        status_filter: Some(EnvironmentStatus::Degraded),
    });
    assert!(degraded.is_empty());
}

#[test]
fn unknown_environment_is_reported() {
    let mut srv = fresh();
    let err = srv.get_environment(GetEnvironmentInput { environment_id: s("nope") }).unwrap_err();
    assert_eq!(err.message(), "Environment not found: nope");
    let r = srv.scale_worker_pool_at(
        ScaleWorkerPoolInput {
            environment_id: s("nope"),
            pool_type: PoolType::Model,
            desired_capacity: 3,
            reason: None,
        },
        t(1),
    );
    assert_eq!(r.unwrap_err().message(), "Environment not found: nope");
    let r = srv.get_worker_pool_status(GetWorkerPoolStatusInput { environment_id: s("x") });
    assert!(matches!(r, Err(ToolError::EnvironmentNotFound(_))));
}

#[test]
fn sync_plan_reports_and_changes_nothing() {
    let mut srv = fresh();
    let r = srv
        .sync_environment_config_at(
            SyncConfigInput { environment_id: s("env_prod"), config: Some(s("{}")), mode: None, approval_id: None },
            t(5),
        )
        .unwrap();
    match r {
        SyncReport::Planned { environment_id, current_config_version, changes_pending, requires_approval } => {
            assert_eq!(environment_id, "env_prod");
            assert_eq!(current_config_version, 1);
            assert!(changes_pending);
            assert!(requires_approval);
        }
        _ => panic!("expected a plan"),
    }
    let e = srv.get_environment(GetEnvironmentInput { environment_id: s("env_prod") }).unwrap();
    assert_eq!(e.config_version, 1);
    assert_eq!(e.updated_at, t(100));
}

#[test]
fn sync_plan_for_development_needs_no_approval() {
    let mut srv = fresh();
    let r = srv
        .sync_environment_config_at(
            SyncConfigInput { environment_id: s("env_dev"), config: None, mode: Some(s("dry-run")), approval_id: None },
            t(5),
        )
        .unwrap();
    match r {
        SyncReport::Planned { changes_pending, requires_approval, .. } => {
            assert!(!changes_pending);
            assert!(!requires_approval);
        }
        _ => panic!("any mode but apply plans"),
    }
}

#[test]
fn sync_apply_installs_config_and_bumps_version() {
    let mut srv = fresh();
    let r = srv
        .sync_environment_config_at(
            SyncConfigInput {
                environment_id: s("env_dev"),
                config: Some(s("{\"model_route\":\"x\"}")),
                mode: Some(s("apply")),
                approval_id: None,
            },
            t(7),
        )
        .unwrap();
    match r {
        SyncReport::Applied { environment_id, config_version } => {
            assert_eq!(environment_id, "env_dev");
            assert_eq!(config_version, 2);
        }
        _ => panic!("expected an apply"),
    }
    let e = srv.get_environment(GetEnvironmentInput { environment_id: s("env_dev") }).unwrap();
    assert_eq!(e.config, "{\"model_route\":\"x\"}");
    assert_eq!(e.updated_at, t(7));
}

#[test]
fn sync_apply_without_config_bumps_version() {
    let mut srv = fresh();
    let r = srv
        .sync_environment_config_at(
            SyncConfigInput { environment_id: s("env_dev"), config: None, mode: Some(s("apply")), approval_id: None },
            t(7),
        )
        .unwrap();
    assert!(matches!(r, SyncReport::Applied { config_version: 2, .. }));
    let e = srv.get_environment(GetEnvironmentInput { environment_id: s("env_dev") }).unwrap();
    assert_eq!(e.config_version, 2);
    assert_eq!(
        e.config,
        "{\"memory_backend\":\"redis\",\"model_route\":\"gemini-3.1-flash\",\"payment_mode\":\"production\"}"
    );
    assert_eq!(e.updated_at, t(7));
}

#[test]
fn production_apply_needs_approval() {
    let mut srv = fresh();
    let r = srv.sync_environment_config_at(
        SyncConfigInput {
            environment_id: s("env_prod"),
            config: Some(s("{}")),
            mode: Some(s("apply")),
            approval_id: None,
        },
        t(7),
    );
    let err = r.unwrap_err();
    assert!(matches!(err, ToolError::ApprovalRequired(_)));
    assert_eq!(err.message(), "Governance approval required for production environment: env_prod");
    let e = srv.get_environment(GetEnvironmentInput { environment_id: s("env_prod") }).unwrap();
    assert_eq!(e.config_version, 1);
    let r = srv
        .sync_environment_config_at(
            SyncConfigInput {
                environment_id: s("env_prod"),
                config: Some(s("{}")),
                mode: Some(s("apply")),
                approval_id: Some(s("gov_7")),
            },
            t(8),
        )
        .unwrap();
    assert!(matches!(r, SyncReport::Applied { config_version: 2, .. }));
    let e = srv.get_environment(GetEnvironmentInput { environment_id: s("env_prod") }).unwrap();
    assert_eq!(e.config, "{}");
}

#[test]
fn drift_appears_after_apply() {
    let mut srv = fresh();
    let before = srv
        .detect_config_drift_at(DetectConfigDriftInput { environment_id: s("env_dev") }, t(1), s("aa"))
        .unwrap();
    assert_eq!(before.total_drifted, 0);
    assert!(before.drifted_items.is_empty());
    assert_eq!(before.drift_id, "drift_aa");
    srv.sync_environment_config_at(
        SyncConfigInput { environment_id: s("env_dev"), config: Some(s("{}")), mode: Some(s("apply")), approval_id: None },
        t(2),
    )
    .unwrap();
    let after = srv
        .detect_config_drift_at(DetectConfigDriftInput { environment_id: s("env_dev") }, t(3), s("bb"))
        .unwrap();
    assert_eq!(after.total_drifted, 1);
    let item = &after.drifted_items[0];
    assert_eq!(item.target, "config_version");
    assert_eq!(item.expected, "1");
    assert_eq!(item.actual, "2");
    assert_eq!(item.severity, "low");
    assert_eq!(after.detected_at, t(3));
}

#[test]
fn scale_clamps_to_bounds() {
    let mut srv = fresh();
    let up = srv
        .scale_worker_pool_at(
            ScaleWorkerPoolInput {
                environment_id: s("env_prod"),
                pool_type: PoolType::Model,
                desired_capacity: 500,
                reason: Some(s("traffic")),
            },
            t(9),
        )
        .unwrap();
    assert_eq!(up.previous_capacity, 4);
    assert_eq!(up.target_capacity, 20);
    assert_eq!(up.reason, "traffic");
    let down = srv
        .scale_worker_pool_at(
            ScaleWorkerPoolInput {
                environment_id: s("env_prod"),
                pool_type: PoolType::Model,
                desired_capacity: 0,
                reason: None,
            },
            t(10),
        )
        .unwrap();
    assert_eq!(down.previous_capacity, 20);
    assert_eq!(down.target_capacity, 2);
    assert_eq!(down.reason, "");
    let pools = srv
        .get_worker_pool_status(GetWorkerPoolStatusInput { environment_id: s("env_prod") })
        .unwrap();
    assert_eq!(pools[0].desired_capacity, 2);
    assert_eq!(pools[0].current_capacity, 2);
}

#[test]
fn scale_within_bounds_is_taken_as_is() {
    let mut srv = fresh();
    let r = srv
        .scale_worker_pool_at(
            ScaleWorkerPoolInput {
                environment_id: s("env_dev"),
                pool_type: PoolType::Browser,
                desired_capacity: 17,
                reason: None,
            },
            t(9),
        )
        .unwrap();
    assert_eq!(r.target_capacity, 17);
    assert_eq!(r.pool_type, PoolType::Browser);
    let again = srv
        .scale_worker_pool_at(
            ScaleWorkerPoolInput {
                environment_id: s("env_dev"),
                pool_type: PoolType::Browser,
                desired_capacity: 17,
                reason: None,
            },
            t(10),
        )
        .unwrap();
    assert_eq!(again.previous_capacity, 17);
    assert_eq!(again.target_capacity, 17);
}

#[test]
fn scale_missing_pool_type() {
    let mut srv = fresh();
    let r = srv.scale_worker_pool_at(
        ScaleWorkerPoolInput {
            environment_id: s("env_dev"),
            pool_type: PoolType::Code,
            desired_capacity: 3,
            reason: None,
        },
        t(9),
    );
    assert_eq!(r.unwrap_err().message(), "Pool type Code not found");
}

#[test]
fn promote_records_deployment() {
    let mut srv = fresh();
    let d = srv
        .promote_build_at(
            PromoteBuildInput {
                release_bundle_id: s("rel_b"),
                target_environment_id: s("env_staging"),
                promoted_by: s("alice"),
                strategy: Some(s("canary")),
                validation_id: Some(s("val_9")),
                approval_id: None,
            },
            t(20),
            s("feed"),
        )
        .unwrap();
    assert_eq!(d.deployment_id, "deploy_feed");
    assert_eq!(d.environment_id, "env_staging");
    assert_eq!(d.release_bundle_id, "rel_b");
    assert_eq!(d.previous_release_id.as_deref(), Some("rel_2026_0518_1842"));
    assert_eq!(d.strategy, "canary");
    assert_eq!(d.status, DeployStatus::Succeeded);
    assert_eq!(d.promoted_by, "alice");
    assert_eq!(d.validation_id.as_deref(), Some("val_9"));
    assert!(d.approval_id.is_none());
    assert_eq!(d.created_at, t(20));
    assert_eq!(d.completed_at, Some(t(20)));
    assert_eq!(active_release(&srv, "env_staging").as_deref(), Some("rel_b"));
}

#[test]
fn promote_default_strategy_is_immediate() {
    let mut srv = fresh();
    let d = srv
        .promote_build_at(
            PromoteBuildInput {
                release_bundle_id: s("rel_b"),
                target_environment_id: s("env_dev"),
                promoted_by: s("bob"),
                strategy: None,
                validation_id: None,
                approval_id: None,
            },
            t(20),
            s("x"),
        )
        .unwrap();
    assert_eq!(d.strategy, "immediate");
}

#[test]
fn promote_with_random_identifier() {
    let mut srv = fresh();
    let d = srv
        .promote_build(PromoteBuildInput {
            release_bundle_id: s("rel_b"),
            target_environment_id: s("env_dev"),
            promoted_by: s("bob"),
            strategy: None,
            validation_id: None,
            approval_id: None,
        })
        .unwrap();
    assert!(d.deployment_id.starts_with("deploy_"));
    let token = &d.deployment_id["deploy_".len()..];
    assert_eq!(token.len(), 32);
    assert!(token.chars().all(|c| c.is_ascii_digit() || ('a'..='f').contains(&c)));
    assert!(d.created_at.secs > 1_577_836_800);
}

#[test]
fn promote_to_unknown_environment() {
    let mut srv = fresh();
    let r = srv.promote_build_at(
        PromoteBuildInput {
            release_bundle_id: s("rel_b"),
            target_environment_id: s("env_moon"),
            promoted_by: s("bob"),
            strategy: None,
            validation_id: None,
            approval_id: None,
        },
        t(20),
        s("x"),
    );
    assert_eq!(r.unwrap_err().message(), "Environment not found: env_moon");
    let h = srv.get_deploy_history(GetDeployHistoryInput { environment_id: s("env_moon"), limit: None });
    assert!(h.is_empty());
}

#[test]
fn rollback_needs_a_deployment() {
    let mut srv = fresh();
    let input = || RollbackDeployInput { environment_id: s("env_prod"), reason: s("bad"), reason_code: None };
    let r = srv.rollback_deploy_at(input(), t(1), s("r0"));
    assert_eq!(r.unwrap_err().message(), "No previous deployment to roll back to");
    assert_eq!(active_release(&srv, "env_prod").as_deref(), Some("rel_2026_0518_1842"));
}

#[test]
fn rollback_after_one_promotion_restores_seed_release() {
    let mut srv = fresh();
    promote(&mut srv, "env_dev", "rel_A", 2);
    let rep = srv
        .rollback_deploy_at(
            RollbackDeployInput { environment_id: s("env_dev"), reason: s("bad"), reason_code: None },
            t(3),
            s("r1"),
        )
        .unwrap();
    assert_eq!(rep.from_release.as_deref(), Some("rel_A"));
    assert_eq!(rep.to_release, "rel_2026_0518_1842");
    assert_eq!(active_release(&srv, "env_dev").as_deref(), Some("rel_2026_0518_1842"));
}

#[test]
fn rollback_needs_an_audit_reason() {
    let mut srv = fresh();
    promote(&mut srv, "env_dev", "rel_A", 2);
    let r = srv.rollback_deploy_at(
        RollbackDeployInput { environment_id: s("env_dev"), reason: s(""), reason_code: None },
        t(3),
        s("r1"),
    );
    let err = r.unwrap_err();
    assert!(matches!(err, ToolError::ReasonRequired));
    assert_eq!(err.message(), "An audit reason is required to roll back");
    assert_eq!(active_release(&srv, "env_dev").as_deref(), Some("rel_A"));
}

#[test]
fn production_promotion_needs_validation_and_approval() {
    let mut srv = fresh();
    let input = |v: Option<&str>, a: Option<&str>| PromoteBuildInput {
        release_bundle_id: s("rel_p"),
        target_environment_id: s("env_prod"),
        promoted_by: s("carol"),
        strategy: None,
        validation_id: v.map(s),
        approval_id: a.map(s),
    };
    let r = srv.promote_build_at(input(None, Some("appr")), t(1), s("x"));
    let err = r.unwrap_err();
    assert!(matches!(err, ToolError::ValidationRequired(_)));
    assert_eq!(err.message(), "Validation required before promotion to production environment: env_prod");
    let r = srv.promote_build_at(input(Some("val"), None), t(1), s("x"));
    assert!(matches!(r, Err(ToolError::ApprovalRequired(_))));
    assert_eq!(active_release(&srv, "env_prod").as_deref(), Some("rel_2026_0518_1842"));
    assert!(srv
        .get_deploy_history(GetDeployHistoryInput { environment_id: s("env_prod"), limit: None })
        .is_empty());
    let d = srv.promote_build_at(input(Some("val"), Some("appr")), t(2), s("x")).unwrap();
    assert_eq!(d.validation_id.as_deref(), Some("val"));
    assert_eq!(d.approval_id.as_deref(), Some("appr"));
    assert_eq!(active_release(&srv, "env_prod").as_deref(), Some("rel_p"));
}

#[test]
fn rollback_returns_to_previous_release() {
    let mut srv = fresh();
    promote(&mut srv, "env_prod", "rel_a", 2);
    promote(&mut srv, "env_staging", "rel_s", 3);
    promote(&mut srv, "env_prod", "rel_b", 4);
    let rep = srv
        .rollback_deploy_at(
            RollbackDeployInput {
                environment_id: s("env_prod"),
                reason: s("errors"),
                reason_code: Some(s("failed_health_check")),
            },
            t(5),
            s("cafe"),
        )
        .unwrap();
    assert_eq!(rep.rollback_id, "rb_cafe");
    assert_eq!(rep.environment_id, "env_prod");
    assert_eq!(rep.from_release.as_deref(), Some("rel_b"));
    assert_eq!(rep.to_release, "rel_a");
    assert_eq!(rep.reason, "errors");
    assert_eq!(rep.reason_code.as_deref(), Some("failed_health_check"));
    assert_eq!(active_release(&srv, "env_prod").as_deref(), Some("rel_a"));
    assert_eq!(active_release(&srv, "env_staging").as_deref(), Some("rel_s"));
    let e = srv.get_environment(GetEnvironmentInput { environment_id: s("env_prod") }).unwrap();
    assert_eq!(e.updated_at, t(5));
}

#[test]
fn rollback_twice_lands_on_same_release() {
    let mut srv = fresh();
    promote(&mut srv, "env_dev", "rel_1", 1);
    promote(&mut srv, "env_dev", "rel_2", 2);
    promote(&mut srv, "env_dev", "rel_3", 3);
    let input = || RollbackDeployInput { environment_id: s("env_dev"), reason: s("r"), reason_code: None };
    let a = srv.rollback_deploy_at(input(), t(4), s("a")).unwrap();
    let b = srv.rollback_deploy_at(input(), t(5), s("b")).unwrap();
    assert_eq!(a.to_release, "rel_2");
    assert_eq!(b.to_release, "rel_2");
    assert_eq!(b.from_release.as_deref(), Some("rel_2"));
}

#[test]
fn history_is_newest_first_and_limited() {
    let mut srv = fresh();
    for k in 0..12 {
        promote(&mut srv, "env_dev", &format!("rel_{k}"), k);
        promote(&mut srv, "env_staging", &format!("st_{k}"), k);
    }
    let h = srv.get_deploy_history(GetDeployHistoryInput { environment_id: s("env_dev"), limit: None });
    assert_eq!(h.len(), 10);
    assert_eq!(h[0].release_bundle_id, "rel_11");
    assert_eq!(h[9].release_bundle_id, "rel_2");
    assert!(h.iter().all(|d| d.environment_id == "env_dev"));
    let h3 = srv.get_deploy_history(GetDeployHistoryInput { environment_id: s("env_staging"), limit: Some(3) });
    let rels: Vec<&str> = h3.iter().map(|d| d.release_bundle_id.as_str()).collect();
    assert_eq!(rels, vec!["st_11", "st_10", "st_9"]);
    let h0 = srv.get_deploy_history(GetDeployHistoryInput { environment_id: s("env_dev"), limit: Some(0) });
    assert!(h0.is_empty());
    let hall = srv.get_deploy_history(GetDeployHistoryInput { environment_id: s("env_dev"), limit: Some(100) });
    assert_eq!(hall.len(), 12);
}

#[test]
fn validation_passes_on_seed() {
    let srv = fresh();
    let v = srv
        .validate_environment_at(
            ValidateEnvironmentInput { environment_id: s("env_eu_prod"), scope: None },
            t(30),
            s("beef"),
        )
        .unwrap();
    assert_eq!(v.validation_id, "val_beef");
    assert_eq!(v.environment_id, "env_eu_prod");
    assert_eq!(v.scope, "full");
    assert_eq!(v.checks.len(), 7);
    let names: Vec<&str> = v.checks.iter().map(|c| c.name.as_str()).collect();
    assert_eq!(
        names,
        vec![
            "provider_connectivity",
            "memory_backend",
            "worker_health",
            "protocol_bindings",
            "credential_bindings",
            "config_schema",
            "rollback_readiness"
        ]
    );
    assert_eq!(v.checks[2].message, "4 pools");
    assert_eq!(v.checks[4].message, "2 refs valid");
    assert!(v.checks[..6].iter().all(|c| c.status == "passing"));
    assert_eq!(v.checks[6].status, "review");
    assert_eq!(v.checks[6].message, "No previous release to roll back to");
    assert_eq!((v.passing, v.failing, v.review), (6, 0, 1));
    assert!(v.promotion_allowed);
    assert_eq!(v.validated_at, t(30));
}

#[test]
fn rollback_readiness_passes_after_a_promotion() {
    let mut srv = fresh();
    promote(&mut srv, "env_eu_prod", "rel_eu", 1);
    let v = srv
        .validate_environment_at(
            ValidateEnvironmentInput { environment_id: s("env_eu_prod"), scope: None },
            t(30),
            s("beef"),
        )
        .unwrap();
    assert_eq!(v.checks[6].status, "passing");
    assert_eq!(v.checks[6].message, "Previous release available");
    assert_eq!((v.passing, v.failing, v.review), (7, 0, 0));
}

#[test]
fn validation_scope_and_random_identifier() {
    let srv = fresh();
    let v = srv
        .validate_environment(ValidateEnvironmentInput {
            environment_id: s("env_dev"),
            scope: Some(s("pre_promote")),
        })
        .unwrap();
    assert_eq!(v.scope, "pre_promote");
    assert_eq!(v.validation_id.len(), "val_".len() + 32);
    assert!(v.validation_id.starts_with("val_"));
    let other = srv
        .validate_environment(ValidateEnvironmentInput { environment_id: s("env_dev"), scope: None })
        .unwrap();
    assert_ne!(v.validation_id, other.validation_id);
}

#[test]
fn operations_with_clock_and_random_ids() {
    let mut srv = fresh();
    let d = srv.detect_config_drift(DetectConfigDriftInput { environment_id: s("env_dev") }).unwrap();
    assert_eq!(d.drift_id.len(), "drift_".len() + 32);
    let r = srv
        .sync_environment_config(SyncConfigInput {
            environment_id: s("env_dev"),
            config: Some(s("{}")),
            mode: Some(s("apply")),
            approval_id: None,
        })
        .unwrap();
    assert!(matches!(r, SyncReport::Applied { config_version: 2, .. }));
    let e = srv.get_environment(GetEnvironmentInput { environment_id: s("env_dev") }).unwrap();
    assert!(e.updated_at.secs > 1_577_836_800);
    let sc = srv
        .scale_worker_pool(ScaleWorkerPoolInput {
            environment_id: s("env_dev"),
            pool_type: PoolType::Graph,
            desired_capacity: 3,
            reason: None,
        })
        .unwrap();
    assert_eq!(sc.target_capacity, 3);
    promote(&mut srv, "env_dev", "rel_x", 1);
    promote(&mut srv, "env_dev", "rel_y", 2);
    let rb = srv
        .rollback_deploy(RollbackDeployInput { environment_id: s("env_dev"), reason: s("r"), reason_code: None })
        .unwrap();
    assert_eq!(rb.to_release, "rel_x");
    assert_eq!(rb.rollback_id.len(), "rb_".len() + 32);
}
