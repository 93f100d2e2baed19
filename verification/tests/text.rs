use mcp_environment::text::{decimal_text, pool_type_label, workers_text};
use mcp_environment::types::{PoolType, ToolError, WorkerPool};

#[test]
fn decimal_text_writes_numbers() {
    assert_eq!(decimal_text(0), "0");
    assert_eq!(decimal_text(7), "7");
    assert_eq!(decimal_text(10), "10");
    assert_eq!(decimal_text(1234567890), "1234567890");
    assert_eq!(decimal_text(u64::MAX), u64::MAX.to_string());
}

#[test]
fn pool_type_labels() {
    assert_eq!(pool_type_label(PoolType::Model), "Model");
    assert_eq!(pool_type_label(PoolType::Realtime), "Realtime");
    assert_eq!(pool_type_label(PoolType::A2a), "A2a");
    assert_eq!(pool_type_label(PoolType::Acp), format!("{:?}", PoolType::Acp));
}

fn pool(ty: PoolType, current: u32, desired: u32) -> WorkerPool {
    WorkerPool {
        pool_id: "p".to_string(),
        pool_type: ty,
        min_capacity: 0,
        desired_capacity: desired,
        max_capacity: 100,
        current_capacity: current,
        status: "healthy".to_string(),
    }
}

#[test]
fn workers_text_joins_entries() {
    assert_eq!(workers_text(&vec![]), "");
    assert_eq!(workers_text(&vec![pool(PoolType::Code, 3, 12)]), "Code:3/12");
    assert_eq!(
        workers_text(&vec![pool(PoolType::Mcp, 0, 1), pool(PoolType::Graph, 10, 10)]),
        "Mcp:0/1, Graph:10/10"
    );
}

#[test]
fn error_messages() {
    assert_eq!(ToolError::EnvironmentNotFound("e1".to_string()).message(), "Environment not found: e1");
    assert_eq!(ToolError::PoolTypeNotFound(PoolType::Payment).message(), "Pool type Payment not found");
    assert_eq!(ToolError::NoPreviousDeployment.message(), "No previous deployment to roll back to");
}
