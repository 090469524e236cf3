use hivemind::deployment::{
    ab_testing_plan, blue_green_names, canary_plan, rolling_status, rolling_update_plan, rollback_plan, ABTestingVariant,
    Deployment, DeploymentError, DeploymentManager, DeploymentStatusEnum, DeploymentStrategy, RollbackPlan,
};

fn rolling(max_unavailable: u32, batch_size: Option<u32>, batch_delay: Option<u64>, zero_downtime: Option<bool>) -> DeploymentStrategy {
    DeploymentStrategy::RollingUpdate {
        max_unavailable,
        max_surge: 1,
        batch_size,
        batch_delay,
        zero_downtime,
        health_check_path: None,
        health_check_port: None,
        health_check_timeout: None,
        drain_timeout: None,
    }
}

fn names(v: &[&str]) -> Vec<String> {
    v.iter().map(|s| s.to_string()).collect()
}

#[test]
fn rolling_update_batches() {
    let (bs, batches) = rolling_update_plan("app", &rolling(2, None, None, None), 5, 5).unwrap();
    assert_eq!(bs, 2);
    assert_eq!(batches.len(), 3);
    assert_eq!(batches[0].remove, vec![0, 1]);
    assert_eq!(batches[0].create, names(&["app-0", "app-1"]));
    assert_eq!(batches[0].delay_after, 5);
    assert_eq!(batches[2].remove, vec![4]);
    assert_eq!(batches[2].create, names(&["app-4"]));
    assert_eq!(batches[2].delay_after, 0);
}

#[test]
fn rolling_update_replaces_each_running_container_once() {
    let (_, batches) = rolling_update_plan("app", &rolling(3, None, Some(1), None), 7, 9).unwrap();
    let mut seen: Vec<u32> = batches.iter().flat_map(|b| b.remove.clone()).collect();
    seen.sort();
    assert_eq!(seen, (0..7).collect::<Vec<u32>>());
}

#[test]
fn rolling_update_variants() {
    let (_, batches) = rolling_update_plan("app", &rolling(2, Some(2), None, Some(true)), 2, 2).unwrap();
    assert_eq!(batches[0].create, names(&["app-0-new", "app-1-new"]));
    let (_, shrink) = rolling_update_plan("app", &rolling(5, Some(5), None, None), 5, 3).unwrap();
    assert_eq!(shrink[0].remove.len(), 5);
    assert_eq!(shrink[0].create, names(&["app-0", "app-1", "app-2"]));
    let (_, empty) = rolling_update_plan("app", &rolling(1, None, None, None), 0, 3).unwrap();
    assert_eq!(empty.len(), 1);
    assert!(empty[0].remove.is_empty());
}

#[test]
fn rolling_update_errors() {
    assert_eq!(rolling_update_plan("app", &rolling(1, Some(0), None, None), 3, 3).err(), Some(DeploymentError::ZeroBatchSize));
    assert_eq!(rolling_update_plan("app", &DeploymentStrategy::Simple, 3, 3).err(), Some(DeploymentError::InvalidStrategy));
}

#[test]
fn rollback_plans() {
    match rollback_plan("app", &rolling(1, None, Some(2), Some(true)), 10, 10, 2, 5) {
        RollbackPlan::Batches(b) => {
            assert_eq!(b.len(), 5);
            assert_eq!(b[0].remove, vec![0, 1]);
            assert_eq!(b[0].create, names(&["app-rollback-0", "app-rollback-1"]));
            assert_eq!(b[0].delay_after, 2);
            assert_eq!(b[4].delay_after, 0);
        },
        other => panic!("unexpected {:?}", other),
    }
    match rollback_plan("app", &DeploymentStrategy::Simple, 10, 3, 1, 1) {
        RollbackPlan::Redeploy(n) => assert_eq!(n, names(&["app-0", "app-1", "app-2"])),
        other => panic!("unexpected {:?}", other),
    }
}

#[test]
fn canary_rollout() {
    let p = canary_plan("app", 10, 2, 20, &vec![50]);
    assert_eq!(p.first, names(&["app-canary-0", "app-canary-1"]));
    assert_eq!(p.rest.len(), 8);
    assert_eq!(p.rest[0], "app-canary-2");
    assert_eq!(p.weights, vec![20, 50, 100]);
    assert_eq!(p.retired, "app-stable");
}

#[test]
fn ab_test_plan() {
    let v = |n: &str, img: &str| ABTestingVariant { name: n.to_string(), percentage: 50, image: img.to_string(), environment: vec![] };
    let p = ab_testing_plan("app", &vec![v("a", "img-a"), v("b", "img-b")], &vec![2, 1]);
    assert_eq!(p.deployments.len(), 2);
    assert_eq!(p.deployments[0].0, "app-a");
    assert_eq!(p.deployments[0].1, "img-a");
    assert_eq!(p.deployments[0].2, names(&["app-a-0", "app-a-1"]));
    assert_eq!(p.deployments[1].2, names(&["app-b-0"]));
    assert_eq!(p.weights, vec![("app-a".to_string(), 50), ("app-b".to_string(), 50)]);
    assert_eq!(p.winner, "app-a");
    assert_eq!(p.retired, names(&["app-b"]));
}

#[test]
fn deployment_status_and_names() {
    assert_eq!(
        rolling_status(3, 5),
        DeploymentStatusEnum::InProgress { current_step: 3, total_steps: 5, current_replicas: 3, target_replicas: 5 }
    );
    assert_eq!(rolling_status(5, 5), DeploymentStatusEnum::Completed);
    assert_eq!(
        rolling_status(0, 0),
        DeploymentStatusEnum::Failed { error: "No containers found for application".to_string() }
    );
    assert_eq!(blue_green_names("app"), ("app-blue".to_string(), "app-green".to_string()));
}

#[test]
fn deployment_registry_lifecycle() {
    let mut m = DeploymentManager::new();
    let id = m.create_deployment("web", "nginx", DeploymentStrategy::Simple, Some("svc"), 10);
    assert!(id.starts_with("deploy-web-"));
    assert_eq!(id.len(), 47);
    let d = m.get_deployment(&id).unwrap();
    assert_eq!(d.status.status, "pending");
    assert_eq!(d.status.details, Some("Deployment created".to_string()));
    assert_eq!(d.service, Some("svc".to_string()));
    assert_eq!(d.replicas, 1);
    m.finish_execution(&id, &Ok(()), 20);
    let s = m.get_deployment_status(&id).unwrap();
    assert_eq!(s.status, "completed");
    assert_eq!(s.progress_percent, 100);
    assert_eq!(s.success, Some(true));
    assert!(s.completed);
    assert_eq!(s.updated_at, 20);
    assert_eq!(m.get_deployment(&id).unwrap().completed_at, Some(20));
    assert_eq!(m.rollback_deployment(&id), Ok(()));
    m.finish_rollback(&id, &Ok(()), 30);
    let s = m.get_deployment_status(&id).unwrap();
    assert_eq!(s.status, "rolled back");
    assert_eq!(s.success, Some(false));
}

#[test]
fn deployment_registry_failures() {
    let mut m = DeploymentManager::new();
    let id = m.add_deployment(Deployment::new("d1".to_string(), "web".to_string(), "img".to_string(), DeploymentStrategy::Simple, None, 1));
    assert_eq!(id, "d1");
    m.finish_execution("d1", &Err("boom".to_string()), 2);
    let s = m.get_deployment_status("d1").unwrap();
    assert_eq!(s.status, "failed");
    assert_eq!(s.details, Some("Deployment failed: boom".to_string()));
    assert_eq!(s.success, Some(false));
    assert_eq!(m.get_deployment("d1").unwrap().completed_at, None);
    m.finish_rollback("d1", &Err("nope".to_string()), 3);
    let s = m.get_deployment_status("d1").unwrap();
    assert_eq!(s.status, "rollback failed");
    assert_eq!(s.details, Some("Rollback failed: nope".to_string()));
    assert_eq!(m.get_deployment("x").err(), Some(DeploymentError::NotFound("x".to_string())));
    assert!(m.get_deployment_status("x").is_err());
    assert_eq!(m.rollback_deployment("x"), Err(DeploymentError::NotFound("x".to_string())));
    assert_eq!(m.list_deployments().len(), 1);
}
