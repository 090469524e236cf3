use base64::Engine;
use hivemind::cicd::{
    BuildConfig, DeploymentConfig, DeploymentStrategy as CicdStrategy, GitHubActionsProvider, PipelineConfig,
};
use hivemind::containerd::{
    create_step, du_size, stop_step, CdRequest, ContainerdError, ContainerdManager, CreateCleanup, CreateStep, StopOutcome,
    StopStep,
};
use hivemind::containers::ContainerStatus;
use hivemind::deployment::{
    redeploy_calls, rollback_plan, rollback_step, rolling_update_plan, verify_step, DeploymentError, DeploymentManager,
    DeploymentStrategy, RollbackCall, RollbackPlan, RollbackStep, VerifyStep,
};
use hivemind::github::{CommitBody, CommitStep, HttpMethod, PipelineError, UpdateStep};
use hivemind::helm::{
    release_from_output, releases_from_list_output, HelmError, HelmReleaseStatus, HelmRepositories, HelmRepository,
};
use hivemind::ipam::{IpAddress, IpNet};
use hivemind::network::gateway_ip;

#[test]
fn stopping_an_unknown_container_is_refused_before_any_request() {
    let mut m = ContainerdManager::new("hivemind".to_string());
    m.record_container("c1".to_string(), "web", "nginx", vec![], vec![], vec![], 5);
    assert!(m.begin_stop("c1").is_ok());
    assert!(matches!(m.begin_stop("nope"), Err(ContainerdError::ContainerNotFound(x)) if x == "nope"));
}

fn rolling(zero_downtime: bool) -> DeploymentStrategy {
    DeploymentStrategy::RollingUpdate {
        max_unavailable: 1,
        max_surge: 1,
        batch_size: Some(2),
        batch_delay: Some(0),
        zero_downtime: Some(zero_downtime),
        health_check_path: None,
        health_check_port: None,
        health_check_timeout: None,
        drain_timeout: None,
    }
}

#[test]
fn rollback_with_downtime_deletes_then_redeploys_previous_version() {
    let names = match rollback_plan("web", &rolling(false), 3, 2, 1, 3) {
        RollbackPlan::Redeploy(n) => n,
        _ => panic!("expected a redeploy"),
    };
    assert_eq!(names, vec!["web-0", "web-1"]);
    let env = vec![("K".to_string(), "V".to_string())];
    let calls = redeploy_calls("web", &names, &env);
    assert_eq!(calls.len(), 3);
    assert!(matches!(&calls[0], RollbackCall::DeleteApp(a) if a == "web"));
    match &calls[2] {
        RollbackCall::Deploy { image, name, service, env: e } => {
            assert_eq!((image.as_str(), name.as_str(), service.as_str()), ("previous-version", "web-1", "web"));
            assert_eq!(e, &env);
        }
        _ => panic!("expected a deployment"),
    }
    assert!(matches!(rollback_step(&calls, 0, &Ok(())), RollbackStep::Call(RollbackCall::DeleteApp(_))));
    assert!(matches!(rollback_step(&calls, 3, &Ok(())), RollbackStep::Finish(Ok(()))));
    assert!(matches!(rollback_step(&calls, 1, &Err("boom".to_string())), RollbackStep::Finish(Err(e)) if e == "boom"));
}

#[test]
fn zero_downtime_batches_create_before_removing() {
    let (_, batches) = rolling_update_plan("web", &rolling(true), 3, 3).unwrap();
    assert!(batches.iter().all(|b| b.create_first));
    assert_eq!(batches[0].create, vec!["web-0-new", "web-1-new"]);
    let (_, batches) = rolling_update_plan("web", &rolling(false), 3, 3).unwrap();
    assert!(batches.iter().all(|b| !b.create_first));
    match rollback_plan("web", &rolling(true), 3, 3, 2, 2) {
        RollbackPlan::Batches(b) => assert!(b.iter().all(|x| x.create_first)),
        _ => panic!("expected batches"),
    }
}

#[test]
fn verification_retries_then_gives_up() {
    let up = vec![Some(ContainerStatus::Running), Some(ContainerStatus::Running)];
    let down = vec![Some(ContainerStatus::Running), None];
    assert_eq!(verify_step(&up, 9), VerifyStep::Proceed);
    assert_eq!(verify_step(&down, 0), VerifyStep::Retry);
    assert_eq!(verify_step(&down, 8), VerifyStep::Retry);
    assert_eq!(verify_step(&down, 9), VerifyStep::Abort);
    assert_eq!(verify_step(&vec![Some(ContainerStatus::Stopped)], 0), VerifyStep::Retry);
}

#[test]
fn execution_refuses_unknown_deployments_and_missing_executors() {
    let mut m = DeploymentManager::new();
    assert_eq!(m.begin_execution("nope", true, 10), Err(DeploymentError::NotFound("nope".to_string())));
    let id = m.create_deployment("web", "nginx", DeploymentStrategy::Simple, None, 5);
    assert_eq!(m.begin_execution(&id, false, 10), Err(DeploymentError::InvalidStrategy));
    let st = m.get_deployment_status(&id).unwrap();
    assert_eq!((st.status.as_str(), st.completed, st.updated_at), ("in_progress", false, 10));
    assert_eq!(m.begin_execution(&id, true, 11), Ok(()));
}

#[test]
fn helm_records_a_repository_only_when_both_commands_succeed() {
    let repo = || HelmRepository {
        name: "r".to_string(),
        url: "u".to_string(),
        username: None,
        password_encrypted: Some("pw".to_string()),
        is_oci: false,
    };
    let mut t = HelmRepositories::new();
    assert_eq!(t.add_repository(repo(), Err("bad".to_string()), Ok(())), Err(HelmError::RepoAddFailed("bad".to_string())));
    assert_eq!(t.add_repository(repo(), Ok(()), Err("stale".to_string())), Err(HelmError::RepoUpdateFailed("stale".to_string())));
    assert!(t.list_repository_names().is_empty());
    assert_eq!(t.add_repository(repo(), Ok(()), Ok(())), Ok(()));
    assert_eq!(t.remove_repository("r", Err("no".to_string())), Err(HelmError::RepoRemoveFailed("no".to_string())));
    assert_eq!(t.list_repository_names(), vec!["r"]);
}

#[test]
fn helm_release_read_from_json_output() {
    let out = br#"{"chart":{"metadata":{"name":"nginx","version":"1.2.3"}},"info":{"status":"deployed","last_deployed":"1970-01-01T00:01:40Z"},"version":7,"config":{"a":1}}"#.to_vec();
    let r = release_from_output("web", "prod", &out).unwrap();
    assert_eq!((r.name.as_str(), r.namespace.as_str(), r.chart.as_str(), r.version.as_str()), ("web", "prod", "nginx", "1.2.3"));
    assert_eq!((r.status, r.revision, r.updated), (HelmReleaseStatus::Deployed, 7, 100));
    assert_eq!(r.values, "{\"a\":1}");
    let bare = release_from_output("web", "prod", &b"{}".to_vec()).unwrap();
    assert_eq!((bare.chart.as_str(), bare.status, bare.revision, bare.updated), ("", HelmReleaseStatus::Failed, 0, 0));
    assert_eq!(bare.values, "null");
    assert_eq!(release_from_output("web", "prod", &b"not json".to_vec()).unwrap_err(), HelmError::InvalidOutput);
}

#[test]
fn helm_release_list_read_from_json_output() {
    let out = br#"[{"name":"a","namespace":"x"},{"name":"b"},{}]"#.to_vec();
    let r = releases_from_list_output(&out).unwrap();
    assert_eq!(
        r,
        vec![
            ("a".to_string(), "x".to_string()),
            ("b".to_string(), "default".to_string()),
            ("".to_string(), "default".to_string())
        ]
    );
    assert_eq!(releases_from_list_output(&b"{}".to_vec()).unwrap_err(), HelmError::InvalidOutput);
}

fn pipeline() -> PipelineConfig {
    PipelineConfig {
        id: "p1".to_string(),
        name: "My CI".to_string(),
        repository_url: "https://github.com/o/r".to_string(),
        branch: "main".to_string(),
        build_config: BuildConfig {
            build_command: "make".to_string(),
            docker_image: None,
            dockerfile_path: None,
            build_args: vec![],
            cache_config: None,
        },
        deployment_config: DeploymentConfig {
            strategy: CicdStrategy::RollingUpdate { max_unavailable: 1, max_surge: 1 },
            environment: "prod".to_string(),
            replicas: 1,
            resources: None,
            health_check_path: None,
            health_check: None,
            rollback: None,
        },
        test_config: None,
        release_config: None,
        webhook_url: None,
        environment: vec![],
        created_at: 0,
        updated_at: 0,
    }
}

#[test]
fn pipeline_creation_commits_the_workflow_with_headers() {
    let p = GitHubActionsProvider::new("tok".to_string(), "o".to_string(), "r".to_string());
    let (mut st, first) = p.begin_create_pipeline(&pipeline());
    assert_eq!(first.method, HttpMethod::Get);
    assert_eq!(first.url, "https://api.github.com/repos/o/r/git/refs/heads/main");
    assert_eq!(first.authorization, "token tok");
    assert_eq!(first.user_agent, "hivemind-cicd");
    assert_eq!(st.path, ".github/workflows/my_ci.yml");
    let blob = match p.continue_create_pipeline(&mut st, true, &br#"{"object":{"sha":"P"}}"#.to_vec()) {
        CommitStep::Send(r) => r,
        _ => panic!("expected a request"),
    };
    assert_eq!((blob.method, blob.url.as_str()), (HttpMethod::Post, "https://api.github.com/repos/o/r/git/blobs"));
    assert!(matches!(&blob.body, CommitBody::Blob { content } if content.starts_with("name: My CI\n")));
    let tree = match p.continue_create_pipeline(&mut st, true, &br#"{"sha":"B"}"#.to_vec()) {
        CommitStep::Send(r) => r,
        _ => panic!("expected a request"),
    };
    assert!(matches!(&tree.body, CommitBody::Tree { base_tree, path, sha }
        if base_tree == "P" && path == ".github/workflows/my_ci.yml" && sha == "B"));
    let commit = match p.continue_create_pipeline(&mut st, true, &br#"{"sha":"T"}"#.to_vec()) {
        CommitStep::Send(r) => r,
        _ => panic!("expected a request"),
    };
    assert!(matches!(&commit.body, CommitBody::Commit { message, parent, tree }
        if message == "Add CI/CD pipeline: My CI" && parent == "P" && tree == "T"));
    let move_ref = match p.continue_create_pipeline(&mut st, true, &br#"{"sha":"C"}"#.to_vec()) {
        CommitStep::Send(r) => r,
        _ => panic!("expected a request"),
    };
    assert_eq!((move_ref.method, move_ref.url.as_str()), (HttpMethod::Patch, "https://api.github.com/repos/o/r/git/refs/heads/main"));
    assert!(matches!(&move_ref.body, CommitBody::Ref { sha } if sha == "C"));
    assert_eq!(move_ref.authorization, "token tok");
    assert!(matches!(p.continue_create_pipeline(&mut st, true, &b"{}".to_vec()), CommitStep::Done(Ok(id)) if id == "p1"));
}

#[test]
fn pipeline_creation_stops_at_a_refused_request_or_bad_answer() {
    let p = GitHubActionsProvider::new("tok".to_string(), "o".to_string(), "r".to_string());
    let (mut st, _) = p.begin_create_pipeline(&pipeline());
    assert!(matches!(p.continue_create_pipeline(&mut st, false, &vec![]), CommitStep::Done(Err(PipelineError::RequestFailed(0)))));
    let (mut st, _) = p.begin_create_pipeline(&pipeline());
    assert!(matches!(p.continue_create_pipeline(&mut st, true, &br#"{"sha":"x"}"#.to_vec()),
        CommitStep::Done(Err(PipelineError::InvalidResponse(0)))));
}

#[test]
fn gateway_of_whole_address_space() {
    assert_eq!(gateway_ip(IpNet::V4 { addr: 0x0A00_0000, prefix: 0 }), Ok(IpAddress::V4(1)));
}

#[test]
fn pipeline_update_puts_the_encoded_workflow_with_its_sha() {
    let p = GitHubActionsProvider::new("tok".to_string(), "o".to_string(), "r".to_string());
    let (mut st, first) = p.begin_update_pipeline(&pipeline());
    assert_eq!(first.method, HttpMethod::Get);
    assert_eq!(first.url, "https://api.github.com/repos/o/r/contents/.github/workflows/my_ci.yml");
    let put = match p.continue_update_pipeline(&mut st, true, &br#"{"sha":"S1"}"#.to_vec()) {
        UpdateStep::Send(r) => r,
        _ => panic!("expected a request"),
    };
    assert_eq!((put.method, put.url.as_str()), (HttpMethod::Put, "https://api.github.com/repos/o/r/contents/.github/workflows/my_ci.yml"));
    assert_eq!((put.authorization.as_str(), put.user_agent.as_str()), ("token tok", "hivemind-cicd"));
    match &put.body {
        CommitBody::File { message, content, sha } => {
            assert_eq!(message, "Update CI/CD pipeline: My CI");
            assert_eq!(sha, "S1");
            let decoded = base64::engine::general_purpose::STANDARD.decode(content).unwrap();
            assert_eq!(String::from_utf8(decoded).unwrap(), st.workflow);
        }
        _ => panic!("expected a file body"),
    }
    assert!(matches!(p.continue_update_pipeline(&mut st, true, &vec![]), UpdateStep::Done(Ok(()))));
    let (mut st, _) = p.begin_update_pipeline(&pipeline());
    assert!(matches!(p.continue_update_pipeline(&mut st, true, &b"[]".to_vec()), UpdateStep::Done(Err(PipelineError::InvalidResponse(0)))));
    let (mut st, _) = p.begin_update_pipeline(&pipeline());
    assert!(matches!(p.continue_update_pipeline(&mut st, false, &vec![]), UpdateStep::Done(Err(PipelineError::RequestFailed(0)))));
}

#[test]
fn pipelines_listed_from_workflow_files() {
    let p = GitHubActionsProvider::new("tok".to_string(), "o".to_string(), "r".to_string());
    let req = p.list_pipelines_request();
    assert_eq!(req.url, "https://api.github.com/repos/o/r/contents/.github/workflows");
    let listing = br#"[{"name":"my_ci.yml"},{"name":"README.md"},{"name":"deploy_prod.yaml"}]"#.to_vec();
    let ps = p.pipelines_from_listing(&listing, 42).unwrap();
    assert_eq!(ps.len(), 2);
    assert_eq!((ps[0].name.as_str(), ps[1].name.as_str()), ("my ci", "deploy prod"));
    assert_eq!(ps[0].repository_url, "https://github.com/o/r");
    assert_eq!((ps[0].branch.as_str(), ps[0].created_at, ps[0].updated_at), ("main", 42, 42));
    assert_eq!(ps[0].id.len(), 36);
    assert_eq!(ps[0].deployment_config.environment, "production");
    assert_eq!(p.pipelines_from_listing(&b"{}".to_vec(), 0).unwrap_err(), PipelineError::InvalidResponse(0));
    assert_eq!(p.pipelines_from_listing(&br#"[{"name":"a.yml"},{"size":3}]"#.to_vec(), 0).unwrap_err(), PipelineError::InvalidFileName);
}

#[test]
fn containerd_create_and_stop_sequences() {
    assert_eq!(create_step(CdRequest::CreateContainer, &Ok(())), CreateStep::Next(CdRequest::CreateTask));
    assert_eq!(create_step(CdRequest::CreateTask, &Ok(())), CreateStep::Next(CdRequest::StartTask));
    assert_eq!(create_step(CdRequest::StartTask, &Ok(())), CreateStep::Started);
    assert_eq!(create_step(CdRequest::CreateContainer, &Err("x".to_string())),
        CreateStep::Failed(None, ContainerdError::ContainerCreate("x".to_string())));
    assert_eq!(create_step(CdRequest::CreateTask, &Err("x".to_string())),
        CreateStep::Failed(Some(CreateCleanup::DeleteContainer), ContainerdError::TaskCreate("x".to_string())));
    assert_eq!(create_step(CdRequest::StartTask, &Err("x".to_string())),
        CreateStep::Failed(Some(CreateCleanup::StopContainer), ContainerdError::TaskStart("x".to_string())));
    assert!(matches!(stop_step(CdRequest::KillTask, &Ok(())), StopStep::Next(CdRequest::DeleteTask)));
    assert!(matches!(stop_step(CdRequest::KillTask, &Err("task not found".to_string())), StopStep::Next(CdRequest::DeleteContainer)));
    assert!(matches!(stop_step(CdRequest::KillTask, &Err("denied".to_string())), StopStep::Finish(StopOutcome::KillFailed(m)) if m == "denied"));
    assert!(matches!(stop_step(CdRequest::DeleteTask, &Ok(())), StopStep::Next(CdRequest::DeleteContainer)));
    assert!(matches!(stop_step(CdRequest::DeleteTask, &Err("e".to_string())), StopStep::Finish(StopOutcome::TaskDeleteFailed(_))));
    assert!(matches!(stop_step(CdRequest::DeleteContainer, &Ok(())), StopStep::Finish(StopOutcome::Deleted)));
    assert!(matches!(stop_step(CdRequest::DeleteContainer, &Err("e".to_string())), StopStep::Finish(StopOutcome::ContainerDeleteFailed(_))));
}

#[test]
fn du_output_gives_the_size() {
    assert_eq!(du_size(true, "4096\t/var/lib/hivemind/volumes/v\n"), 4096);
    assert_eq!(du_size(true, "  12 x"), 12);
    assert_eq!(du_size(true, "abc\t/x"), 0);
    assert_eq!(du_size(true, "   "), 0);
    assert_eq!(du_size(false, "4096\t/x"), 0);
}
