use hivemind::cicd::{
    pipeline_name_from_file, run_status, to_lowercase, workflow_path, BuildConfig, DeploymentConfig, DeploymentStrategy,
    GitHubActionsProvider, PipelineConfig, PipelineStatus,
};
use hivemind::cloud::{
    elb_dns_name, private_ip, public_ip, random_instance_addresses, time_before, AwsProvider, CloudProvider, DiskState,
    InstanceState, LoadBalancerScheme, LoadBalancerState, LoadBalancerType,
};
use hivemind::helm::{
    chart_yaml, get_release_args, install_args, list_releases_args, package_path, parse_release_status, release_key,
    repo_add_args, uninstall_args, upgrade_args, HelmReleaseStatus, HelmRepositories, HelmRepository,
};
use hivemind::logging::{
    log_cache_hit, log_container_runtime_error, log_external_monitoring, log_quota_violation, log_resource_usage, LogLevel,
};
use hivemind::monitoring::tenant_metrics;
use hivemind::text::{
    byte_sum_u64, contains_text, ends_with, push_signed_decimal, replace_chars, starts_with, str_less,
    text_from_utf8_lossy, trim_end_matches, trim_start_matches, utf8_bytes,
};

fn pipeline() -> PipelineConfig {
    PipelineConfig {
        id: "p1".to_string(),
        name: "CI".to_string(),
        repository_url: "https://github.com/o/r".to_string(),
        branch: "main".to_string(),
        build_config: BuildConfig {
            build_command: "make".to_string(),
            docker_image: None,
            dockerfile_path: None,
            build_args: vec![],
            cache_config: None,
        },
        deployment_config: DeploymentConfig {
            strategy: DeploymentStrategy::RollingUpdate { max_unavailable: 1, max_surge: 1 },
            environment: "prod".to_string(),
            replicas: 1,
            resources: None,
            health_check_path: None,
            health_check: None,
            rollback: None,
        },
        test_config: None,
        release_config: None,
        webhook_url: None,
        environment: vec![],
        created_at: 0,
        updated_at: 0,
    }
}

#[test]
fn workflow_file_of_minimal_pipeline() {
    let p = GitHubActionsProvider::new("t".to_string(), "o".to_string(), "r".to_string());
    let w = p.generate_workflow_file(&pipeline()).unwrap();
    let expected = "name: CI\n\non:\n  push:\n    branches: [ main ]\n  pull_request:\n    branches: [ main ]\n  workflow_dispatch:\n\njobs:\n  build:\n    runs-on: ubuntu-latest\n    steps:\n    - uses: actions/checkout@v3\n    - name: Build\n      run: |\n        make\n\n  deploy:\n    needs: build\n    runs-on: ubuntu-latest\n    steps:\n    - uses: actions/checkout@v3\n    - name: Deploy\n      run: |\n        echo \"Performing rolling update deployment\"\n        # Add your rolling update deployment commands here\n";
    assert_eq!(w, expected);
    let mut with_env = pipeline();
    with_env.environment = vec![("A".to_string(), "1".to_string())];
    assert!(p.generate_workflow_file(&with_env).unwrap().contains("      env:\n"));
}

#[test]
fn github_provider_details() {
    let p = GitHubActionsProvider::new("t".to_string(), "o".to_string(), "r".to_string());
    assert_eq!(p.name(), "GitHub Actions");
    assert_eq!(p.description(), "GitHub Actions CI/CD provider");
    assert_eq!(p.repo_url("actions/runs"), "https://api.github.com/repos/o/r/actions/runs");
    assert_eq!(p.repository_url(), "https://github.com/o/r");
}

#[test]
fn workflow_paths_and_names() {
    assert_eq!(to_lowercase("AbC"), "abc");
    assert_eq!(workflow_path("My Pipeline"), ".github/workflows/my_pipeline.yml");
    assert_eq!(pipeline_name_from_file("my_pipe.yml"), Some("my pipe".to_string()));
    assert_eq!(pipeline_name_from_file("x.yaml"), Some("x".to_string()));
    assert_eq!(pipeline_name_from_file("readme.md"), None);
}

#[test]
fn workflow_run_status() {
    assert_eq!(run_status("queued", None), PipelineStatus::Pending);
    assert_eq!(run_status("in_progress", None), PipelineStatus::Running);
    assert_eq!(run_status("completed", Some("success")), PipelineStatus::Success);
    assert_eq!(
        run_status("completed", Some("failure")),
        PipelineStatus::Failed { error: "Workflow failed".to_string(), stage: "unknown".to_string() }
    );
    assert_eq!(run_status("completed", Some("cancelled")), PipelineStatus::Cancelled);
    assert_eq!(run_status("completed", None), PipelineStatus::Pending);
    assert_eq!(run_status("weird", None), PipelineStatus::Pending);
}

#[test]
fn helm_commands() {
    assert_eq!(parse_release_status("deployed"), HelmReleaseStatus::Deployed);
    assert_eq!(parse_release_status("uninstalled"), HelmReleaseStatus::Uninstalled);
    assert_eq!(parse_release_status("other"), HelmReleaseStatus::Failed);
    assert_eq!(release_key("ns", "rel"), "ns/rel");
    let repo = HelmRepository {
        name: "bitnami".to_string(),
        url: "https://charts.bitnami.com".to_string(),
        username: Some("u".to_string()),
        password_encrypted: Some("x".to_string()),
        is_oci: true,
    };
    assert_eq!(
        repo_add_args(&repo),
        vec!["repo", "add", "bitnami", "https://charts.bitnami.com", "--username", "u", "--password", "placeholder", "--oci"]
    );
    assert_eq!(
        install_args("r", "c", "ns", Some("v.yaml")),
        vec!["install", "r", "c", "--namespace", "ns", "--create-namespace", "--values", "v.yaml"]
    );
    assert_eq!(upgrade_args("r", "c", "ns", None), vec!["upgrade", "r", "c", "--namespace", "ns"]);
    assert_eq!(uninstall_args("r", "ns"), vec!["uninstall", "r", "--namespace", "ns"]);
    assert_eq!(get_release_args("r", "ns"), vec!["get", "all", "r", "--namespace", "ns", "--output", "json"]);
    assert_eq!(list_releases_args(None), vec!["list", "--output", "json", "--all-namespaces"]);
    assert_eq!(list_releases_args(Some("ns")), vec!["list", "--output", "json", "--namespace", "ns"]);
    assert_eq!(
        chart_yaml("web", "A chart"),
        "apiVersion: v2\nname: web\ndescription: A chart\nversion: 0.1.0\nappVersion: \"1.0.0\"\n"
    );
    assert_eq!(
        package_path("Successfully packaged chart and saved it to: /tmp/web-0.1.0.tgz\n"),
        Some("/tmp/web-0.1.0.tgz".to_string())
    );
    assert_eq!(package_path("nothing here"), None);
}

#[test]
fn helm_repository_table() {
    let mut t = HelmRepositories::new();
    let repo = |n: &str| HelmRepository { name: n.to_string(), url: "u".to_string(), username: None, password_encrypted: None, is_oci: false };
    assert_eq!(t.add_repository(repo("a"), Ok(()), Ok(())), Ok(()));
    assert_eq!(t.add_repository(repo("b"), Ok(()), Ok(())), Ok(()));
    assert_eq!(t.add_repository(repo("a"), Ok(()), Ok(())), Ok(()));
    assert_eq!(t.list_repository_names(), vec!["a", "b"]);
    assert_eq!(t.remove_repository("a", Ok(())), Ok(()));
    assert_eq!(t.list_repository_names(), vec!["b"]);
}

#[test]
fn aws_provider_data() {
    let p = AwsProvider::new("k".to_string(), "s".to_string(), "us-east-1".to_string());
    assert_eq!(p.name(), "AWS");
    assert_eq!(p.provider_type(), CloudProvider::AWS);
    assert_eq!(p.list_regions().len(), 9);
    assert_eq!(p.list_regions()[0], "us-east-1");
    assert_eq!(p.list_zones("us-east-1").len(), 6);
    assert_eq!(p.list_zones("us-west-2"), vec!["us-west-2a", "us-west-2b", "us-west-2c", "us-west-2d"]);
    assert_eq!(p.list_zones("eu-west-1"), vec!["eu-west-1a", "eu-west-1b", "eu-west-1c"]);
    assert_eq!(public_ip(1, 2, 3), "54.1.2.3");
    assert_eq!(private_ip(4, 5), "10.0.4.5");
    let (pubip, privip) = random_instance_addresses();
    assert!(pubip.starts_with("54."));
    assert!(privip.starts_with("10.0."));
}

#[test]
fn log_records() {
    let r = log_resource_usage("t", 5, 6, 7, 8, 9);
    assert_eq!(r.level, LogLevel::Info);
    assert_eq!(r.message, "Resource usage for tenant t: CPU: 5%, Memory: 6 bytes, Storage: 7 bytes, Containers: 8, Services: 9");
    let q = log_quota_violation("t", "cpu", 10, 5);
    assert_eq!(q.level, LogLevel::Warn);
    assert_eq!(q.message, "Quota violation for tenant t: cpu usage 10 exceeds limit 5");
    assert_eq!(log_container_runtime_error("t", "x").message, "Container runtime error for tenant t: x");
    assert_eq!(log_cache_hit("t", -3).message, "Cache hit for tenant t resource usage (age: -3 seconds)");
    let ok = log_external_monitoring("t", "prom", true);
    assert_eq!(ok.level, LogLevel::Info);
    assert_eq!(ok.message, "Successfully sent metrics for tenant t to external monitoring system prom");
    assert_eq!(log_external_monitoring("t", "prom", false).level, LogLevel::Error);
}

#[test]
fn tenant_metric_report() {
    let ms = tenant_metrics("t1", 1, 2, 3, 4, 5, 99);
    let names: Vec<&str> = ms.iter().map(|m| m.name.as_str()).collect();
    assert_eq!(
        names,
        vec!["tenant_cpu_usage", "tenant_memory_usage", "tenant_storage_usage", "tenant_container_count", "tenant_service_count"]
    );
    assert_eq!(ms[3].value, 4);
    assert_eq!(ms[0].labels, vec![("tenant_id".to_string(), "t1".to_string())]);
    assert_eq!(ms[4].timestamp, 99);
}

#[test]
fn text_helpers() {
    assert!(starts_with("hello", "he"));
    assert!(!starts_with("he", "hello"));
    assert!(ends_with("file.yml", ".yml"));
    assert!(contains_text("task not found", "not found"));
    assert!(!contains_text("abc", "abd"));
    assert_eq!(hivemind::text::concat("a", "b"), "ab");
    assert_eq!(replace_chars("a b c", ' ', '_'), "a_b_c");
    assert_eq!(trim_start_matches("xxab", "x"), "ab");
    assert_eq!(trim_end_matches("a.yml.yml", ".yml"), "a");
    assert!(str_less("abc", "abd"));
    assert!(str_less("ab", "abc"));
    assert!(!str_less("b", "a"));
    let mut s = String::new();
    push_signed_decimal(&mut s, -42);
    assert_eq!(s, "-42");
    assert_eq!(utf8_bytes("é"), vec![0xc3, 0xa9]);
    assert_eq!(text_from_utf8_lossy(&vec![0x68, 0x69]), "hi");
    assert_eq!(text_from_utf8_lossy(&vec![0x68, 0xff]), "h\u{fffd}");
    assert_eq!(byte_sum_u64("ab"), 195);
}

#[test]
fn aws_reports_instances_disks_and_balancers_at_a_time() {
    let p = AwsProvider::new("key".to_string(), "secret".to_string(), "eu-west-1".to_string());
    let i = p.get_instance_at("i-123", 10_000);
    assert_eq!(i.id, "i-123");
    assert_eq!(i.name, "mock-instance");
    assert_eq!(i.zone, "eu-west-1a");
    assert_eq!(i.instance_type, "t3.micro");
    assert_eq!(i.public_ip.as_deref(), Some("54.123.45.67"));
    assert_eq!(i.private_ip.as_deref(), Some("10.0.1.2"));
    assert_eq!(i.state, InstanceState::Running);
    assert_eq!(i.created_at, 6_400);
    let all = p.list_instances_at(10_000);
    assert_eq!(all.len(), 2);
    assert_eq!(all[1].name, "mock-instance-2");
    assert_eq!(all[1].zone, "eu-west-1b");
    assert_eq!(all[1].created_at, 2_800);
    assert_ne!(all[0].id, all[1].id);
    let d = p.get_disk_at("d-1", 7_200);
    assert_eq!((d.disk_type.as_str(), d.size_gb, d.state, d.created_at), ("gp2", 100, DiskState::Available, 3_600));
    let disks = p.list_disks_at(7_200);
    assert_eq!((disks[1].disk_type.as_str(), disks[1].size_gb, disks[1].state), ("io1", 200, DiskState::InUse));
    let lbs = p.list_load_balancers_at(0);
    assert_eq!(lbs[1].dns_name.as_deref(), Some("mock-lb-2.eu-west-1.elb.amazonaws.com"));
    assert_eq!((lbs[1].lb_type, lbs[1].scheme), (LoadBalancerType::Network, LoadBalancerScheme::Internal));
    assert_eq!(lbs[0].created_at, -3_600);
}

#[test]
fn aws_creates_records_from_their_arguments() {
    let p = AwsProvider::new("key".to_string(), "secret".to_string(), "us-east-1".to_string());
    let tags = vec![("env".to_string(), "prod".to_string())];
    let i = p.create_instance("web", "us-west-2", "us-west-2b", "t3.large", 50, tags.clone());
    assert_eq!(i.id.len(), 36);
    assert_eq!((i.name.as_str(), i.region.as_str(), i.zone.as_str()), ("web", "us-west-2", "us-west-2b"));
    assert_eq!(i.state, InstanceState::Pending);
    assert!(i.public_ip.unwrap().starts_with("54."));
    assert!(i.private_ip.unwrap().starts_with("10.0."));
    assert_eq!(i.tags, tags);
    let d = p.create_disk("data", "us-west-2", "us-west-2b", "gp3", 20, Vec::new());
    assert_eq!((d.size_gb, d.state), (20, DiskState::Creating));
    let lb = p.create_load_balancer("front", "us-west-2", LoadBalancerType::Classic, LoadBalancerScheme::Internal, Vec::new());
    assert_eq!(lb.dns_name.as_deref(), Some("front.us-west-2.elb.amazonaws.com"));
    assert_eq!(lb.state, LoadBalancerState::Provisioning);
    assert!(lb.ip_address.is_none());
}

#[test]
fn times_before_saturate_at_the_earliest() {
    assert_eq!(time_before(100, 0), 100);
    assert_eq!(time_before(i64::MIN + 10, 1), i64::MIN);
    assert_eq!(time_before(i64::MIN + 3_600, 1), i64::MIN);
    assert_eq!(elb_dns_name("a", "b"), "a.b.elb.amazonaws.com");
}
