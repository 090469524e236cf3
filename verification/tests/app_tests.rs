use hivemind::api::{deploy_response, service_url_response, AppState, DeployRequest};
use hivemind::app::{AppError, AppManager};
use hivemind::containers::{ContainerStatus, MockContainerManager, RuntimeError};
use hivemind::node::NodeManager;

fn manager() -> AppManager {
    AppManager::new().with_container_runtime(MockContainerManager::new())
}

#[test]
fn deployed_app_runs_and_is_routed() {
    let mut m = manager();
    let id = m.deploy_app("nginx", "web", Some("web.local"), None, None).unwrap();
    assert_eq!(id.len(), 36);
    assert_eq!(m.route_request("web.local"), Some(id.clone()));
    assert_eq!(m.route_request("other.local"), None);
    let c = m.get_container_by_id(&id).unwrap();
    assert_eq!(c.status, ContainerStatus::Running);
    assert_eq!(c.name, "web");
    assert_eq!(c.image, "nginx");
    assert_eq!(c.env_vars[0].key, "APP_NAME");
    assert_eq!(c.env_vars[0].value, "web");
    assert_eq!((c.ports[0].container_port, c.ports[0].host_port, c.ports[0].protocol.as_str()), (80, 8080, "tcp"));
    let rec = m.containers.last().unwrap();
    assert_eq!(rec.node_id, "local");
    assert_eq!(rec.service_domain, Some("web.local".to_string()));
    let s = m.get_service("web").unwrap();
    assert_eq!(s.container_ids, vec![id.clone()]);
    assert_eq!((s.desired_replicas, s.current_replicas), (1, 1));
    assert_eq!(m.get_container_stats(&id).unwrap().cpu_usage_centi, 2550);
}

#[test]
fn deploy_with_given_environment_and_ports() {
    let mut m = manager();
    let id = m
        .deploy_container("redis", "cache", Some("n7"), None, Some(vec![("K".to_string(), "V".to_string())]), Some(vec![(6379, 16379)]))
        .unwrap();
    let c = m.get_container_by_id(&id).unwrap();
    assert_eq!(c.env_vars[0].key, "K");
    assert_eq!(c.ports[0].host_port, 16379);
    assert_eq!(m.containers.last().unwrap().node_id, "n7");
    assert_eq!(m.list_containers(), vec![id]);
}

#[test]
fn without_runtime_everything_is_refused() {
    let mut m = AppManager::new();
    assert_eq!(
        m.list_images(),
        vec!["nginx:latest", "redis:latest", "postgres:latest", "ubuntu:latest"]
    );
    assert_eq!(m.deploy_container("nginx", "web", None, None, None, None), Err(AppError::NoRuntime));
    assert_eq!(m.deploy_app("nginx", "web", Some("d"), None, None), Err(AppError::NoRuntime));
    assert_eq!(m.stop_container("x"), Err(AppError::NoRuntime));
    assert_eq!(m.create_volume("v"), Err(AppError::NoRuntime));
    assert!(m.list_volumes().is_err());
    assert!(m.get_container_by_id("x").is_none());
    assert!(m.list_containers().is_empty());
}

#[test]
fn stopping_marks_runtime_and_record() {
    let mut m = manager();
    let id = m.deploy_app("nginx", "web", None, None, None).unwrap();
    assert_eq!(m.stop_container(&id), Ok(true));
    assert_eq!(m.get_container_by_id(&id).unwrap().status, ContainerStatus::Stopped);
    assert_eq!(m.containers[0].status, ContainerStatus::Stopped);
}

#[test]
fn scaling_up_and_down() {
    let mut m = manager();
    m.deploy_app("nginx", "web", Some("web.local"), None, None).unwrap();
    assert_eq!(m.scale_app("web", 3), Ok(()));
    let s = m.get_service("web").unwrap();
    assert_eq!(s.container_ids.len(), 3);
    assert_eq!((s.desired_replicas, s.current_replicas), (3, 3));
    assert_eq!(m.get_container_by_id(&s.container_ids[1]).unwrap().name, "web-1");
    assert_eq!(m.get_container_by_id(&s.container_ids[2]).unwrap().name, "web-3");
    for id in &s.container_ids {
        assert_eq!(m.get_container_by_id(id).unwrap().status, ContainerStatus::Running);
    }
    assert_eq!(m.scale_app("web", 1), Ok(()));
    let s2 = m.get_service("web").unwrap();
    assert_eq!(s2.container_ids, vec![s.container_ids[0].clone()]);
    assert_eq!(s2.current_replicas, 1);
    assert_eq!(m.get_container_by_id(&s.container_ids[2]).unwrap().status, ContainerStatus::Stopped);
    assert_eq!(m.get_container_by_id(&s.container_ids[1]).unwrap().status, ContainerStatus::Stopped);
    assert_eq!(m.scale_app("nope", 2), Err(AppError::ServiceNotFound));
}

#[test]
fn restarting_a_container() {
    let mut m = manager();
    let id = m.deploy_app("nginx", "web", None, None, None).unwrap();
    assert_eq!(m.restart_container(&id), Ok(true));
    assert_eq!(m.get_container_by_id(&id).unwrap().status, ContainerStatus::Stopped);
    assert_eq!(m.containers[0].status, ContainerStatus::Restarting);
    assert_eq!(m.containers.len(), 2);
    let fresh = &m.containers[1];
    assert_eq!(fresh.name, "web");
    assert_eq!(fresh.status, ContainerStatus::Running);
    assert_eq!(m.restart_container("unknown"), Err(AppError::NoRuntime));
    assert_eq!(m.restart_app("nope"), Err(AppError::ServiceNotFound));
}

#[test]
fn volumes_through_the_manager() {
    let mut m = manager();
    assert_eq!(m.create_volume("data"), Ok(()));
    assert_eq!(m.create_volume(""), Err(AppError::Runtime(RuntimeError::EmptyVolumeName)));
    assert_eq!(m.list_volumes().unwrap().len(), 1);
    assert_eq!(m.delete_volume("data"), Ok(()));
    assert_eq!(m.delete_volume("data"), Err(AppError::Runtime(RuntimeError::VolumeNotFound("data".to_string()))));
}

#[test]
fn deploy_with_volumes_creates_them() {
    let mut m = manager();
    let id = m
        .deploy_app_with_volumes("postgres", "db", None, vec![("dbdata".to_string(), "/var/lib/pg".to_string())], None, None)
        .unwrap();
    let vs = m.list_volumes().unwrap();
    assert_eq!(vs.len(), 1);
    assert_eq!(vs[0].name, "dbdata");
    let c = m.get_container_by_id(&id).unwrap();
    assert_eq!(c.volumes[0].name, "dbdata");
    assert_eq!(c.volumes[0].path, "/var/lib/pg");
}

#[test]
fn monitoring_syncs_records() {
    let mut m = manager();
    let id = m.deploy_app("nginx", "web", None, None, None).unwrap();
    assert_eq!(m.monitor_containers(), Ok(()));
    assert_eq!(m.get_containers_by_node("mock-node").len(), 1);
    assert_eq!(m.get_container_details()[0].id, id);
}

#[test]
fn containerd_manager_starts_empty() {
    let m = AppManager::with_containerd("/run/containerd/containerd.sock", "hivemind");
    assert!(m.list_images().is_empty());
    assert!(m.list_containers().is_empty());
    assert!(m.runtime.is_some());
}

#[test]
fn app_error_messages() {
    assert_eq!(AppError::NoRuntime.message(), "No container runtime available");
    assert_eq!(AppError::ServiceNotFound.message(), "Service not found");
    assert_eq!(AppError::Runtime(RuntimeError::InvalidVolumeName).message(),
        "Volume name can only contain alphanumeric characters, dashes, and underscores");
}

#[test]
fn api_answers() {
    let ok = deploy_response(Ok("abc".to_string()));
    assert!(ok.success);
    assert_eq!(ok.container_id, Some("abc".to_string()));
    let bad = deploy_response(Err(AppError::NoRuntime));
    assert!(!bad.success);
    assert_eq!(bad.error, Some("No container runtime available".to_string()));
    let u = service_url_response(Some("http://x".to_string()));
    assert!(u.success);
    let n = service_url_response(None);
    assert_eq!(n.error, Some("Service not found or no healthy endpoints available".to_string()));
}

#[test]
fn api_deploy_request() {
    let mut st = AppState {
        node_manager: NodeManager::new("127.0.0.1".to_string(), 1),
        app_manager: manager(),
        health_monitor: None,
    };
    let resp = st.deploy(&DeployRequest { image: "nginx".to_string(), name: "web".to_string(), service: Some("w.local".to_string()) });
    assert!(resp.success);
    let id = resp.container_id.unwrap();
    assert_eq!(st.app_manager.route_request("w.local"), Some(id));
    let mut none = AppState { node_manager: NodeManager::new("127.0.0.1".to_string(), 1), app_manager: AppManager::new(), health_monitor: None };
    let r = none.deploy(&DeployRequest { image: "nginx".to_string(), name: "web".to_string(), service: None });
    assert!(!r.success);
}
