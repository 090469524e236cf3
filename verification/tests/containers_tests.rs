use hivemind::containers::{
    is_alphanumeric, new_uuid, unix_now, ContainerStatus, EnvVar, MockContainerManager, PortMapping, RuntimeError,
    DEFAULT_VOLUME_SIZE,
};

fn env(k: &str, v: &str) -> EnvVar {
    EnvVar { key: k.to_string(), value: v.to_string() }
}

#[test]
fn created_container_runs_with_initial_stats() {
    let mut m = MockContainerManager::new();
    let id = m.create_container("nginx", "web", vec![env("A", "1")], vec![]);
    assert_eq!(id.len(), 36);
    let cs = m.list_containers().unwrap();
    assert_eq!(cs.len(), 1);
    assert_eq!(cs[0].status, ContainerStatus::Running);
    assert_eq!(cs[0].node_id, "mock-node");
    assert_eq!(cs[0].env_vars[0].key, "A");
    let s = m.get_container_metrics(&id).unwrap();
    assert_eq!(s.cpu_usage_centi, 2550);
    assert_eq!(s.memory_usage, 536870912);
    assert_eq!(s.network_rx, 1048576);
    assert_eq!(s.network_tx, 2097152);
}

#[test]
fn stop_marks_container_stopped() {
    let mut m = MockContainerManager::new();
    m.create_container_with_id("c1".to_string(), "img", "a", vec![], vec![], vec![], 1);
    m.create_container_with_id("c2".to_string(), "img", "b", vec![], vec![], vec![], 1);
    assert_eq!(m.stop_container("c1"), Ok(()));
    assert_eq!(m.stop_container("missing"), Ok(()));
    let cs = m.list_containers().unwrap();
    let c1 = cs.iter().find(|c| c.id == "c1").unwrap();
    let c2 = cs.iter().find(|c| c.id == "c2").unwrap();
    assert_eq!(c1.status, ContainerStatus::Stopped);
    assert_eq!(c2.status, ContainerStatus::Running);
}

#[test]
fn metrics_of_unknown_container() {
    let m = MockContainerManager::new();
    assert_eq!(m.get_container_metrics("x"), Err(RuntimeError::ContainerNotFound("x".to_string())));
}

#[test]
fn volume_create_then_delete() {
    let mut m = MockContainerManager::new();
    assert_eq!(m.create_volume_at("data", 42), Ok(()));
    let vs = m.list_volumes().unwrap();
    assert_eq!(vs.len(), 1);
    assert_eq!(vs[0].path, "/var/lib/hivemind/volumes/data");
    assert_eq!(vs[0].size, DEFAULT_VOLUME_SIZE);
    assert_eq!(vs[0].created_at, 42);
    assert_eq!(m.delete_volume("data"), Ok(()));
    assert!(m.list_volumes().unwrap().is_empty());
}

#[test]
fn volume_name_errors() {
    let mut m = MockContainerManager::new();
    assert_eq!(m.create_volume(""), Err(RuntimeError::EmptyVolumeName));
    assert_eq!(m.create_volume("bad name"), Err(RuntimeError::InvalidVolumeName));
    assert_eq!(m.create_volume("ok_name-1"), Ok(()));
    assert_eq!(m.create_volume("ok_name-1"), Err(RuntimeError::VolumeExists("ok_name-1".to_string())));
    assert_eq!(m.delete_volume("nope"), Err(RuntimeError::VolumeNotFound("nope".to_string())));
}

#[test]
fn volumes_listed_by_name() {
    let mut m = MockContainerManager::new();
    m.create_volume_at("b", 1).unwrap();
    m.create_volume_at("a", 2).unwrap();
    m.create_volume_at("c", 3).unwrap();
    let names: Vec<String> = m.list_volumes().unwrap().into_iter().map(|v| v.name).collect();
    assert_eq!(names, vec!["a", "b", "c"]);
}

#[test]
fn mounted_volume_cannot_be_deleted() {
    let mut m = MockContainerManager::new();
    m.create_volume_at("data", 1).unwrap();
    let id = m.create_container_with_volumes("img", "db", vec![], vec![], &vec![("data".to_string(), "/d".to_string())]).unwrap();
    let c = m.list_containers().unwrap().into_iter().find(|c| c.id == id).unwrap();
    assert_eq!(c.volumes.len(), 1);
    assert_eq!(c.volumes[0].name, "data");
    assert_eq!(c.volumes[0].path, "/d");
    match m.delete_volume("data") {
        Err(RuntimeError::VolumeInUse { volume, container_name, container_id }) => {
            assert_eq!(volume, "data");
            assert_eq!(container_name, "db");
            assert_eq!(container_id, id);
        },
        other => panic!("unexpected {:?}", other),
    }
    assert_eq!(
        m.create_container_with_volumes("img", "x", vec![], vec![], &vec![("nope".to_string(), "/n".to_string())]),
        Err(RuntimeError::VolumeNotFound("nope".to_string()))
    );
}

#[test]
fn backup_round_trip() {
    let mut m = MockContainerManager::new();
    m.create_volume_at("data", 7).unwrap();
    let text = m.backup_text("data").unwrap();
    assert_eq!(
        text,
        "MOCK_VOLUME_BACKUP\nname=data\npath=/var/lib/hivemind/volumes/data\nsize=1073741824\ncreated_at=7\n"
    );
    m.delete_volume("data").unwrap();
    assert_eq!(m.restore_volume_at("data", &text, 9), Ok(()));
    assert_eq!(m.list_volumes().unwrap()[0].created_at, 9);
    assert_eq!(m.restore_volume_at("x", "garbage", 9), Err(RuntimeError::InvalidBackup));
    assert_eq!(m.backup_text("zzz"), Err(RuntimeError::VolumeNotFound("zzz".to_string())));
}

#[test]
fn runtime_error_messages() {
    assert_eq!(RuntimeError::ContainerNotFound("c".to_string()).message(), "Container c not found");
    assert_eq!(RuntimeError::VolumeNotFound("v".to_string()).message(), "Volume 'v' not found");
    assert_eq!(RuntimeError::EmptyVolumeName.message(), "Volume name cannot be empty");
    assert_eq!(
        RuntimeError::VolumeInUse { volume: "v".to_string(), container_name: "n".to_string(), container_id: "i".to_string() }
            .message(),
        "Cannot delete volume 'v' because it is in use by container n (i)"
    );
    assert_eq!(RuntimeError::InvalidBackup.message(), "Invalid backup file format");
}

#[test]
fn wrappers_of_std_and_uuid() {
    assert!(is_alphanumeric('a'));
    assert!(is_alphanumeric('7'));
    assert!(!is_alphanumeric('-'));
    let a = new_uuid();
    let b = new_uuid();
    assert_eq!(a.len(), 36);
    assert_ne!(a, b);
    assert!(unix_now() > 1_600_000_000);
}

#[test]
fn ports_are_kept() {
    let mut m = MockContainerManager::new();
    let p = PortMapping { container_port: 80, host_port: 8080, protocol: "tcp".to_string() };
    m.create_container_with_id("c1".to_string(), "img", "a", vec![], vec![p], vec![], 1);
    let c = &m.list_containers().unwrap()[0];
    assert_eq!(c.ports[0].host_port, 8080);
}
