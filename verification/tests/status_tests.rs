use hivemind::containers::ContainerStatus;
use hivemind::logging::{log_cache_update, LogLevel};

#[test]
fn container_status_round_trip() {
    for s in [
        ContainerStatus::Running,
        ContainerStatus::Stopped,
        ContainerStatus::Failed,
        ContainerStatus::Pending,
        ContainerStatus::Restarting,
    ] {
        assert_eq!(ContainerStatus::from_str(s.as_str()), s);
    }
    assert_eq!(ContainerStatus::from_str("bogus"), ContainerStatus::Pending);
}

#[test]
fn cache_update_record() {
    let r = log_cache_update("t1");
    assert_eq!(r.level, LogLevel::Debug);
    assert_eq!(r.message, "Updated resource usage cache for tenant t1");
}
