use blipmq::assoc::StrMap;
use blipmq::health::{
    ComponentHealth, FileSystemHealthChecker, HealthChecker, HealthMonitor, HealthStatus, MemoryHealthChecker,
};

struct MockHealthChecker {
    name: String,
    status: HealthStatus,
}

impl MockHealthChecker {
    fn new(name: &str, status: HealthStatus) -> Self {
        MockHealthChecker { name: name.to_string(), status }
    }
}

impl HealthChecker for MockHealthChecker {
    fn check_health(&self) -> ComponentHealth {
        ComponentHealth {
            component: self.name.clone(),
            status: self.status,
            message: None,
            last_checked: 1,
            response_time_ms: 10,
            metadata: StrMap::new(),
        }
    }

    fn component_name(&self) -> String {
        self.name.clone()
    }
}

#[test]
fn test_health_monitor_all_healthy() {
    let mut monitor = HealthMonitor::new();
    monitor.register_checker(MockHealthChecker::new("test1", HealthStatus::Healthy));
    monitor.register_checker(MockHealthChecker::new("test2", HealthStatus::Healthy));
    let report = monitor.check_health();
    assert_eq!(report.overall_status, HealthStatus::Healthy);
    assert_eq!(report.summary.total_components, 2);
    assert_eq!(report.summary.healthy_components, 2);
}

#[test]
fn test_health_monitor_with_warning() {
    let mut monitor = HealthMonitor::new();
    monitor.register_checker(MockHealthChecker::new("test1", HealthStatus::Healthy));
    monitor.register_checker(MockHealthChecker::new("test2", HealthStatus::Warning));
    let report = monitor.check_health();
    assert_eq!(report.overall_status, HealthStatus::Warning);
    assert_eq!(report.summary.healthy_components, 1);
    assert_eq!(report.summary.warning_components, 1);
}

#[test]
fn test_health_monitor_critical() {
    let mut monitor = HealthMonitor::new();
    monitor.register_checker(MockHealthChecker::new("test1", HealthStatus::Healthy));
    monitor.register_checker(MockHealthChecker::new("test2", HealthStatus::Critical));
    let report = monitor.check_health();
    assert_eq!(report.overall_status, HealthStatus::Critical);
    assert_eq!(report.summary.healthy_components, 1);
    assert_eq!(report.summary.critical_components, 1);
}

#[test]
fn test_disabled_health_monitor() {
    let mut monitor: HealthMonitor<MockHealthChecker> = HealthMonitor::new();
    monitor.set_enabled(false);
    let report = monitor.check_health();
    assert_eq!(report.overall_status, HealthStatus::Unavailable);
    assert_eq!(report.summary.total_components, 0);
    assert!(!monitor.readiness_check());
}

#[test]
fn test_memory_health_checker() {
    let checker = MemoryHealthChecker::new(1000);
    let health = checker.check_usage(Some(100), 1, 5);
    assert!(health.status == HealthStatus::Healthy || health.status == HealthStatus::Warning);
    assert_eq!(health.component, "memory");
    let high = checker.check_usage(Some(950), 1, 5);
    assert_ne!(high.status, HealthStatus::Healthy);
}

#[test]
fn test_filesystem_health_checker() {
    let checker = FileSystemHealthChecker::new(vec!["/".to_string()]);
    let health = checker.check_outcome(None, 1, 5);
    assert_eq!(health.status, HealthStatus::Healthy);
    assert_eq!(health.component, "filesystem");
    let failed = checker.check_outcome(Some(("/nope".to_string(), "missing".to_string())), 1, 5);
    assert_eq!(failed.status, HealthStatus::Critical);
}

#[test]
fn memory_usage_from_status_text() {
    let c = blipmq::health::MemoryHealthChecker::new(512);
    let text = "Name:\tblipmq\nVmPeak:\t  999 kB\nVmRSS:\t   204800 kB\r\nThreads:\t4\n";
    assert_eq!(blipmq::health::vmrss_kb(text), Some(204800));
    assert_eq!(c.get_memory_usage_mb(Some(text)), Some(200));
    assert_eq!(blipmq::health::vmrss_kb("VmRSS: lots kB\nVmRSS: 2048 kB"), Some(2048));
    assert_eq!(c.get_memory_usage_mb(Some("Name: x\n")), Some(100));
    assert_eq!(c.get_memory_usage_mb(None), Some(100));
}
