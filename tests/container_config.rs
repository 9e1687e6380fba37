use spec_agent::container_config::ContainerConfig;

#[test]
fn test_default_config() {
    let config = ContainerConfig::default();
    assert!(config.validate().is_ok());
}

#[test]
fn test_full_image_name() {
    let config = ContainerConfig::default();
    assert_eq!(config.full_image_name(), "nvim-spec-agent:latest");
}

#[test]
fn test_grpc_endpoint() {
    let config = ContainerConfig::default();
    assert_eq!(config.grpc_endpoint(), "http://localhost:50051");
}

#[test]
fn test_validation() {
    let mut config = ContainerConfig::default();
    assert!(config.validate().is_ok());

    config.image = String::new();
    assert!(config.validate().is_err());

    config.image = "nvim-spec-agent".to_string();
    config.resource_limits.memory_mb = 100;
    assert!(config.validate().is_err());
}

#[test]
fn validation_reports_first_problem() {
    let mut config = ContainerConfig::default();
    config.tag = String::new();
    config.ports.clear();
    assert_eq!(config.validate(), Err("Image tag cannot be empty".to_string()));
    config.tag = "v1".to_string();
    assert_eq!(config.validate(), Err("At least one port mapping is required".to_string()));
    let mut config = ContainerConfig::default();
    config.container_name = String::new();
    assert_eq!(config.validate(), Err("Container name cannot be empty".to_string()));
    let mut config = ContainerConfig::default();
    config.resource_limits.memory_mb = 255;
    assert_eq!(config.validate(), Err("Memory limit must be at least 256 MB".to_string()));
    config.resource_limits.memory_mb = 256;
    assert!(config.validate().is_ok());
}

#[test]
fn grpc_endpoint_follows_first_port() {
    let mut config = ContainerConfig::default();
    config.ports[0].host_port = 8080;
    assert_eq!(config.grpc_endpoint(), "http://localhost:8080");
    config.ports.clear();
    assert_eq!(config.grpc_endpoint(), "http://localhost:50051");
    config.image = "img".to_string();
    config.tag = "1.2".to_string();
    assert_eq!(config.full_image_name(), "img:1.2");
}
