//! Image configuration: port parsing, the final command, and the
//! environment merge.

use boxlite::image_config::{ContainerImageConfig, OciConfigData};

#[test]
fn test_parse_exposed_port() {
    assert_eq!(ContainerImageConfig::parse_exposed_port("8080/tcp"), Some((8080, "tcp")));
    assert_eq!(ContainerImageConfig::parse_exposed_port("53/udp"), Some((53, "udp")));
    assert_eq!(ContainerImageConfig::parse_exposed_port("8080"), Some((8080, "tcp")));
    assert_eq!(ContainerImageConfig::parse_exposed_port("invalid"), None);
}

#[test]
fn parse_exposed_port_edges() {
    assert_eq!(ContainerImageConfig::parse_exposed_port("65535/tcp"), Some((65535, "tcp")));
    assert_eq!(ContainerImageConfig::parse_exposed_port("65536/tcp"), None);
    assert_eq!(ContainerImageConfig::parse_exposed_port(""), None);
    assert_eq!(ContainerImageConfig::parse_exposed_port("/tcp"), None);
    assert_eq!(ContainerImageConfig::parse_exposed_port("80/sctp/x"), Some((80, "sctp")));
}

fn config_with_ports(ports: Vec<&str>) -> ContainerImageConfig {
    let mut config = ContainerImageConfig::default();
    config.exposed_ports = ports.into_iter().map(|s| s.to_string()).collect();
    config
}

#[test]
fn test_tcp_ports() {
    let config = config_with_ports(vec!["8080/tcp", "443/tcp", "53/udp"]);
    assert_eq!(config.tcp_ports(), vec![8080, 443]);
}

#[test]
fn test_udp_ports() {
    let config = config_with_ports(vec!["8080/tcp", "53/udp", "123/udp"]);
    assert_eq!(config.udp_ports(), vec![53, 123]);
}

fn config_with_cmd(entrypoint: Vec<&str>, cmd: Vec<&str>) -> ContainerImageConfig {
    let mut config = ContainerImageConfig::default();
    config.entrypoint = entrypoint.into_iter().map(|s| s.to_string()).collect();
    config.cmd = cmd.into_iter().map(|s| s.to_string()).collect();
    config
}

#[test]
fn test_final_cmd() {
    let config = config_with_cmd(vec!["dockerd-entrypoint.sh"], vec!["--iptables=false"]);
    assert_eq!(config.final_cmd(), vec!["dockerd-entrypoint.sh", "--iptables=false"]);
}

#[test]
fn test_final_cmd_empty_cmd() {
    let config = config_with_cmd(vec!["/bin/sh"], vec![]);
    assert_eq!(config.final_cmd(), vec!["/bin/sh"]);
}

#[test]
fn test_final_cmd_empty_entrypoint() {
    let config = config_with_cmd(vec![], vec!["echo", "hello"]);
    assert_eq!(config.final_cmd(), vec!["echo", "hello"]);
}

#[test]
fn test_final_cmd_multiple_cmd_args() {
    let config = config_with_cmd(vec!["python"], vec!["-m", "http.server", "8080"]);
    assert_eq!(config.final_cmd(), vec!["python", "-m", "http.server", "8080"]);
}

#[test]
fn test_final_cmd_both_empty() {
    let config = config_with_cmd(vec![], vec![]);
    assert!(config.final_cmd().is_empty());
}

fn config_with_env(env: Vec<&str>) -> ContainerImageConfig {
    let mut config = ContainerImageConfig::default();
    config.env = env.into_iter().map(|s| s.to_string()).collect();
    config
}

#[test]
fn test_merge_env_user_overrides_image() {
    let mut config = config_with_env(vec!["PATH=/usr/bin", "HOME=/root"]);
    config.merge_env(vec![("HOME".to_string(), "/home/user".to_string())]);
    assert!(config.env.contains(&"HOME=/home/user".to_string()));
    assert!(!config.env.contains(&"HOME=/root".to_string()));
    assert!(config.env.contains(&"PATH=/usr/bin".to_string()));
}

#[test]
fn test_merge_env_adds_new_vars() {
    let mut config = config_with_env(vec!["PATH=/usr/bin"]);
    config.merge_env(vec![("FOO".to_string(), "bar".to_string())]);
    assert!(config.env.contains(&"FOO=bar".to_string()));
    assert!(config.env.contains(&"PATH=/usr/bin".to_string()));
}

#[test]
fn test_merge_env_empty_user_env() {
    let mut config = config_with_env(vec!["PATH=/usr/bin"]);
    config.merge_env(vec![]);
    assert_eq!(config.env, vec!["PATH=/usr/bin"]);
}

#[test]
fn test_merge_env_result_is_sorted() {
    let mut config = config_with_env(vec!["ZZZ=last", "AAA=first"]);
    config.merge_env(vec![("MMM".to_string(), "middle".to_string())]);
    assert_eq!(config.env, vec!["AAA=first", "MMM=middle", "ZZZ=last"]);
}

#[test]
fn merge_env_duplicate_image_keys() {
    // Later image entries override earlier ones before the user applies.
    let mut config = config_with_env(vec!["K=old", "K=new"]);
    config.merge_env(vec![]);
    assert_eq!(config.env, vec!["K=new"]);
}

#[test]
fn test_default_config_values() {
    let config = ContainerImageConfig::default();
    assert_eq!(config.entrypoint, vec!["/bin/sh"]);
    assert!(config.cmd.is_empty());
    assert_eq!(config.user, "0:0");
    assert_eq!(config.working_dir, "/");
    assert!(config.exposed_ports.is_empty());
    assert!(!config.env.is_empty());
}

#[test]
fn from_oci_config_defaults() {
    let data = OciConfigData {
        entrypoint: None,
        cmd: Some(vec!["sh".to_string()]),
        user: Some(String::new()),
        env: None,
        working_dir: None,
        exposed_ports: None,
    };
    let config = ContainerImageConfig::from_oci_config(&Some(data)).unwrap();
    assert!(config.entrypoint.is_empty());
    assert_eq!(config.cmd, vec!["sh"]);
    assert_eq!(config.user, "0:0");
    assert!(config.env.is_empty());
    assert_eq!(config.working_dir, "/");
    assert!(config.exposed_ports.is_empty());

    let missing = ContainerImageConfig::from_oci_config(&None);
    assert!(missing.is_err());
    assert!(missing.unwrap_err().message().contains("Config object missing"));
}
