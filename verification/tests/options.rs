//! Options: defaults, validation, and the JSON round trip.

use boxlite::errors::BoxliteError;
use boxlite::json::{parse_json_text, to_json_text};
use boxlite::options::{BoxOptions, PortProtocol, RootfsSpec, SecurityOptions};
use boxlite::options_json::{box_options_from_json, box_options_to_json};

#[test]
fn test_box_options_defaults() {
    let opts = BoxOptions::default();
    assert!(opts.auto_remove, "auto_remove should default to true");
    assert!(!opts.detach, "detach should default to false");
}

#[test]
fn test_box_options_serde_defaults() {
    // Missing fields take their documented defaults.
    let json = r#"{
        "rootfs": {"Image": "alpine:latest"},
        "env": [],
        "volumes": [],
        "network": "Isolated",
        "ports": []
    }"#;
    let value = parse_json_text(json).unwrap();
    let opts = box_options_from_json(&value).unwrap();
    assert!(opts.auto_remove, "auto_remove should default to true");
    assert!(!opts.detach, "detach should default to false");
}

#[test]
fn test_box_options_serde_explicit_values() {
    let json = r#"{
        "rootfs": {"Image": "alpine"},
        "env": [],
        "volumes": [],
        "network": "Isolated",
        "ports": [],
        "auto_remove": false,
        "detach": true
    }"#;
    let value = parse_json_text(json).unwrap();
    let opts = box_options_from_json(&value).unwrap();
    assert!(!opts.auto_remove, "explicit auto_remove=false should be respected");
    assert!(opts.detach, "explicit detach=true should be respected");
}

#[test]
fn test_box_options_roundtrip() {
    let mut opts = BoxOptions::default();
    opts.auto_remove = false;
    opts.detach = true;

    let value = box_options_to_json(&opts);
    let text = to_json_text(&value);
    let parsed = parse_json_text(&text).unwrap();
    let opts2 = box_options_from_json(&parsed).unwrap();

    assert_eq!(opts.auto_remove, opts2.auto_remove);
    assert_eq!(opts.detach, opts2.detach);
    assert_eq!(opts.cpus, opts2.cpus);
    assert_eq!(opts.memory_mib, opts2.memory_mib);
    match (&opts.rootfs, &opts2.rootfs) {
        (RootfsSpec::Image(a), RootfsSpec::Image(b)) => assert_eq!(a, b),
        _ => panic!("rootfs variant changed in the round trip"),
    }
    assert_eq!(opts.security.chroot_base, opts2.security.chroot_base);
    assert_eq!(opts.security.env_allowlist, opts2.security.env_allowlist);
}

#[test]
fn box_options_roundtrip_full() {
    // Every field set to a non-default value survives the round trip.
    let mut opts = BoxOptions::default();
    opts.cpus = Some(4);
    opts.memory_mib = Some(2048);
    opts.disk_size_gb = Some(20);
    opts.working_dir = Some("/work".to_string());
    opts.env = vec![("A".to_string(), "1".to_string()), ("B".to_string(), "2".to_string())];
    opts.rootfs = RootfsSpec::RootfsPath("/rootfs".to_string());
    opts.volumes = vec![boxlite::options::VolumeSpec {
        host_path: "/host".to_string(),
        guest_path: "/guest".to_string(),
        read_only: true,
    }];
    opts.ports = vec![boxlite::options::PortSpec {
        host_port: Some(8080),
        guest_port: 80,
        protocol: PortProtocol::Udp,
        host_ip: Some("127.0.0.1".to_string()),
    }];
    opts.isolate_mounts = true;
    opts.auto_remove = false;
    opts.detach = true;
    opts.security = SecurityOptions::maximum();

    let value = box_options_to_json(&opts);
    let text = to_json_text(&value);
    let parsed = parse_json_text(&text).unwrap();
    let opts2 = box_options_from_json(&parsed).unwrap();

    assert_eq!(opts2.cpus, Some(4));
    assert_eq!(opts2.memory_mib, Some(2048));
    assert_eq!(opts2.disk_size_gb, Some(20));
    assert_eq!(opts2.working_dir.as_deref(), Some("/work"));
    assert_eq!(opts2.env.len(), 2);
    assert_eq!(opts2.env[0].0, "A");
    assert_eq!(opts2.env[1].1, "2");
    match &opts2.rootfs {
        RootfsSpec::RootfsPath(p) => assert_eq!(p, "/rootfs"),
        _ => panic!("rootfs variant changed"),
    }
    assert_eq!(opts2.volumes.len(), 1);
    assert!(opts2.volumes[0].read_only);
    assert_eq!(opts2.ports.len(), 1);
    assert_eq!(opts2.ports[0].host_port, Some(8080));
    assert_eq!(opts2.ports[0].guest_port, 80);
    assert!(matches!(opts2.ports[0].protocol, PortProtocol::Udp));
    assert_eq!(opts2.ports[0].host_ip.as_deref(), Some("127.0.0.1"));
    assert!(opts2.isolate_mounts);
    assert!(!opts2.auto_remove);
    assert!(opts2.detach);
    assert_eq!(opts2.security.uid, Some(65534));
    assert_eq!(opts2.security.resource_limits.max_open_files, Some(1024));
    assert_eq!(opts2.security.env_allowlist, vec!["RUST_LOG".to_string()]);
}

#[test]
fn test_sanitize_auto_remove_detach_incompatible() {
    let mut opts = BoxOptions::default();
    opts.auto_remove = true;
    opts.detach = true;
    let result = opts.sanitize();
    assert!(result.is_err(), "auto_remove=true + detach=true should fail");
    let err_msg = result.unwrap_err().message();
    assert!(err_msg.contains("incompatible"), "Error should mention incompatibility");
}

#[test]
fn test_sanitize_valid_combinations() {
    let mut opts1 = BoxOptions::default();
    opts1.auto_remove = true;
    opts1.detach = false;
    assert!(opts1.sanitize().is_ok());

    let mut opts2 = BoxOptions::default();
    opts2.auto_remove = false;
    opts2.detach = true;
    assert!(opts2.sanitize().is_ok());

    let mut opts3 = BoxOptions::default();
    opts3.auto_remove = false;
    opts3.detach = false;
    assert!(opts3.sanitize().is_ok());
}

#[test]
fn sanitize_rejection_is_invalid_argument() {
    let mut opts = BoxOptions::default();
    opts.auto_remove = true;
    opts.detach = true;
    match opts.sanitize() {
        Err(BoxliteError::InvalidArgument(_)) => {}
        other => panic!("expected an invalid-argument error, got {:?}", other),
    }
}

#[test]
fn security_presets() {
    let dev = SecurityOptions::development();
    assert!(!dev.jailer_enabled && !dev.seccomp_enabled && !dev.chroot_enabled);
    assert!(!dev.close_fds && !dev.sanitize_env);

    let std_opts = SecurityOptions::standard();
    assert!(std_opts.jailer_enabled && std_opts.seccomp_enabled);

    let max = SecurityOptions::maximum();
    assert!(max.jailer_enabled && max.new_pid_ns && !max.new_net_ns);
    assert_eq!(max.uid, Some(65534));
    assert_eq!(max.gid, Some(65534));
    assert_eq!(max.resource_limits.max_file_size, Some(1024 * 1024 * 1024));
    assert_eq!(max.resource_limits.max_processes, Some(100));
    assert!(SecurityOptions::is_full_isolation_available());
}
