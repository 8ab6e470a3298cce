//! The config stage's pure parts, JSON rendering, disk sizing, the
//! schema, and the guest command.

use boxlite::command::{parse_user_for_exec, ContainerCommand};
use boxlite::disk::{calculate_dir_size, calculate_disk_size, mke2fs_args, FsEntry};
use boxlite::cli_flags::merge_registries;
use boxlite::disk::dir_size_or_default;
use boxlite::guest_rootfs::{CleanupAction, GuestRootfs, Strategy};
use boxlite::init_config::plan_init_disk;
use boxlite::options_json::{box_options_from_json, runtime_options_from_json};
use boxlite::image_config::ContainerImageConfig;
use boxlite::init_config::{
    build_guest_entrypoint, build_volume_config, plan_disks, resolve_user_volumes,
    BlockDeviceManager, DiskFormat, DiskPlan, RootfsPrepResult, Transport,
};
use boxlite::json::{parse_json_text, to_json_text, JsonValue};
use boxlite::options::{BoxOptions, PortSpec, VolumeSpec};
use boxlite::ports::setup_networking;
use boxlite::schema::{all_schemas, schema_action, SchemaAction, SCHEMA_VERSION};

#[test]
fn port_map_user_overrides_image_default() {
    // The image exposes 8080; the user maps guest port 8080 from host
    // 9090: the image's identity mapping for 8080 is gone.
    let mut config = ContainerImageConfig::default();
    config.exposed_ports = vec!["8080/tcp".to_string(), "443/tcp".to_string()];
    let mut opts = BoxOptions::default();
    opts.ports = vec![PortSpec {
        host_port: Some(9090),
        guest_port: 8080,
        protocol: boxlite::options::PortProtocol::Tcp,
        host_ip: None,
    }];
    let plan = setup_networking(&config, &opts);
    let mut fixed = plan.fixed;
    fixed.sort();
    assert_eq!(fixed, vec![(443, 443), (9090, 8080)]);
    assert!(!fixed.contains(&(8080, 8080)), "the image default for 8080 must be gone");
    assert!(plan.dynamic_guest_ports.is_empty());
}

#[test]
fn port_map_dynamic_host_port() {
    // A mapping without a host port is a dynamic request: the backend
    // assigns its host port, and no fixed pair is written for it.
    let config = ContainerImageConfig::default();
    let mut opts = BoxOptions::default();
    opts.ports = vec![PortSpec {
        host_port: None,
        guest_port: 8000,
        protocol: boxlite::options::PortProtocol::Tcp,
        host_ip: None,
    }];
    let plan = setup_networking(&config, &opts);
    assert!(plan.fixed.is_empty());
    assert_eq!(plan.dynamic_guest_ports, vec![8000]);
}

#[test]
fn dynamic_request_still_overrides_image_default() {
    // The image exposes 8000; the user asks for a dynamic mapping of
    // guest 8000: the fixed identity default must be gone.
    let mut config = ContainerImageConfig::default();
    config.exposed_ports = vec!["8000/tcp".to_string()];
    let mut opts = BoxOptions::default();
    opts.ports = vec![PortSpec {
        host_port: None,
        guest_port: 8000,
        protocol: boxlite::options::PortProtocol::Tcp,
        host_ip: None,
    }];
    let plan = setup_networking(&config, &opts);
    assert!(plan.fixed.is_empty(), "no fixed pair may remain for guest port 8000");
    assert_eq!(plan.dynamic_guest_ports, vec![8000]);
}

#[test]
fn guest_entrypoint_env_merge() {
    // Init env first, user env wins per key, host RUST_LOG forwarded when
    // unset.
    let transport = Transport::unix("/run/portal.sock".to_string());
    let ready = Transport::unix("/run/ready.sock".to_string());
    let init_env = vec![
        ("PATH".to_string(), "/bin".to_string()),
        ("HOME".to_string(), "/root".to_string()),
    ];
    let mut opts = BoxOptions::default();
    opts.env = vec![("HOME".to_string(), "/home/user".to_string())];
    let ep = build_guest_entrypoint(&transport, &ready, &init_env, &opts, &Some("debug".to_string()));
    assert_eq!(ep.executable, "/usr/local/bin/boxlite-guest");
    assert_eq!(ep.args, vec!["--listen", "unix:///run/portal.sock", "--notify", "unix:///run/ready.sock"]);
    assert_eq!(
        ep.env,
        vec![
            ("PATH".to_string(), "/bin".to_string()),
            ("HOME".to_string(), "/home/user".to_string()),
            ("RUST_LOG".to_string(), "debug".to_string()),
        ]
    );

    // An existing RUST_LOG is not overridden by the host's.
    let mut opts2 = BoxOptions::default();
    opts2.env = vec![("RUST_LOG".to_string(), "trace".to_string())];
    let ep2 = build_guest_entrypoint(&transport, &ready, &init_env, &opts2, &Some("debug".to_string()));
    assert!(ep2.env.contains(&("RUST_LOG".to_string(), "trace".to_string())));
    assert!(!ep2.env.contains(&("RUST_LOG".to_string(), "debug".to_string())));
}

#[test]
fn volume_config_mounts() {
    let vols = vec![VolumeSpec {
        host_path: "/data".to_string(),
        guest_path: "/mnt".to_string(),
        read_only: true,
    }];
    let resolved = resolve_user_volumes(&vols);
    assert_eq!(resolved.len(), 1);
    assert_eq!(resolved[0].tag, "vol0");
    let mounts = build_volume_config(
        "/home/box/rw".to_string(),
        &RootfsPrepResult::Merged("/home/box/merged".to_string()),
        &resolved,
    );
    let ms = &mounts.mounts;
    assert_eq!(ms.len(), 3);
    assert_eq!((ms[0].tag.as_str(), ms[0].read_only), ("rw", false));
    assert_eq!((ms[1].tag.as_str(), ms[1].host_path.as_str()), ("rootfs", "/home/box/merged"));
    assert_eq!((ms[2].tag.as_str(), ms[2].host_path.as_str(), ms[2].read_only), ("vol0", "/data", true));

    // A disk-backed rootfs contributes no rootfs mount.
    let disk_mounts = build_volume_config(
        "/home/box/rw".to_string(),
        &RootfsPrepResult::DiskImage { base_disk_path: "/base.img".to_string(), disk_size: 1024 },
        &resolved,
    );
    assert_eq!(disk_mounts.mounts.len(), 2);
}

#[test]
fn block_devices_get_unique_paths() {
    let mut mgr = BlockDeviceManager::new();
    let d0 = mgr.add_disk("/a.qcow2".to_string(), DiskFormat::Qcow2);
    let d1 = mgr.add_disk("/b.qcow2".to_string(), DiskFormat::Qcow2);
    let d2 = mgr.add_disk("/c.img".to_string(), DiskFormat::Raw);
    assert_eq!(d0, "/dev/vda");
    assert_eq!(d1, "/dev/vdb");
    assert_eq!(d2, "/dev/vdc");
    let disks = mgr.build();
    assert_eq!(disks.len(), 3);
    assert_eq!(disks[1].path, "/b.qcow2");
    assert_eq!(disks[2].device_path, "/dev/vdc");
}

#[test]
fn disk_plans() {
    let (plan, formatted) = plan_disks(
        &RootfsPrepResult::DiskImage { base_disk_path: "/base".to_string(), disk_size: 7 },
        false,
    );
    assert!(matches!(plan, DiskPlan::RootfsCow { .. }));
    assert!(!formatted);

    let (plan, formatted) = plan_disks(&RootfsPrepResult::Merged("/m".to_string()), true);
    assert!(matches!(plan, DiskPlan::CowChild));
    assert!(formatted);

    let (plan, formatted) = plan_disks(&RootfsPrepResult::Merged("/m".to_string()), false);
    assert!(matches!(plan, DiskPlan::Empty));
    assert!(!formatted);
}

#[test]
fn guest_rootfs_cleanup() {
    let direct = GuestRootfs::new("/r".to_string(), Strategy::Direct, None, None, vec![]);
    assert!(matches!(direct.cleanup_action(), CleanupAction::Nothing));
    assert!(direct.needs_guest_binary());

    let extracted = GuestRootfs::new(
        "/x/merged".to_string(),
        Strategy::Extracted { layers: 3 },
        None,
        None,
        vec![],
    );
    match extracted.cleanup_action() {
        CleanupAction::RemoveParentDir(p) => assert_eq!(p, "/x/merged"),
        other => panic!("expected a removal action, got {:?}", other),
    }

    let disk = GuestRootfs::new(
        "/d".to_string(),
        Strategy::Disk { disk_path: "/d.img".to_string(), device_path: None },
        None,
        None,
        vec![],
    );
    assert!(matches!(disk.cleanup_action(), CleanupAction::Nothing));
    assert!(!disk.needs_guest_binary());
}

#[test]
fn json_text_rendering() {
    let v = JsonValue::Obj(vec![
        ("a".to_string(), JsonValue::Int(-3)),
        ("b".to_string(), JsonValue::Str("x\"y".to_string())),
        ("c".to_string(), JsonValue::Arr(vec![JsonValue::Bool(true), JsonValue::Null])),
    ]);
    assert_eq!(to_json_text(&v), "{\"a\":-3,\"b\":\"x\\\"y\",\"c\":[true,null]}");
}

#[test]
fn json_parse_roundtrip() {
    // Through the JSON library and back: the parsed tree matches what was
    // serialized, so the parse wrapper cannot just echo its input.
    let text = "{\"n\":42,\"s\":\"hi\",\"l\":[1,2]}";
    let v = parse_json_text(text).unwrap();
    match &v {
        JsonValue::Obj(fields) => {
            assert!(fields.iter().any(|(k, val)| k == "n" && matches!(val, JsonValue::Int(42))));
            assert!(fields.iter().any(|(k, val)| k == "s" && matches!(val, JsonValue::Str(s) if s == "hi")));
        }
        other => panic!("expected an object, got {:?}", other),
    }
    assert!(parse_json_text("not json").is_none());
}

#[test]
fn dir_and_disk_sizes() {
    let entries = vec![FsEntry::File(0), FsEntry::File(5000), FsEntry::Dir, FsEntry::Other];
    // blocks: 1 + 2 + 1 + 0 = 4; bytes: 4*4096 + 4*256 = 17408
    assert_eq!(calculate_dir_size(&entries), 17408);

    // Small trees land on the one-gigabyte floor.
    assert_eq!(calculate_disk_size(17408), 1024 * 1024 * 1024);
    // Large trees get doubled plus the base overhead.
    assert_eq!(calculate_disk_size(2_000_000_000), 4_000_000_000 + 256 * 1024 * 1024);
}

#[test]
fn mke2fs_argument_list() {
    let args = mke2fs_args("/src", "/out.img", 8192);
    assert_eq!(
        args,
        vec!["-t", "ext4", "-d", "/src", "-E", "root_owner=0:0", "-F", "/out.img", "2"]
    );
}

#[test]
fn schema_statements_and_gate() {
    let schemas = all_schemas();
    assert_eq!(schemas.len(), 4);
    assert!(schemas[0].contains("schema_version"));
    assert!(schemas[1].contains("box_config"));
    assert!(schemas[1].contains("name TEXT UNIQUE"));
    assert!(schemas[2].contains("box_state"));
    assert!(schemas[3].contains("alive"));
    assert_eq!(schema_action(None), SchemaAction::ApplyFullSchema);
    assert_eq!(schema_action(Some(SCHEMA_VERSION)), SchemaAction::UpToDate);
    assert_eq!(schema_action(Some(SCHEMA_VERSION - 1)), SchemaAction::VersionMismatch);
    assert_eq!(schema_action(Some(SCHEMA_VERSION + 1)), SchemaAction::VersionMismatch);
}

#[test]
fn container_command_builder() {
    let cmd = ContainerCommand::new(
        "box-1".to_string(),
        "/state".to_string(),
        vec![("PATH".to_string(), "/bin".to_string())],
        "0:0".to_string(),
    )
    .program("ls".to_string())
    .arg("-l".to_string())
    .arg("-a".to_string())
    .env("FOO".to_string(), "bar".to_string())
    .current_dir("/home".to_string());
    let args = cmd.container_args();
    assert_eq!(args, vec!["ls", "-l", "-a"]);
    assert_eq!(cmd.cwd.as_deref(), Some("/home"));
    assert!(cmd.env.contains(&("FOO".to_string(), "bar".to_string())));

    let bare = ContainerCommand::new("b".to_string(), "/s".to_string(), vec![], String::new());
    assert_eq!(bare.container_args(), vec![""]);
}

#[test]
fn user_string_parsing() {
    assert_eq!(parse_user_for_exec("1000:1000"), (Some(1000), Some(1000)));
    assert_eq!(parse_user_for_exec("1000"), (Some(1000), None));
    assert_eq!(parse_user_for_exec(""), (None, None));
    assert_eq!(parse_user_for_exec("nginx"), (None, None));
    assert_eq!(parse_user_for_exec("0:0"), (Some(0), Some(0)));
    assert_eq!(parse_user_for_exec("12:"), (Some(12), None));
}

#[test]
fn init_disk_planning() {
    let mut mgr = BlockDeviceManager::new();
    let (updated, plan) = plan_init_disk(
        Strategy::Disk { disk_path: "/cache/init.ext4".to_string(), device_path: None },
        "/home/boxes/b1".to_string(),
        512 * 1024 * 1024,
        &mut mgr,
    );
    let plan = plan.unwrap();
    assert_eq!(plan.base_disk_path, "/cache/init.ext4");
    assert_eq!(plan.child_disk_path, "/home/boxes/b1/init.qcow2");
    assert_eq!(plan.size, 512 * 1024 * 1024);
    match updated {
        Strategy::Disk { disk_path, device_path } => {
            assert_eq!(disk_path, "/home/boxes/b1/init.qcow2");
            assert_eq!(device_path.as_deref(), Some("/dev/vda"));
        }
        other => panic!("expected a disk strategy, got {:?}", other),
    }
    assert_eq!(mgr.disks.len(), 1);

    let mut mgr2 = BlockDeviceManager::new();
    let (same, none) = plan_init_disk(Strategy::Direct, "/x".to_string(), 7, &mut mgr2);
    assert!(matches!(same, Strategy::Direct));
    assert!(none.is_none());
    assert!(mgr2.disks.is_empty());
}

#[test]
fn dir_size_fallback() {
    assert_eq!(dir_size_or_default(Some(123)), 123);
    assert_eq!(dir_size_or_default(None), 64 * 1024 * 1024);
}

#[test]
fn registries_merge_cli_first() {
    let cli = vec!["invalid.x".to_string(), "docker.io".to_string()];
    let config = vec!["ghcr.io".to_string()];
    assert_eq!(merge_registries(&cli, &config), vec!["invalid.x", "docker.io", "ghcr.io"]);
    assert_eq!(merge_registries(&vec![], &config), vec!["ghcr.io"]);
}

#[test]
fn runtime_options_config_file() {
    let v = parse_json_text(r#"{"home_dir": "/custom/home", "image_registries": ["docker.io"], "extra": 1}"#)
        .unwrap();
    let o = runtime_options_from_json(&v, "/default".to_string());
    assert_eq!(o.home_dir, "/custom/home");
    assert_eq!(o.image_registries, vec!["docker.io"]);

    let empty = parse_json_text("{}").unwrap();
    let o2 = runtime_options_from_json(&empty, "/default".to_string());
    assert_eq!(o2.home_dir, "/default");
    assert!(o2.image_registries.is_empty());

    // an ill-typed field falls back to its default instead of failing
    let odd = parse_json_text(r#"{"home_dir": 3, "image_registries": "nope"}"#).unwrap();
    let o3 = runtime_options_from_json(&odd, "/default".to_string());
    assert_eq!(o3.home_dir, "/default");
    assert!(o3.image_registries.is_empty());
}

#[test]
fn decoder_refuses_bad_shapes() {
    // a required field is missing
    let missing = parse_json_text(r#"{"env": [], "volumes": [], "network": "Isolated", "ports": []}"#)
        .unwrap();
    assert!(box_options_from_json(&missing).is_none());
    // a field has the wrong type
    let wrong = parse_json_text(
        r#"{"rootfs": {"Image": "a"}, "env": [], "volumes": [], "network": "Isolated", "ports": [], "auto_remove": "yes"}"#,
    )
    .unwrap();
    assert!(box_options_from_json(&wrong).is_none());
}
