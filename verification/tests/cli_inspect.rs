//! CLI flags, formats, templates and the inspect presenter.

use boxlite::cli_flags::{
    apply_env_vars_with_lookup, ManagementFlags, ProcessFlags, ResourceFlags,
};
use boxlite::errors::{error_to_code, null_pointer_error, BoxliteError, BoxliteErrorCode};
use boxlite::exec::BoxCommand;
use boxlite::format::OutputFormat;
use boxlite::inspect::{
    build_inspect_presenter, looks_like_template, normalize_inspect_format,
    parse_single_path_template, plan_inspect_format, presenter_to_json, render_template_path,
    select_latest, InspectFormatPlan,
};
use boxlite::options::BoxOptions;
use boxlite::registry::{BoxInfo, Runtime};
use boxlite::status::{status_to_string, transition_allowed, BoxStatus};

#[test]
fn test_apply_env_vars_with_lookup() {
    let mut opts = BoxOptions::default();
    let current_env = vec![
        "TEST_VAR=test_value".to_string(),
        "TEST_HOST_VAR".to_string(),
        "NON_EXISTENT_VAR".to_string(),
    ];
    let lookup = vec![("TEST_HOST_VAR".to_string(), "host_value".to_string())];

    apply_env_vars_with_lookup(&current_env, &mut opts, &lookup);

    assert!(opts.env.contains(&("TEST_VAR".to_string(), "test_value".to_string())));
    assert!(opts.env.contains(&("TEST_HOST_VAR".to_string(), "host_value".to_string())));
    assert!(!opts.env.iter().any(|(k, _)| k == "NON_EXISTENT_VAR"));
}

#[test]
fn flags_apply() {
    let mut opts = BoxOptions::default();
    ResourceFlags { cpus: Some(1000), memory: Some(512) }.apply_to(&mut opts);
    assert_eq!(opts.cpus, Some(255), "the cpu count is capped");
    assert_eq!(opts.memory_mib, Some(512));

    ManagementFlags { name: None, detach: true, rm: false }.apply_to(&mut opts);
    assert!(opts.detach);
    assert!(!opts.auto_remove);

    let flags = ProcessFlags {
        interactive: false,
        tty: true,
        env: vec!["A=1".to_string()],
        workdir: Some("/w".to_string()),
    };
    flags.apply_to_with_lookup(&mut opts, &vec![]);
    assert_eq!(opts.working_dir.as_deref(), Some("/w"));
    assert!(opts.env.contains(&("A".to_string(), "1".to_string())));

    let cmd = flags.configure_command(BoxCommand::new("sh".to_string()), &vec![]);
    assert!(cmd.tty);
    assert_eq!(cmd.working_dir.as_deref(), Some("/w"));
    assert_eq!(cmd.env, vec![("A".to_string(), "1".to_string())]);
}

#[test]
fn test_output_format_from_str() {
    assert_eq!(OutputFormat::from_str("table").unwrap(), OutputFormat::Table);
    assert_eq!(OutputFormat::from_str("TABLE").unwrap(), OutputFormat::Table);
    assert_eq!(OutputFormat::from_str("json").unwrap(), OutputFormat::Json);
    assert_eq!(OutputFormat::from_str("JSON").unwrap(), OutputFormat::Json);
    assert_eq!(OutputFormat::from_str("yaml").unwrap(), OutputFormat::Yaml);
    assert_eq!(OutputFormat::from_str("YAML").unwrap(), OutputFormat::Yaml);
}

#[test]
fn test_output_format_from_str_invalid() {
    let result = OutputFormat::from_str("invalid");
    assert!(result.is_err());
    assert!(result.unwrap_err().message().contains("Unknown format"));
}

#[test]
fn template_detection_and_parsing() {
    assert!(looks_like_template("{{.State}}"));
    assert!(!looks_like_template("json"));
    assert!(!looks_like_template("{{oops"));

    assert_eq!(parse_single_path_template("{{.State}}").as_deref(), Some("State"));
    assert_eq!(parse_single_path_template("{{ .State.Status }}").as_deref(), Some("State.Status"));
    assert_eq!(parse_single_path_template("  {{.Id}}  ").as_deref(), Some("Id"));
    assert_eq!(parse_single_path_template("{{.State}} {{.Id}}"), None);
    assert_eq!(parse_single_path_template("{{json .State}}"), None);
    assert_eq!(parse_single_path_template("{{.}}"), None);
}

#[test]
fn alias_normalization() {
    assert_eq!(normalize_inspect_format("{{.ID}}"), "{{.Id}}");
    assert_eq!(normalize_inspect_format("{{.ImageID}}"), "{{.Image}}");
    assert_eq!(normalize_inspect_format("{{.ID}} {{.ImageID}}"), "{{.Id}} {{.Image}}");
    assert_eq!(normalize_inspect_format("{{.Name}}"), "{{.Name}}");
}

fn sample_info() -> BoxInfo {
    BoxInfo {
        id: "abc123".to_string(),
        name: Some("foo".to_string()),
        image: "alpine:latest".to_string(),
        created_at: 0,
        status: BoxStatus::Running,
        pid: Some(42),
        cpus: 2,
        memory_mib: 512,
    }
}

#[test]
fn presenter_fields() {
    let p = build_inspect_presenter(&sample_info());
    assert_eq!(p.id, "abc123");
    assert_eq!(p.name, "foo");
    assert_eq!(p.image, "alpine:latest");
    assert_eq!(p.created, "1970-01-01T00:00:00+00:00");
    assert_eq!(p.status, "running");
    assert_eq!(p.state.status, "running");
    assert!(p.state.running);
    assert_eq!(p.state.pid, 42);
    assert_eq!(p.memory, 512 * 1024 * 1024);
}

#[test]
fn template_renders_go_style_paths() {
    // A single-path template renders the Go-struct-style serialization of
    // the value the path reaches.
    let p = build_inspect_presenter(&sample_info());
    let v = presenter_to_json(&p);
    let state = render_template_path(&v, "State").unwrap();
    assert_eq!(state, "{Status:running Running:true Pid:42}");
    assert_eq!(render_template_path(&v, "State.Status").unwrap(), "running");
    assert_eq!(render_template_path(&v, "Id").unwrap(), "abc123");
    assert_eq!(render_template_path(&v, "Cpus").unwrap(), "2");
    assert_eq!(render_template_path(&v, "NoSuchField"), None);
}

#[test]
fn inspect_format_plan() {
    assert!(matches!(plan_inspect_format("json"), InspectFormatPlan::Json));
    assert!(matches!(plan_inspect_format("yaml"), InspectFormatPlan::Yaml));
    assert!(matches!(plan_inspect_format("table"), InspectFormatPlan::TableRejected));
    match plan_inspect_format("{{.ID}}") {
        InspectFormatPlan::Template(t) => assert_eq!(t, "{{.Id}}"),
        other => panic!("expected a template plan, got {:?}", other),
    }
    assert!(matches!(plan_inspect_format("bogus"), InspectFormatPlan::Invalid(_)));
}

#[test]
fn latest_selects_newest_box() {
    let mut a = sample_info();
    a.created_at = 100;
    let mut b = sample_info();
    b.created_at = 300;
    let mut c = sample_info();
    c.created_at = 200;
    let infos = vec![a, b, c];
    assert_eq!(select_latest(&infos), Some(1));
    let empty: Vec<BoxInfo> = vec![];
    assert_eq!(select_latest(&empty), None, "no boxes to inspect");
}

#[test]
fn status_names_and_transitions() {
    assert!(transition_allowed(BoxStatus::Configured, BoxStatus::Running));
    assert!(transition_allowed(BoxStatus::Running, BoxStatus::Stopping));
    assert!(transition_allowed(BoxStatus::Stopping, BoxStatus::Stopped));
    assert!(transition_allowed(BoxStatus::Stopped, BoxStatus::Running));
    assert!(!transition_allowed(BoxStatus::Configured, BoxStatus::Stopped));
    assert!(!transition_allowed(BoxStatus::Stopped, BoxStatus::Configured));
}

#[test]
fn test_status_to_string_mapping() {
    assert_eq!(status_to_string(BoxStatus::Unknown), "unknown");
    assert_eq!(status_to_string(BoxStatus::Configured), "configured");
    assert_eq!(status_to_string(BoxStatus::Running), "running");
    assert_eq!(status_to_string(BoxStatus::Stopping), "stopping");
    assert_eq!(status_to_string(BoxStatus::Stopped), "stopped");
}

#[test]
fn test_error_code_mapping() {
    assert_eq!(error_to_code(&BoxliteError::NotFound("test".into())), BoxliteErrorCode::NotFound);
    assert_eq!(
        error_to_code(&BoxliteError::AlreadyExists("test".into())),
        BoxliteErrorCode::AlreadyExists
    );
    assert_eq!(
        error_to_code(&BoxliteError::InvalidState("test".into())),
        BoxliteErrorCode::InvalidState
    );
    assert_eq!(
        error_to_code(&BoxliteError::InvalidArgument("test".into())),
        BoxliteErrorCode::InvalidArgument
    );
    assert_eq!(error_to_code(&BoxliteError::Internal("test".into())), BoxliteErrorCode::Internal);
    assert_eq!(error_to_code(&BoxliteError::Config("test".into())), BoxliteErrorCode::Config);
    assert_eq!(error_to_code(&BoxliteError::Storage("test".into())), BoxliteErrorCode::Storage);
    assert_eq!(error_to_code(&BoxliteError::Image("test".into())), BoxliteErrorCode::Image);
    assert_eq!(error_to_code(&BoxliteError::Network("test".into())), BoxliteErrorCode::Network);
    assert_eq!(error_to_code(&BoxliteError::Execution("test".into())), BoxliteErrorCode::Execution);
}

#[test]
fn error_messages() {
    assert_eq!(
        BoxliteError::Stopped("box is stopped".into()).message(),
        "stopped: box is stopped"
    );
    assert_eq!(BoxliteError::UnsupportedEngine.message(), "unsupported engine kind");
    let e = null_pointer_error("out_runtime");
    assert!(matches!(e, BoxliteError::InvalidArgument(_)));
    assert_eq!(e.message(), "invalid argument: out_runtime is null");
}

#[test]
fn inspect_by_name_scenario() {
    // A created, named box inspected by name: one presenter whose Image
    // and Name are the creation values, and whose rendered State names a
    // lifecycle state.
    let mut rt = Runtime::new();
    let mut opts = BoxOptions::default();
    opts.auto_remove = false;
    let _h = rt
        .create(
            &opts,
            Some("foo".to_string()),
            "aaaabbbbccccdddd".to_string(),
            100,
            "alpine:latest".to_string(),
            None,
        )
        .unwrap();
    let info = rt.get_info("foo").unwrap();
    let p = build_inspect_presenter(&info);
    assert_eq!(p.image, "alpine:latest");
    assert_eq!(p.name, "foo");
    let v = presenter_to_json(&p);
    let state = render_template_path(&v, "Status").unwrap();
    assert!(
        state == "configured" || state == "running" || state == "stopped",
        "unexpected state rendering: {}",
        state
    );
}

#[test]
fn inspect_json_output_is_an_array() {
    // The JSON form of one inspected box: an array of length one whose
    // entry carries the Image and Name fields.
    let p = build_inspect_presenter(&sample_info());
    let arr = boxlite::json::JsonValue::Arr(vec![presenter_to_json(&p)]);
    let text = boxlite::json::to_json_text(&arr);
    let parsed = boxlite::json::parse_json_text(&text).unwrap();
    match parsed {
        boxlite::json::JsonValue::Arr(items) => {
            assert_eq!(items.len(), 1);
            match &items[0] {
                boxlite::json::JsonValue::Obj(fields) => {
                    assert!(fields.iter().any(|(k, v)| k == "Image"
                        && matches!(v, boxlite::json::JsonValue::Str(s) if s == "alpine:latest")));
                    assert!(fields.iter().any(|(k, v)| k == "Name"
                        && matches!(v, boxlite::json::JsonValue::Str(s) if s == "foo")));
                }
                other => panic!("expected an object, got {:?}", other),
            }
        }
        other => panic!("expected an array, got {:?}", other),
    }
}
