//! The runtime registry's lifecycle, the execution handle, and the
//! cancellation fabric.

use boxlite::cancel::CancelTree;
use boxlite::errors::BoxliteError;
use boxlite::exec::{
    check_exec_response, interpret_ack, map_wait_response, route_output, stdin_frame,
    tty_request_allowed, wait_task_result, AttachEvent, AttachRoute, BoxCommand, ExecResult,
    Execution, WaitResponse,
};
use boxlite::options::BoxOptions;
use boxlite::registry::{timeout_to_duration, Runtime};
use boxlite::status::BoxStatus;

fn plain_options() -> BoxOptions {
    let mut o = BoxOptions::default();
    o.auto_remove = false;
    o
}

fn create_box(rt: &mut Runtime, id: &str, name: Option<&str>, ts: i64) -> boxlite::registry::BoxHandle {
    rt.create(
        &plain_options(),
        name.map(|n| n.to_string()),
        id.to_string(),
        ts,
        "alpine:latest".to_string(),
        None,
    )
    .unwrap()
}

#[test]
fn create_and_inspect_by_name() {
    // Creating a named box and inspecting it by name reports its image
    // and name.
    let mut rt = Runtime::new();
    let _h = create_box(&mut rt, "aaaabbbbccccdddd", Some("foo"), 100);
    let info = rt.get_info("foo").unwrap();
    assert_eq!(info.image, "alpine:latest");
    assert_eq!(info.name.as_deref(), Some("foo"));
    assert!(matches!(info.status, BoxStatus::Configured));
}

#[test]
fn create_rejects_duplicate_name() {
    let mut rt = Runtime::new();
    let _h = create_box(&mut rt, "aaaabbbbccccdddd", Some("foo"), 100);
    let r = rt.create(
        &plain_options(),
        Some("foo".to_string()),
        "eeeeffffgggghhhh".to_string(),
        101,
        "alpine:latest".to_string(),
        None,
    );
    assert!(matches!(r, Err(BoxliteError::AlreadyExists(_))));
}

#[test]
fn create_rejects_bad_options() {
    let mut rt = Runtime::new();
    let mut opts = BoxOptions::default();
    opts.auto_remove = true;
    opts.detach = true;
    let r = rt.create(&opts, None, "aaaabbbbccccdddd".to_string(), 100, "img".to_string(), None);
    assert!(matches!(r, Err(BoxliteError::InvalidArgument(_))));
}

#[test]
fn failed_build_leaves_nothing_behind() {
    let mut rt = Runtime::new();
    let r = rt.create(
        &plain_options(),
        None,
        "aaaabbbbccccdddd".to_string(),
        100,
        "img".to_string(),
        Some(BoxliteError::Image("pull failed".to_string())),
    );
    assert!(matches!(r, Err(BoxliteError::Image(_))));
    assert_eq!(rt.boxes.len(), 0);
    assert_eq!(rt.subtrees.len(), 0);
    assert_eq!(rt.metrics().boxes_failed_total, 1);
}

#[test]
fn rows_match_subtrees_through_lifecycle() {
    // The box_config rows and the on-disk subtrees stay in one-to-one
    // correspondence through create, stop and remove.
    let mut rt = Runtime::new();
    let mut h1 = create_box(&mut rt, "aaaabbbbccccdddd", Some("one"), 100);
    let _h2 = create_box(&mut rt, "eeeeffffgggghhhh", Some("two"), 101);
    assert_eq!(rt.boxes.len(), rt.subtrees.len());
    for i in 0..rt.boxes.len() {
        assert_eq!(rt.boxes[i].id, rt.subtrees[i]);
    }
    rt.stop_box(&mut h1).unwrap();
    assert_eq!(rt.boxes.len(), rt.subtrees.len());
    rt.remove("two", false).unwrap();
    assert_eq!(rt.boxes.len(), rt.subtrees.len());
    for i in 0..rt.boxes.len() {
        assert_eq!(rt.boxes[i].id, rt.subtrees[i]);
    }
}

#[test]
fn running_box_reports_pid() {
    // A box reported Running carries the shim's pid.
    let mut rt = Runtime::new();
    let h = create_box(&mut rt, "aaaabbbbccccdddd", Some("foo"), 100);
    rt.start_box(&h, 4242).unwrap();
    let info = rt.get_info("foo").unwrap();
    assert!(matches!(info.status, BoxStatus::Running));
    assert_eq!(info.pid, Some(4242));
}

#[test]
fn resolve_by_id_prefix() {
    let mut rt = Runtime::new();
    let _h = create_box(&mut rt, "0123456789abcdef0123", None, 100);
    // Twelve characters and more resolve by prefix; fewer need the full id.
    assert!(rt.get("0123456789ab").is_some());
    assert!(rt.get("0123456789abcdef0123").is_some());
    assert!(rt.get("0123456789a").is_none());
    assert!(rt.get("nosuch").is_none());
}

#[test]
fn remove_running_needs_force() {
    let mut rt = Runtime::new();
    let h = create_box(&mut rt, "aaaabbbbccccdddd", Some("foo"), 100);
    rt.start_box(&h, 1).unwrap();
    assert!(matches!(rt.remove("foo", false), Err(BoxliteError::InvalidState(_))));
    assert!(rt.remove("foo", true).is_ok());
    assert!(rt.get("foo").is_none());
}

#[test]
fn stop_cancels_and_blocks_further_work() {
    // After stop, exec, start and metrics on the handle return the
    // stopped error.
    let mut rt = Runtime::new();
    let mut h = create_box(&mut rt, "aaaabbbbccccdddd", Some("foo"), 100);
    rt.start_box(&h, 7).unwrap();
    assert!(rt.box_operable(&h).is_ok());
    rt.stop_box(&mut h).unwrap();
    assert!(h.cancelled);
    assert!(matches!(rt.box_operable(&h), Err(BoxliteError::Stopped(_))));
    assert!(matches!(rt.start_box(&h, 8), Err(BoxliteError::Stopped(_))));
}

#[test]
fn stop_removes_auto_remove_boxes() {
    let mut rt = Runtime::new();
    let mut opts = BoxOptions::default();
    opts.auto_remove = true;
    let mut h = rt
        .create(&opts, Some("tmp".to_string()), "aaaabbbbccccdddd".to_string(), 100, "img".to_string(), None)
        .unwrap();
    rt.stop_box(&mut h).unwrap();
    assert!(rt.get("tmp").is_none());
    assert_eq!(rt.boxes.len(), 0);
}

#[test]
fn create_after_shutdown_returns_stopped() {
    let mut rt = Runtime::new();
    rt.shutdown().unwrap();
    let r = rt.create(
        &plain_options(),
        None,
        "aaaabbbbccccdddd".to_string(),
        100,
        "img".to_string(),
        None,
    );
    assert!(matches!(r, Err(BoxliteError::Stopped(_))));
}

#[test]
fn shutdown_stops_every_box() {
    // Shutting the runtime down stops both running boxes.
    let mut rt = Runtime::new();
    let h1 = create_box(&mut rt, "aaaabbbbccccdddd", Some("one"), 100);
    let h2 = create_box(&mut rt, "eeeeffffgggghhhh", Some("two"), 101);
    rt.start_box(&h1, 11).unwrap();
    rt.start_box(&h2, 12).unwrap();
    rt.shutdown().unwrap();
    assert!(rt.shut_down);
    for rec in &rt.boxes {
        assert!(matches!(rec.status, BoxStatus::Stopped));
        assert!(rec.pid.is_none());
    }
    assert_eq!(rt.metrics().num_running_boxes, 0);
}

#[test]
fn list_info_is_sorted_by_creation_time() {
    let mut rt = Runtime::new();
    let _a = create_box(&mut rt, "aaaabbbbccccdddd", Some("late"), 300);
    let _b = create_box(&mut rt, "eeeeffffgggghhhh", Some("early"), 100);
    let _c = create_box(&mut rt, "iiiijjjjkkkkllll", Some("middle"), 200);
    let infos = rt.list_info();
    assert_eq!(infos.len(), 3);
    assert_eq!(infos[0].name.as_deref(), Some("early"));
    assert_eq!(infos[1].name.as_deref(), Some("middle"));
    assert_eq!(infos[2].name.as_deref(), Some("late"));
}

#[test]
fn metrics_counts() {
    let mut rt = Runtime::new();
    let h1 = create_box(&mut rt, "aaaabbbbccccdddd", None, 100);
    let _h2 = create_box(&mut rt, "eeeeffffgggghhhh", None, 101);
    rt.start_box(&h1, 5).unwrap();
    let m = rt.metrics();
    assert_eq!(m.boxes_created_total, 2);
    assert_eq!(m.boxes_failed_total, 0);
    assert_eq!(m.num_running_boxes, 1);
}

#[test]
fn test_timeout_to_duration_default() {
    let duration = timeout_to_duration(None);
    assert_eq!(duration, Some(10));
}

#[test]
fn test_timeout_to_duration_custom() {
    let duration = timeout_to_duration(Some(30));
    assert_eq!(duration, Some(30));
}

#[test]
fn test_timeout_to_duration_infinite() {
    let duration = timeout_to_duration(Some(-1));
    assert_eq!(duration, None);
}

#[test]
fn test_timeout_to_duration_invalid() {
    let duration = timeout_to_duration(Some(0));
    assert_eq!(duration, Some(10));

    let duration = timeout_to_duration(Some(-5));
    assert_eq!(duration, Some(10));
}

#[test]
fn wait_response_mapping() {
    assert_eq!(map_wait_response(WaitResponse { exit_code: 0, signal: 0 }).exit_code, 0);
    assert_eq!(map_wait_response(WaitResponse { exit_code: 3, signal: 0 }).exit_code, 3);
    assert_eq!(map_wait_response(WaitResponse { exit_code: 0, signal: 9 }).exit_code, -9);
    assert_eq!(map_wait_response(WaitResponse { exit_code: 7, signal: 15 }).exit_code, -15);
}

#[test]
fn wait_is_idempotent() {
    // Two consecutive waits yield the same result, whatever arrives later.
    let mut e = Execution::new("exec-1".to_string());
    let first = e.wait_step(Some(ExecResult { exit_code: 0 }));
    let second = e.wait_step(Some(ExecResult { exit_code: 99 }));
    let third = e.wait_step(None);
    assert_eq!(first, second);
    assert_eq!(first, third);
    assert_eq!(first.exit_code, 0);
}

#[test]
fn cancelled_wait_yields_minus_one() {
    // A wait under a cancelled token emits exit code -1, whatever the
    // RPC would have answered.
    assert_eq!(wait_task_result(true, Some(WaitResponse { exit_code: 0, signal: 0 })).exit_code, -1);
    assert_eq!(wait_task_result(true, None).exit_code, -1);
    assert_eq!(wait_task_result(false, None).exit_code, -1);
    assert_eq!(wait_task_result(false, Some(WaitResponse { exit_code: 5, signal: 0 })).exit_code, 5);

    let mut e = Execution::new("exec-2".to_string());
    let r = e.wait_step(Some(wait_task_result(true, None)));
    assert_eq!(r.exit_code, -1);
}

#[test]
fn cancellation_token_basics() {
    let mut tree = CancelTree::new();
    assert!(!tree.is_cancelled(0));
    tree.cancel(0);
    assert!(tree.is_cancelled(0));
}

#[test]
fn child_token_cancelled_with_parent() {
    let mut tree = CancelTree::new();
    let child = tree.child(0);
    assert!(!tree.is_cancelled(0));
    assert!(!tree.is_cancelled(child));
    tree.cancel(0);
    assert!(tree.is_cancelled(0));
    assert!(tree.is_cancelled(child));
}

#[test]
fn child_token_independent_cancel() {
    let mut tree = CancelTree::new();
    let child = tree.child(0);
    tree.cancel(child);
    assert!(tree.is_cancelled(child));
    assert!(!tree.is_cancelled(0));
}

#[test]
fn runtime_shutdown_cascades_to_executions() {
    // The token tree runtime -> box -> execution: cancelling the root
    // cancels every execution token, and their waits yield -1.
    let mut tree = CancelTree::new();
    let box1 = tree.child(0);
    let box2 = tree.child(0);
    let exec1 = tree.child(box1);
    let exec2 = tree.child(box2);
    tree.cancel(0);
    assert!(tree.is_cancelled(box1));
    assert!(tree.is_cancelled(box2));
    assert!(tree.is_cancelled(exec1));
    assert!(tree.is_cancelled(exec2));
    assert_eq!(wait_task_result(tree.is_cancelled(exec1), None).exit_code, -1);
    assert_eq!(wait_task_result(tree.is_cancelled(exec2), None).exit_code, -1);
}

#[test]
fn command_builder() {
    let cmd = BoxCommand::new("echo".to_string())
        .arg("hello".to_string())
        .env("K".to_string(), "V".to_string())
        .working_dir("/tmp".to_string())
        .tty(true);
    assert_eq!(cmd.command, "echo");
    assert_eq!(cmd.args, vec!["hello"]);
    assert_eq!(cmd.env, vec![("K".to_string(), "V".to_string())]);
    assert_eq!(cmd.working_dir.as_deref(), Some("/tmp"));
    assert!(cmd.tty);

    let req = boxlite::exec::build_exec_request(&cmd, 24, 80);
    assert_eq!(req.program, "echo");
    assert_eq!(req.args, vec!["hello"]);
    assert_eq!(req.workdir, "/tmp");
    assert_eq!(req.timeout_ms, 0);
    let tty = req.tty.unwrap();
    assert_eq!((tty.rows, tty.cols), (24, 80));
}

#[test]
fn tty_and_ack_decisions() {
    // TTY without detach needs a terminal on stdin.
    assert!(tty_request_allowed(false, false, false));
    assert!(tty_request_allowed(true, true, false));
    assert!(tty_request_allowed(true, false, true));
    assert!(!tty_request_allowed(true, false, false));

    // The exec response's error wins over its execution id.
    assert_eq!(check_exec_response("e-1".to_string(), None).unwrap(), "e-1");
    let err = check_exec_response(
        "e-2".to_string(),
        Some(("denied".to_string(), "no such program".to_string())),
    )
    .unwrap_err();
    assert_eq!(err.message(), "internal error: denied: no such program");

    // Kill/resize acknowledgements.
    assert!(interpret_ack(true, None, "Kill failed").is_ok());
    let e = interpret_ack(false, Some("no such execution".to_string()), "Kill failed").unwrap_err();
    assert_eq!(e.message(), "internal error: no such execution");
    let e = interpret_ack(false, None, "Resize TTY failed").unwrap_err();
    assert_eq!(e.message(), "internal error: Resize TTY failed");
}

#[test]
fn attach_routing_and_stdin_frames() {
    match route_output(AttachEvent::Stdout(vec![1, 2])) {
        AttachRoute::ToStdout(d) => assert_eq!(d, vec![1, 2]),
        other => panic!("stdout chunk misrouted: {:?}", other),
    }
    match route_output(AttachEvent::Stderr(vec![3])) {
        AttachRoute::ToStderr(d) => assert_eq!(d, vec![3]),
        other => panic!("stderr chunk misrouted: {:?}", other),
    }

    let f = stdin_frame("e-1".to_string(), Some(vec![9, 9]));
    assert_eq!((f.execution_id.as_str(), f.data, f.close), ("e-1", vec![9, 9], false));
    let close = stdin_frame("e-1".to_string(), None);
    assert!(close.close);
    assert!(close.data.is_empty());
}

#[test]
fn remove_succeeds_on_stopped_boxes() {
    // Removal is owed where nothing resolving is running, and refused
    // with the invalid-state error exactly where the box runs unforced.
    let mut rt = Runtime::new();
    let _h = create_box(&mut rt, "aaaabbbbccccdddd", Some("idle"), 100);
    assert!(rt.remove("idle", false).is_ok());
    assert!(matches!(rt.remove("idle", false), Err(BoxliteError::NotFound(_))));
}
