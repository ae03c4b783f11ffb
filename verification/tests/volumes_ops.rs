use js_engine::context::JsContext;
use js_engine::json::JsonValue;
use js_engine::ops::{
    confirm_contained, fetch_request, fetch_response, log_route, mutate_path_request,
    read_dir_entries, read_path_request, rename_request, rsync_request, rsync_source_exists,
    rsync_wait_take, send_signal_request, signal_group_request, start_command_request,
    unix_time_ms, wait_command_outcome, HttpMethod, LogRoute, OpError, OutputStrategy,
    SignalGroupRequest,
    SignalRequest, write_file_request,
};
use js_engine::paths::HostPath;
use js_engine::registry::RsyncRegistry;
use js_engine::volumes::{Volume, Volumes};

fn test_volumes() -> Volumes {
    let mut volumes = Volumes::new();
    volumes.declare("main".to_owned(), Volume::Data);
    volumes.declare("compat".to_owned(), Volume::Assets);
    volumes.declare(
        "filebrowser".to_owned(),
        Volume::Pointer {
            package_id: "filebrowser".to_owned(),
            volume_id: "main".to_owned(),
            path: HostPath::parse("data"),
            readonly: true,
        },
    );
    volumes
}

fn test_context(sandboxed: bool, has_rpc_client: bool) -> JsContext {
    JsContext {
        sandboxed,
        data_dir: HostPath::parse("/srv/test"),
        run_function: "getConfig".to_owned(),
        version: "0.3.0.3".to_owned(),
        package_id: "test-package".to_owned(),
        volumes: test_volumes(),
        input: JsonValue::Null,
        variable_args: Vec::new(),
        container_process_gid: 7,
        has_rpc_client,
        rsyncs: RsyncRegistry::new(),
    }
}

#[test]
fn volume_paths_follow_the_layout() {
    let volumes = test_volumes();
    let data_dir = HostPath::parse("/srv/test");
    let main = volumes
        .path_for(&data_dir, "test-package", "0.3.0.3", "main")
        .unwrap();
    assert_eq!(
        main.to_display(),
        "/srv/test/package-data/volumes/test-package/data/main"
    );
    let compat = volumes
        .path_for(&data_dir, "test-package", "0.3.0.3", "compat")
        .unwrap();
    assert_eq!(
        compat.to_display(),
        "/srv/test/package-data/assets/test-package/0.3.0.3/compat"
    );
    let pointer = volumes
        .path_for(&data_dir, "test-package", "0.3.0.3", "filebrowser")
        .unwrap();
    assert_eq!(
        pointer.to_display(),
        "/srv/test/package-data/volumes/filebrowser/data/main/data"
    );
    assert!(volumes.path_for(&data_dir, "test-package", "0.3.0.3", "nope").is_none());
}

#[test]
fn readonly_flags_by_volume_kind() {
    let volumes = test_volumes();
    assert!(!volumes.readonly("main"));
    assert!(volumes.readonly("compat"));
    assert!(volumes.readonly("filebrowser"));
    assert!(!volumes.readonly("unknown"));
}

#[test]
fn mutating_op_on_readonly_volume_fails_before_any_plan() {
    let ctx = test_context(false, false);
    let r = mutate_path_request(&ctx, "compat", "notes.txt");
    match r {
        Err(OpError::Readonly(id)) => {
            assert_eq!(id, "compat");
        }
        _ => panic!("expected a read-only refusal"),
    }
    let msg = OpError::Readonly("compat".to_owned()).message();
    assert_eq!(msg, "Volume compat is readonly");
}

#[test]
fn unknown_volume_is_refused_with_its_name() {
    let ctx = test_context(false, false);
    let r = read_path_request(&ctx, "ghost", "a.txt");
    match r {
        Err(e) => assert_eq!(e.message(), "There is no ghost in volumes"),
        Ok(_) => panic!("expected a refusal"),
    }
}

#[test]
fn escape_verdict_quotes_both_paths() {
    let ctx = test_context(false, false);
    let check = read_path_request(&ctx, "main", "../../escape.txt").unwrap();
    let err = confirm_contained(&check, false).unwrap_err();
    assert_eq!(
        err.message(),
        "Path '/srv/test/package-data/volumes/test-package/data/main/../../escape.txt' \
has broken away from parent '/srv/test/package-data/volumes/test-package/data/main'"
    );
    assert!(confirm_contained(&check, true).is_ok());
}

#[test]
fn write_plan_uses_sibling_tmp_dir_and_hashed_name() {
    let ctx = test_context(false, false);
    let plan = write_file_request(&ctx, "main", "hello.txt").unwrap();
    assert_eq!(
        plan.target.to_display(),
        "/srv/test/package-data/volumes/test-package/data/main/hello.txt"
    );
    assert_eq!(
        plan.check.child.to_display(),
        "/srv/test/package-data/volumes/test-package/data/main"
    );
    assert_eq!(
        plan.tmp_file.to_display(),
        "/srv/test/package-data/volumes/test-package/data/main.tmp/\
734CAD14909BEDFAFB5B273B6B0EB01FBFA639587D217F78CE9639BBA41F4415"
    );
}

#[test]
fn get_config_write_lands_in_the_main_volume_log() {
    // The configuration procedure of the sample package writes its log
    // into the `main` volume; the planned target is exactly that file.
    let ctx = JsContext {
        sandboxed: false,
        data_dir: HostPath::parse("test/js_action_execute"),
        run_function: "getConfig".to_owned(),
        version: "0.3.0.3".to_owned(),
        package_id: "test-package".to_owned(),
        volumes: test_volumes(),
        input: JsonValue::Null,
        variable_args: Vec::new(),
        container_process_gid: 0,
        has_rpc_client: false,
        rsyncs: RsyncRegistry::new(),
    };
    let plan = write_file_request(&ctx, "main", "test.log").unwrap();
    assert_eq!(
        plan.target.to_display(),
        "test/js_action_execute/package-data/volumes/test-package/data/main/test.log"
    );
}

#[test]
fn readonly_refusal_precedes_the_missing_parent_refusal() {
    let ctx = test_context(false, false);
    // A bare "/" request replaces the base and has no parent; on a
    // writable volume that is the missing-parent refusal, on a
    // read-only volume the read-only refusal comes first.
    let rootless = write_file_request(&ctx, "main", "/");
    match rootless {
        Err(e) => assert_eq!(e.message(), "Expecting that file is not root"),
        Ok(_) => panic!("a rootless target must be refused"),
    }
    let readonly_first = write_file_request(&ctx, "compat", "/");
    match readonly_first {
        Err(e) => assert_eq!(e.message(), "Volume compat is readonly"),
        Ok(_) => panic!("a read-only volume must be refused"),
    }
}

#[test]
fn rename_refuses_rootless_endpoints() {
    let ctx = test_context(false, false);
    let rootless_src = rename_request(&ctx, "main", "/", "main", "b.txt");
    match rootless_src {
        Err(e) => assert_eq!(e.message(), "Expecting that file is not root"),
        Ok(_) => panic!("a rootless source must be refused"),
    }
    let rootless_dst = rename_request(&ctx, "main", "a.txt", "main", "/");
    match rootless_dst {
        Err(e) => assert_eq!(e.message(), "Expecting that file is not root"),
        Ok(_) => panic!("a rootless destination must be refused"),
    }
}

#[test]
fn rename_plan_checks_both_parents() {
    let ctx = test_context(false, false);
    let plan = rename_request(&ctx, "main", "a/old.txt", "main", "b/new.txt").unwrap();
    assert_eq!(
        plan.src.to_display(),
        "/srv/test/package-data/volumes/test-package/data/main/a/old.txt"
    );
    assert_eq!(
        plan.dst.to_display(),
        "/srv/test/package-data/volumes/test-package/data/main/b/new.txt"
    );
    assert_eq!(
        plan.src_check.child.to_display(),
        "/srv/test/package-data/volumes/test-package/data/main/a"
    );
    assert_eq!(
        plan.dst_check.child.to_display(),
        "/srv/test/package-data/volumes/test-package/data/main/b"
    );
    let denied = rename_request(&ctx, "main", "a.txt", "compat", "b.txt");
    assert!(matches!(denied, Err(OpError::Readonly(_))));
}

#[test]
fn rsync_plan_and_missing_source() {
    let ctx = test_context(false, false);
    let plan = rsync_request(&ctx, "main", "src-dir", "main", "dst-dir").unwrap();
    assert!(rsync_source_exists(&plan, true).is_ok());
    let err = rsync_source_exists(&plan, false).unwrap_err();
    assert_eq!(
        err.message(),
        "Source at /srv/test/package-data/volumes/test-package/data/main/src-dir \
does not exists"
    );
}

#[test]
fn rsync_handles_are_dense_and_drained_by_wait() {
    let mut reg = RsyncRegistry::new();
    assert!(reg.is_empty());
    let a = reg.insert(100);
    let b = reg.insert(200);
    assert_eq!(a, 1);
    assert_eq!(b, 2);
    assert_eq!(reg.len(), 2);
    assert_eq!(rsync_wait_take(&mut reg, a).unwrap(), 100);
    assert_eq!(rsync_wait_take(&mut reg, b).unwrap(), 200);
    assert!(reg.is_empty());
    let err = rsync_wait_take(&mut reg, 5).unwrap_err();
    assert_eq!(err.message(), "Couldn't find rsync at id 5");
}

#[test]
fn rsync_progress_reinserts_the_handle() {
    let mut reg = RsyncRegistry::new();
    let h = reg.insert(42);
    let task = rsync_wait_take(&mut reg, h).unwrap();
    assert!(reg.is_empty());
    reg.reinsert(h, task);
    assert_eq!(reg.len(), 1);
    assert_eq!(rsync_wait_take(&mut reg, h).unwrap(), 42);
}

#[test]
fn fetch_is_refused_in_sandbox_mode_before_any_request_exists() {
    let ctx = test_context(true, false);
    let r = fetch_request(
        &ctx,
        "http://example.com/".to_owned(),
        None,
        Vec::new(),
        None,
    );
    match r {
        Err(e) => assert_eq!(e.message(), "Will not run fetch in sandboxed mode"),
        Ok(_) => panic!("sandboxed fetch must fail"),
    }
}

#[test]
fn fetch_method_mapping() {
    let ctx = test_context(false, false);
    let plan = fetch_request(
        &ctx,
        "http://example.com/".to_owned(),
        None,
        Vec::new(),
        None,
    )
    .unwrap();
    assert_eq!(plan.method, HttpMethod::Get);
    let plan = fetch_request(
        &ctx,
        "http://example.com/".to_owned(),
        Some("post".to_owned()),
        Vec::new(),
        Some("body".to_owned()),
    )
    .unwrap();
    assert_eq!(plan.method, HttpMethod::Post);
    let bad = fetch_request(
        &ctx,
        "http://example.com/".to_owned(),
        Some("TRACE".to_owned()),
        Vec::new(),
        None,
    );
    match bad {
        Err(e) => assert_eq!(e.message(), "Unsupported method: TRACE"),
        Ok(_) => panic!("TRACE must be refused"),
    }
}

#[test]
fn fetch_response_reports_success_range() {
    let ok = fetch_response(HttpMethod::Get, 204, Vec::new(), None);
    assert!(ok.ok);
    assert_eq!(ok.method, "GET");
    assert_eq!(ok.status, 204);
    let not_found = fetch_response(HttpMethod::Head, 404, Vec::new(), None);
    assert!(!not_found.ok);
}

#[test]
fn process_ops_need_an_rpc_client() {
    let without = test_context(false, false);
    assert!(matches!(
        send_signal_request(&without, 10, 15),
        Err(OpError::NoRpcClient)
    ));
    assert!(matches!(
        signal_group_request(&without, 3, 9),
        Err(OpError::NoRpcClient)
    ));
    assert_eq!(
        OpError::NoRpcClient.message(),
        "No RpcClient for command operations"
    );
    let with = test_context(false, true);
    assert_eq!(
        send_signal_request(&with, 10, 15).unwrap(),
        SignalRequest { pid: 10, signal: 15 }
    );
    assert_eq!(
        signal_group_request(&with, 3, 9).unwrap(),
        SignalGroupRequest { gid: 3, signal: 9 }
    );
}

#[test]
fn start_command_schedules_sigkill_after_the_timeout() {
    let ctx = test_context(false, true);
    let plan = start_command_request(
        &ctx,
        "sleep".to_owned(),
        vec!["30".to_owned()],
        OutputStrategy::Collect,
        Some(2500),
    )
    .unwrap();
    assert_eq!(plan.request.gid, 7);
    assert_eq!(plan.request.command, "sleep");
    let kill = plan.kill.unwrap();
    assert_eq!(kill.delay_ms, 2500);
    assert_eq!(kill.signal, 9);
    let no_timeout =
        start_command_request(&ctx, "true".to_owned(), Vec::new(), OutputStrategy::Inherit, None)
            .unwrap();
    assert!(no_timeout.kill.is_none());
}

#[test]
fn wait_command_passes_results_and_error_codes_through() {
    let ok = wait_command_outcome(true, Ok(JsonValue::Int(0))).unwrap();
    assert!(matches!(ok, js_engine::ops::ResultType::Result(JsonValue::Int(0))));
    let err = wait_command_outcome(true, Err((137, "killed".to_owned()))).unwrap();
    match err {
        js_engine::ops::ResultType::ErrorCode(code, message) => {
            assert_eq!(code, 137);
            assert_eq!(message, "killed");
        }
        _ => panic!("expected an error code"),
    }
    assert!(matches!(
        wait_command_outcome(false, Ok(JsonValue::Null)),
        Err(OpError::NoRpcClient)
    ));
}

#[test]
fn logs_go_to_the_container_when_a_client_is_attached() {
    assert_eq!(
        log_route(&test_context(false, true)),
        LogRoute::Container(7)
    );
    assert_eq!(log_route(&test_context(false, false)), LogRoute::Host);
}

#[test]
fn read_dir_entries_are_relative_and_sorted() {
    let entries = vec![
        "/data/main/zoo".to_owned(),
        "/data/main/alpha".to_owned(),
        "/elsewhere/file".to_owned(),
        "/data/main/beta/inner".to_owned(),
    ];
    let out = read_dir_entries("/data/main/", entries);
    assert_eq!(out, vec!["alpha", "beta/inner", "zoo"]);
}

#[test]
fn unix_time_ms_narrows() {
    assert_eq!(unix_time_ms(Some(1500)), Some(1500));
    assert_eq!(unix_time_ms(None), None);
    assert_eq!(unix_time_ms(Some(u64::MAX as u128 + 1)), None);
}
