use js_engine::context::AnswerState;
use js_engine::driver::{
    cleanup_signal, finish_procedure, input_convert_error, output_convert_error, resolve_outcome,
    CleanupOutcome, ExecOutcome, JsCode, JsExecutionEnvironment, JsProcedure, ProcedureName,
};
use js_engine::error::{ErrorValue, JsError};
use js_engine::json::JsonValue;
use js_engine::ops::SignalGroupRequest;
use js_engine::paths::HostPath;
use js_engine::volumes::Volumes;

fn environment() -> JsExecutionEnvironment {
    JsExecutionEnvironment::from_loaded(
        HostPath::parse("/srv/test"),
        JsCode("export const getConfig = () => ({});".to_owned()),
        "test-package".to_owned(),
        "0.3.0.3".to_owned(),
        Volumes::new(),
        0,
        false,
    )
}

#[test]
fn error_codes_are_stable() {
    assert_eq!(JsError::Unknown.as_code_num(), 1);
    assert_eq!(JsError::Javascript.as_code_num(), 2);
    assert_eq!(JsError::Engine.as_code_num(), 3);
    assert_eq!(JsError::BoundryLayerSerDe.as_code_num(), 4);
    assert_eq!(JsError::Tokio.as_code_num(), 5);
    assert_eq!(JsError::FileSystem.as_code_num(), 6);
    assert_eq!(JsError::NotValidProcedureName.as_code_num(), 7);
    assert_eq!(JsError::Code(42).as_code_num(), 42);
    assert_eq!(JsError::Timeout.as_code_num(), 143);
}

#[test]
fn procedure_names_map_to_entry_points() {
    assert_eq!(
        ProcedureName::GetConfig.js_function_name().unwrap(),
        "getConfig"
    );
    assert_eq!(
        ProcedureName::SetConfig.js_function_name().unwrap(),
        "setConfig"
    );
    assert_eq!(
        ProcedureName::Action("slow".to_owned())
            .js_function_name()
            .unwrap(),
        "slow"
    );
    assert!(ProcedureName::Main.js_function_name().is_none());
}

#[test]
fn invalid_procedure_name_is_a_distinct_error() {
    let env = environment();
    let err = env
        .into_context(&ProcedureName::Main, JsonValue::Null, Vec::new())
        .unwrap_err();
    assert_eq!(err.0.as_code_num(), 7);
    assert_eq!(err.1, "procedure is not value: Main");
}

#[test]
fn variable_args_reach_the_context_unchanged() {
    let env = environment();
    let ctx = env
        .into_context(
            &ProcedureName::Action("js-action-var-arg".to_owned()),
            JsonValue::Null,
            vec![JsonValue::Int(42)],
        )
        .unwrap();
    assert_eq!(ctx.current_function(), "js-action-var-arg");
    let args = ctx.get_variable_args();
    assert_eq!(args.len(), 1);
    assert!(matches!(args[0], JsonValue::Int(42)));
    assert!(ctx.get_input().is_null());
    assert!(!ctx.is_sandboxed());
}

#[test]
fn sandboxed_environment_flags_the_context() {
    let env = environment().read_only_effects();
    let ctx = env
        .into_context(&ProcedureName::GetConfig, JsonValue::Null, Vec::new())
        .unwrap();
    assert!(ctx.is_sandboxed());
}

#[test]
fn set_config_not_setup_maps_to_code_two() {
    let outcome = ExecOutcome::Completed(Some(ErrorValue::ErrorCode(2, "Not setup".to_owned())));
    let r = resolve_outcome(outcome);
    assert_eq!(r.unwrap_err(), (2, "Not setup".to_owned()));
}

#[test]
fn timeout_maps_to_code_143_with_the_retry_message() {
    let r = resolve_outcome(ExecOutcome::TimedOut);
    assert_eq!(r.unwrap_err(), (143, "Timed out. Retrying soon...".to_owned()));
}

#[test]
fn script_error_string_maps_to_the_javascript_code() {
    let outcome = ExecOutcome::Completed(Some(ErrorValue::Error("boom".to_owned())));
    assert_eq!(resolve_outcome(outcome).unwrap_err(), (2, "boom".to_owned()));
}

#[test]
fn missing_answer_is_null() {
    let r = resolve_outcome(ExecOutcome::Completed(None)).unwrap();
    assert!(r.is_null());
}

#[test]
fn host_faults_keep_their_message() {
    let outcome = ExecOutcome::HostError(JsError::FileSystem, "no script".to_owned());
    assert_eq!(
        resolve_outcome(outcome).unwrap_err(),
        (6, "no script".to_owned())
    );
}

#[test]
fn every_exit_path_owes_the_group_kill() {
    assert_eq!(
        cleanup_signal(9, true),
        Some(SignalGroupRequest { gid: 9, signal: 9 })
    );
    assert_eq!(cleanup_signal(9, false), None);
}

#[test]
fn cleanup_failure_surfaces_only_after_success() {
    let ok: Result<JsonValue, (i32, String)> = Ok(JsonValue::Null);
    let failed = finish_procedure(ok, CleanupOutcome::Failed("kill failed".to_owned()));
    assert_eq!(failed.unwrap_err(), "kill failed");
    let inner_err: Result<JsonValue, (i32, String)> = Err((2, "boom".to_owned()));
    let kept = finish_procedure(inner_err, CleanupOutcome::Failed("kill failed".to_owned()));
    assert_eq!(kept.unwrap().unwrap_err(), (2, "boom".to_owned()));
    let plain: Result<JsonValue, (i32, String)> = Err((2, "boom".to_owned()));
    let done = finish_procedure(plain, CleanupOutcome::Done);
    assert_eq!(done.unwrap().unwrap_err(), (2, "boom".to_owned()));
}

#[test]
fn answer_slot_is_last_writer_wins() {
    let mut slot = AnswerState::new();
    slot.set_value(JsonValue::Int(1));
    slot.set_value(JsonValue::Text("final".to_owned()));
    match slot.take() {
        JsonValue::Text(s) => assert_eq!(s, "final"),
        _ => panic!("expected the last write"),
    }
    assert!(slot.take().is_null());
}

#[test]
fn boundary_layer_errors_have_their_messages() {
    let (kind, message) = input_convert_error();
    assert_eq!(kind.as_code_num(), 4);
    assert_eq!(message, "Couldn't convert input");
    let (kind, message) = output_convert_error("{\"a\": 1}");
    assert_eq!(kind.as_code_num(), 4);
    assert_eq!(
        message,
        "Couldn't convert output = {\"a\": 1} to the correct type"
    );
}

#[test]
fn script_path_follows_the_layout() {
    let p = JsExecutionEnvironment::script_path(
        &HostPath::parse("/srv/test"),
        "test-package",
        "0.3.0.3",
    );
    assert_eq!(
        p.to_display(),
        "/srv/test/package-data/scripts/test-package/0.3.0.3/embassy.js"
    );
}

#[test]
fn load_failure_quotes_path_and_cause() {
    let (kind, message) = JsExecutionEnvironment::load_failure(
        "/srv/test/package-data/scripts/test-package/0.3.0.3/embassy.js",
        "No such file or directory",
    );
    assert_eq!(kind.as_code_num(), 6);
    assert_eq!(
        message,
        "The file opening '/srv/test/package-data/scripts/test-package/0.3.0.3/embassy.js' \
created error: No such file or directory"
    );
}

#[test]
fn validate_accepts_every_procedure() {
    let proc = JsProcedure { args: Vec::new() };
    assert!(proc.validate(&Volumes::new()).is_ok());
}
