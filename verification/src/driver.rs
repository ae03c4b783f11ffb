//! The caller-facing procedure driver, as decision steps: which entry
//! point a procedure name maps to, how a call's context is built, how
//! the script's answer and host faults map to the caller's result, and
//! the group-kill cleanup owed on every exit path.

use crate::context::JsContext;
use crate::error::{spec_code_num, unwrap_known_error, ErrorValue, JsError};
use crate::json::JsonValue;
use crate::ops::SignalGroupRequest;
use crate::paths::HostPath;
use crate::registry::RsyncRegistry;
use crate::volumes::Volumes;
use vstd::prelude::*;

verus! {

/// The named procedures a package can expose.
#[derive(Debug)]
pub enum ProcedureName {
    Main,
    CreateBackup,
    RestoreBackup,
    GetConfig,
    SetConfig,
    Properties,
    Action(String),
}

/// The script entry point each procedure name maps to; the long-running
/// main procedure is not a script function and maps to none.
pub open spec fn spec_js_function_name(p: ProcedureName) -> Option<Seq<char>> {
    match p {
        ProcedureName::Main => None,
        ProcedureName::CreateBackup => Some("createBackup"@),
        ProcedureName::RestoreBackup => Some("restoreBackup"@),
        ProcedureName::GetConfig => Some("getConfig"@),
        ProcedureName::SetConfig => Some("setConfig"@),
        ProcedureName::Properties => Some("properties"@),
        ProcedureName::Action(name) => Some(name@),
    }
}

/// A short rendering of a procedure name, for error messages.
pub open spec fn spec_procedure_label(p: ProcedureName) -> Seq<char> {
    match p {
        ProcedureName::Main => "Main"@,
        ProcedureName::CreateBackup => "CreateBackup"@,
        ProcedureName::RestoreBackup => "RestoreBackup"@,
        ProcedureName::GetConfig => "GetConfig"@,
        ProcedureName::SetConfig => "SetConfig"@,
        ProcedureName::Properties => "Properties"@,
        ProcedureName::Action(name) => "Action(\""@ + name@ + "\")"@,
    }
}

impl ProcedureName {
    /// The script entry point this procedure runs, if it has one.
    pub fn js_function_name(&self) -> (r: Option<String>)
        ensures
            match r {
                None => spec_js_function_name(*self) is None,
                Some(f) => spec_js_function_name(*self) == Some(f@),
            },
    {
        match self {
            ProcedureName::Main => None,
            ProcedureName::CreateBackup => Some("createBackup".to_owned()),
            ProcedureName::RestoreBackup => Some("restoreBackup".to_owned()),
            ProcedureName::GetConfig => Some("getConfig".to_owned()),
            ProcedureName::SetConfig => Some("setConfig".to_owned()),
            ProcedureName::Properties => Some("properties".to_owned()),
            ProcedureName::Action(name) => Some(name.clone()),
        }
    }

    /// Renders the name for error messages.
    pub fn label(&self) -> (r: String)
        ensures
            r@ == spec_procedure_label(*self),
    {
        match self {
            ProcedureName::Main => "Main".to_owned(),
            ProcedureName::CreateBackup => "CreateBackup".to_owned(),
            ProcedureName::RestoreBackup => "RestoreBackup".to_owned(),
            ProcedureName::GetConfig => "GetConfig".to_owned(),
            ProcedureName::SetConfig => "SetConfig".to_owned(),
            ProcedureName::Properties => "Properties".to_owned(),
            ProcedureName::Action(name) => {
                let mut out = "Action(\"".to_owned();
                out.append(name.as_str());
                out.append("\")");
                out
            },
        }
    }
}

/// A package's script, read fully into memory.
#[derive(Debug, Clone)]
pub struct JsCode(pub String);

/// Everything needed to run one procedure of a package: the script, the
/// call's scope, and the container hookup.
#[derive(Debug)]
pub struct JsExecutionEnvironment {
    pub sandboxed: bool,
    pub base_directory: HostPath,
    pub code: JsCode,
    pub package_id: String,
    pub version: String,
    pub volumes: Volumes,
    pub container_process_gid: u32,
    pub has_rpc_client: bool,
}

/// Where a package's script lives under the data directory.
pub open spec fn spec_script_path(
    data_dir: crate::paths::PathView,
    package_id: Seq<char>,
    version: Seq<char>,
) -> crate::paths::PathView {
    crate::paths::PathView {
        absolute: data_dir.absolute,
        segs: data_dir.segs + seq![
            "package-data"@,
            "scripts"@,
            package_id,
            version,
            "embassy.js"@,
        ],
    }
}

impl JsExecutionEnvironment {
    /// The path of the package's script file, which the embedding reads
    /// before building the environment.
    pub fn script_path(data_dir: &HostPath, package_id: &str, version: &str) -> (r: HostPath)
        ensures
            r@ == spec_script_path(data_dir@, package_id@, version@),
    {
        let mut rel: Vec<String> = Vec::new();
        rel.push("package-data".to_owned());
        rel.push("scripts".to_owned());
        rel.push(package_id.to_owned());
        rel.push(version.to_owned());
        rel.push("embassy.js".to_owned());
        let rel_path = HostPath { absolute: false, segs: rel };
        let joined = HostPath::join(data_dir, &rel_path);
        proof {
            assert(joined@.segs == spec_script_path(data_dir@, package_id@, version@).segs);
        }
        joined
    }

    /// The failure reported when the script file cannot be opened or
    /// read: a filesystem error quoting the path and the cause.
    pub fn load_failure(path_rendered: &str, cause: &str) -> (r: (JsError, String))
        ensures
            r.0 == JsError::FileSystem,
            r.1@ == "The file opening '"@ + path_rendered@ + "' created error: "@ + cause@,
    {
        let mut out = "The file opening '".to_owned();
        out.append(path_rendered);
        out.append("' created error: ");
        out.append(cause);
        (JsError::FileSystem, out)
    }

    /// An environment over a script the embedding has read.
    pub fn from_loaded(
        base_directory: HostPath,
        code: JsCode,
        package_id: String,
        version: String,
        volumes: Volumes,
        container_process_gid: u32,
        has_rpc_client: bool,
    ) -> (r: JsExecutionEnvironment)
        ensures
            !r.sandboxed,
            r.base_directory == base_directory,
            r.code == code,
            r.package_id == package_id,
            r.version == version,
            r.volumes == volumes,
            r.container_process_gid == container_process_gid,
            r.has_rpc_client == has_rpc_client,
    {
        JsExecutionEnvironment {
            sandboxed: false,
            base_directory,
            code,
            package_id,
            version,
            volumes,
            container_process_gid,
            has_rpc_client,
        }
    }

    /// Flags the environment as effect-free: network access is denied.
    pub fn read_only_effects(self) -> (r: JsExecutionEnvironment)
        ensures
            r.sandboxed,
            r.base_directory == self.base_directory,
            r.code == self.code,
            r.package_id == self.package_id,
            r.version == self.version,
            r.volumes == self.volumes,
            r.container_process_gid == self.container_process_gid,
            r.has_rpc_client == self.has_rpc_client,
    {
        JsExecutionEnvironment {
            sandboxed: true,
            base_directory: self.base_directory,
            code: self.code,
            package_id: self.package_id,
            version: self.version,
            volumes: self.volumes,
            container_process_gid: self.container_process_gid,
            has_rpc_client: self.has_rpc_client,
        }
    }

    /// Builds the context of one call. A procedure with no script entry
    /// point is refused as an invalid procedure name; otherwise the
    /// context carries the environment's scope, the call's input and
    /// variable arguments, and a fresh, empty sync-task registry.
    pub fn into_context(
        self,
        procedure_name: &ProcedureName,
        input: JsonValue,
        variable_args: Vec<JsonValue>,
    ) -> (r: Result<JsContext, (JsError, String)>)
        ensures
            match spec_js_function_name(*procedure_name) {
                None => r matches Err((k, m)) && k == JsError::NotValidProcedureName && m@
                    == "procedure is not value: "@ + spec_procedure_label(*procedure_name),
                Some(f) => r matches Ok(ctx) && {
                    &&& ctx.sandboxed == self.sandboxed
                    &&& ctx.data_dir == self.base_directory
                    &&& ctx.run_function@ == f
                    &&& ctx.version == self.version
                    &&& ctx.package_id == self.package_id
                    &&& ctx.volumes == self.volumes
                    &&& ctx.input == input
                    &&& ctx.variable_args == variable_args
                    &&& ctx.container_process_gid == self.container_process_gid
                    &&& ctx.has_rpc_client == self.has_rpc_client
                    &&& ctx.rsyncs.handles() == Map::<usize, u64>::empty()
                    &&& ctx.rsyncs.issued() == 0
                    &&& ctx.rsyncs.wf()
                },
            },
    {
        let run_function = match procedure_name.js_function_name() {
            Some(f) => f,
            None => {
                let mut out = "procedure is not value: ".to_owned();
                let label = procedure_name.label();
                out.append(label.as_str());
                return Err((JsError::NotValidProcedureName, out));
            },
        };
        Ok(
            JsContext {
                sandboxed: self.sandboxed,
                data_dir: self.base_directory,
                run_function,
                version: self.version,
                package_id: self.package_id,
                volumes: self.volumes,
                input,
                variable_args,
                container_process_gid: self.container_process_gid,
                has_rpc_client: self.has_rpc_client,
                rsyncs: RsyncRegistry::new(),
            },
        )
    }
}

/// The failure reported when a call's input cannot be turned into a
/// plain value.
pub fn input_convert_error() -> (r: (JsError, String))
    ensures
        r.0 == JsError::BoundryLayerSerDe,
        r.1@ == "Couldn't convert input"@,
{
    (JsError::BoundryLayerSerDe, "Couldn't convert input".to_owned())
}

/// The failure reported when a call's answer cannot be decoded as the
/// caller's declared output type; `rendered` is the embedding's
/// rendering of the answer.
pub fn output_convert_error(rendered: &str) -> (r: (JsError, String))
    ensures
        r.0 == JsError::BoundryLayerSerDe,
        r.1@ == "Couldn't convert output = "@ + rendered@ + " to the correct type"@,
{
    let mut out = "Couldn't convert output = ".to_owned();
    out.append(rendered);
    out.append(" to the correct type");
    (JsError::BoundryLayerSerDe, out)
}

/// How one execution of a procedure ended: the script ran to quiescence
/// with the answer slot's contents, the host faulted, or the wall-clock
/// timeout won the race.
#[derive(Debug)]
pub enum ExecOutcome {
    Completed(Option<ErrorValue>),
    HostError(JsError, String),
    TimedOut,
}

/// The procedure's result as the caller sees it: a timeout becomes code
/// 143 with the retry message; a host fault becomes its stable code; a
/// script answer is unwrapped, with a plain error as the script-threw
/// code and an error code passed through.
pub fn resolve_outcome(outcome: ExecOutcome) -> (r: Result<JsonValue, (i32, String)>)
    ensures
        match outcome {
            ExecOutcome::TimedOut => r matches Err((c, m)) && c == 143 && m@
                == "Timed out. Retrying soon..."@,
            ExecOutcome::HostError(k, msg) => r matches Err((c, m)) && c as int == spec_code_num(k)
                && m@ == msg@,
            ExecOutcome::Completed(answer) => match answer {
                None => r matches Ok(v) && v is Null,
                Some(ErrorValue::Error(e)) => r matches Err((c, m)) && c as int == spec_code_num(
                    JsError::Javascript,
                ) && m@ == e@,
                Some(ErrorValue::ErrorCode(code, e)) => r matches Err((c, m)) && c == code && m@
                    == e@,
                Some(ErrorValue::Result(v)) => r == Ok::<JsonValue, (i32, String)>(v),
            },
        },
{
    match outcome {
        ExecOutcome::TimedOut => Err((143, "Timed out. Retrying soon...".to_owned())),
        ExecOutcome::HostError(k, msg) => Err((k.as_code_num(), msg)),
        ExecOutcome::Completed(answer) => match unwrap_known_error(answer) {
            Ok(v) => Ok(v),
            Err((k, msg)) => Err((k.as_code_num(), msg)),
        },
    }
}

/// The group-kill owed when a procedure call returns: with a container
/// RPC client attached, SIGKILL to the call's whole process group, on
/// every exit path; without one, nothing.
pub fn cleanup_signal(gid: u32, has_rpc_client: bool) -> (r: Option<SignalGroupRequest>)
    ensures
        has_rpc_client ==> r == Some(SignalGroupRequest { gid, signal: 9 }),
        !has_rpc_client ==> r is None,
{
    if has_rpc_client {
        Some(SignalGroupRequest { gid, signal: 9 })
    } else {
        None
    }
}

/// How the group-kill cleanup ended.
#[derive(Debug)]
pub enum CleanupOutcome {
    /// No RPC client was attached, so nothing was owed.
    NotNeeded,
    /// The kill request was delivered.
    Done,
    /// The kill request itself failed, with its message.
    Failed(String),
}

/// Settles a finished call against its cleanup: a cleanup failure after
/// a successful result surfaces as the outer fault; after a failed
/// result, the original failure prevails.
pub fn finish_procedure(
    result: Result<JsonValue, (i32, String)>,
    cleanup: CleanupOutcome,
) -> (r: Result<Result<JsonValue, (i32, String)>, String>)
    ensures
        match cleanup {
            CleanupOutcome::Failed(m) => match result {
                Ok(_) => r matches Err(e) && e@ == m@,
                Err(inner) => r == Ok::<Result<JsonValue, (i32, String)>, String>(Err(inner)),
            },
            _ => r == Ok::<Result<JsonValue, (i32, String)>, String>(result),
        },
{
    match cleanup {
        CleanupOutcome::Failed(m) => match result {
            Ok(_) => Err(m),
            Err(inner) => Ok(Err(inner)),
        },
        _ => Ok(result),
    }
}

/// One procedure slot of a package manifest: the variable arguments its
/// script receives.
#[derive(Debug, Default)]
pub struct JsProcedure {
    pub args: Vec<JsonValue>,
}

impl JsProcedure {
    /// A script procedure needs nothing of the volume map to be valid.
    pub fn validate(&self, _volumes: &Volumes) -> (r: Result<(), String>)
        ensures
            r is Ok,
    {
        Ok(())
    }
}

} // verus!
