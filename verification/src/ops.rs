//! The host capabilities exposed to scripts, as checked decision steps.
//!
//! Filesystem, network, and process work is done by the embedding
//! program; each op here is split into a request step that applies the
//! volume, read-only, and containment policy and says exactly what the
//! embedding must do, and a confirm step that turns the embedding's
//! answers into the op's result.

use crate::context::JsContext;
use crate::hashing::{hex_upper, sha256, sha256_of, spec_hex_upper};
use crate::json::JsonValue;
use crate::paths::{render_path, HostPath, PathView};
use crate::text::{ascii_ci_eq, dec_of, spec_ascii_ci_eq, u64_dec};
use crate::volumes::{spec_get, spec_readonly, spec_vol_path};
use vstd::prelude::*;
use vstd::string::StrSliceExecFns;

verus! {

/// Why an op was refused.
#[derive(Debug)]
pub enum OpError {
    /// The named volume is not declared.
    NoVolume(String),
    /// The named volume is read-only and the op mutates.
    Readonly(String),
    /// The requested path broke away from the volume base; the rendered
    /// request and base are carried for the message.
    PathEscape(String, String),
    /// A sync's source path does not exist; the rendered path is carried.
    SourceMissing(String),
    /// A process or log op was called with no container RPC client.
    NoRpcClient,
    /// A network fetch was attempted in sandboxed mode.
    Sandboxed,
    /// An HTTP method outside the supported six; the method is carried.
    UnsupportedMethod(String),
    /// A wait or progress poll named a handle that is not live.
    UnknownHandle(usize),
    /// A write or rename target has no parent directory.
    FileNotRoot,
}

/// The message each refusal carries.
pub open spec fn spec_op_error_message(e: OpError) -> Seq<char> {
    match e {
        OpError::NoVolume(id) => "There is no "@ + id@ + " in volumes"@,
        OpError::Readonly(id) => "Volume "@ + id@ + " is readonly"@,
        OpError::PathEscape(child, parent) => "Path '"@ + child@
            + "' has broken away from parent '"@ + parent@ + "'"@,
        OpError::SourceMissing(src) => "Source at "@ + src@ + " does not exists"@,
        OpError::NoRpcClient => "No RpcClient for command operations"@,
        OpError::Sandboxed => "Will not run fetch in sandboxed mode"@,
        OpError::UnsupportedMethod(m) => "Unsupported method: "@ + m@,
        OpError::UnknownHandle(id) => "Couldn't find rsync at id "@ + dec_of(id as nat),
        OpError::FileNotRoot => "Expecting that file is not root"@,
    }
}

impl OpError {
    /// Renders the refusal as its message.
    pub fn message(self) -> (r: String)
        ensures
            r@ == spec_op_error_message(self),
    {
        match self {
            OpError::NoVolume(id) => {
                let mut out = "There is no ".to_owned();
                out.append(id.as_str());
                out.append(" in volumes");
                out
            },
            OpError::Readonly(id) => {
                let mut out = "Volume ".to_owned();
                out.append(id.as_str());
                out.append(" is readonly");
                out
            },
            OpError::PathEscape(child, parent) => {
                let mut out = "Path '".to_owned();
                out.append(child.as_str());
                out.append("' has broken away from parent '");
                out.append(parent.as_str());
                out.append("'");
                out
            },
            OpError::SourceMissing(src) => {
                let mut out = "Source at ".to_owned();
                out.append(src.as_str());
                out.append(" does not exists");
                out
            },
            OpError::NoRpcClient => "No RpcClient for command operations".to_owned(),
            OpError::Sandboxed => "Will not run fetch in sandboxed mode".to_owned(),
            OpError::UnsupportedMethod(m) => {
                let mut out = "Unsupported method: ".to_owned();
                out.append(m.as_str());
                out
            },
            OpError::UnknownHandle(id) => {
                let mut out = "Couldn't find rsync at id ".to_owned();
                let num = u64_dec(id as u64);
                out.append(num.as_str());
                out
            },
            OpError::FileNotRoot => "Expecting that file is not root".to_owned(),
        }
    }
}

/// A containment question the embedding must put to the filesystem scan:
/// is `child` inside `parent`?
#[derive(Debug)]
pub struct PathCheck {
    pub parent: HostPath,
    pub child: HostPath,
}

/// The volume base for this call, per the declared volume map.
pub open spec fn spec_volume_base(ctx: JsContext, volume_id: Seq<char>) -> Option<PathView> {
    match spec_get(ctx.volumes.entries@, volume_id) {
        None => None,
        Some(v) => Some(
            spec_vol_path(v, ctx.data_dir@, ctx.package_id@, ctx.version@, volume_id),
        ),
    }
}

/// Resolves the base path of a volume, or refuses with the volume's name.
pub fn resolve_volume(ctx: &JsContext, volume_id: &str) -> (r: Result<HostPath, OpError>)
    ensures
        match r {
            Ok(p) => spec_volume_base(*ctx, volume_id@) == Some(p@),
            Err(e) => spec_volume_base(*ctx, volume_id@) is None && (e matches
            OpError::NoVolume(id) && id@ == volume_id@),
        },
{
    match ctx.volumes.path_for(
        &ctx.data_dir,
        ctx.package_id.as_str(),
        ctx.version.as_str(),
        volume_id,
    ) {
        Some(p) => Ok(p),
        None => Err(OpError::NoVolume(volume_id.to_owned())),
    }
}

/// Refuses a mutating op on a read-only volume.
pub fn require_writable(ctx: &JsContext, volume_id: &str) -> (r: Result<(), OpError>)
    ensures
        match r {
            Ok(_) => !spec_readonly(ctx.volumes.entries@, volume_id@),
            Err(e) => spec_readonly(ctx.volumes.entries@, volume_id@) && (e matches
            OpError::Readonly(id) && id@ == volume_id@),
        },
{
    if ctx.volumes.readonly(volume_id) {
        Err(OpError::Readonly(volume_id.to_owned()))
    } else {
        Ok(())
    }
}

/// The escape refusal for a request outside its volume, quoting both the
/// request and the base.
pub fn escape_error(check: &PathCheck) -> (e: OpError)
    ensures
        e matches OpError::PathEscape(child, parent) && child@ == render_path(check.child@)
            && parent@ == render_path(check.parent@),
{
    OpError::PathEscape(check.child.to_display(), check.parent.to_display())
}

/// Turns the scan's verdict on a containment question into the op's
/// decision: a request outside its volume fails with the escape message.
pub fn confirm_contained(check: &PathCheck, contained: bool) -> (r: Result<(), OpError>)
    ensures
        contained ==> r is Ok,
        !contained ==> (r matches Err(e) && (e matches OpError::PathEscape(child, parent) && child@
            == render_path(check.child@) && parent@ == render_path(check.parent@))),
{
    if contained {
        Ok(())
    } else {
        Err(escape_error(check))
    }
}

/// The path an op asks about: the request joined onto the volume base.
pub open spec fn spec_request_path(base: PathView, path_in: Seq<char>) -> PathView {
    crate::paths::join_views(
        base,
        PathView {
            absolute: crate::paths::path_is_absolute(path_in),
            segs: crate::paths::path_segs_of(path_in),
        },
    )
}

/// A reading op's request step: resolves the volume and poses the
/// containment question for the requested path. Shared by the file read,
/// metadata, and directory listing ops.
pub fn read_path_request(ctx: &JsContext, volume_id: &str, path_in: &str) -> (r: Result<
    PathCheck,
    OpError,
>)
    ensures
        match r {
            Ok(c) => spec_volume_base(*ctx, volume_id@) == Some(c.parent@) && c.child@
                == spec_request_path(c.parent@, path_in@),
            Err(e) => spec_volume_base(*ctx, volume_id@) is None && (e matches OpError::NoVolume(
                id,
            ) && id@ == volume_id@),
        },
{
    let base = resolve_volume(ctx, volume_id)?;
    let rel = HostPath::parse(path_in);
    let child = HostPath::join(&base, &rel);
    Ok(PathCheck { parent: base, child })
}

/// A mutating op's request step: as `read_path_request`, but a read-only
/// volume is refused first. Shared by the file removal, directory
/// removal, and directory creation ops.
pub fn mutate_path_request(ctx: &JsContext, volume_id: &str, path_in: &str) -> (r: Result<
    PathCheck,
    OpError,
>)
    ensures
        match r {
            Ok(c) => {
                &&& spec_volume_base(*ctx, volume_id@) == Some(c.parent@)
                &&& !spec_readonly(ctx.volumes.entries@, volume_id@)
                &&& c.child@ == spec_request_path(c.parent@, path_in@)
            },
            Err(e) => match e {
                OpError::NoVolume(id) => spec_volume_base(*ctx, volume_id@) is None && id@
                    == volume_id@,
                OpError::Readonly(id) => spec_volume_base(*ctx, volume_id@) is Some
                    && spec_readonly(ctx.volumes.entries@, volume_id@) && id@ == volume_id@,
                _ => false,
            },
        },
{
    let base = resolve_volume(ctx, volume_id)?;
    require_writable(ctx, volume_id)?;
    let rel = HostPath::parse(path_in);
    let child = HostPath::join(&base, &rel);
    Ok(PathCheck { parent: base, child })
}

/// The sibling temporary directory of a volume base: the base with
/// `.tmp` appended to its final segment.
pub open spec fn spec_tmp_dir(base: PathView) -> PathView {
    if base.segs.len() == 0 {
        PathView { absolute: base.absolute, segs: seq![".tmp"@] }
    } else {
        PathView {
            absolute: base.absolute,
            segs: base.segs.update(base.segs.len() - 1, base.segs.last() + ".tmp"@),
        }
    }
}

/// An atomic write, fully planned: write `tmp_file`, then rename it onto
/// `target`. The temporary file lives in the volume's sibling temporary
/// directory, under a name derived from the digest of the requested path,
/// so a crash mid-write never leaves a partial `target`.
#[derive(Debug)]
pub struct WritePlan {
    pub target: HostPath,
    pub check: PathCheck,
    pub tmp_file: HostPath,
}

/// The temporary file's name: the hex form of the digest of the
/// requested path.
pub open spec fn spec_tmp_name(path_in: Seq<char>) -> Seq<char> {
    spec_hex_upper(sha256_of(vstd::utf8::encode_utf8(path_in)))
}

/// The file write op's request step: resolves the volume, refuses
/// read-only volumes, refuses a target without a parent, poses the
/// containment question for the target's parent, and plans the atomic
/// write through the sibling temporary directory.
pub fn write_file_request(ctx: &JsContext, volume_id: &str, path_in: &str) -> (r: Result<
    WritePlan,
    OpError,
>)
    ensures
        match r {
            Ok(plan) => {
                &&& spec_volume_base(*ctx, volume_id@) == Some(plan.check.parent@)
                &&& !spec_readonly(ctx.volumes.entries@, volume_id@)
                &&& plan.target@ == spec_request_path(plan.check.parent@, path_in@)
                &&& plan.target@.segs.len() > 0
                &&& plan.check.child@ == (PathView {
                    absolute: plan.target@.absolute,
                    segs: plan.target@.segs.drop_last(),
                })
                &&& plan.tmp_file@ == (PathView {
                    absolute: plan.check.parent@.absolute,
                    segs: spec_tmp_dir(plan.check.parent@).segs.push(spec_tmp_name(path_in@)),
                })
            },
            Err(e) => match e {
                OpError::NoVolume(id) => spec_volume_base(*ctx, volume_id@) is None && id@
                    == volume_id@,
                OpError::Readonly(id) => spec_volume_base(*ctx, volume_id@) is Some
                    && spec_readonly(ctx.volumes.entries@, volume_id@) && id@ == volume_id@,
                OpError::FileNotRoot => spec_volume_base(*ctx, volume_id@) matches Some(base)
                    && !spec_readonly(ctx.volumes.entries@, volume_id@) && spec_request_path(
                    base,
                    path_in@,
                ).segs.len() == 0,
                _ => false,
            },
        },
{
    let base = resolve_volume(ctx, volume_id)?;
    require_writable(ctx, volume_id)?;
    let rel = HostPath::parse(path_in);
    let target = HostPath::join(&base, &rel);
    let parent = match path_parent(&target) {
        Some(p) => p,
        None => {
            return Err(OpError::FileNotRoot);
        },
    };
    let tmp_file = tmp_file_path(&base, path_in);
    Ok(WritePlan { target, check: PathCheck { parent: base, child: parent }, tmp_file })
}

/// A rename, fully planned: two containment questions, then move `src`
/// onto `dst`.
#[derive(Debug)]
pub struct RenamePlan {
    pub src: HostPath,
    pub dst: HostPath,
    pub src_check: PathCheck,
    pub dst_check: PathCheck,
}

/// The rename op's request step: resolves both volumes, refuses a
/// read-only destination, refuses endpoints without parents, and poses
/// the containment question for each endpoint's parent.
pub fn rename_request(
    ctx: &JsContext,
    src_volume: &str,
    src_path: &str,
    dst_volume: &str,
    dst_path: &str,
) -> (r: Result<RenamePlan, OpError>)
    ensures
        match r {
            Ok(plan) => {
                &&& spec_volume_base(*ctx, src_volume@) == Some(plan.src_check.parent@)
                &&& spec_volume_base(*ctx, dst_volume@) == Some(plan.dst_check.parent@)
                &&& !spec_readonly(ctx.volumes.entries@, dst_volume@)
                &&& plan.src@ == spec_request_path(plan.src_check.parent@, src_path@)
                &&& plan.dst@ == spec_request_path(plan.dst_check.parent@, dst_path@)
                &&& plan.src@.segs.len() > 0
                &&& plan.dst@.segs.len() > 0
                &&& plan.src_check.child@ == (PathView {
                    absolute: plan.src@.absolute,
                    segs: plan.src@.segs.drop_last(),
                })
                &&& plan.dst_check.child@ == (PathView {
                    absolute: plan.dst@.absolute,
                    segs: plan.dst@.segs.drop_last(),
                })
            },
            Err(e) => match e {
                OpError::NoVolume(id) => (id@ == src_volume@ && spec_volume_base(
                    *ctx,
                    src_volume@,
                ) is None) || (id@ == dst_volume@ && spec_volume_base(*ctx, dst_volume@) is None),
                OpError::Readonly(id) => spec_readonly(ctx.volumes.entries@, dst_volume@) && id@
                    == dst_volume@,
                OpError::FileNotRoot => spec_volume_base(*ctx, src_volume@) matches Some(sb)
                    && (spec_volume_base(*ctx, dst_volume@) matches Some(db) && !spec_readonly(
                    ctx.volumes.entries@,
                    dst_volume@,
                ) && (spec_request_path(sb, src_path@).segs.len() == 0 || spec_request_path(
                    db,
                    dst_path@,
                ).segs.len() == 0)),
                _ => false,
            },
        },
{
    let src_base = resolve_volume(ctx, src_volume)?;
    let dst_base = resolve_volume(ctx, dst_volume)?;
    require_writable(ctx, dst_volume)?;
    let src = HostPath::join(&src_base, &HostPath::parse(src_path));
    let src_parent = match path_parent(&src) {
        Some(p) => p,
        None => {
            return Err(OpError::FileNotRoot);
        },
    };
    let dst = HostPath::join(&dst_base, &HostPath::parse(dst_path));
    let dst_parent = match path_parent(&dst) {
        Some(p) => p,
        None => {
            return Err(OpError::FileNotRoot);
        },
    };
    Ok(
        RenamePlan {
            src,
            dst,
            src_check: PathCheck { parent: src_base, child: src_parent },
            dst_check: PathCheck { parent: dst_base, child: dst_parent },
        },
    )
}

/// A directory sync, fully planned: two containment questions on the
/// full endpoints, an existence probe on the source, then the sync.
#[derive(Debug)]
pub struct RsyncPlan {
    pub src_check: PathCheck,
    pub dst_check: PathCheck,
}

/// The sync op's request step: resolves both volumes, refuses a
/// read-only destination, and poses the containment question for each
/// endpoint.
pub fn rsync_request(
    ctx: &JsContext,
    src_volume: &str,
    src_path: &str,
    dst_volume: &str,
    dst_path: &str,
) -> (r: Result<RsyncPlan, OpError>)
    ensures
        match r {
            Ok(plan) => {
                &&& spec_volume_base(*ctx, src_volume@) == Some(plan.src_check.parent@)
                &&& spec_volume_base(*ctx, dst_volume@) == Some(plan.dst_check.parent@)
                &&& !spec_readonly(ctx.volumes.entries@, dst_volume@)
                &&& plan.src_check.child@ == spec_request_path(plan.src_check.parent@, src_path@)
                &&& plan.dst_check.child@ == spec_request_path(plan.dst_check.parent@, dst_path@)
            },
            Err(e) => match e {
                OpError::NoVolume(id) => (id@ == src_volume@ && spec_volume_base(
                    *ctx,
                    src_volume@,
                ) is None) || (id@ == dst_volume@ && spec_volume_base(*ctx, dst_volume@) is None),
                OpError::Readonly(id) => spec_readonly(ctx.volumes.entries@, dst_volume@) && id@
                    == dst_volume@,
                _ => false,
            },
        },
{
    let src_base = resolve_volume(ctx, src_volume)?;
    let dst_base = resolve_volume(ctx, dst_volume)?;
    require_writable(ctx, dst_volume)?;
    let src = HostPath::join(&src_base, &HostPath::parse(src_path));
    let dst = HostPath::join(&dst_base, &HostPath::parse(dst_path));
    Ok(
        RsyncPlan {
            src_check: PathCheck { parent: src_base, child: src },
            dst_check: PathCheck { parent: dst_base, child: dst },
        },
    )
}

/// Turns the filesystem's answer about a sync source into the op's
/// decision: a missing source fails, quoting the path.
pub fn rsync_source_exists(plan: &RsyncPlan, exists: bool) -> (r: Result<(), OpError>)
    ensures
        exists ==> r is Ok,
        !exists ==> (r matches Err(e) && (e matches OpError::SourceMissing(src) && src@
            == render_path(plan.src_check.child@))),
{
    if exists {
        Ok(())
    } else {
        Err(OpError::SourceMissing(plan.src_check.child.to_display()))
    }
}

/// Takes the task behind a handle out of the registry; an unknown
/// handle is refused. The wait op removes for good; the progress op
/// removes, polls the task, and puts the handle back with `reinsert`,
/// so the registry's lock is never held across the poll.
pub fn rsync_wait_take(reg: &mut crate::registry::RsyncRegistry, id: usize) -> (r: Result<
    u64,
    OpError,
>)
    requires
        old(reg).wf(),
    ensures
        final(reg).wf(),
        final(reg).issued() == old(reg).issued(),
        match r {
            Ok(task) => old(reg).handles().dom().contains(id) && task == old(reg).handles()[id]
                && final(reg).handles() == old(reg).handles().remove(id),
            Err(e) => !old(reg).handles().dom().contains(id) && final(reg).handles() == old(
                reg,
            ).handles() && (e matches OpError::UnknownHandle(h) && h == id),
        },
{
    match reg.remove(id) {
        Some(task) => Ok(task),
        None => Err(OpError::UnknownHandle(id)),
    }
}

/// What the metadata op returns to the script: the plain facts of one
/// directory entry, with times in milliseconds since the epoch.
#[derive(Debug)]
pub struct MetadataJs {
    pub file_type: String,
    pub is_dir: bool,
    pub is_file: bool,
    pub is_symlink: bool,
    pub len: u64,
    pub modified: Option<u64>,
    pub accessed: Option<u64>,
    pub created: Option<u64>,
    pub readonly: bool,
    pub gid: u32,
    pub mode: u32,
    pub uid: u32,
}

/// Narrows a millisecond count to 64 bits; a count too large to carry
/// is dropped, as is a time before the epoch (carried as `None`).
pub fn unix_time_ms(ms: Option<u128>) -> (r: Option<u64>)
    ensures
        match ms {
            Some(v) => if v <= u64::MAX {
                r == Some(v as u64)
            } else {
                r is None
            },
            None => r is None,
        },
{
    match ms {
        Some(v) => if v <= u64::MAX as u128 {
            Some(v as u64)
        } else {
            None
        },
        None => None,
    }
}

/// The six HTTP methods the fetch op supports.
#[derive(Debug, Clone, Copy, PartialEq, Eq, Structural)]
pub enum HttpMethod {
    Get,
    Post,
    Put,
    Delete,
    Head,
    Patch,
}

/// The canonical spelling of a supported method.
pub open spec fn spec_method_name(m: HttpMethod) -> Seq<char> {
    match m {
        HttpMethod::Get => "GET"@,
        HttpMethod::Post => "POST"@,
        HttpMethod::Put => "PUT"@,
        HttpMethod::Delete => "DELETE"@,
        HttpMethod::Head => "HEAD"@,
        HttpMethod::Patch => "PATCH"@,
    }
}

/// Which supported method a request named, up to ASCII case; none for
/// anything else.
pub open spec fn spec_method_of(m: Seq<char>) -> Option<HttpMethod> {
    if spec_ascii_ci_eq(m, "GET"@) {
        Some(HttpMethod::Get)
    } else if spec_ascii_ci_eq(m, "POST"@) {
        Some(HttpMethod::Post)
    } else if spec_ascii_ci_eq(m, "PUT"@) {
        Some(HttpMethod::Put)
    } else if spec_ascii_ci_eq(m, "DELETE"@) {
        Some(HttpMethod::Delete)
    } else if spec_ascii_ci_eq(m, "HEAD"@) {
        Some(HttpMethod::Head)
    } else if spec_ascii_ci_eq(m, "PATCH"@) {
        Some(HttpMethod::Patch)
    } else {
        None
    }
}

/// One HTTP request the embedding must perform for the fetch op.
#[derive(Debug)]
pub struct FetchPlan {
    pub method: HttpMethod,
    pub url: String,
    pub headers: Vec<(String, String)>,
    pub body: Option<String>,
}

/// The fetch op's request step. In sandboxed mode the op is refused
/// before any request is formed, so no connection is ever opened. An
/// omitted method means GET; methods are matched up to ASCII case, and
/// anything but the six supported ones is refused.
pub fn fetch_request(
    ctx: &JsContext,
    url: String,
    method: Option<String>,
    headers: Vec<(String, String)>,
    body: Option<String>,
) -> (r: Result<FetchPlan, OpError>)
    ensures
        ctx.sandboxed ==> (r matches Err(e) && e is Sandboxed),
        !ctx.sandboxed ==> {
            let named = match method {
                None => "GET"@,
                Some(m) => m@,
            };
            match spec_method_of(named) {
                Some(k) => r matches Ok(plan) && plan.method == k && plan.url@ == url@
                    && plan.headers.deep_view() == headers.deep_view() && plan.body.deep_view()
                    == body.deep_view(),
                None => r matches Err(e) && (e matches OpError::UnsupportedMethod(m) && m@
                    == named),
            }
        },
{
    if ctx.sandboxed {
        return Err(OpError::Sandboxed);
    }
    let named: String = match method {
        None => "GET".to_owned(),
        Some(m) => m,
    };
    let kind = if ascii_ci_eq(named.as_str(), "GET") {
        Some(HttpMethod::Get)
    } else if ascii_ci_eq(named.as_str(), "POST") {
        Some(HttpMethod::Post)
    } else if ascii_ci_eq(named.as_str(), "PUT") {
        Some(HttpMethod::Put)
    } else if ascii_ci_eq(named.as_str(), "DELETE") {
        Some(HttpMethod::Delete)
    } else if ascii_ci_eq(named.as_str(), "HEAD") {
        Some(HttpMethod::Head)
    } else if ascii_ci_eq(named.as_str(), "PATCH") {
        Some(HttpMethod::Patch)
    } else {
        None
    };
    match kind {
        Some(k) => Ok(FetchPlan { method: k, url, headers, body }),
        None => Err(OpError::UnsupportedMethod(named)),
    }
}

/// What the fetch op returns to the script.
#[derive(Debug)]
pub struct FetchResponse {
    pub method: String,
    pub ok: bool,
    pub status: u32,
    pub headers: Vec<(String, String)>,
    pub body: Option<String>,
}

/// Assembles the fetch op's answer from the response the embedding
/// received: the canonical method name, whether the status is a success
/// status, and the response pieces unchanged.
pub fn fetch_response(
    method: HttpMethod,
    status: u16,
    headers: Vec<(String, String)>,
    body: Option<String>,
) -> (r: FetchResponse)
    ensures
        r.method@ == spec_method_name(method),
        r.ok == (200 <= status < 300),
        r.status == status,
        r.headers.deep_view() == headers.deep_view(),
        r.body.deep_view() == body.deep_view(),
{
    let name: &str = match method {
        HttpMethod::Get => "GET",
        HttpMethod::Post => "POST",
        HttpMethod::Put => "PUT",
        HttpMethod::Delete => "DELETE",
        HttpMethod::Head => "HEAD",
        HttpMethod::Patch => "PATCH",
    };
    FetchResponse {
        method: name.to_owned(),
        ok: 200 <= status && status < 300,
        status: status as u32,
        headers,
        body,
    }
}

/// One signal the embedding must forward to a process.
#[derive(Debug, PartialEq, Eq, Structural)]
pub struct SignalRequest {
    pub pid: u32,
    pub signal: u32,
}

/// One signal the embedding must forward to a whole process group.
#[derive(Debug, PartialEq, Eq, Structural)]
pub struct SignalGroupRequest {
    pub gid: u32,
    pub signal: u32,
}

/// The signal op's decision: without a container RPC client the op is
/// refused; with one, the exact signal request to forward.
pub fn send_signal_request(ctx: &JsContext, pid: u32, signal: u32) -> (r: Result<
    SignalRequest,
    OpError,
>)
    ensures
        ctx.has_rpc_client ==> r == Ok::<SignalRequest, OpError>(SignalRequest { pid, signal }),
        !ctx.has_rpc_client ==> (r matches Err(e) && e is NoRpcClient),
{
    if ctx.has_rpc_client {
        Ok(SignalRequest { pid, signal })
    } else {
        Err(OpError::NoRpcClient)
    }
}

/// The group-signal op's decision: as `send_signal_request`, for a whole
/// process group.
pub fn signal_group_request(ctx: &JsContext, gid: u32, signal: u32) -> (r: Result<
    SignalGroupRequest,
    OpError,
>)
    ensures
        ctx.has_rpc_client ==> r == Ok::<SignalGroupRequest, OpError>(
            SignalGroupRequest { gid, signal },
        ),
        !ctx.has_rpc_client ==> (r matches Err(e) && e is NoRpcClient),
{
    if ctx.has_rpc_client {
        Ok(SignalGroupRequest { gid, signal })
    } else {
        Err(OpError::NoRpcClient)
    }
}

/// How a spawned process's output is to be handled by the supervisor:
/// captured for a later wait, or inherited by the container.
#[derive(Debug, Clone, Copy, PartialEq, Eq, Structural)]
pub enum OutputStrategy {
    Collect,
    Inherit,
}

/// A spawn the embedding must forward to the container supervisor, under
/// the call's process group.
#[derive(Debug)]
pub struct RunCommandRequest {
    pub gid: u32,
    pub command: String,
    pub args: Vec<String>,
    pub output: OutputStrategy,
}

/// A kill the embedding must schedule after a spawn with a timeout: send
/// `signal` to the spawned process once `delay_ms` have passed.
#[derive(Debug, PartialEq, Eq, Structural)]
pub struct KillSchedule {
    pub delay_ms: u64,
    pub signal: u32,
}

/// A spawn, fully planned: the request and, when the caller set a
/// timeout, the kill to schedule against the returned process.
#[derive(Debug)]
pub struct StartCommandPlan {
    pub request: RunCommandRequest,
    pub kill: Option<KillSchedule>,
}

/// What the process-start op returns to the script.
#[derive(Debug, PartialEq, Eq, Structural)]
pub struct StartCommand {
    pub process_id: u32,
}

/// The process-start op's request step: without a container RPC client
/// the op is refused; with one, the spawn under the call's process group
/// and, for a timeout of `t`, a kill by SIGKILL scheduled `t`
/// milliseconds out.
pub fn start_command_request(
    ctx: &JsContext,
    command: String,
    args: Vec<String>,
    output: OutputStrategy,
    timeout_ms: Option<u64>,
) -> (r: Result<StartCommandPlan, OpError>)
    ensures
        !ctx.has_rpc_client ==> (r matches Err(e) && e is NoRpcClient),
        ctx.has_rpc_client ==> (r matches Ok(plan) && {
            &&& plan.request.gid == ctx.container_process_gid
            &&& plan.request.command@ == command@
            &&& plan.request.args.deep_view() == args.deep_view()
            &&& plan.request.output == output
            &&& plan.kill == (match timeout_ms {
                None => None,
                Some(t) => Some(KillSchedule { delay_ms: t, signal: 9 }),
            })
        }),
{
    if !ctx.has_rpc_client {
        return Err(OpError::NoRpcClient);
    }
    let kill = match timeout_ms {
        None => None,
        Some(t) => Some(KillSchedule { delay_ms: t, signal: 9 }),
    };
    Ok(
        StartCommandPlan {
            request: RunCommandRequest { gid: ctx.container_process_gid, command, args, output },
            kill,
        },
    )
}

/// The process-start op's answer: the process id the supervisor chose.
pub fn start_command_started(pid: u32) -> (r: StartCommand)
    ensures
        r.process_id == pid,
{
    StartCommand { process_id: pid }
}

/// What waiting on a process yields: the collected output, or the
/// supervisor's error code with its message.
#[derive(Debug)]
pub enum ResultType {
    Result(JsonValue),
    ErrorCode(i32, String),
}

/// The process-wait op's decision: without a container RPC client the op
/// is refused; a supervisor answer is passed through, and a supervisor
/// error becomes an error-code result.
pub fn wait_command_outcome(has_rpc_client: bool, outcome: Result<JsonValue, (i32, String)>) -> (r:
    Result<ResultType, OpError>)
    ensures
        !has_rpc_client ==> (r matches Err(e) && e is NoRpcClient),
        has_rpc_client ==> match outcome {
            Ok(v) => r matches Ok(t) && t == ResultType::Result(v),
            Err((code, message)) => r matches Ok(t) && (t matches ResultType::ErrorCode(c, m) && c
                == code && m@ == message@),
        },
{
    if !has_rpc_client {
        return Err(OpError::NoRpcClient);
    }
    match outcome {
        Ok(v) => Ok(ResultType::Result(v)),
        Err((code, message)) => Ok(ResultType::ErrorCode(code, message)),
    }
}

/// The message carried by a supervisor error: the error's data when it
/// is a plain string, else the rendering the embedding made of it.
pub fn rpc_error_message(data: Option<JsonValue>, rendered: String) -> (r: String)
    ensures
        match data {
            Some(JsonValue::Text(s)) => r@ == s@,
            _ => r@ == rendered@,
        },
{
    match data {
        Some(JsonValue::Text(s)) => s,
        _ => rendered,
    }
}

/// The five log levels scripts can emit at.
#[derive(Debug, Clone, Copy, PartialEq, Eq, Structural)]
pub enum LogLevel {
    Trace,
    Warn,
    Error,
    Debug,
    Info,
}

/// Where a log line goes: to the container supervisor, tagged with the
/// call's process group, or to the host's own log.
#[derive(Debug, PartialEq, Eq, Structural)]
pub enum LogRoute {
    Container(u32),
    Host,
}

/// The log ops' routing decision: lines go to the container supervisor
/// whenever an RPC client is attached, and to the host log otherwise.
pub fn log_route(ctx: &JsContext) -> (r: LogRoute)
    ensures
        ctx.has_rpc_client ==> r == LogRoute::Container(ctx.container_process_gid),
        !ctx.has_rpc_client ==> r == LogRoute::Host,
{
    if ctx.has_rpc_client {
        LogRoute::Container(ctx.container_process_gid)
    } else {
        LogRoute::Host
    }
}

/// The entries a directory listing hands back: of the raw entries, those
/// under the listed directory, relative to it, in order.
pub open spec fn spec_relative_entries(origin: Seq<char>, entries: Seq<Seq<char>>) -> Seq<
    Seq<char>,
>
    decreases entries.len(),
{
    if entries.len() == 0 {
        Seq::empty()
    } else if crate::text::spec_has_prefix(entries.first(), origin) {
        seq![entries.first().skip(origin.len() as int)] + spec_relative_entries(
            origin,
            entries.drop_first(),
        )
    } else {
        spec_relative_entries(origin, entries.drop_first())
    }
}

/// Every entry a listing hands back is some raw entry under the listed
/// directory with the directory stripped off: relative, never absolute.
pub proof fn lemma_relative_entries_are_stripped(origin: Seq<char>, entries: Seq<Seq<char>>)
    ensures
        forall|x: Seq<char>|
            #[trigger] spec_relative_entries(origin, entries).contains(x) ==> exists|k: int|
                0 <= k < entries.len() && crate::text::spec_has_prefix(entries[k], origin) && x
                    == entries[k].skip(origin.len() as int),
    decreases entries.len(),
{
    if entries.len() > 0 {
        lemma_relative_entries_are_stripped(origin, entries.drop_first());
        assert forall|x: Seq<char>|
            #[trigger] spec_relative_entries(origin, entries).contains(x) implies exists|k: int|
            0 <= k < entries.len() && crate::text::spec_has_prefix(entries[k], origin) && x
                == entries[k].skip(origin.len() as int) by {
            if crate::text::spec_has_prefix(entries.first(), origin) && x == entries.first().skip(
                origin.len() as int,
            ) {
                assert(crate::text::spec_has_prefix(entries[0], origin) && x == entries[0].skip(
                    origin.len() as int,
                ));
            } else {
                assert(spec_relative_entries(origin, entries.drop_first()).contains(x)) by {
                    let head = spec_relative_entries(origin, entries);
                    let tail = spec_relative_entries(origin, entries.drop_first());
                    if crate::text::spec_has_prefix(entries.first(), origin) {
                        let i = choose|i: int| 0 <= i < head.len() && head[i] == x;
                        assert(head[i] == tail[i - 1]);
                    }
                }
                let k0 = choose|k0: int|
                    0 <= k0 < entries.drop_first().len() && crate::text::spec_has_prefix(
                        entries.drop_first()[k0],
                        origin,
                    ) && x == entries.drop_first()[k0].skip(origin.len() as int);
                assert(entries.drop_first()[k0] == entries[k0 + 1]);
            }
        }
    }
}

/// The directory-listing op's answer step: keeps the raw entries under
/// `origin`, strips `origin` from each, and sorts the rest ascending.
/// `origin` is the listed directory's rendered path with a trailing
/// slash, so every entry handed back is relative to it.
pub fn read_dir_entries(origin: &str, entries: Vec<String>) -> (r: Vec<String>)
    ensures
        crate::text::strings_sorted(r.deep_view()),
        r.deep_view().to_multiset() == spec_relative_entries(
            origin@,
            entries.deep_view(),
        ).to_multiset(),
{
    let n_origin: usize = origin.unicode_len();
    let mut kept: Vec<String> = Vec::new();
    let mut i: usize = 0;
    proof {
        assert(entries.deep_view().skip(0) =~= entries.deep_view());
        assert(kept.deep_view() + spec_relative_entries(origin@, entries.deep_view())
            =~= spec_relative_entries(origin@, entries.deep_view()));
    }
    while i < entries.len()
        invariant
            n_origin == origin@.len(),
            0 <= i <= entries.len(),
            kept.deep_view() + spec_relative_entries(
                origin@,
                entries.deep_view().skip(i as int),
            ) == spec_relative_entries(origin@, entries.deep_view()),
        decreases entries.len() - i,
    {
        let ghost rest = entries.deep_view().skip(i as int);
        proof {
            assert(rest.first() == entries.deep_view()[i as int]);
            assert(rest.drop_first() =~= entries.deep_view().skip(i as int + 1));
        }
        let entry: &String = &entries[i];
        if crate::text::str_has_prefix(entry.as_str(), origin) {
            let stripped = entry.as_str().substring_char(n_origin, entry.as_str().unicode_len());
            let ghost old_deep = kept.deep_view();
            kept.push(stripped.to_owned());
            proof {
                assert(stripped@ =~= rest.first().skip(origin@.len() as int));
                assert(kept.deep_view() =~= old_deep.push(rest.first().skip(origin@.len() as int)));
                assert(old_deep.push(rest.first().skip(origin@.len() as int)) + spec_relative_entries(
                    origin@,
                    rest.drop_first(),
                ) =~= old_deep + (seq![rest.first().skip(origin@.len() as int)]
                    + spec_relative_entries(origin@, rest.drop_first())));
            }
        }
        i = i + 1;
    }
    proof {
        assert(entries.deep_view().skip(entries.len() as int) =~= Seq::<Seq<char>>::empty());
        assert(kept.deep_view() + Seq::<Seq<char>>::empty() =~= kept.deep_view());
    }
    crate::text::sort_strings(kept)
}

/// The parent of a path: everything but the final segment, or nothing at
/// the root.
fn path_parent(p: &HostPath) -> (r: Option<HostPath>)
    ensures
        match r {
            Some(q) => p@.segs.len() > 0 && q@ == (PathView {
                absolute: p@.absolute,
                segs: p@.segs.drop_last(),
            }),
            None => p@.segs.len() == 0,
        },
{
    if p.segs.len() == 0 {
        None
    } else {
        let mut segs: Vec<String> = Vec::new();
        let mut i: usize = 0;
        while i < p.segs.len() - 1
            invariant
                p.segs.len() > 0,
                0 <= i <= p.segs.len() - 1,
                segs.deep_view() == p.segs.deep_view().take(i as int),
            decreases p.segs.len() - 1 - i,
        {
            let ghost old_deep = segs.deep_view();
            segs.push(p.segs[i].clone());
            proof {
                assert(segs.deep_view() =~= old_deep.push(p.segs.deep_view()[i as int]));
                assert(old_deep.push(p.segs.deep_view()[i as int]) =~= p.segs.deep_view().take(
                    i as int + 1,
                ));
            }
            i = i + 1;
        }
        proof {
            assert(p.segs.deep_view().take(p.segs.len() - 1) =~= p.segs.deep_view().drop_last());
        }
        Some(HostPath { absolute: p.absolute, segs })
    }
}

/// The temporary file for an atomic write: in the volume's sibling
/// temporary directory, named by the digest of the requested path.
fn tmp_file_path(base: &HostPath, path_in: &str) -> (r: HostPath)
    ensures
        r@ == (PathView {
            absolute: base@.absolute,
            segs: spec_tmp_dir(base@).segs.push(spec_tmp_name(path_in@)),
        }),
{
    let digest = sha256(path_in.as_bytes());
    let name = hex_upper(digest.as_slice());
    let mut segs: Vec<String> = Vec::new();
    if base.segs.len() == 0 {
        segs.push(".tmp".to_owned());
        segs.push(name);
        proof {
            assert(segs.deep_view() =~= spec_tmp_dir(base@).segs.push(spec_tmp_name(path_in@)));
        }
    } else {
        let mut i: usize = 0;
        while i < base.segs.len() - 1
            invariant
                base.segs.len() > 0,
                0 <= i <= base.segs.len() - 1,
                segs.deep_view() == base.segs.deep_view().take(i as int),
            decreases base.segs.len() - 1 - i,
        {
            let ghost old_deep = segs.deep_view();
            segs.push(base.segs[i].clone());
            proof {
                assert(segs.deep_view() =~= old_deep.push(base.segs.deep_view()[i as int]));
                assert(old_deep.push(base.segs.deep_view()[i as int]) =~= base.segs.deep_view()
                    .take(i as int + 1));
            }
            i = i + 1;
        }
        let mut last = base.segs[base.segs.len() - 1].clone();
        last.append(".tmp");
        proof {
            assert(last@ == base.segs.deep_view().last() + ".tmp"@);
        }
        let ghost deep0 = segs.deep_view();
        segs.push(last);
        let ghost deep1 = segs.deep_view();
        segs.push(name);
        proof {
            assert(deep1 =~= deep0.push(base.segs.deep_view().last() + ".tmp"@));
            assert(segs.deep_view() =~= deep1.push(spec_tmp_name(path_in@)));
            assert(segs.deep_view() =~= spec_tmp_dir(base@).segs.push(spec_tmp_name(path_in@)));
        }
    }
    HostPath { absolute: base.absolute, segs }
}

} // verus!
