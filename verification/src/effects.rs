//! A model of the filesystem effects the planned ops have: files as a
//! map from path segments to contents, a write as the two steps of the
//! atomic plan, and a rename as a move. The laws here say what a reader
//! observes around those effects.

use crate::ops::WritePlan;
use crate::paths::{is_segs_prefix, PathView};
use vstd::prelude::*;

verus! {

/// The files the ops touch: each path's contents, by path segments.
pub type FsModel = Map<Seq<Seq<char>>, Seq<char>>;

/// What a reader sees at a path.
pub open spec fn spec_read(fs: FsModel, path: Seq<Seq<char>>) -> Option<Seq<char>> {
    if fs.contains_key(path) {
        Some(fs[path])
    } else {
        None
    }
}

/// The first step of an atomic write: the temporary file appears with
/// the full contents.
pub open spec fn spec_write_tmp(fs: FsModel, tmp: Seq<Seq<char>>, data: Seq<char>) -> FsModel {
    fs.insert(tmp, data)
}

/// The second step of an atomic write: the temporary file moves onto
/// the target.
pub open spec fn spec_write_commit(
    fs: FsModel,
    tmp: Seq<Seq<char>>,
    target: Seq<Seq<char>>,
    data: Seq<char>,
) -> FsModel {
    fs.remove(tmp).insert(target, data)
}

/// A rename: the source's contents move to the destination.
pub open spec fn spec_rename(fs: FsModel, src: Seq<Seq<char>>, dst: Seq<Seq<char>>) -> FsModel {
    fs.remove(src).insert(dst, fs[src])
}

/// A relative request's path lies under the volume base segment by
/// segment, which is what the atomicity law asks of a planned target.
pub proof fn lemma_relative_request_under_base(base: PathView, path_in: Seq<char>)
    requires
        !crate::paths::path_is_absolute(path_in),
    ensures
        is_segs_prefix(base.segs, crate::ops::spec_request_path(base, path_in).segs),
{
    let joined = crate::ops::spec_request_path(base, path_in).segs;
    assert(base.segs =~= joined.subrange(0, base.segs.len() as int));
}

/// A planned write's temporary file is never the target: the target of
/// a contained write lies under the volume base, while the temporary
/// file lies in the sibling temporary directory, whose name differs
/// from the base's final segment.
pub proof fn lemma_tmp_is_not_target(base: PathView, target: PathView, tmp: PathView)
    requires
        base.segs.len() > 0,
        is_segs_prefix(base.segs, target.segs),
        tmp.segs == crate::ops::spec_tmp_dir(base).segs.push(tmp.segs.last()),
    ensures
        tmp.segs != target.segs,
{
    let k = base.segs.len() - 1;
    assert(target.segs[k] == base.segs.subrange(0, base.segs.len() as int)[k]);
    assert(target.segs[k] == base.segs[k]);
    assert(tmp.segs[k] == base.segs[k] + ".tmp"@);
    assert(base.segs[k] + ".tmp"@ != base.segs[k]) by {
        reveal_strlit(".tmp");
        assert((base.segs[k] + ".tmp"@).len() == base.segs[k].len() + 4);
    }
}

/// An atomic write is crash-atomic: after the first step the target is
/// exactly as it was, and only the commit makes the full new contents
/// appear; no moment shows a partially written target.
pub proof fn lemma_write_file_atomic(
    fs: FsModel,
    tmp: Seq<Seq<char>>,
    target: Seq<Seq<char>>,
    data: Seq<char>,
)
    requires
        tmp != target,
    ensures
        spec_read(spec_write_tmp(fs, tmp, data), target) == spec_read(fs, target),
        spec_read(spec_write_commit(spec_write_tmp(fs, tmp, data), tmp, target, data), target)
            == Some(data),
{
}

/// Writing then reading the same path yields the written contents.
pub proof fn lemma_write_then_read(
    fs: FsModel,
    tmp: Seq<Seq<char>>,
    target: Seq<Seq<char>>,
    data: Seq<char>,
)
    ensures
        spec_read(spec_write_commit(spec_write_tmp(fs, tmp, data), tmp, target, data), target)
            == Some(data),
{
}

/// After a rename, the destination holds what the source held, and the
/// source is gone. Renaming a path onto itself is excluded: there the
/// source trivially still holds its contents.
pub proof fn lemma_rename_then_read(fs: FsModel, src: Seq<Seq<char>>, dst: Seq<Seq<char>>)
    requires
        fs.contains_key(src),
        src != dst,
    ensures
        spec_read(spec_rename(fs, src, dst), dst) == Some(fs[src]),
        spec_read(spec_rename(fs, src, dst), src) is None,
{
}

/// The planned write of `write_file_request` commits the requested
/// contents to the requested path without any moment at which the path
/// holds other contents than before or after. The prefix hypothesis
/// holds of every relative request by `lemma_relative_request_under_base`;
/// an absolute request replaces the base and is answered by the
/// containment scan instead.
pub proof fn lemma_write_plan_atomic(fs: FsModel, base: PathView, plan: WritePlan, data: Seq<char>)
    requires
        base.segs.len() > 0,
        is_segs_prefix(base.segs, plan.target@.segs),
        plan.tmp_file@.segs == crate::ops::spec_tmp_dir(base).segs.push(
            plan.tmp_file@.segs.last(),
        ),
    ensures
        spec_read(spec_write_tmp(fs, plan.tmp_file@.segs, data), plan.target@.segs) == spec_read(
            fs,
            plan.target@.segs,
        ),
        spec_read(
            spec_write_commit(
                spec_write_tmp(fs, plan.tmp_file@.segs, data),
                plan.tmp_file@.segs,
                plan.target@.segs,
                data,
            ),
            plan.target@.segs,
        ) == Some(data),
{
    lemma_tmp_is_not_target(base, plan.target@, plan.tmp_file@);
    lemma_write_file_atomic(fs, plan.tmp_file@.segs, plan.target@.segs, data);
}

} // verus!
