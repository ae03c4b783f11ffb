//! Path model and containment policy.
//!
//! A path is split at `/` into segments, with empty segments and `.`
//! dropped and `..` kept. Containment of a requested path inside a volume
//! base is decided by a scan that balances trailing `..` segments against
//! their parents, asks the embedding program which ancestor of the request
//! exists on disk, and finally compares the canonical forms of that
//! ancestor and of the base segment by segment.

use vstd::prelude::*;
use vstd::string::StrSliceExecFns;

verus! {

/// Mathematical form of a path: absolute flag and segments.
pub ghost struct PathView {
    pub absolute: bool,
    pub segs: Seq<Seq<char>>,
}

/// A path, split at `/`: whether it began with `/`, and its segments with
/// empty fields and `.` dropped (`..` kept).
#[derive(Debug)]
pub struct HostPath {
    pub absolute: bool,
    pub segs: Vec<String>,
}

impl View for HostPath {
    type V = PathView;

    open spec fn view(&self) -> PathView {
        PathView { absolute: self.absolute, segs: self.segs.deep_view() }
    }
}

/// The `..` segment.
pub open spec fn seg_dotdot() -> Seq<char> {
    seq!['.', '.']
}

/// The `.` segment.
pub open spec fn seg_dot() -> Seq<char> {
    seq!['.']
}

/// A segment survives splitting when it is neither empty nor `.`.
pub open spec fn keep_seg(f: Seq<char>) -> bool {
    f.len() > 0 && f != seg_dot()
}

/// `seq![f]` when `f` is kept, the empty sequence otherwise.
pub open spec fn field_out(f: Seq<char>) -> Seq<Seq<char>> {
    if keep_seg(f) {
        seq![f]
    } else {
        Seq::empty()
    }
}

/// Splits the characters `s` at `/`, with `cur` the partial segment read so
/// far, keeping only segments that survive `keep_seg`.
pub open spec fn split_rest(s: Seq<char>, cur: Seq<char>) -> Seq<Seq<char>>
    decreases s.len(),
{
    if s.len() == 0 {
        field_out(cur)
    } else if s[0] == '/' {
        field_out(cur) + split_rest(s.drop_first(), Seq::empty())
    } else {
        split_rest(s.drop_first(), cur.push(s[0]))
    }
}

/// The segments of a path string.
pub open spec fn path_segs_of(s: Seq<char>) -> Seq<Seq<char>> {
    split_rest(s, Seq::empty())
}

/// Whether a path string is absolute.
pub open spec fn path_is_absolute(s: Seq<char>) -> bool {
    s.len() > 0 && s[0] == '/'
}

impl HostPath {
    /// Splits a path string into its model form.
    pub fn parse(s: &str) -> (r: HostPath)
        ensures
            r@.absolute == path_is_absolute(s@),
            r@.segs == path_segs_of(s@),
    {
        let n: usize = s.unicode_len();
        let absolute: bool = n > 0 && s.get_char(0) == '/';
        let mut segs: Vec<String> = Vec::new();
        let mut start: usize = 0;
        let mut i: usize = 0;
        proof {
            assert(s@.skip(0) =~= s@);
            assert(s@.subrange(0, 0) =~= Seq::<char>::empty());
            assert(segs.deep_view() =~= Seq::<Seq<char>>::empty());
            assert(Seq::<Seq<char>>::empty() + path_segs_of(s@) =~= path_segs_of(s@));
        }
        while i < n
            invariant
                n == s@.len(),
                0 <= start <= i <= n,
                segs.deep_view() + split_rest(s@.skip(i as int), s@.subrange(start as int, i as int))
                    == path_segs_of(s@),
            decreases n - i,
        {
            let ghost rest = s@.skip(i as int);
            let ghost cur = s@.subrange(start as int, i as int);
            proof {
                assert(rest.len() > 0);
                assert(rest[0] == s@[i as int]);
                assert(rest.drop_first() =~= s@.skip(i as int + 1));
            }
            let c = s.get_char(i);
            if c == '/' {
                let field = s.substring_char(start, i);
                proof {
                    assert(split_rest(rest, cur) == field_out(cur) + split_rest(
                        s@.skip(i as int + 1),
                        Seq::empty(),
                    ));
                }
                if keep_field(field) {
                    let ghost old_deep = segs.deep_view();
                    segs.push(field.to_owned());
                    proof {
                        assert(segs.deep_view() =~= old_deep.push(cur));
                        assert(old_deep.push(cur) + split_rest(s@.skip(i as int + 1), Seq::empty())
                            =~= old_deep + (field_out(cur) + split_rest(
                            s@.skip(i as int + 1),
                            Seq::empty(),
                        )));
                        assert(s@.subrange(i as int + 1, i as int + 1) =~= Seq::<char>::empty());
                    }
                } else {
                    proof {
                        assert(segs.deep_view() + split_rest(s@.skip(i as int + 1), Seq::empty())
                            =~= segs.deep_view() + (field_out(cur) + split_rest(
                            s@.skip(i as int + 1),
                            Seq::empty(),
                        )));
                        assert(s@.subrange(i as int + 1, i as int + 1) =~= Seq::<char>::empty());
                    }
                }
                start = i + 1;
            } else {
                proof {
                    assert(cur.push(s@[i as int]) =~= s@.subrange(start as int, i as int + 1));
                    assert(split_rest(rest, cur) == split_rest(
                        s@.skip(i as int + 1),
                        s@.subrange(start as int, i as int + 1),
                    ));
                }
            }
            i = i + 1;
        }
        let field = s.substring_char(start, n);
        proof {
            assert(s@.skip(n as int) =~= Seq::<char>::empty());
            assert(split_rest(s@.skip(n as int), s@.subrange(start as int, n as int)) == field_out(
                s@.subrange(start as int, n as int),
            ));
        }
        if keep_field(field) {
            let ghost old_deep = segs.deep_view();
            segs.push(field.to_owned());
            proof {
                assert(segs.deep_view() =~= old_deep.push(field@));
                assert(old_deep.push(field@) =~= old_deep + field_out(field@));
            }
        } else {
            proof {
                assert(segs.deep_view() + field_out(field@) =~= segs.deep_view());
            }
        }
        HostPath { absolute, segs }
    }
}

/// The result of joining `rel` onto `base`: `rel` itself when absolute,
/// else `base` extended by `rel`'s segments.
pub open spec fn join_views(base: PathView, rel: PathView) -> PathView {
    if rel.absolute {
        rel
    } else {
        PathView { absolute: base.absolute, segs: base.segs + rel.segs }
    }
}

/// `p` is a segment-wise prefix of `c`.
pub open spec fn is_segs_prefix(p: Seq<Seq<char>>, c: Seq<Seq<char>>) -> bool {
    p.len() <= c.len() && p == c.subrange(0, p.len() as int)
}

/// `child` starts with `parent`, segment by segment.
pub open spec fn path_starts_with(child: PathView, parent: PathView) -> bool {
    child.absolute == parent.absolute && is_segs_prefix(parent.segs, child.segs)
}

impl HostPath {
    /// Joins a requested path onto a base, as the platform's path join does:
    /// an absolute request replaces the base entirely.
    pub fn join(base: &HostPath, rel: &HostPath) -> (r: HostPath)
        ensures
            r@ == join_views(base@, rel@),
    {
        if rel.absolute {
            let r = HostPath { absolute: true, segs: clone_segs(&rel.segs) };
            proof {
                assert(r@.segs =~= rel@.segs);
            }
            r
        } else {
            let mut segs = clone_segs(&base.segs);
            let mut i: usize = 0;
            while i < rel.segs.len()
                invariant
                    0 <= i <= rel.segs.len(),
                    segs.deep_view() == base.segs.deep_view() + rel.segs.deep_view().take(i as int),
                decreases rel.segs.len() - i,
            {
                let ghost old_deep = segs.deep_view();
                segs.push(rel.segs[i].clone());
                proof {
                    assert(segs.deep_view() =~= old_deep.push(rel.segs.deep_view()[i as int]));
                    assert(old_deep.push(rel.segs.deep_view()[i as int]) =~= base.segs.deep_view()
                        + rel.segs.deep_view().take(i as int + 1));
                }
                i = i + 1;
            }
            proof {
                assert(rel.segs.deep_view().take(rel.segs.len() as int) =~= rel.segs.deep_view());
            }
            HostPath { absolute: base.absolute, segs }
        }
    }

    /// Decides whether `self` starts with `parent`, segment by segment.
    pub fn starts_with(&self, parent: &HostPath) -> (r: bool)
        ensures
            r == path_starts_with(self@, parent@),
    {
        if self.absolute != parent.absolute {
            return false;
        }
        if parent.segs.len() > self.segs.len() {
            return false;
        }
        let mut i: usize = 0;
        while i < parent.segs.len()
            invariant
                0 <= i <= parent.segs.len() <= self.segs.len(),
                forall|k: int|
                    0 <= k < i ==> parent.segs.deep_view()[k] == self.segs.deep_view()[k],
            decreases parent.segs.len() - i,
        {
            if !(parent.segs[i] == self.segs[i]) {
                proof {
                    assert(parent.segs.deep_view()[i as int] != self.segs.deep_view()[i as int]);
                    assert(!is_segs_prefix(parent@.segs, self@.segs)) by {
                        if parent@.segs == self@.segs.subrange(0, parent@.segs.len() as int) {
                            assert(parent@.segs[i as int] == self@.segs.subrange(
                                0,
                                parent@.segs.len() as int,
                            )[i as int]);
                        }
                    }
                }
                return false;
            }
            i = i + 1;
        }
        proof {
            assert(parent@.segs =~= self@.segs.subrange(0, parent@.segs.len() as int));
        }
        true
    }
}

/// Copies a segment vector.
fn clone_segs(v: &Vec<String>) -> (r: Vec<String>)
    ensures
        r.deep_view() == v.deep_view(),
{
    let mut r: Vec<String> = Vec::new();
    let mut i: usize = 0;
    while i < v.len()
        invariant
            0 <= i <= v.len(),
            r.deep_view() == v.deep_view().take(i as int),
        decreases v.len() - i,
    {
        let ghost old_deep = r.deep_view();
        r.push(v[i].clone());
        proof {
            assert(r.deep_view() =~= old_deep.push(v.deep_view()[i as int]));
            assert(old_deep.push(v.deep_view()[i as int]) =~= v.deep_view().take(i as int + 1));
        }
        i = i + 1;
    }
    proof {
        assert(v.deep_view().take(v.len() as int) =~= v.deep_view());
    }
    r
}

/// The ancestor of a requested path that the containment scan submits to
/// canonicalisation, given the set `ex` of paths that exist on disk.
///
/// Mirrors the scan: a trailing `..` is counted and stripped; a counted
/// `..` consumes one real parent; once the balance is zero the scan probes
/// the current path and, if it does not exist, retries on its parent.
/// `None` means the scan ran out of parents: the request escapes outright.
pub open spec fn scan_result(segs: Seq<Seq<char>>, count: nat, ex: Set<Seq<Seq<char>>>) -> Option<
    Seq<Seq<char>>,
>
    decreases segs.len(),
{
    if segs.len() > 0 && segs.last() == seg_dotdot() {
        scan_result(segs.drop_last(), count + 1, ex)
    } else if count > 0 {
        if segs.len() == 0 {
            None
        } else {
            scan_result(segs.drop_last(), (count - 1) as nat, ex)
        }
    } else if ex.contains(segs) {
        Some(segs)
    } else if segs.len() == 0 {
        None
    } else {
        scan_result(segs.drop_last(), 0, ex)
    }
}

/// What the scan asks of its driver next.
#[derive(Debug, PartialEq, Eq, Structural)]
pub enum ScanStep {
    /// Ask the filesystem whether the scan's current path exists, then
    /// report the answer through `apply_probe`.
    NeedProbe,
    /// The request ran out of parents; it escapes every base.
    Escaped,
}

/// The driver's next duty after reporting a probe result.
#[derive(Debug, PartialEq, Eq, Structural)]
pub enum ProbeOutcome {
    /// The current path exists: canonicalise it and compare with the base.
    Found,
    /// The request ran out of parents; it escapes every base.
    Escaped,
    /// Call `advance` again.
    Continue,
}

/// The state of one containment scan over the segments of a requested
/// absolute path.
#[derive(Debug)]
pub struct SubsetScan {
    pub segs: Vec<String>,
    pub count: u64,
}

/// A scan state is ready for a probe: balance zero, no trailing `..`.
pub open spec fn probe_ready(segs: Seq<Seq<char>>, count: nat) -> bool {
    count == 0 && (segs.len() == 0 || segs.last() != seg_dotdot())
}

impl SubsetScan {
    /// Starts a scan on the joined request path.
    pub fn start(child: &HostPath) -> (r: SubsetScan)
        ensures
            r.segs.deep_view() == child@.segs,
            r.count == 0,
    {
        SubsetScan { segs: clone_segs(&child.segs), count: 0 }
    }

    /// Strips trailing `..` segments and the parents they consume, until a
    /// probe is due or the path runs out of parents.
    pub fn advance(&mut self) -> (r: ScanStep)
        requires
            old(self).segs.len() <= u64::MAX - old(self).count,
        ensures
            r is Escaped ==> forall|ex: Set<Seq<Seq<char>>>|
                scan_result(old(self).segs.deep_view(), old(self).count as nat, ex) is None,
            r is NeedProbe ==> {
                &&& probe_ready(final(self).segs.deep_view(), final(self).count as nat)
                &&& forall|ex: Set<Seq<Seq<char>>>|
                    scan_result(old(self).segs.deep_view(), old(self).count as nat, ex)
                        == scan_result(final(self).segs.deep_view(), 0, ex)
            },
    {
        let ghost init_segs = old(self).segs.deep_view();
        let ghost init_count = old(self).count as nat;
        loop
            invariant
                self.segs.len() <= u64::MAX - self.count,
                init_segs == old(self).segs.deep_view(),
                init_count == old(self).count as nat,
                forall|ex: Set<Seq<Seq<char>>>|
                    scan_result(init_segs, init_count, ex) == scan_result(
                        self.segs.deep_view(),
                        self.count as nat,
                        ex,
                    ),
            decreases self.segs.len(),
        {
            let ghost cur_segs = self.segs.deep_view();
            let ghost cur_count = self.count as nat;
            let ends_dotdot: bool = if self.segs.len() == 0 {
                false
            } else {
                is_dotdot(&self.segs[self.segs.len() - 1])
            };
            if ends_dotdot {
                self.count = self.count + 1;
                self.segs.pop();
                proof {
                    assert(self.segs.deep_view() =~= cur_segs.drop_last());
                    assert forall|ex: Set<Seq<Seq<char>>>|
                        scan_result(cur_segs, cur_count, ex) == scan_result(
                            self.segs.deep_view(),
                            self.count as nat,
                            ex,
                        ) by {
                        assert(cur_segs.last() == seg_dotdot());
                    }
                }
            } else if self.count > 0 {
                self.count = self.count - 1;
                if self.segs.len() == 0 {
                    proof {
                        assert forall|ex: Set<Seq<Seq<char>>>|
                            scan_result(cur_segs, cur_count, ex) is None by {
                            assert(cur_segs.len() == 0);
                        }
                    }
                    return ScanStep::Escaped;
                }
                self.segs.pop();
                proof {
                    assert(self.segs.deep_view() =~= cur_segs.drop_last());
                }
            } else {
                return ScanStep::NeedProbe;
            }
        }
    }

    /// Records the filesystem's answer for the scan's current path.
    pub fn apply_probe(&mut self, exists: bool) -> (r: ProbeOutcome)
        requires
            probe_ready(old(self).segs.deep_view(), old(self).count as nat),
        ensures
            exists ==> r is Found && *final(self) == *old(self) && forall|ex: Set<Seq<Seq<char>>>|
                ex.contains(old(self).segs.deep_view()) ==> scan_result(
                    old(self).segs.deep_view(),
                    0,
                    ex,
                ) == Some(old(self).segs.deep_view()),
            !exists && old(self).segs.len() == 0 ==> r is Escaped && forall|
                ex: Set<Seq<Seq<char>>>,
            |
                !ex.contains(old(self).segs.deep_view()) ==> scan_result(
                    old(self).segs.deep_view(),
                    0,
                    ex,
                ) is None,
            !exists && old(self).segs.len() > 0 ==> r is Continue && final(self).count == 0
                && final(self).segs.deep_view() == old(self).segs.deep_view().drop_last() && forall|
                ex: Set<Seq<Seq<char>>>,
            |
                !ex.contains(old(self).segs.deep_view()) ==> scan_result(
                    old(self).segs.deep_view(),
                    0,
                    ex,
                ) == scan_result(final(self).segs.deep_view(), 0, ex),
    {
        if exists {
            ProbeOutcome::Found
        } else if self.segs.len() == 0 {
            ProbeOutcome::Escaped
        } else {
            let ghost cur_segs = self.segs.deep_view();
            self.segs.pop();
            proof {
                assert(self.segs.deep_view() =~= cur_segs.drop_last());
            }
            ProbeOutcome::Continue
        }
    }

    /// The scan's current path, as an absolute path value.
    pub fn current(&self) -> (r: HostPath)
        ensures
            r@.absolute,
            r@.segs == self.segs.deep_view(),
    {
        HostPath { absolute: true, segs: clone_segs(&self.segs) }
    }
}

/// The characters of `segs` joined with `/`.
pub open spec fn render_segs(segs: Seq<Seq<char>>) -> Seq<char>
    decreases segs.len(),
{
    if segs.len() == 0 {
        Seq::empty()
    } else if segs.len() == 1 {
        segs[0]
    } else {
        render_segs(segs.drop_last()) + seq!['/'] + segs.last()
    }
}

/// The string form of a path: its segments joined with `/`, with a leading
/// `/` when absolute.
pub open spec fn render_path(p: PathView) -> Seq<char> {
    if p.absolute {
        seq!['/'] + render_segs(p.segs)
    } else {
        render_segs(p.segs)
    }
}

impl HostPath {
    /// Renders the path back to its string form.
    pub fn to_display(&self) -> (r: String)
        ensures
            r@ == render_path(self@),
    {
        let mut out = if self.absolute {
            let s: String = "/".to_owned();
            proof {
                reveal_strlit("/");
            }
            s
        } else {
            String::new()
        };
        let mut i: usize = 0;
        while i < self.segs.len()
            invariant
                0 <= i <= self.segs.len(),
                out@ == (if self.absolute {
                    seq!['/'] + render_segs(self.segs.deep_view().take(i as int))
                } else {
                    render_segs(self.segs.deep_view().take(i as int))
                }) + (if 0 < i < self.segs.len() {
                    seq!['/']
                } else {
                    Seq::<char>::empty()
                }),
            decreases self.segs.len() - i,
        {
            let ghost before = self.segs.deep_view().take(i as int);
            out.append(self.segs[i].as_str());
            proof {
                assert(self.segs.deep_view().take(i as int + 1).drop_last() =~= before);
                assert(self.segs.deep_view().take(i as int + 1).last() == self.segs.deep_view()[i as int]);
                if i == 0 {
                    assert(render_segs(self.segs.deep_view().take(1)) == self.segs.deep_view()[0]);
                    assert(Seq::<char>::empty() + self.segs.deep_view()[0] =~= self.segs.deep_view()[0]);
                }
            }
            if i + 1 < self.segs.len() {
                out.append("/");
                proof {
                    reveal_strlit("/");
                    assert("/"@ =~= seq!['/']);
                }
            }
            i = i + 1;
        }
        proof {
            assert(self.segs.deep_view().take(self.segs.len() as int) =~= self.segs.deep_view());
            if self.segs.len() == 0 {
                assert(render_segs(self.segs.deep_view()) =~= Seq::<char>::empty());
            }
            assert(out@ =~= render_path(self@));
        }
        out
    }
}

/// Whatever exists on disk, a scan of segments free of `..` ends on an
/// ancestor at least `count` segments shorter than where it started.
proof fn lemma_scan_shortens(segs: Seq<Seq<char>>, count: nat, ex: Set<Seq<Seq<char>>>)
    requires
        forall|i: int| 0 <= i < segs.len() ==> segs[i] != seg_dotdot(),
    ensures
        match scan_result(segs, count, ex) {
            None => true,
            Some(c) => c.len() + count <= segs.len(),
        },
    decreases segs.len(),
{
    if segs.len() > 0 && segs.last() == seg_dotdot() {
        assert(segs[segs.len() - 1] == seg_dotdot());
    } else if count > 0 {
        if segs.len() > 0 {
            assert(forall|i: int|
                0 <= i < segs.drop_last().len() ==> segs.drop_last()[i] == segs[i]);
            lemma_scan_shortens(segs.drop_last(), (count - 1) as nat, ex);
        }
    } else if ex.contains(segs) {
    } else if segs.len() > 0 {
        assert(forall|i: int| 0 <= i < segs.drop_last().len() ==> segs.drop_last()[i] == segs[i]);
        lemma_scan_shortens(segs.drop_last(), 0, ex);
    }
}

/// A request of `../../..` relative to any volume base is refused by the
/// containment scan: whatever exists on disk, the ancestor the scan submits
/// for comparison is strictly shorter than the base, so for a base whose
/// own segments canonicalise to themselves it can never start with the
/// base, and the containment check fails.
pub proof fn lemma_parent_traversal_escapes(base: Seq<Seq<char>>, ex: Set<Seq<Seq<char>>>)
    requires
        forall|i: int| 0 <= i < base.len() ==> base[i] != seg_dotdot(),
    ensures
        match scan_result(base + seq![seg_dotdot(), seg_dotdot(), seg_dotdot()], 0, ex) {
            None => true,
            Some(c) => c.len() < base.len() && !is_segs_prefix(base, c),
        },
{
    let dd = seg_dotdot();
    let p3 = base + seq![dd, dd, dd];
    let p2 = base + seq![dd, dd];
    let p1 = base + seq![dd];
    assert(p3.last() == dd);
    assert(p3.drop_last() =~= p2);
    assert(p2.last() == dd);
    assert(p2.drop_last() =~= p1);
    assert(p1.last() == dd);
    assert(p1.drop_last() =~= base);
    assert(scan_result(p3, 0, ex) == scan_result(p2, 1, ex));
    assert(scan_result(p2, 1, ex) == scan_result(p1, 2, ex));
    assert(scan_result(p1, 2, ex) == scan_result(base, 3, ex));
    lemma_scan_shortens(base, 3, ex);
}

/// True exactly of the `..` segment.
fn is_dotdot(f: &String) -> (r: bool)
    ensures
        r == (f@ == seg_dotdot()),
{
    let s = f.as_str();
    let n: usize = s.unicode_len();
    if n == 2 && s.get_char(0) == '.' && s.get_char(1) == '.' {
        proof {
            assert(f@ =~= seg_dotdot());
        }
        true
    } else {
        proof {
            if f@ == seg_dotdot() {
                assert(f@.len() == 2 && f@[0] == '.' && f@[1] == '.');
            }
        }
        false
    }
}

/// True when the segment is kept by splitting: non-empty and not `.`.
fn keep_field(f: &str) -> (r: bool)
    ensures
        r == keep_seg(f@),
{
    let n: usize = f.unicode_len();
    if n == 0 {
        false
    } else if n == 1 && f.get_char(0) == '.' {
        proof {
            assert(f@ =~= seg_dot());
        }
        false
    } else {
        proof {
            if f@ == seg_dot() {
                assert(f@.len() == 1 && f@[0] == '.');
            }
        }
        true
    }
}

} // verus!
