//! The registry of in-progress directory-sync tasks, keyed by dense
//! integer handles: the first handle issued is 1, and handles grow by one
//! within a procedure call.
//!
//! The registry stores a plain task token for each handle; the embedding
//! program owns the running task behind each token. `wait` removes a
//! handle for good; `progress` removes it, polls, and puts it back.

use std::collections::BTreeMap;
use vstd::prelude::*;

verus! {

broadcast use {vstd::std_specs::btree::group_btree_axioms, vstd::laws_cmp::group_laws_cmp};

/// The table of live sync tasks of one procedure call.
#[derive(Debug)]
pub struct RsyncRegistry {
    counter: usize,
    tasks: BTreeMap<usize, u64>,
}

impl RsyncRegistry {
    /// The handles currently live, with their task tokens.
    pub closed spec fn handles(&self) -> Map<usize, u64> {
        self.tasks@
    }

    /// The last handle issued; 0 before any.
    pub closed spec fn issued(&self) -> nat {
        self.counter as nat
    }

    /// Every live handle was issued: it lies in `1 ..= counter`.
    pub open spec fn wf(&self) -> bool {
        forall|k: usize| self.handles().dom().contains(k) ==> 1 <= k <= self.issued()
    }

    /// An empty registry; handles start at 1.
    pub fn new() -> (r: RsyncRegistry)
        ensures
            r.handles() == Map::<usize, u64>::empty(),
            r.issued() == 0,
            r.wf(),
    {
        RsyncRegistry { counter: 0, tasks: BTreeMap::new() }
    }

    /// Issues the next handle for a freshly started task.
    pub fn insert(&mut self, task: u64) -> (id: usize)
        requires
            old(self).wf(),
            old(self).issued() < usize::MAX,
        ensures
            final(self).wf(),
            id == old(self).issued() + 1,
            final(self).issued() == id,
            !old(self).handles().dom().contains(id),
            final(self).handles() == old(self).handles().insert(id, task),
    {
        let id = self.counter + 1;
        self.counter = id;
        self.tasks.insert(id, task);
        proof {
            assert forall|k: usize| self.handles().dom().contains(k) implies 1 <= k
                <= self.issued() by {
                if k != id {
                    assert(old(self).handles().dom().contains(k));
                }
            }
        }
        id
    }

    /// Removes a handle, returning its task token; `None` when the handle
    /// is unknown, in which case nothing changes.
    pub fn remove(&mut self, id: usize) -> (r: Option<u64>)
        requires
            old(self).wf(),
        ensures
            final(self).wf(),
            final(self).issued() == old(self).issued(),
            match r {
                Some(task) => old(self).handles().dom().contains(id) && task == old(
                    self,
                ).handles()[id] && final(self).handles() == old(self).handles().remove(id),
                None => !old(self).handles().dom().contains(id) && final(self).handles() == old(
                    self,
                ).handles(),
            },
    {
        let r = self.tasks.remove(&id);
        proof {
            if r is None {
                assert(self.tasks@ =~= old(self).tasks@);
            }
            assert forall|k: usize| self.handles().dom().contains(k) implies 1 <= k
                <= self.issued() by {
                assert(old(self).handles().dom().contains(k));
            }
        }
        r
    }

    /// Puts a handle back after a progress poll, with its task token.
    pub fn reinsert(&mut self, id: usize, task: u64)
        requires
            old(self).wf(),
            1 <= id <= old(self).issued(),
        ensures
            final(self).wf(),
            final(self).issued() == old(self).issued(),
            final(self).handles() == old(self).handles().insert(id, task),
    {
        self.tasks.insert(id, task);
        proof {
            assert forall|k: usize| self.handles().dom().contains(k) implies 1 <= k
                <= self.issued() by {
                if k != id {
                    assert(old(self).handles().dom().contains(k));
                }
            }
        }
    }

    /// How many sync tasks are live.
    pub fn len(&self) -> (n: usize)
        ensures
            n == self.handles().len(),
    {
        self.tasks.len()
    }

    /// Whether no sync task is live.
    pub fn is_empty(&self) -> (r: bool)
        ensures
            r == (self.handles().len() == 0),
    {
        self.tasks.is_empty()
    }
}

/// One registry call, for reasoning about whole call histories: a start,
/// a wait on a handle, or a progress poll on a handle.
pub ghost enum RsyncCall {
    Start,
    Wait(usize),
    Progress(usize),
}

/// The registry state a call history passes through: the last handle
/// issued and the set of live handles.
pub ghost struct RegistryTrace {
    pub issued: nat,
    pub live: Set<usize>,
}

/// One successful call applied to a trace state. `None` when the call
/// could not have succeeded: a wait or poll on a handle not live.
pub open spec fn registry_step(st: RegistryTrace, call: RsyncCall) -> Option<RegistryTrace> {
    match call {
        RsyncCall::Start => if st.issued < usize::MAX {
            Some(
                RegistryTrace {
                    issued: st.issued + 1,
                    live: st.live.insert((st.issued + 1) as usize),
                },
            )
        } else {
            None
        },
        RsyncCall::Wait(id) => if st.live.contains(id) {
            Some(RegistryTrace { issued: st.issued, live: st.live.remove(id) })
        } else {
            None
        },
        RsyncCall::Progress(id) => if st.live.contains(id) {
            Some(st)
        } else {
            None
        },
    }
}

/// A call history applied from a starting state.
pub open spec fn registry_run_from(st: RegistryTrace, calls: Seq<RsyncCall>) -> Option<
    RegistryTrace,
>
    decreases calls.len(),
{
    if calls.len() == 0 {
        Some(st)
    } else {
        match registry_step(st, calls.first()) {
            None => None,
            Some(st2) => registry_run_from(st2, calls.drop_first()),
        }
    }
}

/// A call history applied to the fresh registry of a new procedure call.
pub open spec fn registry_run(calls: Seq<RsyncCall>) -> Option<RegistryTrace> {
    registry_run_from(RegistryTrace { issued: 0, live: Set::empty() }, calls)
}

/// The handles issued by a call history that starts at `issued`.
pub open spec fn started_ids(calls: Seq<RsyncCall>, issued: nat) -> Set<usize>
    decreases calls.len(),
{
    if calls.len() == 0 {
        Set::empty()
    } else {
        match calls.first() {
            RsyncCall::Start => if issued < usize::MAX {
                started_ids(calls.drop_first(), issued + 1).insert((issued + 1) as usize)
            } else {
                started_ids(calls.drop_first(), issued + 1)
            },
            _ => started_ids(calls.drop_first(), issued),
        }
    }
}

/// The handles waited on in a call history.
pub open spec fn waited_ids(calls: Seq<RsyncCall>) -> Set<usize>
    decreases calls.len(),
{
    if calls.len() == 0 {
        Set::empty()
    } else {
        match calls.first() {
            RsyncCall::Wait(id) => waited_ids(calls.drop_first()).insert(id),
            _ => waited_ids(calls.drop_first()),
        }
    }
}

/// After a successful call history, the live handles are exactly those
/// started and not waited on, provided every handle live at the outset
/// was issued earlier.
proof fn lemma_registry_live(st: RegistryTrace, calls: Seq<RsyncCall>)
    requires
        forall|k: usize| st.live.contains(k) ==> 1 <= k <= st.issued,
        registry_run_from(st, calls) is Some,
    ensures
        registry_run_from(st, calls) matches Some(st2) && st2.live =~= st.live.union(
            started_ids(calls, st.issued),
        ).difference(waited_ids(calls)),
        registry_run_from(st, calls) matches Some(st2) && forall|k: usize|
            st2.live.contains(k) ==> 1 <= k <= st2.issued,
    decreases calls.len(),
{
    if calls.len() == 0 {
        assert(st.live =~= st.live.union(Set::empty()).difference(Set::empty()));
    } else {
        let st1 = registry_step(st, calls.first()).unwrap();
        lemma_registry_live(st1, calls.drop_first());
        let st2 = registry_run_from(st1, calls.drop_first()).unwrap();
        match calls.first() {
            RsyncCall::Start => {
                let id = ((st.issued + 1) as usize);
                lemma_started_ids_above(calls.drop_first(), st.issued + 1);
                assert(st2.live =~= st.live.union(started_ids(calls, st.issued)).difference(
                    waited_ids(calls),
                ));
            },
            RsyncCall::Wait(id) => {
                lemma_started_ids_above(calls.drop_first(), st.issued);
                assert(st2.live =~= st.live.union(started_ids(calls, st.issued)).difference(
                    waited_ids(calls),
                ));
            },
            RsyncCall::Progress(id) => {
                assert(st2.live =~= st.live.union(started_ids(calls, st.issued)).difference(
                    waited_ids(calls),
                ));
            },
        }
    }
}

/// Every handle a history issues lies above the counter it started from.
proof fn lemma_started_ids_above(calls: Seq<RsyncCall>, issued: nat)
    ensures
        forall|k: usize| started_ids(calls, issued).contains(k) ==> k > issued,
    decreases calls.len(),
{
    if calls.len() == 0 {
    } else {
        match calls.first() {
            RsyncCall::Start => {
                lemma_started_ids_above(calls.drop_first(), issued + 1);
                assert forall|k: usize| started_ids(calls, issued).contains(k) implies k
                    > issued by {
                    if issued < usize::MAX {
                        if k != ((issued + 1) as usize) {
                            assert(started_ids(calls.drop_first(), issued + 1).contains(k));
                        }
                    } else {
                        assert(started_ids(calls.drop_first(), issued + 1).contains(k));
                    }
                }
            },
            _ => {
                lemma_started_ids_above(calls.drop_first(), issued);
                assert forall|k: usize| started_ids(calls, issued).contains(k) implies k
                    > issued by {
                    assert(started_ids(calls.drop_first(), issued).contains(k));
                }
            },
        }
    }
}

/// The registry of a procedure call starts empty, and after any successful
/// sequence of start, wait, and progress calls in which every handle
/// issued has been waited on, it is empty again.
pub proof fn lemma_registry_drained(calls: Seq<RsyncCall>)
    requires
        registry_run(calls) is Some,
        started_ids(calls, 0).subset_of(waited_ids(calls)),
    ensures
        registry_run(calls) matches Some(st) && st.live =~= Set::<usize>::empty(),
{
    let st0 = RegistryTrace { issued: 0, live: Set::empty() };
    lemma_registry_live(st0, calls);
}

} // verus!
