//! The hidden-service controller's bookkeeping: which onion services are
//! registered for which package interface, and what a registration
//! request must do to the control connection.
//!
//! Keys are carried as plain bytes; the control connection itself
//! belongs to the embedding.

use crate::text::str_eq;
use vstd::prelude::*;

verus! {

/// One registered hidden service: its secret key, its port mapping from
/// external to internal ports, and the container address it forwards to.
#[derive(Debug)]
pub struct OnionService {
    pub key: Vec<u8>,
    pub port_mapping: Vec<(u16, u16)>,
    pub ip: u32,
}

/// The registered hidden services, keyed by package and interface.
#[derive(Debug)]
pub struct OnionServiceMap {
    pub entries: Vec<((String, String), OnionService)>,
}

/// The first service registered under a package's interface, if any.
pub open spec fn spec_tor_get(
    entries: Seq<((String, String), OnionService)>,
    pkg: Seq<char>,
    interface: Seq<char>,
) -> Option<OnionService>
    decreases entries.len(),
{
    if entries.len() == 0 {
        None
    } else if entries[0].0.0@ == pkg && entries[0].0.1@ == interface {
        Some(entries[0].1)
    } else {
        spec_tor_get(entries.drop_first(), pkg, interface)
    }
}

/// What a registration request must do for one interface: nothing when
/// the same key is already registered; tear the old service down first
/// when a different key is; else simply register.
#[derive(Debug, PartialEq, Eq, Structural)]
pub enum AddPlan {
    Skip,
    ReplaceExisting,
    Fresh,
}

impl OnionServiceMap {
    /// An empty table.
    pub fn new() -> (r: OnionServiceMap)
        ensures
            r.entries@.len() == 0,
    {
        OnionServiceMap { entries: Vec::new() }
    }

    /// The service registered under a package's interface.
    pub fn get(&self, pkg: &str, interface: &str) -> (r: Option<&OnionService>)
        ensures
            match r {
                None => spec_tor_get(self.entries@, pkg@, interface@) is None,
                Some(s) => spec_tor_get(self.entries@, pkg@, interface@) == Some(*s),
            },
    {
        let mut i: usize = 0;
        proof {
            assert(self.entries@.skip(0) =~= self.entries@);
        }
        while i < self.entries.len()
            invariant
                0 <= i <= self.entries.len(),
                spec_tor_get(self.entries@, pkg@, interface@) == spec_tor_get(
                    self.entries@.skip(i as int),
                    pkg@,
                    interface@,
                ),
            decreases self.entries.len() - i,
        {
            proof {
                assert(self.entries@.skip(i as int)[0] == self.entries@[i as int]);
                assert(self.entries@.skip(i as int).drop_first() =~= self.entries@.skip(
                    i as int + 1,
                ));
            }
            if str_eq(self.entries[i].0.0.as_str(), pkg) && str_eq(
                self.entries[i].0.1.as_str(),
                interface,
            ) {
                return Some(&self.entries[i].1);
            }
            i = i + 1;
        }
        proof {
            assert(self.entries@.skip(self.entries.len() as int) =~= Seq::<(
                (String, String),
                OnionService,
            )>::empty());
        }
        None
    }

    /// Decides what registering `key` under a package's interface must
    /// do to the already-registered services.
    pub fn plan_add(&self, pkg: &str, interface: &str, key: &Vec<u8>) -> (r: AddPlan)
        ensures
            match spec_tor_get(self.entries@, pkg@, interface@) {
                None => r == AddPlan::Fresh,
                Some(existing) => if existing.key@ == key@ {
                    r == AddPlan::Skip
                } else {
                    r == AddPlan::ReplaceExisting
                },
            },
    {
        match self.get(pkg, interface) {
            None => AddPlan::Fresh,
            Some(existing) => {
                if bytes_eq(&existing.key, key) {
                    AddPlan::Skip
                } else {
                    AddPlan::ReplaceExisting
                }
            },
        }
    }

    /// Records a newly registered service; a repeated key shadows the
    /// earlier registration.
    pub fn insert(&mut self, pkg: String, interface: String, service: OnionService)
        ensures
            spec_tor_get(final(self).entries@, pkg@, interface@) == Some(service),
            forall|p: Seq<char>, i: Seq<char>|
                !(p == pkg@ && i == interface@) ==> spec_tor_get(final(self).entries@, p, i)
                    == spec_tor_get(old(self).entries@, p, i),
    {
        let ghost old_entries = self.entries@;
        self.entries.insert(0, ((pkg, interface), service));
        proof {
            assert(self.entries@.drop_first() =~= old_entries);
        }
    }

    /// Removes every registration of a package's interface, returning
    /// the one a resolver would have seen; the returned key is the one
    /// the control connection must tear down.
    pub fn remove(&mut self, pkg: &str, interface: &str) -> (r: Option<OnionService>)
        ensures
            match r {
                None => spec_tor_get(old(self).entries@, pkg@, interface@) is None,
                Some(s) => spec_tor_get(old(self).entries@, pkg@, interface@) == Some(s),
            },
            spec_tor_get(final(self).entries@, pkg@, interface@) is None,
            forall|p: Seq<char>, i: Seq<char>|
                !(p == pkg@ && i == interface@) ==> spec_tor_get(final(self).entries@, p, i)
                    == spec_tor_get(old(self).entries@, p, i),
    {
        let mut kept: Vec<((String, String), OnionService)> = Vec::new();
        let mut taken: Option<OnionService> = None;
        proof {
            assert(kept@ + self.entries@ =~= self.entries@);
        }
        loop
            invariant
                forall|k: int|
                    0 <= k < kept@.len() ==> !(kept@[k].0.0@ == pkg@ && kept@[k].0.1@
                        == interface@),
                forall|p: Seq<char>, i: Seq<char>|
                    !(p == pkg@ && i == interface@) ==> spec_tor_get(old(self).entries@, p, i)
                        == spec_tor_get(kept@ + self.entries@, p, i),
                match taken {
                    None => spec_tor_get(old(self).entries@, pkg@, interface@) == spec_tor_get(
                        self.entries@,
                        pkg@,
                        interface@,
                    ),
                    Some(s) => spec_tor_get(old(self).entries@, pkg@, interface@) == Some(s),
                },
            ensures
                self.entries@.len() == 0,
            decreases self.entries.len(),
        {
            if self.entries.len() == 0 {
                break;
            }
            let ghost pre_kept = kept@;
            let ghost pre_rest = self.entries@;
            let (id, service) = self.entries.remove(0);
            proof {
                assert(pre_rest.drop_first() =~= self.entries@);
                assert(pre_rest[0].0 == id && pre_rest[0].1 == service);
            }
            if str_eq(id.0.as_str(), pkg) && str_eq(id.1.as_str(), interface) {
                if taken.is_none() {
                    taken = Some(service);
                }
                proof {
                    assert forall|p: Seq<char>, i: Seq<char>|
                        !(p == pkg@ && i == interface@) implies spec_tor_get(
                        old(self).entries@,
                        p,
                        i,
                    ) == spec_tor_get(kept@ + self.entries@, p, i) by {
                        lemma_tor_get_concat(pre_kept, pre_rest, p, i);
                        lemma_tor_get_concat(kept@, self.entries@, p, i);
                        assert(spec_tor_get(pre_rest, p, i) == spec_tor_get(self.entries@, p, i));
                    }
                }
            } else {
                kept.push((id, service));
                proof {
                    assert(kept@ =~= pre_kept.push(pre_rest[0]));
                    assert(kept@ + self.entries@ =~= pre_kept + pre_rest);
                    assert(spec_tor_get(pre_rest, pkg@, interface@) == spec_tor_get(
                        self.entries@,
                        pkg@,
                        interface@,
                    ));
                }
            }
        }
        let ghost final_kept = kept@;
        let ghost exit_rest = self.entries@;
        std::mem::swap(&mut self.entries, &mut kept);
        proof {
            lemma_tor_no_key_no_get(final_kept, pkg@, interface@);
            assert(spec_tor_get(exit_rest, pkg@, interface@) is None);
            assert forall|p: Seq<char>, i: Seq<char>|
                !(p == pkg@ && i == interface@) implies spec_tor_get(self.entries@, p, i)
                == spec_tor_get(old(self).entries@, p, i) by {
                assert(spec_tor_get(old(self).entries@, p, i) == spec_tor_get(
                    final_kept + exit_rest,
                    p,
                    i,
                ));
                assert(final_kept + exit_rest =~= final_kept);
            }
        }
        taken
    }
}

/// The host's own service key, validated from its stored row: the row
/// must hold at least 64 bytes, and the key is the first 64 of them.
pub fn os_key_bytes(row: &Vec<u8>) -> (r: Option<Vec<u8>>)
    ensures
        row@.len() < 64 ==> r is None,
        row@.len() >= 64 ==> (r matches Some(key) && key@ == row@.take(64)),
{
    if row.len() < 64 {
        return None;
    }
    let mut key: Vec<u8> = Vec::new();
    let mut i: usize = 0;
    while i < 64
        invariant
            row@.len() >= 64,
            0 <= i <= 64,
            key@ == row@.take(i as int),
        decreases 64 - i,
    {
        key.push(row[i]);
        proof {
            assert(key@ =~= row@.take(i as int + 1));
        }
        i = i + 1;
    }
    Some(key)
}

/// Registration lookups over joined tables ask the first table first.
proof fn lemma_tor_get_concat(
    a: Seq<((String, String), OnionService)>,
    b: Seq<((String, String), OnionService)>,
    pkg: Seq<char>,
    interface: Seq<char>,
)
    ensures
        spec_tor_get(a + b, pkg, interface) == (match spec_tor_get(a, pkg, interface) {
            Some(s) => Some(s),
            None => spec_tor_get(b, pkg, interface),
        }),
    decreases a.len(),
{
    if a.len() == 0 {
        assert(a + b =~= b);
    } else {
        assert((a + b)[0] == a[0]);
        assert((a + b).drop_first() =~= a.drop_first() + b);
        lemma_tor_get_concat(a.drop_first(), b, pkg, interface);
    }
}

/// A table none of whose entries carry an id does not resolve it.
proof fn lemma_tor_no_key_no_get(
    entries: Seq<((String, String), OnionService)>,
    pkg: Seq<char>,
    interface: Seq<char>,
)
    requires
        forall|k: int|
            0 <= k < entries.len() ==> !(entries[k].0.0@ == pkg && entries[k].0.1@ == interface),
    ensures
        spec_tor_get(entries, pkg, interface) is None,
    decreases entries.len(),
{
    if entries.len() > 0 {
        assert(forall|k: int|
            0 <= k < entries.drop_first().len() ==> entries.drop_first()[k] == entries[k + 1]);
        lemma_tor_no_key_no_get(entries.drop_first(), pkg, interface);
    }
}

/// Byte-for-byte equality of two byte vectors.
pub fn bytes_eq(a: &Vec<u8>, b: &Vec<u8>) -> (r: bool)
    ensures
        r == (a@ == b@),
{
    if a.len() != b.len() {
        return false;
    }
    let mut i: usize = 0;
    while i < a.len()
        invariant
            a@.len() == b@.len(),
            0 <= i <= a@.len(),
            forall|k: int| 0 <= k < i ==> a@[k] == b@[k],
        decreases a@.len() - i,
    {
        if a[i] != b[i] {
            return false;
        }
        i = i + 1;
    }
    proof {
        assert(a@ =~= b@);
    }
    true
}

} // verus!
