//! The platform resolver's decisions: which addresses a queried name
//! resolves to, over the table of running packages and their addresses.
//!
//! Addresses are plain 32-bit values; the embedding turns them into
//! socket addresses and answers the wire protocol.

use crate::text::str_eq;
use vstd::prelude::*;

verus! {

/// The table of running packages and the addresses their containers
/// answer on.
#[derive(Debug)]
pub struct DnsServiceMap {
    pub entries: Vec<(String, Vec<u32>)>,
}

/// The addresses recorded for a package, if any: the first entry under
/// its name.
pub open spec fn spec_dns_get(entries: Seq<(String, Vec<u32>)>, pkg: Seq<char>) -> Option<
    Seq<u32>,
>
    decreases entries.len(),
{
    if entries.len() == 0 {
        None
    } else if entries[0].0@ == pkg {
        Some(entries[0].1@)
    } else {
        spec_dns_get(entries.drop_first(), pkg)
    }
}

/// What the resolver answers for a queried name, given its labels in
/// order: only names under the platform domain resolve; the bare domain
/// resolves to the host, a package's name resolves to its recorded
/// addresses, and an unknown package does not resolve.
pub open spec fn spec_resolve(
    entries: Seq<(String, Vec<u32>)>,
    labels: Seq<Seq<char>>,
    host_ip: u32,
) -> Option<Seq<u32>> {
    if labels.len() > 0 && labels.last() == "embassy"@ {
        if labels.len() >= 2 {
            spec_dns_get(entries, labels[labels.len() - 2])
        } else {
            Some(seq![host_ip])
        }
    } else {
        None
    }
}

impl DnsServiceMap {
    /// An empty table.
    pub fn new() -> (r: DnsServiceMap)
        ensures
            r.entries@.len() == 0,
    {
        DnsServiceMap { entries: Vec::new() }
    }

    /// The addresses recorded for a package.
    pub fn get(&self, pkg: &str) -> (r: Option<&Vec<u32>>)
        ensures
            match r {
                None => spec_dns_get(self.entries@, pkg@) is None,
                Some(v) => spec_dns_get(self.entries@, pkg@) == Some(v@),
            },
    {
        let mut i: usize = 0;
        proof {
            assert(self.entries@.skip(0) =~= self.entries@);
        }
        while i < self.entries.len()
            invariant
                0 <= i <= self.entries.len(),
                spec_dns_get(self.entries@, pkg@) == spec_dns_get(
                    self.entries@.skip(i as int),
                    pkg@,
                ),
            decreases self.entries.len() - i,
        {
            proof {
                assert(self.entries@.skip(i as int)[0] == self.entries@[i as int]);
                assert(self.entries@.skip(i as int).drop_first() =~= self.entries@.skip(
                    i as int + 1,
                ));
            }
            if str_eq(self.entries[i].0.as_str(), pkg) {
                return Some(&self.entries[i].1);
            }
            i = i + 1;
        }
        proof {
            assert(self.entries@.skip(self.entries.len() as int) =~= Seq::<(
                String,
                Vec<u32>,
            )>::empty());
        }
        None
    }

    /// Records one more address for a package.
    pub fn add(&mut self, pkg: String, ip: u32)
        ensures
            spec_dns_get(final(self).entries@, pkg@) matches Some(ips) && {
                &&& (match spec_dns_get(old(self).entries@, pkg@) {
                    None => ips =~= seq![ip],
                    Some(prior) => ips =~= prior.push(ip),
                })
            },
            forall|other: Seq<char>|
                other != pkg@ ==> spec_dns_get(final(self).entries@, other) == spec_dns_get(
                    old(self).entries@,
                    other,
                ),
    {
        let mut ips: Vec<u32> = match self.take_entry(pkg.as_str()) {
            Some(v) => v,
            None => Vec::new(),
        };
        ips.push(ip);
        let ghost old_entries = self.entries@;
        self.entries.insert(0, (pkg, ips));
        proof {
            assert(self.entries@.drop_first() =~= old_entries);
        }
    }

    /// Forgets one recorded address of a package: the first occurrence
    /// of `ip` in its list is removed, and removing the last address
    /// removes the package from the table entirely.
    pub fn remove(&mut self, pkg: String, ip: u32)
        ensures
            match spec_dns_get(old(self).entries@, pkg@) {
                None => spec_dns_get(final(self).entries@, pkg@) is None,
                Some(prior) => if !prior.contains(ip) {
                    spec_dns_get(final(self).entries@, pkg@) == Some(prior) || (prior.len() == 0
                        && spec_dns_get(final(self).entries@, pkg@) is None)
                } else if prior.len() == 1 {
                    spec_dns_get(final(self).entries@, pkg@) is None
                } else {
                    spec_dns_get(final(self).entries@, pkg@) matches Some(ips) && exists|k: int|
                        0 <= k < prior.len() && prior[k] == ip && (forall|j: int|
                            0 <= j < k ==> prior[j] != ip) && ips == prior.remove(k)
                },
            },
            forall|other: Seq<char>|
                other != pkg@ ==> spec_dns_get(final(self).entries@, other) == spec_dns_get(
                    old(self).entries@,
                    other,
                ),
    {
        let mut ips: Vec<u32> = match self.take_entry(pkg.as_str()) {
            Some(v) => v,
            None => Vec::new(),
        };
        let ghost prior = ips@;
        let mut found: Option<usize> = None;
        let mut i: usize = 0;
        while i < ips.len()
            invariant
                0 <= i <= ips.len(),
                match found {
                    Some(k) => 0 <= k < i && ips@[k as int] == ip && (forall|j: int|
                        0 <= j < k ==> ips@[j] != ip),
                    None => forall|j: int| 0 <= j < i ==> ips@[j] != ip,
                },
            decreases ips.len() - i,
        {
            if found.is_none() && ips[i] == ip {
                found = Some(i);
            }
            i = i + 1;
        }
        if let Some(k) = found {
            ips.remove(k);
        }
        if ips.len() > 0 {
            let ghost old_entries = self.entries@;
            self.entries.insert(0, (pkg, ips));
            proof {
                assert(self.entries@.drop_first() =~= old_entries);
            }
        }
    }

    /// What the resolver answers for a queried name: its labels in
    /// order, the host's own address for the bare platform domain.
    pub fn resolve(&self, labels: &Vec<String>, host_ip: u32) -> (r: Option<Vec<u32>>)
        ensures
            match r {
                None => spec_resolve(self.entries@, labels.deep_view(), host_ip) is None,
                Some(ips) => spec_resolve(self.entries@, labels.deep_view(), host_ip) == Some(
                    ips@,
                ),
            },
    {
        if labels.len() == 0 {
            return None;
        }
        let last = &labels[labels.len() - 1];
        if !str_eq(last.as_str(), "embassy") {
            proof {
                assert(labels.deep_view().last() == labels.deep_view()[labels.len() - 1]);
            }
            return None;
        }
        proof {
            assert(labels.deep_view().last() == labels.deep_view()[labels.len() - 1]);
        }
        if labels.len() >= 2 {
            let pkg = &labels[labels.len() - 2];
            match self.get(pkg.as_str()) {
                Some(ips) => {
                    let mut out: Vec<u32> = Vec::new();
                    let mut i: usize = 0;
                    while i < ips.len()
                        invariant
                            0 <= i <= ips.len(),
                            out@ == ips@.take(i as int),
                        decreases ips.len() - i,
                    {
                        out.push(ips[i]);
                        proof {
                            assert(out@ =~= ips@.take(i as int + 1));
                        }
                        i = i + 1;
                    }
                    proof {
                        assert(ips@.take(ips@.len() as int) =~= ips@);
                    }
                    Some(out)
                },
                None => None,
            }
        } else {
            let out: Vec<u32> = vec![host_ip];
            proof {
                assert(out@ =~= seq![host_ip]);
            }
            Some(out)
        }
    }

    /// Removes and returns a package's recorded addresses: the first
    /// entry under its name is returned, and every entry under its name
    /// leaves the table.
    fn take_entry(&mut self, pkg: &str) -> (r: Option<Vec<u32>>)
        ensures
            match r {
                None => spec_dns_get(old(self).entries@, pkg@) is None,
                Some(v) => spec_dns_get(old(self).entries@, pkg@) == Some(v@),
            },
            spec_dns_get(final(self).entries@, pkg@) is None,
            forall|other: Seq<char>|
                other != pkg@ ==> spec_dns_get(final(self).entries@, other) == spec_dns_get(
                    old(self).entries@,
                    other,
                ),
    {
        let mut kept: Vec<(String, Vec<u32>)> = Vec::new();
        let mut taken: Option<Vec<u32>> = None;
        proof {
            assert(kept@ + self.entries@ =~= self.entries@);
        }
        loop
            invariant
                forall|k: int| 0 <= k < kept@.len() ==> kept@[k].0@ != pkg@,
                forall|other: Seq<char>|
                    other != pkg@ ==> spec_dns_get(old(self).entries@, other) == spec_dns_get(
                        kept@ + self.entries@,
                        other,
                    ),
                match taken.deep_view() {
                    None => spec_dns_get(old(self).entries@, pkg@) == spec_dns_get(
                        self.entries@,
                        pkg@,
                    ),
                    Some(v) => spec_dns_get(old(self).entries@, pkg@) == Some(v),
                },
            ensures
                self.entries@.len() == 0,
            decreases self.entries.len(),
        {
            if self.entries.len() == 0 {
                break;
            }
            let ghost pre_kept = kept@;
            let ghost pre_rest = self.entries@;
            let (name, ips) = self.entries.remove(0);
            proof {
                assert(pre_rest.drop_first() =~= self.entries@);
                assert(pre_rest[0].0 == name && pre_rest[0].1 == ips);
            }
            if str_eq(name.as_str(), pkg) {
                if taken.is_none() {
                    taken = Some(ips);
                }
                proof {
                    assert forall|other: Seq<char>|
                        other != pkg@ implies spec_dns_get(old(self).entries@, other)
                        == spec_dns_get(kept@ + self.entries@, other) by {
                        lemma_dns_get_concat(pre_kept, pre_rest, other);
                        lemma_dns_get_concat(kept@, self.entries@, other);
                        assert(spec_dns_get(pre_rest, other) == spec_dns_get(
                            self.entries@,
                            other,
                        ));
                    }
                }
            } else {
                kept.push((name, ips));
                proof {
                    assert(kept@ =~= pre_kept.push(pre_rest[0]));
                    assert(kept@ + self.entries@ =~= pre_kept + pre_rest);
                    assert(spec_dns_get(pre_rest, pkg@) == spec_dns_get(self.entries@, pkg@));
                }
            }
        }
        let ghost final_kept = kept@;
        let ghost exit_rest = self.entries@;
        std::mem::swap(&mut self.entries, &mut kept);
        proof {
            lemma_dns_no_key_no_get(final_kept, pkg@);
            assert(exit_rest.len() == 0);
            assert(spec_dns_get(exit_rest, pkg@) is None);
            assert forall|other: Seq<char>|
                other != pkg@ implies spec_dns_get(self.entries@, other) == spec_dns_get(
                old(self).entries@,
                other,
            ) by {
                assert(spec_dns_get(old(self).entries@, other) == spec_dns_get(
                    final_kept + exit_rest,
                    other,
                ));
                assert(final_kept + exit_rest =~= final_kept);
            }
        }
        taken
    }
}

/// Resolution over joined tables asks the first table first.
proof fn lemma_dns_get_concat(a: Seq<(String, Vec<u32>)>, b: Seq<(String, Vec<u32>)>, pkg: Seq<char>)
    ensures
        spec_dns_get(a + b, pkg) == (match spec_dns_get(a, pkg) {
            Some(v) => Some(v),
            None => spec_dns_get(b, pkg),
        }),
    decreases a.len(),
{
    if a.len() == 0 {
        assert(a + b =~= b);
    } else {
        assert((a + b)[0] == a[0]);
        assert((a + b).drop_first() =~= a.drop_first() + b);
        lemma_dns_get_concat(a.drop_first(), b, pkg);
    }
}

/// A table none of whose entries carry a name does not resolve it.
proof fn lemma_dns_no_key_no_get(entries: Seq<(String, Vec<u32>)>, pkg: Seq<char>)
    requires
        forall|k: int| 0 <= k < entries.len() ==> entries[k].0@ != pkg,
    ensures
        spec_dns_get(entries, pkg) is None,
    decreases entries.len(),
{
    if entries.len() > 0 {
        assert(forall|k: int|
            0 <= k < entries.drop_first().len() ==> entries.drop_first()[k] == entries[k + 1]);
        lemma_dns_no_key_no_get(entries.drop_first(), pkg);
    }
}

} // verus!
