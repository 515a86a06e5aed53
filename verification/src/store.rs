//! The global store: a map from account address to that account's storage,
//! with change-set application across accounts, unconditional publish
//! helpers, and the read-only lookups the virtual machine uses to resolve
//! modules and resources.

use vstd::prelude::*;
use crate::payload::Payload;
use crate::keys::{Address, ModuleName, ModuleId};
use crate::tags::StructTag;
use crate::kv::{kv_map, kv_distinct, lemma_kv_map_domain, lemma_kv_map_index, lemma_kv_map_push, lemma_kv_map_remove};
use crate::account::AccountStorage;
use crate::changes::{ChangeSet, StorageInvariantViolation, AccountView, AccountFailure, empty_account, apply_account, apply_changeset, violation_matches, module_at, resource_at, publish_module_result, publish_resource_result};

verus! {

/// A key/value attachment a module could carry. This store keeps no such
/// side-channel data: its metadata lookups always come back empty.
pub struct Metadata {
    pub key: Vec<u8>,
    pub value: Vec<u8>,
}

/// The position of the entry for account `a`, if one exists.
fn find_account(list: &Vec<(Address, AccountStorage)>, a: &Address) -> (r: Option<usize>)
    ensures
        match r {
            Some(i) => i < list@.len() && list@[i as int].0@ == a@,
            None => forall|j: int| 0 <= j < list@.len() ==> list@[j].0@ != a@,
        },
{
    let mut i: usize = 0;
    while i < list.len()
        invariant
            i <= list@.len(),
            forall|j: int| 0 <= j < i ==> list@[j].0@ != a@,
        decreases list@.len() - i,
    {
        if list[i].0.equals(a) {
            return Some(i);
        }
        i = i + 1;
    }
    None
}

/// The global store: every account's storage, addressed by account. An
/// address with no entry reads as an account with empty maps; an entry is
/// only materialized by the first successful write.
pub struct MockStorage {
    accounts: Vec<(Address, AccountStorage)>,
}

impl View for MockStorage {
    type V = Map<Seq<u8>, AccountView>;

    closed spec fn view(&self) -> Map<Seq<u8>, AccountView> {
        kv_map(self.accounts@)
    }
}

impl MockStorage {
    /// The account addresses are pairwise distinct and each account's maps
    /// are well formed.
    pub closed spec fn wf(&self) -> bool {
        &&& kv_distinct(self.accounts@)
        &&& forall|i: int| 0 <= i < self.accounts@.len() ==> (#[trigger] self.accounts@[i]).1.wf()
    }

    /// A fresh, empty store.
    pub fn new() -> (s: MockStorage)
        ensures
            s.wf(),
            s@ == Map::<Seq<u8>, AccountView>::empty(),
    {
        let s = MockStorage { accounts: Vec::new() };
        proof {
            assert(s@ =~= Map::<Seq<u8>, AccountView>::empty());
        }
        s
    }

    /// Applies a change set: routes each account's changes to that
    /// account's storage, creating a fresh one on the first successful
    /// write to a new address. Stops at the first existence violation and
    /// reports the offending address, key and operation; accounts and keys
    /// already processed stay applied (no rollback).
    pub fn apply_extended(&mut self, changeset: ChangeSet) -> (r: Result<(), StorageInvariantViolation>)
        requires
            old(self).wf(),
        ensures
            final(self).wf(),
            ({
                let (st2, f) = apply_changeset(old(self)@, changeset.accounts@);
                &&& final(self)@ == st2
                &&& match r {
                    Ok(()) => f is None,
                    Err(e) => f matches Some((i, af)) && violation_matches(
                        changeset.accounts@,
                        i,
                        af,
                        e,
                    ),
                }
            }),
    {
        let ChangeSet { accounts } = changeset;
        let ghost cs = accounts@;
        let ghost st0 = kv_map(old(self).accounts@);
        let n = accounts.len();
        proof {
            assert(n == cs.len());
            assert(cs.subrange(0, cs.len() as int) =~= cs);
        }
        let mut rev = crate::account::reverse_vec(accounts);
        let mut processed: usize = 0;
        #[verifier::loop_isolation(false)]
        while rev.len() > 0
            invariant
                processed + rev@.len() == cs.len(),
                forall|j: int| 0 <= j < rev@.len() ==> rev@[j] == cs[cs.len() - 1 - j],
                self.wf(),
                ({
                    let (stf, ff) = apply_changeset(st0, cs);
                    let (sts, fs) = apply_changeset(
                        self@,
                        cs.subrange(processed as int, cs.len() as int),
                    );
                    &&& stf == sts
                    &&& ff == (match fs {
                        Option::None => Option::<(int, AccountFailure)>::None,
                        Option::Some((j, af)) => Option::Some((j + processed, af)),
                    })
                }),
            decreases rev@.len(),
        {
            let ghost suffix = cs.subrange(processed as int, cs.len() as int);
            let ghost pre = self.accounts@;
            let (addr, ch) = rev.pop().unwrap();
            proof {
                assert((addr, ch) == cs[processed as int]);
                assert(suffix[0] == cs[processed as int]);
                assert(suffix.subrange(1, suffix.len() as int) =~= cs.subrange(
                    processed as int + 1,
                    cs.len() as int,
                ));
            }
            match find_account(&self.accounts, &addr) {
                Some(idx) => {
                    proof {
                        assert(pre[idx as int].0@ == addr@);
                        lemma_kv_map_index::<Address, AccountStorage>(pre, idx as int);
                        lemma_kv_map_remove::<Address, AccountStorage>(pre, idx as int);
                    }
                    let (a, mut st) = self.accounts.remove(idx);
                    proof {
                        assert(forall|j: int| 0 <= j < pre.len() - 1
                            ==> #[trigger] self.accounts@[j] == (if j < idx { pre[j] } else { pre[j
                            + 1] }));
                        assert(forall|j: int| 0 <= j < self.accounts@.len()
                            ==> (#[trigger] self.accounts@[j]).0@ != addr@);
                        assert(st.wf());
                        assert(st@ == kv_map(pre)[addr@]);
                    }
                    let ghost base = st@;
                    let res = st.apply(ch);
                    proof {
                        lemma_kv_map_push::<Address, AccountStorage>(self.accounts@, a, st);
                    }
                    self.accounts.push((a, st));
                    proof {
                        assert(self@ =~= kv_map(pre).insert(addr@, apply_account(
                            base,
                            cs[processed as int].1,
                        ).0));
                    }
                    match res {
                        Ok(()) => {}
                        Err(v) => {
                            proof {
                                let fch = apply_account(base, cs[processed as int].1).1;
                                assert(fch is Some);
                                assert(apply_changeset(kv_map(pre), suffix).1 == (match fch {
                                    Option::None => Option::<(int, AccountFailure)>::None,
                                    Option::Some(af) => Option::Some((0int, af)),
                                }));
                            }
                            return Err(StorageInvariantViolation {
                                address: addr,
                                key: v.key,
                                op: v.op,
                            });
                        }
                    }
                }
                None => {
                    proof {
                        lemma_kv_map_domain::<Address, AccountStorage>(pre, addr@);
                        assert(!kv_map(pre).dom().contains(addr@));
                    }
                    let mut fresh = AccountStorage::new();
                    let res = fresh.apply(ch);
                    match res {
                        Ok(()) => {
                            proof {
                                lemma_kv_map_push::<Address, AccountStorage>(self.accounts@, addr, fresh);
                            }
                            self.accounts.push((addr, fresh));
                            proof {
                                assert(self@ == kv_map(pre).insert(addr@, apply_account(
                                    empty_account(),
                                    cs[processed as int].1,
                                ).0));
                            }
                        }
                        Err(v) => {
                            proof {
                                let fch = apply_account(empty_account(), cs[processed as int].1).1;
                                assert(fch is Some);
                                assert(apply_changeset(kv_map(pre), suffix).1 == (match fch {
                                    Option::None => Option::<(int, AccountFailure)>::None,
                                    Option::Some(af) => Option::Some((0int, af)),
                                }));
                            }
                            return Err(StorageInvariantViolation {
                                address: addr,
                                key: v.key,
                                op: v.op,
                            });
                        }
                    }
                }
            }
            proof {
                let rest = suffix.subrange(1, suffix.len() as int);
                assert(apply_changeset(kv_map(pre), suffix).0 == apply_changeset(self@, rest).0);
                assert(apply_changeset(kv_map(pre), suffix).1 == (match apply_changeset(
                    self@,
                    rest,
                ).1 {
                    Option::None => Option::<(int, AccountFailure)>::None,
                    Option::Some((j, af)) => Option::Some((j + 1, af)),
                }));
            }
            processed = processed + 1;
        }
        Ok(())
    }

    /// Applies a change set; same behaviour as `apply_extended`.
    pub fn apply(&mut self, changeset: ChangeSet) -> (r: Result<(), StorageInvariantViolation>)
        requires
            old(self).wf(),
        ensures
            final(self).wf(),
            ({
                let (st2, f) = apply_changeset(old(self)@, changeset.accounts@);
                &&& final(self)@ == st2
                &&& match r {
                    Ok(()) => f is None,
                    Err(e) => f matches Some((i, af)) && violation_matches(
                        changeset.accounts@,
                        i,
                        af,
                        e,
                    ),
                }
            }),
    {
        self.apply_extended(changeset)
    }

    /// Publishes the module unconditionally: inserts or replaces the
    /// entry, bypassing the create/modify distinction; never fails.
    pub fn publish_or_overwrite_module(&mut self, module_id: ModuleId, blob: Vec<u8>)
        requires
            old(self).wf(),
        ensures
            final(self).wf(),
            final(self)@ == publish_module_result(
                old(self)@,
                module_id.address@,
                module_id.name@,
                blob@,
            ),
    {
        let ModuleId { address, name } = module_id;
        let payload = Payload::from_vec(blob);
        let ghost pre = self.accounts@;
        match find_account(&self.accounts, &address) {
            Some(idx) => {
                proof {
                    assert(pre[idx as int].0@ == address@);
                    lemma_kv_map_index::<Address, AccountStorage>(pre, idx as int);
                    lemma_kv_map_remove::<Address, AccountStorage>(pre, idx as int);
                }
                let (a, mut st) = self.accounts.remove(idx);
                proof {
                    assert(forall|j: int| 0 <= j < pre.len() - 1
                        ==> #[trigger] self.accounts@[j] == (if j < idx { pre[j] } else { pre[j
                        + 1] }));
                    assert(forall|j: int| 0 <= j < self.accounts@.len()
                        ==> (#[trigger] self.accounts@[j]).0@ != address@);
                }
                st.set_module(name, payload);
                proof {
                    lemma_kv_map_push::<Address, AccountStorage>(self.accounts@, a, st);
                }
                self.accounts.push((a, st));
            }
            None => {
                proof {
                    lemma_kv_map_domain::<Address, AccountStorage>(pre, address@);
                }
                let mut st = AccountStorage::new();
                st.set_module(name, payload);
                proof {
                    lemma_kv_map_push::<Address, AccountStorage>(self.accounts@, address, st);
                }
                self.accounts.push((address, st));
            }
        }
        proof {
            assert(self@ =~= publish_module_result(kv_map(pre), address@, name@, payload@));
        }
    }

    /// Publishes the resource unconditionally: inserts or replaces the
    /// entry, bypassing the create/modify distinction; never fails.
    pub fn publish_or_overwrite_resource(&mut self, addr: Address, struct_tag: StructTag, blob: Vec<u8>)
        requires
            old(self).wf(),
        ensures
            final(self).wf(),
            final(self)@ == publish_resource_result(old(self)@, addr@, struct_tag@, blob@),
    {
        let payload = Payload::from_vec(blob);
        let ghost pre = self.accounts@;
        match find_account(&self.accounts, &addr) {
            Some(idx) => {
                proof {
                    assert(pre[idx as int].0@ == addr@);
                    lemma_kv_map_index::<Address, AccountStorage>(pre, idx as int);
                    lemma_kv_map_remove::<Address, AccountStorage>(pre, idx as int);
                }
                let (a, mut st) = self.accounts.remove(idx);
                proof {
                    assert(forall|j: int| 0 <= j < pre.len() - 1
                        ==> #[trigger] self.accounts@[j] == (if j < idx { pre[j] } else { pre[j
                        + 1] }));
                    assert(forall|j: int| 0 <= j < self.accounts@.len()
                        ==> (#[trigger] self.accounts@[j]).0@ != addr@);
                }
                st.set_resource(struct_tag, payload);
                proof {
                    lemma_kv_map_push::<Address, AccountStorage>(self.accounts@, a, st);
                }
                self.accounts.push((a, st));
            }
            None => {
                proof {
                    lemma_kv_map_domain::<Address, AccountStorage>(pre, addr@);
                }
                let mut st = AccountStorage::new();
                st.set_resource(struct_tag, payload);
                proof {
                    lemma_kv_map_push::<Address, AccountStorage>(self.accounts@, addr, st);
                }
                self.accounts.push((addr, st));
            }
        }
        proof {
            assert(self@ =~= publish_resource_result(kv_map(pre), addr@, struct_tag@, payload@));
        }
    }

    /// The module's payload, if published. A missing address or key is a
    /// normal absent outcome, never a failure, and reading materializes
    /// nothing.
    pub fn get_module(&self, module_id: &ModuleId) -> (r: Option<Payload>)
        requires
            self.wf(),
        ensures
            match r {
                Some(p) => module_at(self@, module_id.address@, module_id.name@) == Some(p@),
                None => module_at(self@, module_id.address@, module_id.name@) is None,
            },
    {
        match find_account(&self.accounts, &module_id.address) {
            Some(i) => {
                proof {
                    lemma_kv_map_index::<Address, AccountStorage>(self.accounts@, i as int);
                }
                self.accounts[i].1.module_payload(&module_id.name)
            }
            None => {
                proof {
                    lemma_kv_map_domain::<Address, AccountStorage>(self.accounts@, module_id.address@);
                }
                None
            }
        }
    }

    /// The metadata attached to the module: always empty, whether or not
    /// the module exists — this store carries no metadata.
    pub fn get_module_metadata(&self, _module_id: &ModuleId) -> (r: Vec<Metadata>)
        ensures
            r@.len() == 0,
    {
        Vec::new()
    }

    /// The resource's payload, if published, together with its exact byte
    /// length (0 when absent). The metadata and layout hints are ignored:
    /// the store performs no layout-aware decoding. Absence is a normal
    /// outcome, never a failure.
    pub fn get_resource_bytes_with_metadata_and_layout<L>(
        &self,
        address: &Address,
        tag: &StructTag,
        _metadata: &[Metadata],
        _maybe_layout: Option<&L>,
    ) -> (r: (Option<Payload>, usize))
        requires
            self.wf(),
        ensures
            match resource_at(self@, address@, tag@) {
                Some(v) => r.0 matches Some(p) && p@ == v && r.1 == v.len(),
                None => r.0 is None && r.1 == 0,
            },
    {
        match find_account(&self.accounts, address) {
            Some(i) => {
                proof {
                    lemma_kv_map_index::<Address, AccountStorage>(self.accounts@, i as int);
                }
                match self.accounts[i].1.resource_payload(tag) {
                    Some(p) => {
                        let size = p.len();
                        (Some(p), size)
                    }
                    None => (None, 0),
                }
            }
            None => {
                proof {
                    lemma_kv_map_domain::<Address, AccountStorage>(self.accounts@, address@);
                }
                (None, 0)
            }
        }
    }
}

} // verus!
