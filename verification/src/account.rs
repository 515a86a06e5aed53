//! One account's storage: its module map and its resource map, each an
//! association list with distinct keys, and the change-application
//! algorithm that enforces the existence invariants key by key.

use vstd::prelude::*;
use crate::payload::Payload;
use crate::keys::ModuleName;
use crate::tags::StructTag;
use crate::kv::{kv_map, kv_distinct, lemma_kv_map_domain, lemma_kv_map_index, lemma_kv_map_push, lemma_kv_map_remove, lemma_kv_map_update};
use crate::changes::{ChangeOp, OpKind, ChangeKey, ChangeKeyView, AccountChangeSet, AccountViolation, AccountView, empty_account, op_allowed, op_result, apply_ops, apply_account, account_violation_matches};

verus! {

/// Reverses a vector; used to consume a change list front to back by
/// popping.
pub(crate) fn reverse_vec<T>(v: Vec<T>) -> (r: Vec<T>)
    ensures
        r@.len() == v@.len(),
        forall|j: int| 0 <= j < v@.len() ==> r@[j] == v@[v@.len() - 1 - j],
{
    let ghost orig = v@;
    let mut src = v;
    let mut r: Vec<T> = Vec::new();
    proof {
        assert(src@ =~= orig.subrange(0, src@.len() as int));
    }
    while src.len() > 0
        invariant
            src@ == orig.subrange(0, src@.len() as int),
            r@.len() + src@.len() == orig.len(),
            forall|j: int| 0 <= j < r@.len() ==> r@[j] == orig[orig.len() - 1 - j],
        decreases src.len(),
    {
        let x = src.pop().unwrap();
        proof {
            assert(src@ =~= orig.subrange(0, src@.len() as int));
        }
        r.push(x);
    }
    r
}

/// The position of the entry for module key `k`, if one exists.
fn find_module(list: &Vec<(ModuleName, Payload)>, k: &ModuleName) -> (r: Option<usize>)
    ensures
        match r {
            Some(i) => i < list@.len() && list@[i as int].0@ == k@,
            None => forall|j: int| 0 <= j < list@.len() ==> list@[j].0@ != k@,
        },
{
    let mut i: usize = 0;
    while i < list.len()
        invariant
            i <= list@.len(),
            forall|j: int| 0 <= j < i ==> list@[j].0@ != k@,
        decreases list@.len() - i,
    {
        if list[i].0.equals(k) {
            return Some(i);
        }
        i = i + 1;
    }
    None
}

/// The position of the entry for resource key `t`, if one exists.
fn find_resource(list: &Vec<(StructTag, Payload)>, t: &StructTag) -> (r: Option<usize>)
    ensures
        match r {
            Some(i) => i < list@.len() && list@[i as int].0@ == t@,
            None => forall|j: int| 0 <= j < list@.len() ==> list@[j].0@ != t@,
        },
{
    let mut i: usize = 0;
    while i < list.len()
        invariant
            i <= list@.len(),
            forall|j: int| 0 <= j < i ==> list@[j].0@ != t@,
        decreases list@.len() - i,
    {
        if crate::tags::struct_tag_equals(&list[i].0, t) {
            return Some(i);
        }
        i = i + 1;
    }
    None
}

/// Applies module operations to the module map, front to back, stopping at
/// the first existence violation; earlier operations stay applied.
fn apply_module_ops(list: &mut Vec<(ModuleName, Payload)>, changes: Vec<(ModuleName, ChangeOp)>) -> (r: Result<
    (),
    AccountViolation,
>)
    requires
        kv_distinct(old(list)@),
    ensures
        kv_distinct(final(list)@),
        ({
            let (m2, f) = apply_ops::<ModuleName>(kv_map(old(list)@), changes@);
            &&& kv_map(final(list)@) == m2
            &&& match r {
                Ok(()) => f is None,
                Err(v) => f matches Some(j) && 0 <= j < changes@.len() && v.key@
                    == ChangeKeyView::Module(changes@[j].0@) && v.op == changes@[j].1.kind(),
            }
        }),
{
    let ghost cs = changes@;
    let ghost m0 = kv_map(old(list)@);
    let n = changes.len();
    proof {
        assert(n == cs.len());
    }
    let mut rev = reverse_vec(changes);
    let mut processed: usize = 0;
    proof {
        assert(cs.subrange(0, cs.len() as int) =~= cs);
    }
    #[verifier::loop_isolation(false)]
    while rev.len() > 0
        invariant
            cs.len() <= usize::MAX,
            processed + rev@.len() == cs.len(),
            forall|j: int| 0 <= j < rev@.len() ==> rev@[j] == cs[cs.len() - 1 - j],
            kv_distinct(list@),
            ({
                let (mf, ff) = apply_ops::<ModuleName>(m0, cs);
                let (ms, fs) = apply_ops::<ModuleName>(
                    kv_map(list@),
                    cs.subrange(processed as int, cs.len() as int),
                );
                &&& mf == ms
                &&& ff == (match fs {
                    Option::None => Option::<int>::None,
                    Option::Some(j) => Option::Some(j + processed),
                })
            }),
        decreases rev@.len(),
    {
        let ghost suffix = cs.subrange(processed as int, cs.len() as int);
        let ghost pre = list@;
        let (k, op) = rev.pop().unwrap();
        proof {
            assert((k, op) == cs[processed as int]);
            assert(suffix[0] == cs[processed as int]);
            assert(suffix.subrange(1, suffix.len() as int) =~= cs.subrange(
                processed as int + 1,
                cs.len() as int,
            ));
        }
        match op {
            ChangeOp::Create(p) => {
                match find_module(list, &k) {
                    Some(idx) => {
                        proof {
                            assert(list@[idx as int].0@ == k@);
                            lemma_kv_map_domain::<ModuleName, Payload>(list@, k@);
                            assert(!op_allowed(kv_map(list@), k@, suffix[0].1));
                            assert(apply_ops::<ModuleName>(kv_map(list@), suffix) == (
                                kv_map(list@),
                                Option::Some(0int),
                            ));
                        }
                        return Err(AccountViolation { key: ChangeKey::Module(k), op: OpKind::Create });
                    }
                    None => {
                        proof {
                            lemma_kv_map_domain::<ModuleName, Payload>(list@, k@);
                            lemma_kv_map_push::<ModuleName, Payload>(list@, k, p);
                        }
                        list.push((k, p));
                    }
                }
            }
            ChangeOp::Modify(p) => {
                match find_module(list, &k) {
                    Some(idx) => {
                        proof {
                            assert(list@[idx as int].0@ == k@);
                            lemma_kv_map_index::<ModuleName, Payload>(list@, idx as int);
                            lemma_kv_map_update::<ModuleName, Payload>(list@, idx as int, k, p);
                        }
                        list[idx] = (k, p);
                    }
                    None => {
                        proof {
                            lemma_kv_map_domain::<ModuleName, Payload>(list@, k@);
                            assert(!op_allowed(kv_map(list@), k@, suffix[0].1));
                            assert(apply_ops::<ModuleName>(kv_map(list@), suffix) == (
                                kv_map(list@),
                                Option::Some(0int),
                            ));
                        }
                        return Err(AccountViolation { key: ChangeKey::Module(k), op: OpKind::Modify });
                    }
                }
            }
            ChangeOp::Delete => {
                match find_module(list, &k) {
                    Some(idx) => {
                        proof {
                            assert(list@[idx as int].0@ == k@);
                            lemma_kv_map_index::<ModuleName, Payload>(list@, idx as int);
                            lemma_kv_map_remove::<ModuleName, Payload>(list@, idx as int);
                        }
                        let _ = list.remove(idx);
                    }
                    None => {
                        proof {
                            lemma_kv_map_domain::<ModuleName, Payload>(list@, k@);
                            assert(!op_allowed(kv_map(list@), k@, suffix[0].1));
                            assert(apply_ops::<ModuleName>(kv_map(list@), suffix) == (
                                kv_map(list@),
                                Option::Some(0int),
                            ));
                        }
                        return Err(AccountViolation { key: ChangeKey::Module(k), op: OpKind::Delete });
                    }
                }
            }
        }
        proof {
            let opv = cs[processed as int].1;
            let kview = cs[processed as int].0@;
            let mold = kv_map(pre);
            let mnew = kv_map(list@);
            assert(op_allowed(mold, kview, opv));
            assert(mnew == op_result(mold, kview, opv));
            let rest = suffix.subrange(1, suffix.len() as int);
            assert(apply_ops::<ModuleName>(mold, suffix).0 == apply_ops::<ModuleName>(mnew, rest).0);
            assert(apply_ops::<ModuleName>(mold, suffix).1 == (match apply_ops::<ModuleName>(
                mnew,
                rest,
            ).1 {
                Option::None => Option::<int>::None,
                Option::Some(j) => Option::Some(j + 1),
            }));
        }
        processed = processed + 1;
    }
    Ok(())
}

/// Applies resource operations to the resource map, front to back,
/// stopping at the first existence violation; earlier operations stay
/// applied.
fn apply_resource_ops(list: &mut Vec<(StructTag, Payload)>, changes: Vec<(StructTag, ChangeOp)>) -> (r: Result<
    (),
    AccountViolation,
>)
    requires
        kv_distinct(old(list)@),
    ensures
        kv_distinct(final(list)@),
        ({
            let (m2, f) = apply_ops::<StructTag>(kv_map(old(list)@), changes@);
            &&& kv_map(final(list)@) == m2
            &&& match r {
                Ok(()) => f is None,
                Err(v) => f matches Some(j) && 0 <= j < changes@.len() && v.key@
                    == ChangeKeyView::Resource(changes@[j].0@) && v.op == changes@[j].1.kind(),
            }
        }),
{
    let ghost cs = changes@;
    let ghost m0 = kv_map(old(list)@);
    let n = changes.len();
    proof {
        assert(n == cs.len());
    }
    let mut rev = reverse_vec(changes);
    let mut processed: usize = 0;
    proof {
        assert(cs.subrange(0, cs.len() as int) =~= cs);
    }
    #[verifier::loop_isolation(false)]
    while rev.len() > 0
        invariant
            cs.len() <= usize::MAX,
            processed + rev@.len() == cs.len(),
            forall|j: int| 0 <= j < rev@.len() ==> rev@[j] == cs[cs.len() - 1 - j],
            kv_distinct(list@),
            ({
                let (mf, ff) = apply_ops::<StructTag>(m0, cs);
                let (ms, fs) = apply_ops::<StructTag>(
                    kv_map(list@),
                    cs.subrange(processed as int, cs.len() as int),
                );
                &&& mf == ms
                &&& ff == (match fs {
                    Option::None => Option::<int>::None,
                    Option::Some(j) => Option::Some(j + processed),
                })
            }),
        decreases rev@.len(),
    {
        let ghost suffix = cs.subrange(processed as int, cs.len() as int);
        let ghost pre = list@;
        let (k, op) = rev.pop().unwrap();
        proof {
            assert((k, op) == cs[processed as int]);
            assert(suffix[0] == cs[processed as int]);
            assert(suffix.subrange(1, suffix.len() as int) =~= cs.subrange(
                processed as int + 1,
                cs.len() as int,
            ));
        }
        match op {
            ChangeOp::Create(p) => {
                match find_resource(list, &k) {
                    Some(idx) => {
                        proof {
                            assert(list@[idx as int].0@ == k@);
                            lemma_kv_map_domain::<StructTag, Payload>(list@, k@);
                            assert(!op_allowed(kv_map(list@), k@, suffix[0].1));
                            assert(apply_ops::<StructTag>(kv_map(list@), suffix) == (
                                kv_map(list@),
                                Option::Some(0int),
                            ));
                        }
                        return Err(AccountViolation { key: ChangeKey::Resource(k), op: OpKind::Create });
                    }
                    None => {
                        proof {
                            lemma_kv_map_domain::<StructTag, Payload>(list@, k@);
                            lemma_kv_map_push::<StructTag, Payload>(list@, k, p);
                        }
                        list.push((k, p));
                    }
                }
            }
            ChangeOp::Modify(p) => {
                match find_resource(list, &k) {
                    Some(idx) => {
                        proof {
                            assert(list@[idx as int].0@ == k@);
                            lemma_kv_map_index::<StructTag, Payload>(list@, idx as int);
                            lemma_kv_map_update::<StructTag, Payload>(list@, idx as int, k, p);
                        }
                        list[idx] = (k, p);
                    }
                    None => {
                        proof {
                            lemma_kv_map_domain::<StructTag, Payload>(list@, k@);
                            assert(!op_allowed(kv_map(list@), k@, suffix[0].1));
                            assert(apply_ops::<StructTag>(kv_map(list@), suffix) == (
                                kv_map(list@),
                                Option::Some(0int),
                            ));
                        }
                        return Err(AccountViolation { key: ChangeKey::Resource(k), op: OpKind::Modify });
                    }
                }
            }
            ChangeOp::Delete => {
                match find_resource(list, &k) {
                    Some(idx) => {
                        proof {
                            assert(list@[idx as int].0@ == k@);
                            lemma_kv_map_index::<StructTag, Payload>(list@, idx as int);
                            lemma_kv_map_remove::<StructTag, Payload>(list@, idx as int);
                        }
                        let _ = list.remove(idx);
                    }
                    None => {
                        proof {
                            lemma_kv_map_domain::<StructTag, Payload>(list@, k@);
                            assert(!op_allowed(kv_map(list@), k@, suffix[0].1));
                            assert(apply_ops::<StructTag>(kv_map(list@), suffix) == (
                                kv_map(list@),
                                Option::Some(0int),
                            ));
                        }
                        return Err(AccountViolation { key: ChangeKey::Resource(k), op: OpKind::Delete });
                    }
                }
            }
        }
        proof {
            let opv = cs[processed as int].1;
            let kview = cs[processed as int].0@;
            let mold = kv_map(pre);
            let mnew = kv_map(list@);
            assert(op_allowed(mold, kview, opv));
            assert(mnew == op_result(mold, kview, opv));
            let rest = suffix.subrange(1, suffix.len() as int);
            assert(apply_ops::<StructTag>(mold, suffix).0 == apply_ops::<StructTag>(mnew, rest).0);
            assert(apply_ops::<StructTag>(mold, suffix).1 == (match apply_ops::<StructTag>(
                mnew,
                rest,
            ).1 {
                Option::None => Option::<int>::None,
                Option::Some(j) => Option::Some(j + 1),
            }));
        }
        processed = processed + 1;
    }
    Ok(())
}

/// One account's storage: the modules and resources it currently has
/// published. A key present in a map is published; absence means not
/// published. No tombstones are kept.
pub struct AccountStorage {
    modules: Vec<(ModuleName, Payload)>,
    resources: Vec<(StructTag, Payload)>,
}

impl View for AccountStorage {
    type V = AccountView;

    closed spec fn view(&self) -> AccountView {
        AccountView { modules: kv_map(self.modules@), resources: kv_map(self.resources@) }
    }
}

impl AccountStorage {
    /// The keys inside each map are pairwise distinct.
    pub closed spec fn wf(&self) -> bool {
        kv_distinct(self.modules@) && kv_distinct(self.resources@)
    }

    /// A fresh account with nothing published.
    pub fn new() -> (a: AccountStorage)
        ensures
            a.wf(),
            a@ == empty_account(),
    {
        let a = AccountStorage { modules: Vec::new(), resources: Vec::new() };
        proof {
            assert(a@ =~= empty_account());
        }
        a
    }

    /// Applies one account's changes: all module operations, then all
    /// resource operations, each front to back under the existence
    /// invariants, stopping at the first violation with everything applied
    /// before it kept.
    pub fn apply(&mut self, changes: AccountChangeSet) -> (r: Result<(), AccountViolation>)
        requires
            old(self).wf(),
        ensures
            final(self).wf(),
            ({
                let (a2, f) = apply_account(old(self)@, changes);
                &&& final(self)@ == a2
                &&& match r {
                    Ok(()) => f is None,
                    Err(v) => f matches Some(af) && account_violation_matches(changes, af, v),
                }
            }),
    {
        let AccountChangeSet { modules, resources } = changes;
        match apply_module_ops(&mut self.modules, modules) {
            Err(v) => {
                proof {
                    assert(self@ =~= apply_account(old(self)@, changes).0);
                }
                return Err(v);
            }
            Ok(()) => {}
        }
        match apply_resource_ops(&mut self.resources, resources) {
            Err(v) => {
                proof {
                    assert(self@ =~= apply_account(old(self)@, changes).0);
                }
                Err(v)
            }
            Ok(()) => {
                proof {
                    assert(self@ =~= apply_account(old(self)@, changes).0);
                }
                Ok(())
            }
        }
    }

    /// Inserts or replaces the module entry, unconditionally.
    pub fn set_module(&mut self, name: ModuleName, payload: Payload)
        requires
            old(self).wf(),
        ensures
            final(self).wf(),
            final(self)@ == (AccountView {
                modules: old(self)@.modules.insert(name@, payload@),
                resources: old(self)@.resources,
            }),
    {
        match find_module(&self.modules, &name) {
            Some(idx) => {
                proof {
                    lemma_kv_map_update::<ModuleName, Payload>(self.modules@, idx as int, name, payload);
                }
                self.modules[idx] = (name, payload);
            }
            None => {
                proof {
                    lemma_kv_map_push::<ModuleName, Payload>(self.modules@, name, payload);
                }
                self.modules.push((name, payload));
            }
        }
        proof {
            assert(self@ =~= (AccountView {
                modules: old(self)@.modules.insert(name@, payload@),
                resources: old(self)@.resources,
            }));
        }
    }

    /// Inserts or replaces the resource entry, unconditionally.
    pub fn set_resource(&mut self, tag: StructTag, payload: Payload)
        requires
            old(self).wf(),
        ensures
            final(self).wf(),
            final(self)@ == (AccountView {
                modules: old(self)@.modules,
                resources: old(self)@.resources.insert(tag@, payload@),
            }),
    {
        match find_resource(&self.resources, &tag) {
            Some(idx) => {
                proof {
                    lemma_kv_map_update::<StructTag, Payload>(self.resources@, idx as int, tag, payload);
                }
                self.resources[idx] = (tag, payload);
            }
            None => {
                proof {
                    lemma_kv_map_push::<StructTag, Payload>(self.resources@, tag, payload);
                }
                self.resources.push((tag, payload));
            }
        }
        proof {
            assert(self@ =~= (AccountView {
                modules: old(self)@.modules,
                resources: old(self)@.resources.insert(tag@, payload@),
            }));
        }
    }

    /// The payload published under the module key, if any; absence is a
    /// normal outcome, not a failure.
    pub fn module_payload(&self, name: &ModuleName) -> (r: Option<Payload>)
        requires
            self.wf(),
        ensures
            match r {
                Some(p) => self@.modules.dom().contains(name@) && p@ == self@.modules[name@],
                None => !self@.modules.dom().contains(name@),
            },
    {
        match find_module(&self.modules, name) {
            Some(i) => {
                proof {
                    lemma_kv_map_index::<ModuleName, Payload>(self.modules@, i as int);
                }
                Some(self.modules[i].1.clone())
            }
            None => {
                proof {
                    lemma_kv_map_domain::<ModuleName, Payload>(self.modules@, name@);
                }
                None
            }
        }
    }

    /// The payload published under the resource key, if any; absence is a
    /// normal outcome, not a failure.
    pub fn resource_payload(&self, tag: &StructTag) -> (r: Option<Payload>)
        requires
            self.wf(),
        ensures
            match r {
                Some(p) => self@.resources.dom().contains(tag@) && p@ == self@.resources[tag@],
                None => !self@.resources.dom().contains(tag@),
            },
    {
        match find_resource(&self.resources, tag) {
            Some(i) => {
                proof {
                    lemma_kv_map_index::<StructTag, Payload>(self.resources@, i as int);
                }
                Some(self.resources[i].1.clone())
            }
            None => {
                proof {
                    lemma_kv_map_domain::<StructTag, Payload>(self.resources@, tag@);
                }
                None
            }
        }
    }
}

} // verus!
