//! Change sets and their meaning. A change set batches per-account,
//! per-key operations. The spec functions here give the exact semantics of
//! applying one: operations run front to back, each key's precondition is
//! judged against the map state at the moment that key is processed, the
//! first violation stops the run, and everything applied before it stays
//! applied (no rollback).

use vstd::prelude::*;
use crate::payload::Payload;
use crate::keys::{Address, ModuleName};
use crate::tags::{StructTag, StructTagView};

verus! {

/// One operation on one key: publish a new entry, replace an existing one,
/// or remove an existing one.
pub enum ChangeOp {
    Create(Payload),
    Modify(Payload),
    Delete,
}

/// Which operation was attempted; carried by errors.
#[derive(Clone, Copy, Debug, PartialEq, Eq, Structural)]
pub enum OpKind {
    Create,
    Modify,
    Delete,
}

impl ChangeOp {
    pub open spec fn kind(self) -> OpKind {
        match self {
            ChangeOp::Create(_) => OpKind::Create,
            ChangeOp::Modify(_) => OpKind::Modify,
            ChangeOp::Delete => OpKind::Delete,
        }
    }
}

/// The changes a change set asks of one account: one operation per module
/// key and one per resource key.
pub struct AccountChangeSet {
    pub modules: Vec<(ModuleName, ChangeOp)>,
    pub resources: Vec<(StructTag, ChangeOp)>,
}

impl AccountChangeSet {
    /// An empty per-account change set.
    pub fn new() -> (r: AccountChangeSet)
        ensures
            r.modules@.len() == 0,
            r.resources@.len() == 0,
    {
        AccountChangeSet { modules: Vec::new(), resources: Vec::new() }
    }
}

/// A batch of per-account changes, consumed exactly once by an apply call.
pub struct ChangeSet {
    pub accounts: Vec<(Address, AccountChangeSet)>,
}

impl ChangeSet {
    /// An empty change set.
    pub fn new() -> (r: ChangeSet)
        ensures
            r.accounts@.len() == 0,
    {
        ChangeSet { accounts: Vec::new() }
    }
}

/// The key an operation targeted, carried by errors.
pub enum ChangeKey {
    Module(ModuleName),
    Resource(StructTag),
}

/// The mathematical shape of a `ChangeKey`.
pub enum ChangeKeyView {
    Module(Seq<u8>),
    Resource(StructTagView),
}

impl View for ChangeKey {
    type V = ChangeKeyView;

    open spec fn view(&self) -> ChangeKeyView {
        match self {
            ChangeKey::Module(n) => ChangeKeyView::Module(n@),
            ChangeKey::Resource(t) => ChangeKeyView::Resource(t@),
        }
    }
}

/// An existence invariant was violated while applying changes to one
/// account: a `Create` hit a present key, or a `Modify`/`Delete` hit an
/// absent one. Carries the offending key and the attempted operation.
pub struct AccountViolation {
    pub key: ChangeKey,
    pub op: OpKind,
}

/// An existence invariant was violated while applying a change set:
/// carries the account address, the offending key, and the attempted
/// operation. `Create` means the key already existed; `Modify` and
/// `Delete` mean it did not exist.
pub struct StorageInvariantViolation {
    pub address: Address,
    pub key: ChangeKey,
    pub op: OpKind,
}

/// Whether `op` may be applied at key `k` of map `m`: a key may only be
/// created while absent, and only modified or deleted while present.
pub open spec fn op_allowed<KV>(m: Map<KV, Seq<u8>>, k: KV, op: ChangeOp) -> bool {
    match op {
        ChangeOp::Create(_) => !m.dom().contains(k),
        ChangeOp::Modify(_) => m.dom().contains(k),
        ChangeOp::Delete => m.dom().contains(k),
    }
}

/// The map after applying one allowed operation at key `k`.
pub open spec fn op_result<KV>(m: Map<KV, Seq<u8>>, k: KV, op: ChangeOp) -> Map<KV, Seq<u8>> {
    match op {
        ChangeOp::Create(p) => m.insert(k, p@),
        ChangeOp::Modify(p) => m.insert(k, p@),
        ChangeOp::Delete => m.remove(k),
    }
}

/// Applies the operations to `m` front to back. Returns the resulting map
/// and the index of the first operation that violated an existence
/// invariant, if any: operations before that index are applied, the rest
/// are not.
pub open spec fn apply_ops<K: View>(
    m: Map<K::V, Seq<u8>>,
    ops: Seq<(K, ChangeOp)>,
) -> (Map<K::V, Seq<u8>>, Option<int>)
    decreases ops.len(),
{
    if ops.len() == 0 {
        (m, None)
    } else {
        let (k, op) = ops[0];
        if op_allowed(m, k@, op) {
            let rec = apply_ops(op_result(m, k@, op), ops.subrange(1, ops.len() as int));
            (
                rec.0,
                match rec.1 {
                    Option::None => Option::<int>::None,
                    Option::Some(i) => Option::Some(i + 1),
                },
            )
        } else {
            (m, Some(0int))
        }
    }
}

/// One account's view: its module map and its resource map. A key present
/// in a map is published; an absent key is not. No tombstones.
#[verifier::ext_equal]
pub struct AccountView {
    pub modules: Map<Seq<u8>, Seq<u8>>,
    pub resources: Map<StructTagView, Seq<u8>>,
}

/// The account an address denotes before anything was written to it.
pub open spec fn empty_account() -> AccountView {
    AccountView { modules: Map::empty(), resources: Map::empty() }
}

/// Where a per-account apply failed: at an index into the module changes,
/// or into the resource changes.
pub enum AccountFailure {
    Modules(int),
    Resources(int),
}

/// Applies one account's changes: first all module operations, then all
/// resource operations, each front to back with no rollback.
pub open spec fn apply_account(acc: AccountView, ch: AccountChangeSet) -> (AccountView, Option<AccountFailure>) {
    let (m2, fm) = apply_ops::<ModuleName>(acc.modules, ch.modules@);
    match fm {
        Option::Some(i) => (
            AccountView { modules: m2, resources: acc.resources },
            Option::Some(AccountFailure::Modules(i)),
        ),
        Option::None => {
            let (r2, fr) = apply_ops::<StructTag>(acc.resources, ch.resources@);
            (
                AccountView { modules: m2, resources: r2 },
                match fr {
                    Option::None => Option::<AccountFailure>::None,
                    Option::Some(i) => Option::Some(AccountFailure::Resources(i)),
                },
            )
        }
    }
}

/// The violation a failed per-account apply reports, given where it
/// failed.
pub open spec fn account_violation_matches(ch: AccountChangeSet, af: AccountFailure, v: AccountViolation) -> bool {
    match af {
        AccountFailure::Modules(j) => {
            &&& 0 <= j < ch.modules@.len()
            &&& v.key@ == ChangeKeyView::Module(ch.modules@[j].0@)
            &&& v.op == ch.modules@[j].1.kind()
        }
        AccountFailure::Resources(j) => {
            &&& 0 <= j < ch.resources@.len()
            &&& v.key@ == ChangeKeyView::Resource(ch.resources@[j].0@)
            &&& v.op == ch.resources@[j].1.kind()
        }
    }
}

/// Applies a change set to the store, account by account, front to back.
/// An account's store entry is looked up, or stands in as empty when the
/// address was never written. On success the account's new state is
/// recorded. On the first violation the run stops: an account that already
/// had an entry keeps the partially applied state, while a fresh account's
/// partial state is discarded — its entry is only materialized by a
/// successful first write. Returns the resulting store and, on failure,
/// the index of the failing account together with where in its changes the
/// violation was.
pub open spec fn apply_changeset(
    st: Map<Seq<u8>, AccountView>,
    accs: Seq<(Address, AccountChangeSet)>,
) -> (Map<Seq<u8>, AccountView>, Option<(int, AccountFailure)>)
    decreases accs.len(),
{
    if accs.len() == 0 {
        (st, None)
    } else {
        let (addr, ch) = accs[0];
        let known = st.dom().contains(addr@);
        let base = if known { st[addr@] } else { empty_account() };
        let (acc2, f) = apply_account(base, ch);
        match f {
            Option::Some(af) => (
                if known { st.insert(addr@, acc2) } else { st },
                Option::Some((0int, af)),
            ),
            Option::None => {
                let rec = apply_changeset(st.insert(addr@, acc2), accs.subrange(1, accs.len() as int));
                (
                    rec.0,
                    match rec.1 {
                        Option::None => Option::<(int, AccountFailure)>::None,
                        Option::Some((i, af)) => Option::Some((i + 1, af)),
                    },
                )
            }
        }
    }
}

/// The violation a failed change-set apply reports, given which account
/// and where in its changes it failed.
pub open spec fn violation_matches(
    accs: Seq<(Address, AccountChangeSet)>,
    i: int,
    af: AccountFailure,
    e: StorageInvariantViolation,
) -> bool {
    &&& 0 <= i < accs.len()
    &&& e.address@ == accs[i].0@
    &&& account_violation_matches(
        accs[i].1,
        af,
        AccountViolation { key: e.key, op: e.op },
    )
}

/// The payload the store shows for module `k` of account `a`, if any.
pub open spec fn module_at(st: Map<Seq<u8>, AccountView>, a: Seq<u8>, k: Seq<u8>) -> Option<Seq<u8>> {
    if st.dom().contains(a) && st[a].modules.dom().contains(k) {
        Some(st[a].modules[k])
    } else {
        None
    }
}

/// The payload the store shows for resource `t` of account `a`, if any.
pub open spec fn resource_at(st: Map<Seq<u8>, AccountView>, a: Seq<u8>, t: StructTagView) -> Option<Seq<u8>> {
    if st.dom().contains(a) && st[a].resources.dom().contains(t) {
        Some(st[a].resources[t])
    } else {
        None
    }
}

/// The store after unconditionally publishing module `k` of account `a`
/// with payload `p`: the entry is inserted or replaced, no precondition.
pub open spec fn publish_module_result(
    st: Map<Seq<u8>, AccountView>,
    a: Seq<u8>,
    k: Seq<u8>,
    p: Seq<u8>,
) -> Map<Seq<u8>, AccountView> {
    let base = if st.dom().contains(a) { st[a] } else { empty_account() };
    st.insert(a, AccountView { modules: base.modules.insert(k, p), resources: base.resources })
}

/// The store after unconditionally publishing resource `t` of account `a`
/// with payload `p`.
pub open spec fn publish_resource_result(
    st: Map<Seq<u8>, AccountView>,
    a: Seq<u8>,
    t: StructTagView,
    p: Seq<u8>,
) -> Map<Seq<u8>, AccountView> {
    let base = if st.dom().contains(a) { st[a] } else { empty_account() };
    st.insert(a, AccountView { modules: base.modules, resources: base.resources.insert(t, p) })
}

} // verus!
