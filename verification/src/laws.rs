//! The store's laws: properties that hold for all addresses, keys and
//! payloads, proved against the same spec functions the executable
//! functions' contracts use.

use vstd::prelude::*;
use crate::payload::Payload;
use crate::keys::{Address, ModuleName};
use crate::tags::StructTag;
use crate::changes::{ChangeOp, ChangeSet, AccountChangeSet, AccountView, AccountFailure, empty_account, op_allowed, op_result, apply_ops, apply_account, apply_changeset, module_at, resource_at, publish_module_result};

verus! {

/// Create/read round-trip: for every store, address, resource key and
/// payload, applying a change set whose single operation creates that
/// resource succeeds (the key was absent) and the store afterwards shows
/// exactly that payload under that key — so the resource read returns it,
/// with its exact byte length.
pub proof fn lemma_create_read_round_trip(
    st: Map<Seq<u8>, AccountView>,
    cs: ChangeSet,
    addr: Address,
    tag: StructTag,
    p: Payload,
)
    requires
        cs.accounts@.len() == 1,
        cs.accounts@[0].0 == addr,
        cs.accounts@[0].1.modules@.len() == 0,
        cs.accounts@[0].1.resources@ =~= seq![(tag, ChangeOp::Create(p))],
        resource_at(st, addr@, tag@) is None,
    ensures
        ({
            let (st2, f) = apply_changeset(st, cs.accounts@);
            &&& f is None
            &&& resource_at(st2, addr@, tag@) == Some(p@)
        }),
{
    let accs = cs.accounts@;
    let ch = accs[0].1;
    let base = if st.dom().contains(addr@) {
        st[addr@]
    } else {
        empty_account()
    };
    assert(apply_ops::<ModuleName>(base.modules, ch.modules@) == (
        base.modules,
        Option::<int>::None,
    ));
    let rops = ch.resources@;
    assert(rops[0] == (tag, ChangeOp::Create(p)));
    assert(!base.resources.dom().contains(tag@));
    assert(rops.subrange(1, 1) =~= Seq::<(StructTag, ChangeOp)>::empty());
    assert(apply_ops::<StructTag>(base.resources.insert(tag@, p@), rops.subrange(1, 1)) == (
        base.resources.insert(tag@, p@),
        Option::<int>::None,
    ));
    assert(apply_ops::<StructTag>(base.resources, rops) == (
        base.resources.insert(tag@, p@),
        Option::<int>::None,
    ));
    let acc2 = apply_account(base, ch).0;
    assert(acc2.resources == base.resources.insert(tag@, p@));
    assert(accs.subrange(1, 1) =~= Seq::<(Address, AccountChangeSet)>::empty());
    let st1 = st.insert(addr@, acc2);
    assert(apply_changeset(st1, accs.subrange(1, 1)) == (
        st1,
        Option::<(int, AccountFailure)>::None,
    ));
    assert(apply_changeset(st, accs).0 == st1);
    assert(resource_at(st1, addr@, tag@) == Some(p@));
}

/// Double create fails: applying two change sets in sequence, each
/// creating a module under the same address and key, succeeds the first
/// time (the key was absent) and violates the existence invariant the
/// second time, at that account's first module operation, leaving the
/// store as the first apply left it.
pub proof fn lemma_double_create_fails(
    st: Map<Seq<u8>, AccountView>,
    cs1: ChangeSet,
    cs2: ChangeSet,
    addr: Address,
    name1: ModuleName,
    name2: ModuleName,
    p1: Payload,
    p2: Payload,
)
    requires
        cs1.accounts@.len() == 1,
        cs1.accounts@[0].0 == addr,
        cs1.accounts@[0].1.resources@.len() == 0,
        cs1.accounts@[0].1.modules@ =~= seq![(name1, ChangeOp::Create(p1))],
        cs2.accounts@.len() == 1,
        cs2.accounts@[0].0 == addr,
        cs2.accounts@[0].1.resources@.len() == 0,
        cs2.accounts@[0].1.modules@ =~= seq![(name2, ChangeOp::Create(p2))],
        name1@ == name2@,
        module_at(st, addr@, name1@) is None,
    ensures
        ({
            let (st1, f1) = apply_changeset(st, cs1.accounts@);
            let (st2, f2) = apply_changeset(st1, cs2.accounts@);
            &&& f1 is None
            &&& f2 matches Some((i, af)) && i == 0 && af == AccountFailure::Modules(0)
            &&& st2 == st1
        }),
{
    let accs1 = cs1.accounts@;
    let ch1 = accs1[0].1;
    let base = if st.dom().contains(addr@) {
        st[addr@]
    } else {
        empty_account()
    };
    let mops1 = ch1.modules@;
    assert(mops1[0] == (name1, ChangeOp::Create(p1)));
    assert(!base.modules.dom().contains(name1@));
    assert(mops1.subrange(1, 1) =~= Seq::<(ModuleName, ChangeOp)>::empty());
    assert(apply_ops::<ModuleName>(base.modules.insert(name1@, p1@), mops1.subrange(1, 1)) == (
        base.modules.insert(name1@, p1@),
        Option::<int>::None,
    ));
    assert(apply_ops::<ModuleName>(base.modules, mops1) == (
        base.modules.insert(name1@, p1@),
        Option::<int>::None,
    ));
    let acc1 = apply_account(base, ch1).0;
    assert(apply_account(base, ch1).1 is None);
    assert(accs1.subrange(1, 1) =~= Seq::<(Address, AccountChangeSet)>::empty());
    let st1 = st.insert(addr@, acc1);
    assert(apply_changeset(st1, accs1.subrange(1, 1)) == (
        st1,
        Option::<(int, AccountFailure)>::None,
    ));
    assert(apply_changeset(st, accs1) == (st1, Option::<(int, AccountFailure)>::None));

    let accs2 = cs2.accounts@;
    let ch2 = accs2[0].1;
    let base2 = st1[addr@];
    assert(base2.modules.dom().contains(name2@));
    let mops2 = ch2.modules@;
    assert(mops2[0] == (name2, ChangeOp::Create(p2)));
    assert(!op_allowed(base2.modules, name2@, mops2[0].1));
    assert(apply_ops::<ModuleName>(base2.modules, mops2) == (base2.modules, Option::Some(0int)));
    let acc2 = apply_account(base2, ch2).0;
    assert(apply_account(base2, ch2).1 == Option::Some(AccountFailure::Modules(0int)));
    assert(acc2 =~= base2);
    assert(st1.insert(addr@, acc2) =~= st1);
    assert(apply_changeset(st1, accs2).1 == Option::Some((0int, AccountFailure::Modules(0int))));
}

/// Modify without create fails: applying a change set whose single
/// operation modifies a module key that was never created or published
/// violates the existence invariant and leaves the store unchanged.
pub proof fn lemma_modify_absent_fails(
    st: Map<Seq<u8>, AccountView>,
    cs: ChangeSet,
    addr: Address,
    name: ModuleName,
    p: Payload,
)
    requires
        cs.accounts@.len() == 1,
        cs.accounts@[0].0 == addr,
        cs.accounts@[0].1.resources@.len() == 0,
        cs.accounts@[0].1.modules@ =~= seq![(name, ChangeOp::Modify(p))],
        module_at(st, addr@, name@) is None,
    ensures
        ({
            let (st2, f) = apply_changeset(st, cs.accounts@);
            &&& f matches Some((i, af)) && i == 0 && af == AccountFailure::Modules(0)
            &&& st2 == st
        }),
{
    let accs = cs.accounts@;
    let ch = accs[0].1;
    let base = if st.dom().contains(addr@) {
        st[addr@]
    } else {
        empty_account()
    };
    let mops = ch.modules@;
    assert(mops[0] == (name, ChangeOp::Modify(p)));
    assert(!base.modules.dom().contains(name@));
    assert(!op_allowed(base.modules, name@, mops[0].1));
    assert(apply_ops::<ModuleName>(base.modules, mops) == (base.modules, Option::Some(0int)));
    let acc2 = apply_account(base, ch).0;
    assert(apply_account(base, ch).1 == Option::Some(AccountFailure::Modules(0int)));
    assert(acc2 =~= base);
    if st.dom().contains(addr@) {
        assert(st.insert(addr@, acc2) =~= st);
    }
}

/// Delete removes visibility: creating a resource and then deleting it, in
/// two change sets, both succeeds; afterwards the read shows the key as
/// absent again — `None`, with size 0.
pub proof fn lemma_create_then_delete_reads_absent(
    st: Map<Seq<u8>, AccountView>,
    cs1: ChangeSet,
    cs2: ChangeSet,
    addr: Address,
    tag1: StructTag,
    tag2: StructTag,
    p: Payload,
)
    requires
        cs1.accounts@.len() == 1,
        cs1.accounts@[0].0 == addr,
        cs1.accounts@[0].1.modules@.len() == 0,
        cs1.accounts@[0].1.resources@ =~= seq![(tag1, ChangeOp::Create(p))],
        cs2.accounts@.len() == 1,
        cs2.accounts@[0].0 == addr,
        cs2.accounts@[0].1.modules@.len() == 0,
        cs2.accounts@[0].1.resources@ =~= seq![(tag2, ChangeOp::Delete)],
        tag1@ == tag2@,
        resource_at(st, addr@, tag1@) is None,
    ensures
        ({
            let (st1, f1) = apply_changeset(st, cs1.accounts@);
            let (st2, f2) = apply_changeset(st1, cs2.accounts@);
            &&& f1 is None
            &&& f2 is None
            &&& resource_at(st2, addr@, tag1@) is None
        }),
{
    lemma_create_read_round_trip(st, cs1, addr, tag1, p);
    let accs1 = cs1.accounts@;
    let st1 = apply_changeset(st, accs1).0;
    let accs2 = cs2.accounts@;
    let ch2 = accs2[0].1;
    let base2 = st1[addr@];
    assert(apply_ops::<ModuleName>(base2.modules, ch2.modules@) == (
        base2.modules,
        Option::<int>::None,
    ));
    let rops = ch2.resources@;
    assert(rops[0] == (tag2, ChangeOp::Delete));
    assert(base2.resources.dom().contains(tag2@));
    assert(rops.subrange(1, 1) =~= Seq::<(StructTag, ChangeOp)>::empty());
    assert(apply_ops::<StructTag>(base2.resources.remove(tag2@), rops.subrange(1, 1)) == (
        base2.resources.remove(tag2@),
        Option::<int>::None,
    ));
    assert(apply_ops::<StructTag>(base2.resources, rops) == (
        base2.resources.remove(tag2@),
        Option::<int>::None,
    ));
    let acc2 = apply_account(base2, ch2).0;
    assert(apply_account(base2, ch2).1 is None);
    assert(acc2.resources == base2.resources.remove(tag2@));
    assert(accs2.subrange(1, 1) =~= Seq::<(Address, AccountChangeSet)>::empty());
    let st2 = st1.insert(addr@, acc2);
    assert(apply_changeset(st2, accs2.subrange(1, 1)) == (
        st2,
        Option::<(int, AccountFailure)>::None,
    ));
    assert(apply_changeset(st1, accs2) == (st2, Option::<(int, AccountFailure)>::None));
    assert(resource_at(st2, addr@, tag1@) is None);
}

/// Unconditional publish overwrites freely: publishing a module twice
/// under the same key never errors (the operation is total: it has no
/// failure outcome) and the last write wins — the store then shows the
/// second payload.
pub proof fn lemma_publish_overwrite_last_wins(
    st: Map<Seq<u8>, AccountView>,
    a: Seq<u8>,
    k: Seq<u8>,
    p1: Seq<u8>,
    p2: Seq<u8>,
)
    ensures
        module_at(publish_module_result(publish_module_result(st, a, k, p1), a, k, p2), a, k)
            == Some(p2),
{
}

/// An absent account is transparent: reading any module or resource key of
/// an address that was never written shows absence, without an error. The
/// reads take the store immutably, so no entry can appear from reading.
pub proof fn lemma_absent_account_reads_none(
    st: Map<Seq<u8>, AccountView>,
    a: Seq<u8>,
    k: Seq<u8>,
    t: crate::tags::StructTagView,
)
    requires
        !st.dom().contains(a),
    ensures
        module_at(st, a, k) is None,
        resource_at(st, a, t) is None,
{
}

/// Partial apply leaves the prefix visible: when a change set's second
/// operation is invalid, the error is reported and the first operation's
/// effect is still applied — this store keeps an existing account's
/// partially applied state rather than rolling it back.
pub proof fn lemma_partial_apply_keeps_prefix(
    st: Map<Seq<u8>, AccountView>,
    cs: ChangeSet,
    addr: Address,
    name1: ModuleName,
    name2: ModuleName,
    p1: Payload,
    p2: Payload,
)
    requires
        st.dom().contains(addr@),
        cs.accounts@.len() == 1,
        cs.accounts@[0].0 == addr,
        cs.accounts@[0].1.resources@.len() == 0,
        cs.accounts@[0].1.modules@ =~= seq![
            (name1, ChangeOp::Create(p1)),
            (name2, ChangeOp::Modify(p2)),
        ],
        !st[addr@].modules.dom().contains(name1@),
        !st[addr@].modules.dom().contains(name2@),
        name1@ != name2@,
    ensures
        ({
            let (st2, f) = apply_changeset(st, cs.accounts@);
            &&& f matches Some((i, af)) && i == 0 && af == AccountFailure::Modules(1)
            &&& module_at(st2, addr@, name1@) == Some(p1@)
        }),
{
    let accs = cs.accounts@;
    let ch = accs[0].1;
    let base = st[addr@];
    let mops = ch.modules@;
    assert(mops[0] == (name1, ChangeOp::Create(p1)));
    assert(mops[1] == (name2, ChangeOp::Modify(p2)));
    assert(!base.modules.dom().contains(name1@));
    let m1 = base.modules.insert(name1@, p1@);
    let rest = mops.subrange(1, 2);
    assert(rest[0] == mops[1]);
    assert(!m1.dom().contains(name2@));
    assert(!op_allowed(m1, name2@, rest[0].1));
    assert(apply_ops::<ModuleName>(m1, rest) == (m1, Option::Some(0int)));
    assert(apply_ops::<ModuleName>(base.modules, mops) == (m1, Option::Some(1int)));
    let acc2 = apply_account(base, ch).0;
    assert(apply_account(base, ch).1 == Option::Some(AccountFailure::Modules(1int)));
    assert(acc2.modules == m1);
    let st2 = st.insert(addr@, acc2);
    assert(apply_changeset(st, accs).0 == st2);
    assert(module_at(st2, addr@, name1@) == Some(p1@));
}

/// Order independence for distinct keys: two operations on different keys
/// may be applied in either order — each leaves the other's admissibility
/// unchanged, and the resulting map is the same. A well-formed change set
/// never targets one key twice, so its outcome does not depend on the
/// order its operations are processed in.
pub proof fn lemma_distinct_key_ops_commute<KV>(
    m: Map<KV, Seq<u8>>,
    k1: KV,
    k2: KV,
    o1: ChangeOp,
    o2: ChangeOp,
)
    requires
        k1 != k2,
    ensures
        op_allowed(op_result(m, k1, o1), k2, o2) == op_allowed(m, k2, o2),
        op_result(op_result(m, k1, o1), k2, o2) == op_result(op_result(m, k2, o2), k1, o1),
{
    assert(op_result(op_result(m, k1, o1), k2, o2) =~= op_result(op_result(m, k2, o2), k1, o1));
}

} // verus!
