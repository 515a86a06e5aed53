use mock_storage::{
    AccountChangeSet, Address, ChangeKey, ChangeOp, ChangeSet, ModuleId, ModuleName, MockStorage,
    OpKind, Payload, StructTag, TypeArgs, TypeTag,
};

fn addr(n: u8) -> Address {
    let mut b = [0u8; 32];
    b[31] = n;
    Address::new(b)
}

fn name(s: &str) -> ModuleName {
    ModuleName::new(s.as_bytes().to_vec()).unwrap()
}

fn plain_tag(a: Address, module: &str, n: &str) -> StructTag {
    StructTag { address: a, module: name(module), name: name(n), type_args: TypeArgs::Nil }
}

fn module_cs(a: Address, ops: Vec<(ModuleName, ChangeOp)>) -> ChangeSet {
    ChangeSet { accounts: vec![(a, AccountChangeSet { modules: ops, resources: vec![] })] }
}

fn resource_cs(a: Address, ops: Vec<(StructTag, ChangeOp)>) -> ChangeSet {
    ChangeSet { accounts: vec![(a, AccountChangeSet { modules: vec![], resources: ops })] }
}

fn read_resource(store: &MockStorage, a: &Address, t: &StructTag) -> (Option<Payload>, usize) {
    store.get_resource_bytes_with_metadata_and_layout::<()>(a, t, &[], None)
}

#[test]
fn create_then_read_resource() {
    let a = addr(1);
    let t = plain_tag(a, "BasicCoin", "Coin");
    let mut store = MockStorage::new();
    let cs = resource_cs(a, vec![(plain_tag(a, "BasicCoin", "Coin"), ChangeOp::Create(Payload::from_vec(vec![7, 8, 9])))]);
    assert!(store.apply(cs).is_ok());
    let (found, size) = read_resource(&store, &a, &t);
    assert_eq!(found.unwrap().to_vec(), vec![7, 8, 9]);
    assert_eq!(size, 3);
}

#[test]
fn double_create_module_fails() {
    let a = addr(2);
    let mut store = MockStorage::new();
    let cs1 = module_cs(a, vec![(name("Coin"), ChangeOp::Create(Payload::from_vec(vec![1])))]);
    assert!(store.apply(cs1).is_ok());
    let cs2 = module_cs(a, vec![(name("Coin"), ChangeOp::Create(Payload::from_vec(vec![2])))]);
    let e = store.apply(cs2).unwrap_err();
    assert!(e.address.equals(&a));
    assert_eq!(e.op, OpKind::Create);
    match e.key {
        ChangeKey::Module(n) => assert_eq!(n.as_bytes(), &b"Coin".to_vec()),
        ChangeKey::Resource(_) => panic!("expected a module key"),
    }
    // the first payload is still the one published
    let id = ModuleId { address: a, name: name("Coin") };
    assert_eq!(store.get_module(&id).unwrap().to_vec(), vec![1]);
}

#[test]
fn modify_without_create_fails() {
    let a = addr(3);
    let mut store = MockStorage::new();
    let cs = module_cs(a, vec![(name("Ghosty"), ChangeOp::Modify(Payload::from_vec(vec![1])))]);
    let e = store.apply(cs).unwrap_err();
    assert_eq!(e.op, OpKind::Modify);
    assert!(e.address.equals(&a));
}

#[test]
fn delete_without_create_fails() {
    let a = addr(3);
    let mut store = MockStorage::new();
    let cs = resource_cs(a, vec![(plain_tag(a, "M", "R"), ChangeOp::Delete)]);
    let e = store.apply(cs).unwrap_err();
    assert_eq!(e.op, OpKind::Delete);
    match e.key {
        ChangeKey::Resource(t) => assert_eq!(t.name.as_bytes(), &b"R".to_vec()),
        ChangeKey::Module(_) => panic!("expected a resource key"),
    }
}

#[test]
fn create_existing_resource_fails() {
    let a = addr(4);
    let mut store = MockStorage::new();
    store.publish_or_overwrite_resource(a, plain_tag(a, "M", "R"), vec![1]);
    let cs = resource_cs(a, vec![(plain_tag(a, "M", "R"), ChangeOp::Create(Payload::from_vec(vec![2])))]);
    let e = store.apply(cs).unwrap_err();
    assert_eq!(e.op, OpKind::Create);
}

#[test]
fn delete_removes_resource() {
    let a = addr(5);
    let t = plain_tag(a, "M", "R");
    let mut store = MockStorage::new();
    let cs1 = resource_cs(a, vec![(plain_tag(a, "M", "R"), ChangeOp::Create(Payload::from_vec(vec![1, 2])))]);
    assert!(store.apply(cs1).is_ok());
    let cs2 = resource_cs(a, vec![(plain_tag(a, "M", "R"), ChangeOp::Delete)]);
    assert!(store.apply(cs2).is_ok());
    let (found, size) = read_resource(&store, &a, &t);
    assert!(found.is_none());
    assert_eq!(size, 0);
}

#[test]
fn publish_module_overwrites() {
    let a = addr(6);
    let mut store = MockStorage::new();
    store.publish_or_overwrite_module(ModuleId { address: a, name: name("Coin") }, vec![1, 1]);
    store.publish_or_overwrite_module(ModuleId { address: a, name: name("Coin") }, vec![2, 2, 2]);
    let id = ModuleId { address: a, name: name("Coin") };
    assert_eq!(store.get_module(&id).unwrap().to_vec(), vec![2, 2, 2]);
}

#[test]
fn publish_resource_overwrites() {
    let a = addr(6);
    let t = plain_tag(a, "M", "R");
    let mut store = MockStorage::new();
    store.publish_or_overwrite_resource(a, plain_tag(a, "M", "R"), vec![1]);
    store.publish_or_overwrite_resource(a, plain_tag(a, "M", "R"), vec![9, 9]);
    let (found, size) = read_resource(&store, &a, &t);
    assert_eq!(found.unwrap().to_vec(), vec![9, 9]);
    assert_eq!(size, 2);
}

#[test]
fn absent_account_reads_none() {
    let store = MockStorage::new();
    let a = addr(7);
    let id = ModuleId { address: a, name: name("Nothing") };
    assert!(store.get_module(&id).is_none());
    let t = plain_tag(a, "M", "R");
    let (found, size) = read_resource(&store, &a, &t);
    assert!(found.is_none());
    assert_eq!(size, 0);
}

#[test]
fn partial_apply_keeps_prefix() {
    let a = addr(8);
    let mut store = MockStorage::new();
    // the account exists already, so a failing change set keeps its prefix
    store.publish_or_overwrite_module(ModuleId { address: a, name: name("Seed") }, vec![0]);
    let cs = module_cs(a, vec![
        (name("First"), ChangeOp::Create(Payload::from_vec(vec![1]))),
        (name("Second"), ChangeOp::Modify(Payload::from_vec(vec![2]))),
    ]);
    let e = store.apply(cs).unwrap_err();
    assert_eq!(e.op, OpKind::Modify);
    let id = ModuleId { address: a, name: name("First") };
    assert_eq!(store.get_module(&id).unwrap().to_vec(), vec![1]);
}

#[test]
fn fresh_account_failed_apply_is_not_materialized() {
    let a = addr(9);
    let mut store = MockStorage::new();
    // the address was never written: a failing change set leaves no entry
    let cs = module_cs(a, vec![
        (name("First"), ChangeOp::Create(Payload::from_vec(vec![1]))),
        (name("Second"), ChangeOp::Delete),
    ]);
    assert!(store.apply(cs).is_err());
    let id = ModuleId { address: a, name: name("First") };
    assert!(store.get_module(&id).is_none());
    // so creating the same key afterwards succeeds
    let cs2 = module_cs(a, vec![(name("First"), ChangeOp::Create(Payload::from_vec(vec![3])))]);
    assert!(store.apply(cs2).is_ok());
    assert_eq!(store.get_module(&id).unwrap().to_vec(), vec![3]);
}

#[test]
fn module_metadata_always_empty() {
    let a = addr(10);
    let mut store = MockStorage::new();
    let id = ModuleId { address: a, name: name("Coin") };
    assert!(store.get_module_metadata(&id).is_empty());
    store.publish_or_overwrite_module(ModuleId { address: a, name: name("Coin") }, vec![1]);
    let id2 = ModuleId { address: a, name: name("Coin") };
    assert!(store.get_module_metadata(&id2).is_empty());
}

#[test]
fn create_then_modify_same_key_in_one_change_set() {
    let a = addr(11);
    let mut store = MockStorage::new();
    let cs = module_cs(a, vec![
        (name("Coin"), ChangeOp::Create(Payload::from_vec(vec![1]))),
        (name("Coin"), ChangeOp::Modify(Payload::from_vec(vec![2, 2]))),
    ]);
    assert!(store.apply(cs).is_ok());
    let id = ModuleId { address: a, name: name("Coin") };
    assert_eq!(store.get_module(&id).unwrap().to_vec(), vec![2, 2]);
}

#[test]
fn modify_replaces_payload() {
    let a = addr(12);
    let t = plain_tag(a, "M", "R");
    let mut store = MockStorage::new();
    let cs1 = resource_cs(a, vec![(plain_tag(a, "M", "R"), ChangeOp::Create(Payload::from_vec(vec![1])))]);
    assert!(store.apply(cs1).is_ok());
    let cs2 = resource_cs(a, vec![(plain_tag(a, "M", "R"), ChangeOp::Modify(Payload::from_vec(vec![4, 5, 6, 7])))]);
    assert!(store.apply(cs2).is_ok());
    let (found, size) = read_resource(&store, &a, &t);
    assert_eq!(found.unwrap().to_vec(), vec![4, 5, 6, 7]);
    assert_eq!(size, 4);
}

#[test]
fn apply_touches_multiple_accounts() {
    let a1 = addr(13);
    let a2 = addr(14);
    let mut store = MockStorage::new();
    let cs = ChangeSet {
        accounts: vec![
            (a1, AccountChangeSet {
                modules: vec![(name("A"), ChangeOp::Create(Payload::from_vec(vec![1])))],
                resources: vec![],
            }),
            (a2, AccountChangeSet {
                modules: vec![(name("B"), ChangeOp::Create(Payload::from_vec(vec![2])))],
                resources: vec![],
            }),
        ],
    };
    assert!(store.apply_extended(cs).is_ok());
    assert_eq!(store.get_module(&ModuleId { address: a1, name: name("A") }).unwrap().to_vec(), vec![1]);
    assert_eq!(store.get_module(&ModuleId { address: a2, name: name("B") }).unwrap().to_vec(), vec![2]);
}

#[test]
fn empty_change_set_is_ok() {
    let mut store = MockStorage::new();
    assert!(store.apply(ChangeSet::new()).is_ok());
    assert!(store.apply_extended(ChangeSet { accounts: vec![] }).is_ok());
}

#[test]
fn empty_payload_round_trip() {
    let a = addr(15);
    let t = plain_tag(a, "M", "Empty");
    let mut store = MockStorage::new();
    store.publish_or_overwrite_resource(a, plain_tag(a, "M", "Empty"), vec![]);
    let (found, size) = read_resource(&store, &a, &t);
    assert_eq!(found.unwrap().to_vec(), Vec::<u8>::new());
    assert_eq!(size, 0);
}

#[test]
fn payload_round_trip_and_len() {
    let p = Payload::from_vec(vec![10, 20, 30, 40]);
    assert_eq!(p.len(), 4);
    assert_eq!(p.to_vec(), vec![10, 20, 30, 40]);
    let q = p.clone();
    assert_eq!(q.len(), 4);
    assert_eq!(q.to_vec(), vec![10, 20, 30, 40]);
}

#[test]
fn module_name_validation() {
    assert!(ModuleName::new(b"BasicCoin".to_vec()).is_some());
    assert!(ModuleName::new(b"_private2".to_vec()).is_some());
    assert!(ModuleName::new(b"".to_vec()).is_none());
    assert!(ModuleName::new(b"2cool".to_vec()).is_none());
    assert!(ModuleName::new(b"has space".to_vec()).is_none());
    assert!(ModuleName::new(b"dash-ed".to_vec()).is_none());
    let n = ModuleName::new(b"mint".to_vec()).unwrap();
    assert_eq!(n.as_bytes(), &b"mint".to_vec());
}

#[test]
fn struct_tag_type_args_distinguish_resources() {
    let a = addr(16);
    let tag_u64 = StructTag {
        address: a,
        module: name("Coll"),
        name: name("Box"),
        type_args: TypeArgs::Cons(Box::new(TypeTag::U64), Box::new(TypeArgs::Nil)),
    };
    let tag_u64_again = StructTag {
        address: a,
        module: name("Coll"),
        name: name("Box"),
        type_args: TypeArgs::Cons(Box::new(TypeTag::U64), Box::new(TypeArgs::Nil)),
    };
    let tag_vec_u8 = StructTag {
        address: a,
        module: name("Coll"),
        name: name("Box"),
        type_args: TypeArgs::Cons(
            Box::new(TypeTag::Vector(Box::new(TypeTag::U8))),
            Box::new(TypeArgs::Nil),
        ),
    };
    let mut store = MockStorage::new();
    store.publish_or_overwrite_resource(a, tag_u64, vec![42]);
    let (found, size) = read_resource(&store, &a, &tag_u64_again);
    assert_eq!(found.unwrap().to_vec(), vec![42]);
    assert_eq!(size, 1);
    let (missing, size2) = read_resource(&store, &a, &tag_vec_u8);
    assert!(missing.is_none());
    assert_eq!(size2, 0);
}

#[test]
fn accounts_are_disjoint() {
    let a1 = addr(17);
    let a2 = addr(18);
    let mut store = MockStorage::new();
    store.publish_or_overwrite_module(ModuleId { address: a1, name: name("Coin") }, vec![1]);
    assert!(store.get_module(&ModuleId { address: a2, name: name("Coin") }).is_none());
    assert!(store.get_module(&ModuleId { address: a1, name: name("Coin") }).is_some());
}

#[test]
fn failing_second_account_keeps_first_accounts_changes() {
    let a1 = addr(19);
    let a2 = addr(20);
    let mut store = MockStorage::new();
    let cs = ChangeSet {
        accounts: vec![
            (a1, AccountChangeSet {
                modules: vec![(name("Good"), ChangeOp::Create(Payload::from_vec(vec![1])))],
                resources: vec![],
            }),
            (a2, AccountChangeSet {
                modules: vec![(name("Bad"), ChangeOp::Delete)],
                resources: vec![],
            }),
        ],
    };
    let e = store.apply_extended(cs).unwrap_err();
    assert!(e.address.equals(&a2));
    assert_eq!(e.op, OpKind::Delete);
    // the first account's create stays applied, with no rollback
    assert_eq!(store.get_module(&ModuleId { address: a1, name: name("Good") }).unwrap().to_vec(), vec![1]);
}
