use mvm::bank::{Account, Balances, Bank, BalanceHandler, BalanceHandlerCache};
use mvm::chain::{ExecutionContext, TxInfo};
use mvm::errors::{Location, ResolverResult, StatusCode, VMError};
use mvm::outcome::{check_module_sender, handle_vm_result, VmResult};
use mvm::event::EventHandler;
use mvm::language::{core_code_address, AccountAddress, ModuleId, StructTag, TypeTag};
use mvm::session::{Events, NodeApi, Resolve};
use mvm::store::{AccessPath, RawData};
use mvm::value::{Balance, Value};
use mvm::walker::{Loader, StructType, Type};
use std::cell::RefCell;
use std::collections::HashMap;
use std::rc::Rc;

#[derive(Clone, Default)]
struct StorageMock {
    data: Rc<RefCell<HashMap<Vec<u8>, Vec<u8>>>>,
}

impl RawData for StorageMock {
    fn get(&self, key: &[u8]) -> Option<Vec<u8>> {
        self.data.borrow().get(key).cloned()
    }

    fn insert(&self, key: &[u8], value: &[u8]) {
        self.data.borrow_mut().insert(key.to_vec(), value.to_vec());
    }

    fn remove(&self, key: &[u8]) {
        self.data.borrow_mut().remove(key);
    }
}

#[derive(Clone, Default)]
struct EventHandlerMock {
    data: Rc<RefCell<Vec<(Vec<u8>, u64, TypeTag, Vec<u8>)>>>,
}

impl EventHandler for EventHandlerMock {
    fn on_event(&self, guid: Vec<u8>, seq_num: u64, ty_tag: TypeTag, message: Vec<u8>) {
        self.data.borrow_mut().push((guid, seq_num, ty_tag, message));
    }
}

#[derive(Clone, Default)]
struct BankMock {
    accounts: Rc<RefCell<HashMap<(String, u128), Account>>>,
}

impl BankMock {
    fn with_data(data: &[(&str, u128, u128, bool)]) -> BankMock {
        let mock = BankMock::default();
        for (ticker, address, amount, is_lockable) in data {
            mock.accounts.borrow_mut().insert(
                (ticker.to_string(), *address),
                Account { amount: *amount, is_lockable: *is_lockable },
            );
        }
        mock
    }
}

impl Balances for BankMock {
    fn get_balance(&self, ticker: &str, addr: &AccountAddress) -> Option<Account> {
        self.accounts.borrow().get(&(ticker.to_string(), addr.value)).cloned()
    }

    fn transfer(&self, ticker: &str, from: &AccountAddress, to: &AccountAddress, amount: u128) {
        let mut accounts = self.accounts.borrow_mut();
        accounts.get_mut(&(ticker.to_string(), from.value)).unwrap().amount -= amount;
        accounts.get_mut(&(ticker.to_string(), to.value)).unwrap().amount += amount;
    }

    fn lock(&self, ticker: &str, addr: &AccountAddress, amount: u128) {
        let mut accounts = self.accounts.borrow_mut();
        let acc = accounts.get_mut(&(ticker.to_string(), addr.value)).unwrap();
        assert!(acc.is_lockable, "It is not lockable balance.");
        acc.amount -= amount;
    }

    fn unlock(&self, ticker: &str, addr: &AccountAddress, amount: u128) {
        let mut accounts = self.accounts.borrow_mut();
        let acc = accounts.get_mut(&(ticker.to_string(), addr.value)).unwrap();
        assert!(acc.is_lockable, "It is not lockable balance.");
        acc.amount += amount;
    }
}

fn addr(value: u128) -> AccountAddress {
    AccountAddress::new(value)
}

fn tag(address: u128, module: &str, name: &str, type_params: Vec<TypeTag>) -> StructTag {
    StructTag {
        address: addr(address),
        module: module.to_string(),
        name: name.to_string(),
        type_params,
    }
}

fn currency(ticker: &str) -> TypeTag {
    TypeTag::Struct(tag(1, "Dfinance", ticker, vec![]))
}

fn balance(ticker: &str) -> StructTag {
    tag(1, "Account", "Balance", vec![currency(ticker)])
}

/// Definitions for `Dfinance::T<C> { value: u128 }`, `Dfinance::USD` and
/// `BalanceTest::Lock3<C> { inner: Dfinance::T<C> }`, at indices 0, 1 and 2.
fn collateral_loader() -> Loader {
    Loader::new(vec![
        StructType {
            address: addr(1),
            module: "Dfinance".to_string(),
            name: "T".to_string(),
            fields: vec![Type::U128],
        },
        StructType {
            address: addr(1),
            module: "Dfinance".to_string(),
            name: "USD".to_string(),
            fields: vec![Type::Bool],
        },
        StructType {
            address: addr(1),
            module: "BalanceTest".to_string(),
            name: "Lock3".to_string(),
            fields: vec![Type::StructInstantiation(0, vec![Type::TyParam(0)])],
        },
    ])
}

fn lock3_tag() -> StructTag {
    tag(1, "BalanceTest", "Lock3", vec![currency("USD")])
}

fn lock3_type() -> Type {
    Type::StructInstantiation(2, vec![Type::Struct(1)])
}

#[test]
fn test_load_balance() {
    let usd = 1313u128;
    let mut bank = Bank::new(BankMock::with_data(&[("USD", 0x022, usd, true)]));
    let loader = Loader::new(vec![]);
    let mut session = bank.new_session(&loader);

    assert_eq!(
        ResolverResult::Resolved(Ok(Some(usd.to_le_bytes().to_vec()))),
        session.resolve(&addr(0x022), &balance("USD"))
    );
    assert_eq!(
        ResolverResult::Resolved(Ok(None)),
        session.resolve(&addr(0x021), &balance("USD"))
    );
    assert_eq!(
        ResolverResult::Resolved(Ok(None)),
        session.resolve(&addr(0x022), &balance("BTC"))
    );
    assert_eq!(
        ResolverResult::Unresolved,
        session.resolve(&addr(0x022), &tag(1, "Account", "Balance", vec![TypeTag::U8]))
    );
}

#[test]
fn test_balance_handler() {
    let loader = collateral_loader();
    let walker = mvm::walker::TypeWalker::new(&loader);
    assert_eq!(
        BalanceHandler::Locked(vec![("USD".to_owned(), vec![0, 0])]),
        walker.find_balance(&lock3_tag(), &lock3_type()).unwrap().unwrap()
    );
}

#[test]
fn balance_read_is_cached_for_the_session() {
    let mock = BankMock::with_data(&[("USD", 0x022, 1313, true)]);
    let mut bank = Bank::new(mock.clone());
    let loader = Loader::new(vec![]);
    let mut session = bank.new_session(&loader);
    assert_eq!(
        ResolverResult::Resolved(Ok(Some(1313u128.to_le_bytes().to_vec()))),
        session.resolve(&addr(0x022), &balance("USD"))
    );
    mock.accounts.borrow_mut().get_mut(&("USD".to_string(), 0x022)).unwrap().amount = 7;
    assert_eq!(
        ResolverResult::Resolved(Ok(Some(1313u128.to_le_bytes().to_vec()))),
        session.resolve(&addr(0x022), &balance("USD"))
    );
}

#[test]
fn resolve_fetched_encodes_the_host_answer() {
    let mut bank = Bank::new(BankMock::default());
    let loader = Loader::new(vec![]);
    let mut session = bank.new_session(&loader);
    let ticker = "BTC".to_string();
    assert_eq!(
        ResolverResult::Resolved(Ok(Some(vec![1, 2, 0, 0, 0, 0, 0, 0, 0, 0, 0, 0, 0, 0, 0, 0]))),
        session.resolve_fetched(&addr(5), &ticker, Some(Account { amount: 0x0201, is_lockable: false }))
    );
    assert_eq!(
        ResolverResult::Resolved(Ok(None)),
        session.resolve_fetched(&addr(6), &ticker, None)
    );
    assert_eq!(
        ResolverResult::Resolved(Ok(Some(vec![1, 2, 0, 0, 0, 0, 0, 0, 0, 0, 0, 0, 0, 0, 0, 0]))),
        session.resolve(&addr(5), &balance("BTC"))
    );
}

#[test]
fn balance_recognition() {
    assert!(mvm::bank::is_balance(&balance("USD")));
    assert!(!mvm::bank::is_balance(&tag(1, "Account", "Balance", vec![TypeTag::U8])));
    assert!(!mvm::bank::is_balance(&tag(2, "Account", "Balance", vec![currency("USD")])));
    assert!(!mvm::bank::is_balance(&tag(1, "Account", "Balance", vec![TypeTag::Struct(tag(
        1,
        "Coins",
        "USD",
        vec![]
    ))])));
    assert!(!mvm::bank::is_balance(&tag(
        1,
        "Account",
        "Balance",
        vec![currency("USD"), currency("BTC")]
    )));
    assert_eq!(mvm::bank::ticker_of_balance(&balance("PONT")), "PONT");
}

#[test]
fn handler_cache_returns_the_first_handler() {
    let loader = collateral_loader();
    let mut bank = Bank::new(BankMock::default());
    let mut session = bank.new_session(&loader);
    let first = session.make_handlers(&lock3_tag(), &lock3_type()).unwrap();
    assert_eq!(first, Some(BalanceHandler::Locked(vec![("USD".to_owned(), vec![0, 0])])));
    // A different type for the same tag: the cached handler still answers.
    let second = session.make_handlers(&lock3_tag(), &Type::Bool).unwrap();
    assert_eq!(second, first);
}

#[test]
fn handler_cache_clear_forgets() {
    let mut cache = BalanceHandlerCache::new();
    let t = lock3_tag();
    assert_eq!(cache.get_balance_handler(&t), None);
    let stored = cache.store_balance_handler(&t, Some(BalanceHandler::Unlocked("USD".to_owned())));
    assert_eq!(stored, Some(BalanceHandler::Unlocked("USD".to_owned())));
    assert_eq!(
        cache.get_balance_handler(&t),
        Some(Some(BalanceHandler::Unlocked("USD".to_owned())))
    );
    cache.store_balance_handler(&t, None);
    assert_eq!(cache.get_balance_handler(&t), Some(None));
    cache.clear();
    assert_eq!(cache.get_balance_handler(&t), None);
}

#[test]
fn locked_collateral_is_recorded_and_stored() {
    let loader = collateral_loader();
    let store = StorageMock::default();
    let mut node = NodeApi::new(store.clone(), EventHandlerMock::default(), BankMock::default());
    let mut session = node.new_session(&loader, None);
    let value = Value::Struct(vec![Value::Struct(vec![Value::U128(500)])]);
    session.insert_resource(addr(0x22), lock3_tag(), lock3_type(), value).unwrap();
    assert_eq!(
        session.bank_session().balance_changes(),
        &vec![(addr(0x22), Balance { ticker: "USD".to_owned(), balance: 500, locked: true })]
    );
    let blob = session.get_resource(&addr(0x22), &lock3_tag()).unwrap().unwrap();
    assert_eq!(blob, 500u128.to_le_bytes().to_vec());
    assert_eq!(store.data.borrow().len(), 1);
}

#[test]
fn unlocked_balance_write_goes_to_the_bank_only() {
    let loader = Loader::new(vec![]);
    let store = StorageMock::default();
    let mut node = NodeApi::new(store.clone(), EventHandlerMock::default(), BankMock::default());
    let mut session = node.new_session(&loader, None);
    let value = Value::Struct(vec![Value::Struct(vec![Value::U128(77)])]);
    session.insert_resource(addr(3), balance("BTC"), Type::Bool, value).unwrap();
    assert_eq!(
        session.bank_session().balance_changes(),
        &vec![(addr(3), Balance { ticker: "BTC".to_owned(), balance: 77, locked: false })]
    );
    assert!(store.data.borrow().is_empty());
    session.delete_resource(addr(3), balance("BTC"), Type::Bool).unwrap();
    assert_eq!(
        session.bank_session().balance_changes()[1],
        (addr(3), Balance { ticker: "BTC".to_owned(), balance: 0, locked: false })
    );
    assert!(store.data.borrow().is_empty());
}

#[test]
fn malformed_balance_value_is_a_type_error() {
    let loader = Loader::new(vec![]);
    let mut node = NodeApi::new(StorageMock::default(), EventHandlerMock::default(), BankMock::default());
    let mut session = node.new_session(&loader, None);
    let err = session
        .insert_resource(addr(3), balance("BTC"), Type::Bool, Value::U64(1))
        .unwrap_err();
    assert_eq!(err.major_status, StatusCode::InternalTypeError);
    assert!(session.bank_session().balance_changes().is_empty());
}

#[test]
fn resolve_balance_follows_paths_into_vectors() {
    let handler = BalanceHandler::Locked(vec![("USD".to_owned(), vec![1, 0])]);
    let value = Value::Struct(vec![
        Value::U8(0),
        Value::Vector(vec![
            Value::Struct(vec![Value::U128(3)]),
            Value::Struct(vec![Value::U128(4)]),
        ]),
    ]);
    assert_eq!(
        handler.resolve_balance(&value).unwrap(),
        vec![
            Balance { ticker: "USD".to_owned(), balance: 3, locked: true },
            Balance { ticker: "USD".to_owned(), balance: 4, locked: true },
        ]
    );
    let err = handler.resolve_balance(&Value::Struct(vec![Value::U8(0)])).unwrap_err();
    assert_eq!(err.major_status, StatusCode::InternalTypeError);
}

#[test]
fn non_balance_resource_round_trip() {
    let loader = Loader::new(vec![StructType {
        address: addr(1),
        module: "Store".to_string(),
        name: "U64".to_string(),
        fields: vec![Type::U64],
    }]);
    let store = StorageMock::default();
    let mut node = NodeApi::new(store.clone(), EventHandlerMock::default(), BankMock::default());
    let mut session = node.new_session(&loader, None);
    let u64_tag = tag(1, "Store", "U64", vec![]);
    session
        .insert_resource(addr(1), u64_tag.copy(), Type::Struct(0), Value::Struct(vec![Value::U64(13)]))
        .unwrap();
    let blob = session.get_resource(&addr(1), &u64_tag).unwrap().unwrap();
    assert_eq!(blob, vec![13, 0, 0, 0, 0, 0, 0, 0]);
    let val: u64 = bcs::from_bytes(&blob).unwrap();
    assert_eq!(val, 13);
    let key = AccessPath::resource_access_path(addr(1), &u64_tag).key();
    assert_eq!(store.data.borrow().get(&key), Some(&blob));
    assert_eq!(session.get_resource(&addr(2), &u64_tag).unwrap(), None);
    session.delete_resource(addr(1), u64_tag.copy(), Type::Struct(0)).unwrap();
    assert_eq!(session.get_resource(&addr(1), &u64_tag).unwrap(), None);
}

#[test]
fn publish_and_fetch_module() {
    let loader = Loader::new(vec![]);
    let mut node = NodeApi::new(StorageMock::default(), EventHandlerMock::default(), BankMock::default());
    let session = node.new_session(&loader, None);
    let blob: Vec<u8> = (0..1024u32).map(|i| (i % 251) as u8).collect();
    let id = ModuleId { address: core_code_address(), name: "Store".to_string() };
    session.publish_module(ModuleId { address: core_code_address(), name: "Store".to_string() }, blob.clone());
    assert_eq!(session.get_module(&id).unwrap(), Some(blob));
    let other = ModuleId { address: core_code_address(), name: "Event".to_string() };
    assert_eq!(session.get_module(&other).unwrap(), None);
}

#[test]
fn emitted_event_reaches_the_host() {
    let loader = Loader::new(vec![]);
    let events = EventHandlerMock::default();
    let mut node = NodeApi::new(StorageMock::default(), events.clone(), BankMock::default());
    let session = node.new_session(&loader, None);
    let ty = TypeTag::Struct(tag(1, "Event", "U64", vec![]));
    session
        .write_event((b"GUID".to_vec(), 1, ty, Value::Struct(vec![Value::U64(13)])))
        .unwrap();
    let (guid, seq, tag_seen, msg) = events.data.borrow_mut().remove(0);
    assert_eq!(guid, b"GUID".to_vec());
    assert_eq!(seq, 1);
    assert_eq!(tag_seen, TypeTag::Struct(tag(1, "Event", "U64", vec![])));
    assert_eq!(bcs::from_bytes::<u64>(&msg).unwrap(), 13);
}

#[test]
fn chain_context_resources() {
    let loader = Loader::new(vec![]);
    let timestamp = tag(1, "Timestamp", "CurrentTimeMicroseconds", vec![]);
    let block = tag(1, "Block", "BlockMetadata", vec![]);
    let mut node = NodeApi::new(StorageMock::default(), EventHandlerMock::default(), BankMock::default());
    {
        let mut session = node.new_session(&loader, Some(TxInfo::new(10, 1000)));
        assert_eq!(
            session.get_resource(&core_code_address(), &timestamp).unwrap(),
            Some(10u64.to_le_bytes().to_vec())
        );
        assert_eq!(
            session.get_resource(&core_code_address(), &block).unwrap(),
            Some(1000u64.to_le_bytes().to_vec())
        );
        assert_eq!(session.get_resource(&addr(2), &timestamp).unwrap(), None);
    }
    let mut session = node.new_session(&loader, None);
    assert_eq!(session.get_resource(&core_code_address(), &timestamp).unwrap(), None);
    assert_eq!(session.get_resource(&core_code_address(), &block).unwrap(), None);
}

#[test]
fn execution_context_resolve() {
    let context = ExecutionContext::new(Some(TxInfo { timestamp: 10, block_height: 1000 }));
    let timestamp = tag(1, "Timestamp", "CurrentTimeMicroseconds", vec![]);
    assert_eq!(
        context.resolve(&core_code_address(), &timestamp),
        ResolverResult::Resolved(Ok(Some(10u64.to_le_bytes().to_vec())))
    );
    assert_eq!(
        context.resolve(&core_code_address(), &tag(1, "Timestamp", "Other", vec![])),
        ResolverResult::Unresolved
    );
    assert_eq!(
        context.resolve(&core_code_address(), &tag(1, "Block", "BlockMetadata", vec![TypeTag::U8])),
        ResolverResult::Unresolved
    );
}

#[test]
fn balance_read_through_the_session() {
    let loader = Loader::new(vec![]);
    let mut node = NodeApi::new(
        StorageMock::default(),
        EventHandlerMock::default(),
        BankMock::with_data(&[("USD", 0x022, 1313, true)]),
    );
    let mut session = node.new_session(&loader, None);
    assert_eq!(
        session.get_resource(&addr(0x022), &balance("USD")).unwrap(),
        Some(1313u128.to_le_bytes().to_vec())
    );
    assert_eq!(session.get_resource(&addr(0x021), &balance("USD")).unwrap(), None);
    assert_eq!(session.get_resource(&addr(0x022), &balance("BTC")).unwrap(), None);
    // A malformed balance tag falls through to the byte store.
    assert_eq!(
        session
            .get_resource(&addr(0x022), &tag(1, "Account", "Balance", vec![TypeTag::U8]))
            .unwrap(),
        None
    );
}

#[test]
fn resource_key_is_address_then_access_vector() {
    let key = AccessPath::resource_access_path(addr(1), &tag(1, "Store", "U64", vec![])).key();
    let mut expected = vec![0u8; 15];
    expected.push(1);
    // Resource kind, then the tag: address, "Store", "U64", no type arguments.
    expected.push(1);
    expected.extend_from_slice(&[0u8; 15]);
    expected.push(1);
    expected.push(5);
    expected.extend_from_slice(b"Store");
    expected.push(3);
    expected.extend_from_slice(b"U64");
    expected.push(0);
    assert_eq!(key, expected);
}

#[test]
fn module_key_is_address_then_access_vector() {
    let id = ModuleId { address: addr(2), name: "Event".to_string() };
    let key = AccessPath::code_access_path(&id).key();
    let mut expected = vec![0u8; 15];
    expected.push(2);
    expected.push(0);
    expected.extend_from_slice(&[0u8; 15]);
    expected.push(2);
    expected.push(5);
    expected.extend_from_slice(b"Event");
    assert_eq!(key, expected);
}

#[test]
fn effects_are_applied_in_order() {
    let loader = Loader::new(vec![StructType {
        address: addr(1),
        module: "Store".to_string(),
        name: "U64".to_string(),
        fields: vec![Type::U64],
    }]);
    let store = StorageMock::default();
    let events = EventHandlerMock::default();
    let mut node = NodeApi::new(store.clone(), events.clone(), BankMock::default());
    let mut session = node.new_session(&loader, None);
    let u64_tag = tag(1, "Store", "U64", vec![]);
    let effects = mvm::session::TransactionEffects {
        resources: vec![
            (
                addr(1),
                vec![
                    (u64_tag.copy(), Type::Struct(0), Some(Value::Struct(vec![Value::U64(13)]))),
                    (balance("USD"), Type::Bool, Some(Value::Struct(vec![Value::Struct(vec![Value::U128(9)])]))),
                ],
            ),
            (addr(2), vec![(u64_tag.copy(), Type::Struct(0), None)]),
        ],
        modules: vec![(ModuleId { address: addr(1), name: "Store".to_string() }, vec![7, 7, 7])],
        events: vec![(b"GUID".to_vec(), 1, TypeTag::U64, Value::U64(13))],
    };
    assert!(session.is_open());
    session.handle_tx_effects(effects).unwrap();
    assert!(!session.is_open());
    assert_eq!(
        session.get_resource(&addr(1), &u64_tag).unwrap(),
        Some(vec![13, 0, 0, 0, 0, 0, 0, 0])
    );
    assert_eq!(
        session.bank_session().balance_changes(),
        &vec![(addr(1), Balance { ticker: "USD".to_owned(), balance: 9, locked: false })]
    );
    assert_eq!(
        session.get_module(&ModuleId { address: addr(1), name: "Store".to_string() }).unwrap(),
        Some(vec![7, 7, 7])
    );
    assert_eq!(events.data.borrow().len(), 1);
    assert_eq!(store.data.borrow().len(), 2);
}

#[test]
fn effects_stop_at_the_first_error() {
    let loader = Loader::new(vec![]);
    let events = EventHandlerMock::default();
    let mut node = NodeApi::new(StorageMock::default(), events.clone(), BankMock::default());
    let mut session = node.new_session(&loader, None);
    let effects = mvm::session::TransactionEffects {
        resources: vec![(addr(1), vec![(balance("USD"), Type::Bool, Some(Value::Bool(true)))])],
        modules: vec![],
        events: vec![(b"GUID".to_vec(), 1, TypeTag::U64, Value::U64(13))],
    };
    let err = session.handle_tx_effects(effects).unwrap_err();
    assert_eq!(err.major_status, StatusCode::InternalTypeError);
    assert!(!session.is_open());
    assert!(events.data.borrow().is_empty());
}

#[test]
fn vm_result_reports_status_and_gas() {
    assert_eq!(handle_vm_result(100, 40, Ok(())), VmResult { status_code: StatusCode::Executed, gas_used: 60 });
    assert_eq!(
        handle_vm_result(100, 100, Err(VMError::new(StatusCode::InternalTypeError))),
        VmResult { status_code: StatusCode::InternalTypeError, gas_used: 0 }
    );
}

#[test]
fn module_sender_must_match() {
    let id = ModuleId { address: addr(1), name: "Store".to_string() };
    assert_eq!(
        check_module_sender(ModuleId { address: addr(1), name: "Store".to_string() }, &addr(1)).unwrap(),
        id
    );
    let err = check_module_sender(ModuleId { address: addr(1), name: "Store".to_string() }, &addr(2)).unwrap_err();
    assert_eq!(err.major_status, StatusCode::ModuleAddressDoesNotMatchSender);
    assert_eq!(err.location, Location::Module(id));
}

#[test]
fn resolvers_answer_through_the_trait() {
    let mut context = ExecutionContext::new(None);
    let timestamp = tag(1, "Timestamp", "CurrentTimeMicroseconds", vec![]);
    assert_eq!(
        Resolve::resolve(&mut context, &core_code_address(), &timestamp),
        ResolverResult::Resolved(Ok(None))
    );
    let mut bank = Bank::new(BankMock::with_data(&[("USD", 7, 5, false)]));
    let loader = Loader::new(vec![]);
    let mut session = bank.new_session(&loader);
    assert_eq!(
        Resolve::resolve(&mut session, &addr(7), &balance("USD")),
        ResolverResult::Resolved(Ok(Some(5u128.to_le_bytes().to_vec())))
    );
    assert_eq!(Resolve::resolve(&mut session, &addr(7), &timestamp), ResolverResult::Unresolved);

    let events = EventHandlerMock::default();
    let mut node = NodeApi::new(StorageMock::default(), events.clone(), BankMock::default());
    let s = node.new_session(&loader, None);
    Events::write_event(&s, (vec![1], 2, TypeTag::Bool, Value::Bool(true))).unwrap();
    assert_eq!(events.data.borrow()[0], (vec![1], 2, TypeTag::Bool, vec![1]));
}

#[test]
fn handlers_outlive_the_session() {
    let loader = collateral_loader();
    let mut bank = Bank::new(BankMock::default());
    let mut first = bank.new_session(&loader);
    let made = first.make_handlers(&lock3_tag(), &lock3_type()).unwrap();
    let bank_back = first.finish();
    let mut second = bank_back.new_session(&loader);
    assert_eq!(second.make_handlers(&lock3_tag(), &Type::Bool).unwrap(), made);
}

#[test]
fn collateral_insert_succeeds_and_stores() {
    let loader = collateral_loader();
    let store = StorageMock::default();
    let mut node = NodeApi::new(store.clone(), EventHandlerMock::default(), BankMock::default());
    let mut session = node.new_session(&loader, None);
    let value = Value::Struct(vec![Value::Struct(vec![Value::U128(500)])]);
    assert_eq!(session.insert_resource(addr(0x22), lock3_tag(), lock3_type(), value), Ok(()));
    let key = AccessPath::resource_access_path(addr(0x22), &lock3_tag()).key();
    assert_eq!(store.data.borrow().get(&key), Some(&500u128.to_le_bytes().to_vec()));
}

#[test]
fn shape_errors_have_no_location() {
    let err = mvm::value::load_value(&vec![0], 0, &Value::U8(1)).unwrap_err();
    assert_eq!(err.major_status, StatusCode::InternalTypeError);
    assert_eq!(err.location, Location::Undefined);
}

#[test]
fn empty_commit_succeeds() {
    let loader = Loader::new(vec![]);
    let mut node = NodeApi::new(StorageMock::default(), EventHandlerMock::default(), BankMock::default());
    let mut session = node.new_session(&loader, None);
    let effects = mvm::session::TransactionEffects { resources: vec![], modules: vec![], events: vec![] };
    assert_eq!(session.handle_tx_effects(effects), Ok(()));
}

#[test]
fn vector_of_primitives_is_a_type_error() {
    let err = mvm::value::load_value(&vec![], 0, &Value::Vector(vec![Value::U128(5)])).unwrap_err();
    assert_eq!(err.major_status, StatusCode::InternalTypeError);
    assert_eq!(err.location, Location::Undefined);
    assert_eq!(mvm::value::load_value(&vec![], 0, &Value::Vector(vec![])).unwrap(), Vec::<u128>::new());
}

#[test]
fn failed_commit_stops_at_the_failing_write() {
    let loader = Loader::new(vec![]);
    let mut node = NodeApi::new(StorageMock::default(), EventHandlerMock::default(), BankMock::default());
    let mut session = node.new_session(&loader, None);
    let effects = mvm::session::TransactionEffects {
        resources: vec![(
            addr(1),
            vec![
                (balance("USD"), Type::Bool, Some(Value::Struct(vec![Value::Struct(vec![Value::U128(9)])]))),
                (balance("BTC"), Type::Bool, Some(Value::U64(1))),
                (balance("ETH"), Type::Bool, None),
            ],
        )],
        modules: vec![],
        events: vec![],
    };
    let err = session.handle_tx_effects(effects).unwrap_err();
    assert_eq!(err.major_status, StatusCode::InternalTypeError);
    assert_eq!(
        session.bank_session().balance_changes(),
        &vec![(addr(1), Balance { ticker: "USD".to_owned(), balance: 9, locked: false })]
    );
}
