use mvm::bank::BalanceHandler;
use mvm::language::{is_valid_identifier, to_le_bytes, AccountAddress, ModuleId, StructTag, TypeTag};
use mvm::name_pool::ConstPool;
use mvm::source_text::{is_permitted_char, is_permitted_newline_char, is_permitted_printable_char};
use mvm::store::AccessPath;
use mvm::walker::{Loader, StructType, Type, TypeWalker};

fn addr(value: u128) -> AccountAddress {
    AccountAddress::new(value)
}

fn def(module: &str, name: &str, fields: Vec<Type>) -> StructType {
    StructType { address: addr(1), module: module.to_string(), name: name.to_string(), fields }
}

fn tag(module: &str, name: &str, type_params: Vec<TypeTag>) -> StructTag {
    StructTag { address: addr(1), module: module.to_string(), name: name.to_string(), type_params }
}

/// 0: `Dfinance::T<C> { value: u128 }`, 1: `Dfinance::USD`, 2: `Dfinance::BTC`,
/// 3: `Vault { coins: vector<Dfinance::T<BTC>>, owner: address, usd: Dfinance::T<USD> }`,
/// 4: `Wrapper<X> { flag: bool, item: X }`, 5: `Raw { coin: Dfinance::T<u64> }`.
fn loader() -> Loader {
    Loader::new(vec![
        def("Dfinance", "T", vec![Type::U128]),
        def("Dfinance", "USD", vec![Type::Bool]),
        def("Dfinance", "BTC", vec![Type::Bool]),
        def(
            "Bank",
            "Vault",
            vec![
                Type::Vector(Box::new(Type::StructInstantiation(0, vec![Type::Struct(2)]))),
                Type::Address,
                Type::StructInstantiation(0, vec![Type::Struct(1)]),
            ],
        ),
        def("Bank", "Wrapper", vec![Type::Bool, Type::TyParam(0)]),
        def("Bank", "Raw", vec![Type::StructInstantiation(0, vec![Type::U64])]),
    ])
}

#[test]
fn walker_finds_nested_and_vector_balances() {
    let loader = loader();
    let walker = TypeWalker::new(&loader);
    let found = walker.find_balance(&tag("Bank", "Vault", vec![]), &Type::Struct(3)).unwrap();
    assert_eq!(
        found,
        Some(BalanceHandler::Locked(vec![
            ("BTC".to_owned(), vec![0, 0]),
            ("USD".to_owned(), vec![2, 0]),
        ]))
    );
}

#[test]
fn walker_follows_type_parameters() {
    let loader = loader();
    let walker = TypeWalker::new(&loader);
    let wrapper = tag("Bank", "Wrapper", vec![TypeTag::Struct(tag("Bank", "Vault", vec![]))]);
    let found = walker.find_balance(&wrapper, &Type::StructInstantiation(4, vec![Type::Struct(3)])).unwrap();
    assert_eq!(
        found,
        Some(BalanceHandler::Locked(vec![
            ("BTC".to_owned(), vec![1, 0, 0]),
            ("USD".to_owned(), vec![1, 2, 0]),
        ]))
    );
}

#[test]
fn walker_names_primitive_coins() {
    let loader = loader();
    let walker = TypeWalker::new(&loader);
    let found = walker.find_balance(&tag("Bank", "Raw", vec![]), &Type::Struct(5)).unwrap();
    assert_eq!(found, Some(BalanceHandler::Locked(vec![("u64".to_owned(), vec![0, 0])])));
}

#[test]
fn walker_finds_nothing_in_plain_types() {
    let loader = loader();
    let walker = TypeWalker::new(&loader);
    assert_eq!(walker.find_balance(&tag("Dfinance", "USD", vec![]), &Type::Struct(1)).unwrap(), None);
    let wrapper = tag("Bank", "Wrapper", vec![TypeTag::U8]);
    assert_eq!(
        walker.find_balance(&wrapper, &Type::StructInstantiation(4, vec![Type::U8])).unwrap(),
        None
    );
}

#[test]
fn walker_is_deterministic() {
    let loader = loader();
    let first = TypeWalker::new(&loader);
    let second = TypeWalker::new(&loader);
    let vault = tag("Bank", "Vault", vec![]);
    let raw = tag("Bank", "Raw", vec![]);
    let a = first.find_balance(&vault, &Type::Struct(3)).unwrap();
    let b = second.find_balance(&raw, &Type::Struct(5)).unwrap();
    assert_eq!(second.find_balance(&vault, &Type::Struct(3)).unwrap(), a);
    assert_eq!(first.find_balance(&raw, &Type::Struct(5)).unwrap(), b);
}

#[test]
fn balance_tag_is_unlocked() {
    let loader = loader();
    let walker = TypeWalker::new(&loader);
    let balance = tag("Account", "Balance", vec![TypeTag::Struct(tag("Dfinance", "ETH", vec![]))]);
    let found = walker.find_balance(&balance, &Type::Bool).unwrap().unwrap();
    assert_eq!(found, BalanceHandler::Unlocked("ETH".to_owned()));
    assert!(found.is_unlocked());
    assert!(!BalanceHandler::Locked(vec![]).is_unlocked());
}

#[test]
fn loader_lookups() {
    let loader = loader();
    assert_eq!(loader.struct_tag_to_struct_gidx(&tag("Dfinance", "BTC", vec![])), Some(2));
    assert_eq!(loader.struct_tag_to_struct_gidx(&tag("Dfinance", "ETH", vec![])), None);
    assert_eq!(loader.struct_at(3).name, "Vault");
    assert_eq!(
        loader.type_to_type_tag(&Type::StructInstantiation(0, vec![Type::Vector(Box::new(Type::U8))])),
        Some(TypeTag::Struct(tag("Dfinance", "T", vec![TypeTag::Vector(Box::new(TypeTag::U8))])))
    );
    assert_eq!(loader.type_to_type_tag(&Type::TyParam(0)), None);
    assert_eq!(loader.type_to_type_tag(&Type::Struct(9)), None);
}

#[test]
fn storage_keys() {
    let address = addr(0x0102);
    let mut expected = vec![0u8; 14];
    expected.extend_from_slice(&[1, 2]);
    assert_eq!(address.to_u8(), expected);
    let path = AccessPath::new(address, vec![9, 8]);
    let mut key = expected.clone();
    key.extend_from_slice(&[9, 8]);
    assert_eq!(path.key(), key);

    let resource = AccessPath::resource_access_path(address, &tag("Store", "U64", vec![]));
    assert_eq!(resource.path[0], 1);
    assert!(resource.path.len() > 1);
    let module = AccessPath::code_access_path(&ModuleId { address: addr(1), name: "Store".to_string() });
    assert_eq!(module.path[0], 0);
    assert_eq!(module.address, addr(1));
}

#[test]
fn little_endian_bytes() {
    assert_eq!(to_le_bytes(0x0102_0304, 8), vec![4, 3, 2, 1, 0, 0, 0, 0]);
    assert_eq!(to_le_bytes(u128::MAX, 16), vec![255u8; 16]);
    assert_eq!(to_le_bytes(7, 0), Vec::<u8>::new());
}

#[test]
fn tag_copies_are_equal() {
    let t = tag("Bank", "Wrapper", vec![TypeTag::Vector(Box::new(TypeTag::Struct(tag("Dfinance", "USD", vec![]))))]);
    assert_eq!(t.copy(), t);
}

#[test]
fn const_pool_keeps_names() {
    let mut pool = ConstPool::new();
    assert_eq!(pool.push("Account"), 0);
    assert_eq!(pool.push("Balance"), 1);
    assert_eq!(pool.get(0), "Account");
    assert_eq!(pool.get(1), "Balance");
}

#[test]
fn permitted_characters() {
    assert!(is_permitted_printable_char(' '));
    assert!(is_permitted_printable_char('~'));
    assert!(is_permitted_printable_char('\t'));
    assert!(!is_permitted_printable_char('\n'));
    assert!(!is_permitted_printable_char('\u{7f}'));
    assert!(is_permitted_newline_char('\n'));
    assert!(!is_permitted_newline_char('\r'));
    assert!(is_permitted_char('\n'));
    assert!(is_permitted_char('a'));
    assert!(!is_permitted_char('é'));
}

#[test]
fn identifiers() {
    assert!(is_valid_identifier(&"Balance".to_string()));
    assert!(is_valid_identifier(&"_x1".to_string()));
    assert!(is_valid_identifier(&"<SELF>".to_string()));
    assert!(!is_valid_identifier(&"_".to_string()));
    assert!(!is_valid_identifier(&"".to_string()));
    assert!(!is_valid_identifier(&"1abc".to_string()));
    assert!(!is_valid_identifier(&"a-b".to_string()));
}

#[test]
fn tag_well_formedness() {
    assert!(tag("Store", "U64", vec![TypeTag::Vector(Box::new(TypeTag::U8))]).is_wf());
    assert!(!tag("Store", "U-64", vec![]).is_wf());
    assert!(!tag("Store", "U64", vec![TypeTag::Struct(tag("Bad Name", "X", vec![]))]).is_wf());
    let mut deep = TypeTag::U8;
    for _ in 0..198 {
        deep = TypeTag::Vector(Box::new(deep));
    }
    assert!(tag("Store", "U64", vec![deep]).is_wf());
    let mut deeper = TypeTag::U8;
    for _ in 0..199 {
        deeper = TypeTag::Vector(Box::new(deeper));
    }
    assert!(!tag("Store", "U64", vec![deeper]).is_wf());
}

#[test]
fn walk_finishes_within_fuel() {
    let loader = loader();
    let walker = TypeWalker::new(&loader);
    let vault = tag("Bank", "Vault", vec![]);
    assert!(walker.walk_finishes_within(&vault, &Type::Struct(3), 10));
    assert!(!walker.walk_finishes_within(&vault, &Type::Struct(3), 1));
    assert!(!walker.walk_finishes_within(&vault, &Type::Struct(42), 10));
    assert!(!walker.walk_finishes_within(&vault, &Type::TyParam(0), 10));
}
