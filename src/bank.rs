//! The native bank: balance recognition, balance handlers and their cache, and the per-session
//! view of the host's balances.
use crate::errors::{resolution, ResolverResult, StatusCode, VMError};
use crate::language::{
    core_address, le_bytes, str_eq, to_le_bytes, AccountAddress, StructTag, StructTagModel,
    TypeTagModel,
};
use crate::store::resource_access_vector_of;
use crate::value::{balances_view, handler_balances, Balance, BalanceModel, Value};
use crate::walker::{handler_for, paths_view, walk_terminates, BalancePath, Loader, StructType, Type, TypeWalker};
use vstd::prelude::*;

verus! {

/// A fungible account held by the host's bank.
#[derive(Clone, Copy, Debug, PartialEq, Eq, Structural)]
pub struct Account {
    /// Balance amount.
    pub amount: u128,
    /// Whether the amount on the account may be locked.
    pub is_lockable: bool,
}

/// `0x1::Account::Balance<0x1::Dfinance::X>` for some currency `X`: the resource that the bank
/// holds instead of the byte store.
pub open spec fn is_balance_tag(tag: StructTagModel) -> bool {
    &&& tag.address == core_address()
    &&& tag.module == "Account"@
    &&& tag.name == "Balance"@
    &&& tag.type_params.len() == 1
    &&& match tag.type_params[0] {
        TypeTagModel::Struct(inner) => inner.address == core_address() && inner.module
            == "Dfinance"@,
        _ => false,
    }
}

/// The currency of a balance tag: the name of its type argument.
pub open spec fn balance_ticker(tag: StructTagModel) -> Seq<char> {
    match tag.type_params[0] {
        TypeTagModel::Struct(inner) => inner.name,
        _ => Seq::empty(),
    }
}

/// Whether `tag` is a balance resource.
pub fn is_balance(tag: &StructTag) -> (r: bool)
    ensures
        r == is_balance_tag(tag@),
{
    proof {
        crate::language::lemma_params_model(tag.type_params, tag.type_params.len() as nat);
    }
    if tag.address.value == 1 && str_eq(&tag.module, "Account") && str_eq(&tag.name, "Balance")
        && tag.type_params.len() == 1 {
        match &tag.type_params[0] {
            crate::language::TypeTag::Struct(inner) => inner.address.value == 1 && str_eq(
                &inner.module,
                "Dfinance",
            ),
            _ => false,
        }
    } else {
        false
    }
}

/// The ticker of a balance tag.
pub fn ticker_of_balance(tag: &StructTag) -> (r: String)
    requires
        is_balance_tag(tag@),
    ensures
        r@ == balance_ticker(tag@),
{
    proof {
        crate::language::lemma_params_model(tag.type_params, tag.type_params.len() as nat);
    }
    match &tag.type_params[0] {
        crate::language::TypeTag::Struct(inner) => inner.name.clone(),
        _ => String::new(),
    }
}

/// How the bank treats a resource type.
#[derive(Debug, PartialEq, Eq)]
pub enum BalanceHandler {
    /// The type holds balances at these field paths, locked as collateral.
    Locked(Vec<BalancePath>),
    /// The type is itself the balance of this ticker.
    Unlocked(String),
}

/// The model of a [`BalanceHandler`].
pub enum HandlerModel {
    Locked(Seq<(Seq<char>, Seq<usize>)>),
    Unlocked(Seq<char>),
}

impl View for BalanceHandler {
    type V = HandlerModel;

    open spec fn view(&self) -> HandlerModel {
        match self {
            BalanceHandler::Locked(paths) => HandlerModel::Locked(paths_view(paths@)),
            BalanceHandler::Unlocked(t) => HandlerModel::Unlocked(t@),
        }
    }
}

/// The model of an optional handler.
pub open spec fn handler_view(h: Option<BalanceHandler>) -> Option<HandlerModel> {
    match h {
        Some(x) => Some(x@),
        None => None,
    }
}

impl BalanceHandler {
    pub fn is_unlocked(&self) -> (r: bool)
        ensures
            r == (self is Unlocked),
    {
        match self {
            BalanceHandler::Locked(_) => false,
            BalanceHandler::Unlocked(_) => true,
        }
    }

    /// A copy with the same model.
    pub fn copy(&self) -> (r: BalanceHandler)
        ensures
            r@ == self@,
    {
        match self {
            BalanceHandler::Unlocked(t) => BalanceHandler::Unlocked(t.clone()),
            BalanceHandler::Locked(paths) => {
                let mut out: Vec<BalancePath> = Vec::new();
                let mut i: usize = 0;
                while i < paths.len()
                    invariant
                        i <= paths.len(),
                        paths_view(out@) == paths_view(paths@).take(i as int),
                    decreases paths.len() - i,
                {
                    let p = copy_path(&paths[i].1);
                    let ghost before = out@;
                    out.push((paths[i].0.clone(), p));
                    proof {
                        assert(paths_view(out@) =~= paths_view(before).push(
                            paths_view(paths@)[i as int],
                        ));
                        assert(paths_view(paths@).take(i + 1) =~= paths_view(paths@).take(
                            i as int,
                        ).push(paths_view(paths@)[i as int]));
                    }
                    i = i + 1;
                }
                assert(paths_view(paths@).take(paths.len() as int) =~= paths_view(paths@));
                BalanceHandler::Locked(out)
            },
        }
    }
}

/// A copy of `p`.
pub fn copy_path(p: &Vec<usize>) -> (r: Vec<usize>)
    ensures
        r@ == p@,
{
    let mut out: Vec<usize> = Vec::new();
    let mut i: usize = 0;
    while i < p.len()
        invariant
            i <= p.len(),
            out@ == p@.take(i as int),
        decreases p.len() - i,
    {
        out.push(p[i]);
        proof {
            assert(p@.take(i + 1) =~= p@.take(i as int).push(p@[i as int]));
        }
        i = i + 1;
    }
    assert(p@.take(p.len() as int) =~= p@);
    out
}


/// The host's ledger of balances, by ticker and account.
pub trait Balances {
    /// The account of `addr` in currency `ticker`, if it has one.
    fn get_balance(&self, ticker: &str, addr: &AccountAddress) -> Option<Account>;

    /// Moves `amount` of `ticker` from `from` to `to`.
    fn transfer(&self, ticker: &str, from: &AccountAddress, to: &AccountAddress, amount: u128);

    /// Locks `amount` of `ticker` on `addr`.
    fn lock(&self, ticker: &str, addr: &AccountAddress, amount: u128);

    /// Unlocks `amount` of `ticker` on `addr`.
    fn unlock(&self, ticker: &str, addr: &AccountAddress, amount: u128);
}

/// Handlers by the access vector of their resource type, in a hash map.
#[verifier::external_body]
pub struct HandlerTable {
    map: hashbrown::HashMap<Vec<u8>, Option<BalanceHandler>>,
}

/// A cache that holds no handler.
pub open spec fn no_handlers() -> Map<Seq<u8>, Option<HandlerModel>> {
    Map::empty()
}

/// What a handler table holds, by access vector.
pub uninterp spec fn handler_table(t: HandlerTable) -> Map<Seq<u8>, Option<HandlerModel>>;

/// Relies on hashbrown's `HashMap::new`: an empty map.
#[verifier::external_body]
fn table_new() -> (r: HandlerTable)
    ensures
        handler_table(r) == no_handlers(),
{
    HandlerTable { map: hashbrown::HashMap::new() }
}

/// Relies on hashbrown's `HashMap::get`: the value stored under a key equal to `key`, if any,
/// handed out as a copy.
#[verifier::external_body]
fn table_get(t: &HandlerTable, key: &Vec<u8>) -> (r: Option<Option<BalanceHandler>>)
    ensures
        match r {
            Some(h) => handler_table(*t).contains_key(key@) && handler_table(*t)[key@]
                == handler_view(h),
            None => !handler_table(*t).contains_key(key@),
        },
{
    t.map.get(key).map(copy_handler)
}

/// Relies on hashbrown's `HashMap::insert`: afterwards `key` maps to `value` and every other key
/// to what it mapped to before.
#[verifier::external_body]
fn table_insert(t: &mut HandlerTable, key: Vec<u8>, value: Option<BalanceHandler>)
    ensures
        handler_table(*final(t)) == handler_table(*old(t)).insert(key@, handler_view(value)),
{
    t.map.insert(key, value);
}

/// Relies on hashbrown's `HashMap::clear`: afterwards the map is empty.
#[verifier::external_body]
fn table_clear(t: &mut HandlerTable)
    ensures
        handler_table(*final(t)) == no_handlers(),
{
    t.map.clear();
}

/// A copy of an optional handler.
fn copy_handler(h: &Option<BalanceHandler>) -> (r: Option<BalanceHandler>)
    ensures
        handler_view(r) == handler_view(*h),
{
    match h {
        Some(x) => Some(x.copy()),
        None => None,
    }
}

/// Handlers already computed, by resource type; shared by the sessions of one bank.
pub struct BalanceHandlerCache {
    cache: HandlerTable,
}

impl BalanceHandlerCache {
    pub fn new() -> (r: BalanceHandlerCache)
        ensures
            r@ == Map::<Seq<u8>, Option<HandlerModel>>::empty(),
    {
        BalanceHandlerCache { cache: table_new() }
    }

    /// The handler cached for `tag`: `None` if none was stored, `Some(None)` if the type was
    /// found to hold no balance.
    pub fn get_balance_handler(&self, tag: &StructTag) -> (r: Option<Option<BalanceHandler>>)
        requires
            tag@.wf(),
        ensures
            match r {
                Some(h) => self@.contains_key(crate::store::resource_access_vector_of(tag@))
                    && self@[crate::store::resource_access_vector_of(tag@)] == handler_view(h),
                None => !self@.contains_key(crate::store::resource_access_vector_of(tag@)),
            },
    {
        let key = crate::store::struct_access_vector(tag);
        table_get(&self.cache, &key)
    }

    /// Stores `handlers` for `tag` and hands them back.
    pub fn store_balance_handler(&mut self, tag: &StructTag, handlers: Option<BalanceHandler>) -> (r:
        Option<BalanceHandler>)
        requires
            tag@.wf(),
        ensures
            final(self)@ == old(self)@.insert(
                crate::store::resource_access_vector_of(tag@),
                handler_view(handlers),
            ),
            handler_view(r) == handler_view(handlers),
    {
        let key = crate::store::struct_access_vector(tag);
        let stored = copy_handler(&handlers);
        table_insert(&mut self.cache, key, stored);
        handlers
    }

    /// Forgets every handler.
    pub fn clear(&mut self)
        ensures
            final(self)@ == Map::<Seq<u8>, Option<HandlerModel>>::empty(),
    {
        table_clear(&mut self.cache);
    }
}

impl Default for BalanceHandlerCache {
    fn default() -> (r: BalanceHandlerCache)
        ensures
            r@ == Map::<Seq<u8>, Option<HandlerModel>>::empty(),
    {
        BalanceHandlerCache::new()
    }
}

impl View for BalanceHandlerCache {
    type V = Map<Seq<u8>, Option<HandlerModel>>;

    closed spec fn view(&self) -> Map<Seq<u8>, Option<HandlerModel>> {
        handler_table(self.cache)
    }
}


/// Accounts by address and ticker, in a hash map.
#[verifier::external_body]
pub struct AccountTable {
    map: hashbrown::HashMap<(u128, String), Account>,
}

/// What an account table holds, by address and ticker.
pub uninterp spec fn account_table(t: AccountTable) -> Map<(u128, Seq<char>), Account>;

/// A session that has read no account.
pub open spec fn no_accounts() -> Map<(u128, Seq<char>), Account> {
    Map::empty()
}

/// Relies on hashbrown's `HashMap::new`: an empty map.
#[verifier::external_body]
fn accounts_new() -> (r: AccountTable)
    ensures
        account_table(r) == no_accounts(),
{
    AccountTable { map: hashbrown::HashMap::new() }
}

/// Relies on hashbrown's `HashMap::get`: the account stored under the key of `address` and a
/// ticker with the same characters as `ticker`, if any (`String` keys are equal exactly when
/// their characters are).
#[verifier::external_body]
fn accounts_get(t: &AccountTable, address: u128, ticker: &String) -> (r: Option<Account>)
    ensures
        r is Some <==> account_table(*t).contains_key((address, ticker@)),
        r matches Some(a) ==> account_table(*t)[(address, ticker@)] == a,
{
    t.map.get(&(address, ticker.clone())).copied()
}

/// Relies on hashbrown's `HashMap::insert`: afterwards the key of `address` and `ticker` maps to
/// `account` and every other key to what it mapped to before.
#[verifier::external_body]
fn accounts_insert(t: &mut AccountTable, address: u128, ticker: String, account: Account)
    ensures
        account_table(*final(t)) == account_table(*old(t)).insert((address, ticker@), account),
{
    t.map.insert((address, ticker), account);
}

/// The blob that a balance resource reads as: the amount's 16 little-endian bytes.
pub open spec fn balance_blob(acc: Option<Account>) -> Option<Seq<u8>> {
    match acc {
        Some(a) => Some(le_bytes(a.amount as nat, 16)),
        None => None,
    }
}

/// The native bank: the host's balances and the handler cache its sessions share.
pub struct Bank<B: Balances> {
    cache: BalanceHandlerCache,
    bank: B,
}

impl<B: Balances> Bank<B> {
    pub fn new(bank: B) -> (r: Bank<B>)
        ensures
            r.handlers() == Map::<Seq<u8>, Option<HandlerModel>>::empty(),
            r.host() == bank,
    {
        Bank { cache: BalanceHandlerCache::new(), bank }
    }

    /// The cached handlers.
    pub closed spec fn handlers(&self) -> Map<Seq<u8>, Option<HandlerModel>> {
        self.cache@
    }

    /// The host's balances.
    pub closed spec fn host(&self) -> B {
        self.bank
    }

    /// Opens a session that reads types through `loader`.
    pub fn new_session<'a, 't>(&'a mut self, loader: &'t Loader) -> (r: BankSession<'a, 't, B>)
        ensures
            r.accounts() == Map::<(u128, Seq<char>), Account>::empty(),
            r.changes() == Seq::<(u128, BalanceModel)>::empty(),
            r.structs() == loader.structs(),
            r.handlers() == old(self).handlers(),
    {
        BankSession::new(self, loader)
    }

    /// Forgets every cached handler.
    pub fn clear(&mut self)
        ensures
            final(self).handlers() == Map::<Seq<u8>, Option<HandlerModel>>::empty(),
            final(self).host() == old(self).host(),
    {
        self.cache.clear();
    }
}

/// One transaction's view of the bank: the accounts read so far and the balance changes that
/// its writes call for.
pub struct BankSession<'a, 't, B: Balances> {
    bank: &'a mut Bank<B>,
    balances: AccountTable,
    changes: Vec<(AccountAddress, Balance)>,
    type_viewer: TypeWalker<'t>,
}

/// How making a handler for the type with access vector `key` changes the cache `before` into
/// `after` and yields `h`: a cached handler is reused and the cache kept; otherwise the handler
/// the type calls for is computed and stored.
pub open spec fn make_handler_post(
    before: Map<Seq<u8>, Option<HandlerModel>>,
    key: Seq<u8>,
    computed: Option<HandlerModel>,
    after: Map<Seq<u8>, Option<HandlerModel>>,
    h: Option<HandlerModel>,
) -> bool {
    if before.contains_key(key) {
        h == before[key] && after == before
    } else {
        h == computed && after == before.insert(key, computed)
    }
}

/// The model of the recorded balance changes.
pub open spec fn changes_view(v: Seq<(AccountAddress, Balance)>) -> Seq<(u128, BalanceModel)> {
    v.map_values(|c: (AccountAddress, Balance)| (c.0.value, (c.1.ticker@, c.1.balance, c.1.locked)))
}

/// `balances` as changes of the account at `address`.
pub open spec fn at_address(address: u128, balances: Seq<BalanceModel>) -> Seq<(u128, BalanceModel)> {
    balances.map_values(|b: BalanceModel| (address, b))
}

impl<'a, 't, B: Balances> BankSession<'a, 't, B> {
    fn new(bank: &'a mut Bank<B>, loader: &'t Loader) -> (r: BankSession<'a, 't, B>)
        ensures
            r.accounts() == Map::<(u128, Seq<char>), Account>::empty(),
            r.changes() == Seq::<(u128, BalanceModel)>::empty(),
            r.structs() == loader.structs(),
            r.handlers() == old(bank).handlers(),
    {
        let r = BankSession {
            bank,
            balances: accounts_new(),
            changes: Vec::new(),
            type_viewer: TypeWalker::new(loader),
        };
        proof {
            assert(changes_view(r.changes@) =~= Seq::<(u128, BalanceModel)>::empty());
        }
        r
    }

    /// The accounts this session has read.
    pub closed spec fn accounts(&self) -> Map<(u128, Seq<char>), Account> {
        account_table(self.balances)
    }

    /// The balance changes this session's writes called for, in order.
    pub closed spec fn changes(&self) -> Seq<(u128, BalanceModel)> {
        changes_view(self.changes@)
    }

    /// The struct definitions the session's walker reads.
    pub closed spec fn structs(&self) -> Seq<StructType> {
        self.type_viewer.structs()
    }

    /// The bank's cached handlers.
    pub closed spec fn handlers(&self) -> Map<Seq<u8>, Option<HandlerModel>> {
        self.bank.handlers()
    }

    /// Ends the session and hands back its bank, whose handler cache holds every handler the
    /// session made: a session opened on it next starts from exactly these handlers.
    pub fn finish(self) -> (r: &'a mut Bank<B>)
        ensures
            r.handlers() == self.handlers(),
    {
        self.bank
    }

    /// Whether the walk of `tag`'s loaded type `tp` through this session's loader finishes within
    /// `fuel` levels; when it does, the walk terminates.
    pub fn walk_finishes_within(&self, tag: &StructTag, tp: &Type, fuel: u64) -> (r: bool)
        ensures
            r == (crate::walker::walk(self.structs(), *tp, tag@.type_params, fuel as nat) is Some),
            r ==> walk_terminates(self.structs(), *tp, tag@.type_params),
    {
        self.type_viewer.walk_finishes_within(tag, tp, fuel)
    }

    /// The balance changes recorded so far.
    pub fn balance_changes(&self) -> (r: &Vec<(AccountAddress, Balance)>)
        ensures
            changes_view(r@) == self.changes(),
    {
        &self.changes
    }

    /// The account cached for `address` in `ticker`.
    fn cached(&self, address: &AccountAddress, ticker: &String) -> (r: Option<Account>)
        ensures
            match r {
                Some(a) => self.accounts().contains_key((address.value, ticker@))
                    && self.accounts()[(address.value, ticker@)] == a,
                None => !self.accounts().contains_key((address.value, ticker@)),
            },
    {
        accounts_get(&self.balances, address.value, ticker)
    }

    /// The answer to a read of the balance of `address` in `ticker` that was not cached, given
    /// what the host's ledger returned for it: the amount's bytes, remembered for the rest of
    /// the session, or nothing.
    pub fn resolve_fetched(
        &mut self,
        address: &AccountAddress,
        ticker: &String,
        fetched: Option<Account>,
    ) -> (r: ResolverResult)
        ensures
            resolution(r) == Some(Ok::<Option<Seq<u8>>, StatusCode>(balance_blob(fetched))),
            final(self).accounts() == match fetched {
                Some(a) => old(self).accounts().insert((address.value, ticker@), a),
                None => old(self).accounts(),
            },
            final(self).changes() == old(self).changes(),
            final(self).structs() == old(self).structs(),
            final(self).handlers() == old(self).handlers(),
    {
        match fetched {
            Some(acc) => {
                let encoded = to_le_bytes(acc.amount, 16);
                accounts_insert(&mut self.balances, address.value, ticker.clone(), acc);
                ResolverResult::Resolved(Ok(Some(encoded)))
            },
            None => ResolverResult::Resolved(Ok(None)),
        }
    }

    /// Reads a balance resource through the bank: from the session's accounts, else from the
    /// host's ledger; any other resource is left to the next resolver.
    pub fn resolve(&mut self, address: &AccountAddress, tag: &StructTag) -> (r: ResolverResult)
        ensures
            bank_resolve_post(
                old(self).accounts(),
                address.value,
                tag@,
                resolution(r),
                final(self).accounts(),
            ),
            final(self).changes() == old(self).changes(),
            final(self).structs() == old(self).structs(),
            final(self).handlers() == old(self).handlers(),
    {
        if is_balance(tag) {
            let ticker = ticker_of_balance(tag);
            match self.cached(address, &ticker) {
                Some(acc) => ResolverResult::Resolved(Ok(Some(to_le_bytes(acc.amount, 16)))),
                None => {
                    let fetched = self.bank.bank.get_balance(ticker.as_str(), address);
                    self.resolve_fetched(address, &ticker, fetched)
                },
            }
        } else {
            ResolverResult::Unresolved
        }
    }

    /// The handler for `tag`, whose loaded type is `tp`: the bank's cached one, else the one the
    /// type calls for, which is then cached.
    pub fn make_handlers(&mut self, tag: &StructTag, tp: &Type) -> (r: Result<
        Option<BalanceHandler>,
        VMError,
    >)
        requires
            tag@.wf(),
            is_balance_tag(tag@) || walk_terminates(old(self).structs(), *tp, tag@.type_params),
        ensures
            r matches Ok(h) && make_handler_post(
                old(self).handlers(),
                resource_access_vector_of(tag@),
                handler_for(old(self).structs(), tag@, *tp),
                final(self).handlers(),
                handler_view(h),
            ),
            final(self).accounts() == old(self).accounts(),
            final(self).changes() == old(self).changes(),
            final(self).structs() == old(self).structs(),
    {
        match self.bank.cache.get_balance_handler(tag) {
            Some(handler) => Ok(handler),
            None => {
                let found = self.type_viewer.find_balance(tag, tp);
                match found {
                    Ok(h) => Ok(self.bank.cache.store_balance_handler(tag, h)),
                    Err(e) => Err(e),
                }
            },
        }
    }

    /// Handles the deletion of resource `tag` at `address`: true when the resource is a balance,
    /// whose zeroing is then recorded; false when the byte store must delete it.
    pub fn handle_delete_balance(&mut self, address: &AccountAddress, tag: &StructTag, tp: &Type) -> (r:
        Result<bool, VMError>)
        requires
            tag@.wf(),
            is_balance_tag(tag@) || walk_terminates(old(self).structs(), *tp, tag@.type_params),
        ensures
            r matches Ok(handled) && delete_post(
                old(self).handlers(),
                old(self).structs(),
                tag@,
                *tp,
                final(self).handlers(),
                address.value,
                old(self).changes(),
                final(self).changes(),
                handled,
            ),
            final(self).accounts() == old(self).accounts(),
            final(self).structs() == old(self).structs(),
    {
        let made = self.make_handlers(tag, tp);
        let ghost hv = match &made {
            Ok(h) => handler_view(*h),
            Err(_) => None::<HandlerModel>,
        };
        let ghost key = resource_access_vector_of(tag@);
        let ghost computed = handler_for(old(self).structs(), tag@, *tp);
        assert(make_handler_post(old(self).handlers(), key, computed, self.handlers(), hv));
        match made {
            Ok(Some(handler)) => {
                match handler {
                    BalanceHandler::Unlocked(ticker) => {
                        let ghost before = self.changes@;
                        self.changes.push(
                            (*address, Balance { ticker, balance: 0, locked: false }),
                        );
                        proof {
                            assert(changes_view(self.changes@) =~= changes_view(before).push(
                                (address.value, (ticker@, 0u128, false)),
                            ));
                            assert(hv == Some(HandlerModel::Unlocked(ticker@)));
                            assert(make_handler_post(old(self).handlers(), key, computed, self.handlers(), hv));
                        }
                        Ok(true)
                    },
                    BalanceHandler::Locked(paths) => {
                        assert(hv == Some(HandlerModel::Locked(paths_view(paths@))));
                        Ok(false)
                    },
                }
            },
            Ok(None) => Ok(false),
            Err(e) => Err(e),
        }
    }

    /// Handles writing `value` as resource `tag` at `address`: records the balances the value
    /// holds when the type holds any, and answers true when the bank alone stores the resource
    /// (a balance), false when the byte store must store it too.
    pub fn handle_insert_balance(
        &mut self,
        address: &AccountAddress,
        tag: &StructTag,
        tp: &Type,
        value: &Value,
    ) -> (r: Result<bool, VMError>)
        requires
            tag@.wf(),
            is_balance_tag(tag@) || walk_terminates(old(self).structs(), *tp, tag@.type_params),
        ensures
            insert_post(
                old(self).handlers(),
                old(self).structs(),
                tag@,
                *tp,
                *value,
                final(self).handlers(),
                address.value,
                old(self).changes(),
                final(self).changes(),
                match r {
                    Ok(b) => Ok(b),
                    Err(e) => Err(e.major_status),
                },
            ),
            r matches Err(e) ==> e.location == crate::errors::Location::Undefined,
            final(self).accounts() == old(self).accounts(),
            final(self).structs() == old(self).structs(),
    {
        match self.make_handlers(tag, tp) {
            Ok(Some(handler)) => {
                match handler.resolve_balance(value) {
                    Ok(found) => {
                        self.record(address, found);
                        Ok(handler.is_unlocked())
                    },
                    Err(e) => Err(e),
                }
            },
            Ok(None) => Ok(false),
            Err(e) => Err(e),
        }
    }

    /// Appends `found` to the recorded changes, as changes of `address`.
    fn record(&mut self, address: &AccountAddress, found: Vec<Balance>)
        ensures
            final(self).changes() == old(self).changes() + at_address(
                address.value,
                balances_view(found@),
            ),
            final(self).accounts() == old(self).accounts(),
            final(self).structs() == old(self).structs(),
            final(self).handlers() == old(self).handlers(),
    {
        let ghost start = self.changes();
        let ghost all = balances_view(found@);
        let mut i: usize = 0;
        while i < found.len()
            invariant
                i <= found.len(),
                all == balances_view(found@),
                self.changes() == start + at_address(address.value, all.take(i as int)),
                self.balances == old(self).balances,
                self.type_viewer == old(self).type_viewer,
                *self.bank == *old(self).bank,
            decreases found.len() - i,
        {
            let b = Balance {
                ticker: found[i].ticker.clone(),
                balance: found[i].balance,
                locked: found[i].locked,
            };
            let ghost before = self.changes@;
            self.changes.push((*address, b));
            proof {
                assert(changes_view(self.changes@) =~= changes_view(before).push(
                    (address.value, all[i as int]),
                ));
                assert(all.take(i + 1) =~= all.take(i as int).push(all[i as int]));
                assert(at_address(address.value, all.take(i + 1)) =~= at_address(
                    address.value,
                    all.take(i as int),
                ).push((address.value, all[i as int])));
            }
            i = i + 1;
        }
        assert(all.take(found.len() as int) =~= all);
    }
}

/// What the bank answers for a read of `tag` at `address`, given the session's accounts
/// `before` and `after` the read: a balance that was read before reads the same; one that was
/// not is fetched from the host and, when the host has it, remembered; any other resource is
/// left to the next resolver.
pub open spec fn bank_resolve_post(
    before: Map<(u128, Seq<char>), Account>,
    address: u128,
    tag: StructTagModel,
    r: Option<Result<Option<Seq<u8>>, StatusCode>>,
    after: Map<(u128, Seq<char>), Account>,
) -> bool {
    let key = (address, balance_ticker(tag));
    if !is_balance_tag(tag) {
        r is None && after == before
    } else if before.contains_key(key) {
        r == Some(Ok::<Option<Seq<u8>>, StatusCode>(Some(le_bytes(before[key].amount as nat, 16))))
            && after == before
    } else {
        exists|fetched: Option<Account>|
            {
                &&& r == Some(Ok::<Option<Seq<u8>>, StatusCode>(balance_blob(fetched)))
                &&& after == match fetched {
                    Some(a) => before.insert(key, a),
                    None => before,
                }
            }
    }
}


/// The handler a request for the type with access vector `key` answers: the cached one, else
/// `computed`.
pub open spec fn cached_handler(
    before: Map<Seq<u8>, Option<HandlerModel>>,
    key: Seq<u8>,
    computed: Option<HandlerModel>,
) -> Option<HandlerModel> {
    if before.contains_key(key) {
        before[key]
    } else {
        computed
    }
}

/// The cache after a request for the type with access vector `key`.
pub open spec fn cache_after(
    before: Map<Seq<u8>, Option<HandlerModel>>,
    key: Seq<u8>,
    computed: Option<HandlerModel>,
) -> Map<Seq<u8>, Option<HandlerModel>> {
    if before.contains_key(key) {
        before
    } else {
        before.insert(key, computed)
    }
}

/// The handler a write of resource `tag` (loaded type `tp`) goes through.
pub open spec fn write_handler(
    handlers: Map<Seq<u8>, Option<HandlerModel>>,
    structs: Seq<StructType>,
    tag: StructTagModel,
    tp: Type,
) -> Option<HandlerModel> {
    cached_handler(handlers, resource_access_vector_of(tag), handler_for(structs, tag, tp))
}

/// The handler cache after a write of resource `tag` (loaded type `tp`).
pub open spec fn handlers_after_write(
    handlers: Map<Seq<u8>, Option<HandlerModel>>,
    structs: Seq<StructType>,
    tag: StructTagModel,
    tp: Type,
) -> Map<Seq<u8>, Option<HandlerModel>> {
    cache_after(handlers, resource_access_vector_of(tag), handler_for(structs, tag, tp))
}

/// The recorded balance changes after a write at `address` that succeeded: deleting a balance
/// records its zeroing; storing a value records the balances its handler finds in it.
pub open spec fn changes_after_write(
    handlers: Map<Seq<u8>, Option<HandlerModel>>,
    structs: Seq<StructType>,
    address: u128,
    tag: StructTagModel,
    tp: Type,
    value: Option<Value>,
    changes: Seq<(u128, BalanceModel)>,
) -> Seq<(u128, BalanceModel)> {
    let h = write_handler(handlers, structs, tag, tp);
    match value {
        None => match h {
            Some(HandlerModel::Unlocked(t)) => changes.push((address, (t, 0u128, false))),
            _ => changes,
        },
        Some(v) => match h {
            Some(hm) => match handler_balances(hm, v) {
                Some(found) => changes + at_address(address, found),
                None => changes,
            },
            None => changes,
        },
    }
}

/// Deleting resource `tag` (loaded type `tp`) at `address` made or reused the handler the
/// type calls for; `handled` says the resource is a balance, whose zeroing was recorded.
pub open spec fn delete_post(
    handlers0: Map<Seq<u8>, Option<HandlerModel>>,
    structs: Seq<StructType>,
    tag: StructTagModel,
    tp: Type,
    handlers1: Map<Seq<u8>, Option<HandlerModel>>,
    address: u128,
    changes0: Seq<(u128, BalanceModel)>,
    changes1: Seq<(u128, BalanceModel)>,
    handled: bool,
) -> bool {
    &&& handlers1 == handlers_after_write(handlers0, structs, tag, tp)
    &&& handled == (write_handler(handlers0, structs, tag, tp) matches Some(
        HandlerModel::Unlocked(_),
    ))
    &&& changes1 == changes_after_write(handlers0, structs, address, tag, tp, None, changes0)
}

/// Writing `value` as resource `tag` (loaded type `tp`) at `address` made or reused the handler
/// the type calls for, recorded the balances the value holds, and answered whether the bank
/// alone stores it; a value whose shape does not fit fails with a type error.
pub open spec fn insert_post(
    handlers0: Map<Seq<u8>, Option<HandlerModel>>,
    structs: Seq<StructType>,
    tag: StructTagModel,
    tp: Type,
    value: Value,
    handlers1: Map<Seq<u8>, Option<HandlerModel>>,
    address: u128,
    changes0: Seq<(u128, BalanceModel)>,
    changes1: Seq<(u128, BalanceModel)>,
    r: Result<bool, StatusCode>,
) -> bool {
    &&& handlers1 == handlers_after_write(handlers0, structs, tag, tp)
    &&& changes1 == changes_after_write(handlers0, structs, address, tag, tp, Some(value), changes0)
    &&& r == insert_answer(handlers0, structs, tag, tp, value)
}

/// What the bank answers for a write of `value` as resource `tag`: whether it alone stores the
/// resource, or a type error when the value's shape does not fit the handler.
pub open spec fn insert_answer(
    handlers: Map<Seq<u8>, Option<HandlerModel>>,
    structs: Seq<StructType>,
    tag: StructTagModel,
    tp: Type,
    value: Value,
) -> Result<bool, StatusCode> {
    match write_handler(handlers, structs, tag, tp) {
        None => Ok(false),
        Some(hm) => match handler_balances(hm, value) {
            Some(_) => Ok(hm is Unlocked),
            None => Err(StatusCode::InternalTypeError),
        },
    }
}


/// Once a handler has been made for a type, the next request for that type answers the same
/// handler and leaves the cache as it was.
pub proof fn lemma_handler_memo(
    c0: Map<Seq<u8>, Option<HandlerModel>>,
    key: Seq<u8>,
    computed1: Option<HandlerModel>,
    c1: Map<Seq<u8>, Option<HandlerModel>>,
    h1: Option<HandlerModel>,
    computed2: Option<HandlerModel>,
    c2: Map<Seq<u8>, Option<HandlerModel>>,
    h2: Option<HandlerModel>,
)
    requires
        make_handler_post(c0, key, computed1, c1, h1),
        make_handler_post(c1, key, computed2, c2, h2),
    ensures
        h2 == h1,
        c2 == c1,
{
}

/// Making a handler for any type keeps every handler already cached, so a type's handler
/// survives requests for other types until the cache is cleared.
pub proof fn lemma_handler_kept(
    c0: Map<Seq<u8>, Option<HandlerModel>>,
    other: Seq<u8>,
    computed: Option<HandlerModel>,
    c1: Map<Seq<u8>, Option<HandlerModel>>,
    h: Option<HandlerModel>,
    key: Seq<u8>,
)
    requires
        make_handler_post(c0, other, computed, c1, h),
        c0.contains_key(key),
    ensures
        c1.contains_key(key),
        c1[key] == c0[key],
{
}

/// `256^n`: how many numbers `n` bytes can spell.
pub open spec fn byte_bound(n: nat) -> nat
    decreases n,
{
    if n == 0 {
        1
    } else {
        256 * byte_bound((n - 1) as nat)
    }
}

/// Little-endian bytes of different numbers below `256^n` differ.
pub proof fn lemma_le_bytes_injective(x: nat, y: nat, n: nat)
    requires
        le_bytes(x, n) == le_bytes(y, n),
        x < byte_bound(n),
        y < byte_bound(n),
    ensures
        x == y,
    decreases n,
{
    if n > 0 {
        let n1 = (n - 1) as nat;
        let p = byte_bound(n1);
        let lx = le_bytes(x / 256, n1);
        let ly = le_bytes(y / 256, n1);
        assert(le_bytes(x, n) == seq![(x % 256) as u8] + lx);
        assert(le_bytes(y, n) == seq![(y % 256) as u8] + ly);
        assert((seq![(x % 256) as u8] + lx)[0] == (x % 256) as u8);
        assert((seq![(y % 256) as u8] + ly)[0] == (y % 256) as u8);
        assert(x % 256 == y % 256);
        assert(lx =~= le_bytes(x, n).subrange(1, le_bytes(x, n).len() as int));
        assert(ly =~= le_bytes(y, n).subrange(1, le_bytes(y, n).len() as int));
        assert(x / 256 < p) by (nonlinear_arith)
            requires
                x < 256 * p,
        ;
        assert(y / 256 < p) by (nonlinear_arith)
            requires
                y < 256 * p,
        ;
        lemma_le_bytes_injective(x / 256, y / 256, n1);
        assert(x == 256 * (x / 256) + x % 256);
        assert(y == 256 * (y / 256) + y % 256);
    }
}

/// A balance resource reads as the 16 little-endian bytes of `amount` exactly when the host's
/// ledger holds an account of that amount; it reads as nothing when the ledger holds none.
pub proof fn lemma_balance_blob(fetched: Option<Account>, amount: u128)
    ensures
        balance_blob(fetched) == Some(le_bytes(amount as nat, 16)) <==> (fetched matches Some(a)
            && a.amount == amount),
        balance_blob(fetched) is None <==> fetched is None,
{
    if let Some(a) = fetched {
        if balance_blob(fetched) == Some(le_bytes(amount as nat, 16)) {
            reveal_with_fuel(byte_bound, 17);
            assert(byte_bound(16) == 0x1_0000_0000_0000_0000_0000_0000_0000_0000);
            lemma_le_bytes_injective(a.amount as nat, amount as nat, 16);
        }
    }
}

} // verus!
