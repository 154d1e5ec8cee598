//! The transactional storage session: one read chain over chain context, bank and byte store,
//! and one write path that sends each effect to the sink that owns it.
use crate::bank::{
    bank_resolve_post, changes_after_write, delete_post, handlers_after_write, insert_answer,
    insert_post, is_balance_tag, Account, Balances, Bank, BankSession, HandlerModel,
};
use crate::chain::{context_resolution, ExecutionContext, TxInfo};
use crate::errors::{Location, ResolverResult, StatusCode, VMError};
use crate::event::{Event, EventHandler, EventWriter};
use crate::language::{AccountAddress, ModuleId, StructTag, StructTagModel};
use crate::store::{AccessPath, DataAccess, DataMutator, RawData};
use crate::value::{serialize_value, value_fits, BalanceModel, Value};
use crate::walker::{walk_terminates, Loader, StructType, Type};
use vstd::prelude::*;

verus! {

/// A resolver in the read chain: it either owns a resource and answers for it, or leaves it to
/// the next resolver.
pub trait Resolve {
    fn resolve(&mut self, address: &AccountAddress, tag: &StructTag) -> ResolverResult;
}

impl Resolve for ExecutionContext {
    fn resolve(&mut self, address: &AccountAddress, tag: &StructTag) -> ResolverResult {
        ExecutionContext::resolve(self, address, tag)
    }
}

impl<'a, 't, B: Balances> Resolve for BankSession<'a, 't, B> {
    fn resolve(&mut self, address: &AccountAddress, tag: &StructTag) -> ResolverResult {
        BankSession::resolve(self, address, tag)
    }
}

/// A sink for the events a transaction emits.
pub trait Events<E: EventHandler> {
    fn write_event(&self, event: Event) -> Result<(), VMError>;
}

impl<'a, 't, S: RawData, E: EventHandler, B: Balances> Events<E> for Session<'a, 't, S, E, B> {
    fn write_event(&self, event: Event) -> Result<(), VMError> {
        Session::write_event(self, event)
    }
}

/// The effects of one transaction, in the order the interpreter produced them: resource writes
/// by account (a value to store, or `None` to delete), published modules, emitted events.
pub struct TransactionEffects {
    pub resources: Vec<(AccountAddress, Vec<ResourceWrite>)>,
    pub modules: Vec<(ModuleId, Vec<u8>)>,
    pub events: Vec<Event>,
}

/// One resource effect: its tag, its loaded type, and the new value or `None` for a deletion.
pub type ResourceWrite = (StructTag, Type, Option<Value>);

/// A resource effect the session can apply: its tag can be keyed and, unless it is a balance,
/// its type can be walked.
pub open spec fn write_applicable(structs: Seq<StructType>, w: ResourceWrite) -> bool {
    &&& w.0@.wf()
    &&& is_balance_tag(w.0@) || walk_terminates(structs, w.1, w.0@.type_params)
}

/// Every effect of `e` can be applied.
pub open spec fn effects_applicable(structs: Seq<StructType>, e: TransactionEffects) -> bool {
    &&& forall|i: int, j: int|
        0 <= i < e.resources.len() && 0 <= j < e.resources[i].1.len() ==> write_applicable(
            structs,
            #[trigger] e.resources[i].1[j],
        )
    &&& forall|i: int| 0 <= i < e.modules.len() ==> (#[trigger] e.modules[i]).0@.wf()
}

/// The bank state a run of writes works on: the cached handlers and the recorded changes.
pub type BankState = (Map<Seq<u8>, Option<HandlerModel>>, Seq<(u128, BalanceModel)>);

/// The bank state after one write at `address` from `st`. A write that fails still leaves what
/// it did to the bank: its handler is cached, and a value the byte store refused has had its
/// balances recorded.
pub open spec fn write_step(structs: Seq<StructType>, st: BankState, address: u128, w: ResourceWrite) -> BankState {
    (
        handlers_after_write(st.0, structs, w.0@, w.1),
        changes_after_write(st.0, structs, address, w.0@, w.1, w.2, st.1),
    )
}

/// How a write fails, given the cached handlers before it: storing a value whose shape does not
/// fit its handler is a type error; storing one the byte store must hold but the serializer
/// refuses is an invariant violation; deletions and everything else succeed.
pub open spec fn write_failure(
    handlers: Map<Seq<u8>, Option<HandlerModel>>,
    structs: Seq<StructType>,
    w: ResourceWrite,
) -> Option<StatusCode> {
    match w.2 {
        None => None,
        Some(v) => match insert_answer(handlers, structs, w.0@, w.1, v) {
            Err(s) => Some(s),
            Ok(true) => None,
            Ok(false) => if value_fits(v) {
                None
            } else {
                Some(StatusCode::UnknownInvariantViolationError)
            },
        },
    }
}

/// Applying the writes `ws` at `address` in order from `st`, stopping at the first that fails:
/// the bank state they leave, and that failure, if any.
pub open spec fn writes_run(
    structs: Seq<StructType>,
    st: BankState,
    address: u128,
    ws: Seq<ResourceWrite>,
) -> (BankState, Option<StatusCode>)
    decreases ws.len(),
{
    if ws.len() == 0 {
        (st, None)
    } else {
        let p = writes_run(structs, st, address, ws.drop_last());
        if p.1 is Some {
            p
        } else {
            let w = ws.last();
            (write_step(structs, p.0, address, w), write_failure(p.0.0, structs, w))
        }
    }
}

/// Applying the resource writes of `rs`, account after account, stopping at the first that
/// fails: the bank state they leave, and that failure, if any.
pub open spec fn commit_run(
    structs: Seq<StructType>,
    st: BankState,
    rs: Seq<(AccountAddress, Vec<ResourceWrite>)>,
) -> (BankState, Option<StatusCode>)
    decreases rs.len(),
{
    if rs.len() == 0 {
        (st, None)
    } else {
        let p = commit_run(structs, st, rs.drop_last());
        if p.1 is Some {
            p
        } else {
            writes_run(structs, p.0, rs.last().0.value, rs.last().1@)
        }
    }
}

/// Every event's value can be serialized.
pub open spec fn events_fit(es: Seq<Event>) -> bool {
    forall|i: int| 0 <= i < es.len() ==> value_fits(#[trigger] es[i].3)
}

/// Once a prefix of the writes fails, the run of all of them ends where the prefix did.
proof fn lemma_writes_run_stops(
    structs: Seq<StructType>,
    st: BankState,
    address: u128,
    ws: Seq<ResourceWrite>,
    k: int,
)
    requires
        0 <= k <= ws.len(),
        writes_run(structs, st, address, ws.take(k)).1 is Some,
    ensures
        writes_run(structs, st, address, ws) == writes_run(structs, st, address, ws.take(k)),
    decreases ws.len() - k,
{
    if k < ws.len() {
        assert(ws.take(k + 1).drop_last() =~= ws.take(k));
        lemma_writes_run_stops(structs, st, address, ws, k + 1);
    } else {
        assert(ws.take(k) =~= ws);
    }
}

/// Once a prefix of the accounts' writes fails, the commit's run ends where the prefix did.
proof fn lemma_commit_run_stops(
    structs: Seq<StructType>,
    st: BankState,
    rs: Seq<(AccountAddress, Vec<ResourceWrite>)>,
    k: int,
)
    requires
        0 <= k <= rs.len(),
        commit_run(structs, st, rs.take(k)).1 is Some,
    ensures
        commit_run(structs, st, rs) == commit_run(structs, st, rs.take(k)),
    decreases rs.len() - k,
{
    if k < rs.len() {
        assert(rs.take(k + 1).drop_last() =~= rs.take(k));
        lemma_commit_run_stops(structs, st, rs, k + 1);
    } else {
        assert(rs.take(k) =~= rs);
    }
}

/// No resource is claimed by both the chain context and the bank, so a read's answer comes from
/// exactly one of the chain context, the bank and the byte store.
pub proof fn lemma_resolvers_disjoint(info: Option<TxInfo>, address: u128, tag: StructTagModel)
    ensures
        context_resolution(info, address, tag) is Some ==> !is_balance_tag(tag),
{
    reveal_strlit("Timestamp");
    reveal_strlit("Block");
    reveal_strlit("Account");
    assert("Timestamp"@[0] == 'T' && "Account"@[0] == 'A');
    assert("Block"@[0] == 'B');
    assert("Timestamp"@ != "Account"@);
    assert("Block"@ != "Account"@);
}

/// A read's answer as values.
pub open spec fn read_view(r: Result<Option<Vec<u8>>, VMError>) -> Result<Option<Seq<u8>>, StatusCode> {
    match r {
        Ok(Some(v)) => Ok(Some(v@)),
        Ok(None) => Ok(None),
        Err(e) => Err(e.major_status),
    }
}

/// Where a session stands: open until its effects are committed or a commit fails.
#[derive(Clone, Copy, Debug, PartialEq, Eq, Structural)]
pub enum SessionState {
    Open,
    Committed,
    Failed,
}

/// The view that a running script has of storage during one transaction.
pub struct Session<'a, 't, S: RawData, E: EventHandler, B: Balances> {
    data_access: &'a DataAccess<S>,
    event_writer: &'a EventWriter<E>,
    bank: BankSession<'a, 't, B>,
    context: ExecutionContext,
    state: SessionState,
}

impl<'a, 't, S: RawData, E: EventHandler, B: Balances> Session<'a, 't, S, E, B> {
    pub fn new(
        data_access: &'a DataAccess<S>,
        bank: BankSession<'a, 't, B>,
        event_writer: &'a EventWriter<E>,
        context: ExecutionContext,
    ) -> (r: Session<'a, 't, S, E, B>)
        ensures
            r.info() == context.info(),
            r.accounts() == bank.accounts(),
            r.changes() == bank.changes(),
            r.structs() == bank.structs(),
            r.handlers() == bank.handlers(),
            r.state() == SessionState::Open,
    {
        Session { data_access, event_writer, bank, context, state: SessionState::Open }
    }

    /// Where the session stands.
    pub closed spec fn state(&self) -> SessionState {
        self.state
    }

    /// Ends the session and hands back its bank, whose handler cache holds every handler the
    /// session made.
    pub fn finish(self) -> (r: &'a mut Bank<B>)
        ensures
            r.handlers() == self.handlers(),
    {
        self.bank.finish()
    }

    /// Whether the walk of `tag`'s loaded type `tp` through this session's loader finishes within
    /// `fuel` levels; when it does, the walk terminates, as writing such a resource requires.
    pub fn walk_finishes_within(&self, tag: &StructTag, tp: &Type, fuel: u64) -> (r: bool)
        ensures
            r == (crate::walker::walk(self.structs(), *tp, tag@.type_params, fuel as nat) is Some),
            r ==> walk_terminates(self.structs(), *tp, tag@.type_params),
    {
        self.bank.walk_finishes_within(tag, tp, fuel)
    }

    /// Whether the session is still open.
    pub fn is_open(&self) -> (r: bool)
        ensures
            r == (self.state() == SessionState::Open),
    {
        self.state == SessionState::Open
    }

    /// The transaction information of the session.
    pub closed spec fn info(&self) -> Option<TxInfo> {
        self.context.info()
    }

    /// The bank accounts the session has read.
    pub closed spec fn accounts(&self) -> Map<(u128, Seq<char>), Account> {
        self.bank.accounts()
    }

    /// The balance changes the session's writes called for.
    pub closed spec fn changes(&self) -> Seq<(u128, BalanceModel)> {
        self.bank.changes()
    }

    /// The loaded struct definitions.
    pub closed spec fn structs(&self) -> Seq<StructType> {
        self.bank.structs()
    }

    /// The bank's cached handlers.
    pub closed spec fn handlers(&self) -> Map<Seq<u8>, Option<HandlerModel>> {
        self.bank.handlers()
    }

    /// The bank side of the session.
    pub fn bank_session(&self) -> (r: &BankSession<'a, 't, B>)
        ensures
            r.changes() == self.changes(),
            r.accounts() == self.accounts(),
    {
        &self.bank
    }

    /// The published binary of `module_id`, straight from the byte store.
    pub fn get_module(&self, module_id: &ModuleId) -> (r: Result<Option<Vec<u8>>, VMError>)
        requires
            module_id@.wf(),
        ensures
            r is Ok,
    {
        Ok(self.data_access.get_module(module_id))
    }

    /// The blob of resource `tag` at `address`, from the first resolver that owns it: the chain
    /// context, then the bank, then the byte store.
    pub fn get_resource(&mut self, address: &AccountAddress, tag: &StructTag) -> (r: Result<
        Option<Vec<u8>>,
        VMError,
    >)
        requires
            tag@.wf(),
        ensures
            match context_resolution(old(self).info(), address.value, tag@) {
                Some(answer) => read_view(r) == answer && final(self).accounts() == old(
                    self,
                ).accounts(),
                None => if is_balance_tag(tag@) {
                    bank_resolve_post(
                        old(self).accounts(),
                        address.value,
                        tag@,
                        Some(read_view(r)),
                        final(self).accounts(),
                    )
                } else {
                    r is Ok && final(self).accounts() == old(self).accounts()
                },
            },
            final(self).info() == old(self).info(),
            final(self).changes() == old(self).changes(),
            final(self).structs() == old(self).structs(),
            final(self).handlers() == old(self).handlers(),
    {
        if let ResolverResult::Resolved(result) = self.context.resolve(address, tag) {
            return result;
        }
        if let ResolverResult::Resolved(result) = self.bank.resolve(address, tag) {
            return result;
        }
        Ok(self.data_access.get_resource(address, tag))
    }

    /// Applies the deletion of resource `tag` at `address`: a balance is zeroed in the bank,
    /// anything else is removed from the byte store.
    pub fn delete_resource(&mut self, address: AccountAddress, tag: StructTag, tp: Type) -> (r:
        Result<(), VMError>)
        requires
            tag@.wf(),
            is_balance_tag(tag@) || walk_terminates(old(self).structs(), tp, tag@.type_params),
        ensures
            r is Ok,
            final(self).handlers() == handlers_after_write(
                old(self).handlers(),
                old(self).structs(),
                tag@,
                tp,
            ),
            final(self).changes() == changes_after_write(
                old(self).handlers(),
                old(self).structs(),
                address.value,
                tag@,
                tp,
                None,
                old(self).changes(),
            ),
            final(self).info() == old(self).info(),
            final(self).accounts() == old(self).accounts(),
            final(self).structs() == old(self).structs(),
    {
        let res = self.bank.handle_delete_balance(&address, &tag, &tp);
        match res {
            Ok(handled) => {
                assert(delete_post(
                    old(self).handlers(),
                    old(self).structs(),
                    tag@,
                    tp,
                    self.handlers(),
                    address.value,
                    old(self).changes(),
                    self.changes(),
                    handled,
                ));
                if !handled {
                    self.data_access.delete(AccessPath::resource_access_path(address, &tag));
                }
                Ok(())
            },
            Err(e) => Err(e),
        }
    }

    /// Applies the write of `value` as resource `tag` at `address`: the bank records the
    /// balances it holds; anything but a plain balance is also serialized into the byte store.
    pub fn insert_resource(
        &mut self,
        address: AccountAddress,
        tag: StructTag,
        tp: Type,
        value: Value,
    ) -> (r: Result<(), VMError>)
        requires
            tag@.wf(),
            is_balance_tag(tag@) || walk_terminates(old(self).structs(), tp, tag@.type_params),
        ensures
            final(self).handlers() == handlers_after_write(
                old(self).handlers(),
                old(self).structs(),
                tag@,
                tp,
            ),
            final(self).changes() == changes_after_write(
                old(self).handlers(),
                old(self).structs(),
                address.value,
                tag@,
                tp,
                Some(value),
                old(self).changes(),
            ),
            match write_failure(old(self).handlers(), old(self).structs(), (tag, tp, Some(value))) {
                None => r is Ok,
                Some(s) => r matches Err(e) && e.major_status == s,
            },
            r matches Err(e) ==> e.location == Location::Undefined,
            final(self).info() == old(self).info(),
            final(self).accounts() == old(self).accounts(),
            final(self).structs() == old(self).structs(),
    {
        let handled = self.bank.handle_insert_balance(&address, &tag, &tp, &value);
        let ghost bank_r = match &handled {
            Ok(b) => Ok::<bool, StatusCode>(*b),
            Err(e) => Err::<bool, StatusCode>(e.major_status),
        };
        assert(insert_post(
            old(self).handlers(),
            old(self).structs(),
            tag@,
            tp,
            value,
            self.handlers(),
            address.value,
            old(self).changes(),
            self.changes(),
            bank_r,
        ));
        match handled {
            Ok(true) => Ok(()),
            Ok(false) => {
                let path = AccessPath::resource_access_path(address, &tag);
                match serialize_value(&value) {
                    Some(blob) => {
                        self.data_access.insert(path, blob);
                        Ok(())
                    },
                    None => Err(VMError::new(StatusCode::UnknownInvariantViolationError)),
                }
            },
            Err(e) => Err(e),
        }
    }

    /// Applies a transaction's effects in order: every resource write, then every module, then
    /// every event. The first error stops the commit and is returned as it came; when none
    /// comes, the bank holds what every write in turn called for.
    pub fn handle_tx_effects(&mut self, tx_effects: TransactionEffects) -> (r: Result<(), VMError>)
        requires
            old(self).state() == SessionState::Open,
            effects_applicable(old(self).structs(), tx_effects),
        ensures
            final(self).state() == if r is Ok {
                SessionState::Committed
            } else {
                SessionState::Failed
            },
            ({
                let run = commit_run(
                    old(self).structs(),
                    (old(self).handlers(), old(self).changes()),
                    tx_effects.resources@,
                );
                &&& (final(self).handlers(), final(self).changes()) == run.0
                &&& match run.1 {
                    Some(s) => r matches Err(e) && e.major_status == s,
                    None => {
                        &&& (r is Ok <==> events_fit(tx_effects.events@))
                        &&& (r matches Err(e) ==> e.major_status
                            == StatusCode::UnknownInvariantViolationError)
                    },
                }
            }),
            r matches Err(e) ==> e.location == Location::Undefined,
            final(self).info() == old(self).info(),
            final(self).structs() == old(self).structs(),
            final(self).accounts() == old(self).accounts(),
    {
        let TransactionEffects { resources, modules, events } = tx_effects;
        let ghost structs = self.structs();
        let ghost st0 = (self.handlers(), self.changes());
        let ghost orig = resources@;
        let ghost eorig = events@;
        let ghost mut done: int = 0;
        let mut resources = resources;
        while resources.len() > 0
            invariant
                structs == self.structs(),
                structs == old(self).structs(),
                self.info() == old(self).info(),
                self.accounts() == old(self).accounts(),
                orig == tx_effects.resources@,
                eorig == tx_effects.events@,
                st0 == (old(self).handlers(), old(self).changes()),
                0 <= done <= orig.len(),
                resources@ == orig.subrange(done, orig.len() as int),
                commit_run(structs, st0, orig.take(done)) == ((self.handlers(), self.changes()), None::<StatusCode>),
                forall|i: int, j: int|
                    0 <= i < resources.len() && 0 <= j < resources[i].1.len() ==> write_applicable(
                        structs,
                        #[trigger] resources[i].1[j],
                    ),
            decreases resources.len(),
        {
            let ghost before = resources@;
            let (addr, vals) = resources.remove(0);
            proof {
                assert(before[0] == orig[done]);
                assert(orig[done].0 == addr && orig[done].1@ == vals@);
                assert forall|i: int, j: int|
                    0 <= i < resources.len() && 0 <= j < resources[i].1.len() implies write_applicable(
                    structs,
                    #[trigger] resources[i].1[j],
                ) by {
                    assert(resources@[i] == before[i + 1]);
                }
                assert forall|j: int| 0 <= j < vals.len() implies write_applicable(
                    structs,
                    #[trigger] vals[j],
                ) by {
                    assert(before[0] == (addr, vals));
                }
                assert(orig.take(done + 1).drop_last() =~= orig.take(done));
                assert(orig.take(done + 1).last() == orig[done]);
            }
            let ghost start = (self.handlers(), self.changes());
            let ghost vorig = vals@;
            let ghost mut vdone: int = 0;
            let mut vals = vals;
            while vals.len() > 0
                invariant
                    structs == self.structs(),
                    structs == old(self).structs(),
                    self.info() == old(self).info(),
                    self.accounts() == old(self).accounts(),
                    orig == tx_effects.resources@,
                    eorig == tx_effects.events@,
                    st0 == (old(self).handlers(), old(self).changes()),
                    0 <= done < orig.len(),
                    orig[done].0 == addr,
                    orig[done].1@ == vorig,
                    commit_run(structs, st0, orig.take(done)) == (start, None::<StatusCode>),
                    commit_run(structs, st0, orig.take(done + 1)) == writes_run(
                        structs,
                        start,
                        addr.value,
                        vorig,
                    ),
                    0 <= vdone <= vorig.len(),
                    vals@ == vorig.subrange(vdone, vorig.len() as int),
                    writes_run(structs, start, addr.value, vorig.take(vdone)) == (
                        (self.handlers(), self.changes()),
                        None::<StatusCode>,
                    ),
                    forall|j: int| 0 <= j < vals.len() ==> write_applicable(structs, #[trigger] vals[j]),
                decreases vals.len(),
            {
                let ghost vbefore = vals@;
                let ghost cur = (self.handlers(), self.changes());
                let (struct_tag, tp, val_opt) = vals.remove(0);
                let ghost w = vorig[vdone];
                proof {
                    assert(vbefore[0] == w);
                    assert(write_applicable(structs, vbefore[0]));
                    assert forall|j: int| 0 <= j < vals.len() implies write_applicable(
                        structs,
                        #[trigger] vals[j],
                    ) by {
                        assert(vals@[j] == vbefore[j + 1]);
                    }
                    assert(vorig.take(vdone + 1).drop_last() =~= vorig.take(vdone));
                    assert(vorig.take(vdone + 1).last() == w);
                }
                let applied = match val_opt {
                    None => self.delete_resource(addr, struct_tag, tp),
                    Some(val) => self.insert_resource(addr, struct_tag, tp, val),
                };
                proof {
                    assert((self.handlers(), self.changes()) == write_step(structs, cur, addr.value, w));
                }
                if let Err(e) = applied {
                    proof {
                        assert(write_failure(cur.0, structs, w) == Some(e.major_status));
                        assert(writes_run(structs, start, addr.value, vorig.take(vdone + 1)) == (
                            (self.handlers(), self.changes()),
                            Some(e.major_status),
                        ));
                        lemma_writes_run_stops(structs, start, addr.value, vorig, vdone + 1);
                        lemma_commit_run_stops(structs, st0, orig, done + 1);
                    }
                    self.state = SessionState::Failed;
                    return Err(e);
                }
                proof {
                    assert(write_failure(cur.0, structs, w) is None);
                    vdone = vdone + 1;
                    assert(vals@ =~= vorig.subrange(vdone, vorig.len() as int));
                }
            }
            proof {
                assert(vorig.take(vdone) =~= vorig);
                done = done + 1;
                assert(resources@ =~= orig.subrange(done, orig.len() as int));
            }
        }
        proof {
            assert(orig.take(done) =~= orig);
        }
        let ghost committed = (self.handlers(), self.changes());
        let mut modules = modules;
        while modules.len() > 0
            invariant
                structs == self.structs(),
                structs == old(self).structs(),
                self.info() == old(self).info(),
                self.accounts() == old(self).accounts(),
                (self.handlers(), self.changes()) == committed,
                orig == tx_effects.resources@,
                st0 == (old(self).handlers(), old(self).changes()),
                commit_run(structs, st0, orig) == (committed, None::<StatusCode>),
                eorig == tx_effects.events@,
                forall|i: int| 0 <= i < modules.len() ==> (#[trigger] modules[i]).0@.wf(),
            decreases modules.len(),
        {
            let ghost mbefore = modules@;
            let (module_id, blob) = modules.remove(0);
            proof {
                assert(mbefore[0].0@.wf());
                assert forall|i: int| 0 <= i < modules.len() implies (#[trigger] modules[i]).0@.wf() by {
                    assert(modules@[i] == mbefore[i + 1]);
                }
            }
            self.publish_module(module_id, blob);
        }
        let ghost mut edone: int = 0;
        let mut events = events;
        while events.len() > 0
            invariant
                structs == self.structs(),
                structs == old(self).structs(),
                self.info() == old(self).info(),
                self.accounts() == old(self).accounts(),
                (self.handlers(), self.changes()) == committed,
                orig == tx_effects.resources@,
                st0 == (old(self).handlers(), old(self).changes()),
                commit_run(structs, st0, orig) == (committed, None::<StatusCode>),
                eorig == tx_effects.events@,
                0 <= edone <= eorig.len(),
                events@ == eorig.subrange(edone, eorig.len() as int),
                forall|i: int| 0 <= i < edone ==> value_fits(#[trigger] eorig[i].3),
            decreases events.len(),
        {
            let ghost ebefore = events@;
            let event = events.remove(0);
            proof {
                assert(ebefore[0] == eorig[edone]);
            }
            if let Err(e) = self.write_event(event) {
                proof {
                    assert(!value_fits(eorig[edone].3));
                }
                self.state = SessionState::Failed;
                return Err(e);
            }
            proof {
                edone = edone + 1;
                assert(events@ =~= eorig.subrange(edone, eorig.len() as int));
            }
        }
        self.state = SessionState::Committed;
        Ok(())
    }

    /// Publishes the binary `blob` of module `id` to the byte store.
    pub fn publish_module(&self, id: ModuleId, blob: Vec<u8>)
        requires
            id@.wf(),
    {
        self.data_access.insert(AccessPath::code_access_path(&id), blob);
    }

    /// Hands an emitted event to the host.
    pub fn write_event(&self, event: Event) -> (r: Result<(), VMError>)
        ensures
            r is Ok <==> value_fits(event.3),
            r matches Err(e) ==> e.major_status == StatusCode::UnknownInvariantViolationError
                && e.location == Location::Undefined,
    {
        self.event_writer.write_event(event)
    }
}

/// The host's three capabilities, bundled: byte store, event handler and bank.
pub struct NodeApi<S: RawData, E: EventHandler, B: Balances> {
    data_access: DataAccess<S>,
    event_writer: EventWriter<E>,
    bank: Bank<B>,
}

impl<S: RawData, E: EventHandler, B: Balances> NodeApi<S, E, B> {
    pub fn new(raw_data: S, event_handler: E, balances: B) -> (r: NodeApi<S, E, B>)
        ensures
            r.handlers() == Map::<Seq<u8>, Option<HandlerModel>>::empty(),
    {
        NodeApi {
            data_access: DataAccess::new(raw_data),
            event_writer: EventWriter::new(event_handler),
            bank: Bank::new(balances),
        }
    }

    /// The bank's cached handlers.
    pub closed spec fn handlers(&self) -> Map<Seq<u8>, Option<HandlerModel>> {
        self.bank.handlers()
    }

    /// Opens a session for one transaction, reading types through `loader`.
    pub fn new_session<'a, 't>(&'a mut self, loader: &'t Loader, tx_info: Option<TxInfo>) -> (r:
        Session<'a, 't, S, E, B>)
        ensures
            r.info() == tx_info,
            r.accounts() == Map::<(u128, Seq<char>), Account>::empty(),
            r.changes() == Seq::<(u128, BalanceModel)>::empty(),
            r.structs() == loader.structs(),
            r.handlers() == old(self).handlers(),
            r.state() == SessionState::Open,
    {
        Session::new(
            &self.data_access,
            self.bank.new_session(loader),
            &self.event_writer,
            ExecutionContext::new(tx_info),
        )
    }

    /// Forgets the bank's cached handlers.
    pub fn clear(&mut self)
        ensures
            final(self).handlers() == Map::<Seq<u8>, Option<HandlerModel>>::empty(),
    {
        self.bank.clear();
    }
}

} // verus!
