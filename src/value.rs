//! Runtime values and the extraction of balances from them along field paths.
use crate::bank::{BalanceHandler, HandlerModel};
use crate::errors::{Location, StatusCode, VMError};
use crate::language::{AccountAddress, MAX_SEQUENCE_LENGTH};
use move_core_types::account_address::AccountAddress as CoreAddress;
use move_core_types::value::{MoveStruct, MoveValue};
use vstd::prelude::*;

verus! {

broadcast use vstd::std_specs::vec::axiom_vec_index_decreases;

/// A value as the interpreter holds it.
#[derive(Debug, PartialEq, Eq)]
pub enum Value {
    U8(u8),
    U64(u64),
    U128(u128),
    Bool(bool),
    Address(AccountAddress),
    Signer(AccountAddress),
    Vector(Vec<Value>),
    Struct(Vec<Value>),
}

/// A value that is not a container: vectors of these are packed and hold no balance.
pub open spec fn is_primitive(v: Value) -> bool {
    !(v is Vector || v is Struct)
}

/// The `u128` amounts found by following `path[at..]` into `v`; a vector of containers is
/// followed into each of its elements with the same remaining path. `None` where the value's
/// shape does not fit, a vector of primitives included.
pub open spec fn load(path: Seq<usize>, at: nat, v: Value) -> Option<Seq<u128>>
    decreases v, 0nat,
{
    match v {
        Value::U128(x) => if at >= path.len() {
            Some(seq![x])
        } else {
            None
        },
        Value::Struct(fs) => if at >= path.len() || path[at as int] >= fs.len() {
            None
        } else {
            load(path, at + 1, fs[path[at as int] as int])
        },
        Value::Vector(es) => if es.len() > 0 && is_primitive(es[0]) {
            None
        } else {
            load_all(path, at, es, es.len() as nat)
        },
        _ => None,
    }
}

/// The amounts found in the first `n` elements of `es`, in order.
pub open spec fn load_all(path: Seq<usize>, at: nat, es: Vec<Value>, n: nat) -> Option<Seq<u128>>
    decreases es, n,
{
    if n == 0 || n > es.len() {
        Some(Seq::empty())
    } else {
        match (load_all(path, at, es, (n - 1) as nat), load(path, at, es[n - 1])) {
            (Some(a), Some(b)) => Some(a + b),
            _ => None,
        }
    }
}

#[verifier::external_type_specification]
#[verifier::external_body]
pub struct ExMoveValue(MoveValue);

/// The canonical serialization of a value: the bytes a resource or event is stored as.
pub uninterp spec fn serialized_value(v: Value) -> Seq<u8>;

/// Builds move_core_types' `MoveValue` from ours, one variant for one.
#[verifier::external_body]
fn core_value(v: &Value) -> MoveValue {
    match v {
        Value::U8(x) => MoveValue::U8(*x),
        Value::U64(x) => MoveValue::U64(*x),
        Value::U128(x) => MoveValue::U128(*x),
        Value::Bool(x) => MoveValue::Bool(*x),
        Value::Address(a) => MoveValue::Address(CoreAddress::new(a.value.to_be_bytes())),
        Value::Signer(a) => MoveValue::Signer(CoreAddress::new(a.value.to_be_bytes())),
        Value::Vector(es) => MoveValue::Vector(es.iter().map(core_value).collect()),
        Value::Struct(fs) => MoveValue::Struct(MoveStruct::new(fs.iter().map(core_value).collect())),
    }
}

/// Every vector in the value is short enough for the canonical serializer.
pub open spec fn value_fits(v: Value) -> bool
    decreases v, 0nat,
{
    match v {
        Value::Vector(es) => es.len() <= MAX_SEQUENCE_LENGTH && values_fit(es, es.len() as nat),
        Value::Struct(fs) => values_fit(fs, fs.len() as nat),
        _ => true,
    }
}

/// The first `n` values of `es` fit the canonical serializer.
pub open spec fn values_fit(es: Vec<Value>, n: nat) -> bool
    decreases es, n,
{
    if n == 0 || n > es.len() {
        true
    } else {
        values_fit(es, (n - 1) as nat) && value_fits(es[n - 1])
    }
}

/// Relies on move_core_types' `MoveValue::simple_serialize`: the value's canonical
/// serialization, a function of the value alone. The serializer refuses only a sequence longer
/// than it accepts; structs go out as tuples, which carry no length.
#[verifier::external_body]
pub(crate) fn serialize_value(v: &Value) -> (r: Option<Vec<u8>>)
    ensures
        r is Some <==> value_fits(*v),
        r matches Some(b) ==> b@ == serialized_value(*v),
{
    core_value(v).simple_serialize()
}

/// An amount of one currency found in a resource.
#[derive(Debug, PartialEq, Eq)]
pub struct Balance {
    pub ticker: String,
    pub balance: u128,
    pub locked: bool,
}

/// The model of a [`Balance`]: ticker, amount and whether it is locked.
pub type BalanceModel = (Seq<char>, u128, bool);

/// The models of a list of balances.
pub open spec fn balances_view(v: Seq<Balance>) -> Seq<BalanceModel> {
    v.map_values(|b: Balance| (b.ticker@, b.balance, b.locked))
}

/// Each amount of `amounts` as a balance of `ticker`.
pub open spec fn tag_amounts(ticker: Seq<char>, amounts: Seq<u128>, locked: bool) -> Seq<
    BalanceModel,
> {
    amounts.map_values(|a: u128| (ticker, a, locked))
}

/// The balances that the first `n` paths find in `v`, path after path, all locked.
pub open spec fn locked_balances(paths: Seq<(Seq<char>, Seq<usize>)>, v: Value, n: nat) -> Option<
    Seq<BalanceModel>,
>
    decreases n,
{
    if n == 0 || n > paths.len() {
        Some(Seq::empty())
    } else {
        match (locked_balances(paths, v, (n - 1) as nat), load(paths[n - 1].1, 0, v)) {
            (Some(a), Some(b)) => Some(a + tag_amounts(paths[n - 1].0, b, true)),
            _ => None,
        }
    }
}

/// What a handler finds in a value: for a balance, the amount at field path `[0, 0]`; for
/// collateral, the amounts along each of its paths, locked. `None` on a shape mismatch.
pub open spec fn handler_balances(h: HandlerModel, v: Value) -> Option<Seq<BalanceModel>> {
    match h {
        HandlerModel::Unlocked(t) => match load(seq![0usize, 0usize], 0, v) {
            Some(b) => Some(tag_amounts(t, b, false)),
            None => None,
        },
        HandlerModel::Locked(paths) => locked_balances(paths, v, paths.len() as nat),
    }
}

/// Whether `v` is not a container.
fn primitive(v: &Value) -> (r: bool)
    ensures
        r == is_primitive(*v),
{
    match v {
        Value::Vector(_) => false,
        Value::Struct(_) => false,
        _ => true,
    }
}

/// The error for a value whose shape does not fit.
fn type_err() -> (r: VMError)
    ensures
        r.major_status == StatusCode::InternalTypeError,
        r.location == Location::Undefined,
{
    VMError::new(StatusCode::InternalTypeError)
}

/// Follows `path[at..]` into `v` and returns the amounts found.
pub fn load_value(path: &Vec<usize>, at: usize, v: &Value) -> (r: Result<Vec<u128>, VMError>)
    ensures
        match r {
            Ok(x) => load(path@, at as nat, *v) == Some(x@),
            Err(e) => load(path@, at as nat, *v) is None && e.major_status
                == StatusCode::InternalTypeError && e.location == Location::Undefined,
        },
    decreases v,
{
    match v {
        Value::U128(x) => {
            if at >= path.len() {
                let mut out: Vec<u128> = Vec::new();
                out.push(*x);
                proof {
                    assert(out@ =~= seq![*x]);
                }
                Ok(out)
            } else {
                Err(type_err())
            }
        },
        Value::Struct(fs) => {
            if at >= path.len() || path[at] >= fs.len() {
                Err(type_err())
            } else {
                proof {
                    assert(decreases_to!(fs => fs[path@[at as int] as int]));
                    assert(decreases_to!(*v => (*v)->Struct_0));
                }
                load_value(path, at + 1, &fs[path[at]])
            }
        },
        Value::Vector(es) => {
            if es.len() > 0 && primitive(&es[0]) {
                return Err(type_err());
            }
            let mut out: Vec<u128> = Vec::new();
            let mut i: usize = 0;
            while i < es.len()
                invariant
                    i <= es.len(),
                    *v == Value::Vector(*es),
                    load_all(path@, at as nat, *es, i as nat) == Some(out@),
                decreases es.len() - i,
            {
                proof {
                    assert(decreases_to!(*es => es[i as int]));
                    assert(decreases_to!(*v => (*v)->Vector_0));
                }
                match load_value(path, at, &es[i]) {
                    Ok(found) => {
                        let ghost before = out@;
                        append_amounts(&mut out, &found);
                        proof {
                            assert(load_all(path@, at as nat, *es, (i + 1) as nat) == Some(
                                before + found@,
                            ));
                        }
                    },
                    Err(e) => {
                        proof {
                            lemma_load_all_none(path@, at as nat, *es, (i + 1) as nat, es.len() as nat);
                        }
                        return Err(e);
                    },
                }
                i = i + 1;
            }
            Ok(out)
        },
        _ => Err(type_err()),
    }
}

/// Once a prefix of the elements has a shape mismatch, every longer prefix has one.
proof fn lemma_load_all_none(path: Seq<usize>, at: nat, es: Vec<Value>, k: nat, n: nat)
    requires
        1 <= k <= n <= es.len(),
        load_all(path, at, es, k) is None,
    ensures
        load_all(path, at, es, n) is None,
    decreases n - k,
{
    if k < n {
        lemma_load_all_none(path, at, es, k, (n - 1) as nat);
    }
}

/// Once a prefix of the paths has a shape mismatch, every longer prefix has one.
proof fn lemma_locked_none(paths: Seq<(Seq<char>, Seq<usize>)>, v: Value, k: nat, n: nat)
    requires
        1 <= k <= n <= paths.len(),
        locked_balances(paths, v, k) is None,
    ensures
        locked_balances(paths, v, n) is None,
    decreases n - k,
{
    if k < n {
        lemma_locked_none(paths, v, k, (n - 1) as nat);
    }
}

/// Appends `extra` to `out`.
fn append_amounts(out: &mut Vec<u128>, extra: &Vec<u128>)
    ensures
        final(out)@ == old(out)@ + extra@,
{
    let ghost start = out@;
    let mut i: usize = 0;
    while i < extra.len()
        invariant
            i <= extra.len(),
            out@ == start + extra@.take(i as int),
        decreases extra.len() - i,
    {
        out.push(extra[i]);
        proof {
            assert(extra@.take(i + 1) =~= extra@.take(i as int).push(extra@[i as int]));
            assert(start + extra@.take(i + 1) =~= (start + extra@.take(i as int)).push(
                extra@[i as int],
            ));
        }
        i = i + 1;
    }
    assert(extra@.take(extra.len() as int) =~= extra@);
}

/// Appends each amount of `amounts` to `out` as a balance of `ticker`.
fn push_balances(out: &mut Vec<Balance>, ticker: &String, amounts: &Vec<u128>, locked: bool)
    ensures
        balances_view(final(out)@) == balances_view(old(out)@) + tag_amounts(
            ticker@,
            amounts@,
            locked,
        ),
{
    let ghost start = balances_view(out@);
    let mut i: usize = 0;
    while i < amounts.len()
        invariant
            i <= amounts.len(),
            balances_view(out@) == start + tag_amounts(ticker@, amounts@.take(i as int), locked),
        decreases amounts.len() - i,
    {
        let ghost before = out@;
        out.push(Balance { ticker: ticker.clone(), balance: amounts[i], locked });
        proof {
            assert(balances_view(out@) =~= balances_view(before).push((ticker@, amounts@[i as int], locked)));
            assert(tag_amounts(ticker@, amounts@.take(i + 1), locked) =~= tag_amounts(
                ticker@,
                amounts@.take(i as int),
                locked,
            ).push((ticker@, amounts@[i as int], locked)));
        }
        i = i + 1;
    }
    assert(amounts@.take(amounts.len() as int) =~= amounts@);
}

impl BalanceHandler {
    /// The balances this handler finds in `val`.
    pub fn resolve_balance(&self, val: &Value) -> (r: Result<Vec<Balance>, VMError>)
        ensures
            match r {
                Ok(b) => handler_balances(self@, *val) == Some(balances_view(b@)),
                Err(e) => handler_balances(self@, *val) is None && e.major_status
                    == StatusCode::InternalTypeError && e.location == Location::Undefined,
            },
    {
        match self {
            BalanceHandler::Locked(tickers) => {
                let ghost paths = self@->Locked_0;
                let mut balances: Vec<Balance> = Vec::new();
                let mut i: usize = 0;
                while i < tickers.len()
                    invariant
                        i <= tickers.len(),
                        *self == BalanceHandler::Locked(*tickers),
                        paths == crate::walker::paths_view(tickers@),
                        locked_balances(paths, *val, i as nat) == Some(balances_view(balances@)),
                    decreases tickers.len() - i,
                {
                    match load_value(&tickers[i].1, 0, val) {
                        Ok(found) => {
                            let ghost before = balances_view(balances@);
                            push_balances(&mut balances, &tickers[i].0, &found, true);
                            proof {
                                assert(locked_balances(paths, *val, (i + 1) as nat) == Some(
                                    before + tag_amounts(tickers@[i as int].0@, found@, true),
                                ));
                            }
                        },
                        Err(e) => {
                            proof {
                                lemma_locked_none(paths, *val, (i + 1) as nat, paths.len() as nat);
                            }
                            return Err(e);
                        },
                    }
                    i = i + 1;
                }
                Ok(balances)
            },
            BalanceHandler::Unlocked(ticker) => {
                let mut path: Vec<usize> = Vec::new();
                path.push(0);
                path.push(0);
                proof {
                    assert(path@ =~= seq![0usize, 0usize]);
                }
                match load_value(&path, 0, val) {
                    Ok(found) => {
                        let mut balances: Vec<Balance> = Vec::new();
                        push_balances(&mut balances, ticker, &found, false);
                        proof {
                            assert(balances_view(Seq::<Balance>::empty()) =~= Seq::<BalanceModel>::empty());
                            assert(Seq::<BalanceModel>::empty() + tag_amounts(ticker@, found@, false)
                                =~= tag_amounts(ticker@, found@, false));
                        }
                        Ok(balances)
                    },
                    Err(e) => Err(e),
                }
            },
        }
    }
}

} // verus!
