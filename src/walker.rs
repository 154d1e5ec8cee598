//! Loaded types and the walker that finds the balances a type contains.
use crate::language::{
    core_address, lemma_params_model, params_view, str_eq, AccountAddress, StructTag,
    StructTagModel, TypeTag, TypeTagModel,
};
use crate::bank::{
    balance_ticker, handler_view, is_balance, is_balance_tag, ticker_of_balance, BalanceHandler,
    HandlerModel,
};
use crate::errors::VMError;
use vstd::prelude::*;

verus! {

broadcast use vstd::std_specs::vec::axiom_vec_index_decreases;

/// A type as the interpreter's loader holds it: structs are indices into the loader's table,
/// and `TyParam(i)` stands for the i-th type argument of the enclosing instantiation.
#[derive(Debug, PartialEq, Eq)]
pub enum Type {
    Bool,
    U8,
    U64,
    U128,
    Address,
    Signer,
    Vector(Box<Type>),
    Struct(usize),
    StructInstantiation(usize, Vec<Type>),
    Reference(Box<Type>),
    MutableReference(Box<Type>),
    TyParam(usize),
}

/// A loaded struct definition: where it was declared and the types of its fields.
#[derive(Debug, PartialEq, Eq)]
pub struct StructType {
    pub address: AccountAddress,
    pub module: String,
    pub name: String,
    pub fields: Vec<Type>,
}

/// The loader's table of struct definitions, indexed as `Type::Struct` refers to them.
pub struct Loader {
    structs: Vec<StructType>,
}

/// A ticker and the field path from the root of a type to a balance of that ticker.
pub type BalancePath = (String, Vec<usize>);

/// The model of a [`BalancePath`] list.
pub open spec fn paths_view(v: Seq<BalancePath>) -> Seq<(Seq<char>, Seq<usize>)> {
    v.map_values(|p: BalancePath| (p.0@, p.1@))
}

/// The canonical coin struct `0x1::Dfinance::T`.
pub open spec fn is_coin_struct(st: StructType) -> bool {
    &&& st.address.value == core_address()
    &&& st.module@ == "Dfinance"@
    &&& st.name@ == "T"@
}

/// Whether `tp` is the canonical coin struct.
pub fn is_coin(tp: &StructType) -> (r: bool)
    ensures
        r == is_coin_struct(*tp),
{
    tp.address.value == 1 && str_eq(&tp.module, "Dfinance") && str_eq(&tp.name, "T")
}

/// The first definition in `structs[0..n]` declared at `tag`'s address, module and name.
pub open spec fn find_struct(structs: Seq<StructType>, tag: StructTagModel, n: nat) -> Option<
    usize,
>
    decreases n,
{
    if n == 0 || n > structs.len() {
        None
    } else {
        match find_struct(structs, tag, (n - 1) as nat) {
            Some(i) => Some(i),
            None => {
                let st = structs[n - 1];
                if st.address.value == tag.address && st.module@ == tag.module && st.name@
                    == tag.name {
                    Some((n - 1) as usize)
                } else {
                    None
                }
            },
        }
    }
}

/// The tag of a loaded type; `None` for type parameters, references and unknown structs.
pub open spec fn type_to_tag(structs: Seq<StructType>, t: Type) -> Option<TypeTagModel>
    decreases t, 0nat,
{
    match t {
        Type::Bool => Some(TypeTagModel::Bool),
        Type::U8 => Some(TypeTagModel::U8),
        Type::U64 => Some(TypeTagModel::U64),
        Type::U128 => Some(TypeTagModel::U128),
        Type::Address => Some(TypeTagModel::Address),
        Type::Signer => Some(TypeTagModel::Signer),
        Type::Vector(b) => match type_to_tag(structs, *b) {
            Some(inner) => Some(TypeTagModel::Vector(Box::new(inner))),
            None => None,
        },
        Type::Struct(i) => if i < structs.len() {
            Some(
                TypeTagModel::Struct(
                    StructTagModel {
                        address: structs[i as int].address.value,
                        module: structs[i as int].module@,
                        name: structs[i as int].name@,
                        type_params: Seq::empty(),
                    },
                ),
            )
        } else {
            None
        },
        Type::StructInstantiation(i, ps) => if i < structs.len() {
            match types_to_tags(structs, ps, ps.len() as nat) {
                Some(tags) => Some(
                    TypeTagModel::Struct(
                        StructTagModel {
                            address: structs[i as int].address.value,
                            module: structs[i as int].module@,
                            name: structs[i as int].name@,
                            type_params: tags,
                        },
                    ),
                ),
                None => None,
            }
        } else {
            None
        },
        _ => None,
    }
}

/// Tags of the first `n` types of `ps`, if each has one.
pub open spec fn types_to_tags(structs: Seq<StructType>, ps: Vec<Type>, n: nat) -> Option<
    Seq<TypeTagModel>,
>
    decreases ps, n,
{
    if n == 0 || n > ps.len() {
        Some(Seq::empty())
    } else {
        match (types_to_tags(structs, ps, (n - 1) as nat), type_to_tag(structs, ps[n - 1])) {
            (Some(a), Some(b)) => Some(a.push(b)),
            _ => None,
        }
    }
}

/// The tag of struct `idx` instantiated with `params`, if every parameter has a tag.
pub open spec fn instantiation_tag(structs: Seq<StructType>, idx: usize, params: Vec<Type>) -> Option<
    StructTagModel,
> {
    match type_to_tag(structs, Type::StructInstantiation(idx, params)) {
        Some(TypeTagModel::Struct(st)) => Some(st),
        _ => None,
    }
}

/// The ticker of a coin instantiated with `t`: the struct's name, a primitive's keyword, or `_`
/// for a type argument that is not a struct. `None` where the loader would fail.
pub open spec fn ticker_of(structs: Seq<StructType>, t: Type, tags: Seq<TypeTagModel>) -> Option<
    Seq<char>,
> {
    match t {
        Type::Struct(i) => if i < structs.len() {
            Some(structs[i as int].name@)
        } else {
            None
        },
        Type::StructInstantiation(i, _) => if i < structs.len() {
            Some(structs[i as int].name@)
        } else {
            None
        },
        Type::TyParam(i) => if i < tags.len() {
            match tags[i as int] {
                TypeTagModel::Struct(st) => Some(st.name),
                _ => Some("_"@),
            }
        } else {
            None
        },
        Type::Bool => Some("bool"@),
        Type::U8 => Some("u8"@),
        Type::U64 => Some("u64"@),
        Type::U128 => Some("u128"@),
        Type::Address => Some("address"@),
        Type::Signer => Some("signer"@),
        Type::Vector(_) => Some("vector"@),
        Type::Reference(_) => Some("reference"@),
        Type::MutableReference(_) => Some("reference"@),
    }
}

/// Each path of `found` with `index` put in front.
pub open spec fn prefixed(index: usize, found: Seq<(Seq<char>, Seq<usize>)>) -> Seq<
    (Seq<char>, Seq<usize>),
> {
    found.map_values(|p: (Seq<char>, Seq<usize>)| (p.0, seq![index] + p.1))
}

/// The balances reachable in `tp`, with `tags` for its type parameters, walking at most `fuel`
/// levels; `None` if the walk does not finish within `fuel` or would index out of range.
pub open spec fn walk(
    structs: Seq<StructType>,
    tp: Type,
    tags: Seq<TypeTagModel>,
    fuel: nat,
) -> Option<Seq<(Seq<char>, Seq<usize>)>>
    decreases fuel, 0nat,
{
    if fuel == 0 {
        None
    } else {
        match tp {
            Type::Vector(inner) => walk(structs, *inner, tags, (fuel - 1) as nat),
            Type::Struct(idx) => if idx < structs.len() {
                walk_fields(
                    structs,
                    structs[idx as int].fields@,
                    tags,
                    (fuel - 1) as nat,
                    structs[idx as int].fields.len() as nat,
                )
            } else {
                None
            },
            Type::StructInstantiation(idx, params) => if idx < structs.len() {
                let st = structs[idx as int];
                if is_coin_struct(st) && params.len() == 1 {
                    match ticker_of(structs, params[0], tags) {
                        Some(t) => Some(seq![(t, seq![0usize])]),
                        None => None,
                    }
                } else {
                    let inner = match instantiation_tag(structs, idx, params) {
                        Some(s) => s.type_params,
                        None => tags,
                    };
                    walk_fields(structs, st.fields@, inner, (fuel - 1) as nat, st.fields.len() as nat)
                }
            } else {
                None
            },
            Type::TyParam(i) => if i < tags.len() {
                match tags[i as int] {
                    TypeTagModel::Struct(st) => match find_struct(
                        structs,
                        st,
                        structs.len() as nat,
                    ) {
                        Some(g) => walk(structs, Type::Struct(g), st.type_params, (fuel - 1) as nat),
                        None => Some(Seq::empty()),
                    },
                    _ => Some(Seq::empty()),
                }
            } else {
                None
            },
            _ => Some(Seq::empty()),
        }
    }
}

/// The balances reachable through the first `n` fields, each path led by its field's index.
pub open spec fn walk_fields(
    structs: Seq<StructType>,
    fields: Seq<Type>,
    tags: Seq<TypeTagModel>,
    fuel: nat,
    n: nat,
) -> Option<Seq<(Seq<char>, Seq<usize>)>>
    decreases fuel, n + 1,
{
    if n == 0 || n > fields.len() {
        Some(Seq::empty())
    } else {
        match (
            walk_fields(structs, fields, tags, fuel, (n - 1) as nat),
            walk(structs, fields[n - 1], tags, fuel),
        ) {
            (Some(a), Some(b)) => Some(a + prefixed((n - 1) as usize, b)),
            _ => None,
        }
    }
}

/// The walk of `tp` finishes: the loader's definitions do not nest without end.
pub open spec fn walk_terminates(structs: Seq<StructType>, tp: Type, tags: Seq<TypeTagModel>) -> bool {
    exists|fuel: nat| #[trigger] walk(structs, tp, tags, fuel) is Some
}

/// The balances reachable in `tp` when its walk finishes.
pub open spec fn balances_in(structs: Seq<StructType>, tp: Type, tags: Seq<TypeTagModel>) -> Seq<
    (Seq<char>, Seq<usize>),
> {
    walk(structs, tp, tags, choose|fuel: nat| #[trigger] walk(structs, tp, tags, fuel) is Some)->0
}

impl Loader {
    pub fn new(structs: Vec<StructType>) -> (r: Loader)
        ensures
            r.structs() == structs@,
    {
        Loader { structs }
    }

    /// The loaded definitions.
    pub closed spec fn structs(&self) -> Seq<StructType> {
        self.structs@
    }

    /// The definition at `index`.
    pub fn struct_at(&self, index: usize) -> (r: &StructType)
        requires
            index < self.structs().len(),
        ensures
            *r == self.structs()[index as int],
    {
        &self.structs[index]
    }

    /// The index of the definition that `tag` names, if loaded.
    pub fn struct_tag_to_struct_gidx(&self, tag: &StructTag) -> (r: Option<usize>)
        ensures
            r == find_struct(self.structs(), tag@, self.structs().len() as nat),
    {
        let mut i: usize = 0;
        while i < self.structs.len()
            invariant
                i <= self.structs.len(),
                find_struct(self.structs@, tag@, i as nat) is None,
            decreases self.structs.len() - i,
        {
            let st = &self.structs[i];
            if st.address.value == tag.address.value && st.module == tag.module && st.name == tag.name {
                proof {
                    lemma_find_struct_stable(self.structs@, tag@, (i + 1) as nat, self.structs@.len());
                }
                return Some(i);
            }
            i = i + 1;
        }
        None
    }

    /// The tag of a loaded type, if it has one.
    pub fn type_to_type_tag(&self, t: &Type) -> (r: Option<TypeTag>)
        ensures
            match r {
                Some(tag) => type_to_tag(self.structs(), *t) == Some(tag@),
                None => type_to_tag(self.structs(), *t) is None,
            },
        decreases t,
    {
        match t {
            Type::Bool => Some(TypeTag::Bool),
            Type::U8 => Some(TypeTag::U8),
            Type::U64 => Some(TypeTag::U64),
            Type::U128 => Some(TypeTag::U128),
            Type::Address => Some(TypeTag::Address),
            Type::Signer => Some(TypeTag::Signer),
            Type::Vector(b) => match self.type_to_type_tag(b) {
                Some(inner) => Some(TypeTag::Vector(Box::new(inner))),
                None => None,
            },
            Type::Struct(i) => {
                if *i < self.structs.len() {
                    let st = &self.structs[*i];
                    let r = StructTag {
                        address: st.address,
                        module: st.module.clone(),
                        name: st.name.clone(),
                        type_params: Vec::new(),
                    };
                    proof {
                        assert(r@.type_params =~= Seq::<TypeTagModel>::empty());
                    }
                    Some(TypeTag::Struct(r))
                } else {
                    None
                }
            },
            Type::StructInstantiation(i, ps) => {
                if *i < self.structs.len() {
                    match self.types_to_type_tags(t, ps) {
                        Some(params) => {
                            let st = &self.structs[*i];
                            Some(
                                TypeTag::Struct(
                                    StructTag {
                                        address: st.address,
                                        module: st.module.clone(),
                                        name: st.name.clone(),
                                        type_params: params,
                                    },
                                ),
                            )
                        },
                        None => None,
                    }
                } else {
                    None
                }
            },
            _ => None,
        }
    }

    /// Tags of all of `ps`, which are the parameters of `outer`, if each has one.
    fn types_to_type_tags(&self, outer: &Type, ps: &Vec<Type>) -> (r: Option<Vec<TypeTag>>)
        requires
            outer matches Type::StructInstantiation(_, qs) && qs == *ps,
        ensures
            match r {
                Some(tags) => types_to_tags(self.structs(), *ps, ps.len() as nat) == Some(
                    params_view(tags),
                ),
                None => types_to_tags(self.structs(), *ps, ps.len() as nat) is None,
            },
        decreases outer, 0nat,
    {
        let mut out: Vec<TypeTag> = Vec::new();
        let mut i: usize = 0;
        while i < ps.len()
            invariant
                i <= ps.len(),
                out.len() == i,
                outer matches Type::StructInstantiation(_, qs) && qs == *ps,
                types_to_tags(self.structs(), *ps, i as nat) == Some(params_view(out)),
            decreases ps.len() - i,
        {
            proof {
                assert(decreases_to!(*ps => ps[i as int]));
                assert(decreases_to!(*outer => (*outer)->StructInstantiation_1));
                lemma_params_model(out, out.len() as nat);
            }
            match self.type_to_type_tag(&ps[i]) {
                Some(tag) => {
                    let ghost before = out@;
                    out.push(tag);
                    proof {
                        lemma_params_model(out, out.len() as nat);
                        assert(out@.subrange(0, i as int) =~= before);
                        assert(params_view(out) =~= types_to_tags(
                            self.structs(),
                            *ps,
                            i as nat,
                        )->0.push(tag@));
                    }
                },
                None => {
                    proof {
                        lemma_types_to_tags_none(self.structs(), *ps, (i + 1) as nat, ps.len() as nat);
                    }
                    return None;
                },
            }
            i = i + 1;
        }
        Some(out)
    }
}

/// The handler that a tag's type calls for: the balance itself when the tag is a balance;
/// otherwise the balances its type contains, locked, or none when it contains none.
pub open spec fn handler_for(structs: Seq<StructType>, tag: StructTagModel, tp: Type) -> Option<
    HandlerModel,
> {
    if is_balance_tag(tag) {
        Some(HandlerModel::Unlocked(balance_ticker(tag)))
    } else {
        let found = balances_in(structs, tp, tag.type_params);
        if found.len() == 0 {
            None
        } else {
            Some(HandlerModel::Locked(found))
        }
    }
}

/// Finds the balances that a loaded type holds.
pub struct TypeWalker<'a> {
    loader: &'a Loader,
}

/// `index` followed by `path`.
fn prefix_path(index: usize, path: &Vec<usize>) -> (r: Vec<usize>)
    ensures
        r@ == seq![index] + path@,
{
    let mut out: Vec<usize> = Vec::new();
    out.push(index);
    let mut i: usize = 0;
    while i < path.len()
        invariant
            i <= path.len(),
            out@ == seq![index] + path@.take(i as int),
        decreases path.len() - i,
    {
        out.push(path[i]);
        proof {
            assert(path@.take(i + 1) =~= path@.take(i as int).push(path@[i as int]));
            assert(seq![index] + path@.take(i + 1) =~= (seq![index] + path@.take(i as int)).push(
                path@[i as int],
            ));
        }
        i = i + 1;
    }
    assert(path@.take(path.len() as int) =~= path@);
    out
}

/// A walk of the first `n` fields that finishes also finishes on each shorter prefix and on each
/// of those fields.
proof fn lemma_walk_fields_prefix(
    structs: Seq<StructType>,
    fields: Seq<Type>,
    tags: Seq<TypeTagModel>,
    fuel: nat,
    k: nat,
    n: nat,
)
    requires
        k <= n <= fields.len(),
        walk_fields(structs, fields, tags, fuel, n) is Some,
    ensures
        walk_fields(structs, fields, tags, fuel, k) is Some,
        k < n ==> walk(structs, fields[k as int], tags, fuel) is Some,
    decreases n - k,
{
    if k < n {
        lemma_walk_fields_prefix(structs, fields, tags, fuel, k + 1, n);
    }
}

impl<'a> TypeWalker<'a> {
    pub fn new(loader: &'a Loader) -> (r: TypeWalker<'a>)
        ensures
            r.structs() == loader.structs(),
    {
        TypeWalker { loader }
    }

    /// The definitions the walker reads.
    pub closed spec fn structs(&self) -> Seq<StructType> {
        self.loader.structs()
    }

    /// The handler for resources of `tag`, whose loaded type is `tp`.
    pub fn find_balance(&self, tag: &StructTag, tp: &Type) -> (r: Result<
        Option<BalanceHandler>,
        VMError,
    >)
        requires
            is_balance_tag(tag@) || walk_terminates(self.structs(), *tp, tag@.type_params),
        ensures
            r matches Ok(h) && handler_view(h) == handler_for(self.structs(), tag@, *tp),
    {
        if is_balance(tag) {
            Ok(Some(BalanceHandler::Unlocked(ticker_of_balance(tag))))
        } else {
            let ghost tags = tag@.type_params;
            let ghost fuel = choose|fuel: nat| #[trigger] walk(self.structs(), *tp, tags, fuel) is Some;
            let balances = self.find_in_type(tp, &tag.type_params, Ghost(fuel));
            if balances.len() == 0 {
                Ok(None)
            } else {
                Ok(Some(BalanceHandler::Locked(balances)))
            }
        }
    }

    /// The balances reachable in `tp`, whose type parameters are `tp_tags`.
    fn find_in_type(&self, tp: &Type, tp_tags: &Vec<TypeTag>, fuel: Ghost<nat>) -> (r: Vec<
        BalancePath,
    >)
        requires
            walk(self.structs(), *tp, params_view(*tp_tags), fuel@) is Some,
        ensures
            paths_view(r@) == walk(self.structs(), *tp, params_view(*tp_tags), fuel@)->0,
        decreases fuel@, 0nat,
    {
        let ghost tags = params_view(*tp_tags);
        let ghost next = (fuel@ - 1) as nat;
        proof {
            lemma_params_model(*tp_tags, tp_tags.len() as nat);
        }
        match tp {
            Type::Vector(inner) => self.find_in_type(inner, tp_tags, Ghost(next)),
            Type::Struct(index) => {
                let st = self.loader.struct_at(*index);
                self.find_in_fields(&st.fields, tp_tags, Ghost(next))
            },
            Type::StructInstantiation(index, tp_params) => {
                let st = self.loader.struct_at(*index);
                if is_coin(st) && tp_params.len() == 1 {
                    let ticker = self.coin_ticker(&tp_params[0], tp_tags);
                    let mut res: Vec<BalancePath> = Vec::new();
                    let mut path: Vec<usize> = Vec::new();
                    path.push(0);
                    res.push((ticker, path));
                    proof {
                        assert(paths_view(res@) =~= seq![(ticker@, seq![0usize])]);
                    }
                    res
                } else {
                    let converted = self.loader.type_to_type_tag(tp);
                    match &converted {
                        Some(TypeTag::Struct(s)) => {
                            proof {
                                assert(instantiation_tag(self.structs(), *index, *tp_params) == Some(
                                    s@,
                                ));
                            }
                            self.find_in_fields(&st.fields, &s.type_params, Ghost(next))
                        },
                        _ => {
                            proof {
                                assert(instantiation_tag(self.structs(), *index, *tp_params) is None);
                            }
                            self.find_in_fields(&st.fields, tp_tags, Ghost(next))
                        },
                    }
                }
            },
            Type::TyParam(index) => {
                match &tp_tags[*index] {
                    TypeTag::Struct(st) => {
                        match self.loader.struct_tag_to_struct_gidx(st) {
                            Some(gidx) => {
                                let t = Type::Struct(gidx);
                                self.find_in_type(&t, &st.type_params, Ghost(next))
                            },
                            None => Vec::new(),
                        }
                    },
                    _ => Vec::new(),
                }
            },
            _ => Vec::new(),
        }
    }

    /// The balances reachable through each of `fields`, led by the field's index.
    fn find_in_fields(&self, fields: &Vec<Type>, tp_tags: &Vec<TypeTag>, fuel: Ghost<nat>) -> (r: Vec<
        BalancePath,
    >)
        requires
            walk_fields(
                self.structs(),
                fields@,
                params_view(*tp_tags),
                fuel@,
                fields.len() as nat,
            ) is Some,
        ensures
            paths_view(r@) == walk_fields(
                self.structs(),
                fields@,
                params_view(*tp_tags),
                fuel@,
                fields.len() as nat,
            )->0,
        decreases fuel@, 1nat,
    {
        let ghost tags = params_view(*tp_tags);
        let mut res: Vec<BalancePath> = Vec::new();
        let mut i: usize = 0;
        while i < fields.len()
            invariant
                i <= fields.len(),
                tags == params_view(*tp_tags),
                walk_fields(self.structs(), fields@, tags, fuel@, fields.len() as nat) is Some,
                walk_fields(self.structs(), fields@, tags, fuel@, i as nat) is Some,
                paths_view(res@) == walk_fields(self.structs(), fields@, tags, fuel@, i as nat)->0,
            decreases fields.len() - i,
        {
            proof {
                lemma_walk_fields_prefix(
                    self.structs(),
                    fields@,
                    tags,
                    fuel@,
                    i as nat,
                    fields.len() as nat,
                );
                lemma_walk_fields_prefix(
                    self.structs(),
                    fields@,
                    tags,
                    fuel@,
                    (i + 1) as nat,
                    fields.len() as nat,
                );
            }
            let field = &fields[i];
            let found = self.find_in_type(field, tp_tags, fuel);
            let ghost before = paths_view(res@);
            let ghost sub = paths_view(found@);
            let mut j: usize = 0;
            while j < found.len()
                invariant
                    j <= found.len(),
                    sub == paths_view(found@),
                    paths_view(res@) == before + prefixed(i, sub.take(j as int)),
                decreases found.len() - j,
            {
                let path = prefix_path(i, &found[j].1);
                let ghost mid = res@;
                res.push((found[j].0.clone(), path));
                proof {
                    assert(paths_view(res@) =~= paths_view(mid).push(
                        (found@[j as int].0@, seq![i] + found@[j as int].1@),
                    ));
                    assert(prefixed(i, sub.take(j + 1)) =~= prefixed(i, sub.take(j as int)).push(
                        (sub[j as int].0, seq![i] + sub[j as int].1),
                    ));
                    assert(paths_view(res@) =~= before + prefixed(i, sub.take(j + 1)));
                }
                j = j + 1;
            }
            proof {
                assert(sub.take(found.len() as int) =~= sub);
                assert(walk_fields(self.structs(), fields@, tags, fuel@, (i + 1) as nat) == Some(
                    walk_fields(self.structs(), fields@, tags, fuel@, i as nat)->0 + prefixed(
                        i,
                        walk(self.structs(), fields@[i as int], tags, fuel@)->0,
                    ),
                ));
            }
            i = i + 1;
        }
        res
    }

    /// Whether the walk of `tag`'s loaded type `tp` finishes within `fuel` levels; when it does,
    /// the walk terminates, which is what [`Self::find_balance`] needs of a non-balance tag.
    pub fn walk_finishes_within(&self, tag: &StructTag, tp: &Type, fuel: u64) -> (r: bool)
        ensures
            r == (walk(self.structs(), *tp, tag@.type_params, fuel as nat) is Some),
            r ==> walk_terminates(self.structs(), *tp, tag@.type_params),
    {
        self.walk_finishes(tp, &tag.type_params, fuel)
    }

    /// Whether the walk of `tp` finishes within `fuel` levels.
    fn walk_finishes(&self, tp: &Type, tp_tags: &Vec<TypeTag>, fuel: u64) -> (r: bool)
        ensures
            r == (walk(self.structs(), *tp, params_view(*tp_tags), fuel as nat) is Some),
        decreases fuel, 0nat,
    {
        proof {
            lemma_params_model(*tp_tags, tp_tags.len() as nat);
        }
        if fuel == 0 {
            return false;
        }
        match tp {
            Type::Vector(inner) => self.walk_finishes(inner, tp_tags, fuel - 1),
            Type::Struct(index) => {
                if *index >= self.loader.structs.len() {
                    return false;
                }
                let st = self.loader.struct_at(*index);
                self.fields_finish(&st.fields, tp_tags, fuel - 1)
            },
            Type::StructInstantiation(index, tp_params) => {
                if *index >= self.loader.structs.len() {
                    return false;
                }
                let st = self.loader.struct_at(*index);
                if is_coin(st) && tp_params.len() == 1 {
                    self.ticker_known(&tp_params[0], tp_tags)
                } else {
                    let converted = self.loader.type_to_type_tag(tp);
                    match &converted {
                        Some(TypeTag::Struct(s)) => {
                            proof {
                                assert(instantiation_tag(self.structs(), *index, *tp_params) == Some(
                                    s@,
                                ));
                            }
                            self.fields_finish(&st.fields, &s.type_params, fuel - 1)
                        },
                        _ => {
                            proof {
                                assert(instantiation_tag(self.structs(), *index, *tp_params) is None);
                            }
                            self.fields_finish(&st.fields, tp_tags, fuel - 1)
                        },
                    }
                }
            },
            Type::TyParam(index) => {
                if *index >= tp_tags.len() {
                    return false;
                }
                match &tp_tags[*index] {
                    TypeTag::Struct(st) => {
                        match self.loader.struct_tag_to_struct_gidx(st) {
                            Some(gidx) => {
                                let t = Type::Struct(gidx);
                                self.walk_finishes(&t, &st.type_params, fuel - 1)
                            },
                            None => true,
                        }
                    },
                    _ => true,
                }
            },
            _ => true,
        }
    }

    /// Whether the walks of all of `fields` finish within `fuel` levels.
    fn fields_finish(&self, fields: &Vec<Type>, tp_tags: &Vec<TypeTag>, fuel: u64) -> (r: bool)
        ensures
            r == (walk_fields(
                self.structs(),
                fields@,
                params_view(*tp_tags),
                fuel as nat,
                fields.len() as nat,
            ) is Some),
        decreases fuel, 1nat,
    {
        let ghost tags = params_view(*tp_tags);
        let mut i: usize = 0;
        while i < fields.len()
            invariant
                i <= fields.len(),
                tags == params_view(*tp_tags),
                walk_fields(self.structs(), fields@, tags, fuel as nat, i as nat) is Some,
            decreases fields.len() - i,
        {
            if !self.walk_finishes(&fields[i], tp_tags, fuel) {
                proof {
                    assert(walk_fields(self.structs(), fields@, tags, fuel as nat, (i + 1) as nat)
                        is None);
                    lemma_walk_fields_none(
                        self.structs(),
                        fields@,
                        tags,
                        fuel as nat,
                        (i + 1) as nat,
                        fields.len() as nat,
                    );
                }
                return false;
            }
            i = i + 1;
        }
        true
    }

    /// Whether the loader can name the ticker of a coin whose single type argument is `t`.
    fn ticker_known(&self, t: &Type, tp_tags: &Vec<TypeTag>) -> (r: bool)
        ensures
            r == (ticker_of(self.structs(), *t, params_view(*tp_tags)) is Some),
    {
        proof {
            lemma_params_model(*tp_tags, tp_tags.len() as nat);
        }
        match t {
            Type::Struct(index) => *index < self.loader.structs.len(),
            Type::StructInstantiation(index, _) => *index < self.loader.structs.len(),
            Type::TyParam(index) => *index < tp_tags.len(),
            _ => true,
        }
    }

    /// The ticker of a coin whose single type argument is `t`.
    fn coin_ticker(&self, t: &Type, tp_tags: &Vec<TypeTag>) -> (r: String)
        requires
            ticker_of(self.structs(), *t, params_view(*tp_tags)) is Some,
        ensures
            r@ == ticker_of(self.structs(), *t, params_view(*tp_tags))->0,
    {
        proof {
            lemma_params_model(*tp_tags, tp_tags.len() as nat);
        }
        match t {
            Type::Struct(index) => self.loader.struct_at(*index).name.clone(),
            Type::StructInstantiation(index, _) => self.loader.struct_at(*index).name.clone(),
            Type::TyParam(index) => match &tp_tags[*index] {
                TypeTag::Struct(st) => st.name.clone(),
                _ => "_".to_owned(),
            },
            Type::Bool => "bool".to_owned(),
            Type::U8 => "u8".to_owned(),
            Type::U64 => "u64".to_owned(),
            Type::U128 => "u128".to_owned(),
            Type::Address => "address".to_owned(),
            Type::Signer => "signer".to_owned(),
            Type::Vector(_) => "vector".to_owned(),
            Type::Reference(_) => "reference".to_owned(),
            Type::MutableReference(_) => "reference".to_owned(),
        }
    }
}

/// Once a prefix of the fields has a walk that does not finish, so does every longer prefix.
proof fn lemma_walk_fields_none(
    structs: Seq<StructType>,
    fields: Seq<Type>,
    tags: Seq<TypeTagModel>,
    fuel: nat,
    k: nat,
    n: nat,
)
    requires
        1 <= k <= n <= fields.len(),
        walk_fields(structs, fields, tags, fuel, k) is None,
    ensures
        walk_fields(structs, fields, tags, fuel, n) is None,
    decreases n - k,
{
    if k < n {
        lemma_walk_fields_none(structs, fields, tags, fuel, k, (n - 1) as nat);
    }
}

/// A definition found in a prefix of the table is the one found in every longer prefix.
proof fn lemma_find_struct_stable(structs: Seq<StructType>, tag: StructTagModel, k: nat, n: nat)
    requires
        1 <= k <= n <= structs.len(),
        find_struct(structs, tag, k) is Some,
    ensures
        find_struct(structs, tag, n) == find_struct(structs, tag, k),
    decreases n - k,
{
    if k < n {
        lemma_find_struct_stable(structs, tag, k, (n - 1) as nat);
    }
}

/// Once a prefix of the parameters has no tag, no longer prefix has one.
proof fn lemma_types_to_tags_none(structs: Seq<StructType>, ps: Vec<Type>, k: nat, n: nat)
    requires
        1 <= k <= n <= ps.len(),
        types_to_tags(structs, ps, k) is None,
    ensures
        types_to_tags(structs, ps, n) is None,
    decreases n - k,
{
    if k < n {
        lemma_types_to_tags_none(structs, ps, k, (n - 1) as nat);
    }
}


/// The walker is deterministic: any two walks of a type that finish, whatever the budget each
/// was given, find the same balances along the same paths.
pub proof fn lemma_walk_deterministic(
    structs: Seq<StructType>,
    tp: Type,
    tags: Seq<TypeTagModel>,
    f1: nat,
    f2: nat,
)
    requires
        walk(structs, tp, tags, f1) is Some,
        walk(structs, tp, tags, f2) is Some,
    ensures
        walk(structs, tp, tags, f1) == walk(structs, tp, tags, f2),
    decreases f1, 0nat,
{
    let g1 = (f1 - 1) as nat;
    let g2 = (f2 - 1) as nat;
    match tp {
        Type::Vector(inner) => {
            lemma_walk_deterministic(structs, *inner, tags, g1, g2);
        },
        Type::Struct(idx) => {
            let fields = structs[idx as int].fields@;
            lemma_walk_fields_deterministic(structs, fields, tags, g1, g2, fields.len());
        },
        Type::StructInstantiation(idx, params) => {
            let st = structs[idx as int];
            if !(is_coin_struct(st) && params.len() == 1) {
                let inner = match instantiation_tag(structs, idx, params) {
                    Some(s) => s.type_params,
                    None => tags,
                };
                lemma_walk_fields_deterministic(structs, st.fields@, inner, g1, g2, st.fields.len() as nat);
            }
        },
        Type::TyParam(i) => {
            match tags[i as int] {
                TypeTagModel::Struct(st) => match find_struct(structs, st, structs.len() as nat) {
                    Some(g) => {
                        lemma_walk_deterministic(structs, Type::Struct(g), st.type_params, g1, g2);
                    },
                    None => {},
                },
                _ => {},
            }
        },
        _ => {},
    }
}

/// Two finishing walks of the first `n` fields agree.
pub proof fn lemma_walk_fields_deterministic(
    structs: Seq<StructType>,
    fields: Seq<Type>,
    tags: Seq<TypeTagModel>,
    f1: nat,
    f2: nat,
    n: nat,
)
    requires
        walk_fields(structs, fields, tags, f1, n) is Some,
        walk_fields(structs, fields, tags, f2, n) is Some,
    ensures
        walk_fields(structs, fields, tags, f1, n) == walk_fields(structs, fields, tags, f2, n),
    decreases f1, n + 1,
{
    if n > 0 && n <= fields.len() {
        let m = (n - 1) as nat;
        lemma_walk_fields_deterministic(structs, fields, tags, f1, f2, m);
        lemma_walk_deterministic(structs, fields[m as int], tags, f1, f2);
    }
}

/// The handler a type calls for is a function of the loaded definitions, the tag and the type
/// alone: two walkers over the same definitions, asked in any order, agree.
pub proof fn lemma_handler_for_deterministic(
    structs: Seq<StructType>,
    tag: StructTagModel,
    tp: Type,
    fuel: nat,
)
    requires
        !crate::bank::is_balance_tag(tag),
        walk(structs, tp, tag.type_params, fuel) is Some,
    ensures
        balances_in(structs, tp, tag.type_params) == walk(structs, tp, tag.type_params, fuel)->0,
{
    let chosen = choose|f: nat| #[trigger] walk(structs, tp, tag.type_params, f) is Some;
    lemma_walk_deterministic(structs, tp, tag.type_params, chosen, fuel);
}

} // verus!
