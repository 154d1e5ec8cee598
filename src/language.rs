//! Account addresses, type tags and module identifiers, with their mathematical models.
use vstd::prelude::*;

verus! {

broadcast use vstd::std_specs::vec::axiom_vec_index_decreases;

/// Longest chain of nested type tags that a storage key may be built from: the canonical
/// serializer refuses containers nested more than 500 deep, and each tag level opens at most
/// two.
pub const MAX_TAG_DEPTH: u64 = 200;

/// Longest sequence the canonical serializer accepts: a name's bytes, a list of type arguments,
/// a vector's elements.
pub const MAX_SEQUENCE_LENGTH: u64 = 2147483647;

/// A 16-byte account address, held as the big-endian number it spells.
#[derive(Clone, Copy, Debug, PartialEq, Eq, Hash, Structural)]
pub struct AccountAddress {
    pub value: u128,
}

/// The address under which the core modules are published.
pub open spec fn core_address() -> u128 {
    1
}

/// `n` bytes of `x`, least significant first.
pub open spec fn le_bytes(x: nat, n: nat) -> Seq<u8>
    decreases n,
{
    if n == 0 {
        Seq::empty()
    } else {
        seq![(x % 256) as u8] + le_bytes(x / 256, (n - 1) as nat)
    }
}

/// `n` bytes of `x`, most significant first.
pub open spec fn be_bytes(x: nat, n: nat) -> Seq<u8>
    decreases n,
{
    if n == 0 {
        Seq::empty()
    } else {
        be_bytes(x / 256, (n - 1) as nat).push((x % 256) as u8)
    }
}

/// The `n` low bytes of `x`, least significant first.
pub fn to_le_bytes(x: u128, n: usize) -> (r: Vec<u8>)
    requires
        n <= 16,
    ensures
        r@ == le_bytes(x as nat, n as nat),
{
    let mut out: Vec<u8> = Vec::new();
    let mut y: u128 = x;
    let mut i: usize = 0;
    while i < n
        invariant
            i <= n,
            out@ + le_bytes(y as nat, (n - i) as nat) == le_bytes(x as nat, n as nat),
        decreases n - i,
    {
        let b: u8 = (y % 256) as u8;
        proof {
            let rest = le_bytes((y / 256) as nat, (n - i - 1) as nat);
            assert(le_bytes(y as nat, (n - i) as nat) == seq![b] + rest);
            assert(out@.push(b) + rest =~= out@ + (seq![b] + rest));
        }
        out.push(b);
        y = y / 256;
        i = i + 1;
    }
    assert(out@ + le_bytes(y as nat, 0) =~= out@);
    out
}

impl AccountAddress {
    /// Number of bytes in an address.
    pub const LENGTH: usize = 16;

    pub fn new(value: u128) -> (r: AccountAddress)
        ensures
            r.value == value,
    {
        AccountAddress { value }
    }

    /// The address's bytes, most significant first.
    pub fn to_u8(&self) -> (r: Vec<u8>)
        ensures
            r@ == be_bytes(self.value as nat, 16),
    {
        let mut out: Vec<u8> = Vec::new();
        let mut k: usize = 0;
        while k < 16
            invariant
                k <= 16,
                out.len() == k,
            decreases 16 - k,
        {
            out.push(0u8);
            k = k + 1;
        }
        let mut y: u128 = self.value;
        let mut i: usize = 0;
        while i < 16
            invariant
                i <= 16,
                out.len() == 16,
                be_bytes(self.value as nat, 16) == be_bytes(y as nat, (16 - i) as nat) + out@.subrange(
                    16 - i,
                    16,
                ),
            decreases 16 - i,
        {
            let b: u8 = (y % 256) as u8;
            let ghost tail = out@.subrange(16 - i, 16);
            proof {
                let m = (16 - i) as nat;
                assert(be_bytes(y as nat, m) == be_bytes((y / 256) as nat, (m - 1) as nat).push(b));
            }
            out.set(15 - i, b);
            proof {
                assert(out@.subrange(15 - i, 16) =~= seq![b] + tail);
                let head = be_bytes((y / 256) as nat, (15 - i) as nat);
                assert(head.push(b) + tail =~= head + (seq![b] + tail));
            }
            y = y / 256;
            i = i + 1;
        }
        assert(be_bytes(y as nat, 0) + out@.subrange(0, 16) =~= out@);
        out
    }
}

/// The address of the core modules.
pub fn core_code_address() -> (r: AccountAddress)
    ensures
        r.value == core_address(),
{
    AccountAddress { value: 1 }
}

/// The type of a value, as written in a transaction or a storage key.
#[derive(Debug, PartialEq, Eq, Hash)]
pub enum TypeTag {
    Bool,
    U8,
    U64,
    U128,
    Address,
    Signer,
    Vector(Box<TypeTag>),
    Struct(StructTag),
}

/// A fully instantiated struct type, naming its module and its type arguments.
#[derive(Debug, PartialEq, Eq, Hash)]
pub struct StructTag {
    pub address: AccountAddress,
    pub module: String,
    pub name: String,
    pub type_params: Vec<TypeTag>,
}

/// A module: the address it was published under and its name.
#[derive(Debug, PartialEq, Eq, Hash)]
pub struct ModuleId {
    pub address: AccountAddress,
    pub name: String,
}

/// The model of a [`TypeTag`].
pub enum TypeTagModel {
    Bool,
    U8,
    U64,
    U128,
    Address,
    Signer,
    Vector(Box<TypeTagModel>),
    Struct(StructTagModel),
}

/// The model of a [`StructTag`].
pub struct StructTagModel {
    pub address: u128,
    pub module: Seq<char>,
    pub name: Seq<char>,
    pub type_params: Seq<TypeTagModel>,
}

/// The model of a [`ModuleId`].
pub struct ModuleIdModel {
    pub address: u128,
    pub name: Seq<char>,
}

pub open spec fn type_tag_model(t: TypeTag) -> TypeTagModel
    decreases t, 0nat,
{
    match t {
        TypeTag::Bool => TypeTagModel::Bool,
        TypeTag::U8 => TypeTagModel::U8,
        TypeTag::U64 => TypeTagModel::U64,
        TypeTag::U128 => TypeTagModel::U128,
        TypeTag::Address => TypeTagModel::Address,
        TypeTag::Signer => TypeTagModel::Signer,
        TypeTag::Vector(b) => TypeTagModel::Vector(Box::new(type_tag_model(*b))),
        TypeTag::Struct(s) => TypeTagModel::Struct(
            StructTagModel {
                address: s.address.value,
                module: s.module@,
                name: s.name@,
                type_params: params_model(s.type_params, s.type_params.len() as nat),
            },
        ),
    }
}

/// Models of the first `n` tags of `ps`.
pub open spec fn params_model(ps: Vec<TypeTag>, n: nat) -> Seq<TypeTagModel>
    decreases ps, n,
{
    if n == 0 || n > ps.len() {
        Seq::empty()
    } else {
        params_model(ps, (n - 1) as nat).push(type_tag_model(ps[n - 1]))
    }
}

pub proof fn lemma_params_model(ps: Vec<TypeTag>, n: nat)
    requires
        n <= ps.len(),
    ensures
        params_model(ps, n).len() == n,
        forall|k: int| 0 <= k < n ==> #[trigger] params_model(ps, n)[k] == type_tag_model(ps[k]),
    decreases n,
{
    if n > 0 {
        lemma_params_model(ps, (n - 1) as nat);
    }
}

impl View for TypeTag {
    type V = TypeTagModel;

    open spec fn view(&self) -> TypeTagModel {
        type_tag_model(*self)
    }
}

impl View for StructTag {
    type V = StructTagModel;

    open spec fn view(&self) -> StructTagModel {
        StructTagModel {
            address: self.address.value,
            module: self.module@,
            name: self.name@,
            type_params: params_model(self.type_params, self.type_params.len() as nat),
        }
    }
}

impl View for ModuleId {
    type V = ModuleIdModel;

    open spec fn view(&self) -> ModuleIdModel {
        ModuleIdModel { address: self.address.value, name: self.name@ }
    }
}

/// The tag models of `ps`, one for each.
pub open spec fn params_view(ps: Vec<TypeTag>) -> Seq<TypeTagModel> {
    params_model(ps, ps.len() as nat)
}

/// A character allowed after the first one of an identifier.
pub open spec fn is_identifier_char(c: char) -> bool {
    c == '_' || ('a' <= c && c <= 'z') || ('A' <= c && c <= 'Z') || ('0' <= c && c <= '9')
}

/// A valid module or struct name: a letter followed by letters, digits and underscores, an
/// underscore followed by at least one of those, or the word `<SELF>`.
pub open spec fn is_identifier(s: Seq<char>) -> bool {
    ||| s == "<SELF>"@
    ||| {
        &&& s.len() >= 1
        &&& (('a' <= s[0] && s[0] <= 'z') || ('A' <= s[0] && s[0] <= 'Z'))
        &&& forall|i: int| 1 <= i < s.len() ==> is_identifier_char(#[trigger] s[i])
    }
    ||| {
        &&& s.len() >= 2
        &&& s[0] == '_'
        &&& forall|i: int| 1 <= i < s.len() ==> is_identifier_char(#[trigger] s[i])
    }
}

/// A name a storage key can hold: an identifier the serializer accepts. Identifiers are ASCII,
/// so their characters are their bytes.
pub open spec fn is_key_name(s: Seq<char>) -> bool {
    is_identifier(s) && s.len() <= MAX_SEQUENCE_LENGTH
}

/// Every name in the tag is a valid identifier, and no name or argument list is too long.
pub open spec fn type_tag_names_valid(t: TypeTagModel) -> bool
    decreases t,
{
    match t {
        TypeTagModel::Vector(b) => type_tag_names_valid(*b),
        TypeTagModel::Struct(s) => is_key_name(s.module) && is_key_name(s.name)
            && s.type_params.len() <= MAX_SEQUENCE_LENGTH && params_names_valid(s.type_params),
        _ => true,
    }
}

/// Every name in each of `ps` is a valid identifier.
pub open spec fn params_names_valid(ps: Seq<TypeTagModel>) -> bool
    decreases ps,
{
    if ps.len() == 0 {
        true
    } else {
        params_names_valid(ps.drop_last()) && type_tag_names_valid(ps.last())
    }
}

/// The names of a list of tags are valid exactly when each tag's are.
pub proof fn lemma_params_names_valid(ps: Seq<TypeTagModel>)
    ensures
        params_names_valid(ps) <==> forall|i: int|
            0 <= i < ps.len() ==> type_tag_names_valid(#[trigger] ps[i]),
    decreases ps.len(),
{
    if ps.len() > 0 {
        lemma_params_names_valid(ps.drop_last());
        assert forall|i: int| 0 <= i < ps.len() - 1 implies ps.drop_last()[i] == ps[i] by {}
        if forall|i: int| 0 <= i < ps.len() ==> type_tag_names_valid(#[trigger] ps[i]) {
            assert(type_tag_names_valid(ps[ps.len() - 1]));
        }
    }
}

/// How deeply the tag nests: one for a primitive.
pub open spec fn type_tag_depth(t: TypeTagModel) -> nat
    decreases t,
{
    match t {
        TypeTagModel::Vector(b) => 1 + type_tag_depth(*b),
        TypeTagModel::Struct(s) => 1 + params_depth(s.type_params),
        _ => 1,
    }
}

/// The greatest depth among `ps`, zero for none.
pub open spec fn params_depth(ps: Seq<TypeTagModel>) -> nat
    decreases ps,
{
    if ps.len() == 0 {
        0
    } else {
        let d = type_tag_depth(ps.last());
        let rest = params_depth(ps.drop_last());
        if d > rest {
            d
        } else {
            rest
        }
    }
}

impl StructTagModel {
    /// Names are identifiers and the nesting stays within what a storage key can encode.
    pub open spec fn wf(self) -> bool {
        &&& is_key_name(self.module)
        &&& is_key_name(self.name)
        &&& self.type_params.len() <= MAX_SEQUENCE_LENGTH
        &&& forall|i: int|
            0 <= i < self.type_params.len() ==> #[trigger] type_tag_names_valid(self.type_params[i])
        &&& 1 + params_depth(self.type_params) <= MAX_TAG_DEPTH
    }
}

impl ModuleIdModel {
    pub open spec fn wf(self) -> bool {
        is_key_name(self.name)
    }
}

/// Whether `a` holds the same characters as the literal `b`.
pub fn str_eq(a: &String, b: &str) -> (r: bool)
    ensures
        r == (a@ == b@),
{
    let owned: String = b.to_owned();
    *a == owned
}

impl StructTag {
    /// A copy with the same model.
    pub fn copy(&self) -> (r: StructTag)
        ensures
            r@ == self@,
    {
        let mut out: Vec<TypeTag> = Vec::new();
        let mut i: usize = 0;
        while i < self.type_params.len()
            invariant
                i <= self.type_params.len(),
                out.len() == i,
                forall|k: int| 0 <= k < i ==> (#[trigger] out[k])@ == self.type_params[k]@,
            decreases self.type_params.len() - i,
        {
            out.push(self.type_params[i].copy());
            i = i + 1;
        }
        let r = StructTag {
            address: self.address,
            module: self.module.clone(),
            name: self.name.clone(),
            type_params: out,
        };
        proof {
            lemma_params_model(out, out.len() as nat);
            lemma_params_model(self.type_params, self.type_params.len() as nat);
            assert(params_view(out) =~= params_view(self.type_params));
        }
        r
    }
}

impl TypeTag {
    /// A copy with the same model.
    pub fn copy(&self) -> (r: TypeTag)
        ensures
            r@ == self@,
        decreases self,
    {
        match self {
            TypeTag::Bool => TypeTag::Bool,
            TypeTag::U8 => TypeTag::U8,
            TypeTag::U64 => TypeTag::U64,
            TypeTag::U128 => TypeTag::U128,
            TypeTag::Address => TypeTag::Address,
            TypeTag::Signer => TypeTag::Signer,
            TypeTag::Vector(b) => TypeTag::Vector(Box::new(b.copy())),
            TypeTag::Struct(s) => {
                let mut out: Vec<TypeTag> = Vec::new();
                let mut i: usize = 0;
                while i < s.type_params.len()
                    invariant
                        i <= s.type_params.len(),
                        out.len() == i,
                        forall|k: int| 0 <= k < i ==> (#[trigger] out[k])@ == s.type_params[k]@,
                        *self == TypeTag::Struct(*s),
                    decreases s.type_params.len() - i,
                {
                    proof {
                        assert(decreases_to!(s.type_params => s.type_params[i as int]));
                        assert(decreases_to!(*self => (*self)->Struct_0));
                        assert(decreases_to!((*self)->Struct_0 => (*self)->Struct_0.type_params));
                    }
                    out.push(s.type_params[i].copy());
                    i = i + 1;
                }
                let r = TypeTag::Struct(
                    StructTag {
                        address: s.address,
                        module: s.module.clone(),
                        name: s.name.clone(),
                        type_params: out,
                    },
                );
                proof {
                    lemma_params_model(out, out.len() as nat);
                    lemma_params_model(s.type_params, s.type_params.len() as nat);
                    assert(params_view(out) =~= params_view(s.type_params));
                }
                r
            },
        }
    }
}


/// Whether `c` may follow the first character of an identifier.
fn identifier_char(c: char) -> (r: bool)
    ensures
        r == is_identifier_char(c),
{
    c == '_' || ('a' <= c && c <= 'z') || ('A' <= c && c <= 'Z') || ('0' <= c && c <= '9')
}

/// Whether `s` is a valid module or struct name.
pub fn is_valid_identifier(s: &String) -> (r: bool)
    ensures
        r == is_identifier(s@),
{
    if str_eq(s, "<SELF>") {
        return true;
    }
    let text: &str = s.as_str();
    let n = text.unicode_len();
    if n == 0 {
        return false;
    }
    let c0 = text.get_char(0);
    let letter = ('a' <= c0 && c0 <= 'z') || ('A' <= c0 && c0 <= 'Z');
    if !letter && !(c0 == '_' && n >= 2) {
        return false;
    }
    let mut i: usize = 1;
    while i < n
        invariant
            1 <= i <= n,
            n == s@.len(),
            text@ == s@,
            s@ != "<SELF>"@,
            forall|k: int| 1 <= k < i ==> is_identifier_char(#[trigger] s@[k]),
        decreases n - i,
    {
        let c = text.get_char(i);
        if !identifier_char(c) {
            assert(!is_identifier_char(s@[i as int]));
            return false;
        }
        i = i + 1;
    }
    true
}

/// Whether `s` is a name a storage key can hold.
pub fn is_valid_key_name(s: &String) -> (r: bool)
    ensures
        r == is_key_name(s@),
{
    is_valid_identifier(s) && (s.as_str().unicode_len() as u64) <= MAX_SEQUENCE_LENGTH
}

/// A greatest depth among tags is at most `d` exactly when each tag's depth is.
proof fn lemma_params_depth_bound(ps: Seq<TypeTagModel>, d: nat)
    ensures
        params_depth(ps) <= d <==> forall|i: int| 0 <= i < ps.len() ==> type_tag_depth(#[trigger] ps[i]) <= d,
    decreases ps.len(),
{
    if ps.len() > 0 {
        lemma_params_depth_bound(ps.drop_last(), d);
        assert forall|i: int| 0 <= i < ps.len() - 1 implies ps.drop_last()[i] == ps[i] by {}
        if forall|i: int| 0 <= i < ps.len() ==> type_tag_depth(#[trigger] ps[i]) <= d {
            assert(type_tag_depth(ps[ps.len() - 1]) <= d);
        }
    }
}

/// Whether every name in `t` is an identifier and `t` nests at most `budget` deep.
fn names_valid_within(t: &TypeTag, budget: u64) -> (r: bool)
    ensures
        r == (type_tag_names_valid(t@) && type_tag_depth(t@) <= budget),
    decreases t,
{
    if budget == 0 {
        return false;
    }
    match t {
        TypeTag::Vector(b) => names_valid_within(b, budget - 1),
        TypeTag::Struct(s) => {
            proof {
                lemma_params_model(s.type_params, s.type_params.len() as nat);
                lemma_params_depth_bound(params_view(s.type_params), (budget - 1) as nat);
            }
            if !is_valid_key_name(&s.module) || !is_valid_key_name(&s.name)
                || s.type_params.len() as u64 > MAX_SEQUENCE_LENGTH {
                return false;
            }
            let mut i: usize = 0;
            while i < s.type_params.len()
                invariant
                    i <= s.type_params.len(),
                    *t == TypeTag::Struct(*s),
                    budget >= 1,
                    forall|k: int|
                        0 <= k < i ==> type_tag_names_valid(#[trigger] s.type_params[k]@)
                            && type_tag_depth(s.type_params[k]@) <= budget - 1,
                decreases s.type_params.len() - i,
            {
                proof {
                    assert(decreases_to!(s.type_params => s.type_params[i as int]));
                    assert(decreases_to!(*t => (*t)->Struct_0));
                    assert(decreases_to!((*t)->Struct_0 => (*t)->Struct_0.type_params));
                }
                if !names_valid_within(&s.type_params[i], budget - 1) {
                    proof {
                        lemma_params_model(s.type_params, s.type_params.len() as nat);
                        lemma_params_depth_bound(params_view(s.type_params), (budget - 1) as nat);
                        let pv = params_view(s.type_params);
                        assert(pv[i as int] == s.type_params[i as int]@);
                        assert(t@ == TypeTagModel::Struct(s@));
                        if !type_tag_names_valid(pv[i as int]) {
                            assert(s@.type_params == pv);
                            assert(!type_tag_names_valid(s@.type_params[i as int]));
                            lemma_params_names_valid(pv);
                            assert(!type_tag_names_valid(t@));
                        } else {
                            assert(type_tag_depth(pv[i as int]) > budget - 1);
                            assert(!(params_depth(pv) <= budget - 1));
                        }
                    }
                    return false;
                }
                i = i + 1;
            }
            proof {
                lemma_params_model(s.type_params, s.type_params.len() as nat);
                lemma_params_depth_bound(params_view(s.type_params), (budget - 1) as nat);
                lemma_params_names_valid(params_view(s.type_params));
                assert forall|k: int| 0 <= k < params_view(s.type_params).len() implies type_tag_names_valid(
                    #[trigger] params_view(s.type_params)[k],
                ) && type_tag_depth(params_view(s.type_params)[k]) <= budget - 1 by {
                    assert(params_view(s.type_params)[k] == s.type_params[k]@);
                }
            }
            true
        },
        _ => true,
    }
}

impl StructTag {
    /// Whether the tag can key the byte store: its names are identifiers and it nests no deeper
    /// than [`MAX_TAG_DEPTH`].
    pub fn is_wf(&self) -> (r: bool)
        ensures
            r == self@.wf(),
    {
        proof {
            lemma_params_model(self.type_params, self.type_params.len() as nat);
            lemma_params_depth_bound(params_view(self.type_params), (MAX_TAG_DEPTH - 1) as nat);
        }
        if !is_valid_key_name(&self.module) || !is_valid_key_name(&self.name)
            || self.type_params.len() as u64 > MAX_SEQUENCE_LENGTH {
            return false;
        }
        let mut i: usize = 0;
        while i < self.type_params.len()
            invariant
                i <= self.type_params.len(),
                forall|k: int|
                    0 <= k < i ==> type_tag_names_valid(#[trigger] self.type_params[k]@)
                        && type_tag_depth(self.type_params[k]@) <= MAX_TAG_DEPTH - 1,
            decreases self.type_params.len() - i,
        {
            if !names_valid_within(&self.type_params[i], MAX_TAG_DEPTH - 1) {
                proof {
                    lemma_params_model(self.type_params, self.type_params.len() as nat);
                    lemma_params_depth_bound(params_view(self.type_params), (MAX_TAG_DEPTH - 1) as nat);
                    assert(params_view(self.type_params)[i as int] == self.type_params[i as int]@);
                }
                return false;
            }
            i = i + 1;
        }
        proof {
            lemma_params_model(self.type_params, self.type_params.len() as nat);
            lemma_params_depth_bound(params_view(self.type_params), (MAX_TAG_DEPTH - 1) as nat);
            assert forall|k: int| 0 <= k < params_view(self.type_params).len() implies type_tag_names_valid(
                #[trigger] params_view(self.type_params)[k],
            ) && type_tag_depth(params_view(self.type_params)[k]) <= MAX_TAG_DEPTH - 1 by {
                assert(params_view(self.type_params)[k] == self.type_params[k]@);
            }
        }
        true
    }
}

} // verus!
