//! Byte-store adapter: storage keys and the host's raw key/value store.
use crate::language::{
    be_bytes, type_tag_names_valid, AccountAddress, ModuleId, ModuleIdModel, StructTag,
    StructTagModel, TypeTag,
};
use move_core_types::account_address::AccountAddress as CoreAddress;
use move_core_types::identifier::Identifier as CoreIdentifier;
use move_core_types::language_storage::{
    ModuleId as CoreModuleId, StructTag as CoreStructTag, TypeTag as CoreTypeTag,
};
use vstd::prelude::*;

verus! {

#[verifier::external_type_specification]
#[verifier::external_body]
pub struct ExCoreStructTag(CoreStructTag);

#[verifier::external_type_specification]
#[verifier::external_body]
pub struct ExCoreTypeTag(CoreTypeTag);

#[verifier::external_type_specification]
#[verifier::external_body]
pub struct ExCoreModuleId(CoreModuleId);

/// The canonical key suffix of a resource type: its kind byte, then the tag's canonical
/// serialization.
pub uninterp spec fn resource_access_vector_of(tag: StructTagModel) -> Seq<u8>;

/// The canonical key suffix of a module: its kind byte, then the id's canonical serialization.
pub uninterp spec fn module_access_vector_of(id: ModuleIdModel) -> Seq<u8>;

/// Builds move_core_types' `TypeTag` from ours, one variant for one; `Identifier::new` accepts
/// each name because every name is a valid identifier.
#[verifier::external_body]
fn core_type_tag(t: &TypeTag) -> CoreTypeTag
    requires
        type_tag_names_valid(t@),
{
    match t {
        TypeTag::Bool => CoreTypeTag::Bool,
        TypeTag::U8 => CoreTypeTag::U8,
        TypeTag::U64 => CoreTypeTag::U64,
        TypeTag::U128 => CoreTypeTag::U128,
        TypeTag::Address => CoreTypeTag::Address,
        TypeTag::Signer => CoreTypeTag::Signer,
        TypeTag::Vector(b) => CoreTypeTag::Vector(Box::new(core_type_tag(b))),
        TypeTag::Struct(s) => CoreTypeTag::Struct(core_struct_tag(s)),
    }
}

/// Builds move_core_types' `StructTag` from ours, field for field; `Identifier::new` accepts
/// each name because every name is a valid identifier.
#[verifier::external_body]
fn core_struct_tag(t: &StructTag) -> CoreStructTag
    requires
        t@.wf(),
{
    CoreStructTag {
        address: CoreAddress::new(t.address.value.to_be_bytes()),
        module: CoreIdentifier::new(t.module.as_str()).unwrap(),
        name: CoreIdentifier::new(t.name.as_str()).unwrap(),
        type_params: t.type_params.iter().map(core_type_tag).collect(),
    }
}

/// Relies on move_core_types' `StructTag::access_vector`: the resource kind byte (1) followed by
/// the tag's canonical serialization, a function of the tag alone. Its `unwrap` holds because
/// the tag nests no deeper, and holds no name or argument list longer, than the serializer
/// accepts.
#[verifier::external_body]
pub(crate) fn struct_access_vector(tag: &StructTag) -> (r: Vec<u8>)
    requires
        tag@.wf(),
    ensures
        r@ == resource_access_vector_of(tag@),
        r@.len() >= 1,
        r@[0] == 1,
{
    core_struct_tag(tag).access_vector()
}

/// Relies on move_core_types' `ModuleId::access_vector`: the code kind byte (0) followed by the
/// id's canonical serialization, a function of the id alone. Its `unwrap` holds because the name
/// is no longer than the serializer accepts.
#[verifier::external_body]
fn module_access_vector(id: &ModuleId) -> (r: Vec<u8>)
    requires
        id@.wf(),
    ensures
        r@ == module_access_vector_of(id@),
        r@.len() >= 1,
        r@[0] == 0,
{
    let name = CoreIdentifier::new(id.name.as_str()).unwrap();
    CoreModuleId::new(CoreAddress::new(id.address.value.to_be_bytes()), name).access_vector()
}

/// A location in the byte store: an account and a path under it.
#[derive(Debug, PartialEq, Eq)]
pub struct AccessPath {
    pub address: AccountAddress,
    pub path: Vec<u8>,
}

/// The flat key of `(address, path)`: the address's 16 bytes, then the path.
pub open spec fn encode_key(address: u128, path: Seq<u8>) -> Seq<u8> {
    be_bytes(address as nat, 16) + path
}

/// The address bytes and the path that a flat key of at least 16 bytes consists of.
pub open spec fn decode_key(key: Seq<u8>) -> (Seq<u8>, Seq<u8>) {
    (key.subrange(0, 16), key.subrange(16, key.len() as int))
}

/// Joins split address bytes and a path back into a key.
pub open spec fn join_key(parts: (Seq<u8>, Seq<u8>)) -> Seq<u8> {
    parts.0 + parts.1
}

/// The key under which the resource `tag` of `address` is stored.
pub open spec fn resource_key(address: u128, tag: StructTagModel) -> Seq<u8> {
    encode_key(address, resource_access_vector_of(tag))
}

/// The key under which module `id` is stored.
pub open spec fn module_key(id: ModuleIdModel) -> Seq<u8> {
    encode_key(id.address, module_access_vector_of(id))
}

pub proof fn lemma_be_bytes_len(x: nat, n: nat)
    ensures
        be_bytes(x, n).len() == n,
    decreases n,
{
    if n > 0 {
        lemma_be_bytes_len(x / 256, (n - 1) as nat);
    }
}

/// Splitting a key that the store layer produced and joining the parts gives the key back, and
/// the parts are the address's bytes and the path.
pub proof fn lemma_key_round_trip(address: u128, path: Seq<u8>)
    ensures
        decode_key(encode_key(address, path)) == (be_bytes(address as nat, 16), path),
        join_key(decode_key(encode_key(address, path))) == encode_key(address, path),
{
    lemma_be_bytes_len(address as nat, 16);
    let k = encode_key(address, path);
    assert(k.subrange(0, 16) =~= be_bytes(address as nat, 16));
    assert(k.subrange(16, k.len() as int) =~= path);
    assert(join_key(decode_key(k)) =~= k);
}

/// Resource keys and module keys never collide: their paths begin with different kind bytes.
pub proof fn lemma_resource_and_module_keys_differ(
    address: u128,
    tag: StructTagModel,
    id: ModuleIdModel,
)
    requires
        resource_access_vector_of(tag).len() >= 1,
        resource_access_vector_of(tag)[0] == 1,
        module_access_vector_of(id).len() >= 1,
        module_access_vector_of(id)[0] == 0,
    ensures
        resource_key(address, tag) != module_key(id),
{
    lemma_be_bytes_len(address as nat, 16);
    lemma_be_bytes_len(id.address as nat, 16);
    assert(resource_key(address, tag)[16] == 1);
    assert(module_key(id)[16] == 0);
}

impl AccessPath {
    pub fn new(address: AccountAddress, path: Vec<u8>) -> (r: AccessPath)
        ensures
            r.address == address,
            r.path@ == path@,
    {
        AccessPath { address, path }
    }

    /// The path of resource `tag` under `address`.
    pub fn resource_access_path(address: AccountAddress, tag: &StructTag) -> (r: AccessPath)
        requires
            tag@.wf(),
        ensures
            r.address == address,
            r.path@ == resource_access_vector_of(tag@),
    {
        AccessPath { address, path: struct_access_vector(tag) }
    }

    /// The path of module `id`, under the address it was published at.
    pub fn code_access_path(id: &ModuleId) -> (r: AccessPath)
        requires
            id@.wf(),
        ensures
            r.address == id.address,
            r.path@ == module_access_vector_of(id@),
    {
        AccessPath { address: id.address, path: module_access_vector(id) }
    }

    /// The flat byte-store key of this path.
    pub fn key(&self) -> (r: Vec<u8>)
        ensures
            r@ == encode_key(self.address.value, self.path@),
    {
        let mut key = self.address.to_u8();
        let mut i: usize = 0;
        while i < self.path.len()
            invariant
                i <= self.path.len(),
                key@ == be_bytes(self.address.value as nat, 16) + self.path@.subrange(0, i as int),
            decreases self.path.len() - i,
        {
            proof {
                assert(self.path@.subrange(0, i + 1) =~= self.path@.subrange(0, i as int).push(
                    self.path@[i as int],
                ));
            }
            key.push(self.path[i]);
            i = i + 1;
        }
        assert(self.path@.subrange(0, self.path.len() as int) =~= self.path@);
        key
    }
}

/// The host's raw key/value store.
pub trait RawData {
    /// The value stored under `key`, if any.
    fn get(&self, key: &[u8]) -> Option<Vec<u8>>;

    /// Stores `value` under `key`.
    fn insert(&self, key: &[u8], value: &[u8]);

    /// Removes whatever is stored under `key`.
    fn remove(&self, key: &[u8]);
}

/// Writes into the byte store by access path.
pub trait DataMutator {
    /// Removes the blob stored at `path`.
    fn delete(&self, path: AccessPath);

    /// Stores `blob` at `path`.
    fn insert(&self, path: AccessPath, blob: Vec<u8>);
}

/// The byte store as the session sees it: keyed by access path.
pub struct DataAccess<D: RawData> {
    data_access: D,
}

impl<D: RawData> DataAccess<D> {
    pub fn new(raw_data: D) -> (r: DataAccess<D>)
        ensures
            r.raw() == raw_data,
    {
        DataAccess { data_access: raw_data }
    }

    /// The host store underneath.
    pub closed spec fn raw(&self) -> D {
        self.data_access
    }

    /// What the host store holds under the key of `path`.
    pub fn get_by_path(&self, path: AccessPath) -> Option<Vec<u8>> {
        let key = path.key();
        self.data_access.get(key.as_slice())
    }

    /// The published binary of module `module_id`, if any.
    pub fn get_module(&self, module_id: &ModuleId) -> Option<Vec<u8>>
        requires
            module_id@.wf(),
    {
        self.get_by_path(AccessPath::code_access_path(module_id))
    }

    /// The blob of resource `tag` under `address`, if any.
    pub fn get_resource(&self, address: &AccountAddress, tag: &StructTag) -> Option<Vec<u8>>
        requires
            tag@.wf(),
    {
        self.get_by_path(AccessPath::resource_access_path(*address, tag))
    }
}

impl<D: RawData> DataMutator for DataAccess<D> {
    fn delete(&self, path: AccessPath) {
        let key = path.key();
        self.data_access.remove(key.as_slice());
    }

    fn insert(&self, path: AccessPath, blob: Vec<u8>) {
        let key = path.key();
        self.data_access.insert(key.as_slice(), blob.as_slice());
    }
}

} // verus!
