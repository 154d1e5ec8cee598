//! Chain context: the synthetic timestamp and block-height resources.
use crate::errors::{resolution, ResolverResult};
use crate::language::{
    core_address, le_bytes, str_eq, to_le_bytes, AccountAddress, StructTag, StructTagModel,
};
use vstd::prelude::*;

verus! {

/// What the host tells a session about the transaction's place in the chain.
#[derive(Clone, Copy, Debug, Default, PartialEq, Eq, Structural)]
pub struct TxInfo {
    pub timestamp: u64,
    pub block_height: u64,
}

impl TxInfo {
    pub fn new(timestamp: u64, block_height: u64) -> (r: TxInfo)
        ensures
            r.timestamp == timestamp,
            r.block_height == block_height,
    {
        TxInfo { timestamp, block_height }
    }
}

/// `0x1::Timestamp::CurrentTimeMicroseconds`, the resource that holds the block time.
pub open spec fn is_timestamp_tag(tag: StructTagModel) -> bool {
    &&& tag.address == core_address()
    &&& tag.module == "Timestamp"@
    &&& tag.name == "CurrentTimeMicroseconds"@
    &&& tag.type_params.len() == 0
}

/// `0x1::Block::BlockMetadata`, the resource that holds the block height.
pub open spec fn is_block_tag(tag: StructTagModel) -> bool {
    &&& tag.address == core_address()
    &&& tag.module == "Block"@
    &&& tag.name == "BlockMetadata"@
    &&& tag.type_params.len() == 0
}

/// What the chain context answers for resource `tag` at `address`: `None` when it does not own
/// the resource; otherwise the 8 little-endian bytes of the value, or nothing without `info`.
pub open spec fn context_resolution(info: Option<TxInfo>, address: u128, tag: StructTagModel) -> Option<
    Result<Option<Seq<u8>>, crate::errors::StatusCode>,
> {
    if address == core_address() && is_timestamp_tag(tag) {
        Some(Ok(
            match info {
                Some(i) => Some(le_bytes(i.timestamp as nat, 8)),
                None => None,
            },
        ))
    } else if address == core_address() && is_block_tag(tag) {
        Some(Ok(
            match info {
                Some(i) => Some(le_bytes(i.block_height as nat, 8)),
                None => None,
            },
        ))
    } else {
        None
    }
}

/// Resolves the chain-context resources of one session.
pub struct ExecutionContext {
    info: Option<TxInfo>,
}

impl ExecutionContext {
    pub fn new(info: Option<TxInfo>) -> (r: ExecutionContext)
        ensures
            r.info() == info,
    {
        ExecutionContext { info }
    }

    /// The transaction information this session was opened with.
    pub closed spec fn info(&self) -> Option<TxInfo> {
        self.info
    }

    /// The timestamp or block height for their well-known tags under the core address;
    /// unresolved for anything else.
    pub fn resolve(&self, addr: &AccountAddress, tag: &StructTag) -> (r: ResolverResult)
        ensures
            resolution(r) == context_resolution(self.info(), addr.value, tag@),
    {
        if addr.value == 1 && tag.address.value == 1 && tag.type_params.len() == 0 {
            if str_eq(&tag.module, "Timestamp") && str_eq(&tag.name, "CurrentTimeMicroseconds") {
                return match &self.info {
                    Some(info) => ResolverResult::Resolved(
                        Ok(Some(to_le_bytes(info.timestamp as u128, 8))),
                    ),
                    None => ResolverResult::Resolved(Ok(None)),
                };
            } else if str_eq(&tag.module, "Block") && str_eq(&tag.name, "BlockMetadata") {
                return match &self.info {
                    Some(info) => ResolverResult::Resolved(
                        Ok(Some(to_le_bytes(info.block_height as u128, 8))),
                    ),
                    None => ResolverResult::Resolved(Ok(None)),
                };
            }
        }
        ResolverResult::Unresolved
    }
}

} // verus!
