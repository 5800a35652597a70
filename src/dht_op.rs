//! The DHT operations derived from an element for publication.
use crate::hash::HeaderHash;
use crate::header::{content_type, Element, HeaderType};
use vstd::prelude::*;

verus! {

#[derive(Clone, Copy, Debug, PartialEq, Eq, Structural)]
pub enum DhtOpType {
    StoreElement,
    StoreEntry,
    RegisterAgentActivity,
    RegisterUpdatedBy,
    RegisterDeletedBy,
    RegisterDeletedEntryHeader,
    RegisterAddLink,
    RegisterRemoveLink,
}

/// One operation derived from the element at `header_address`.
#[derive(Clone, Copy, Debug, PartialEq, Eq, Structural)]
pub struct DhtOp {
    pub op_type: DhtOpType,
    pub header_address: HeaderHash,
}

/// The operations a header of kind `t` gives rise to: every element is
/// stored and registered as agent activity; the kind adds its own.
pub open spec fn op_types(t: HeaderType) -> Seq<DhtOpType> {
    let common = seq![DhtOpType::StoreElement, DhtOpType::RegisterAgentActivity];
    match t {
        HeaderType::Create => common.push(DhtOpType::StoreEntry),
        HeaderType::Update => common + seq![DhtOpType::StoreEntry, DhtOpType::RegisterUpdatedBy],
        HeaderType::Delete => common + seq![
            DhtOpType::RegisterDeletedBy,
            DhtOpType::RegisterDeletedEntryHeader,
        ],
        HeaderType::CreateLink => common.push(DhtOpType::RegisterAddLink),
        HeaderType::DeleteLink => common.push(DhtOpType::RegisterRemoveLink),
        _ => common,
    }
}

/// The operations of an element, in the order of `op_types`.
pub open spec fn element_ops(e: Element) -> Seq<DhtOp> {
    op_types(content_type(e.spec_header().content)).map_values(
        |t: DhtOpType| DhtOp { op_type: t, header_address: e.address() },
    )
}

/// Expands an element into the DHT operations it gives rise to.
pub fn produce_ops_from_element(e: &Element) -> (r: Vec<DhtOp>)
    ensures
        r@ == element_ops(*e),
{
    let a = *e.header_address();
    let t = e.header().header_type();
    let mut ops: Vec<DhtOp> = Vec::new();
    ops.push(DhtOp { op_type: DhtOpType::StoreElement, header_address: a });
    ops.push(DhtOp { op_type: DhtOpType::RegisterAgentActivity, header_address: a });
    match t {
        HeaderType::Create => {
            ops.push(DhtOp { op_type: DhtOpType::StoreEntry, header_address: a });
        },
        HeaderType::Update => {
            ops.push(DhtOp { op_type: DhtOpType::StoreEntry, header_address: a });
            ops.push(DhtOp { op_type: DhtOpType::RegisterUpdatedBy, header_address: a });
        },
        HeaderType::Delete => {
            ops.push(DhtOp { op_type: DhtOpType::RegisterDeletedBy, header_address: a });
            ops.push(DhtOp { op_type: DhtOpType::RegisterDeletedEntryHeader, header_address: a });
        },
        HeaderType::CreateLink => {
            ops.push(DhtOp { op_type: DhtOpType::RegisterAddLink, header_address: a });
        },
        HeaderType::DeleteLink => {
            ops.push(DhtOp { op_type: DhtOpType::RegisterRemoveLink, header_address: a });
        },
        _ => {},
    }
    assert(ops@ =~= element_ops(*e));
    ops
}

} // verus!
