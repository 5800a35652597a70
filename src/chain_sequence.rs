//! The chain sequence index: sequence number to header address, with a flag
//! per entry telling whether its DHT operations have been produced.
use crate::gatekeep::SequenceRecord;
use crate::hash::HeaderHash;
use crate::source_chain_buffer::SourceChainError;
use vstd::prelude::*;

verus! {

#[derive(Clone, Copy, Debug, PartialEq, Eq, Structural)]
pub struct ChainSequenceItem {
    pub header_address: HeaderHash,
    pub dht_transforms_complete: bool,
}

/// A staged view of the index: the persisted entries followed by the ones
/// appended since, with the completions marked since.
#[derive(Clone, Debug)]
pub struct ChainSequenceBuf {
    items: Vec<ChainSequenceItem>,
    persisted_len: usize,
    completed: Vec<u32>,
}

/// The records hold sequence numbers 0, 1, 2, ... in order.
pub open spec fn records_in_order(records: Seq<SequenceRecord>) -> bool {
    forall|i: int| 0 <= i < records.len() ==> (#[trigger] records[i]).seq == i
}

pub open spec fn record_item(r: SequenceRecord) -> ChainSequenceItem {
    ChainSequenceItem { header_address: r.header_address, dht_transforms_complete: r.dht_transforms_complete }
}

/// The entries among the first `n` of `items` whose DHT operations are still
/// pending, as (sequence number, address), in order.
pub open spec fn incomplete_items(items: Seq<ChainSequenceItem>, n: int) -> Seq<(u32, HeaderHash)>
    decreases n,
{
    if n <= 0 {
        seq![]
    } else if items[n - 1].dht_transforms_complete {
        incomplete_items(items, n - 1)
    } else {
        incomplete_items(items, n - 1).push(((n - 1) as u32, items[n - 1].header_address))
    }
}

impl ChainSequenceBuf {
    pub closed spec fn items(self) -> Seq<ChainSequenceItem> {
        self.items@
    }

    pub closed spec fn persisted_len(self) -> nat {
        self.persisted_len as nat
    }

    /// The sequence numbers marked complete since loading, in order.
    pub closed spec fn completed(self) -> Seq<u32> {
        self.completed@
    }

    pub open spec fn wf(self) -> bool {
        &&& self.persisted_len() <= self.items().len() <= u32::MAX
    }

    pub open spec fn head(self) -> Option<HeaderHash> {
        if self.items().len() == 0 {
            None
        } else {
            Some(self.items().last().header_address)
        }
    }

    /// Loads the persisted index; fails if a record is out of order or repeated.
    pub fn new(records: &Vec<SequenceRecord>) -> (r: Result<ChainSequenceBuf, SourceChainError>)
        requires
            records@.len() <= u32::MAX,
        ensures
            r is Ok <==> records_in_order(records@),
            r is Err ==> r == Err::<ChainSequenceBuf, _>(SourceChainError::IndexCorrupt),
            r is Ok ==> {
                let b = r->Ok_0;
                &&& b.wf()
                &&& b.items() == records@.map_values(|x: SequenceRecord| record_item(x))
                &&& b.persisted_len() == records@.len()
                &&& b.completed() == Seq::<u32>::empty()
            },
    {
        let mut items: Vec<ChainSequenceItem> = Vec::new();
        let mut i: usize = 0;
        while i < records.len()
            invariant
                i <= records@.len() <= u32::MAX,
                forall|j: int| 0 <= j < i ==> (#[trigger] records@[j]).seq == j,
                items@ == records@.subrange(0, i as int).map_values(|x: SequenceRecord| record_item(x)),
            decreases records@.len() - i,
        {
            let rec = records[i];
            if rec.seq as usize != i {
                return Err(SourceChainError::IndexCorrupt);
            }
            items.push(ChainSequenceItem {
                header_address: rec.header_address,
                dht_transforms_complete: rec.dht_transforms_complete,
            });
            assert(records@.subrange(0, i + 1) =~= records@.subrange(0, i as int).push(rec));
            assert(items@ =~= records@.subrange(0, i + 1).map_values(|x: SequenceRecord| record_item(x)));
            i = i + 1;
        }
        assert(records@.subrange(0, i as int) =~= records@);
        Ok(ChainSequenceBuf { items, persisted_len: i, completed: Vec::new() })
    }

    pub fn len(&self) -> (r: usize)
        ensures
            r == self.items().len(),
    {
        self.items.len()
    }

    pub fn get(&self, i: u32) -> (r: Option<HeaderHash>)
        ensures
            r == (if i < self.items().len() {
                Some(self.items()[i as int].header_address)
            } else {
                None
            }),
    {
        if (i as usize) < self.items.len() {
            Some(self.items[i as usize].header_address)
        } else {
            None
        }
    }

    pub fn chain_head(&self) -> (r: Option<HeaderHash>)
        ensures
            r == self.head(),
    {
        if self.items.len() == 0 {
            None
        } else {
            Some(self.items[self.items.len() - 1].header_address)
        }
    }

    /// Appends an address at the next sequence number, which it returns.
    pub fn put_header(&mut self, header_address: HeaderHash) -> (r: u32)
        requires
            old(self).wf(),
            old(self).items().len() < u32::MAX,
        ensures
            r == old(self).items().len(),
            final(self).wf(),
            final(self).items() == old(self).items().push(
                ChainSequenceItem { header_address, dht_transforms_complete: false },
            ),
            final(self).persisted_len() == old(self).persisted_len(),
            final(self).completed() == old(self).completed(),
    {
        let seq = self.items.len() as u32;
        self.items.push(ChainSequenceItem { header_address, dht_transforms_complete: false });
        seq
    }

    /// Marks the DHT operations of entry `i` as produced; no effect if `i` is
    /// past the end.
    pub fn complete_dht_op(&mut self, i: u32)
        requires
            old(self).wf(),
        ensures
            final(self).wf(),
            final(self).persisted_len() == old(self).persisted_len(),
            i < old(self).items().len() ==> {
                &&& final(self).items() == old(self).items().update(
                    i as int,
                    ChainSequenceItem { dht_transforms_complete: true, ..old(self).items()[i as int] },
                )
                &&& final(self).completed() == old(self).completed().push(i)
            },
            i >= old(self).items().len() ==> *final(self) == *old(self),
    {
        if (i as usize) < self.items.len() {
            let item = self.items[i as usize];
            self.items.set(i as usize, ChainSequenceItem { dht_transforms_complete: true, ..item });
            self.completed.push(i);
        }
    }

    /// The entries whose DHT operations are still pending, in order.
    pub fn get_items_with_incomplete_dht_ops(&self) -> (r: Vec<(u32, HeaderHash)>)
        requires
            self.wf(),
        ensures
            r@ == incomplete_items(self.items(), self.items().len() as int),
    {
        let mut out: Vec<(u32, HeaderHash)> = Vec::new();
        let mut i: usize = 0;
        while i < self.items.len()
            invariant
                i <= self.items@.len() <= u32::MAX,
                out@ == incomplete_items(self.items@, i as int),
            decreases self.items@.len() - i,
        {
            if !self.items[i].dht_transforms_complete {
                out.push((i as u32, self.items[i].header_address));
            }
            i = i + 1;
        }
        out
    }

    /// Moves the marks made since loading out of the buffer.
    pub fn take_completed(&mut self) -> (r: Vec<u32>)
        ensures
            r@ == old(self).completed(),
            final(self).items() == old(self).items(),
            final(self).persisted_len() == old(self).persisted_len(),
            final(self).completed() == Seq::<u32>::empty(),
    {
        let mut out = Vec::new();
        core::mem::swap(&mut out, &mut self.completed);
        out
    }
}

} // verus!
