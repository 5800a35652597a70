//! The source chain buffer: appends, lookups and backward iteration over a
//! source chain, staged on top of what is persisted.
use crate::chain_sequence::{incomplete_items, records_in_order, ChainSequenceBuf, ChainSequenceItem};
use crate::dht_op::{element_ops, produce_ops_from_element, DhtOp};
use crate::element_buf::{first_element_at, has_element, lemma_first_element_unique, lookup_element, lookup_entry, ElementBuf};
use crate::gatekeep::{LmdbTransaction, LmdbUnique};
use crate::hash::{AgentPubKey, DnaHash, EntryHash, HeaderHash};
use crate::header::{
    encode_header, entry_hash, hash_header, header_encoding, header_hash, Element, Entry,
    EntryHashed, EntryType, Header, HeaderContent, SignedHeaderHashed,
};
use crate::json::{
    element_json, joined, json_array, lemma_element_json_valid, lemma_json_array_valid, lit, push_element_json,
    push_lit, utf8_text,
};
use crate::keystore::Keystore;
use vstd::prelude::*;

verus! {

#[derive(Clone, Copy, Debug, PartialEq, Eq, Structural)]
pub enum ChainInvalidReason {
    GenesisDataMissing,
    MalformedGenesisData,
}

#[derive(Clone, Copy, Debug, PartialEq, Eq, Structural)]
pub enum SourceChainError {
    /// The persisted sequence index holds a number out of order or twice.
    IndexCorrupt,
    /// The author's signing key is not held locally.
    KeyUnavailable,
    InvalidStructure(ChainInvalidReason),
    /// The sequence index names an element that the element store lacks.
    ElementMissing(HeaderHash),
}

/// The element that appending `header` with `entry` stores.
pub open spec fn signed_element(ks: Keystore, header: Header, entry: Option<Entry>) -> Element {
    Element {
        signed_header: SignedHeaderHashed {
            header,
            header_address: header_hash(header),
            signature: ks.signature_of(header.author, header_encoding(header)),
        },
        entry: match entry {
            Some(e) => Some(EntryHashed { entry: e, entry_hash: entry_hash(e) }),
            None => None,
        },
    }
}

/// Each element's header sits at its own position in the sequence and links
/// to the element before it; each address matches its header.
pub open spec fn contiguous(els: Seq<Element>) -> bool {
    forall|i: int|
        0 <= i < els.len() ==> {
            &&& (#[trigger] els[i]).spec_header().header_seq == i
            &&& els[i].spec_header().prev_header == (if i == 0 {
                None
            } else {
                Some(els[i - 1].address())
            })
            &&& els[i].signed_header.wf()
        }
}

/// The three genesis headers: the chain origin, the agent validation package
/// and the agent's key, with timestamps `t`, `t + 1`, `t + 2`.
pub open spec fn genesis_header(
    dna_hash: DnaHash,
    agent: AgentPubKey,
    membrane_proof: Option<Vec<u8>>,
    t: u64,
    k: int,
) -> Header
    decreases k,
{
    if k <= 0 {
        Header {
            author: agent,
            timestamp: t,
            header_seq: 0,
            prev_header: None,
            content: HeaderContent::Dna { hash: dna_hash },
        }
    } else if k == 1 {
        Header {
            author: agent,
            timestamp: (t + 1) as u64,
            header_seq: 1,
            prev_header: Some(header_hash(genesis_header(dna_hash, agent, membrane_proof, t, 0))),
            content: HeaderContent::AgentValidationPkg { membrane_proof },
        }
    } else {
        Header {
            author: agent,
            timestamp: (t + 2) as u64,
            header_seq: 2,
            prev_header: Some(header_hash(genesis_header(dna_hash, agent, membrane_proof, t, 1))),
            content: HeaderContent::Create { entry_type: EntryType::AgentPubKey, entry_hash: agent },
        }
    }
}

/// The elements genesis appends.
pub open spec fn genesis_elements(
    ks: Keystore,
    dna_hash: DnaHash,
    agent: AgentPubKey,
    membrane_proof: Option<Vec<u8>>,
    t: u64,
) -> Seq<Element> {
    seq![
        signed_element(ks, genesis_header(dna_hash, agent, membrane_proof, t, 0), None),
        signed_element(ks, genesis_header(dna_hash, agent, membrane_proof, t, 1), None),
        signed_element(ks, genesis_header(dna_hash, agent, membrane_proof, t, 2), Some(Entry::Agent(agent))),
    ]
}

/// The header that `put` appends after `head` at position `len`.
pub open spec fn next_header(
    author: AgentPubKey,
    timestamp: u64,
    len: nat,
    head: Option<HeaderHash>,
    content: HeaderContent,
) -> Header {
    Header { author, timestamp, header_seq: len as u32, prev_header: head, content }
}

pub open spec fn addresses(els: Seq<Element>) -> Seq<HeaderHash> {
    els.map_values(|e: Element| e.address())
}

pub open spec fn item_addresses(items: Seq<ChainSequenceItem>) -> Seq<HeaderHash> {
    items.map_values(|x: ChainSequenceItem| x.header_address)
}

/// The DHT operations of each pending entry, keyed by its sequence number.
pub open spec fn pending_ops(all: Seq<Element>, pending: Seq<(u32, HeaderHash)>) -> Seq<(u32, Seq<DhtOp>)> {
    pending.map_values(
        |p: (u32, HeaderHash)| (p.0, element_ops(lookup_element(all, p.1)->Some_0)),
    )
}

/// The staging area of one source chain: an element store and a sequence
/// index over persisted state, and the keystore that signs new headers.
pub struct SourceChainBuf<'a> {
    elements: ElementBuf<'a>,
    sequence: ChainSequenceBuf,
    keystore: &'a Keystore,
}

impl<'a> SourceChainBuf<'a> {
    pub closed spec fn element_buf(self) -> ElementBuf<'a> {
        self.elements
    }

    pub closed spec fn sequence_buf(self) -> ChainSequenceBuf {
        self.sequence
    }

    pub closed spec fn keys(self) -> Keystore {
        *self.keystore
    }

    /// The header addresses of the chain, by sequence number.
    pub open spec fn chain(self) -> Seq<HeaderHash> {
        item_addresses(self.sequence_buf().items())
    }

    /// Every element this buffer sees, persisted first.
    pub open spec fn all(self) -> Seq<Element> {
        self.element_buf().all()
    }

    pub open spec fn head(self) -> Option<HeaderHash> {
        self.sequence_buf().head()
    }

    pub open spec fn wf(self) -> bool {
        &&& self.sequence_buf().wf()
        &&& self.keys().wf()
    }

    /// The sequence index and the element store list the same elements, in
    /// the same order.
    pub open spec fn in_step(self) -> bool {
        self.chain() == addresses(self.all())
    }

    /// Opens a buffer over a durable store; fails if its index is corrupt.
    pub fn new(env: &'a LmdbUnique, keystore: &'a Keystore) -> (r: Result<SourceChainBuf<'a>, SourceChainError>)
        requires
            env.wf(),
            keystore.wf(),
        ensures
            r is Ok <==> records_in_order(env.sequence@),
            r is Err ==> r == Err::<SourceChainBuf<'a>, _>(SourceChainError::IndexCorrupt),
            r is Ok ==> {
                let b = r->Ok_0;
                &&& b.wf()
                &&& b.keys() == *keystore
                &&& b.all() == env.elements@
                &&& b.chain() == env.sequence@.map_values(|x: crate::gatekeep::SequenceRecord| x.header_address)
                &&& b.element_buf().scratch() == Seq::<Element>::empty()
                &&& b.sequence_buf().persisted_len() == env.sequence@.len()
                &&& b.sequence_buf().completed() == Seq::<u32>::empty()
            },
    {
        let sequence = ChainSequenceBuf::new(&env.sequence)?;
        let elements = ElementBuf::new(&env.elements);
        let r = SourceChainBuf { elements, sequence, keystore };
        assert(r.all() =~= env.elements@);
        assert(r.chain() =~= env.sequence@.map_values(|x: crate::gatekeep::SequenceRecord| x.header_address));
        Ok(r)
    }

    pub fn chain_head(&self) -> (r: Option<HeaderHash>)
        ensures
            r == self.head(),
    {
        self.sequence.chain_head()
    }

    pub fn len(&self) -> (r: usize)
        ensures
            r == self.chain().len(),
    {
        self.sequence.len()
    }

    /// True if the chain is empty.
    pub fn is_empty(&self) -> (r: bool)
        ensures
            r == (self.chain().len() == 0),
    {
        self.len() == 0
    }

    /// A fast check on length alone: at least the three genesis elements.
    pub fn has_genesis(&self) -> (r: bool)
        ensures
            r == (self.chain().len() >= 3),
    {
        self.sequence.len() >= 3
    }

    /// A fast check on length alone: something past genesis was appended.
    pub fn has_initialized(&self) -> (r: bool)
        ensures
            r == (self.chain().len() > 3),
    {
        self.len() > 3
    }

    pub fn get_element(&self, k: &HeaderHash) -> (r: Option<&Element>)
        ensures
            match r {
                Some(e) => lookup_element(self.all(), *k) == Some(*e),
                None => lookup_element(self.all(), *k) is None,
            },
    {
        self.elements.get_element(k)
    }

    pub fn get_header(&self, k: &HeaderHash) -> (r: Option<&SignedHeaderHashed>)
        ensures
            match r {
                Some(s) => lookup_element(self.all(), *k) is Some && lookup_element(
                    self.all(),
                    *k,
                )->Some_0.signed_header == *s,
                None => lookup_element(self.all(), *k) is None,
            },
    {
        self.elements.get_header(k)
    }

    pub fn get_entry(&self, k: &EntryHash) -> (r: Option<&EntryHashed>)
        ensures
            match r {
                Some(e) => lookup_entry(self.all(), *k) == Some(*e),
                None => lookup_entry(self.all(), *k) is None,
            },
    {
        self.elements.get_entry(k)
    }

    /// The element at sequence number `i`.
    pub fn get_at_index(&self, i: u32) -> (r: Option<&Element>)
        ensures
            i >= self.chain().len() ==> r is None,
            i < self.chain().len() ==> match r {
                Some(e) => lookup_element(self.all(), self.chain()[i as int]) == Some(*e),
                None => lookup_element(self.all(), self.chain()[i as int]) is None,
            },
    {
        match self.sequence.get(i) {
            Some(address) => self.get_element(&address),
            None => None,
        }
    }

    pub fn elements(&self) -> (r: &ElementBuf<'a>)
        ensures
            *r == self.element_buf(),
    {
        &self.elements
    }

    pub fn keystore(&self) -> (r: &'a Keystore)
        ensures
            *r == self.keys(),
    {
        self.keystore
    }

    pub fn sequence(&self) -> (r: &ChainSequenceBuf)
        ensures
            *r == self.sequence_buf(),
    {
        &self.sequence
    }

    /// Adds an element to the chain from a fully formed header: hashes it,
    /// signs it as its author, and stages it in the index and the store.
    pub fn put_raw(&mut self, header: Header, maybe_entry: Option<Entry>) -> (r: Result<HeaderHash, SourceChainError>)
        requires
            old(self).wf(),
            old(self).chain().len() < u32::MAX,
        ensures
            final(self).wf(),
            final(self).keys() == old(self).keys(),
            r is Ok <==> old(self).keys().holds(header.author),
            r is Err ==> r == Err::<HeaderHash, _>(SourceChainError::KeyUnavailable) && *final(self) == *old(self),
            r is Ok ==> {
                &&& r->Ok_0 == header_hash(header)
                &&& final(self).chain() == old(self).chain().push(r->Ok_0)
                &&& final(self).all() == old(self).all().push(signed_element(old(self).keys(), header, maybe_entry))
                &&& final(self).element_buf().persisted() == old(self).element_buf().persisted()
                &&& final(self).sequence_buf().persisted_len() == old(self).sequence_buf().persisted_len()
                &&& final(self).sequence_buf().completed() == old(self).sequence_buf().completed()
                &&& final(self).sequence_buf().items() == old(self).sequence_buf().items().push(
                    ChainSequenceItem { header_address: r->Ok_0, dht_transforms_complete: false },
                )
            },
    {
        let bytes = encode_header(&header);
        let header_address = hash_header(&header);
        let signature = match self.keystore.sign(&header.author, &bytes) {
            Ok(s) => s,
            Err(_) => {
                return Err(SourceChainError::KeyUnavailable);
            },
        };
        let signed_header = SignedHeaderHashed { header, header_address, signature };
        let ghost given_entry = maybe_entry;
        let hashed_entry = match maybe_entry {
            None => None,
            Some(entry) => Some(EntryHashed::from_content(entry)),
        };
        self.sequence.put_header(header_address);
        self.elements.put(signed_header, hashed_entry);
        assert(self.all() =~= old(self).all().push(signed_element(old(self).keys(), header, given_entry)));
        assert(self.chain() =~= old(self).chain().push(header_address));
        Ok(header_address)
    }

    /// Appends a header of the given content after the current head, at the
    /// next sequence number.
    pub fn put(
        &mut self,
        author: AgentPubKey,
        timestamp: u64,
        content: HeaderContent,
        maybe_entry: Option<Entry>,
    ) -> (r: Result<HeaderHash, SourceChainError>)
        requires
            old(self).wf(),
            old(self).chain().len() < u32::MAX,
        ensures
            final(self).wf(),
            final(self).keys() == old(self).keys(),
            r is Ok <==> old(self).keys().holds(author),
            r is Err ==> r == Err::<HeaderHash, _>(SourceChainError::KeyUnavailable) && *final(self) == *old(self),
            r is Ok ==> {
                let h = next_header(author, timestamp, old(self).chain().len(), old(self).head(), content);
                &&& r->Ok_0 == header_hash(h)
                &&& final(self).chain() == old(self).chain().push(r->Ok_0)
                &&& final(self).all() == old(self).all().push(signed_element(old(self).keys(), h, maybe_entry))
                &&& final(self).element_buf().persisted() == old(self).element_buf().persisted()
                &&& final(self).sequence_buf().persisted_len() == old(self).sequence_buf().persisted_len()
            },
    {
        let header_seq = self.len() as u32;
        let prev_header = self.chain_head();
        let header = Header { author, timestamp, header_seq, prev_header, content };
        self.put_raw(header, maybe_entry)
    }

    /// The agent key committed at sequence number 2 by genesis; none if the
    /// chain is not that long.
    pub fn agent_pubkey(&self) -> (r: Result<Option<AgentPubKey>, SourceChainError>)
        ensures
            ({
                let found = if self.chain().len() > 2 {
                    lookup_element(self.all(), self.chain()[2])
                } else {
                    None
                };
                match found {
                    None => r == Ok::<Option<AgentPubKey>, SourceChainError>(None),
                    Some(e) => match e.entry {
                        None => r == Err::<Option<AgentPubKey>, _>(
                            SourceChainError::InvalidStructure(ChainInvalidReason::GenesisDataMissing),
                        ),
                        Some(x) => match x.entry {
                            Entry::Agent(k) => r == Ok::<Option<AgentPubKey>, SourceChainError>(Some(k)),
                            Entry::App(_) => r == Err::<Option<AgentPubKey>, _>(
                                SourceChainError::InvalidStructure(ChainInvalidReason::MalformedGenesisData),
                            ),
                        },
                    },
                }
            }),
    {
        match self.get_at_index(2) {
            None => Ok(None),
            Some(element) => match &element.entry {
                None => Err(SourceChainError::InvalidStructure(ChainInvalidReason::GenesisDataMissing)),
                Some(x) => match &x.entry {
                    Entry::Agent(k) => Ok(Some(*k)),
                    Entry::App(_) => Err(SourceChainError::InvalidStructure(ChainInvalidReason::MalformedGenesisData)),
                },
            },
        }
    }

    /// Marks the DHT operations of entry `i` as produced.
    pub fn complete_dht_op(&mut self, i: u32)
        requires
            old(self).wf(),
        ensures
            final(self).wf(),
            final(self).all() == old(self).all(),
            final(self).chain() == old(self).chain(),
            final(self).keys() == old(self).keys(),
            final(self).sequence_buf().persisted_len() == old(self).sequence_buf().persisted_len(),
            i < old(self).chain().len() ==> {
                &&& final(self).sequence_buf().items() == old(self).sequence_buf().items().update(
                    i as int,
                    ChainSequenceItem { dht_transforms_complete: true, ..old(self).sequence_buf().items()[i as int] },
                )
                &&& final(self).sequence_buf().completed() == old(self).sequence_buf().completed().push(i)
            },
            i >= old(self).chain().len() ==> *final(self) == *old(self),
    {
        self.sequence.complete_dht_op(i);
        assert(self.chain() =~= old(self).chain());
    }

    /// The DHT operations of every entry still marked pending, keyed by its
    /// sequence number; fails if the store lacks a pending element.
    pub fn get_incomplete_dht_ops(&self) -> (r: Result<Vec<(u32, Vec<DhtOp>)>, SourceChainError>)
        requires
            self.wf(),
        ensures
            ({
                let pending = incomplete_items(
                    self.sequence_buf().items(),
                    self.sequence_buf().items().len() as int,
                );
                match r {
                    Ok(v) => {
                        &&& forall|j: int| 0 <= j < pending.len() ==> lookup_element(self.all(), #[trigger] pending[j].1) is Some
                        &&& v@.len() == pending.len()
                        &&& forall|j: int| 0 <= j < v@.len() ==> (#[trigger] v@[j]).0 == pending[j].0 && v@[j].1@ == pending_ops(self.all(), pending)[j].1
                    },
                    Err(e) => exists|j: int| 0 <= j < pending.len() && lookup_element(self.all(), #[trigger] pending[j].1) is None
                        && e == SourceChainError::ElementMissing(pending[j].1),
                }
            }),
    {
        let ops_headers = self.sequence.get_items_with_incomplete_dht_ops();
        let mut ops: Vec<(u32, Vec<DhtOp>)> = Vec::new();
        let mut i: usize = 0;
        while i < ops_headers.len()
            invariant
                ops_headers@ == incomplete_items(self.sequence_buf().items(), self.sequence_buf().items().len() as int),
                i <= ops_headers@.len(),
                ops@.len() == i,
                forall|j: int| 0 <= j < i ==> lookup_element(self.all(), #[trigger] ops_headers@[j].1) is Some,
                forall|j: int| 0 <= j < i ==> (#[trigger] ops@[j]).0 == ops_headers@[j].0 && ops@[j].1@ == pending_ops(self.all(), ops_headers@)[j].1,
            decreases ops_headers@.len() - i,
        {
            let (seq, header) = ops_headers[i];
            match self.get_element(&header) {
                None => {
                    return Err(SourceChainError::ElementMissing(header));
                },
                Some(element) => {
                    let op = produce_ops_from_element(element);
                    ops.push((seq, op));
                },
            }
            i = i + 1;
        }
        Ok(ops)
    }

    /// Appends the three genesis elements: the chain origin referencing the
    /// DNA, the agent validation package, and the agent's key as an entry,
    /// at sequence numbers 0, 1, 2 and timestamps `t`, `t + 1`, `t + 2`.
    pub fn genesis_at(
        &mut self,
        dna_hash: DnaHash,
        agent_pubkey: AgentPubKey,
        membrane_proof: Option<Vec<u8>>,
        t: u64,
    ) -> (r: Result<(), SourceChainError>)
        requires
            old(self).wf(),
            old(self).chain().len() + 3 <= u32::MAX,
            t <= u64::MAX - 2,
        ensures
            final(self).wf(),
            final(self).keys() == old(self).keys(),
            r is Ok <==> old(self).keys().holds(agent_pubkey),
            r is Err ==> r == Err::<(), _>(SourceChainError::KeyUnavailable) && *final(self) == *old(self),
            r is Ok ==> {
                let g = genesis_elements(old(self).keys(), dna_hash, agent_pubkey, membrane_proof, t);
                &&& final(self).all() == old(self).all() + g
                &&& final(self).chain() == old(self).chain() + addresses(g)
                &&& final(self).element_buf().persisted() == old(self).element_buf().persisted()
                &&& final(self).sequence_buf().persisted_len() == old(self).sequence_buf().persisted_len()
            },
    {
        let ghost proof_given = membrane_proof;
        let dna_header = Header {
            author: agent_pubkey,
            timestamp: t,
            header_seq: 0,
            prev_header: None,
            content: HeaderContent::Dna { hash: dna_hash },
        };
        let dna_header_address = self.put_raw(dna_header, None)?;
        let agent_validation_header = Header {
            author: agent_pubkey,
            timestamp: t + 1,
            header_seq: 1,
            prev_header: Some(dna_header_address),
            content: HeaderContent::AgentValidationPkg { membrane_proof },
        };
        let avh_addr = match self.put_raw(agent_validation_header, None) {
            Ok(a) => a,
            Err(e) => {
                return Err(e);
            },
        };
        let agent_header = Header {
            author: agent_pubkey,
            timestamp: t + 2,
            header_seq: 2,
            prev_header: Some(avh_addr),
            content: HeaderContent::Create { entry_type: EntryType::AgentPubKey, entry_hash: agent_pubkey },
        };
        match self.put_raw(agent_header, Some(Entry::Agent(agent_pubkey))) {
            Ok(_) => {},
            Err(e) => {
                return Err(e);
            },
        }
        proof {
            let g = genesis_elements(old(self).keys(), dna_hash, agent_pubkey, proof_given, t);
            assert(self.all() =~= old(self).all() + g);
            assert(self.chain() =~= old(self).chain() + addresses(g));
        }
        Ok(())
    }

    /// Genesis stamped with the current time.
    pub fn genesis(
        &mut self,
        dna_hash: DnaHash,
        agent_pubkey: AgentPubKey,
        membrane_proof: Option<Vec<u8>>,
    ) -> (r: Result<(), SourceChainError>)
        requires
            old(self).wf(),
            old(self).chain().len() + 3 <= u32::MAX,
        ensures
            final(self).wf(),
            r is Ok <==> old(self).keys().holds(agent_pubkey),
            r is Err ==> *final(self) == *old(self),
            r is Ok ==> exists|t: u64|
                final(self).all() == old(self).all() + #[trigger] genesis_elements(
                    old(self).keys(),
                    dna_hash,
                    agent_pubkey,
                    membrane_proof,
                    t,
                ) && final(self).chain() == old(self).chain() + addresses(
                    genesis_elements(old(self).keys(), dna_hash, agent_pubkey, membrane_proof, t),
                ),
    {
        let now = timestamp_now();
        let t = if now > u64::MAX - 2 { u64::MAX - 2 } else { now };
        self.genesis_at(dna_hash, agent_pubkey, membrane_proof, t)
    }

    /// A cursor from the head back to the first header.
    pub fn iter_back<'b>(&'b self) -> (r: SourceChainBackwardIterator<'b, 'a>)
        ensures
            r.store == self,
            r.current == self.head(),
    {
        SourceChainBackwardIterator::new(self)
    }

    /// The whole chain as a JSON array, newest element first, with `null`
    /// for an element the store lacks.
    pub fn dump_json_bytes(&self) -> (r: Vec<u8>)
        requires
            self.wf(),
        ensures
            r@ == json_array(dump_items(*self)),
    {
        let n = self.len();
        let ghost items = dump_items(*self);
        let mut out: Vec<u8> = Vec::new();
        push_lit(&mut out, "[");
        let mut k: usize = 0;
        while k < n
            invariant
                self.wf(),
                n == self.chain().len(),
                items == dump_items(*self),
                k <= n,
                out@ == lit("[") + joined(items, k as int),
            decreases n - k,
        {
            if k > 0 {
                push_lit(&mut out, ",");
            }
            let e = self.get_at_index((n - 1 - k) as u32);
            let ghost before = out@;
            push_element_json(&mut out, e);
            proof {
                let found = match e {
                    Some(x) => Some(*x),
                    None => None::<Element>,
                };
                assert(found == element_at(*self, n - 1 - k));
                assert(items[k as int] == element_json(found));
                if k > 0 {
                    assert(joined(items, k + 1) == joined(items, k as int) + lit(",") + items[k as int]);
                } else {
                    assert(joined(items, 1) == items[0]);
                }
            }
            assert(out@ =~= lit("[") + joined(items, k + 1));
            k = k + 1;
        }
        push_lit(&mut out, "]");
        assert(out@ =~= json_array(items));
        out
    }

    /// The diagnostic dump as text.
    pub fn dump_as_json(&self) -> (r: String)
        requires
            self.wf(),
        ensures
            r@ == vstd::utf8::decode_utf8(json_array(dump_items(*self))),
    {
        let bytes = self.dump_json_bytes();
        proof {
            let items = dump_items(*self);
            assert forall|i: int| 0 <= i < items.len() implies vstd::utf8::valid_utf8(#[trigger] items[i]) by {
                lemma_element_json_valid(element_at(*self, self.chain().len() - 1 - i));
            }
            lemma_json_array_valid(items);
        }
        utf8_text(bytes)
    }

    /// Moves what was staged into a prepared write.
    pub fn flush_to_txn_ref(&mut self, txn: &mut LmdbTransaction)
        requires
            old(self).wf(),
        ensures
            final(txn).elements@ == old(txn).elements@ + old(self).element_buf().scratch(),
            final(txn).completed@ == old(txn).completed@ + old(self).sequence_buf().completed(),
            final(self).element_buf().scratch() == Seq::<Element>::empty(),
            final(self).sequence_buf().completed() == Seq::<u32>::empty(),
            final(self).keys() == old(self).keys(),
            final(self).wf(),
    {
        let mut els = self.elements.take_scratch();
        txn.elements.append(&mut els);
        let mut done = self.sequence.take_completed();
        txn.completed.append(&mut done);
    }
}

/// Relies on `std::time::SystemTime::now`, read as microseconds since the
/// Unix epoch (zero for a clock set before it); nothing is assumed of the
/// value.
#[verifier::external_body]
fn timestamp_now() -> (r: u64) {
    match std::time::SystemTime::now().duration_since(std::time::UNIX_EPOCH) {
        Ok(d) => d.as_micros() as u64,
        Err(_) => 0,
    }
}

/// One step back from `cur`: the header found there, and where to go next.
pub open spec fn back_step(all: Seq<Element>, cur: Option<HeaderHash>) -> (Option<SignedHeaderHashed>, Option<HeaderHash>) {
    match cur {
        None => (None, None),
        Some(c) => match lookup_element(all, c) {
            None => (None, None),
            Some(e) => (Some(e.signed_header), e.spec_header().prev_header),
        },
    }
}

/// The headers met walking back from `cur`, taking at most `fuel` steps.
pub open spec fn walk_back(all: Seq<Element>, cur: Option<HeaderHash>, fuel: nat) -> Seq<SignedHeaderHashed>
    decreases fuel,
{
    if fuel == 0 {
        seq![]
    } else {
        match back_step(all, cur).0 {
            None => seq![],
            Some(s) => seq![s] + walk_back(all, back_step(all, cur).1, (fuel - 1) as nat),
        }
    }
}

/// The element at sequence number `i` of the buffer's chain.
pub open spec fn element_at(buf: SourceChainBuf, i: int) -> Option<Element> {
    if 0 <= i < buf.chain().len() {
        lookup_element(buf.all(), buf.chain()[i])
    } else {
        None
    }
}

/// The items of the diagnostic dump: one per sequence number, newest first.
pub open spec fn dump_items(buf: SourceChainBuf) -> Seq<Seq<u8>> {
    let n = buf.chain().len() as int;
    Seq::new(n as nat, |k: int| element_json(element_at(buf, n - 1 - k)))
}

/// Signed headers from the chain head back to the origin, found by
/// following each header's link to the one before it.
pub struct SourceChainBackwardIterator<'b, 'a> {
    pub store: &'b SourceChainBuf<'a>,
    pub current: Option<HeaderHash>,
}

impl<'b, 'a> SourceChainBackwardIterator<'b, 'a> {
    pub fn new(store: &'b SourceChainBuf<'a>) -> (r: SourceChainBackwardIterator<'b, 'a>)
        ensures
            r.store == store,
            r.current == store.head(),
    {
        SourceChainBackwardIterator { store, current: store.chain_head() }
    }

    /// The header at the cursor, moving the cursor to its predecessor; none
    /// once the cursor has passed the first header.
    pub fn next(&mut self) -> (r: Option<&'b SignedHeaderHashed>)
        ensures
            final(self).store == old(self).store,
            final(self).current == back_step(old(self).store.all(), old(self).current).1,
            match r {
                Some(s) => back_step(old(self).store.all(), old(self).current).0 == Some(*s),
                None => back_step(old(self).store.all(), old(self).current).0 is None,
            },
    {
        match self.current {
            None => None,
            Some(top) => {
                let header = self.store.get_header(&top);
                self.current = match header {
                    None => None,
                    Some(h) => h.header.prev_header,
                };
                header
            },
        }
    }
}

/// No two elements share an address.
pub open spec fn distinct_addresses(els: Seq<Element>) -> bool {
    forall|i: int, j: int| 0 <= i < j < els.len() ==> els[i].address() != els[j].address()
}

/// The signed headers of the first `m` elements, newest first.
pub open spec fn reversed_headers(els: Seq<Element>, m: int) -> Seq<SignedHeaderHashed> {
    Seq::new(m as nat, |k: int| els[m - 1 - k].signed_header)
}

/// The three genesis elements form a contiguous chain of their own.
pub proof fn lemma_genesis_contiguous(
    ks: Keystore,
    dna_hash: DnaHash,
    agent: AgentPubKey,
    membrane_proof: Option<Vec<u8>>,
    t: u64,
)
    requires
        t <= u64::MAX - 2,
    ensures
        contiguous(genesis_elements(ks, dna_hash, agent, membrane_proof, t)),
{
    let g = genesis_elements(ks, dna_hash, agent, membrane_proof, t);
    assert(g[0].spec_header() == genesis_header(dna_hash, agent, membrane_proof, t, 0));
    assert(g[1].spec_header() == genesis_header(dna_hash, agent, membrane_proof, t, 1));
    assert(g[2].spec_header() == genesis_header(dna_hash, agent, membrane_proof, t, 2));
}

/// Genesis appends exactly three elements, of kinds chain origin, agent
/// validation package and agent key (carrying the agent's key as its entry),
/// all authored by the agent.
pub proof fn lemma_genesis_shape(
    ks: Keystore,
    dna_hash: DnaHash,
    agent: AgentPubKey,
    membrane_proof: Option<Vec<u8>>,
    t: u64,
)
    ensures
        ({
            let g = genesis_elements(ks, dna_hash, agent, membrane_proof, t);
            &&& g.len() == 3
            &&& g[0].spec_header().content == HeaderContent::Dna { hash: dna_hash }
            &&& g[1].spec_header().content == HeaderContent::AgentValidationPkg { membrane_proof }
            &&& g[2].spec_header().content == (HeaderContent::Create {
                entry_type: EntryType::AgentPubKey,
                entry_hash: agent,
            })
            &&& g[2].entry == Some(EntryHashed { entry: Entry::Agent(agent), entry_hash: agent })
            &&& g[0].entry is None && g[1].entry is None
            &&& forall|i: int| 0 <= i < 3 ==> (#[trigger] g[i]).spec_header().author == agent
        }),
{
    let g = genesis_elements(ks, dna_hash, agent, membrane_proof, t);
    assert(g[0].spec_header() == genesis_header(dna_hash, agent, membrane_proof, t, 0));
    assert(g[1].spec_header() == genesis_header(dna_hash, agent, membrane_proof, t, 1));
    assert(g[2].spec_header() == genesis_header(dna_hash, agent, membrane_proof, t, 2));
}

/// Appending after the head at the next sequence number, as `put` does,
/// keeps a contiguous chain contiguous.
pub proof fn lemma_put_keeps_contiguous(
    els: Seq<Element>,
    ks: Keystore,
    author: AgentPubKey,
    timestamp: u64,
    content: HeaderContent,
    entry: Option<Entry>,
)
    requires
        contiguous(els),
        els.len() < u32::MAX,
    ensures
        contiguous(
            els.push(
                signed_element(
                    ks,
                    next_header(
                        author,
                        timestamp,
                        els.len(),
                        if els.len() == 0 {
                            None
                        } else {
                            Some(els.last().address())
                        },
                        content,
                    ),
                    entry,
                ),
            ),
        ),
{
    let head = if els.len() == 0 {
        None
    } else {
        Some(els.last().address())
    };
    let n = els.push(signed_element(ks, next_header(author, timestamp, els.len(), head, content), entry));
    assert forall|i: int| 0 <= i < n.len() implies {
        &&& (#[trigger] n[i]).spec_header().header_seq == i
        &&& n[i].spec_header().prev_header == (if i == 0 {
            None
        } else {
            Some(n[i - 1].address())
        })
        &&& n[i].signed_header.wf()
    } by {
        if i < els.len() {
            assert(n[i] == els[i]);
            if i > 0 {
                assert(n[i - 1] == els[i - 1]);
            }
        }
    }
}

/// `put_raw`'s element is found at the address `put_raw` returned, before
/// anything is flushed.
pub proof fn lemma_put_raw_then_get_element(
    before: Seq<Element>,
    after: Seq<Element>,
    ks: Keystore,
    header: Header,
    entry: Option<Entry>,
    address: HeaderHash,
)
    requires
        after == before.push(signed_element(ks, header, entry)),
        address == header_hash(header),
    ensures
        lookup_element(after, address) is Some,
{
    assert(after[before.len() as int].address() == address);
    assert(has_element(after, address));
}

proof fn lemma_walk_prefix(els: Seq<Element>, m: int, fuel: nat)
    requires
        contiguous(els),
        distinct_addresses(els),
        0 <= m <= els.len(),
        fuel >= m,
    ensures
        walk_back(
            els,
            if m == 0 {
                None
            } else {
                Some(els[m - 1].address())
            },
            fuel,
        ) == reversed_headers(els, m),
    decreases m,
{
    if m == 0 {
        assert(walk_back(els, None, fuel) =~= reversed_headers(els, 0));
    } else {
        let h = els[m - 1].address();
        assert(first_element_at(els, h, m - 1));
        lemma_first_element_unique(els, h, m - 1);
        assert(els[m - 1].spec_header().prev_header == (if m - 1 == 0 {
            None
        } else {
            Some(els[m - 2].address())
        }));
        lemma_walk_prefix(els, m - 1, (fuel - 1) as nat);
        assert(walk_back(els, Some(h), fuel) =~= reversed_headers(els, m));
    }
}

/// Walking back from the head of a contiguous chain whose addresses are
/// distinct meets every one of its N headers exactly once, newest first, at
/// sequence numbers N-1 down to 0, and stops after the first header.
pub proof fn lemma_iter_back_walks_whole_chain(buf: SourceChainBuf, fuel: nat)
    requires
        buf.in_step(),
        contiguous(buf.all()),
        distinct_addresses(buf.all()),
        fuel >= buf.all().len(),
    ensures
        ({
            let w = walk_back(buf.all(), buf.head(), fuel);
            let n = buf.all().len() as int;
            &&& w.len() == n
            &&& forall|k: int| 0 <= k < n ==> (#[trigger] w[k]) == buf.all()[n - 1 - k].signed_header
            &&& forall|k: int| 0 <= k < n ==> (#[trigger] w[k]).header.header_seq == n - 1 - k
            &&& n > 0 ==> w[n - 1].header.prev_header is None
        }),
{
    let els = buf.all();
    let n = els.len() as int;
    if n > 0 {
        assert(buf.chain().last() == els[n - 1].address());
        assert(buf.head() == Some(els[n - 1].address()));
    } else {
        assert(buf.chain().len() == 0);
    }
    lemma_walk_prefix(els, n, fuel);
    let w = walk_back(els, buf.head(), fuel);
    assert forall|k: int| 0 <= k < n implies (#[trigger] w[k]).header.header_seq == n - 1 - k by {
        assert(w[k] == els[n - 1 - k].signed_header);
    }
    if n > 0 {
        assert(w[n - 1] == els[0].signed_header);
    }
}

} // verus!
