//! The durable store of one source chain and the gatekeeper that serialises
//! every write to it against the chain root.
use crate::hash::HeaderHash;
use crate::header::{encode_header, hash_header, header_encoding, header_hash, Element, Header, SignedHeaderHashed};
use crate::chain_sequence::records_in_order;
use crate::keystore::Keystore;
use crate::source_chain_buffer::{addresses, contiguous};
use vstd::prelude::*;

verus! {

/// One entry of the persisted chain sequence index.
#[derive(Clone, Copy, Debug, PartialEq, Eq, Structural)]
pub struct SequenceRecord {
    pub seq: u32,
    pub header_address: HeaderHash,
    pub dht_transforms_complete: bool,
}

/// The exclusive write handle on the durable store of a source chain: its
/// element store (in insertion order) and its sequence index.
#[derive(Clone, Debug)]
pub struct LmdbUnique {
    pub elements: Vec<Element>,
    pub sequence: Vec<SequenceRecord>,
}

/// A read handle on the durable store.
#[derive(Clone, Copy, Debug)]
pub struct LmdbRead<'a> {
    pub store: &'a LmdbUnique,
}

/// A prepared write: elements to append after the root it was computed
/// against, and the sequence numbers whose DHT operations were produced.
#[derive(Clone, Debug)]
pub struct LmdbTransaction {
    pub elements: Vec<Element>,
    pub completed: Vec<u32>,
}

/// The chain root: the address of the head header (none on an empty chain)
/// and the chain's length.
#[derive(Clone, Copy, Debug, PartialEq, Eq, Structural)]
pub struct Address {
    pub head: Option<HeaderHash>,
    pub len: u32,
}

#[derive(Clone, Copy, Debug, PartialEq, Eq, Structural)]
pub enum TransactError {
    /// The root moved since the transaction was computed and it may not be
    /// rebased.
    HeadMoved,
    /// Rebasing needed a signature from an author whose key is not held.
    KeyUnavailable,
    /// The chain would grow past the last sequence number.
    SequenceFull,
}

/// The root of a sequence index.
pub open spec fn root_of(sequence: Seq<SequenceRecord>) -> Address {
    Address {
        head: if sequence.len() == 0 {
            None
        } else {
            Some(sequence.last().header_address)
        },
        len: sequence.len() as u32,
    }
}

/// The index after appending a record for each new element and marking the
/// completed sequence numbers.
pub open spec fn applied_sequence(
    sequence: Seq<SequenceRecord>,
    new_elements: Seq<Element>,
    completed: Seq<u32>,
) -> Seq<SequenceRecord> {
    Seq::new(
        sequence.len() + new_elements.len(),
        |i: int|
            {
                let base = if i < sequence.len() {
                    sequence[i]
                } else {
                    SequenceRecord {
                        seq: i as u32,
                        header_address: new_elements[i - sequence.len()].address(),
                        dht_transforms_complete: false,
                    }
                };
                SequenceRecord {
                    dht_transforms_complete: base.dht_transforms_complete || completed.contains(
                        i as u32,
                    ),
                    ..base
                }
            },
    )
}

proof fn lemma_contains_push(s: Seq<u32>, x: u32, y: u32)
    ensures
        s.push(x).contains(y) <==> (s.contains(y) || x == y),
{
    if s.push(x).contains(y) {
        let k = choose|k: int| 0 <= k < s.push(x).len() && s.push(x)[k] == y;
        if k < s.len() {
            assert(s[k] == y);
        }
    }
    if s.contains(y) {
        let k = choose|k: int| 0 <= k < s.len() && s[k] == y;
        assert(s.push(x)[k] == y);
    }
    if x == y {
        assert(s.push(x)[s.len() as int] == y);
    }
}

impl LmdbUnique {
    /// An empty store.
    pub fn new() -> (r: LmdbUnique)
        ensures
            r.elements@ == Seq::<Element>::empty(),
            r.sequence@ == Seq::<SequenceRecord>::empty(),
    {
        LmdbUnique { elements: Vec::new(), sequence: Vec::new() }
    }

    pub open spec fn wf(self) -> bool {
        self.sequence@.len() <= u32::MAX
    }

    pub open spec fn root(self) -> Address {
        root_of(self.sequence@)
    }

    /// Applies a prepared write: this is the only change to durable state.
    pub fn apply(&mut self, transaction: LmdbTransaction)
        requires
            old(self).sequence@.len() + transaction.elements@.len() <= u32::MAX,
        ensures
            final(self).elements@ == old(self).elements@ + transaction.elements@,
            final(self).sequence@ == applied_sequence(
                old(self).sequence@,
                transaction.elements@,
                transaction.completed@,
            ),
    {
        let LmdbTransaction { elements: mut new_elements, completed } = transaction;
        let ghost new_els = new_elements@;
        let ghost old_seq = self.sequence@;
        let n0 = self.sequence.len();
        let mut k: usize = 0;
        while k < new_elements.len()
            invariant
                n0 == old_seq.len(),
                self.elements@ == old(self).elements@,
                n0 + new_elements@.len() <= u32::MAX,
                new_elements@ == new_els,
                k <= new_els.len(),
                self.sequence@.len() == n0 + k,
                forall|i: int| 0 <= i < n0 ==> self.sequence@[i] == old_seq[i],
                forall|i: int|
                    n0 <= i < n0 + k ==> self.sequence@[i] == (SequenceRecord {
                        seq: i as u32,
                        header_address: new_els[i - n0].address(),
                        dht_transforms_complete: false,
                    }),
            decreases new_els.len() - k,
        {
            let a = *new_elements[k].header_address();
            self.sequence.push(
                SequenceRecord { seq: (n0 + k) as u32, header_address: a, dht_transforms_complete: false },
            );
            k = k + 1;
        }
        let ghost appended = self.sequence@;
        let mut j: usize = 0;
        while j < completed.len()
            invariant
                j <= completed@.len(),
                appended.len() <= u32::MAX,
                new_elements@ == new_els,
                self.elements@ == old(self).elements@,
                self.sequence@.len() == appended.len(),
                forall|i: int|
                    0 <= i < appended.len() ==> #[trigger] self.sequence@[i] == (SequenceRecord {
                        dht_transforms_complete: appended[i].dht_transforms_complete
                            || completed@.subrange(0, j as int).contains(i as u32),
                        ..appended[i]
                    }),
            decreases completed@.len() - j,
        {
            let c = completed[j];
            if (c as usize) < self.sequence.len() {
                let rec = self.sequence[c as usize];
                self.sequence.set(c as usize, SequenceRecord { dht_transforms_complete: true, ..rec });
            }
            proof {
                assert(completed@.subrange(0, j + 1) =~= completed@.subrange(0, j as int).push(c));
                assert forall|i: int| 0 <= i < appended.len() implies #[trigger] self.sequence@[i] == (
                SequenceRecord {
                    dht_transforms_complete: appended[i].dht_transforms_complete
                        || completed@.subrange(0, j + 1).contains(i as u32),
                    ..appended[i]
                }) by {
                    lemma_contains_push(completed@.subrange(0, j as int), c, i as u32);
                    if c == i as u32 {
                        assert(i == c as int);
                    }
                }
            }
            j = j + 1;
        }
        assert(completed@.subrange(0, j as int) =~= completed@);
        self.elements.append(&mut new_elements);
        assert(self.sequence@ =~= applied_sequence(old_seq, new_els, completed@));
    }

    /// A read handle on this store.
    pub fn downgrade(&self) -> (r: LmdbRead<'_>)
        ensures
            *r.store == *self,
    {
        LmdbRead { store: self }
    }
}

/// Reads the chain root from the sequence index.
pub fn get_source_chain_root_hash(lmdb: &LmdbRead) -> (r: Address)
    requires
        lmdb.store.wf(),
    ensures
        r == lmdb.store.root(),
{
    let seq = &lmdb.store.sequence;
    let n = seq.len();
    if n == 0 {
        Address { head: None, len: 0 }
    } else {
        Address { head: Some(seq[n - 1].header_address), len: n as u32 }
    }
}


/// `h` moved to sequence number `seq`, linking to `prev`.
pub open spec fn relinked(h: Header, seq: int, prev: Option<HeaderHash>) -> Header {
    Header { header_seq: seq as u32, prev_header: prev, ..h }
}

/// The first `m` elements of `els`, rewritten to follow `head` from sequence
/// number `base` on, each re-addressed and signed anew; entries are kept.
pub open spec fn rebased_elements(
    ks: Keystore,
    els: Seq<Element>,
    head: Option<HeaderHash>,
    base: int,
    m: int,
) -> Seq<Element>
    decreases m,
{
    if m <= 0 {
        seq![]
    } else {
        let before = rebased_elements(ks, els, head, base, m - 1);
        let prev = if m - 1 == 0 {
            head
        } else {
            Some(before[m - 2].address())
        };
        let h = relinked(els[m - 1].spec_header(), base + m - 1, prev);
        before.push(
            Element {
                signed_header: SignedHeaderHashed {
                    header: h,
                    header_address: header_hash(h),
                    signature: ks.signature_of(h.author, header_encoding(h)),
                },
                entry: els[m - 1].entry,
            },
        )
    }
}

pub proof fn lemma_rebased_len(ks: Keystore, els: Seq<Element>, head: Option<HeaderHash>, base: int, m: int)
    requires
        0 <= m,
    ensures
        rebased_elements(ks, els, head, base, m).len() == m,
    decreases m,
{
    if m > 0 {
        lemma_rebased_len(ks, els, head, base, m - 1);
    }
}

/// Every author of `els` has a key in `ks`.
pub open spec fn all_signable(ks: Keystore, els: Seq<Element>) -> bool {
    forall|k: int| 0 <= k < els.len() ==> ks.holds(#[trigger] els[k].spec_header().author)
}

/// The first `m` of `cs` that lie below `bound`, in order.
pub open spec fn kept_below(cs: Seq<u32>, bound: u32, m: int) -> Seq<u32>
    decreases m,
{
    if m <= 0 {
        seq![]
    } else if cs[m - 1] < bound {
        kept_below(cs, bound, m - 1).push(cs[m - 1])
    } else {
        kept_below(cs, bound, m - 1)
    }
}

/// Rewrites a transaction computed against the root `now` so that it follows
/// the root `valid_at`: each new header is moved to the next free sequence
/// number, linked to the one before it, re-addressed and signed anew. Marks
/// of completion for the transaction's own entries are dropped; they refer
/// to numbers that no longer hold.
pub fn rebase_headers(
    transaction: &mut LmdbTransaction,
    valid_at: &Address,
    now: &Address,
    keystore: &Keystore,
) -> (r: Result<(), TransactError>)
    requires
        keystore.wf(),
        valid_at.len + old(transaction).elements@.len() <= u32::MAX,
    ensures
        r is Ok <==> all_signable(*keystore, old(transaction).elements@),
        r is Err ==> r == Err::<(), _>(TransactError::KeyUnavailable),
        r is Ok ==> {
            &&& final(transaction).elements@ == rebased_elements(
                *keystore,
                old(transaction).elements@,
                valid_at.head,
                valid_at.len as int,
                old(transaction).elements@.len() as int,
            )
            &&& final(transaction).completed@ == kept_below(
                old(transaction).completed@,
                now.len,
                old(transaction).completed@.len() as int,
            )
        },
{
    let ghost orig = old(transaction).elements@;
    let mut pending: Vec<Element> = Vec::new();
    core::mem::swap(&mut pending, &mut transaction.elements);
    let n = pending.len();
    let mut out: Vec<Element> = Vec::new();
    let mut prev: Option<HeaderHash> = valid_at.head;
    let mut k: usize = 0;
    while k < n
        invariant
            keystore.wf(),
            orig == old(transaction).elements@,
            n == orig.len(),
            valid_at.len + n <= u32::MAX,
            k <= n,
            pending@ == orig.subrange(k as int, n as int),
            out@ == rebased_elements(*keystore, orig, valid_at.head, valid_at.len as int, k as int),
            out@.len() == k,
            prev == (if k == 0 { valid_at.head } else { Some(out@[k - 1].address()) }),
            forall|j: int| 0 <= j < k ==> keystore.holds(#[trigger] orig[j].spec_header().author),
        decreases n - k,
    {
        let e = pending.remove(0);
        assert(e == orig[k as int]);
        assert(pending@ =~= orig.subrange(k + 1, n as int));
        let Element { signed_header, entry } = e;
        let SignedHeaderHashed { header, .. } = signed_header;
        let header = Header {
            author: header.author,
            timestamp: header.timestamp,
            header_seq: (valid_at.len as usize + k) as u32,
            prev_header: prev,
            content: header.content,
        };
        let bytes = encode_header(&header);
        let header_address = hash_header(&header);
        let signature = match keystore.sign(&header.author, &bytes) {
            Ok(s) => s,
            Err(_) => {
                assert(!all_signable(*keystore, orig)) by {
                    assert(!keystore.holds(orig[k as int].spec_header().author));
                }
                return Err(TransactError::KeyUnavailable);
            },
        };
        let ghost before = out@;
        out.push(Element { signed_header: SignedHeaderHashed { header, header_address, signature }, entry });
        prev = Some(header_address);
        assert(out@[k as int].address() == header_address);
        k = k + 1;
    }
    transaction.elements = out;
    let ghost cs = transaction.completed@;
    let mut marks: Vec<u32> = Vec::new();
    core::mem::swap(&mut marks, &mut transaction.completed);
    let mut kept: Vec<u32> = Vec::new();
    let mut j: usize = 0;
    while j < marks.len()
        invariant
            marks@ == cs,
            j <= cs.len(),
            kept@ == kept_below(cs, now.len, j as int),
        decreases cs.len() - j,
    {
        if marks[j] < now.len {
            kept.push(marks[j]);
        }
        j = j + 1;
    }
    transaction.completed = kept;
    Ok(())
}

/// The store after a gatekeeper run: (elements, sequence index, outcome).
pub open spec fn gatekeep_result(
    elements: Seq<Element>,
    sequence: Seq<SequenceRecord>,
    ks: Keystore,
    txn: LmdbTransaction,
    as_at: Address,
    rebasable: bool,
) -> (Seq<Element>, Seq<SequenceRecord>, Result<(), TransactError>) {
    let root = root_of(sequence);
    if sequence.len() + txn.elements@.len() > u32::MAX {
        (elements, sequence, Err(TransactError::SequenceFull))
    } else if root == as_at {
        (
            elements + txn.elements@,
            applied_sequence(sequence, txn.elements@, txn.completed@),
            Ok(()),
        )
    } else if !rebasable {
        (elements, sequence, Err(TransactError::HeadMoved))
    } else if !all_signable(ks, txn.elements@) {
        (elements, sequence, Err(TransactError::KeyUnavailable))
    } else {
        let els = rebased_elements(ks, txn.elements@, root.head, root.len as int, txn.elements@.len() as int);
        let cs = kept_below(txn.completed@, as_at.len, txn.completed@.len() as int);
        (elements + els, applied_sequence(sequence, els, cs), Ok(()))
    }
}

/// The single writer of one chain's durable store.
pub struct ChainRootGatekeeper {
    db_write: LmdbUnique,
    keystore: Keystore,
}

impl ChainRootGatekeeper {
    pub closed spec fn db(self) -> LmdbUnique {
        self.db_write
    }

    pub closed spec fn keys(self) -> Keystore {
        self.keystore
    }

    pub open spec fn wf(self) -> bool {
        &&& self.db().wf()
        &&& self.keys().wf()
    }

    pub fn new(db_write: LmdbUnique, keystore: Keystore) -> (r: ChainRootGatekeeper)
        ensures
            r.db() == db_write,
            r.keys() == keystore,
    {
        ChainRootGatekeeper { db_write, keystore }
    }

    /// The durable store, for reading.
    pub fn db_read(&self) -> (r: LmdbRead<'_>)
        ensures
            *r.store == self.db(),
    {
        self.db_write.downgrade()
    }

    /// Applies `next_write` if it was computed against the current root, or
    /// after rebasing it onto the current root where that is allowed; else
    /// leaves the store as it was.
    pub fn gatekeep(&mut self, next_write: LmdbTransaction, as_at: Address, rebasable: bool) -> (r: Result<(), TransactError>)
        requires
            old(self).wf(),
        ensures
            final(self).wf(),
            final(self).keys() == old(self).keys(),
            ({
                let g = gatekeep_result(
                    old(self).db().elements@,
                    old(self).db().sequence@,
                    old(self).keys(),
                    next_write,
                    as_at,
                    rebasable,
                );
                &&& final(self).db().elements@ == g.0
                &&& final(self).db().sequence@ == g.1
                &&& r == g.2
            }),
    {
        let mut next_write = next_write;
        let ghost orig_els = next_write.elements@;
        let chain_root_hash = get_source_chain_root_hash(&self.db_write.downgrade());
        if next_write.elements.len() > (u32::MAX as usize) - self.db_write.sequence.len() {
            return Err(TransactError::SequenceFull);
        }
        // check whether the transaction has been invalidated
        if chain_root_hash != as_at {
            if rebasable {
                let rebased = rebase_headers(&mut next_write, &chain_root_hash, &as_at, &self.keystore);
                if rebased.is_err() {
                    return Err(TransactError::KeyUnavailable);
                }
                proof {
                    lemma_rebased_len(
                        self.keystore,
                        orig_els,
                        chain_root_hash.head,
                        chain_root_hash.len as int,
                        orig_els.len() as int,
                    );
                }
            } else {
                return Err(TransactError::HeadMoved);
            }
        }
        self.db_write.apply(next_write);
        Ok(())
    }
}

/// A write submitted to the queue: the transaction, the root it was computed
/// against, and whether it may be rebased.
pub struct WriteRequest {
    pub bundle: LmdbTransaction,
    pub valid_at: Address,
    pub rebasable: bool,
}

/// The store and the replies after the first `m` requests are run in order.
pub open spec fn run_writes(
    elements: Seq<Element>,
    sequence: Seq<SequenceRecord>,
    ks: Keystore,
    reqs: Seq<WriteRequest>,
    m: int,
) -> (Seq<Element>, Seq<SequenceRecord>, Seq<Result<(), TransactError>>)
    decreases m,
{
    if m <= 0 {
        (elements, sequence, seq![])
    } else {
        let before = run_writes(elements, sequence, ks, reqs, m - 1);
        let g = gatekeep_result(before.0, before.1, ks, reqs[m - 1].bundle, reqs[m - 1].valid_at, reqs[m - 1].rebasable);
        (g.0, g.1, before.2.push(g.2))
    }
}

/// A handle to a chain root whose gatekeeper takes writes from a queue and
/// runs them one at a time, strictly in the order they arrived.
pub struct ChainRootHandle {
    gatekeeper: ChainRootGatekeeper,
    writes: Vec<WriteRequest>,
}

impl ChainRootHandle {
    pub closed spec fn gatekeeper(self) -> ChainRootGatekeeper {
        self.gatekeeper
    }

    /// The writes waiting, oldest first.
    pub closed spec fn queued(self) -> Seq<WriteRequest> {
        self.writes@
    }

    pub open spec fn wf(self) -> bool {
        self.gatekeeper().wf()
    }

    /// Creates the handle to the root of one chain. There must be exactly
    /// one per durable store.
    pub fn new(db_write: LmdbUnique, keystore: Keystore) -> (r: ChainRootHandle)
        ensures
            r.gatekeeper().db() == db_write,
            r.gatekeeper().keys() == keystore,
            r.queued() == Seq::<WriteRequest>::empty(),
    {
        ChainRootHandle { gatekeeper: ChainRootGatekeeper::new(db_write, keystore), writes: Vec::new() }
    }

    /// The durable store as it stands.
    pub fn store(&self) -> (r: &LmdbUnique)
        ensures
            *r == self.gatekeeper().db(),
    {
        &self.gatekeeper.db_write
    }

    /// Puts a write at the back of the queue.
    pub fn submit(&mut self, bundle: LmdbTransaction, valid_at: Address, rebasable: bool)
        ensures
            final(self).gatekeeper() == old(self).gatekeeper(),
            final(self).queued() == old(self).queued().push(WriteRequest { bundle, valid_at, rebasable }),
    {
        self.writes.push(WriteRequest { bundle, valid_at, rebasable });
    }

    /// Runs every queued write in arrival order, returning one reply each.
    pub fn start_loop(&mut self) -> (r: Vec<Result<(), TransactError>>)
        requires
            old(self).wf(),
        ensures
            final(self).wf(),
            final(self).queued() == Seq::<WriteRequest>::empty(),
            final(self).gatekeeper().keys() == old(self).gatekeeper().keys(),
            ({
                let run = run_writes(
                    old(self).gatekeeper().db().elements@,
                    old(self).gatekeeper().db().sequence@,
                    old(self).gatekeeper().keys(),
                    old(self).queued(),
                    old(self).queued().len() as int,
                );
                &&& final(self).gatekeeper().db().elements@ == run.0
                &&& final(self).gatekeeper().db().sequence@ == run.1
                &&& r@ == run.2
            }),
    {
        let ghost reqs = self.writes@;
        let ghost els0 = self.gatekeeper.db_write.elements@;
        let ghost seq0 = self.gatekeeper.db_write.sequence@;
        let mut pending: Vec<WriteRequest> = Vec::new();
        core::mem::swap(&mut pending, &mut self.writes);
        let n = pending.len();
        let mut replies: Vec<Result<(), TransactError>> = Vec::new();
        let mut k: usize = 0;
        while k < n
            invariant
                n == reqs.len(),
                k <= n,
                self.gatekeeper.wf(),
                self.gatekeeper.keys() == old(self).gatekeeper().keys(),
                self.writes@ == Seq::<WriteRequest>::empty(),
                pending@ == reqs.subrange(k as int, n as int),
                ({
                    let run = run_writes(els0, seq0, self.gatekeeper.keys(), reqs, k as int);
                    &&& self.gatekeeper.db().elements@ == run.0
                    &&& self.gatekeeper.db().sequence@ == run.1
                    &&& replies@ == run.2
                }),
            decreases n - k,
        {
            let req = pending.remove(0);
            assert(req == reqs[k as int]);
            assert(pending@ =~= reqs.subrange(k + 1, n as int));
            let WriteRequest { bundle, valid_at, rebasable } = req;
            let result = self.gatekeeper.gatekeep(bundle, valid_at, rebasable);
            replies.push(result);
            k = k + 1;
        }
        replies
    }

    /// Queues a write, runs the queue, and returns this write's reply.
    pub fn try_append_chain(&mut self, bundle: LmdbTransaction, valid_at: Address, rebasable: bool) -> (r: Result<(), TransactError>)
        requires
            old(self).wf(),
        ensures
            final(self).wf(),
            final(self).queued() == Seq::<WriteRequest>::empty(),
            final(self).gatekeeper().keys() == old(self).gatekeeper().keys(),
            ({
                let reqs = old(self).queued().push(WriteRequest { bundle, valid_at, rebasable });
                let run = run_writes(
                    old(self).gatekeeper().db().elements@,
                    old(self).gatekeeper().db().sequence@,
                    old(self).gatekeeper().keys(),
                    reqs,
                    reqs.len() as int,
                );
                &&& final(self).gatekeeper().db().elements@ == run.0
                &&& final(self).gatekeeper().db().sequence@ == run.1
                &&& r == run.2.last()
            }),
    {
        self.submit(bundle, valid_at, rebasable);
        let mut replies = self.start_loop();
        proof {
            lemma_run_writes_len(
                old(self).gatekeeper().db().elements@,
                old(self).gatekeeper().db().sequence@,
                old(self).gatekeeper().keys(),
                old(self).queued().push(WriteRequest { bundle, valid_at, rebasable }),
                old(self).queued().len() + 1 as int,
            );
        }
        match replies.pop() {
            Some(reply) => reply,
            None => Ok(()),
        }
    }
}

pub proof fn lemma_run_writes_len(
    elements: Seq<Element>,
    sequence: Seq<SequenceRecord>,
    ks: Keystore,
    reqs: Seq<WriteRequest>,
    m: int,
)
    requires
        0 <= m,
    ensures
        run_writes(elements, sequence, ks, reqs, m).2.len() == m,
    decreases m,
{
    if m > 0 {
        lemma_run_writes_len(elements, sequence, ks, reqs, m - 1);
    }
}

/// The durable index lists the element store's elements, in order, at
/// sequence numbers 0, 1, 2, ...
pub open spec fn store_in_step(elements: Seq<Element>, sequence: Seq<SequenceRecord>) -> bool {
    &&& records_in_order(sequence)
    &&& sequence.map_values(|r: SequenceRecord| r.header_address) == addresses(elements)
}

proof fn lemma_rebased_shape(ks: Keystore, els: Seq<Element>, head: Option<HeaderHash>, base: int, m: int)
    requires
        0 <= m <= els.len(),
    ensures
        ({
            let r = rebased_elements(ks, els, head, base, m);
            &&& r.len() == m
            &&& forall|k: int|
                0 <= k < m ==> {
                    &&& (#[trigger] r[k]).spec_header() == relinked(
                        els[k].spec_header(),
                        base + k,
                        if k == 0 {
                            head
                        } else {
                            Some(r[k - 1].address())
                        },
                    )
                    &&& r[k].signed_header.wf()
                    &&& r[k].entry == els[k].entry
                }
        }),
    decreases m,
{
    if m > 0 {
        lemma_rebased_shape(ks, els, head, base, m - 1);
        let before = rebased_elements(ks, els, head, base, m - 1);
        let r = rebased_elements(ks, els, head, base, m);
        assert forall|k: int| 0 <= k < m - 1 implies #[trigger] r[k] == before[k] by {}
    }
}

/// A write computed against the authoritative root is applied as it is: it
/// succeeds, and the new root is the transaction's last header (or the old
/// root, for an empty transaction), one sequence number per new element on.
pub proof fn lemma_gatekeep_unmoved_root(
    elements: Seq<Element>,
    sequence: Seq<SequenceRecord>,
    ks: Keystore,
    txn: LmdbTransaction,
    rebasable: bool,
)
    requires
        sequence.len() + txn.elements@.len() <= u32::MAX,
    ensures
        ({
            let g = gatekeep_result(elements, sequence, ks, txn, root_of(sequence), rebasable);
            &&& g.2 is Ok
            &&& g.0 == elements + txn.elements@
            &&& root_of(g.1).head == if txn.elements@.len() == 0 {
                root_of(sequence).head
            } else {
                Some(txn.elements@.last().address())
            }
            &&& root_of(g.1).len == sequence.len() + txn.elements@.len()
        }),
{
    let g = gatekeep_result(elements, sequence, ks, txn, root_of(sequence), rebasable);
    if txn.elements@.len() > 0 {
        assert(g.1.last().header_address == txn.elements@.last().address());
    } else if sequence.len() > 0 {
        assert(g.1.last().header_address == sequence.last().header_address);
    }
}

/// A write computed against a root that has since moved, and that may not be
/// rebased, is refused with `HeadMoved` and leaves the store as it was.
pub proof fn lemma_gatekeep_moved_not_rebasable(
    elements: Seq<Element>,
    sequence: Seq<SequenceRecord>,
    ks: Keystore,
    txn: LmdbTransaction,
    as_at: Address,
)
    requires
        as_at != root_of(sequence),
        sequence.len() + txn.elements@.len() <= u32::MAX,
    ensures
        gatekeep_result(elements, sequence, ks, txn, as_at, false) == (elements, sequence, Err::<(), TransactError>(TransactError::HeadMoved)),
{
}

/// A write computed against a root that has since moved, and that may be
/// rebased, lands after the authoritative head: the durable chain stays
/// contiguous and its index stays gap-free and in step with the store.
pub proof fn lemma_gatekeep_rebased_contiguous(
    elements: Seq<Element>,
    sequence: Seq<SequenceRecord>,
    ks: Keystore,
    txn: LmdbTransaction,
    as_at: Address,
)
    requires
        as_at != root_of(sequence),
        sequence.len() + txn.elements@.len() <= u32::MAX,
        all_signable(ks, txn.elements@),
        contiguous(elements),
        store_in_step(elements, sequence),
    ensures
        ({
            let g = gatekeep_result(elements, sequence, ks, txn, as_at, true);
            &&& g.2 is Ok
            &&& contiguous(g.0)
            &&& store_in_step(g.0, g.1)
            &&& g.0.len() == elements.len() + txn.elements@.len()
            &&& g.0.subrange(0, elements.len() as int) == elements
        }),
{
    let root = root_of(sequence);
    let m = txn.elements@.len() as int;
    let n = elements.len() as int;
    assert(addresses(elements).len() == sequence.len());
    lemma_rebased_shape(ks, txn.elements@, root.head, root.len as int, m);
    let r = rebased_elements(ks, txn.elements@, root.head, root.len as int, m);
    let g = gatekeep_result(elements, sequence, ks, txn, as_at, true);
    let cs = kept_below(txn.completed@, as_at.len, txn.completed@.len() as int);
    assert(g.0 == elements + r);
    assert(g.1 == applied_sequence(sequence, r, cs));
    let all = elements + r;
    if n > 0 {
        assert(sequence.map_values(|x: SequenceRecord| x.header_address)[n - 1] == addresses(elements)[n - 1]);
    }
    assert forall|i: int| 0 <= i < all.len() implies {
        &&& (#[trigger] all[i]).spec_header().header_seq == i
        &&& all[i].spec_header().prev_header == (if i == 0 {
            None
        } else {
            Some(all[i - 1].address())
        })
        &&& all[i].signed_header.wf()
    } by {
        if i < n {
            assert(all[i] == elements[i]);
            if i > 0 {
                assert(all[i - 1] == elements[i - 1]);
            }
        } else {
            assert(all[i] == r[i - n]);
            if i > n {
                assert(all[i - 1] == r[i - n - 1]);
            } else if n > 0 {
                assert(all[i - 1] == elements[n - 1]);
            }
        }
    }
    let sq = g.1;
    assert forall|i: int| 0 <= i < sq.len() implies (#[trigger] sq[i]).seq == i by {}
    assert forall|i: int| 0 <= i < sq.len() implies (#[trigger] sq[i]).header_address == all[i].address() by {
        if i < n {
            assert(sequence.map_values(|x: SequenceRecord| x.header_address)[i] == addresses(elements)[i]);
        }
    }
    assert(sq.map_values(|x: SequenceRecord| x.header_address) =~= addresses(all));
    assert(all.subrange(0, n) =~= elements);
}

} // verus!
