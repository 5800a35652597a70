//! Headers, entries and elements of a source chain, with their canonical
//! byte encodings and content addresses.
use crate::hash::{
    hash_bytes, hash_encoding, hash_of, le_bytes, push_hash, push_le, AgentPubKey, DnaHash,
    EntryHash, HeaderHash, HoloHash, Signature,
};
use vstd::prelude::*;

verus! {

/// What an entry of a `Create` or `Update` header holds.
#[derive(Clone, Copy, Debug, PartialEq, Eq, Structural)]
pub enum EntryType {
    AgentPubKey,
    App,
}

/// The kind of a header, without its payload.
#[derive(Clone, Copy, Debug, PartialEq, Eq, Structural)]
pub enum HeaderType {
    Dna,
    AgentValidationPkg,
    Create,
    Update,
    Delete,
    CreateLink,
    DeleteLink,
    OpenChain,
    CloseChain,
    InitZomesComplete,
}

/// The kind-specific payload of a header.
#[derive(Clone, Debug, PartialEq, Eq)]
pub enum HeaderContent {
    Dna { hash: DnaHash },
    AgentValidationPkg { membrane_proof: Option<Vec<u8>> },
    Create { entry_type: EntryType, entry_hash: EntryHash },
    Update { original_header_address: HeaderHash, entry_type: EntryType, entry_hash: EntryHash },
    Delete { deletes_address: HeaderHash },
    CreateLink { base_address: EntryHash, target_address: EntryHash, tag: Vec<u8> },
    DeleteLink { link_add_address: HeaderHash, base_address: EntryHash },
    OpenChain { prev_dna_hash: DnaHash },
    CloseChain { new_dna_hash: DnaHash },
    InitZomesComplete,
}

/// An immutable record of the chain. `prev_header` is absent only on the
/// chain's first (`Dna`) header.
#[derive(Clone, Debug, PartialEq, Eq)]
pub struct Header {
    pub author: AgentPubKey,
    pub timestamp: u64,
    pub header_seq: u32,
    pub prev_header: Option<HeaderHash>,
    pub content: HeaderContent,
}

/// Content paired with a `Create` or `Update` header.
#[derive(Clone, Debug, PartialEq, Eq)]
pub enum Entry {
    Agent(AgentPubKey),
    App(Vec<u8>),
}

/// A header with its content address and its author's signature.
#[derive(Clone, Debug, PartialEq, Eq)]
pub struct SignedHeaderHashed {
    pub header: Header,
    pub header_address: HeaderHash,
    pub signature: Signature,
}

/// An entry with its content address.
#[derive(Clone, Debug, PartialEq, Eq)]
pub struct EntryHashed {
    pub entry: Entry,
    pub entry_hash: EntryHash,
}

/// A signed header with its optional entry: the atomic unit of the chain.
#[derive(Clone, Debug, PartialEq, Eq)]
pub struct Element {
    pub signed_header: SignedHeaderHashed,
    pub entry: Option<EntryHashed>,
}

pub open spec fn content_type(c: HeaderContent) -> HeaderType {
    match c {
        HeaderContent::Dna { .. } => HeaderType::Dna,
        HeaderContent::AgentValidationPkg { .. } => HeaderType::AgentValidationPkg,
        HeaderContent::Create { .. } => HeaderType::Create,
        HeaderContent::Update { .. } => HeaderType::Update,
        HeaderContent::Delete { .. } => HeaderType::Delete,
        HeaderContent::CreateLink { .. } => HeaderType::CreateLink,
        HeaderContent::DeleteLink { .. } => HeaderType::DeleteLink,
        HeaderContent::OpenChain { .. } => HeaderType::OpenChain,
        HeaderContent::CloseChain { .. } => HeaderType::CloseChain,
        HeaderContent::InitZomesComplete => HeaderType::InitZomesComplete,
    }
}

/// A length-prefixed byte string.
pub open spec fn bytes_encoding(b: Seq<u8>) -> Seq<u8> {
    le_bytes(b.len(), 8) + b
}

pub open spec fn opt_hash_encoding(h: Option<HoloHash>) -> Seq<u8> {
    match h {
        None => seq![0u8],
        Some(x) => seq![1u8] + hash_encoding(x),
    }
}

pub open spec fn entry_type_encoding(t: EntryType) -> Seq<u8> {
    match t {
        EntryType::AgentPubKey => seq![0u8],
        EntryType::App => seq![1u8],
    }
}

pub open spec fn content_encoding(c: HeaderContent) -> Seq<u8> {
    match c {
        HeaderContent::Dna { hash } => seq![0u8] + hash_encoding(hash),
        HeaderContent::AgentValidationPkg { membrane_proof } => seq![1u8] + match membrane_proof {
            None => seq![0u8],
            Some(p) => seq![1u8] + bytes_encoding(p@),
        },
        HeaderContent::Create { entry_type, entry_hash } => seq![2u8] + entry_type_encoding(
            entry_type,
        ) + hash_encoding(entry_hash),
        HeaderContent::Update { original_header_address, entry_type, entry_hash } => seq![3u8]
            + hash_encoding(original_header_address) + entry_type_encoding(entry_type)
            + hash_encoding(entry_hash),
        HeaderContent::Delete { deletes_address } => seq![4u8] + hash_encoding(deletes_address),
        HeaderContent::CreateLink { base_address, target_address, tag } => seq![5u8]
            + hash_encoding(base_address) + hash_encoding(target_address) + bytes_encoding(tag@),
        HeaderContent::DeleteLink { link_add_address, base_address } => seq![6u8] + hash_encoding(
            link_add_address,
        ) + hash_encoding(base_address),
        HeaderContent::OpenChain { prev_dna_hash } => seq![7u8] + hash_encoding(prev_dna_hash),
        HeaderContent::CloseChain { new_dna_hash } => seq![8u8] + hash_encoding(new_dna_hash),
        HeaderContent::InitZomesComplete => seq![9u8],
    }
}

/// The canonical byte encoding of a header, from which its address is hashed
/// and over which its signature is made.
pub open spec fn header_encoding(h: Header) -> Seq<u8> {
    hash_encoding(h.author) + le_bytes(h.timestamp as nat, 8) + le_bytes(h.header_seq as nat, 4)
        + opt_hash_encoding(h.prev_header) + content_encoding(h.content)
}

/// The content address of a header.
pub open spec fn header_hash(h: Header) -> HeaderHash {
    hash_of(header_encoding(h))
}

pub open spec fn entry_encoding(e: Entry) -> Seq<u8> {
    match e {
        Entry::Agent(k) => seq![0u8] + hash_encoding(k),
        Entry::App(b) => seq![1u8] + bytes_encoding(b@),
    }
}

/// The content address of an entry. An agent entry is addressed by the
/// agent's key itself.
pub open spec fn entry_hash(e: Entry) -> EntryHash {
    match e {
        Entry::Agent(k) => k,
        Entry::App(_) => hash_of(entry_encoding(e)),
    }
}

/// The entry address that a header carries, if its kind carries one.
pub open spec fn header_entry_hash(h: Header) -> Option<EntryHash> {
    match h.content {
        HeaderContent::Create { entry_hash, .. } => Some(entry_hash),
        HeaderContent::Update { entry_hash, .. } => Some(entry_hash),
        _ => None,
    }
}

impl SignedHeaderHashed {
    /// The address matches the header's content.
    pub open spec fn wf(self) -> bool {
        self.header_address == header_hash(self.header)
    }

    pub fn header_address(&self) -> (r: &HeaderHash)
        ensures
            *r == self.header_address,
    {
        &self.header_address
    }

    pub fn header(&self) -> (r: &Header)
        ensures
            *r == self.header,
    {
        &self.header
    }
}

impl EntryHashed {
    pub open spec fn wf(self) -> bool {
        self.entry_hash == entry_hash(self.entry)
    }
}

impl Element {
    /// The header's address matches its content and the entry's address
    /// matches its entry.
    pub open spec fn wf(self) -> bool {
        &&& self.signed_header.wf()
        &&& match self.entry {
            Some(e) => e.wf(),
            None => true,
        }
    }

    pub open spec fn address(self) -> HeaderHash {
        self.signed_header.header_address
    }

    pub open spec fn spec_header(self) -> Header {
        self.signed_header.header
    }

    pub fn header_address(&self) -> (r: &HeaderHash)
        ensures
            *r == self.address(),
    {
        &self.signed_header.header_address
    }

    pub fn header(&self) -> (r: &Header)
        ensures
            *r == self.spec_header(),
    {
        &self.signed_header.header
    }

    pub fn entry(&self) -> (r: Option<&Entry>)
        ensures
            r == (match self.entry {
                Some(e) => Some(&e.entry),
                None => None::<&Entry>,
            }),
    {
        match &self.entry {
            Some(e) => Some(&e.entry),
            None => None,
        }
    }
}

impl Header {
    pub fn header_type(&self) -> (r: HeaderType)
        ensures
            r == content_type(self.content),
    {
        match &self.content {
            HeaderContent::Dna { .. } => HeaderType::Dna,
            HeaderContent::AgentValidationPkg { .. } => HeaderType::AgentValidationPkg,
            HeaderContent::Create { .. } => HeaderType::Create,
            HeaderContent::Update { .. } => HeaderType::Update,
            HeaderContent::Delete { .. } => HeaderType::Delete,
            HeaderContent::CreateLink { .. } => HeaderType::CreateLink,
            HeaderContent::DeleteLink { .. } => HeaderType::DeleteLink,
            HeaderContent::OpenChain { .. } => HeaderType::OpenChain,
            HeaderContent::CloseChain { .. } => HeaderType::CloseChain,
            HeaderContent::InitZomesComplete => HeaderType::InitZomesComplete,
        }
    }

    pub fn prev_header(&self) -> (r: Option<HeaderHash>)
        ensures
            r == self.prev_header,
    {
        self.prev_header
    }

    /// The entry address this header carries, for `Create` and `Update`.
    pub fn entry_hash(&self) -> (r: Option<EntryHash>)
        ensures
            r == header_entry_hash(*self),
    {
        match &self.content {
            HeaderContent::Create { entry_hash, .. } => Some(*entry_hash),
            HeaderContent::Update { entry_hash, .. } => Some(*entry_hash),
            _ => None,
        }
    }
}

fn push_byte_string(out: &mut Vec<u8>, b: &Vec<u8>)
    ensures
        final(out)@ == old(out)@ + bytes_encoding(b@),
{
    push_le(out, b.len() as u128, 8);
    let ghost mid = out@;
    let mut i: usize = 0;
    while i < b.len()
        invariant
            i <= b@.len(),
            out@ == mid + b@.subrange(0, i as int),
        decreases b@.len() - i,
    {
        out.push(b[i]);
        assert(b@.subrange(0, i + 1) =~= b@.subrange(0, i as int).push(b@[i as int]));
        i = i + 1;
    }
    assert(b@.subrange(0, b@.len() as int) =~= b@);
    assert(out@ =~= old(out)@ + bytes_encoding(b@));
}

fn push_entry_type(out: &mut Vec<u8>, t: EntryType)
    ensures
        final(out)@ == old(out)@ + entry_type_encoding(t),
{
    match t {
        EntryType::AgentPubKey => out.push(0),
        EntryType::App => out.push(1),
    }
    assert(out@ =~= old(out)@ + entry_type_encoding(t));
}

fn push_content(out: &mut Vec<u8>, c: &HeaderContent)
    ensures
        final(out)@ == old(out)@ + content_encoding(*c),
{
    let ghost start = out@;
    match c {
        HeaderContent::Dna { hash } => {
            out.push(0);
            push_hash(out, hash);
        },
        HeaderContent::AgentValidationPkg { membrane_proof } => {
            out.push(1);
            match membrane_proof {
                None => out.push(0),
                Some(p) => {
                    out.push(1);
                    push_byte_string(out, p);
                },
            }
        },
        HeaderContent::Create { entry_type, entry_hash } => {
            out.push(2);
            push_entry_type(out, *entry_type);
            push_hash(out, entry_hash);
        },
        HeaderContent::Update { original_header_address, entry_type, entry_hash } => {
            out.push(3);
            push_hash(out, original_header_address);
            push_entry_type(out, *entry_type);
            push_hash(out, entry_hash);
        },
        HeaderContent::Delete { deletes_address } => {
            out.push(4);
            push_hash(out, deletes_address);
        },
        HeaderContent::CreateLink { base_address, target_address, tag } => {
            out.push(5);
            push_hash(out, base_address);
            push_hash(out, target_address);
            push_byte_string(out, tag);
        },
        HeaderContent::DeleteLink { link_add_address, base_address } => {
            out.push(6);
            push_hash(out, link_add_address);
            push_hash(out, base_address);
        },
        HeaderContent::OpenChain { prev_dna_hash } => {
            out.push(7);
            push_hash(out, prev_dna_hash);
        },
        HeaderContent::CloseChain { new_dna_hash } => {
            out.push(8);
            push_hash(out, new_dna_hash);
        },
        HeaderContent::InitZomesComplete => {
            out.push(9);
        },
    }
    assert(out@ =~= start + content_encoding(*c));
}

/// The canonical byte encoding of a header.
pub fn encode_header(h: &Header) -> (r: Vec<u8>)
    ensures
        r@ == header_encoding(*h),
{
    let mut out: Vec<u8> = Vec::new();
    push_hash(&mut out, &h.author);
    push_le(&mut out, h.timestamp as u128, 8);
    push_le(&mut out, h.header_seq as u128, 4);
    match &h.prev_header {
        None => out.push(0),
        Some(p) => {
            out.push(1);
            push_hash(&mut out, p);
        },
    }
    push_content(&mut out, &h.content);
    assert(out@ =~= header_encoding(*h));
    out
}

/// The content address of a header.
pub fn hash_header(h: &Header) -> (r: HeaderHash)
    ensures
        r == header_hash(*h),
{
    let bytes = encode_header(h);
    hash_bytes(&bytes)
}

/// The canonical byte encoding of an entry.
pub fn encode_entry(e: &Entry) -> (r: Vec<u8>)
    ensures
        r@ == entry_encoding(*e),
{
    let mut out: Vec<u8> = Vec::new();
    match e {
        Entry::Agent(k) => {
            out.push(0);
            push_hash(&mut out, k);
        },
        Entry::App(b) => {
            out.push(1);
            push_byte_string(&mut out, b);
        },
    }
    assert(out@ =~= entry_encoding(*e));
    out
}

/// The content address of an entry.
pub fn hash_entry(e: &Entry) -> (r: EntryHash)
    ensures
        r == entry_hash(*e),
{
    match e {
        Entry::Agent(k) => *k,
        Entry::App(_) => {
            let bytes = encode_entry(e);
            hash_bytes(&bytes)
        },
    }
}

impl EntryHashed {
    /// Pairs an entry with its content address.
    pub fn from_content(entry: Entry) -> (r: EntryHashed)
        ensures
            r.entry == entry,
            r.wf(),
    {
        let entry_hash = hash_entry(&entry);
        EntryHashed { entry, entry_hash }
    }
}

} // verus!
