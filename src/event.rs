//! Events that the network layer hands to a cell, and the options that
//! travel with its lookups.
use crate::dht_op::DhtOp;
use crate::hash::{AgentPubKey, AnyDhtHash, DnaHash, EntryHash, HeaderHash, HoloHash};
use vstd::prelude::*;

verus! {

/// The options a caller gives a network get.
#[derive(Clone, Copy, Debug, PartialEq, Eq, Structural)]
pub struct ActorGetOptions {
    pub remote_agent_count: Option<u8>,
    pub timeout_ms: Option<u64>,
    pub as_race: bool,
    pub race_timeout_ms: Option<u64>,
    pub follow_redirects: bool,
    pub all_live_headers_with_metadata: bool,
}

#[derive(Clone, Copy, Debug, PartialEq, Eq, Structural)]
pub struct ActorGetMetaOptions {}

#[derive(Clone, Copy, Debug, PartialEq, Eq, Structural)]
pub struct ActorGetLinksOptions {}

/// Get options help control how the get is processed at various levels.
#[derive(Clone, Copy, Debug, PartialEq, Eq, Structural)]
pub struct GetOptions {
    /// Whether the remote end should follow redirects or just return the
    /// requested entry.
    pub follow_redirects: bool,
    /// Return all live headers even if there are deletes.
    pub all_live_headers_with_metadata: bool,
}

/// GetMeta options help control how the get is processed at various levels.
#[derive(Clone, Copy, Debug, PartialEq, Eq, Structural)]
pub struct GetMetaOptions {}

/// GetLinks options help control how the get is processed at various levels.
#[derive(Clone, Copy, Debug, PartialEq, Eq, Structural)]
pub struct GetLinksOptions {}

impl GetOptions {
    /// The part of a caller's options that the remote end acts on.
    pub fn from(a: &ActorGetOptions) -> (r: GetOptions)
        ensures
            r.follow_redirects == a.follow_redirects,
            r.all_live_headers_with_metadata == a.all_live_headers_with_metadata,
    {
        GetOptions {
            follow_redirects: a.follow_redirects,
            all_live_headers_with_metadata: a.all_live_headers_with_metadata,
        }
    }
}

impl GetMetaOptions {
    pub fn from(_a: &ActorGetMetaOptions) -> (r: GetMetaOptions)
        ensures
            r == (GetMetaOptions {}),
    {
        GetMetaOptions {}
    }
}

impl GetLinksOptions {
    pub fn from(_a: &ActorGetLinksOptions) -> (r: GetLinksOptions)
        ensures
            r == (GetLinksOptions {}),
    {
        GetLinksOptions {}
    }
}

/// An incoming event from the network, always addressed to one agent of one
/// DNA.
#[derive(Clone, Debug, PartialEq, Eq)]
pub enum HolochainP2pEvent {
    /// Store signed agent info.
    PutAgentInfoSigned { dna_hash: DnaHash, to_agent: AgentPubKey, agent_info_signed: Vec<u8> },
    /// Fetch previously stored agent info.
    GetAgentInfoSigned { dna_hash: DnaHash, to_agent: AgentPubKey, kitsune_space: Vec<u8>, kitsune_agent: Vec<u8> },
    /// A remote node makes a call on us.
    CallRemote {
        dna_hash: DnaHash,
        to_agent: AgentPubKey,
        from_agent: AgentPubKey,
        zome_name: String,
        fn_name: String,
        cap: Option<HoloHash>,
        payload: Vec<u8>,
    },
    /// A remote node publishes data for us to hold.
    Publish {
        dna_hash: DnaHash,
        to_agent: AgentPubKey,
        from_agent: AgentPubKey,
        request_validation_receipt: bool,
        dht_hash: AnyDhtHash,
        ops: Vec<DhtOp>,
    },
    /// A remote node asks for a validation package.
    GetValidationPackage { dna_hash: DnaHash, to_agent: AgentPubKey, header_hash: HeaderHash },
    /// A remote node gets data from us.
    Get { dna_hash: DnaHash, to_agent: AgentPubKey, dht_hash: AnyDhtHash, options: GetOptions },
    /// A remote node gets metadata from us.
    GetMeta { dna_hash: DnaHash, to_agent: AgentPubKey, dht_hash: AnyDhtHash, options: GetMetaOptions },
    /// A remote node gets links from us.
    GetLinks { dna_hash: DnaHash, to_agent: AgentPubKey, base: EntryHash, options: GetLinksOptions },
    /// A remote node sends us a validation receipt.
    ValidationReceiptReceived { dna_hash: DnaHash, to_agent: AgentPubKey, receipt: Vec<u8> },
    /// The op hashes we hold in a time window.
    FetchOpHashesForConstraints { dna_hash: DnaHash, to_agent: AgentPubKey, since_us: u64, until_us: u64 },
    /// The data of op hashes we hold.
    FetchOpHashData { dna_hash: DnaHash, to_agent: AgentPubKey, op_hashes: Vec<HoloHash> },
    /// Sign data for the network.
    SignNetworkData { dna_hash: DnaHash, to_agent: AgentPubKey, data: Vec<u8> },
}

impl HolochainP2pEvent {
    pub open spec fn spec_dna_hash(self) -> DnaHash {
        match self {
            HolochainP2pEvent::PutAgentInfoSigned { dna_hash, .. } => dna_hash,
            HolochainP2pEvent::GetAgentInfoSigned { dna_hash, .. } => dna_hash,
            HolochainP2pEvent::CallRemote { dna_hash, .. } => dna_hash,
            HolochainP2pEvent::Publish { dna_hash, .. } => dna_hash,
            HolochainP2pEvent::GetValidationPackage { dna_hash, .. } => dna_hash,
            HolochainP2pEvent::Get { dna_hash, .. } => dna_hash,
            HolochainP2pEvent::GetMeta { dna_hash, .. } => dna_hash,
            HolochainP2pEvent::GetLinks { dna_hash, .. } => dna_hash,
            HolochainP2pEvent::ValidationReceiptReceived { dna_hash, .. } => dna_hash,
            HolochainP2pEvent::FetchOpHashesForConstraints { dna_hash, .. } => dna_hash,
            HolochainP2pEvent::FetchOpHashData { dna_hash, .. } => dna_hash,
            HolochainP2pEvent::SignNetworkData { dna_hash, .. } => dna_hash,
        }
    }

    pub open spec fn spec_to_agent(self) -> AgentPubKey {
        match self {
            HolochainP2pEvent::PutAgentInfoSigned { to_agent, .. } => to_agent,
            HolochainP2pEvent::GetAgentInfoSigned { to_agent, .. } => to_agent,
            HolochainP2pEvent::CallRemote { to_agent, .. } => to_agent,
            HolochainP2pEvent::Publish { to_agent, .. } => to_agent,
            HolochainP2pEvent::GetValidationPackage { to_agent, .. } => to_agent,
            HolochainP2pEvent::Get { to_agent, .. } => to_agent,
            HolochainP2pEvent::GetMeta { to_agent, .. } => to_agent,
            HolochainP2pEvent::GetLinks { to_agent, .. } => to_agent,
            HolochainP2pEvent::ValidationReceiptReceived { to_agent, .. } => to_agent,
            HolochainP2pEvent::FetchOpHashesForConstraints { to_agent, .. } => to_agent,
            HolochainP2pEvent::FetchOpHashData { to_agent, .. } => to_agent,
            HolochainP2pEvent::SignNetworkData { to_agent, .. } => to_agent,
        }
    }

    /// The DNA this event is for.
    pub fn dna_hash(&self) -> (r: &DnaHash)
        ensures
            *r == self.spec_dna_hash(),
    {
        match self {
            HolochainP2pEvent::PutAgentInfoSigned { dna_hash, .. } => dna_hash,
            HolochainP2pEvent::GetAgentInfoSigned { dna_hash, .. } => dna_hash,
            HolochainP2pEvent::CallRemote { dna_hash, .. } => dna_hash,
            HolochainP2pEvent::Publish { dna_hash, .. } => dna_hash,
            HolochainP2pEvent::GetValidationPackage { dna_hash, .. } => dna_hash,
            HolochainP2pEvent::Get { dna_hash, .. } => dna_hash,
            HolochainP2pEvent::GetMeta { dna_hash, .. } => dna_hash,
            HolochainP2pEvent::GetLinks { dna_hash, .. } => dna_hash,
            HolochainP2pEvent::ValidationReceiptReceived { dna_hash, .. } => dna_hash,
            HolochainP2pEvent::FetchOpHashesForConstraints { dna_hash, .. } => dna_hash,
            HolochainP2pEvent::FetchOpHashData { dna_hash, .. } => dna_hash,
            HolochainP2pEvent::SignNetworkData { dna_hash, .. } => dna_hash,
        }
    }

    /// The agent this event is addressed to.
    pub fn as_to_agent(&self) -> (r: &AgentPubKey)
        ensures
            *r == self.spec_to_agent(),
    {
        match self {
            HolochainP2pEvent::PutAgentInfoSigned { to_agent, .. } => to_agent,
            HolochainP2pEvent::GetAgentInfoSigned { to_agent, .. } => to_agent,
            HolochainP2pEvent::CallRemote { to_agent, .. } => to_agent,
            HolochainP2pEvent::Publish { to_agent, .. } => to_agent,
            HolochainP2pEvent::GetValidationPackage { to_agent, .. } => to_agent,
            HolochainP2pEvent::Get { to_agent, .. } => to_agent,
            HolochainP2pEvent::GetMeta { to_agent, .. } => to_agent,
            HolochainP2pEvent::GetLinks { to_agent, .. } => to_agent,
            HolochainP2pEvent::ValidationReceiptReceived { to_agent, .. } => to_agent,
            HolochainP2pEvent::FetchOpHashesForConstraints { to_agent, .. } => to_agent,
            HolochainP2pEvent::FetchOpHashData { to_agent, .. } => to_agent,
            HolochainP2pEvent::SignNetworkData { to_agent, .. } => to_agent,
        }
    }
}

} // verus!
