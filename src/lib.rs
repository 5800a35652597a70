//! A hash-chained, append-only source chain with a staging buffer, a
//! single-writer root gatekeeper, and the zome-call validation workflow.
pub mod hash;
pub mod header;
pub mod keystore;
pub mod dht_op;
pub mod chain_sequence;
pub mod gatekeep;
pub mod element_buf;
pub mod source_chain_buffer;
pub mod mutex_based;
pub mod validation;
pub mod call_zome_workflow;
pub mod event;
pub mod json;
