//! The local signing capability: the agents whose secrets are held here.
use crate::hash::{hash_bytes, hash_of, tag_bytes, tag_of, AgentPubKey, Signature};
use vstd::prelude::*;

verus! {

/// An agent's public key with the secret its signatures are made under.
#[derive(Clone, Debug)]
pub struct AgentKey {
    pub pub_key: AgentPubKey,
    pub secret: Vec<u8>,
}

/// Signing fails when the author's secret is not held locally.
#[derive(Clone, Copy, Debug, PartialEq, Eq, Structural)]
pub enum KeystoreError {
    KeyUnavailable,
}

/// The agents held locally. A signature is the keyed BLAKE2b tag of the
/// signed bytes under the agent's secret.
#[derive(Clone, Debug)]
pub struct Keystore {
    keys: Vec<AgentKey>,
}

/// Index `i` holds the first key of `keys` for `agent`.
pub open spec fn first_key_at(keys: Seq<AgentKey>, agent: AgentPubKey, i: int) -> bool {
    &&& 0 <= i < keys.len()
    &&& keys[i].pub_key == agent
    &&& forall|j: int| 0 <= j < i ==> keys[j].pub_key != agent
}

impl Keystore {
    pub closed spec fn keys(self) -> Seq<AgentKey> {
        self.keys@
    }

    /// Every secret is short enough to key the tag.
    pub open spec fn wf(self) -> bool {
        forall|i: int| 0 <= i < self.keys().len() ==> (#[trigger] self.keys()[i]).secret@.len() <= 64
    }

    pub open spec fn holds(self, agent: AgentPubKey) -> bool {
        exists|i: int| 0 <= i < self.keys().len() && self.keys()[i].pub_key == agent
    }

    /// What `sign` gives for `agent` over `data`, where the agent is held.
    pub open spec fn signature_of(self, agent: AgentPubKey, data: Seq<u8>) -> Signature {
        let i = choose|i: int| first_key_at(self.keys(), agent, i);
        tag_of(self.keys()[i].secret@, data)
    }

    pub fn new() -> (r: Keystore)
        ensures
            r.keys() == Seq::<AgentKey>::empty(),
            r.wf(),
    {
        Keystore { keys: Vec::new() }
    }

    /// Holds a new agent whose public key is the hash of its secret.
    pub fn add_agent(&mut self, secret: Vec<u8>) -> (r: AgentPubKey)
        requires
            old(self).wf(),
            secret@.len() <= 64,
        ensures
            r == hash_of(secret@),
            final(self).keys() == old(self).keys().push(AgentKey { pub_key: r, secret }),
            final(self).wf(),
    {
        let pub_key = hash_bytes(&secret);
        self.keys.push(AgentKey { pub_key, secret });
        proof {
            assert forall|i: int| 0 <= i < self.keys().len() implies (
            #[trigger] self.keys()[i]).secret@.len() <= 64 by {
                if i < old(self).keys().len() {
                    assert(self.keys()[i] == old(self).keys()[i]);
                }
            }
        }
        pub_key
    }

    fn find(&self, agent: &AgentPubKey) -> (r: Option<usize>)
        ensures
            match r {
                Some(i) => first_key_at(self.keys(), *agent, i as int),
                None => !self.holds(*agent),
            },
    {
        let mut i: usize = 0;
        while i < self.keys.len()
            invariant
                i <= self.keys@.len(),
                forall|j: int| 0 <= j < i ==> self.keys@[j].pub_key != *agent,
            decreases self.keys@.len() - i,
        {
            if self.keys[i].pub_key == *agent {
                return Some(i);
            }
            i = i + 1;
        }
        None
    }

    /// Signs `data` as `agent`.
    pub fn sign(&self, agent: &AgentPubKey, data: &Vec<u8>) -> (r: Result<Signature, KeystoreError>)
        requires
            self.wf(),
        ensures
            r is Ok <==> self.holds(*agent),
            r is Ok ==> r->Ok_0 == self.signature_of(*agent, data@),
    {
        match self.find(agent) {
            None => Err(KeystoreError::KeyUnavailable),
            Some(i) => {
                proof {
                    let k = choose|k: int| first_key_at(self.keys(), *agent, k);
                    if k < i {
                        assert(first_key_at(self.keys(), *agent, k));
                    } else if i < k {
                        assert(first_key_at(self.keys(), *agent, k));
                    }
                    assert(k == i);
                }
                Ok(tag_bytes(&self.keys[i].secret, data))
            },
        }
    }
}

} // verus!
