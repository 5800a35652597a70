//! A handle to a chain root whose callers take turns on the gatekeeper
//! directly, each holding it exclusively for one write.
use crate::gatekeep::{gatekeep_result, Address, ChainRootGatekeeper, LmdbTransaction, LmdbUnique, TransactError};
use crate::keystore::Keystore;
use vstd::prelude::*;

verus! {

pub struct ChainRootHandle {
    inner: ChainRootGatekeeper,
}

impl ChainRootHandle {
    pub closed spec fn gatekeeper(self) -> ChainRootGatekeeper {
        self.inner
    }

    pub open spec fn wf(self) -> bool {
        self.gatekeeper().wf()
    }

    /// Creates the handle to the root of one chain. There must be exactly
    /// one per durable store.
    pub fn new(db_write: LmdbUnique, keystore: Keystore) -> (r: ChainRootHandle)
        ensures
            r.gatekeeper().db() == db_write,
            r.gatekeeper().keys() == keystore,
    {
        ChainRootHandle { inner: ChainRootGatekeeper::new(db_write, keystore) }
    }

    /// The durable store as it stands.
    pub fn store(&self) -> (r: &LmdbUnique)
        ensures
            *r == self.gatekeeper().db(),
    {
        self.inner.db_read().store
    }

    /// Runs one write through the gatekeeper.
    pub fn try_append_chain(&mut self, bundle: LmdbTransaction, valid_at: Address, rebasable: bool) -> (r: Result<(), TransactError>)
        requires
            old(self).wf(),
        ensures
            final(self).wf(),
            final(self).gatekeeper().keys() == old(self).gatekeeper().keys(),
            ({
                let g = gatekeep_result(
                    old(self).gatekeeper().db().elements@,
                    old(self).gatekeeper().db().sequence@,
                    old(self).gatekeeper().keys(),
                    bundle,
                    valid_at,
                    rebasable,
                );
                &&& final(self).gatekeeper().db().elements@ == g.0
                &&& final(self).gatekeeper().db().sequence@ == g.1
                &&& r == g.2
            }),
    {
        self.inner.gatekeep(bundle, valid_at, rebasable)
    }
}

} // verus!
