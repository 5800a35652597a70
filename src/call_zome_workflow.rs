//! The zome-call workflow: after application code has appended to a
//! workspace, validate exactly the new elements, and only if every one is
//! accepted hand them over as one transaction for the gatekeeper.
use crate::gatekeep::{get_source_chain_root_hash, Address, LmdbTransaction, LmdbUnique};
use crate::hash::AnyDhtHash;
use crate::header::Element;
use crate::keystore::Keystore;
use crate::source_chain_buffer::{element_at, SourceChainBuf, SourceChainError};
use crate::validation::{
    app_validation_for, app_validation_of, sys_check, sys_validate_element, AppValidation, Outcome,
    SysValidationError,
};
use vstd::prelude::*;

verus! {

#[derive(Clone, Debug, PartialEq, Eq)]
pub enum WorkflowError {
    SourceChain(SourceChainError),
    /// A new element failed the system checks; the call is aborted.
    SysValidation(SysValidationError),
    /// The entry callback rejected an element, for this reason.
    InvalidCommit(String),
    /// A link callback rejected an element, for this reason.
    InvalidLink(String),
    /// A callback could not decide for want of these; a local commit must
    /// have every dependency at hand.
    MissingDependencies(Vec<AnyDhtHash>),
}

/// The per-call workspace: the source chain buffer that application code
/// appends to, and the chain root it was opened at.
pub struct CallZomeWorkspace<'a> {
    pub source_chain: SourceChainBuf<'a>,
    pub observed_root: Address,
}

impl<'a> CallZomeWorkspace<'a> {
    pub open spec fn wf(self) -> bool {
        self.source_chain.wf()
    }

    /// Opens a workspace over the durable store, noting its root.
    pub fn new(env: &'a LmdbUnique, keystore: &'a Keystore) -> (r: Result<CallZomeWorkspace<'a>, WorkflowError>)
        requires
            env.wf(),
            keystore.wf(),
        ensures
            r is Ok <==> crate::chain_sequence::records_in_order(env.sequence@),
            r is Err ==> r == Err::<CallZomeWorkspace<'a>, _>(WorkflowError::SourceChain(SourceChainError::IndexCorrupt)),
            r is Ok ==> {
                let w = r->Ok_0;
                &&& w.wf()
                &&& w.observed_root == env.root()
                &&& w.source_chain.all() == env.elements@
                &&& w.source_chain.keys() == *keystore
                &&& w.source_chain.chain() == env.sequence@.map_values(|x: crate::gatekeep::SequenceRecord| x.header_address)
                &&& w.source_chain.element_buf().scratch() == Seq::<Element>::empty()
                &&& w.source_chain.sequence_buf().completed() == Seq::<u32>::empty()
            },
    {
        let observed_root = get_source_chain_root_hash(&env.downgrade());
        match SourceChainBuf::new(env, keystore) {
            Ok(source_chain) => Ok(CallZomeWorkspace { source_chain, observed_root }),
            Err(e) => Err(WorkflowError::SourceChain(e)),
        }
    }

    /// Moves the staged elements and marks into a prepared write.
    pub fn flush_to_txn_ref(&mut self, txn: &mut LmdbTransaction)
        requires
            old(self).wf(),
        ensures
            final(txn).elements@ == old(txn).elements@ + old(self).source_chain.element_buf().scratch(),
            final(txn).completed@ == old(txn).completed@ + old(self).source_chain.sequence_buf().completed(),
            final(self).wf(),
            final(self).observed_root == old(self).observed_root,
    {
        self.source_chain.flush_to_txn_ref(txn);
    }
}

/// The system checks on the elements at sequence numbers `start` up to
/// `end`, in order, stopping at the first failure; on success, the callback
/// each of them goes to.
pub open spec fn sys_batch(buf: SourceChainBuf, start: int, end: int) -> Result<Seq<AppValidation>, WorkflowError>
    decreases end - start,
{
    if end <= start {
        Ok(seq![])
    } else {
        match sys_batch(buf, start, end - 1) {
            Err(e) => Err(e),
            Ok(v) => {
                let i = end - 1;
                match element_at(buf, i) {
                    None => Err(WorkflowError::SourceChain(SourceChainError::ElementMissing(buf.chain()[i]))),
                    Some(e) => if i > 0 && element_at(buf, i - 1) is None {
                        Err(WorkflowError::SourceChain(SourceChainError::ElementMissing(buf.chain()[i - 1])))
                    } else {
                        match sys_check(buf.keys(), e, i, if i > 0 { element_at(buf, i - 1) } else { None }) {
                            Some(err) => Err(WorkflowError::SysValidation(err)),
                            None => Ok(v.push(app_validation_of(e.spec_header(), e.address()))),
                        }
                    },
                }
            },
        }
    }
}

/// What the workflow makes of one callback's outcome.
pub open spec fn outcome_step(req: AppValidation, out: Outcome) -> Result<(), WorkflowError> {
    match req {
        AppValidation::Exempt => Ok(()),
        _ => match out {
            Outcome::Accepted => Ok(()),
            Outcome::AwaitingDeps(h) => Err(WorkflowError::MissingDependencies(h)),
            Outcome::Rejected(reason) => match req {
                AppValidation::Entry { .. } => Err(WorkflowError::InvalidCommit(reason)),
                _ => Err(WorkflowError::InvalidLink(reason)),
            },
        },
    }
}

/// The first `m` outcomes taken in order, stopping at the first failure.
pub open spec fn outcomes_result(reqs: Seq<AppValidation>, outs: Seq<Outcome>, m: int) -> Result<(), WorkflowError>
    decreases m,
{
    if m <= 0 {
        Ok(())
    } else {
        match outcomes_result(reqs, outs, m - 1) {
            Err(e) => Err(e),
            Ok(_) => outcome_step(reqs[m - 1], outs[m - 1]),
        }
    }
}

/// Runs the system checks on every element appended since the chain had
/// `chain_head_start_len` elements, oldest first, and says which callback
/// each goes to.
pub fn validate_new_elements(workspace: &CallZomeWorkspace, chain_head_start_len: usize) -> (r: Result<Vec<AppValidation>, WorkflowError>)
    requires
        workspace.wf(),
    ensures
        r matches Ok(v) ==> sys_batch(workspace.source_chain, chain_head_start_len as int, workspace.source_chain.chain().len() as int) == Ok::<Seq<AppValidation>, WorkflowError>(v@),
        r matches Err(e) ==> sys_batch(workspace.source_chain, chain_head_start_len as int, workspace.source_chain.chain().len() as int) == Err::<Seq<AppValidation>, WorkflowError>(e),
{
    let buf = &workspace.source_chain;
    let end = buf.len();
    let mut reqs: Vec<AppValidation> = Vec::new();
    let mut i: usize = chain_head_start_len;
    if i > end {
        return Ok(reqs);
    }
    while i < end
        invariant
            buf == &workspace.source_chain,
            buf.wf(),
            end == buf.chain().len(),
            chain_head_start_len <= i <= end,
            sys_batch(*buf, chain_head_start_len as int, i as int) == Ok::<Seq<AppValidation>, WorkflowError>(reqs@),
        decreases end - i,
    {
        let element = match buf.get_at_index(i as u32) {
            Some(e) => e,
            None => {
                let r = Err(WorkflowError::SourceChain(SourceChainError::ElementMissing(buf.sequence().get(i as u32).unwrap())));
                proof {
                    lemma_sys_batch_err_stays(*buf, chain_head_start_len as int, i + 1, end as int);
                }
                return r;
            },
        };
        let prev = if i > 0 {
            match buf.get_at_index((i - 1) as u32) {
                Some(p) => Some(p),
                None => {
                    let r = Err(WorkflowError::SourceChain(
                        SourceChainError::ElementMissing(buf.sequence().get((i - 1) as u32).unwrap()),
                    ));
                    proof {
                        lemma_sys_batch_err_stays(*buf, chain_head_start_len as int, i + 1, end as int);
                    }
                    return r;
                },
            }
        } else {
            None
        };
        match sys_validate_element(buf.keystore(), element, i as u32, prev) {
            Ok(()) => {},
            Err(err) => {
                proof {
                    lemma_sys_batch_err_stays(*buf, chain_head_start_len as int, i + 1, end as int);
                }
                return Err(WorkflowError::SysValidation(err));
            },
        }
        reqs.push(app_validation_for(element));
        i = i + 1;
    }
    Ok(reqs)
}

/// Takes the callbacks' outcomes in order, stopping at the first that is
/// not an acceptance: a rejection, or dependencies still missing.
pub fn check_app_validation(reqs: &Vec<AppValidation>, outcomes: Vec<Outcome>) -> (r: Result<(), WorkflowError>)
    requires
        outcomes@.len() == reqs@.len(),
    ensures
        r == outcomes_result(reqs@, outcomes@, reqs@.len() as int),
{
    let ghost outs = outcomes@;
    let mut pending = outcomes;
    let n = reqs.len();
    let mut k: usize = 0;
    while k < n
        invariant
            n == reqs@.len() == outs.len(),
            k <= n,
            outs == outcomes@,
            pending@ == outs.subrange(k as int, n as int),
            outcomes_result(reqs@, outs, k as int) == Ok::<(), WorkflowError>(()),
        decreases n - k,
    {
        let out = pending.remove(0);
        assert(out == outs[k as int]);
        assert(pending@ =~= outs.subrange(k + 1, n as int));
        let req = reqs[k];
        let ghost step = outcome_step(req, out);
        assert(outcomes_result(reqs@, outs, k + 1) == step);
        let res: Result<(), WorkflowError> = match req {
            AppValidation::Exempt => Ok(()),
            _ => match out {
                Outcome::Accepted => Ok(()),
                Outcome::AwaitingDeps(h) => Err(WorkflowError::MissingDependencies(h)),
                Outcome::Rejected(reason) => match req {
                    AppValidation::Entry { .. } => Err(WorkflowError::InvalidCommit(reason)),
                    _ => Err(WorkflowError::InvalidLink(reason)),
                },
            },
        };
        assert(res == step);
        if res.is_err() {
            proof {
                lemma_outcomes_err_stays(reqs@, outs, k + 1, n as int);
            }
            return res;
        }
        k = k + 1;
    }
    Ok(())
}

/// Finishes a zome call whose application code appended to `workspace`
/// since the chain had `chain_head_start_len` elements: system-validates the
/// new elements, takes the application callbacks' outcomes (one per new
/// element, in order), and only if all pass returns the whole workspace as
/// one transaction. On any failure nothing is returned to commit.
pub fn call_zome_workflow(
    workspace: CallZomeWorkspace,
    chain_head_start_len: usize,
    outcomes: Vec<Outcome>,
) -> (r: Result<LmdbTransaction, WorkflowError>)
    requires
        workspace.wf(),
        chain_head_start_len <= workspace.source_chain.chain().len(),
        outcomes@.len() == workspace.source_chain.chain().len() - chain_head_start_len,
    ensures
        ({
            let buf = workspace.source_chain;
            let batch = sys_batch(buf, chain_head_start_len as int, buf.chain().len() as int);
            match batch {
                Err(e) => r == Err::<LmdbTransaction, WorkflowError>(e),
                Ok(reqs) => match outcomes_result(reqs, outcomes@, reqs.len() as int) {
                    Err(e) => r == Err::<LmdbTransaction, WorkflowError>(e),
                    Ok(_) => r is Ok && r->Ok_0.elements@ == buf.element_buf().scratch()
                        && r->Ok_0.completed@ == buf.sequence_buf().completed(),
                },
            }
        }),
{
    let reqs = validate_new_elements(&workspace, chain_head_start_len);
    let reqs = match reqs {
        Ok(v) => v,
        Err(e) => {
            return Err(e);
        },
    };
    proof {
        lemma_sys_batch_len(workspace.source_chain, chain_head_start_len as int, workspace.source_chain.chain().len() as int);
    }
    check_app_validation(&reqs, outcomes)?;
    let ghost scratch0 = workspace.source_chain.element_buf().scratch();
    let mut workspace = workspace;
    let mut txn = LmdbTransaction { elements: Vec::new(), completed: Vec::new() };
    workspace.flush_to_txn_ref(&mut txn);
    assert(txn.elements@ =~= scratch0);
    Ok(txn)
}

proof fn lemma_sys_batch_err_stays(buf: SourceChainBuf, start: int, k: int, end: int)
    requires
        start < k <= end,
        sys_batch(buf, start, k) is Err,
    ensures
        sys_batch(buf, start, end) == sys_batch(buf, start, k),
    decreases end - k,
{
    if end > k {
        lemma_sys_batch_err_stays(buf, start, k, end - 1);
    }
}

proof fn lemma_outcomes_err_stays(reqs: Seq<AppValidation>, outs: Seq<Outcome>, k: int, m: int)
    requires
        0 < k <= m,
        outcomes_result(reqs, outs, k) is Err,
    ensures
        outcomes_result(reqs, outs, m) == outcomes_result(reqs, outs, k),
    decreases m - k,
{
    if m > k {
        lemma_outcomes_err_stays(reqs, outs, k, m - 1);
    }
}

pub proof fn lemma_sys_batch_len(buf: SourceChainBuf, start: int, end: int)
    ensures
        sys_batch(buf, start, end) matches Ok(v) ==> v.len() == if end > start { end - start } else { 0 },
    decreases end - start,
{
    if end > start {
        lemma_sys_batch_len(buf, start, end - 1);
    }
}

/// Once the callback for one new element rejects it, or reports missing
/// dependencies, the batch fails whatever the later outcomes are: no
/// transaction is produced, so none of the batch reaches durable storage.
pub proof fn lemma_rejection_aborts_batch(reqs: Seq<AppValidation>, outs: Seq<Outcome>, i: int, m: int)
    requires
        0 <= i < m <= reqs.len(),
        m <= outs.len(),
        outcome_step(reqs[i], outs[i]) is Err,
    ensures
        outcomes_result(reqs, outs, m) is Err,
    decreases m,
{
    if m - 1 > i {
        lemma_rejection_aborts_batch(reqs, outs, i, m - 1);
    }
}

} // verus!
