use source_chain::call_zome_workflow::{
    call_zome_workflow, check_app_validation, validate_new_elements, CallZomeWorkspace, WorkflowError,
};
use source_chain::event::{ActorGetOptions, GetOptions, HolochainP2pEvent};
use source_chain::gatekeep::{self, get_source_chain_root_hash, Address, LmdbTransaction, LmdbUnique, TransactError};
use source_chain::hash::{hash_bytes, AgentPubKey, HoloHash};
use source_chain::header::{hash_entry, Entry, EntryType, Header, HeaderContent};
use source_chain::keystore::Keystore;
use source_chain::mutex_based;
use source_chain::source_chain_buffer::SourceChainBuf;
use source_chain::validation::{AppValidation, Outcome, SysValidationError};

fn setup(seed: u8) -> (Keystore, AgentPubKey) {
    let mut ks = Keystore::new();
    let agent = ks.add_agent(vec![seed; 32]);
    (ks, agent)
}

fn dna() -> HoloHash {
    hash_bytes(&b"dna".to_vec())
}

/// A transaction appending `n` app entries after the store's head.
fn prepared(store: &LmdbUnique, ks: &Keystore, agent: AgentPubKey, n: u8) -> (LmdbTransaction, Address) {
    let root = get_source_chain_root_hash(&store.downgrade());
    let mut buf = SourceChainBuf::new(store, ks).unwrap();
    if buf.is_empty() {
        buf.genesis_at(dna(), agent, None, 0).unwrap();
    }
    for i in 0..n {
        let entry = Entry::App(vec![i, 42]);
        let entry_hash = hash_entry(&entry);
        buf.put(agent, 100 + i as u64, HeaderContent::Create { entry_type: EntryType::App, entry_hash }, Some(entry))
            .unwrap();
    }
    let mut txn = LmdbTransaction { elements: vec![], completed: vec![] };
    buf.flush_to_txn_ref(&mut txn);
    (txn, root)
}

fn assert_contiguous(store: &LmdbUnique) {
    for (i, e) in store.elements.iter().enumerate() {
        assert_eq!(e.header().header_seq as usize, i);
        assert_eq!(store.sequence[i].seq as usize, i);
        assert_eq!(store.sequence[i].header_address, *e.header_address());
        assert_eq!(*e.header_address(), source_chain::header::hash_header(e.header()));
        if i == 0 {
            assert!(e.header().prev_header.is_none());
        } else {
            assert_eq!(e.header().prev_header, Some(*store.elements[i - 1].header_address()));
        }
    }
}

#[test]
fn unmoved_root_applies_and_moves_root() {
    let (ks, agent) = setup(1);
    let mut handle = mutex_based::ChainRootHandle::new(LmdbUnique::new(), ks.clone());
    let (txn, root) = prepared(handle.store(), &ks, agent, 1);
    let last = *txn.elements.last().unwrap().header_address();
    assert_eq!(root, Address { head: None, len: 0 });
    assert_eq!(handle.try_append_chain(txn, root, false), Ok(()));
    let new_root = get_source_chain_root_hash(&handle.store().downgrade());
    assert_eq!(new_root, Address { head: Some(last), len: 4 });
    assert_contiguous(handle.store());
}

#[test]
fn moved_root_without_rebase_is_refused_unchanged() {
    let (ks, agent) = setup(2);
    let mut handle = mutex_based::ChainRootHandle::new(LmdbUnique::new(), ks.clone());
    let (t0, r0) = prepared(handle.store(), &ks, agent, 0);
    handle.try_append_chain(t0, r0, false).unwrap();
    let (stale, stale_root) = prepared(handle.store(), &ks, agent, 1);
    let (winner, root) = prepared(handle.store(), &ks, agent, 2);
    handle.try_append_chain(winner, root, false).unwrap();
    let before = handle.store().clone();
    assert_eq!(handle.try_append_chain(stale, stale_root, false), Err(TransactError::HeadMoved));
    assert_eq!(handle.store().elements, before.elements);
    assert_eq!(handle.store().sequence, before.sequence);
}

#[test]
fn moved_root_with_rebase_lands_after_head() {
    let (ks, agent) = setup(3);
    let mut handle = mutex_based::ChainRootHandle::new(LmdbUnique::new(), ks.clone());
    let (t0, r0) = prepared(handle.store(), &ks, agent, 0);
    handle.try_append_chain(t0, r0, false).unwrap();
    let (first, stale_root) = prepared(handle.store(), &ks, agent, 2);
    let (second, same_stale_root) = prepared(handle.store(), &ks, agent, 1);
    assert_eq!(stale_root, same_stale_root);
    assert_eq!(handle.try_append_chain(first, stale_root, true), Ok(()));
    assert_eq!(handle.store().elements.len(), 5);
    assert_eq!(handle.try_append_chain(second, same_stale_root, true), Ok(()));
    assert_eq!(handle.store().elements.len(), 6);
    assert_eq!(handle.store().elements[5].entry().cloned(), Some(Entry::App(vec![0, 42])));
    assert_contiguous(handle.store());
}

#[test]
fn rebase_needs_the_author_key() {
    let (ks, agent) = setup(4);
    let mut handle = mutex_based::ChainRootHandle::new(LmdbUnique::new(), Keystore::new());
    let (t0, r0) = prepared(handle.store(), &ks, agent, 0);
    handle.try_append_chain(t0, r0, false).unwrap();
    let (stale, stale_root) = prepared(handle.store(), &ks, agent, 1);
    let (winner, root) = prepared(handle.store(), &ks, agent, 1);
    handle.try_append_chain(winner, root, false).unwrap();
    assert_eq!(handle.try_append_chain(stale, stale_root, true), Err(TransactError::KeyUnavailable));
    assert_eq!(handle.store().elements.len(), 4);
}

#[test]
fn queued_handle_runs_writes_in_arrival_order() {
    let (ks, agent) = setup(5);
    let mut handle = gatekeep::ChainRootHandle::new(LmdbUnique::new(), ks.clone());
    let (t0, r0) = prepared(handle.store(), &ks, agent, 0);
    assert_eq!(handle.try_append_chain(t0, r0, false), Ok(()));
    let (a, stale) = prepared(handle.store(), &ks, agent, 1);
    let (b, _) = prepared(handle.store(), &ks, agent, 2);
    let (c, _) = prepared(handle.store(), &ks, agent, 1);
    handle.submit(a, stale, true);
    handle.submit(b, stale, true);
    handle.submit(c, stale, false);
    let replies = handle.start_loop();
    assert_eq!(replies, vec![Ok(()), Ok(()), Err(TransactError::HeadMoved)]);
    assert_eq!(handle.store().elements.len(), 6);
    assert_eq!(handle.store().elements[3].entry().cloned(), Some(Entry::App(vec![0, 42])));
    assert_eq!(handle.store().elements[4].entry().cloned(), Some(Entry::App(vec![0, 42])));
    assert_eq!(handle.store().elements[5].entry().cloned(), Some(Entry::App(vec![1, 42])));
    assert_contiguous(handle.store());
}

#[test]
fn both_handles_agree() {
    let (ks, agent) = setup(6);
    let mut direct = mutex_based::ChainRootHandle::new(LmdbUnique::new(), ks.clone());
    let mut queued = gatekeep::ChainRootHandle::new(LmdbUnique::new(), ks.clone());
    for rebasable in [false, true] {
        let (t0, r0) = prepared(direct.store(), &ks, agent, 1);
        let (t1, r1) = prepared(direct.store(), &ks, agent, 2);
        let d0 = direct.try_append_chain(t0, r0, rebasable);
        let d1 = direct.try_append_chain(t1, r1, rebasable);
        let (q0, s0) = prepared(queued.store(), &ks, agent, 1);
        let (q1, s1) = prepared(queued.store(), &ks, agent, 2);
        let e0 = queued.try_append_chain(q0, s0, rebasable);
        let e1 = queued.try_append_chain(q1, s1, rebasable);
        assert_eq!((d0, d1), (e0, e1));
        assert_eq!(direct.store().elements, queued.store().elements);
        assert_eq!(direct.store().sequence, queued.store().sequence);
    }
}

#[test]
fn sequence_full_is_refused() {
    let (ks, _) = setup(7);
    let mut handle = mutex_based::ChainRootHandle::new(LmdbUnique::new(), ks);
    let root = get_source_chain_root_hash(&handle.store().downgrade());
    let txn = LmdbTransaction { elements: vec![], completed: vec![] };
    assert_eq!(handle.try_append_chain(txn, root, false), Ok(()));
    let moved = Address { head: Some(hash_bytes(&vec![1])), len: 9 };
    let txn = LmdbTransaction { elements: vec![], completed: vec![] };
    assert_eq!(handle.try_append_chain(txn, moved, false), Err(TransactError::HeadMoved));
}

#[test]
fn completions_reach_the_durable_index() {
    let (ks, agent) = setup(8);
    let mut handle = mutex_based::ChainRootHandle::new(LmdbUnique::new(), ks.clone());
    let (t0, r0) = prepared(handle.store(), &ks, agent, 0);
    handle.try_append_chain(t0, r0, false).unwrap();
    let (txn, root) = {
        let store = handle.store();
        let root = get_source_chain_root_hash(&store.downgrade());
        let mut buf = SourceChainBuf::new(store, &ks).unwrap();
        buf.complete_dht_op(1);
        let mut txn = LmdbTransaction { elements: vec![], completed: vec![] };
        buf.flush_to_txn_ref(&mut txn);
        (txn, root)
    };
    assert_eq!(txn.completed, vec![1]);
    handle.try_append_chain(txn, root, false).unwrap();
    let flags: Vec<bool> = handle.store().sequence.iter().map(|r| r.dht_transforms_complete).collect();
    assert_eq!(flags, vec![false, true, false]);
}

fn workspace_after_call<'a>(
    store: &'a LmdbUnique,
    ks: &'a Keystore,
    f: impl FnOnce(&mut SourceChainBuf<'a>),
) -> (CallZomeWorkspace<'a>, usize) {
    let mut ws = CallZomeWorkspace::new(store, ks).unwrap();
    let start = ws.source_chain.len();
    f(&mut ws.source_chain);
    (ws, start)
}

fn genesis_store(ks: &Keystore, agent: AgentPubKey) -> mutex_based::ChainRootHandle {
    let mut handle = mutex_based::ChainRootHandle::new(LmdbUnique::new(), ks.clone());
    let (t0, r0) = prepared(handle.store(), ks, agent, 0);
    handle.try_append_chain(t0, r0, false).unwrap();
    handle
}

#[test]
fn creates_outputs() {
    let (ks, agent) = setup(9);
    let mut handle = genesis_store(&ks, agent);
    let entry = Entry::App(b"fun_times".to_vec());
    let entry_hash = hash_entry(&entry);
    let (txn, root, old_head) = {
        let (ws, start) = workspace_after_call(handle.store(), &ks, |sc| {
            sc.put(agent, 50, HeaderContent::Create { entry_type: EntryType::App, entry_hash }, Some(entry.clone()))
                .unwrap();
        });
        let root = ws.observed_root;
        let txn = call_zome_workflow(ws, start, vec![Outcome::Accepted]).unwrap();
        (txn, root, root.head)
    };
    assert_eq!(txn.elements.len(), 1);
    handle.try_append_chain(txn, root, false).unwrap();
    let store = SourceChainBuf::new(handle.store(), &ks).unwrap();
    assert_eq!(store.len(), 4);
    assert_eq!(store.get_at_index(3).unwrap().header().prev_header, old_head);
    assert_eq!(store.get_entry(&entry_hash).map(|e| e.entry.clone()), Some(entry));
}

#[test]
fn calls_system_validation() {
    let (ks, agent) = setup(10);
    let handle = genesis_store(&ks, agent);
    let (ws, start) = workspace_after_call(handle.store(), &ks, |sc| {
        let bad = Header {
            author: agent,
            timestamp: 60,
            header_seq: 7,
            prev_header: sc.chain_head(),
            content: HeaderContent::InitZomesComplete,
        };
        sc.put_raw(bad, None).unwrap();
    });
    assert_eq!(
        validate_new_elements(&ws, start),
        Err(WorkflowError::SysValidation(SysValidationError::WrongSequence))
    );
    assert_eq!(
        call_zome_workflow(ws, start, vec![Outcome::Accepted]).err(),
        Some(WorkflowError::SysValidation(SysValidationError::WrongSequence))
    );
}

#[test]
fn calls_app_validation() {
    let (ks, agent) = setup(11);
    let handle = genesis_store(&ks, agent);
    let entry = Entry::App(b"fun_times".to_vec());
    let entry_hash = hash_entry(&entry);
    let (ws, start) = workspace_after_call(handle.store(), &ks, |sc| {
        sc.put(agent, 70, HeaderContent::InitZomesComplete, None).unwrap();
        sc.put(agent, 71, HeaderContent::Create { entry_type: EntryType::App, entry_hash }, Some(entry.clone()))
            .unwrap();
        sc.put(
            agent,
            72,
            HeaderContent::CreateLink { base_address: agent, target_address: entry_hash, tag: vec![1] },
            None,
        )
        .unwrap();
    });
    let reqs = validate_new_elements(&ws, start).unwrap();
    assert_eq!(reqs.len(), 3);
    assert_eq!(reqs[0], AppValidation::Exempt);
    assert!(matches!(reqs[1], AppValidation::Entry { .. }));
    assert_eq!(reqs[2], AppValidation::CreateLink { base_address: agent, target_address: entry_hash });
    assert_eq!(
        check_app_validation(&reqs, vec![Outcome::Rejected("x".to_string()), Outcome::Accepted, Outcome::Accepted]),
        Ok(())
    );
    assert_eq!(
        check_app_validation(&reqs, vec![Outcome::Accepted, Outcome::Accepted, Outcome::Rejected("bad link".to_string())]),
        Err(WorkflowError::InvalidLink("bad link".to_string()))
    );
    assert_eq!(
        check_app_validation(&reqs, vec![Outcome::Accepted, Outcome::AwaitingDeps(vec![entry_hash]), Outcome::Accepted]),
        Err(WorkflowError::MissingDependencies(vec![entry_hash]))
    );
}

#[test]
fn rejected_call_commits_nothing() {
    let (ks, agent) = setup(12);
    let handle = genesis_store(&ks, agent);
    let before = handle.store().clone();
    let (ws, start) = workspace_after_call(handle.store(), &ks, |sc| {
        for i in 0..3u8 {
            let entry = Entry::App(vec![i]);
            let entry_hash = hash_entry(&entry);
            sc.put(agent, 80 + i as u64, HeaderContent::Create { entry_type: EntryType::App, entry_hash }, Some(entry))
                .unwrap();
        }
    });
    let r = call_zome_workflow(
        ws,
        start,
        vec![Outcome::Accepted, Outcome::Rejected("nope".to_string()), Outcome::Accepted],
    );
    assert_eq!(r.err(), Some(WorkflowError::InvalidCommit("nope".to_string())));
    assert_eq!(handle.store().elements, before.elements);
    assert_eq!(handle.store().sequence, before.sequence);
}

#[test]
fn empty_call_needs_no_validation() {
    let (ks, agent) = setup(13);
    let handle = genesis_store(&ks, agent);
    let (ws, start) = workspace_after_call(handle.store(), &ks, |_| {});
    let txn = call_zome_workflow(ws, start, vec![]).unwrap();
    assert!(txn.elements.is_empty());
}

#[test]
fn events_expose_dna_and_agent() {
    let d = dna();
    let a = hash_bytes(&vec![3]);
    let evs = vec![
        HolochainP2pEvent::SignNetworkData { dna_hash: d, to_agent: a, data: vec![] },
        HolochainP2pEvent::Get {
            dna_hash: d,
            to_agent: a,
            dht_hash: a,
            options: GetOptions { follow_redirects: true, all_live_headers_with_metadata: false },
        },
        HolochainP2pEvent::CallRemote {
            dna_hash: d,
            to_agent: a,
            from_agent: d,
            zome_name: "z".to_string(),
            fn_name: "f".to_string(),
            cap: None,
            payload: vec![],
        },
    ];
    for e in &evs {
        assert_eq!(*e.dna_hash(), d);
        assert_eq!(*e.as_to_agent(), a);
    }
    let actor = ActorGetOptions {
        remote_agent_count: Some(3),
        timeout_ms: None,
        as_race: true,
        race_timeout_ms: None,
        follow_redirects: true,
        all_live_headers_with_metadata: true,
    };
    assert_eq!(GetOptions::from(&actor), GetOptions { follow_redirects: true, all_live_headers_with_metadata: true });
}
