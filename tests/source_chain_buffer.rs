use source_chain::gatekeep::{get_source_chain_root_hash, LmdbTransaction, LmdbUnique, SequenceRecord};
use source_chain::hash::{hash_bytes, AgentPubKey, HoloHash};
use source_chain::header::{hash_header, Entry, EntryType, Header, HeaderContent, HeaderType};
use source_chain::keystore::Keystore;
use source_chain::mutex_based::ChainRootHandle;
use source_chain::source_chain_buffer::{ChainInvalidReason, SourceChainBuf, SourceChainError};

fn keystore_with_agent(seed: u8) -> (Keystore, AgentPubKey) {
    let mut ks = Keystore::new();
    let agent = ks.add_agent(vec![seed; 32]);
    (ks, agent)
}

fn fake_dna_hash(name: &str) -> HoloHash {
    hash_bytes(&name.as_bytes().to_vec())
}

fn fixtures(agent: AgentPubKey) -> (Header, Option<Entry>, Header, Option<Entry>) {
    let dna_header = Header {
        author: agent,
        timestamp: 0,
        header_seq: 0,
        prev_header: None,
        content: HeaderContent::Dna { hash: fake_dna_hash("a") },
    };
    let agent_header = Header {
        author: agent,
        timestamp: 1,
        header_seq: 1,
        prev_header: Some(hash_header(&dna_header)),
        content: HeaderContent::Create { entry_type: EntryType::AgentPubKey, entry_hash: agent },
    };
    (dna_header, None, agent_header, Some(Entry::Agent(agent)))
}

fn commit(handle: &mut ChainRootHandle, ks: &Keystore, f: impl FnOnce(&mut SourceChainBuf)) {
    let (txn, root) = {
        let store = handle.store();
        let root = get_source_chain_root_hash(&store.downgrade());
        let mut buf = SourceChainBuf::new(store, ks).unwrap();
        f(&mut buf);
        let mut txn = LmdbTransaction { elements: vec![], completed: vec![] };
        buf.flush_to_txn_ref(&mut txn);
        (txn, root)
    };
    assert!(handle.try_append_chain(txn, root, false).is_ok());
}

#[test]
fn source_chain_buffer_iter_back() {
    let (ks, agent) = keystore_with_agent(1);
    let (dna_header, dna_entry, agent_header, agent_entry) = fixtures(agent);
    let mut handle = ChainRootHandle::new(LmdbUnique::new(), ks.clone());
    {
        let store = SourceChainBuf::new(handle.store(), &ks).unwrap();
        assert!(store.chain_head().is_none());
    }
    let (d, de, a, ae) = (dna_header.clone(), dna_entry.clone(), agent_header.clone(), agent_entry.clone());
    commit(&mut handle, &ks, move |store| {
        store.put_raw(d, de).unwrap();
        store.put_raw(a, ae).unwrap();
    });

    let store = SourceChainBuf::new(handle.store(), &ks).unwrap();
    assert!(store.chain_head().is_some());

    let dna_element_fetched = store.get_element(&hash_header(&dna_header)).expect("entry not found");
    let agent_element_fetched = store.get_element(&hash_header(&agent_header)).expect("entry not found");
    assert_eq!(&dna_header, dna_element_fetched.header());
    assert_eq!(dna_entry.as_ref(), dna_element_fetched.entry());
    assert_eq!(&agent_header, agent_element_fetched.header());
    assert_eq!(agent_entry.as_ref(), agent_element_fetched.entry());

    let mut iter = store.iter_back();
    let mut res = Vec::new();
    while let Some(h) = iter.next() {
        res.push(store.get_element(h.header_address()).unwrap().header().clone());
    }
    assert_eq!(vec![agent_header.clone(), dna_header.clone()], res);
}

#[test]
fn source_chain_buffer_dump_entries_json() {
    let (ks, agent) = keystore_with_agent(1);
    let (dna_header, dna_entry, agent_header, agent_entry) = fixtures(agent);
    let mut handle = ChainRootHandle::new(LmdbUnique::new(), ks.clone());
    commit(&mut handle, &ks, move |store| {
        store.put_raw(dna_header, dna_entry).unwrap();
        store.put_raw(agent_header, agent_entry).unwrap();
    });

    let store = SourceChainBuf::new(handle.store(), &ks).unwrap();
    let json = store.dump_as_json();
    let parsed: serde_json::Value = serde_json::from_str(&json).unwrap();

    assert_eq!(parsed[0]["element"]["header"]["type"], "Create");
    assert_eq!(parsed[0]["element"]["header"]["entry_type"], "AgentPubKey");
    assert_eq!(parsed[0]["element"]["entry"]["entry_type"], "Agent");
    assert_ne!(parsed[0]["element"]["entry"]["entry"], serde_json::Value::Null);

    assert_eq!(parsed[1]["element"]["header"]["type"], "Dna");
    assert_eq!(parsed[1]["element"]["entry"], serde_json::Value::Null);
}

#[test]
fn test_header_cas_roundtrip() {
    let (ks, agent) = keystore_with_agent(1);
    let db = LmdbUnique::new();
    let mut store = SourceChainBuf::new(&db, &ks).unwrap();

    let (header, _, _, _) = fixtures(agent);
    let hash = hash_header(&header);
    let hashed_again = hash_header(&header.clone());
    assert_eq!(hash, hashed_again);

    store.put_raw(header, None).unwrap();
    let signed_header = store.get_header(&hash).unwrap();

    assert_eq!(signed_header.header_address(), &hashed_again);
    assert_eq!(*signed_header.header_address(), hash_header(signed_header.header()));
}

#[test]
fn put_raw_is_visible_before_flush() {
    let (ks, agent) = keystore_with_agent(2);
    let db = LmdbUnique::new();
    let mut store = SourceChainBuf::new(&db, &ks).unwrap();
    let (h, e, _, _) = fixtures(agent);
    let addr = store.put_raw(h, e).unwrap();
    assert!(store.get_element(&addr).is_some());
    assert_eq!(store.len(), 1);
    assert_eq!(store.chain_head(), Some(addr));
}

#[test]
fn put_raw_without_held_key_fails_and_changes_nothing() {
    let (ks, _agent) = keystore_with_agent(2);
    let stranger = hash_bytes(&vec![9u8; 32]);
    let db = LmdbUnique::new();
    let mut store = SourceChainBuf::new(&db, &ks).unwrap();
    let (h, e, _, _) = fixtures(stranger);
    assert_eq!(store.put_raw(h, e), Err(SourceChainError::KeyUnavailable));
    assert!(store.is_empty());
    assert!(store.chain_head().is_none());
}

#[test]
fn genesis_shape_and_has_genesis() {
    let (ks, agent) = keystore_with_agent(3);
    let db = LmdbUnique::new();
    let mut store = SourceChainBuf::new(&db, &ks).unwrap();
    assert!(!store.has_genesis());
    store.genesis_at(fake_dna_hash("dna"), agent, Some(vec![7, 7]), 1000).unwrap();
    assert_eq!(store.len(), 3);
    assert!(store.has_genesis());
    assert!(!store.has_initialized());
    let kinds: Vec<HeaderType> = (0..3u32).map(|i| store.get_at_index(i).unwrap().header().header_type()).collect();
    assert_eq!(kinds, vec![HeaderType::Dna, HeaderType::AgentValidationPkg, HeaderType::Create]);
    let third = store.get_at_index(2).unwrap();
    assert_eq!(third.entry(), Some(&Entry::Agent(agent)));
    assert_eq!(store.agent_pubkey(), Ok(Some(agent)));
    for i in 0..3u32 {
        let h = store.get_at_index(i).unwrap().header();
        assert_eq!(h.header_seq, i);
        assert_eq!(h.timestamp, 1000 + i as u64);
    }
    // contiguity
    for i in 1..3u32 {
        let prev = store.get_at_index(i - 1).unwrap();
        let cur = store.get_at_index(i).unwrap();
        assert_eq!(cur.header().prev_header, Some(*prev.header_address()));
    }
    assert!(store.get_at_index(3).is_none());
}

#[test]
fn genesis_with_clock_builds_three_elements() {
    let (ks, agent) = keystore_with_agent(3);
    let db = LmdbUnique::new();
    let mut store = SourceChainBuf::new(&db, &ks).unwrap();
    store.genesis(fake_dna_hash("dna"), agent, None).unwrap();
    assert_eq!(store.len(), 3);
    let t0 = store.get_at_index(0).unwrap().header().timestamp;
    let t2 = store.get_at_index(2).unwrap().header().timestamp;
    assert_eq!(t2, t0 + 2);
}

#[test]
fn scenario_two_agents_genesis() {
    let (ks1, a1) = keystore_with_agent(11);
    let (ks2, a2) = keystore_with_agent(12);
    assert_ne!(a1, a2);
    let db1 = LmdbUnique::new();
    let db2 = LmdbUnique::new();
    let mut c1 = SourceChainBuf::new(&db1, &ks1).unwrap();
    let mut c2 = SourceChainBuf::new(&db2, &ks2).unwrap();
    c1.genesis_at(fake_dna_hash("space"), a1, None, 5).unwrap();
    c2.genesis_at(fake_dna_hash("space"), a2, None, 5).unwrap();
    assert_eq!(c1.len(), 3);
    assert_eq!(c2.len(), 3);
    assert_ne!(c1.chain_head(), c2.chain_head());
    for i in 0..3u32 {
        assert_eq!(
            c1.get_at_index(i).unwrap().header().header_type(),
            c2.get_at_index(i).unwrap().header().header_type()
        );
    }
}

#[test]
fn iter_back_yields_every_element_newest_first() {
    let (ks, agent) = keystore_with_agent(4);
    let db = LmdbUnique::new();
    let mut store = SourceChainBuf::new(&db, &ks).unwrap();
    store.genesis_at(fake_dna_hash("dna"), agent, None, 0).unwrap();
    store
        .put(agent, 10, HeaderContent::Create { entry_type: EntryType::App, entry_hash: hash_bytes(&vec![1]) }, None)
        .unwrap();
    let mut iter = store.iter_back();
    let mut seqs = Vec::new();
    let mut last_type = None;
    while let Some(h) = iter.next() {
        seqs.push(h.header().header_seq);
        last_type = Some(h.header().header_type());
    }
    assert_eq!(seqs, vec![3, 2, 1, 0]);
    assert_eq!(last_type, Some(HeaderType::Dna));
    assert!(iter.next().is_none());
}

#[test]
fn agent_pubkey_reports_missing_or_malformed_genesis() {
    let (ks, agent) = keystore_with_agent(5);
    let db = LmdbUnique::new();
    let mut store = SourceChainBuf::new(&db, &ks).unwrap();
    assert_eq!(store.agent_pubkey(), Ok(None));
    let (h0, _, _, _) = fixtures(agent);
    store.put_raw(h0.clone(), None).unwrap();
    store.put_raw(h0.clone(), None).unwrap();
    store.put_raw(h0.clone(), None).unwrap();
    assert_eq!(
        store.agent_pubkey(),
        Err(SourceChainError::InvalidStructure(ChainInvalidReason::GenesisDataMissing))
    );

    let db2 = LmdbUnique::new();
    let mut store2 = SourceChainBuf::new(&db2, &ks).unwrap();
    for t in 0..3u64 {
        let h = Header { timestamp: t, ..h0.clone() };
        let e = if t == 2 { Some(Entry::App(vec![1, 2, 3])) } else { None };
        store2.put_raw(h, e).unwrap();
    }
    assert_eq!(
        store2.agent_pubkey(),
        Err(SourceChainError::InvalidStructure(ChainInvalidReason::MalformedGenesisData))
    );
}

#[test]
fn corrupt_index_is_refused() {
    let (ks, _) = keystore_with_agent(6);
    let mut db = LmdbUnique::new();
    let a = hash_bytes(&vec![1]);
    db.sequence.push(SequenceRecord { seq: 0, header_address: a, dht_transforms_complete: false });
    db.sequence.push(SequenceRecord { seq: 0, header_address: a, dht_transforms_complete: false });
    assert!(matches!(SourceChainBuf::new(&db, &ks), Err(SourceChainError::IndexCorrupt)));
}

#[test]
fn get_entry_finds_committed_content() {
    let (ks, agent) = keystore_with_agent(7);
    let db = LmdbUnique::new();
    let mut store = SourceChainBuf::new(&db, &ks).unwrap();
    store.genesis_at(fake_dna_hash("dna"), agent, None, 0).unwrap();
    let entry = Entry::App(b"Hi there".to_vec());
    let entry_hash = source_chain::header::hash_entry(&entry);
    assert_ne!(entry_hash, hash_bytes(&b"Hi there".to_vec()));
    store
        .put(agent, 9, HeaderContent::Create { entry_type: EntryType::App, entry_hash }, Some(entry.clone()))
        .unwrap();
    assert_eq!(store.get_entry(&entry_hash).map(|e| e.entry.clone()), Some(entry));
    assert_eq!(store.get_entry(&agent).map(|e| e.entry.clone()), Some(Entry::Agent(agent)));
    assert!(store.get_entry(&hash_bytes(&vec![0])).is_none());
}

#[test]
fn hashing_and_signing_depend_on_content() {
    let data = vec![1u8, 2, 3];
    let h = hash_bytes(&data);
    assert_eq!(h, hash_bytes(&vec![1u8, 2, 3]));
    assert_ne!(h, hash_bytes(&vec![1u8, 2, 4]));
    assert_ne!(h, HoloHash { hi: 0, lo: 0x010203 });
    let t1 = source_chain::hash::tag_bytes(&vec![1; 32], &data);
    let t2 = source_chain::hash::tag_bytes(&vec![2; 32], &data);
    assert_ne!(t1, t2);
    let mut ks = Keystore::new();
    let a = ks.add_agent(vec![1; 32]);
    assert_eq!(a, hash_bytes(&vec![1; 32]));
    assert_eq!(ks.sign(&a, &data), Ok(t1));
    assert!(ks.sign(&hash_bytes(&vec![5]), &data).is_err());
}

#[test]
fn encodings_are_exact() {
    let mut out = Vec::new();
    source_chain::hash::push_le(&mut out, 0x0102, 4);
    assert_eq!(out, vec![2, 1, 0, 0]);
    let mut out = Vec::new();
    source_chain::json::push_dec(&mut out, 1234);
    assert_eq!(out, b"1234".to_vec());
    let mut out = Vec::new();
    source_chain::json::push_hex(&mut out, 0xab, 4);
    assert_eq!(out, b"00ab".to_vec());
    let mut out = Vec::new();
    source_chain::json::push_bytes_hex(&mut out, &vec![0x0f, 0xa0]);
    assert_eq!(out, b"0fa0".to_vec());
    let h = Header {
        author: HoloHash { hi: 0, lo: 1 },
        timestamp: 2,
        header_seq: 3,
        prev_header: None,
        content: HeaderContent::InitZomesComplete,
    };
    let bytes = source_chain::header::encode_header(&h);
    assert_eq!(bytes.len(), 32 + 8 + 4 + 1 + 1);
    assert_eq!(bytes[0], 1);
    assert_eq!(bytes[32], 2);
    assert_eq!(bytes[40], 3);
    assert_eq!(bytes[44], 0);
    assert_eq!(bytes[45], 9);
}

#[test]
fn dht_ops_of_pending_entries() {
    let (ks, agent) = keystore_with_agent(8);
    let db = LmdbUnique::new();
    let mut store = SourceChainBuf::new(&db, &ks).unwrap();
    store.genesis_at(fake_dna_hash("dna"), agent, None, 0).unwrap();
    let ops = store.get_incomplete_dht_ops().unwrap();
    assert_eq!(ops.len(), 3);
    assert_eq!(ops[0].0, 0);
    assert_eq!(ops[0].1.len(), 2);
    assert_eq!(ops[2].1.len(), 3);
    store.complete_dht_op(0);
    let ops = store.get_incomplete_dht_ops().unwrap();
    assert_eq!(ops.iter().map(|o| o.0).collect::<Vec<_>>(), vec![1, 2]);
}

#[test]
fn element_missing_from_store_is_reported() {
    let (ks, _) = keystore_with_agent(8);
    let mut db = LmdbUnique::new();
    let a = hash_bytes(&vec![1]);
    db.sequence.push(SequenceRecord { seq: 0, header_address: a, dht_transforms_complete: false });
    let store = SourceChainBuf::new(&db, &ks).unwrap();
    assert_eq!(store.get_incomplete_dht_ops(), Err(SourceChainError::ElementMissing(a)));
    let parsed: serde_json::Value = serde_json::from_str(&store.dump_as_json()).unwrap();
    assert_eq!(parsed[0]["element"], serde_json::Value::Null);
}

#[test]
fn hash_displays_as_hex() {
    let h = HoloHash { hi: 0xab, lo: 1 };
    let s = h.to_string();
    assert_eq!(s.len(), 66);
    assert!(s.starts_with("0x"));
    assert_eq!(&s[2..34], "000000000000000000000000000000ab");
    assert_eq!(&s[34..], "00000000000000000000000000000001");
}
