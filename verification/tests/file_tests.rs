use localex::file::{
    handle_file_reciver, transfer_requests, checked_response, chunk_and_compress_raw, chunk_offset, chunk_request, compress_chunk, decompress_chunk,
    done_request, offer_request, ready_response, receive_file_request, should_send_file,
    write_in_range, ChunkResult, FileHandleManager, FileReceiverStep, FileRequestPayload, FileResponsePayload,
    RawStore, ReadableItem, CHUNK_SIZE,
};

#[test]
fn compress_then_decompress_gives_data_back() {
    let data: Vec<u8> = (0..5000u32).map(|i| (i % 13) as u8).collect();
    let c = compress_chunk(&data).unwrap();
    assert_ne!(c, data);
    assert_eq!(decompress_chunk(&c).unwrap(), data);
}

#[test]
fn decompress_refuses_garbage() {
    assert!(decompress_chunk(b"definitely not zstd").is_none());
}

#[test]
fn chunking_splits_at_chunk_size() {
    let data: Vec<u8> = (0..(CHUNK_SIZE * 2 + 10)).map(|i| (i % 251) as u8).collect();
    let chunks = chunk_and_compress_raw(&data).unwrap();
    assert_eq!(chunks.len(), 3);
    let mut joined = Vec::new();
    for (i, (index, c)) in chunks.iter().enumerate() {
        assert_eq!(*index, i);
        joined.extend(decompress_chunk(c).unwrap());
    }
    assert_eq!(joined, data);
    assert_eq!(chunk_and_compress_raw(&[]).unwrap().len(), 0);
    assert_eq!(chunk_and_compress_raw(&vec![1u8; CHUNK_SIZE]).unwrap().len(), 1);
}

#[test]
fn offer_counts_chunks_rounding_up() {
    let r = offer_request("s".into(), "app".into(), "f".into(), CHUNK_SIZE + 1);
    match r.payload {
        FileRequestPayload::Ready { size, chunks, chunk_size } => {
            assert_eq!(size, CHUNK_SIZE + 1);
            assert_eq!(chunks, 2);
            assert_eq!(chunk_size, CHUNK_SIZE);
        }
        _ => panic!("not an offer"),
    }
    match offer_request("s".into(), "a".into(), "f".into(), 2 * CHUNK_SIZE).payload {
        FileRequestPayload::Ready { chunks, .. } => assert_eq!(chunks, 2),
        _ => panic!("not an offer"),
    }
    match offer_request("s".into(), "a".into(), "f".into(), 0).payload {
        FileRequestPayload::Ready { chunks, .. } => assert_eq!(chunks, 0),
        _ => panic!("not an offer"),
    }
}

#[test]
fn received_chunk_is_decompressed_at_its_offset() {
    let data = b"some file content".to_vec();
    let c = compress_chunk(&data).unwrap();
    assert_eq!(chunk_offset(3), 3 * CHUNK_SIZE);
    let req = chunk_request("sess".into(), "app".into(), "file".into(), 3, c);
    match receive_file_request(req) {
        Some(FileReceiverStep::Write { session, app_id, file_id, chunk }) => {
            assert_eq!(session, "sess");
            assert_eq!(app_id, "app");
            assert_eq!(file_id, "file");
            assert_eq!(chunk.chunk, data);
            assert_eq!(chunk.offset, 3 * CHUNK_SIZE);
        }
        _ => panic!("expected a write"),
    }
}

#[test]
fn received_bad_chunk_is_refused() {
    let req = chunk_request("s".into(), "a".into(), "f".into(), 0, b"garbage".to_vec());
    assert!(receive_file_request(req).is_none());
}

#[test]
fn received_done_and_ready() {
    match receive_file_request(done_request("s".into(), "a".into(), "f".into())) {
        Some(FileReceiverStep::Done { session, app_id, file_id }) => {
            assert_eq!((session.as_str(), app_id.as_str(), file_id.as_str()), ("s", "a", "f"));
        }
        _ => panic!("expected done"),
    }
    match receive_file_request(offer_request("s".into(), "a".into(), "f".into(), 10)) {
        Some(FileReceiverStep::Ready { size, chunk_size, .. }) => {
            assert_eq!(size, 10);
            assert_eq!(chunk_size, CHUNK_SIZE);
        }
        _ => panic!("expected ready"),
    }
}

#[test]
fn responses_of_the_receiver() {
    let ok = checked_response("s".into(), "a".into(), "f".into(), true, 5);
    assert_eq!(ok.payload, FileResponsePayload::Checked { result: ChunkResult::Success, offset: 5 });
    let bad = checked_response("s".into(), "a".into(), "f".into(), false, 0);
    assert_eq!(bad.payload, FileResponsePayload::Checked { result: ChunkResult::Fail, offset: 0 });
    assert_eq!(ready_response("s".into(), "a".into(), "f".into()).payload, FileResponsePayload::Ready);
}

#[test]
fn sender_sends_on_ready_and_request() {
    assert!(should_send_file(&FileResponsePayload::Ready));
    assert!(should_send_file(&FileResponsePayload::RequestFile));
    assert!(!should_send_file(&FileResponsePayload::Checked { result: ChunkResult::Success, offset: 0 }));
}

#[test]
fn write_range_checks() {
    assert!(write_in_range(0, 10, 10));
    assert!(!write_in_range(5, 10, 10));
    assert!(!write_in_range(11, 0, 10));
    assert!(write_in_range(10, 0, 10));
}

#[test]
fn raw_store_registers_items() {
    let mut store = RawStore::new();
    store.regist_raw("id".into(), vec![1, 2]);
    match store.get_raw_item(&"id".to_string()) {
        Some(ReadableItem::Raw(v)) => assert_eq!(v, vec![1, 2]),
        _ => panic!("expected the item"),
    }
    store.unregist_raw(&"id".to_string());
    assert!(store.get_raw_item(&"id".to_string()).is_none());
}

#[test]
fn file_handles_by_session() {
    let mut m: FileHandleManager<u8> = FileHandleManager::new();
    let id1 = ("app".to_string(), "f1".to_string());
    let id2 = ("app".to_string(), "f2".to_string());
    m.add("s".into(), id1.clone(), 1);
    m.add("s".into(), id2.clone(), 2);
    assert_eq!(m.get(&"s".to_string(), &id1), Some(&1));
    assert_eq!(m.get(&"s".to_string(), &id2), Some(&2));
    assert_eq!(m.get(&"t".to_string(), &id1), None);
    m.remove(&"s".to_string(), &id1);
    assert_eq!(m.get(&"s".to_string(), &id1), None);
    assert_eq!(m.get(&"s".to_string(), &id2), Some(&2));
    m.remove(&"s".to_string(), &id2);
    assert_eq!(m.map.len(), 0);
    m.remove(&"nope".to_string(), &id2);
}

struct Recorder {
    log: Vec<String>,
    fail_reads: bool,
}

impl localex::file::FileReaderClient for Recorder {
    fn calls(&self) -> localex::file::ReaderLog {
        unreachable!("the call log exists in proofs only")
    }

    fn done(&mut self, session: &str, app_id: &str, file_id: &str) -> Result<(), String> {
        self.log.push(format!("done {session} {app_id} {file_id}"));
        Ok(())
    }

    fn read(&mut self, session: &str, _app_id: &str, _file_id: &str, chunk: localex::file::FileChunk) -> Result<(), String> {
        self.log.push(format!("read {session} {} {}", chunk.offset, chunk.chunk.len()));
        if self.fail_reads {
            Err("disk full".to_string())
        } else {
            Ok(())
        }
    }

    fn ready(&mut self, session: &str, _app_id: &str, _file_id: &str, size: usize, chunk_size: usize) -> Result<(), String> {
        self.log.push(format!("ready {session} {size} {chunk_size}"));
        Ok(())
    }
}

#[test]
fn receiver_hands_requests_to_reader() {
    let mut r = Recorder { log: Vec::new(), fail_reads: false };
    let ready = handle_file_reciver(&mut r, offer_request("s".into(), "a".into(), "f".into(), 7)).unwrap().unwrap();
    assert_eq!(ready.payload, FileResponsePayload::Ready);
    let c = compress_chunk(b"hello").unwrap();
    let checked = handle_file_reciver(&mut r, chunk_request("s".into(), "a".into(), "f".into(), 0, c.clone())).unwrap().unwrap();
    assert_eq!(checked.payload, FileResponsePayload::Checked { result: ChunkResult::Success, offset: 0 });
    assert!(handle_file_reciver(&mut r, done_request("s".into(), "a".into(), "f".into())).unwrap().is_none());
    assert_eq!(r.log, vec!["ready s 7 1048576".to_string(), "read s 0 5".to_string(), "done s a f".to_string()]);
    let mut failing = Recorder { log: Vec::new(), fail_reads: true };
    let failed = handle_file_reciver(&mut failing, chunk_request("s".into(), "a".into(), "f".into(), 1, c)).unwrap().unwrap();
    assert_eq!(failed.payload, FileResponsePayload::Checked { result: ChunkResult::Fail, offset: CHUNK_SIZE });
    assert!(handle_file_reciver(&mut failing, chunk_request("s".into(), "a".into(), "f".into(), 1, b"xx".to_vec())).is_err());
}

#[test]
fn transfer_sends_chunks_then_done() {
    let data: Vec<u8> = (0..(CHUNK_SIZE + 3)).map(|i| (i % 7) as u8).collect();
    let reqs = transfer_requests(&"s".to_string(), &"a".to_string(), &"f".to_string(), &data).unwrap();
    assert_eq!(reqs.len(), 3);
    let mut rebuilt = vec![0u8; data.len()];
    for r in &reqs[..2] {
        match &r.payload {
            FileRequestPayload::Chunk { data: c, offset } => {
                let plain = decompress_chunk(c).unwrap();
                rebuilt[*offset..*offset + plain.len()].copy_from_slice(&plain);
            }
            _ => panic!("expected a chunk"),
        }
    }
    assert_eq!(rebuilt, data);
    assert!(matches!(reqs[2].payload, FileRequestPayload::Done));
    assert!(reqs.iter().all(|r| r.session == "s" && r.app_id == "a" && r.file_id == "f"));
    assert_eq!(transfer_requests(&"s".to_string(), &"a".to_string(), &"f".to_string(), &[]).unwrap().len(), 1);
}

#[test]
fn registered_item_prefers_memory() {
    let mut store = RawStore::new();
    store.regist_raw("f".into(), vec![5]);
    assert!(matches!(store.get_regist_item(&"f".to_string(), Some("/x".into())), Some(ReadableItem::Raw(v)) if v == vec![5]));
    assert!(matches!(store.get_regist_item(&"g".to_string(), Some("/x".into())), Some(ReadableItem::FilePath(p)) if p == "/x"));
    assert!(store.get_regist_item(&"g".to_string(), None).is_none());
}

struct Unready;

impl localex::file::FileReaderClient for Unready {
    fn calls(&self) -> localex::file::ReaderLog {
        unreachable!("the call log exists in proofs only")
    }

    fn done(&mut self, _session: &str, _app_id: &str, _file_id: &str) -> Result<(), String> {
        Err("not open".to_string())
    }

    fn read(&mut self, _session: &str, _app_id: &str, _file_id: &str, _chunk: localex::file::FileChunk) -> Result<(), String> {
        Ok(())
    }

    fn ready(&mut self, _session: &str, _app_id: &str, _file_id: &str, _size: usize, _chunk_size: usize) -> Result<(), String> {
        Err("no space".to_string())
    }
}

#[test]
fn receiver_passes_reader_errors_on() {
    let mut r = Unready;
    assert_eq!(
        handle_file_reciver(&mut r, offer_request("s".into(), "a".into(), "f".into(), 7)).err(),
        Some("no space".to_string())
    );
    assert_eq!(handle_file_reciver(&mut r, done_request("s".into(), "a".into(), "f".into())).err(), Some("not open".to_string()));
}
