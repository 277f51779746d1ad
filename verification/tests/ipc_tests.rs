use localex::ipc::{
    encode_frame, frames_fit, ClientRegistry, IPCEventRequest, IPCEventResponse, ReadChunkError, StreamReader,
    WriteOutcome, WriteProgress, WriteStep, MAX_WRITE_ATTEMPTS,
};

#[test]
fn frame_is_le_length_then_payload() {
    assert_eq!(encode_frame(b"abc"), vec![3, 0, 0, 0, b'a', b'b', b'c']);
    assert_eq!(encode_frame(&[]), vec![0, 0, 0, 0]);
    let big = vec![7u8; 0x0102];
    let f = encode_frame(&big);
    assert_eq!(&f[..4], &[0x02, 0x01, 0, 0]);
    assert_eq!(f.len(), 4 + 0x0102);
}

#[test]
fn frames_read_back_as_written() {
    let msgs: Vec<Vec<u8>> = vec![b"hello".to_vec(), vec![], vec![1, 2, 3, 4, 5, 6]];
    let mut packet = Vec::new();
    for m in &msgs {
        packet.extend(encode_frame(m));
    }
    assert!(frames_fit(&packet));
    let mut reader = StreamReader::new();
    let out = reader.read_chunk(&packet).unwrap();
    assert_eq!(out, msgs);
    let again = reader.read_chunk(&encode_frame(b"next")).unwrap();
    assert_eq!(again, vec![b"next".to_vec()]);
}

#[test]
fn short_packet_is_refused() {
    let mut reader = StreamReader::new();
    assert_eq!(reader.read_chunk(&[1, 0]), Err(ReadChunkError::ShortPacket));
    assert_eq!(reader.read_chunk(&[]), Err(ReadChunkError::ShortPacket));
}

#[test]
fn frames_fit_detects_cut_frames() {
    let mut packet = encode_frame(b"abcdef");
    packet.pop();
    assert!(!frames_fit(&packet));
    assert!(!frames_fit(&[5, 0, 0]));
    assert!(frames_fit(&[]));
}

#[test]
fn write_progress_completes() {
    let mut p = WriteProgress::new(10);
    assert!(p.pending());
    assert_eq!(p.on_outcome(WriteOutcome::Written(4)), WriteStep::Continue);
    assert_eq!(p.on_outcome(WriteOutcome::WouldBlock), WriteStep::RetryAfterSleep);
    assert_eq!(p.on_outcome(WriteOutcome::Written(6)), WriteStep::Done);
    assert!(!p.pending());
    assert_eq!(p.attempts, 0);
}

#[test]
fn write_progress_gives_up_after_blocking() {
    let mut p = WriteProgress::new(3);
    for _ in 1..MAX_WRITE_ATTEMPTS {
        assert_eq!(p.on_outcome(WriteOutcome::WouldBlock), WriteStep::RetryAfterSleep);
    }
    assert_eq!(p.on_outcome(WriteOutcome::WouldBlock), WriteStep::MaxRetryReached);
}

#[test]
fn write_progress_fails_on_error() {
    let mut p = WriteProgress::new(3);
    assert_eq!(p.on_outcome(WriteOutcome::Failed), WriteStep::Fail);
    assert_eq!(p.sent, 0);
}

#[test]
fn client_registry_tracks_clients() {
    let mut reg: ClientRegistry<u32> = ClientRegistry::new();
    assert!(reg.register("a".to_string(), 1));
    assert!(reg.register("b".to_string(), 2));
    assert!(!reg.register("a".to_string(), 3));
    assert_eq!(reg.stream_of(&"a".to_string()), Some(&3));
    reg.remove_clients(&vec!["b".to_string(), "zz".to_string()]);
    assert_eq!(reg.stream_of(&"b".to_string()), None);
    assert_eq!(reg.stream_of(&"a".to_string()), Some(&3));
    reg.release();
    assert_eq!(reg.stream_of(&"a".to_string()), None);
}

#[test]
fn ipc_envelopes() {
    let r = IPCEventResponse::from(42u8);
    assert_eq!(r.event, 42);
    let q = IPCEventRequest { event: 7u8, client_id: "c".to_string() };
    assert_eq!(q.client_id, "c");
}
