//! File transfer between peers: the messages, chunking and compression, and the bookkeeping
//! of files being received.
use vstd::prelude::*;
use crate::assoc::AssocMap;
use crate::bytes::copy_bytes;
use futures::executor::block_on;
use tokio::io::AsyncWriteExt;

verus! {

/// Size of the chunks a file is sent in.
pub const CHUNK_SIZE: usize = 1024 * 1024;

/// How many compressed chunks may wait to be sent.
pub const MAX_CONCURRENT_CONNECTIONS: usize = 5;

/// What a sender asks of the receiver of a file.
pub enum FileRequestPayload {
    Done,
    Chunk { data: Vec<u8>, offset: usize },
    Ready { size: usize, chunks: usize, chunk_size: usize },
}

/// A `FileRequestPayload` taken by plain values.
pub enum FileRequestPayloadView {
    Done,
    Chunk { data: Seq<u8>, offset: usize },
    Ready { size: usize, chunks: usize, chunk_size: usize },
}

impl View for FileRequestPayload {
    type V = FileRequestPayloadView;

    open spec fn view(&self) -> FileRequestPayloadView {
        match self {
            FileRequestPayload::Done => FileRequestPayloadView::Done,
            FileRequestPayload::Chunk { data, offset } => FileRequestPayloadView::Chunk { data: data@, offset: *offset },
            FileRequestPayload::Ready { size, chunks, chunk_size } => FileRequestPayloadView::Ready {
                size: *size,
                chunks: *chunks,
                chunk_size: *chunk_size,
            },
        }
    }
}

/// A request of the file protocol.
pub struct LocalExFileRequest {
    pub session: String,
    pub app_id: String,
    pub file_id: String,
    pub payload: FileRequestPayload,
}

/// A `LocalExFileRequest` taken by plain values.
pub struct LocalExFileRequestView {
    pub session: Seq<char>,
    pub app_id: Seq<char>,
    pub file_id: Seq<char>,
    pub payload: FileRequestPayloadView,
}

impl View for LocalExFileRequest {
    type V = LocalExFileRequestView;

    open spec fn view(&self) -> LocalExFileRequestView {
        LocalExFileRequestView {
            session: self.session@,
            app_id: self.app_id@,
            file_id: self.file_id@,
            payload: self.payload@,
        }
    }
}

/// Whether a chunk was written.
#[derive(Clone, Copy, PartialEq, Eq, Structural, Debug)]
pub enum ChunkResult {
    Success,
    Fail,
}

/// What a receiver answers.
#[derive(Clone, Copy, PartialEq, Eq, Structural, Debug)]
pub enum FileResponsePayload {
    Ready,
    RequestChunk { offset: usize, end: usize },
    RequestFile,
    Checked { result: ChunkResult, offset: usize },
}

/// A response of the file protocol.
pub struct LocalExFileResponse {
    pub session: String,
    pub app_id: String,
    pub file_id: String,
    pub payload: FileResponsePayload,
}

/// A `LocalExFileResponse` taken by plain values.
pub struct LocalExFileResponseView {
    pub session: Seq<char>,
    pub app_id: Seq<char>,
    pub file_id: Seq<char>,
    pub payload: FileResponsePayload,
}

impl View for LocalExFileResponse {
    type V = LocalExFileResponseView;

    open spec fn view(&self) -> LocalExFileResponseView {
        LocalExFileResponseView {
            session: self.session@,
            app_id: self.app_id@,
            file_id: self.file_id@,
            payload: self.payload,
        }
    }
}

/// A received chunk, decompressed, with its offset in the file.
pub struct FileChunk {
    pub chunk: Vec<u8>,
    pub offset: usize,
}

/// What a registered file is read from.
pub enum ReadableItem {
    FilePath(String),
    Raw(Vec<u8>),
}

/// What zstd compression (async-compression's `ZstdEncoder` at its default level) makes of
/// the bytes; `None` where the encoder reports an error.
pub uninterp spec fn zstd_compress(data: Seq<u8>) -> Option<Seq<u8>>;

/// What zstd decompression (async-compression's `ZstdDecoder`) makes of the bytes; `None`
/// where the decoder reports an error.
pub uninterp spec fn zstd_decompress(data: Seq<u8>) -> Option<Seq<u8>>;

/// Compresses with async-compression's tokio `ZstdEncoder` writing into a `Vec`, driven to
/// completion on the calling thread. Claimed: the result is what the name states, and the
/// decoder gives the input back from it (zstd is lossless).
#[verifier::external_body]
fn zstd_encode(chunk: &[u8]) -> (r: Option<Vec<u8>>)
    ensures
        match r {
            Some(v) => zstd_compress(chunk@) == Some(v@),
            None => zstd_compress(chunk@) is None,
        },
        r matches Some(v) ==> zstd_decompress(v@) == Some(chunk@),
{
    let mut encoder = async_compression::tokio::write::ZstdEncoder::new(Vec::new());
    block_on(encoder.write_all(chunk)).ok()?;
    block_on(encoder.shutdown()).ok()?;
    Some(encoder.into_inner())
}

/// Decompresses with async-compression's tokio `ZstdDecoder` writing into a `Vec`, driven
/// to completion on the calling thread. Claimed: the result is what the name states.
#[verifier::external_body]
fn zstd_decode(chunk: &[u8]) -> (r: Option<Vec<u8>>)
    ensures
        match r {
            Some(v) => zstd_decompress(chunk@) == Some(v@),
            None => zstd_decompress(chunk@) is None,
        },
{
    let mut decoder = async_compression::tokio::write::ZstdDecoder::new(Vec::new());
    block_on(decoder.write_all(chunk)).ok()?;
    block_on(decoder.shutdown()).ok()?;
    Some(decoder.into_inner())
}

/// Compresses a chunk for sending.
pub fn compress_chunk(chunk: &[u8]) -> (r: Option<Vec<u8>>)
    ensures
        match r {
            Some(v) => zstd_compress(chunk@) == Some(v@),
            None => zstd_compress(chunk@) is None,
        },
        r matches Some(v) ==> zstd_decompress(v@) == Some(chunk@),
{
    zstd_encode(chunk)
}

/// Decompresses a received chunk.
pub fn decompress_chunk(chunk: &[u8]) -> (r: Option<Vec<u8>>)
    ensures
        match r {
            Some(v) => zstd_decompress(chunk@) == Some(v@),
            None => zstd_decompress(chunk@) is None,
        },
{
    zstd_decode(chunk)
}

/// The number of chunks `len` bytes are sent in.
pub open spec fn chunk_count(len: nat) -> nat {
    if len % (CHUNK_SIZE as nat) == 0 {
        len / (CHUNK_SIZE as nat)
    } else {
        len / (CHUNK_SIZE as nat) + 1
    }
}

/// The `i`-th chunk of the data.
pub open spec fn chunk_of(data: Seq<u8>, i: int) -> Seq<u8> {
    let start = i * CHUNK_SIZE;
    let end = if (i + 1) * CHUNK_SIZE <= data.len() {
        (i + 1) * CHUNK_SIZE
    } else {
        data.len() as int
    };
    data.subrange(start, end)
}

/// Splits in-memory data into chunks of `CHUNK_SIZE` bytes (the last may be shorter) and
/// compresses each, with its index; `None` if a chunk fails to compress.
pub fn chunk_and_compress_raw(data: &[u8]) -> (r: Option<Vec<(usize, Vec<u8>)>>)
    ensures
        match r {
            Some(v) => {
                &&& v@.len() == chunk_count(data@.len())
                &&& forall|i: int| 0 <= i < v@.len() ==> #[trigger] v@[i].0 == i
                    && zstd_compress(chunk_of(data@, i)) == Some(v@[i].1@)
                    && zstd_decompress(v@[i].1@) == Some(chunk_of(data@, i))
            },
            None => exists|i: int| 0 <= i < chunk_count(data@.len()) && #[trigger] zstd_compress(chunk_of(data@, i)) is None,
        },
{
    let mut out: Vec<(usize, Vec<u8>)> = Vec::new();
    let mut start: usize = 0;
    let mut i: usize = 0;
    let len = data.len();
    while start < len
        invariant
            len == data@.len(),
            start <= len,
            start < len ==> start == i * CHUNK_SIZE,
            start == len ==> i == chunk_count(len as nat),
            out@.len() == i,
            forall|j: int| 0 <= j < i ==> #[trigger] out@[j].0 == j && zstd_compress(chunk_of(data@, j)) == Some(out@[j].1@)
                && zstd_decompress(out@[j].1@) == Some(chunk_of(data@, j)),
        decreases len - start,
    {
        let end = if len - start >= CHUNK_SIZE { start + CHUNK_SIZE } else { len };
        let chunk = copy_bytes(&data[start..end]);
        proof {
            lemma_chunk_step(len as int, start as int, i as int);
            assert(chunk@ =~= chunk_of(data@, i as int));
        }
        match compress_chunk(chunk.as_slice()) {
            Some(c) => {
                out.push((i, c));
            },
            None => {
                return None;
            },
        }
        i = i + 1;
        start = end;
    }
    Some(out)
}

proof fn lemma_chunk_step(len: int, start: int, i: int)
    requires
        0 <= start < len,
        start == i * CHUNK_SIZE,
        0 <= i,
    ensures
        (i + 1) * CHUNK_SIZE == start + CHUNK_SIZE,
        len - start <= CHUNK_SIZE ==> i + 1 == chunk_count(len as nat),
        len - start > CHUNK_SIZE ==> i + 1 < chunk_count(len as nat),
        len - start == CHUNK_SIZE ==> i + 1 == chunk_count(len as nat),
        i < chunk_count(len as nat),
{
    let c = CHUNK_SIZE as int;
    assert((i + 1) * c == i * c + c) by (nonlinear_arith);
    if len - start <= c {
        if len - start == c {
            assert(len == (i + 1) * c);
            assert(len % c == 0 && len / c == i + 1) by (nonlinear_arith)
                requires
                    len == (i + 1) * c,
                    c == 1048576,
                    i >= 0;
        } else {
            assert(len % c != 0 && len / c == i) by (nonlinear_arith)
                requires
                    len == i * c + (len - start),
                    0 < len - start < c,
                    c == 1048576,
                    i >= 0;
        }
    } else {
        assert(len / c >= i + 1) by (nonlinear_arith)
            requires
                len > (i + 1) * c,
                (i + 1) * c == i * c + c,
                c == 1048576,
                i >= 0;
    }
}

/// Offset in the file of the chunk with the given index.
pub fn chunk_offset(index: usize) -> (r: usize)
    requires
        index * CHUNK_SIZE <= usize::MAX,
    ensures
        r == index * CHUNK_SIZE,
{
    index * CHUNK_SIZE
}

/// The request carrying a compressed chunk.
pub fn chunk_request(session: String, app_id: String, file_id: String, index: usize, data: Vec<u8>) -> (r: LocalExFileRequest)
    requires
        index * CHUNK_SIZE <= usize::MAX,
    ensures
        r@ == (LocalExFileRequestView {
            session: session@,
            app_id: app_id@,
            file_id: file_id@,
            payload: FileRequestPayloadView::Chunk { data: data@, offset: (index * CHUNK_SIZE) as usize },
        }),
{
    let offset = chunk_offset(index);
    LocalExFileRequest { session, app_id, file_id, payload: FileRequestPayload::Chunk { data, offset } }
}

/// The request that closes a transfer.
pub fn done_request(session: String, app_id: String, file_id: String) -> (r: LocalExFileRequest)
    ensures
        r@ == (LocalExFileRequestView {
            session: session@,
            app_id: app_id@,
            file_id: file_id@,
            payload: FileRequestPayloadView::Done,
        }),
{
    LocalExFileRequest { session, app_id, file_id, payload: FileRequestPayload::Done }
}

/// The request that announces a file of `size` bytes.
pub fn offer_request(session: String, app_id: String, file_id: String, size: usize) -> (r: LocalExFileRequest)
    ensures
        r@ == (LocalExFileRequestView {
            session: session@,
            app_id: app_id@,
            file_id: file_id@,
            payload: FileRequestPayloadView::Ready {
                size,
                chunks: chunk_count(size as nat) as usize,
                chunk_size: CHUNK_SIZE,
            },
        }),
{
    let chunks = if size % CHUNK_SIZE == 0 { size / CHUNK_SIZE } else { size / CHUNK_SIZE + 1 };
    LocalExFileRequest {
        session,
        app_id,
        file_id,
        payload: FileRequestPayload::Ready { size, chunks, chunk_size: CHUNK_SIZE },
    }
}

/// A lower-case hexadecimal digit.
pub open spec fn is_lower_hex(c: char) -> bool {
    ('0' <= c && c <= '9') || ('a' <= c && c <= 'f')
}

/// The text form of a random (version 4, RFC 4122 variant) UUID: 36 characters, hyphens at
/// 8, 13, 18 and 23, lower-case hexadecimal digits elsewhere, the version digit `4` at 14
/// and one of `8`, `9`, `a`, `b` at 19.
pub open spec fn is_v4_uuid_text(s: Seq<char>) -> bool {
    &&& s.len() == 36
    &&& forall|i: int|
        0 <= i < 36 ==> if i == 8 || i == 13 || i == 18 || i == 23 {
            #[trigger] s[i] == '-'
        } else {
            is_lower_hex(s[i])
        }
    &&& s[14] == '4'
    &&& (s[19] == '8' || s[19] == '9' || s[19] == 'a' || s[19] == 'b')
}

/// A new session id: `uuid::Uuid::new_v4().to_string()`. The uuid crate sets the version
/// and variant bits of random bits and writes the hyphenated lower-case form, so the text
/// has the shape `is_v4_uuid_text` states. Which id comes out is chance, and nothing more
/// is claimed of it.
#[verifier::external_body]
pub(crate) fn new_session_id() -> (r: String)
    ensures
        is_v4_uuid_text(r@),
{
    uuid::Uuid::new_v4().to_string()
}

/// Offsets of the chunks fit: chunk `i` of data of `len` bytes starts at `i * CHUNK_SIZE`,
/// within the data.
proof fn lemma_chunk_offset_fits(len: nat, i: int)
    requires
        0 <= i < chunk_count(len),
    ensures
        i * CHUNK_SIZE < len,
{
    let c = CHUNK_SIZE as int;
    let l = len as int;
    assert(i * c < l) by (nonlinear_arith)
        requires
            c == 1048576,
            0 <= i,
            i < (if l % c == 0 { l / c } else { l / c + 1 }),
            l >= 0;
}

/// The payload carries chunk `i` of the data, compressed, at the chunk's offset.
pub open spec fn sends_chunk(p: FileRequestPayloadView, data: Seq<u8>, i: int) -> bool {
    &&& p matches FileRequestPayloadView::Chunk { data: c, offset }
    &&& offset == i * CHUNK_SIZE
    &&& zstd_compress(chunk_of(data, i)) == Some(c)
    &&& zstd_decompress(c) == Some(chunk_of(data, i))
}

/// The requests that send in-memory data of an application's file under a session: each
/// compressed chunk at its offset, in order, then the end of the transfer; `None` if a chunk
/// fails to compress.
pub fn transfer_requests(session: &String, app_id: &String, file_id: &String, data: &[u8]) -> (r: Option<
    Vec<LocalExFileRequest>,
>)
    ensures
        match r {
            Some(v) => {
                &&& v@.len() == chunk_count(data@.len()) + 1
                &&& forall|i: int| 0 <= i < v@.len() ==> (#[trigger] v@[i]).session@ == session@
                    && v@[i].app_id@ == app_id@ && v@[i].file_id@ == file_id@
                &&& forall|i: int| 0 <= i < v@.len() - 1 ==> sends_chunk((#[trigger] v@[i]).payload@, data@, i)
                &&& v@[v@.len() - 1].payload@ == FileRequestPayloadView::Done
            },
            None => exists|i: int| 0 <= i < chunk_count(data@.len()) && #[trigger] zstd_compress(chunk_of(data@, i)) is None,
        },
{
    let compressed_chunks = chunk_and_compress_raw(data);
    let chunks = match compressed_chunks {
        Some(c) => c,
        None => {
            return None;
        },
    };
    assert(forall|j: int| 0 <= j < chunks@.len() ==> #[trigger] chunks@[j].0 == j);
    let n = chunks.len();
    let len = data.len();
    assert(len == data@.len());
    let mut out: Vec<LocalExFileRequest> = Vec::new();
    let mut i: usize = 0;
    while i < n
        invariant
            n == chunks@.len(),
            n == chunk_count(data@.len()),
            0 <= i <= n,
            out@.len() == i,
            data@.len() <= usize::MAX,
            forall|j: int| 0 <= j < chunks@.len() ==> #[trigger] chunks@[j].0 == j && zstd_compress(chunk_of(data@, j))
                == Some(chunks@[j].1@) && zstd_decompress(chunks@[j].1@) == Some(chunk_of(data@, j)),
            forall|j: int| 0 <= j < i ==> (#[trigger] out@[j]).session@ == session@ && out@[j].app_id@ == app_id@
                && out@[j].file_id@ == file_id@,
            forall|j: int| 0 <= j < i ==> sends_chunk((#[trigger] out@[j]).payload@, data@, j),
        decreases n - i,
    {
        proof {
            lemma_chunk_offset_fits(data@.len(), i as int);
        }
        let index = chunks[i].0;
        let compressed = copy_bytes(chunks[i].1.as_slice());
        assert(index == i);
        let request = chunk_request(session.clone(), app_id.clone(), file_id.clone(), index, compressed);
        out.push(request);
        proof {
            assert(sends_chunk(out@[i as int].payload@, data@, i as int));
        }
        i = i + 1;
    }
    out.push(done_request(session.clone(), app_id.clone(), file_id.clone()));
    Some(out)
}

/// What the receiver of a request does with it.
pub enum FileReceiverStep {
    /// The transfer is over: hand the file on.
    Done { session: String, app_id: String, file_id: String },
    /// Write a decompressed chunk.
    Write { session: String, app_id: String, file_id: String, chunk: FileChunk },
    /// A file is announced: prepare to receive it.
    Ready { session: String, app_id: String, file_id: String, size: usize, chunk_size: usize },
}

/// Decides what to do with a received request. A chunk whose data does not decompress is
/// refused (`None`).
pub fn receive_file_request(request: LocalExFileRequest) -> (r: Option<FileReceiverStep>)
    ensures
        match request.payload@ {
            FileRequestPayloadView::Done => r matches Some(FileReceiverStep::Done { session, app_id, file_id })
                && session@ == request.session@ && app_id@ == request.app_id@ && file_id@ == request.file_id@,
            FileRequestPayloadView::Chunk { data, offset } => match zstd_decompress(data) {
                Some(plain) => r matches Some(FileReceiverStep::Write { session, app_id, file_id, chunk })
                    && session@ == request.session@ && app_id@ == request.app_id@ && file_id@ == request.file_id@
                    && chunk.chunk@ == plain && chunk.offset == offset,
                None => r is None,
            },
            FileRequestPayloadView::Ready { size, chunks, chunk_size } => r matches Some(
                FileReceiverStep::Ready { session, app_id, file_id, size: s, chunk_size: c },
            ) && session@ == request.session@ && app_id@ == request.app_id@ && file_id@ == request.file_id@
                && s == size && c == chunk_size,
        },
{
    let LocalExFileRequest { session, app_id, file_id, payload } = request;
    match payload {
        FileRequestPayload::Done => Some(FileReceiverStep::Done { session, app_id, file_id }),
        FileRequestPayload::Chunk { data, offset } => match decompress_chunk(data.as_slice()) {
            Some(chunk) => Some(FileReceiverStep::Write { session, app_id, file_id, chunk: FileChunk { chunk, offset } }),
            None => None,
        },
        FileRequestPayload::Ready { size, chunks: _, chunk_size } => Some(
            FileReceiverStep::Ready { session, app_id, file_id, size, chunk_size },
        ),
    }
}

/// A call made on a file reader, with its arguments taken by their views.
pub enum ReaderCall {
    Done { session: Seq<char>, app_id: Seq<char>, file_id: Seq<char> },
    Read { session: Seq<char>, app_id: Seq<char>, file_id: Seq<char>, chunk: Seq<u8>, offset: usize },
    Ready { session: Seq<char>, app_id: Seq<char>, file_id: Seq<char>, size: usize, chunk_size: usize },
}

/// The log of the calls made on a file reader, each with how it went.
pub type ReaderLog = Seq<(ReaderCall, Option<Seq<char>>)>;

/// How a reader call went: `None` when it succeeded, else its error message.
pub open spec fn call_outcome(r: Result<(), String>) -> Option<Seq<char>> {
    match r {
        Ok(_) => None,
        Err(e) => Some(e@),
    }
}

/// Where a receiving daemon hands the files it is sent: a file is announced (`ready`), its
/// decompressed chunks arrive (`read`), and it is complete (`done`). Implemented by the
/// daemon around the library; an error is its message. `calls` is the log of the calls
/// made so far, each with how it went; each method adds its own call to it.
pub trait FileReaderClient {
    spec fn calls(&self) -> ReaderLog;

    fn done(&mut self, session: &str, app_id: &str, file_id: &str) -> (r: Result<(), String>)
        ensures
            final(self).calls() == old(self).calls().push(
                (ReaderCall::Done { session: session@, app_id: app_id@, file_id: file_id@ }, call_outcome(r)),
            ),
    ;

    fn read(&mut self, session: &str, app_id: &str, file_id: &str, chunk: FileChunk) -> (r: Result<(), String>)
        ensures
            final(self).calls() == old(self).calls().push(
                (
                    ReaderCall::Read {
                        session: session@,
                        app_id: app_id@,
                        file_id: file_id@,
                        chunk: chunk.chunk@,
                        offset: chunk.offset,
                    },
                    call_outcome(r),
                ),
            ),
    ;

    fn ready(&mut self, session: &str, app_id: &str, file_id: &str, size: usize, chunk_size: usize) -> (r: Result<
        (),
        String,
    >)
        ensures
            final(self).calls() == old(self).calls().push(
                (
                    ReaderCall::Ready { session: session@, app_id: app_id@, file_id: file_id@, size, chunk_size },
                    call_outcome(r),
                ),
            ),
    ;
}

/// The response a receiver owes for a request, given the request's key.
pub open spec fn owed_response(
    r: LocalExFileResponseView,
    session: Seq<char>,
    app_id: Seq<char>,
    file_id: Seq<char>,
    payload: FileResponsePayload,
) -> bool {
    r == LocalExFileResponseView { session, app_id, file_id, payload }
}

/// The log gained exactly one call, this one.
pub open spec fn one_call_added(before: ReaderLog, after: ReaderLog, call: ReaderCall) -> bool {
    &&& after.len() == before.len() + 1
    &&& after.drop_last() == before
    &&& after.last().0 == call
}

/// The error of a failed reader call is passed on as it came.
pub open spec fn passes_error<T>(r: Result<T, String>, outcome: Option<Seq<char>>) -> bool {
    outcome matches Some(m) ==> (r matches Err(e) && e@ == m)
}

/// Receives a request of the file protocol and hands it to the reader. An announced file
/// is handed on with its size and chunk size, and answered `Ready` once the reader is
/// ready. A chunk is decompressed (refused if it does not decompress, the reader not
/// called) and handed on at its offset, and answered `Checked` at that offset, `Success`
/// exactly when the write succeeded. The end of a transfer is handed on with no answer.
/// An error of `ready` or `done` is passed on.
pub fn handle_file_reciver<R: FileReaderClient>(reader: &mut R, request: LocalExFileRequest) -> (r: Result<
    Option<LocalExFileResponse>,
    String,
>)
    ensures
        match request.payload@ {
            FileRequestPayloadView::Done => {
                &&& one_call_added(
                    old(reader).calls(),
                    final(reader).calls(),
                    ReaderCall::Done { session: request.session@, app_id: request.app_id@, file_id: request.file_id@ },
                )
                &&& final(reader).calls().last().1 is None ==> r == Ok::<Option<LocalExFileResponse>, String>(None)
                &&& passes_error(r, final(reader).calls().last().1)
            },
            FileRequestPayloadView::Chunk { data, offset } => match zstd_decompress(data) {
                None => r is Err && final(reader).calls() == old(reader).calls(),
                Some(plain) => {
                    &&& one_call_added(
                        old(reader).calls(),
                        final(reader).calls(),
                        ReaderCall::Read {
                            session: request.session@,
                            app_id: request.app_id@,
                            file_id: request.file_id@,
                            chunk: plain,
                            offset,
                        },
                    )
                    &&& r matches Ok(Some(resp)) && owed_response(
                        resp@,
                        request.session@,
                        request.app_id@,
                        request.file_id@,
                        FileResponsePayload::Checked {
                            result: if final(reader).calls().last().1 is None {
                                ChunkResult::Success
                            } else {
                                ChunkResult::Fail
                            },
                            offset,
                        },
                    )
                },
            },
            FileRequestPayloadView::Ready { size, chunks: _, chunk_size } => {
                &&& one_call_added(
                    old(reader).calls(),
                    final(reader).calls(),
                    ReaderCall::Ready {
                        session: request.session@,
                        app_id: request.app_id@,
                        file_id: request.file_id@,
                        size,
                        chunk_size,
                    },
                )
                &&& final(reader).calls().last().1 is None ==> (r matches Ok(Some(x)) && owed_response(
                    x@,
                    request.session@,
                    request.app_id@,
                    request.file_id@,
                    FileResponsePayload::Ready,
                ))
                &&& passes_error(r, final(reader).calls().last().1)
            },
        },
{
    let LocalExFileRequest { session, app_id, file_id, payload } = request;
    match payload {
        FileRequestPayload::Done => {
            let outcome = reader.done(session.as_str(), app_id.as_str(), file_id.as_str());
            proof {
                assert(reader.calls().drop_last() =~= old(reader).calls());
            }
            match outcome {
                Ok(()) => Ok(None),
                Err(e) => Err(e),
            }
        },
        FileRequestPayload::Chunk { data, offset } => {
            let chunk = match decompress_chunk(data.as_slice()) {
                Some(c) => c,
                None => {
                    return Err("chunk does not decompress".to_string());
                },
            };
            let outcome = reader.read(session.as_str(), app_id.as_str(), file_id.as_str(), FileChunk { chunk, offset });
            proof {
                assert(reader.calls().drop_last() =~= old(reader).calls());
            }
            let written = match outcome {
                Ok(()) => true,
                Err(_) => false,
            };
            Ok(Some(checked_response(session, app_id, file_id, written, offset)))
        },
        FileRequestPayload::Ready { size, chunks: _, chunk_size } => {
            let outcome = reader.ready(session.as_str(), app_id.as_str(), file_id.as_str(), size, chunk_size);
            proof {
                assert(reader.calls().drop_last() =~= old(reader).calls());
            }
            match outcome {
                Ok(()) => Ok(Some(ready_response(session, app_id, file_id))),
                Err(e) => Err(e),
            }
        },
    }
}

/// The answer to a written (or failed) chunk.
pub fn checked_response(session: String, app_id: String, file_id: String, written: bool, offset: usize) -> (r: LocalExFileResponse)
    ensures
        r@ == (LocalExFileResponseView {
            session: session@,
            app_id: app_id@,
            file_id: file_id@,
            payload: FileResponsePayload::Checked {
                result: if written { ChunkResult::Success } else { ChunkResult::Fail },
                offset,
            },
        }),
{
    let result = if written { ChunkResult::Success } else { ChunkResult::Fail };
    LocalExFileResponse { session, app_id, file_id, payload: FileResponsePayload::Checked { result, offset } }
}

/// The answer to an announced file.
pub fn ready_response(session: String, app_id: String, file_id: String) -> (r: LocalExFileResponse)
    ensures
        r@ == (LocalExFileResponseView {
            session: session@,
            app_id: app_id@,
            file_id: file_id@,
            payload: FileResponsePayload::Ready,
        }),
{
    LocalExFileResponse { session, app_id, file_id, payload: FileResponsePayload::Ready }
}

/// Whether a sender, given a response, sends the file: on `Ready` and `RequestFile`.
/// `RequestChunk` is not handled by the protocol and is left out.
pub fn should_send_file(payload: &FileResponsePayload) -> (r: bool)
    requires
        !(payload is RequestChunk),
    ensures
        r == (*payload == FileResponsePayload::Ready || *payload == FileResponsePayload::RequestFile),
{
    match payload {
        FileResponsePayload::Ready | FileResponsePayload::RequestFile => true,
        _ => false,
    }
}

/// Whether a chunk of `chunk_size` bytes at `offset` fits in a file of `size` bytes.
pub fn write_in_range(offset: usize, chunk_size: usize, size: usize) -> (r: bool)
    requires
        offset + chunk_size <= usize::MAX,
    ensures
        r == (offset <= size && offset + chunk_size <= size),
{
    let start = offset;
    let end = start + chunk_size;
    !(start > size || end > size)
}

/// In-memory items registered for sending, by file id.
pub struct RawStore {
    pub items: AssocMap<String, Vec<u8>>,
}

impl RawStore {
    pub closed spec fn view(&self) -> Map<Seq<char>, Seq<u8>> {
        self.items.view().map_values(|v: Vec<u8>| v@)
    }

    pub closed spec fn wf(&self) -> bool {
        self.items.wf()
    }

    pub fn new() -> (r: RawStore)
        ensures
            r.wf(),
            r.view() == Map::<Seq<char>, Seq<u8>>::empty(),
    {
        let r = RawStore { items: AssocMap::new() };
        assert(r.view() =~= Map::<Seq<char>, Seq<u8>>::empty());
        r
    }

    /// Registers in-memory data under an id, replacing what was there.
    pub fn regist_raw(&mut self, id: String, item: Vec<u8>)
        requires
            old(self).wf(),
        ensures
            final(self).wf(),
            final(self).view() == old(self).view().insert(id@, item@),
    {
        let ghost i = id@;
        let ghost v = item@;
        self.items.insert(id, item);
        proof {
            assert(self.view() =~= old(self).view().insert(i, v));
        }
    }

    /// Forgets the data of an id.
    pub fn unregist_raw(&mut self, id: &String)
        requires
            old(self).wf(),
        ensures
            final(self).wf(),
            final(self).view() == old(self).view().remove(id@),
    {
        self.items.remove(id);
        proof {
            assert(self.view() =~= old(self).view().remove(id@));
        }
    }

    /// The item registered for a file: the in-memory item of its id if there is one, else the
    /// path the file is stored under (as the registry of files gave it), if any.
    pub fn get_regist_item(&self, file_id: &String, stored_path: Option<String>) -> (r: Option<ReadableItem>)
        requires
            self.wf(),
        ensures
            self.view().contains_key(file_id@) ==> (r matches Some(ReadableItem::Raw(v)) && v@ == self.view()[file_id@]),
            !self.view().contains_key(file_id@) ==> match stored_path {
                Some(p) => r matches Some(ReadableItem::FilePath(q)) && q@ == p@,
                None => r is None,
            },
    {
        match self.get_raw_item(file_id) {
            Some(item) => Some(item),
            None => match stored_path {
                Some(p) => Some(ReadableItem::FilePath(p)),
                None => None,
            },
        }
    }

    /// The in-memory item of a file id, if registered.
    pub fn get_raw_item(&self, file_id: &String) -> (r: Option<ReadableItem>)
        requires
            self.wf(),
        ensures
            match r {
                Some(ReadableItem::Raw(v)) => self.view().contains_key(file_id@) && v@ == self.view()[file_id@],
                Some(ReadableItem::FilePath(_)) => false,
                None => !self.view().contains_key(file_id@),
            },
    {
        match self.items.get(file_id) {
            Some(v) => Some(ReadableItem::Raw(copy_bytes(v.as_slice()))),
            None => None,
        }
    }
}

/// The handlers of the files being received, by session and by (application id, file id).
pub struct FileHandleManager<H> {
    pub map: AssocMap<String, AssocMap<(String, String), H>>,
}

/// Key of a file within a session.
pub type FileIdView = (Seq<char>, Seq<char>);

impl<H> FileHandleManager<H> {
    /// Well-formed: all maps well-formed, no session without a file.
    pub closed spec fn wf(&self) -> bool {
        &&& self.map.wf()
        &&& forall|s: Seq<char>| #[trigger] self.map.view().contains_key(s) ==> self.map.view()[s].wf()
            && !self.map.view()[s].view().is_empty()
    }

    /// The handlers, by session and file.
    pub closed spec fn view(&self) -> Map<Seq<char>, Map<FileIdView, H>> {
        self.map.view().map_values(|m: AssocMap<(String, String), H>| m.view())
    }

    pub fn new() -> (r: FileHandleManager<H>)
        ensures
            r.wf(),
            r.view() == Map::<Seq<char>, Map<FileIdView, H>>::empty(),
    {
        let r = FileHandleManager { map: AssocMap::new() };
        assert(r.view() =~= Map::<Seq<char>, Map<FileIdView, H>>::empty());
        r
    }

    /// Adds the handler of a file of a session.
    pub fn add(&mut self, session: String, id: (String, String), handler: H)
        requires
            old(self).wf(),
        ensures
            final(self).wf(),
            final(self).view() == old(self).view().insert(
                session@,
                if old(self).view().contains_key(session@) {
                    old(self).view()[session@].insert((id.0@, id.1@), handler)
                } else {
                    Map::empty().insert((id.0@, id.1@), handler)
                },
            ),
    {
        let ghost s = session@;
        let ghost k = (id.0@, id.1@);
        let ghost old_view = self.view();
        match self.map.remove(&session) {
            None => {
                let mut ids: AssocMap<(String, String), H> = AssocMap::new();
                ids.insert(id, handler);
                assert(ids.view().contains_key(k));
                self.map.insert(session, ids);
                proof {
                    assert(self.map.view() == old(self).map.view().remove(s).insert(s, ids));
                    assert(self.view() =~= old_view.insert(s, Map::empty().insert(k, handler)));
                }
            },
            Some(mut ids) => {
                ids.insert(id, handler);
                assert(ids.view().contains_key(k));
                self.map.insert(session, ids);
                proof {
                    assert(self.view() =~= old_view.insert(s, old_view[s].insert(k, handler)));
                }
            },
        }
    }

    /// The handler of a file of a session.
    pub fn get(&self, session: &String, id: &(String, String)) -> (r: Option<&H>)
        requires
            self.wf(),
        ensures
            match r {
                Some(h) => self.view().contains_key(session@) && self.view()[session@].contains_key((id.0@, id.1@))
                    && *h == self.view()[session@][(id.0@, id.1@)],
                None => !(self.view().contains_key(session@) && self.view()[session@].contains_key((id.0@, id.1@))),
            },
    {
        match self.map.get(session) {
            Some(ids) => ids.get(id),
            None => None,
        }
    }

    /// Drops the handler of a file of a session, and the session once it has no file left.
    pub fn remove(&mut self, session: &String, id: &(String, String))
        requires
            old(self).wf(),
        ensures
            final(self).wf(),
            !old(self).view().contains_key(session@) ==> final(self).view() == old(self).view(),
            old(self).view().contains_key(session@) ==> {
                let rest = old(self).view()[session@].remove((id.0@, id.1@));
                final(self).view() == if rest.is_empty() {
                    old(self).view().remove(session@)
                } else {
                    old(self).view().insert(session@, rest)
                }
            },
    {
        let ghost s = session@;
        let ghost k = (id.0@, id.1@);
        let ghost old_view = self.view();
        if !self.map.contains_key(session) {
            return;
        }
        match self.map.remove(session) {
            Some(mut ids) => {
                ids.remove(id);
                if ids.is_empty() {
                    proof {
                        assert(self.view() =~= old_view.remove(s));
                    }
                } else {
                    self.map.insert(session.clone(), ids);
                    proof {
                        assert(self.view() =~= old_view.insert(s, old_view[s].remove(k)));
                    }
                }
            },
            None => {},
        }
    }
}

} // verus!
