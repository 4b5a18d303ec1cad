//! Receiving uploads: the target of an upload request, the name of an
//! uploaded file, and the state machine that writes a multipart stream to
//! files through a write buffer.
use crate::errors::{ResponseError, UploadError, BAD_REQUEST, INTERNAL_SERVER_ERROR, NOT_IMPLEMENTED};
use crate::routes::HttpMethod;
use crate::text::{
    find_from, free_of, lemma_find_from, lemma_split_first, lemma_split_free, lemma_split_shift,
    matches_at, split, split_exec, split_from, views, lemma_split_from_nonempty,
};
use vstd::prelude::*;
use vstd::string::*;

verus! {

/// The pieces joined with `sep` between them.
pub open spec fn join(parts: Seq<Seq<char>>, sep: Seq<char>) -> Seq<char>
    decreases parts.len(),
{
    if parts.len() == 0 {
        Seq::empty()
    } else if parts.len() == 1 {
        parts[0]
    } else {
        parts[0] + sep + join(parts.drop_first(), sep)
    }
}

pub proof fn lemma_join_push(parts: Seq<Seq<char>>, sep: Seq<char>, last: Seq<char>)
    requires
        parts.len() >= 1,
    ensures
        join(parts.push(last), sep) == join(parts, sep) + sep + last,
    decreases parts.len(),
{
    let whole = parts.push(last);
    assert(whole.len() >= 2);
    assert(whole[0] == parts[0]);
    assert(join(whole, sep) == whole[0] + sep + join(whole.drop_first(), sep));
    if parts.len() == 1 {
        assert(whole.drop_first() =~= seq![last]);
        assert(join(whole.drop_first(), sep) == last);
        assert(join(parts, sep) == parts[0]);
        assert(parts[0] + sep + last =~= join(parts, sep) + sep + last);
    } else {
        lemma_join_push(parts.drop_first(), sep, last);
        assert(whole.drop_first() =~= parts.drop_first().push(last));
        assert(join(parts, sep) == parts[0] + sep + join(parts.drop_first(), sep));
        assert(parts[0] + sep + (join(parts.drop_first(), sep) + sep + last) =~= parts[0] + sep
            + join(parts.drop_first(), sep) + sep + last);
    }
}

/// Joining the pieces of a split gives back the text that was split.
pub proof fn lemma_join_split_from(s: Seq<char>, pat: Seq<char>, start: int)
    requires
        pat.len() > 0,
        0 <= start <= s.len(),
    ensures
        join(crate::text::split_from(s, pat, start), pat) == s.subrange(start, s.len() as int),
    decreases s.len() - start,
{
    crate::text::lemma_find_from(s, pat, start);
    match crate::text::find_from(s, pat, start) {
        Some(i) => {
            let next = i + pat.len();
            lemma_join_split_from(s, pat, next);
            lemma_split_from_nonempty(s, pat, next);
            let rest = crate::text::split_from(s, pat, next);
            let whole = seq![s.subrange(start, i)] + rest;
            assert(whole.drop_first() =~= rest);
            assert(whole[0] == s.subrange(start, i));
            assert(s.subrange(start, s.len() as int) =~= s.subrange(start, i) + s.subrange(
                i,
                next,
            ) + s.subrange(next, s.len() as int));
        },
        None => {},
    }
}

/// The stem and extension of a file name: the name without its last
/// `.`-separated piece, and that piece.
pub open spec fn name_parts(name: Seq<char>) -> Option<(Seq<char>, Seq<char>)> {
    let parts = split(name, "."@);
    if parts.len() >= 2 {
        Some((join(parts.drop_last(), "."@), parts.last()))
    } else {
        None
    }
}

/// A file name is its stem, a dot and its extension.
pub proof fn lemma_name_parts_rebuild(name: Seq<char>)
    ensures
        name_parts(name) matches Some((stem, ext)) ==> stem + "."@ + ext == name,
{
    reveal_strlit(".");
    let parts = split(name, "."@);
    if parts.len() >= 2 {
        lemma_join_split_from(name, "."@, 0);
        lemma_join_push(parts.drop_last(), "."@, parts.last());
        assert(parts.drop_last().push(parts.last()) =~= parts);
        assert(name.subrange(0, name.len() as int) =~= name);
    }
}

/// The answer to a file name without both a stem and an extension.
pub open spec fn bad_file_name(e: ResponseError) -> bool {
    e.spec_status() == BAD_REQUEST && e.spec_body() == ResponseError::body_for(
        Some("File name error, we have't identified the stem and extension"@),
    )
}

/// Splits an uploaded file name into stem and extension at its last dot.
pub fn split_file_name(name: &str) -> (r: Result<(String, String), ResponseError>)
    ensures
        match r {
            Ok((stem, ext)) => name_parts(name@) == Some((stem@, ext@)),
            Err(e) => name_parts(name@) is None && bad_file_name(e),
        },
{
    proof {
        reveal_strlit(".");
    }
    let parts = split_exec(name, ".");
    let ghost ps = views(parts@);
    let n = parts.len();
    if n < 2 {
        return Err(
            ResponseError::new(
                BAD_REQUEST,
                Some("File name error, we have't identified the stem and extension"),
            ),
        );
    }
    let ext = parts[n - 1].clone();
    assert(ps[n - 1] == parts@[n - 1]@);
    let mut stem = parts[0].clone();
    assert(ps[0] == parts@[0]@);
    assert(ps.drop_last().take(1) =~= seq![ps[0]]);
    let mut i: usize = 1;
    while i < n - 1
        invariant
            1 <= i <= n - 1,
            n == parts@.len(),
            ps == views(parts@),
            stem@ == join(ps.drop_last().take(i as int), "."@),
        decreases n - 1 - i,
    {
        assert(ps[i as int] == parts@[i as int]@);
        proof {
            lemma_join_push(ps.drop_last().take(i as int), "."@, ps[i as int]);
            assert(ps.drop_last().take(i as int).push(ps[i as int]) =~= ps.drop_last().take(
                i + 1,
            ));
        }
        stem = stem.concat(".").concat(parts[i].as_str());
        i += 1;
    }
    assert(ps.drop_last().take(i as int) =~= ps.drop_last());
    Ok((stem, ext))
}

/// The `/`-separated segments after `/file/` in the path.
pub open spec fn target_segments(path: Seq<char>) -> Seq<Seq<char>> {
    split(split(path, "/file/"@)[1], "/"@)
}

/// The channel and program named by the last two segments of an upload
/// path; a path with one segment names no channel.
pub fn file_target(path: &str) -> (r: Result<(String, String), ResponseError>)
    requires
        split(path@, "/file/"@).len() > 1,
    ensures
        ({
            let segs = target_segments(path@);
            &&& segs.len() >= 2 ==> (r matches Ok((channel, program)) && channel@ == segs[segs.len()
                - 2] && program@ == segs[segs.len() - 1])
            &&& segs.len() < 2 ==> (r matches Err(e) && e.spec_status() == BAD_REQUEST
                && e.spec_body() == ResponseError::body_for(Some("Channel is not present"@)))
        }),
{
    proof {
        reveal_strlit("/file/");
        reveal_strlit("/");
    }
    let outer = split_exec(path, "/file/");
    let rest = outer[1].clone();
    assert(views(outer@)[1] == outer@[1]@);
    let segs = split_exec(rest.as_str(), "/");
    let ghost s = views(segs@);
    assert(s == target_segments(path@));
    let n = segs.len();
    if n < 2 {
        return Err(ResponseError::new(BAD_REQUEST, Some("Channel is not present")));
    }
    assert(s[n - 2] == segs@[n - 2]@ && s[n - 1] == segs@[n - 1]@);
    Ok((segs[n - 2].clone(), segs[n - 1].clone()))
}

/// The `Content-Type` header of a request, as far as the handler reads it.
#[derive(Debug, Clone)]
pub enum HeaderText {
    Missing,
    Unreadable,
    Text(String),
}

/// What `multer::parse_boundary` returns for a content type: the boundary
/// of a `multipart/form-data` type, `None` for an error.
pub uninterp spec fn multipart_boundary(content_type: Seq<char>) -> Option<Seq<char>>;

/// Calls `multer::parse_boundary`.  The result is a function of the content
/// type, named `multipart_boundary`.
#[verifier::external_body]
fn parse_boundary(content_type: &str) -> (r: Option<String>)
    ensures
        match r {
            Some(b) => multipart_boundary(content_type@) == Some(b@),
            None => multipart_boundary(content_type@) is None,
        },
{
    multer::parse_boundary(content_type).ok()
}

/// Where an upload goes and how its body is delimited.
#[derive(Debug, Clone)]
pub struct UploadTarget {
    pub channel: String,
    pub program_tv: String,
    pub boundary: String,
}

/// Completes an upload target with the boundary read from the content
/// type; a content type without one is a bad request.
pub fn with_boundary(channel: String, program_tv: String, boundary: Option<String>) -> (r: Result<
    UploadTarget,
    ResponseError,
>)
    ensures
        match boundary {
            Some(b) => r matches Ok(t) && t.channel == channel && t.program_tv == program_tv
                && t.boundary == b,
            None => r matches Err(e) && e.spec_status() == BAD_REQUEST && e.spec_body()
                == ResponseError::body_for(Some("Boundary is not present"@)),
        },
{
    match boundary {
        Some(b) => Ok(UploadTarget { channel, program_tv, boundary: b }),
        None => Err(ResponseError::new(BAD_REQUEST, Some("Boundary is not present"))),
    }
}

/// Checks an upload request before anything is read from its body: the
/// path must name channel and program, the method must be POST, and the
/// content type must be a readable multipart type with a boundary.
pub fn file_request(path: &str, method: HttpMethod, content_type: HeaderText) -> (r: Result<
    UploadTarget,
    ResponseError,
>)
    requires
        split(path@, "/file/"@).len() > 1,
    ensures
        ({
            let segs = target_segments(path@);
            &&& segs.len() < 2 ==> (r matches Err(e) && e.spec_status() == BAD_REQUEST
                && e.spec_body() == ResponseError::body_for(Some("Channel is not present"@)))
            &&& (segs.len() >= 2 && method != HttpMethod::Post) ==> (r matches Err(e)
                && e.spec_status() == NOT_IMPLEMENTED && e.spec_body() == ResponseError::body_for(
                Some("Method not implemented"@),
            ))
            &&& (segs.len() >= 2 && method == HttpMethod::Post && content_type is Missing) ==> (r matches Err(e)
                && e.spec_status() == BAD_REQUEST && e.spec_body() == ResponseError::body_for(
                Some("Header content-type is not present in the request"@),
            ))
            &&& (segs.len() >= 2 && method == HttpMethod::Post && content_type is Unreadable) ==> (r matches Err(e)
                && e.spec_status() == INTERNAL_SERVER_ERROR && e.spec_body() == ResponseError::body_for(
                Some("Get content-type value failed"@),
            ))
            &&& (segs.len() >= 2 && method == HttpMethod::Post) ==> (content_type matches HeaderText::Text(ct)
                ==> match multipart_boundary(ct@) {
                Some(b) => r matches Ok(t) && t.channel@ == segs[segs.len() - 2] && t.program_tv@
                    == segs[segs.len() - 1] && t.boundary@ == b,
                None => r matches Err(e) && e.spec_status() == BAD_REQUEST && e.spec_body()
                    == ResponseError::body_for(Some("Boundary is not present"@)),
            })
        }),
{
    let (channel, program_tv) = match file_target(path) {
        Ok(t) => t,
        Err(e) => {
            return Err(e);
        },
    };
    if method != HttpMethod::Post {
        return Err(ResponseError::new(NOT_IMPLEMENTED, Some("Method not implemented")));
    }
    match content_type {
        HeaderText::Missing => Err(
            ResponseError::new(
                BAD_REQUEST,
                Some("Header content-type is not present in the request"),
            ),
        ),
        HeaderText::Unreadable => Err(
            ResponseError::new(INTERNAL_SERVER_ERROR, Some("Get content-type value failed")),
        ),
        HeaderText::Text(ct) => {
            let boundary = parse_boundary(ct.as_str());
            with_boundary(channel, program_tv, boundary)
        },
    }
}

/// The size of the write buffer of an upload, in bytes.
pub const DEFAULT_BUFFER: usize = 8192;

/// Bytes on their way to a file: writes are gathered until they would fill
/// the buffer, and a write as large as the buffer goes straight through.
#[derive(Debug)]
pub struct WriteBuffer {
    bytes: Vec<u8>,
    capacity: usize,
}

impl WriteBuffer {
    /// The buffer never holds a whole capacity of bytes.
    pub open spec fn wf(&self) -> bool {
        self.spec_pending().len() < self.spec_capacity()
    }

    pub closed spec fn spec_pending(&self) -> Seq<u8> {
        self.bytes@
    }

    pub closed spec fn spec_capacity(&self) -> usize {
        self.capacity
    }

    /// An empty buffer of the default size.
    pub fn new() -> (b: WriteBuffer)
        ensures
            b.wf(),
            b.spec_pending() == Seq::<u8>::empty(),
            b.spec_capacity() == DEFAULT_BUFFER,
    {
        WriteBuffer { bytes: Vec::new(), capacity: DEFAULT_BUFFER }
    }

    /// The bytes not yet written out.
    pub fn pending(&self) -> (p: &[u8])
        ensures
            p@ == self.spec_pending(),
    {
        self.bytes.as_slice()
    }

    pub fn is_empty(&self) -> (b: bool)
        ensures
            b == (self.spec_pending().len() == 0),
    {
        self.bytes.len() == 0
    }

    /// Whether a write of `incoming` bytes must first flush what is pending.
    pub fn needs_flush(&self, incoming: usize) -> (b: bool)
        requires
            self.wf(),
        ensures
            b == (incoming + self.spec_pending().len() >= self.spec_capacity()),
    {
        incoming >= self.capacity - self.bytes.len()
    }

    /// Whether a write of `incoming` bytes bypasses the buffer.
    pub fn writes_through(&self, incoming: usize) -> (b: bool)
        ensures
            b == (incoming >= self.spec_capacity()),
    {
        incoming >= self.capacity
    }

    /// Gathers `buf`; it reports the whole of `buf` as written.
    pub fn append(&mut self, buf: &[u8]) -> (n: usize)
        requires
            old(self).wf(),
            buf@.len() + old(self).spec_pending().len() < old(self).spec_capacity(),
        ensures
            final(self).wf(),
            final(self).spec_pending() == old(self).spec_pending() + buf@,
            final(self).spec_capacity() == old(self).spec_capacity(),
            n == buf@.len(),
    {
        let mut i: usize = 0;
        while i < buf.len()
            invariant
                i <= buf@.len(),
                self.capacity == old(self).capacity,
                self.bytes@ == old(self).bytes@ + buf@.subrange(0, i as int),
            decreases buf.len() - i,
        {
            self.bytes.push(buf[i]);
            proof {
                assert(buf@.subrange(0, i + 1) =~= buf@.subrange(0, i as int).push(buf@[i as int]));
            }
            i += 1;
        }
        assert(buf@.subrange(0, buf@.len() as int) =~= buf@);
        buf.len()
    }

    /// Drops the first `n` pending bytes, which the file took.
    pub fn consume(&mut self, n: usize)
        requires
            old(self).wf(),
            n <= old(self).spec_pending().len(),
        ensures
            final(self).wf(),
            final(self).spec_pending() == old(self).spec_pending().subrange(
                n as int,
                old(self).spec_pending().len() as int,
            ),
            final(self).spec_capacity() == old(self).spec_capacity(),
    {
        let mut rest: Vec<u8> = Vec::new();
        let mut i: usize = n;
        while i < self.bytes.len()
            invariant
                n <= i <= self.bytes@.len(),
                self.bytes@ == old(self).bytes@,
                rest@ == self.bytes@.subrange(n as int, i as int),
            decreases self.bytes.len() - i,
        {
            rest.push(self.bytes[i]);
            proof {
                assert(self.bytes@.subrange(n as int, i + 1) =~= self.bytes@.subrange(
                    n as int,
                    i as int,
                ).push(self.bytes@[i as int]));
            }
            i += 1;
        }
        self.bytes = rest;
    }

    /// Accounts for one write of the pending bytes while emptying the
    /// buffer: a write of zero bytes is an unexpected end of file.
    pub fn flush_progress(&mut self, n: usize) -> (r: Result<(), crate::errors::IoKind>)
        requires
            old(self).wf(),
            n <= old(self).spec_pending().len(),
        ensures
            final(self).wf(),
            final(self).spec_capacity() == old(self).spec_capacity(),
            n == 0 ==> r == Err::<(), crate::errors::IoKind>(crate::errors::IoKind::UnexpectedEof)
                && final(self).spec_pending() == old(self).spec_pending(),
            n > 0 ==> r is Ok && final(self).spec_pending() == old(self).spec_pending().subrange(
                n as int,
                old(self).spec_pending().len() as int,
            ),
    {
        if n == 0 {
            return Err(crate::errors::IoKind::UnexpectedEof);
        }
        self.consume(n);
        Ok(())
    }
}

/// What an upload reports for each file it wrote: the bytes written, the
/// seconds it took, and the file name.
#[derive(Debug, Clone)]
pub struct UploadResult {
    pub size: usize,
    pub elapsed: u64,
    pub file_name: String,
}

impl UploadResult {
    pub fn new(size: usize, elapsed: u64, file_name: String) -> (r: Self)
        ensures
            r.size == size,
            r.elapsed == elapsed,
            r.file_name == file_name,
    {
        UploadResult { size, elapsed, file_name }
    }
}

/// What the multipart stream yields.
#[derive(Debug, Clone)]
pub enum StreamItem {
    /// A new file begins.
    New { file_name: String, mime: String },
    /// A chunk of the current file.
    Bytes(Vec<u8>),
    /// The current file is complete.
    Eof,
    /// The stream failed.
    Failed(UploadError),
    /// The stream is over.
    End,
}

/// Where an upload stands.
#[derive(Debug, Clone)]
pub enum UploadPhase {
    Writing(Vec<u8>),
    Reading,
    Flush,
    Create,
    Done,
}

/// What the driver of an upload does next.
#[derive(Debug)]
pub enum UploadStep {
    /// Go on driving the machine.
    Continue,
    /// Create the file `file_name` in the directory chosen for `mime`.
    CreateFile { mime: String, file_name: String },
    /// Hand out an item of the upload stream.
    Item(Result<UploadResult, UploadError>),
    /// The upload stream is over.
    End,
}

/// The decisions of an upload: which file to create, when to write, flush
/// and report, and what each report holds.
pub struct UploadMachine {
    phase: UploadPhase,
    written: usize,
    has_buffer: bool,
    file_name: Option<String>,
    timing: bool,
    received: Ghost<nat>,
}

impl UploadMachine {
    pub closed spec fn spec_phase(&self) -> UploadPhase {
        self.phase
    }

    pub closed spec fn spec_written(&self) -> usize {
        self.written
    }

    pub closed spec fn spec_has_buffer(&self) -> bool {
        self.has_buffer
    }

    pub closed spec fn spec_file_name(&self) -> Option<String> {
        self.file_name
    }

    pub closed spec fn spec_timing(&self) -> bool {
        self.timing
    }

    /// The bytes the stream delivered since the last report.
    pub closed spec fn received(&self) -> nat {
        self.received@
    }

    /// The bytes delivered but not yet written.
    pub open spec fn pending_len(&self) -> nat {
        match self.spec_phase() {
            UploadPhase::Writing(b) => b@.len(),
            _ => 0,
        }
    }

    /// Every byte delivered since the last report is written or pending.
    pub open spec fn balanced(&self) -> bool {
        self.spec_written() + self.pending_len() == self.received()
    }

    /// A machine waiting for the first item of the stream.
    pub fn new() -> (m: Self)
        ensures
            m.spec_phase() is Reading,
            m.spec_written() == 0,
            !m.spec_has_buffer(),
            m.spec_file_name() is None,
            !m.spec_timing(),
            m.received() == 0,
            m.balanced(),
    {
        UploadMachine {
            phase: UploadPhase::Reading,
            written: 0,
            has_buffer: false,
            file_name: None,
            timing: false,
            received: Ghost(0),
        }
    }

    pub fn phase(&self) -> (p: &UploadPhase)
        ensures
            *p == self.spec_phase(),
    {
        &self.phase
    }

    pub fn has_buffer(&self) -> (b: bool)
        ensures
            b == self.spec_has_buffer(),
    {
        self.has_buffer
    }

    pub fn written(&self) -> (w: usize)
        ensures
            w == self.spec_written(),
    {
        self.written
    }

    /// Takes the next item of the stream while reading: a new file is
    /// created, a chunk is written, the end of a file flushes it, and a
    /// failure or the end of the stream ends the upload.
    pub fn on_item(&mut self, item: StreamItem) -> (step: UploadStep)
        requires
            old(self).spec_phase() is Reading,
        ensures
            final(self).spec_written() == old(self).spec_written(),
            final(self).balanced() == old(self).balanced(),
            match item {
                StreamItem::New { file_name, mime } => {
                    &&& final(self).spec_phase() is Create
                    &&& step == UploadStep::CreateFile { mime, file_name }
                    &&& final(self).spec_file_name() == Some(file_name)
                    &&& final(self).spec_timing()
                    &&& final(self).spec_has_buffer() == old(self).spec_has_buffer()
                    &&& final(self).received() == old(self).received()
                },
                StreamItem::Bytes(b) => {
                    &&& final(self).spec_phase() == UploadPhase::Writing(b)
                    &&& step is Continue
                    &&& final(self).received() == old(self).received() + b@.len()
                    &&& final(self).spec_has_buffer() == old(self).spec_has_buffer()
                    &&& final(self).spec_file_name() == old(self).spec_file_name()
                    &&& final(self).spec_timing() == old(self).spec_timing()
                },
                StreamItem::Eof => {
                    &&& final(self).spec_phase() is Flush
                    &&& step is Continue
                    &&& final(self).received() == old(self).received()
                    &&& final(self).spec_has_buffer() == old(self).spec_has_buffer()
                    &&& final(self).spec_file_name() == old(self).spec_file_name()
                    &&& final(self).spec_timing() == old(self).spec_timing()
                },
                StreamItem::Failed(e) => final(self).spec_phase() is Done && step == UploadStep::Item(
                    Err(e),
                ),
                StreamItem::End => final(self).spec_phase() is Done && step is End,
            },
    {
        match item {
            StreamItem::New { file_name, mime } => {
                self.file_name = Some(file_name.clone());
                self.timing = true;
                self.phase = UploadPhase::Create;
                UploadStep::CreateFile { mime, file_name }
            },
            StreamItem::Bytes(b) => {
                proof {
                    self.received = Ghost(self.received@ + b@.len());
                }
                self.phase = UploadPhase::Writing(b);
                UploadStep::Continue
            },
            StreamItem::Eof => {
                self.phase = UploadPhase::Flush;
                UploadStep::Continue
            },
            StreamItem::Failed(e) => {
                self.phase = UploadPhase::Done;
                UploadStep::Item(Err(e))
            },
            StreamItem::End => {
                self.phase = UploadPhase::Done;
                UploadStep::End
            },
        }
    }

    /// Drives a finished upload once more: it stays finished, touches no
    /// file, reads nothing, and reports the end of the stream.
    pub fn on_done(&mut self) -> (step: UploadStep)
        requires
            old(self).spec_phase() is Done,
        ensures
            step is End,
            *final(self) == *old(self),
    {
        UploadStep::End
    }

    /// Takes the outcome of creating the file: writing may begin, or the
    /// upload ends with the error.
    pub fn on_created(&mut self, result: Result<(), UploadError>) -> (step: UploadStep)
        requires
            old(self).spec_phase() is Create,
        ensures
            final(self).spec_written() == old(self).spec_written(),
            final(self).received() == old(self).received(),
            final(self).spec_file_name() == old(self).spec_file_name(),
            final(self).spec_timing() == old(self).spec_timing(),
            final(self).balanced() == old(self).balanced(),
            match result {
                Ok(()) => final(self).spec_phase() is Reading && final(self).spec_has_buffer()
                    && step is Continue,
                Err(e) => final(self).spec_phase() is Done && step == UploadStep::Item(Err(e))
                    && final(self).spec_has_buffer() == old(self).spec_has_buffer(),
            },
    {
        match result {
            Ok(()) => {
                self.has_buffer = true;
                self.phase = UploadPhase::Reading;
                UploadStep::Continue
            },
            Err(e) => {
                self.phase = UploadPhase::Done;
                UploadStep::Item(Err(e))
            },
        }
    }

    /// Takes the outcome of writing the pending chunk: what the file did
    /// not take stays pending, and an error ends the upload.
    pub fn on_written(&mut self, result: Result<usize, UploadError>) -> (step: UploadStep)
        requires
            old(self).spec_phase() is Writing,
            old(self).spec_has_buffer(),
            result matches Ok(n) ==> old(self).spec_written() + n <= usize::MAX,
        ensures
            final(self).received() == old(self).received(),
            final(self).spec_has_buffer() == old(self).spec_has_buffer(),
            final(self).spec_file_name() == old(self).spec_file_name(),
            final(self).spec_timing() == old(self).spec_timing(),
            ({
                let buf = old(self).spec_phase()->Writing_0@;
                match result {
                    Ok(n) => {
                        &&& step is Continue
                        &&& final(self).spec_written() == old(self).spec_written() + n
                        &&& n < buf.len() ==> (final(self).spec_phase() matches UploadPhase::Writing(
                            rest,
                        ) && rest@ == buf.subrange(n as int, buf.len() as int))
                        &&& n >= buf.len() ==> final(self).spec_phase() is Reading
                        &&& n <= buf.len() ==> final(self).balanced() == old(self).balanced()
                    },
                    Err(e) => final(self).spec_phase() is Done && step == UploadStep::Item(Err(e))
                        && final(self).spec_written() == old(self).spec_written(),
                }
            }),
    {
        let buf = match &self.phase {
            UploadPhase::Writing(b) => b.clone(),
            _ => Vec::new(),
        };
        assert(buf@ == old(self).spec_phase()->Writing_0@);
        match result {
            Ok(n) => {
                if n < buf.len() {
                    let mut rest: Vec<u8> = Vec::new();
                    let mut i: usize = n;
                    while i < buf.len()
                        invariant
                            n <= i <= buf@.len(),
                            rest@ == buf@.subrange(n as int, i as int),
                        decreases buf.len() - i,
                    {
                        rest.push(buf[i]);
                        proof {
                            assert(buf@.subrange(n as int, i + 1) =~= buf@.subrange(
                                n as int,
                                i as int,
                            ).push(buf@[i as int]));
                        }
                        i += 1;
                    }
                    self.phase = UploadPhase::Writing(rest);
                } else {
                    self.phase = UploadPhase::Reading;
                }
                self.written = self.written + n;
                UploadStep::Continue
            },
            Err(e) => {
                self.phase = UploadPhase::Done;
                UploadStep::Item(Err(e))
            },
        }
    }

    /// Takes the outcome of flushing the finished file.  On success the
    /// upload reports the bytes written for the file, the seconds it took
    /// (`elapsed_secs`, measured since the file began, or 0 when no file
    /// began) and its name, and starts counting afresh.
    pub fn on_flushed(&mut self, result: Result<(), UploadError>, elapsed_secs: u64) -> (step:
        UploadStep)
        requires
            old(self).spec_phase() is Flush,
            old(self).spec_has_buffer(),
        ensures
            final(self).spec_has_buffer() == old(self).spec_has_buffer(),
            match result {
                Ok(()) => {
                    &&& final(self).spec_phase() is Reading
                    &&& final(self).spec_written() == 0
                    &&& final(self).received() == 0
                    &&& final(self).balanced()
                    &&& final(self).spec_file_name() is None
                    &&& !final(self).spec_timing()
                    &&& step matches UploadStep::Item(Ok(r)) && r.size == old(self).spec_written()
                        && r.elapsed == (if old(self).spec_timing() {
                        elapsed_secs
                    } else {
                        0
                    }) && r.file_name@ == (match old(self).spec_file_name() {
                        Some(f) => f@,
                        None => Seq::<char>::empty(),
                    })
                    &&& old(self).balanced() ==> (step matches UploadStep::Item(Ok(r)) && r.size
                        == old(self).received())
                },
                Err(e) => final(self).spec_phase() is Done && step == UploadStep::Item(Err(e)),
            },
    {
        match result {
            Ok(()) => {
                let size = self.written;
                self.written = 0;
                proof {
                    self.received = Ghost(0);
                }
                let elapsed = if self.timing {
                    elapsed_secs
                } else {
                    0
                };
                self.timing = false;
                let file_name = match self.file_name.take() {
                    Some(f) => f,
                    None => String::new(),
                };
                self.phase = UploadPhase::Reading;
                UploadStep::Item(Ok(UploadResult::new(size, elapsed, file_name)))
            },
            Err(e) => {
                self.phase = UploadPhase::Done;
                UploadStep::Item(Err(e))
            },
        }
    }
}

/// An upload to `/api/v1/file/<channel>/<program>`, where neither name
/// holds a `/`, targets that channel and that program.
pub proof fn lemma_upload_target(channel: Seq<char>, program: Seq<char>)
    requires
        free_of(channel, '/'),
        free_of(program, '/'),
    ensures
        ({
            let path = "/api/v1/file/"@ + channel + "/"@ + program;
            &&& split(path, "/file/"@).len() > 1
            &&& target_segments(path) == seq![channel, program]
        }),
{
    reveal_strlit("/api/v1/file/");
    reveal_strlit("/file/");
    reveal_strlit("/");
    let head = "/api/v1/file/"@;
    let pat = "/file/"@;
    let rest = channel + "/"@ + program;
    let path = head + rest;
    assert(head + channel + "/"@ + program =~= path);
    assert(pat.len() == 6);
    assert forall|i: int| 0 <= i < 13 implies path[i] == head[i] by {}
    assert(matches_at(path, pat, 7)) by {
        assert(path.subrange(7, 13) =~= pat);
    }
    assert forall|j: int| 0 <= j < 7 implies !matches_at(path, pat, j) by {
        if matches_at(path, pat, j) {
            assert(path.subrange(j, j + 6)[0] == path[j]);
            assert(path.subrange(j, j + 6)[1] == path[j + 1]);
        }
    }
    lemma_find_from(path, pat, 0);
    assert(find_from(path, pat, 0) == Some(7int));
    lemma_split_shift(head, rest, pat, 0);
    let n = channel.len() as int;
    assert forall|i: int| 0 <= i < rest.len() && rest[i] == '/' implies i == n by {
        if i < n {
            assert(rest[i] == channel[i]);
        } else if i > n {
            assert(rest[i] == program[i - n - 1]);
        }
    }
    assert forall|j: int| !matches_at(rest, pat, j) by {
        if matches_at(rest, pat, j) {
            assert(rest.subrange(j, j + 6)[0] == rest[j]);
            assert(rest.subrange(j, j + 6)[5] == rest[j + 5]);
        }
    }
    lemma_find_from(rest, pat, 0);
    assert(find_from(rest, pat, 0) is None);
    assert(rest.subrange(0, rest.len() as int) =~= rest);
    assert(split_from(rest, pat, 0) == seq![rest]);
    assert(split(path, pat) =~= seq![path.subrange(0, 7)] + seq![rest]);
    assert(split(path, pat)[1] == rest);
    assert("/"@ =~= seq!['/']);
    lemma_split_first(channel, '/', program);
    lemma_split_free(program, '/');
    assert(split(rest, "/"@) =~= seq![channel, program]);
}

} // verus!
