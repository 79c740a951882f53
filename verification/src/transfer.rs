//! The transfer client: listing records, downloading a video file, and
//! uploading one, against the remote recording server's API.
//!
//! Everything the operations decide is here and verified: the request
//! URLs and their query parameters, the upload form's fields, the refusal
//! to download without a declared content length, and the byte accounting
//! that drives progress snapshots. The caller performs the HTTP exchange
//! itself and feeds the response's chunks back in.

use vstd::prelude::*;

use crate::model::{RecordId, RecordedQuery, TransferError, TransferProgress, VideoFileId, VideoFileProperty};
use crate::numeral::dec_str;
use crate::numeral::u64_to_string;
use crate::progress::{offered, offered_all, ProgressQueue};

verus! {

/// The total byte count of a sequence of chunk lengths.
pub open spec fn chunk_sum(lens: Seq<u64>) -> int
    decreases lens.len(),
{
    if lens.len() == 0 {
        0
    } else {
        chunk_sum(lens.drop_last()) + lens.last()
    }
}

/// The lengths of a sequence of chunks.
pub open spec fn lens_of(chunks: Seq<Seq<u8>>) -> Seq<u64> {
    chunks.map_values(|c: Seq<u8>| c.len() as u64)
}

/// The byte contents of a sequence of chunks.
pub open spec fn bytes_of(chunks: Seq<Vec<u8>>) -> Seq<Seq<u8>> {
    chunks.map_values(|c: Vec<u8>| c@)
}

/// The progress snapshots one transfer emits, one per chunk: the bytes
/// done so far, against the denominator fixed at the start.
pub open spec fn transfer_snapshots(total: u64, lens: Seq<u64>) -> Seq<TransferProgress> {
    Seq::new(
        lens.len(),
        |i: int|
            TransferProgress {
                current_bytes: chunk_sum(lens.take(i + 1)) as u64,
                total_bytes: total,
            },
    )
}

pub proof fn lemma_chunk_sum_nonneg(lens: Seq<u64>)
    ensures
        chunk_sum(lens) >= 0,
    decreases lens.len(),
{
    if lens.len() > 0 {
        lemma_chunk_sum_nonneg(lens.drop_last());
    }
}

/// The byte count over a prefix never exceeds the byte count over a longer
/// prefix.
pub proof fn lemma_chunk_sum_prefix_le(lens: Seq<u64>, i: int, j: int)
    requires
        0 <= i <= j <= lens.len(),
    ensures
        chunk_sum(lens.take(i)) <= chunk_sum(lens.take(j)),
    decreases j - i,
{
    if i < j {
        lemma_chunk_sum_prefix_le(lens, i, j - 1);
        assert(lens.take(j).drop_last() =~= lens.take(j - 1));
        assert(chunk_sum(lens.take(j)) == chunk_sum(lens.take(j - 1)) + lens[j - 1]);
    }
}

/// Law: within one transfer, the snapshots' `current_bytes` is
/// non-decreasing and their `total_bytes` never changes.
pub proof fn lemma_transfer_progress_monotone(total: u64, lens: Seq<u64>, i: int, j: int)
    requires
        0 <= i <= j < transfer_snapshots(total, lens).len(),
        chunk_sum(lens) <= u64::MAX,
    ensures
        transfer_snapshots(total, lens)[i].current_bytes <= transfer_snapshots(
            total,
            lens,
        )[j].current_bytes,
        transfer_snapshots(total, lens)[i].total_bytes == total,
{
    lemma_chunk_sum_prefix_le(lens, i + 1, j + 1);
    lemma_chunk_sum_prefix_le(lens, j + 1, lens.len() as int);
    assert(lens.take(lens.len() as int) =~= lens);
    lemma_chunk_sum_nonneg(lens.take(i + 1));
}

/// The flattened length of a chunk sequence is the sum of its lengths.
pub proof fn lemma_flat_len(chunks: Seq<Seq<u8>>)
    requires
        forall|k: int| 0 <= k < chunks.len() ==> (#[trigger] chunks[k]).len() <= u64::MAX,
    ensures
        chunks.flatten().len() == chunk_sum(lens_of(chunks)),
    decreases chunks.len(),
{
    if chunks.len() == 0 {
        assert(chunks.flatten() =~= Seq::<u8>::empty());
    } else {
        lemma_flat_len(chunks.drop_last());
        chunks.drop_last().lemma_flatten_push(chunks.last());
        assert(chunks.drop_last().push(chunks.last()) =~= chunks);
        assert(lens_of(chunks).drop_last() =~= lens_of(chunks.drop_last()));
        assert(chunks.last().len() <= u64::MAX);
        assert(lens_of(chunks).last() == chunks.last().len() as u64);
        assert(chunks.flatten().len() == chunks.drop_last().flatten().len()
            + chunks.last().len());
    }
}

/// Law: a download of a known total size, whose body carries exactly that
/// many bytes, assembles a file of exactly that many bytes, and its final
/// snapshot — if one is delivered — reads `current = total`.
pub proof fn lemma_download_round_trip(total: u64, chunks: Seq<Seq<u8>>)
    requires
        chunk_sum(lens_of(chunks)) == total,
        forall|k: int| 0 <= k < chunks.len() ==> (#[trigger] chunks[k]).len() <= u64::MAX,
    ensures
        chunks.flatten().len() == total,
        chunks.len() > 0 ==> transfer_snapshots(total, lens_of(chunks)).last()
            == (TransferProgress { current_bytes: total, total_bytes: total }),
{
    lemma_flat_len(chunks);
    let lens = lens_of(chunks);
    if chunks.len() > 0 {
        assert(lens.take(lens.len() as int) =~= lens);
    }
}

/// Law: progress delivery is decoupled from the transfer itself. The
/// snapshots are a function of the response alone, and a bounded sink —
/// one of capacity zero included, which models a receiver that never
/// listens — receives exactly a prefix of them: nothing is reordered,
/// nothing is fabricated, and nothing about the transfer depends on how
/// long that prefix is.
pub proof fn lemma_progress_decoupled(total: u64, lens: Seq<u64>, capacity: nat)
    ensures
        offered_all(Seq::<TransferProgress>::empty(), capacity, transfer_snapshots(total, lens))
            == transfer_snapshots(total, lens).take(
            if transfer_snapshots(total, lens).len() <= capacity {
                transfer_snapshots(total, lens).len() as int
            } else {
                capacity as int
            },
        ),
{
    crate::progress::lemma_delivery_is_prefix(capacity, transfer_snapshots(total, lens));
}

/// One transfer operation's byte accounting: the denominator fixed at the
/// start, and the bytes done so far.
pub struct TransferTracker {
    pub total_bytes: u64,
    pub current_bytes: u64,
}

impl TransferTracker {
    /// Open the accounting for a transfer whose total size is known.
    pub fn new(total_bytes: u64) -> (r: Self)
        ensures
            r.total_bytes == total_bytes,
            r.current_bytes == 0,
    {
        TransferTracker { total_bytes, current_bytes: 0 }
    }

    /// Account one transferred chunk, after its bytes are durably written
    /// or sent, and produce the snapshot describing the new state.
    pub fn on_chunk(&mut self, len: u64) -> (r: TransferProgress)
        requires
            old(self).current_bytes + len <= u64::MAX,
        ensures
            final(self).total_bytes == old(self).total_bytes,
            final(self).current_bytes == old(self).current_bytes + len,
            r.current_bytes == final(self).current_bytes,
            r.total_bytes == old(self).total_bytes,
    {
        self.current_bytes = self.current_bytes + len;
        TransferProgress { current_bytes: self.current_bytes, total_bytes: self.total_bytes }
    }
}

/// Whether an HTTP status answers a request successfully.
pub open spec fn is_success_status(status: u16) -> bool {
    200 <= status < 300
}

/// Open the byte accounting for a download. A response with a non-success
/// status, or without a declared content length, is refused before any
/// byte is read: progress accuracy is a contract, not a best effort.
pub fn begin_download(status: u16, content_length: Option<u64>) -> (r: Result<
    TransferTracker,
    TransferError,
>)
    ensures
        r is Ok <==> is_success_status(status) && content_length is Some,
        r matches Ok(t) ==> (content_length matches Some(n) && t.total_bytes == n
            && t.current_bytes == 0),
        !is_success_status(status) ==> r == Err::<TransferTracker, TransferError>(
            TransferError::FailedStatus(status),
        ),
        is_success_status(status) && content_length is None ==> r == Err::<
            TransferTracker,
            TransferError,
        >(TransferError::MissingContentLength),
{
    if status < 200 || status >= 300 {
        return Err(TransferError::FailedStatus(status));
    }
    match content_length {
        Some(n) => Ok(TransferTracker::new(n)),
        None => Err(TransferError::MissingContentLength),
    }
}

/// The verified core of a download: given the response's status and
/// declared content length and its body chunks in order, assemble the
/// target file's bytes, offering one snapshot per chunk to the bounded
/// sink without ever blocking on it. Fails, before touching a byte,
/// exactly when the status is not a success or the content length is
/// missing.
pub fn run_download(
    status: u16,
    content_length: Option<u64>,
    chunks: &Vec<Vec<u8>>,
    sink: &mut ProgressQueue<TransferProgress>,
) -> (r: Result<Vec<u8>, TransferError>)
    requires
        old(sink).wf(),
        chunk_sum(lens_of(bytes_of(chunks@))) <= u64::MAX,
    ensures
        final(sink).wf(),
        final(sink).spec_capacity() == old(sink).spec_capacity(),
        r is Ok <==> is_success_status(status) && content_length is Some,
        r is Err ==> final(sink)@ == old(sink)@,
        !is_success_status(status) ==> r == Err::<Vec<u8>, TransferError>(
            TransferError::FailedStatus(status),
        ),
        is_success_status(status) && content_length is None ==> r == Err::<
            Vec<u8>,
            TransferError,
        >(TransferError::MissingContentLength),
        r matches Ok(data) ==> (content_length matches Some(total) && data@ == bytes_of(
            chunks@,
        ).flatten() && final(sink)@ == offered_all(
            old(sink)@,
            old(sink).spec_capacity(),
            transfer_snapshots(total, lens_of(bytes_of(chunks@))),
        )),
{
    let mut tracker = match begin_download(status, content_length) {
        Ok(t) => t,
        Err(e) => {
            return Err(e);
        },
    };
    let ghost lens = lens_of(bytes_of(chunks@));
    let ghost total = tracker.total_bytes;
    let ghost snaps = transfer_snapshots(total, lens);
    let mut data: Vec<u8> = Vec::new();
    let mut i: usize = 0;
    while i < chunks.len()
        invariant
            0 <= i <= chunks@.len(),
            lens == lens_of(bytes_of(chunks@)),
            snaps == transfer_snapshots(total, lens),
            chunk_sum(lens) <= u64::MAX,
            tracker.total_bytes == total,
            tracker.current_bytes == chunk_sum(lens.take(i as int)),
            data@ == bytes_of(chunks@).take(i as int).flatten(),
            sink.wf(),
            sink.spec_capacity() == old(sink).spec_capacity(),
            sink@ == offered_all(old(sink)@, old(sink).spec_capacity(), snaps.take(i as int)),
        decreases chunks@.len() - i,
    {
        let c = &chunks[i];
        let ghost data_before = data@;
        let mut j: usize = 0;
        while j < c.len()
            invariant
                0 <= j <= c@.len(),
                data@ == data_before + c@.take(j as int),
            decreases c@.len() - j,
        {
            data.push(c[j]);
            proof {
                assert(data@ =~= data_before + c@.take(j + 1));
            }
            j += 1;
        }
        proof {
            assert(c@.take(c@.len() as int) =~= c@);
            assert(bytes_of(chunks@).take(i + 1) =~= bytes_of(chunks@).take(i as int).push(
                chunks@[i as int]@,
            ));
            bytes_of(chunks@).take(i as int).lemma_flatten_push(chunks@[i as int]@);
            assert(lens.take(i + 1).drop_last() =~= lens.take(i as int));
            assert(lens.take(i + 1).last() == lens[i as int]);
            lemma_chunk_sum_prefix_le(lens, i + 1, lens.len() as int);
            assert(lens.take(lens.len() as int) =~= lens);
            lemma_chunk_sum_nonneg(lens.take(i as int));
        }
        let snap = tracker.on_chunk(c.len() as u64);
        proof {
            assert(snap == snaps[i as int]);
            assert(snaps.take(i + 1).drop_last() =~= snaps.take(i as int));
        }
        let _ = sink.try_send(snap);
        proof {
            assert(sink@ == offered(
                offered_all(old(sink)@, old(sink).spec_capacity(), snaps.take(i as int)),
                old(sink).spec_capacity(),
                snaps[i as int],
            ));
        }
        i += 1;
    }
    proof {
        assert(bytes_of(chunks@).take(chunks@.len() as int) =~= bytes_of(chunks@));
        assert(snaps.take(snaps.len() as int) =~= snaps);
    }
    Ok(data)
}

/// The views of a key/value parameter list.
pub open spec fn pairs_view(pairs: Seq<(String, String)>) -> Seq<(Seq<char>, Seq<char>)> {
    pairs.map_values(|p: (String, String)| (p.0@, p.1@))
}

/// What the url crate renders for a host, a path and a query parameter
/// list: a function of those three alone.
pub uninterp spec fn url_with_query(
    host: Seq<char>,
    path: Seq<char>,
    pairs: Seq<(Seq<char>, Seq<char>)>,
) -> Seq<char>;

/// What the url crate renders for a host and a path, with no query: a
/// function of those two alone.
pub uninterp spec fn url_with_path(host: Seq<char>, path: Seq<char>) -> Seq<char>;

/// Whether the url crate accepts a string as an absolute URL: a function
/// of the string alone.
pub uninterp spec fn url_parses(host: Seq<char>) -> bool;

/// The character count a parameter list contributes to a rendered URL,
/// with two separators per pair.
pub open spec fn pairs_chars(pairs: Seq<(Seq<char>, Seq<char>)>) -> int
    decreases pairs.len(),
{
    if pairs.len() == 0 {
        0
    } else {
        pairs_chars(pairs.drop_last()) + pairs.last().0.len() + pairs.last().1.len() + 2
    }
}

/// Relies on url::Url::parse, Url::set_path and Url::query_pairs_mut
/// (cleared, then one append_pair per pair, in order): the rendered URL is
/// a function of the host, the path and the pairs alone, and parsing
/// succeeds or fails on the host alone. None exactly when the host does
/// not parse as an absolute URL. The url crate panics when a rendered URL
/// outgrows its internal u32 index limit; one character contributes at
/// most twelve bytes to the rendering, so the length bound keeps the
/// total far below that limit.
#[verifier::external_body]
fn render_url_with_query(host: &str, path: &str, pairs: &Vec<(String, String)>) -> (r: Option<
    String,
>)
    requires
        host@.len() + path@.len() + pairs_chars(pairs_view(pairs@)) <= 100000000,
    ensures
        r is Some <==> url_parses(host@),
        r matches Some(u) ==> u@ == url_with_query(host@, path@, pairs_view(pairs@)),
{
    let mut u = match url::Url::parse(host) {
        Ok(u) => u,
        Err(_) => return None,
    };
    u.set_path(path);
    let mut q = u.query_pairs_mut();
    q.clear();
    for (k, v) in pairs.iter() {
        q.append_pair(k, v);
    }
    drop(q);
    Some(u.as_str().to_string())
}

/// Relies on url::Url::parse and Url::set_path: the rendered URL is a
/// function of the host and the path alone, and parsing succeeds or fails
/// on the host alone. None exactly when the host does not parse as an
/// absolute URL. The length bound keeps the rendering far below the url
/// crate's internal u32 index limit, past which Url::set_path panics.
#[verifier::external_body]
fn render_url_with_path(host: &str, path: &str) -> (r: Option<String>)
    requires
        host@.len() + path@.len() <= 100000000,
    ensures
        r is Some <==> url_parses(host@),
        r matches Some(u) ==> u@ == url_with_path(host@, path@),
{
    let mut u = match url::Url::parse(host) {
        Ok(u) => u,
        Err(_) => return None,
    };
    u.set_path(path);
    Some(u.as_str().to_string())
}

/// The listing request's full parameter list: the caller's filter
/// parameters verbatim and in order, with the paging window appended.
pub fn recorded_parameters(query: &RecordedQuery, offset: usize, limit: usize) -> (r: Vec<
    (String, String),
>)
    ensures
        r@.len() == query.params@.len() + 2,
        forall|i: int| 0 <= i < query.params@.len() ==> r@[i] == query.params@[i],
        pairs_view(r@)[query.params@.len() as int] == ("offset"@, dec_str(offset as nat)),
        pairs_view(r@)[query.params@.len() + 1int] == ("limit"@, dec_str(limit as nat)),
{
    let mut r: Vec<(String, String)> = Vec::new();
    let mut i: usize = 0;
    while i < query.params.len()
        invariant
            0 <= i <= query.params@.len(),
            r@.len() == i,
            forall|k: int| 0 <= k < i ==> r@[k] == query.params@[k],
        decreases query.params@.len() - i,
    {
        let p = &query.params[i];
        r.push((p.0.clone(), p.1.clone()));
        i += 1;
    }
    r.push((String::from_str("offset"), u64_to_string(offset as u64)));
    r.push((String::from_str("limit"), u64_to_string(limit as u64)));
    r
}

/// The multipart form of one upload, short of the file's bytes: the text
/// fields in order, and the file part's field name, file name and content
/// type. The sub-directory field is present exactly when the property
/// carries one.
pub struct UploadForm {
    pub text_fields: Vec<(String, String)>,
    pub file_field_name: String,
    pub file_name: String,
    pub file_content_type: String,
}

/// Build the upload form for one file and its target record.
pub fn upload_form(property: VideoFileProperty, record_id: RecordId) -> (r: UploadForm)
    ensures
        r.file_field_name@ == "file"@,
        r.file_name@ == property.file_name@,
        r.file_content_type@ == "application/octet-stream"@,
        r.text_fields@.len() == (if property.sub_directory is Some {
            5int
        } else {
            4int
        }),
        pairs_view(r.text_fields@)[0] == ("recordedId"@, dec_str(record_id.0 as nat)),
        pairs_view(r.text_fields@)[1] == ("parentDirectoryName"@, property.parent_directory_name@),
        pairs_view(r.text_fields@)[2] == ("viewName"@, property.view_name@),
        pairs_view(r.text_fields@)[3] == ("fileType"@, property.file_type@),
        property.sub_directory matches Some(s) ==> pairs_view(r.text_fields@)[4] == (
            "subDirectory"@,
            s@,
        ),
{
    let mut text_fields: Vec<(String, String)> = Vec::new();
    text_fields.push((String::from_str("recordedId"), u64_to_string(record_id.0)));
    text_fields.push((String::from_str("parentDirectoryName"), property.parent_directory_name));
    text_fields.push((String::from_str("viewName"), property.view_name));
    text_fields.push((String::from_str("fileType"), property.file_type));
    match property.sub_directory {
        Some(s) => {
            text_fields.push((String::from_str("subDirectory"), s));
        },
        None => {},
    }
    UploadForm {
        text_fields,
        file_field_name: String::from_str("file"),
        file_name: property.file_name,
        file_content_type: String::from_str("application/octet-stream"),
    }
}

/// The transfer client, bound to one remote host.
pub struct Client {
    host: String,
}

impl Client {
    /// The configured host, as given to `new`.
    pub closed spec fn host_str(&self) -> Seq<char> {
        self.host@
    }

    pub fn new(base_uri: String) -> (r: Self)
        ensures
            r.host_str() == base_uri@,
    {
        Client { host: base_uri }
    }

    /// The URL of the listing request for one filter and paging window.
    /// Fails exactly when the configured host is not a parsable URL. The
    /// length bound keeps the rendering inside the url crate's limits.
    pub fn query_recorded_url(
        &self,
        query: &RecordedQuery,
        offset: usize,
        limit: usize,
    ) -> (r: Result<String, TransferError>)
        requires
            self.host_str().len() + pairs_chars(pairs_view(query.params@)) <= 90000000,
        ensures
            r is Ok <==> url_parses(self.host_str()),
            r matches Ok(u) ==> u@ == url_with_query(
                self.host_str(),
                "/api/recorded"@,
                pairs_view(query.params@) + seq![
                    ("offset"@, dec_str(offset as nat)),
                    ("limit"@, dec_str(limit as nat)),
                ],
            ),
            r matches Err(e) ==> e == TransferError::InvalidHostUrl,
    {
        let pairs = recorded_parameters(query, offset, limit);
        proof {
            let pv = pairs_view(query.params@);
            let op = ("offset"@, dec_str(offset as nat));
            let lp = ("limit"@, dec_str(limit as nat));
            assert(pairs_view(pairs@) =~= pv + seq![op, lp]);
            assert((pv + seq![op, lp]).drop_last() =~= pv + seq![op]);
            assert((pv + seq![op]).drop_last() =~= pv);
            assert((pv + seq![op, lp]).last() == lp);
            assert((pv + seq![op]).last() == op);
            reveal_strlit("/api/recorded");
            reveal_strlit("offset");
            reveal_strlit("limit");
            crate::numeral::lemma_dec_str_len_u64(offset as nat);
            crate::numeral::lemma_dec_str_len_u64(limit as nat);
            assert(pairs_chars(pv + seq![op]) == pairs_chars(pv) + op.0.len() + op.1.len()
                + 2);
            assert(pairs_chars(pv + seq![op, lp]) == pairs_chars(pv + seq![op]) + lp.0.len()
                + lp.1.len() + 2);
            assert("/api/recorded"@.len() == 13);
            assert(op.0.len() == 6 && lp.0.len() == 5);
            assert(op.1.len() <= 20 && lp.1.len() <= 20);
        }
        match render_url_with_query(self.host.as_str(), "/api/recorded", &pairs) {
            Some(u) => Ok(u),
            None => Err(TransferError::InvalidHostUrl),
        }
    }

    /// The URL one video file is downloaded from. Fails exactly when the
    /// configured host is not a parsable URL. The length bound keeps the
    /// rendering inside the url crate's limits.
    pub fn download_videofile_url(&self, videofile_id: VideoFileId) -> (r: Result<
        String,
        TransferError,
    >)
        requires
            self.host_str().len() <= 90000000,
        ensures
            r is Ok <==> url_parses(self.host_str()),
            r matches Ok(u) ==> u@ == url_with_path(
                self.host_str(),
                "/api/videos/"@ + dec_str(videofile_id.0 as nat),
            ),
            r matches Err(e) ==> e == TransferError::InvalidHostUrl,
    {
        let path = String::from_str("/api/videos/").concat(
            u64_to_string(videofile_id.0).as_str(),
        );
        proof {
            reveal_strlit("/api/videos/");
            crate::numeral::lemma_dec_str_len_u64(videofile_id.0 as nat);
        }
        match render_url_with_path(self.host.as_str(), path.as_str()) {
            Some(u) => Ok(u),
            None => Err(TransferError::InvalidHostUrl),
        }
    }

    /// The URL uploads are posted to. Fails exactly when the configured
    /// host is not a parsable URL. The length bound keeps the rendering
    /// inside the url crate's limits.
    pub fn upload_videofile_url(&self) -> (r: Result<String, TransferError>)
        requires
            self.host_str().len() <= 90000000,
        ensures
            r is Ok <==> url_parses(self.host_str()),
            r matches Ok(u) ==> u@ == url_with_path(self.host_str(), "/api/videos/upload"@),
            r matches Err(e) ==> e == TransferError::InvalidHostUrl,
    {
        proof {
            reveal_strlit("/api/videos/upload");
        }
        match render_url_with_path(self.host.as_str(), "/api/videos/upload") {
            Some(u) => Ok(u),
            None => Err(TransferError::InvalidHostUrl),
        }
    }
}

} // verus!
