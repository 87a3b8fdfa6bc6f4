//! The store of Google Cloud Storage objects, and its readers.
//!
//! A blocking chunk read runs its download on a worker of its own and waits
//! for the result at most `SYNC_READ_TIMEOUT_SECS` seconds; what the caller
//! gets from what arrived (or did not) is decided by `complete_sync_read`.

use vstd::prelude::*;
use cloud_storage::client::Client;
use crate::error::{ErrorKind, GCSError, StoreError};
use crate::object_store::listing::{
    ListEntry, ListItem, Page, SizedFile, item_view, listing, listing_from_pages, page_view,
};
use crate::object_store::path::{ListRequest, parse_uri, split_at_slash, split_path};

verus! {

/// Relies on cloud_storage::client::Client: a session with the service,
/// carried through as an opaque value.
#[verifier::external_type_specification]
#[verifier::external_body]
pub struct ExClient(Client);

/// Relies on cloud_storage::client::Client::new: a client with the default
/// token provider, which looks for credentials in the environment when a
/// request first needs a token.
#[verifier::external_body]
fn new_client() -> (r: Client) {
    Client::new()
}

/// How long a blocking chunk read waits for its download, in seconds.
pub const SYNC_READ_TIMEOUT_SECS: u64 = 10;

/// The store of objects of Google Cloud Storage.
#[derive(Debug)]
pub struct GCSFileSystem {
    client: Client,
}

impl GCSFileSystem {
    /// A store with a client whose credentials come from the environment.
    pub fn new() -> (r: Self) {
        GCSFileSystem { client: new_client() }
    }

    /// A store with the default configuration; the same as `new`.
    pub fn default() -> (r: Self) {
        GCSFileSystem::new()
    }

    /// The client that requests of this store go through.
    pub fn client(&self) -> (r: &Client) {
        &self.client
    }

    /// The listing request for `uri`, of the form `gcs://bucket[/prefix]`;
    /// a URI without that scheme, or with an empty bucket, fails with kind
    /// `Other` and a `GCS` error.
    pub fn list_request(&self, uri: &str) -> (r: Result<ListRequest, StoreError>)
        ensures
            match parse_uri(uri@) {
                Some(parts) => r matches Ok(req) && req.bucket@ == parts.0 && req.prefix@
                    == parts.1,
                None => r matches Err(e) && e.kind == ErrorKind::Other && e.error is GCS,
            },
    {
        match ListRequest::from_uri(uri) {
            Ok(req) => Ok(req),
            Err(e) => Err(StoreError::other(e)),
        }
    }

    /// The files listed for `request`, made from the pages that the service
    /// returned for its bucket and prefix, each under the path `bucket/name`;
    /// the first failed page ends the listing with its error.
    pub fn list_file(&self, request: &ListRequest, pages: Vec<Page>) -> (r: Vec<ListItem>)
        ensures
            r@.map_values(|x: ListItem| item_view(x)) == listing(
                request.bucket@,
                pages@.map_values(|p: Page| page_view(p)),
            ),
    {
        listing_from_pages(request.bucket.as_str(), pages)
    }

    /// Listing by directory is not available: it always fails with kind
    /// `Other` and a `NotImplemented` error.
    pub fn list_dir(&self, _prefix: &str, _delimiter: Option<String>) -> (r: Result<
        Vec<ListEntry>,
        StoreError,
    >)
        ensures
            r matches Err(e) && e.kind == ErrorKind::Other && e.error is NotImplemented,
    {
        Err(StoreError::other(GCSError::NotImplemented(String::from_str("list_dir"))))
    }

    /// A reader of `file`.
    pub fn file_reader(&self, file: SizedFile) -> (r: Result<GCSFileReader, StoreError>)
        ensures
            r matches Ok(rd) && rd.file == file,
    {
        Ok(GCSFileReader::new(file))
    }
}

/// A reader of one remote object. It keeps no position and no data: each read
/// goes to the service on its own.
#[derive(Debug)]
pub struct GCSFileReader {
    pub file: SizedFile,
}

/// What arrived for a blocking chunk read within the wait bound.
#[derive(Debug)]
pub enum BridgeOutcome {
    /// The download's result: the object's bytes, or the service's failure,
    /// described.
    Delivered(Result<Vec<u8>, String>),
    /// No result came; the description says why.
    NoResult(String),
}

/// `start` and `length` select bytes that `body` holds.
pub open spec fn range_in(body: Seq<u8>, start: u64, length: usize) -> bool {
    start as int + length as int <= body.len()
}

impl GCSFileReader {
    /// A reader of `file`.
    pub fn new(file: SizedFile) -> (r: Self)
        ensures
            r.file == file,
    {
        GCSFileReader { file }
    }

    /// The size of the object, as the listing reported it.
    pub open spec fn spec_length(&self) -> u64 {
        self.file.size
    }

    /// The size of the object, as the listing reported it; no request is made.
    pub fn length(&self) -> (r: u64)
        ensures
            r == self.spec_length(),
    {
        self.file.size
    }

    /// A read that the caller awaits is not available: it always fails with
    /// kind `Other` and a `NotImplemented` error.
    pub fn chunk_reader(&self, _start: u64, _length: usize) -> (r: Result<Vec<u8>, StoreError>)
        ensures
            r matches Err(e) && e.kind == ErrorKind::Other && e.error is NotImplemented,
    {
        Err(StoreError::other(GCSError::NotImplemented(String::from_str("chunk_reader"))))
    }

    /// The bucket and key that this reader's object is downloaded from: its
    /// path cut at the first `/`.
    pub fn bucket_and_key(&self) -> (r: (String, String))
        ensures
            (r.0@, r.1@) == split_at_slash(self.file.path@),
    {
        split_path(self.file.path.as_str())
    }
}

/// Bytes `start .. start + length` of `body`.
fn byte_range(body: &Vec<u8>, start: usize, length: usize) -> (r: Vec<u8>)
    requires
        start + length <= body@.len(),
    ensures
        r@ == body@.subrange(start as int, start + length),
{
    let n: usize = body.len();
    let mut out: Vec<u8> = Vec::new();
    let mut i: usize = 0;
    while i < length
        invariant
            n == body@.len(),
            i <= length,
            start + length <= body@.len(),
            out@ == body@.subrange(start as int, start + i),
        decreases length - i,
    {
        out.push(body[start + i]);
        i = i + 1;
        assert(out@ =~= body@.subrange(start as int, start + i));
    }
    out
}

/// The result of a blocking chunk read of `length` bytes from `start`, given
/// what arrived from its download of the whole object. A `length` of zero asks
/// for the whole object. No result within the wait bound fails with kind
/// `TimedOut`; a failure of the service, or a range past the object's end,
/// fails with kind `Other`; both carry a `GCS` error.
pub fn complete_sync_read(start: u64, length: usize, outcome: BridgeOutcome) -> (r: Result<
    Vec<u8>,
    StoreError,
>)
    ensures
        match outcome {
            BridgeOutcome::NoResult(d) => r matches Err(e) && e.kind == ErrorKind::TimedOut
                && e.error == GCSError::GCS(d),
            BridgeOutcome::Delivered(Err(d)) => r matches Err(e) && e.kind == ErrorKind::Other
                && e.error == GCSError::GCS(d),
            BridgeOutcome::Delivered(Ok(body)) => if length == 0 {
                r matches Ok(b) && b@ == body@
            } else if range_in(body@, start, length) {
                r matches Ok(b) && b@ == body@.subrange(start as int, start + length)
            } else {
                r matches Err(e) && e.kind == ErrorKind::Other && e.error is GCS
            },
        },
        length > 0 ==> (r matches Ok(b) ==> b@.len() == length),
{
    match outcome {
        BridgeOutcome::NoResult(d) => Err(StoreError::timed_out(GCSError::GCS(d))),
        BridgeOutcome::Delivered(Err(d)) => Err(StoreError::remote(d)),
        BridgeOutcome::Delivered(Ok(body)) => {
            if length == 0 {
                Ok(body)
            } else if start > body.len() as u64 || length as u64 > body.len() as u64 - start {
                Err(StoreError::remote(String::from_str("requested range is past the end of the object")))
            } else {
                Ok(byte_range(&body, start as usize, length))
            }
        },
    }
}

/// The length of a reader is the size that the listing reported for its file.
pub proof fn lemma_length_is_listed_size(file: SizedFile, reader: GCSFileReader)
    requires
        reader.file == file,
    ensures
        reader.spec_length() == file.size,
{
}

} // verus!
