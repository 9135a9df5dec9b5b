//! Keeping the local table file in step with its remote copy. Nothing here
//! touches a file or the network: each function takes where the work stands and
//! what just happened, and says what to do next. The caller does it and reports
//! back.

use vstd::prelude::*;
use vstd::string::StringExecFns;

verus! {

/// Where the remote copy lives and where the local file lies.
#[derive(Clone)]
pub struct S3Config {
    /// Bucket of the remote store.
    pub bucket: String,
    /// Key of the remote copy.
    pub key: String,
    /// Path of the local table file.
    pub local_path: String,
}

/// Where the recovery at start stands.
#[derive(Clone, Copy, Debug, PartialEq, Eq, Structural)]
pub enum ColdStart {
    /// Nothing was done yet.
    Start,
    /// The local file is being looked for.
    Probing,
    /// The remote copy is being fetched.
    Fetching,
    /// The fetched copy is being written to the local file.
    Writing,
    /// The service can begin.
    Finished,
}

/// What happened during recovery.
pub enum ColdStartEvent {
    /// The process started.
    Begin,
    /// The local file exists.
    LocalFound,
    /// There is no local file.
    LocalMissing,
    /// The remote copy arrived.
    Fetched(Vec<u8>),
    /// The remote copy is absent or could not be fetched.
    FetchFailed(String),
    /// The local file was written.
    Written,
    /// The local file could not be written.
    WriteFailed(String),
}

/// In which condition the service begins.
pub enum StartKind {
    /// With the local file that was found.
    Warm,
    /// With the remote copy, now in the local file.
    Restored,
    /// With a fresh, empty table, because the remote copy could not be had. The
    /// warning says why.
    Fresh {
        /// Why the remote copy could not be had.
        warning: String,
    },
}

/// What to do next during recovery.
pub enum ColdStartAction {
    /// Look whether the file at `path` exists.
    ProbeLocal {
        /// Path of the local file.
        path: String,
    },
    /// Fetch the object `key` from `bucket`.
    FetchRemote {
        /// Bucket to fetch from.
        bucket: String,
        /// Key to fetch.
        key: String,
    },
    /// Write `data` to the file at `path`.
    WriteLocal {
        /// Path of the local file.
        path: String,
        /// What to write.
        data: Vec<u8>,
    },
    /// Begin to serve.
    Proceed(StartKind),
    /// The event does not belong here: do nothing.
    Ignore,
}

/// What a failed fetch is reported as.
pub open spec fn fetch_warning(reason: Seq<char>) -> Seq<char> {
    "Failed to fetch from S3: "@ + reason
}

/// What a failed upload is reported as.
pub open spec fn upload_warning(reason: Seq<char>) -> Seq<char> {
    "Failed to upload to S3: "@ + reason
}

/// One step of the recovery at start. A local file that exists is used as it is
/// and nothing is fetched. Without one the remote copy is fetched and written to
/// the local path. Where that fails, at the fetch or at the write, the service
/// still begins, with a fresh table and a warning: no path ends in a failure. An
/// event that the state does not wait for changes nothing.
pub fn ensure_db_exists(config: &S3Config, state: ColdStart, event: ColdStartEvent) -> (next: (
    ColdStart,
    ColdStartAction,
))
    ensures
        match (state, event) {
            (ColdStart::Start, ColdStartEvent::Begin) => {
                &&& next.0 == ColdStart::Probing
                &&& next.1 matches ColdStartAction::ProbeLocal { path }
                &&& path@ == config.local_path@
            },
            (ColdStart::Probing, ColdStartEvent::LocalFound) => {
                &&& next.0 == ColdStart::Finished
                &&& next.1 matches ColdStartAction::Proceed(StartKind::Warm)
            },
            (ColdStart::Probing, ColdStartEvent::LocalMissing) => {
                &&& next.0 == ColdStart::Fetching
                &&& next.1 matches ColdStartAction::FetchRemote { bucket, key }
                &&& bucket@ == config.bucket@
                &&& key@ == config.key@
            },
            (ColdStart::Fetching, ColdStartEvent::Fetched(bytes)) => {
                &&& next.0 == ColdStart::Writing
                &&& next.1 matches ColdStartAction::WriteLocal { path, data }
                &&& path@ == config.local_path@
                &&& data@ == bytes@
            },
            (ColdStart::Fetching, ColdStartEvent::FetchFailed(reason)) => {
                &&& next.0 == ColdStart::Finished
                &&& next.1 matches ColdStartAction::Proceed(StartKind::Fresh { warning })
                &&& warning@ == fetch_warning(reason@)
            },
            (ColdStart::Writing, ColdStartEvent::Written) => {
                &&& next.0 == ColdStart::Finished
                &&& next.1 matches ColdStartAction::Proceed(StartKind::Restored)
            },
            (ColdStart::Writing, ColdStartEvent::WriteFailed(reason)) => {
                &&& next.0 == ColdStart::Finished
                &&& next.1 matches ColdStartAction::Proceed(StartKind::Fresh { warning })
                &&& warning@ == reason@
            },
            _ => next.0 == state && next.1 is Ignore,
        },
{
    match (state, event) {
        (ColdStart::Start, ColdStartEvent::Begin) => (
            ColdStart::Probing,
            ColdStartAction::ProbeLocal { path: config.local_path.clone() },
        ),
        (ColdStart::Probing, ColdStartEvent::LocalFound) => (
            ColdStart::Finished,
            ColdStartAction::Proceed(StartKind::Warm),
        ),
        (ColdStart::Probing, ColdStartEvent::LocalMissing) => (
            ColdStart::Fetching,
            ColdStartAction::FetchRemote { bucket: config.bucket.clone(), key: config.key.clone() },
        ),
        (ColdStart::Fetching, ColdStartEvent::Fetched(bytes)) => (
            ColdStart::Writing,
            ColdStartAction::WriteLocal { path: config.local_path.clone(), data: bytes },
        ),
        (ColdStart::Fetching, ColdStartEvent::FetchFailed(reason)) => {
            let warning: String = String::from_str("Failed to fetch from S3: ").concat(
                reason.as_str(),
            );
            (ColdStart::Finished, ColdStartAction::Proceed(StartKind::Fresh { warning }))
        },
        (ColdStart::Writing, ColdStartEvent::Written) => (
            ColdStart::Finished,
            ColdStartAction::Proceed(StartKind::Restored),
        ),
        (ColdStart::Writing, ColdStartEvent::WriteFailed(reason)) => (
            ColdStart::Finished,
            ColdStartAction::Proceed(StartKind::Fresh { warning: reason }),
        ),
        _ => (state, ColdStartAction::Ignore),
    }
}

/// Where the push of the local file to the remote store stands.
#[derive(Clone, Copy, Debug, PartialEq, Eq, Structural)]
pub enum Flush {
    /// Nothing was done yet.
    Start,
    /// The local file is being read.
    Reading,
    /// The file's content is being uploaded.
    Uploading,
    /// The push is over.
    Finished,
}

/// What happened during a push.
pub enum FlushEvent {
    /// The table was replaced.
    Begin,
    /// The whole local file was read.
    Read(Vec<u8>),
    /// The local file could not be read.
    ReadFailed(String),
    /// The upload succeeded.
    Uploaded,
    /// The upload failed.
    UploadFailed(String),
}

/// What to do next during a push.
pub enum FlushAction {
    /// Read the whole file at `path`.
    ReadLocal {
        /// Path of the local file.
        path: String,
    },
    /// Store `body` as the object `key` of `bucket`, over whatever is there.
    PutRemote {
        /// Bucket to write to.
        bucket: String,
        /// Key to write.
        key: String,
        /// The file's content.
        body: Vec<u8>,
    },
    /// The push is over: it succeeded, or it failed for the reason given. The
    /// table stays as written either way.
    Done(Result<(), String>),
    /// The event does not belong here: do nothing.
    Ignore,
}

/// One step of the push that follows every replacement of the table: the whole
/// local file is read and stored under the configured key of the configured
/// bucket. A failure at either step ends the push with its reason. An event that
/// the state does not wait for changes nothing.
pub fn upload_db(config: &S3Config, state: Flush, event: FlushEvent) -> (next: (Flush, FlushAction))
    ensures
        match (state, event) {
            (Flush::Start, FlushEvent::Begin) => {
                &&& next.0 == Flush::Reading
                &&& next.1 matches FlushAction::ReadLocal { path }
                &&& path@ == config.local_path@
            },
            (Flush::Reading, FlushEvent::Read(bytes)) => {
                &&& next.0 == Flush::Uploading
                &&& next.1 matches FlushAction::PutRemote { bucket, key, body }
                &&& bucket@ == config.bucket@
                &&& key@ == config.key@
                &&& body@ == bytes@
            },
            (Flush::Reading, FlushEvent::ReadFailed(reason)) => {
                &&& next.0 == Flush::Finished
                &&& next.1 matches FlushAction::Done(Err(why))
                &&& why@ == reason@
            },
            (Flush::Uploading, FlushEvent::Uploaded) => {
                &&& next.0 == Flush::Finished
                &&& next.1 matches FlushAction::Done(Ok(_))
            },
            (Flush::Uploading, FlushEvent::UploadFailed(reason)) => {
                &&& next.0 == Flush::Finished
                &&& next.1 matches FlushAction::Done(Err(why))
                &&& why@ == upload_warning(reason@)
            },
            _ => next.0 == state && next.1 is Ignore,
        },
{
    match (state, event) {
        (Flush::Start, FlushEvent::Begin) => (
            Flush::Reading,
            FlushAction::ReadLocal { path: config.local_path.clone() },
        ),
        (Flush::Reading, FlushEvent::Read(bytes)) => (
            Flush::Uploading,
            FlushAction::PutRemote {
                bucket: config.bucket.clone(),
                key: config.key.clone(),
                body: bytes,
            },
        ),
        (Flush::Reading, FlushEvent::ReadFailed(reason)) => (
            Flush::Finished,
            FlushAction::Done(Err(reason)),
        ),
        (Flush::Uploading, FlushEvent::Uploaded) => (Flush::Finished, FlushAction::Done(Ok(()))),
        (Flush::Uploading, FlushEvent::UploadFailed(reason)) => {
            let why: String = String::from_str("Failed to upload to S3: ").concat(reason.as_str());
            (Flush::Finished, FlushAction::Done(Err(why)))
        },
        _ => (state, FlushAction::Ignore),
    }
}

} // verus!
