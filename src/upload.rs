//! One upload: the message's body is checked to be a JSON document, stored
//! under the key of its height, and the outcome is recorded in the counter.

use vstd::prelude::*;

use crate::key::{key_of, object_key};
use crate::stats::Stats;

verus! {

/// One block-stream message: the block's height, which names the object,
/// and its JSON encoding, which becomes the object's body.
pub struct BlockMessage {
    pub height: u64,
    pub payload: Vec<u8>,
}

/// A put-object call to make: the key and the body to write under it.
pub struct PutRequest {
    pub key: String,
    pub body: Vec<u8>,
}

/// Why one upload failed.
pub enum UploadError {
    /// The payload is not one well-formed JSON document.
    Malformed,
    /// The object store refused or lost the write; the text is its cause.
    Store(String),
}

/// The outcome of one upload, naming the block it was about.
pub enum UploadResult {
    Success { height: u64 },
    Failure { height: u64, error: UploadError },
}

impl UploadResult {
    /// The height of the block this result is about.
    pub open spec fn height_of(&self) -> u64 {
        match self {
            UploadResult::Success { height } => *height,
            UploadResult::Failure { height, .. } => *height,
        }
    }

    pub fn is_success(&self) -> (r: bool)
        ensures
            r == (self is Success),
    {
        match self {
            UploadResult::Success { .. } => true,
            UploadResult::Failure { .. } => false,
        }
    }

    pub fn height(&self) -> (r: u64)
        ensures
            r == self.height_of(),
    {
        match self {
            UploadResult::Success { height } => *height,
            UploadResult::Failure { height, .. } => *height,
        }
    }
}

/// Whether the bytes are exactly one JSON document, as serde_json reads it.
pub uninterp spec fn json_document(b: Seq<u8>) -> bool;

/// Relies on `serde_json::from_slice` (into `serde_json::Value`): it succeeds
/// exactly on byte strings that hold one JSON document and nothing else, and
/// its outcome depends on the bytes alone.
#[verifier::external_body]
fn is_json_document(b: &Vec<u8>) -> (r: bool)
    ensures
        r == json_document(b@),
{
    serde_json::from_slice::<serde_json::Value>(b.as_slice()).is_ok()
}

/// The count after an upload with the given outcome.
pub open spec fn counted(count: nat, ok: bool) -> nat {
    if ok {
        count + 1
    } else {
        count
    }
}

/// Builds the put-object call for `msg`, given whether its payload is a
/// well-formed JSON document.
pub fn build_request(prefix: &str, msg: BlockMessage, well_formed: bool) -> (r: Result<
    PutRequest,
    UploadError,
>)
    ensures
        well_formed ==> (r matches Ok(req) && req.key@ == key_of(prefix@, msg.height as nat)
            && req.body@ == msg.payload@),
        !well_formed ==> r matches Err(UploadError::Malformed),
{
    if well_formed {
        let key = object_key(prefix, msg.height);
        Ok(PutRequest { key, body: msg.payload })
    } else {
        Err(UploadError::Malformed)
    }
}

/// Builds the put-object call for `msg`: its body is the payload, its key
/// `<prefix>/<height>.json`. A payload that is not a JSON document is refused.
pub fn prepare_upload(prefix: &str, msg: BlockMessage) -> (r: Result<PutRequest, UploadError>)
    ensures
        json_document(msg.payload@) ==> (r matches Ok(req) && req.key@ == key_of(
            prefix@,
            msg.height as nat,
        ) && req.body@ == msg.payload@),
        !json_document(msg.payload@) ==> r matches Err(UploadError::Malformed),
{
    let well_formed = is_json_document(&msg.payload);
    build_request(prefix, msg, well_formed)
}

/// Ends the upload of the block at `height`: a success adds one to `stats`,
/// a failure leaves it as it was. Either way the result names the block.
pub fn finish_upload(stats: &mut Stats, height: u64, outcome: Result<(), UploadError>) -> (r:
    UploadResult)
    requires
        old(stats).count() < u64::MAX,
    ensures
        final(stats).count() == counted(old(stats).count(), outcome is Ok),
        r.height_of() == height,
        (r is Success) == (outcome is Ok),
        outcome matches Err(e) ==> r == (UploadResult::Failure { height, error: e }),
{
    match outcome {
        Ok(()) => {
            stats.increment();
            UploadResult::Success { height }
        },
        Err(error) => UploadResult::Failure { height, error },
    }
}

/// Storing one message twice writes the same key both times, and each
/// successful store is counted on its own: the count rises by two.
pub proof fn lemma_reupload_counted_twice(prefix: Seq<char>, a: BlockMessage, b: BlockMessage, count: nat)
    requires
        a.height == b.height,
    ensures
        key_of(prefix, a.height as nat) == key_of(prefix, b.height as nat),
        counted(counted(count, true), true) == count + 2,
{
}

} // verus!
