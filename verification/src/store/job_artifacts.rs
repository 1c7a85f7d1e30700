//! Artifacts a job leaves behind: the checks on an artifact before it is stored, and the
//! limit on how many a job keeps.

use vstd::prelude::*;

use super::error::StoreError;
use super::jobs::{job_id_spec, normalize_job_id};
use crate::text::{chars_of, string_of, trim_seq, trim_str, utf8_len, utf8_len_exceeds};

verus! {

broadcast use vstd::string::group_string_axioms;

/// The longest artifact content, in bytes.
pub const MAX_JOB_ARTIFACT_LEN: usize = 512_000;

/// The most artifacts one job keeps.
pub const MAX_ARTIFACTS_PER_JOB: usize = 8;

/// The longest artifact key, in bytes.
pub const MAX_ARTIFACT_KEY_LEN: usize = 128;

/// An artifact a job stores (or replaces, under the same key).
#[derive(Clone, Debug)]
pub struct JobArtifactCreateRequest {
    pub job_id: String,
    pub artifact_key: String,
    pub content_text: String,
}

/// A checked artifact: the job id, the trimmed key, the content and its length in bytes.
#[derive(Clone, Debug)]
pub struct JobArtifactDraft {
    pub job_id: String,
    pub artifact_key: String,
    pub content_text: String,
    pub content_len: usize,
}

/// The checks on an artifact, in order: a valid job id, a key that is not blank and at most
/// 128 bytes once trimmed, and content of at most 512000 bytes.
pub open spec fn artifact_error(req: JobArtifactCreateRequest) -> Option<Seq<char>> {
    let key = trim_seq(req.artifact_key@);
    match job_id_spec(req.job_id@) {
        Err(m) => Some(m),
        Ok(_) => if key.len() == 0 {
            Some("job_artifact.artifact_key must not be empty"@)
        } else if utf8_len(key) > MAX_ARTIFACT_KEY_LEN {
            Some("job_artifact.artifact_key is too long"@)
        } else if utf8_len(req.content_text@) > MAX_JOB_ARTIFACT_LEN {
            Some("job_artifact.content_text exceeds max length (512KB)"@)
        } else {
            None
        },
    }
}

/// Checks an artifact before it is stored.
pub fn check_job_artifact(request: &JobArtifactCreateRequest) -> (r: Result<JobArtifactDraft, StoreError>)
    ensures
        match artifact_error(*request) {
            Some(m) => r matches Err(StoreError::InvalidInput(x)) && x@ == m,
            None => r matches Ok(d) && {
                &&& job_id_spec(request.job_id@) == Ok::<Seq<char>, Seq<char>>(d.job_id@)
                &&& d.artifact_key@ == trim_seq(request.artifact_key@)
                &&& d.content_text@ == request.content_text@
                &&& d.content_len == utf8_len(request.content_text@)
            },
        },
{
    let job_id = normalize_job_id(request.job_id.as_str())?;
    let key = trim_str(request.artifact_key.as_str());
    if key.len() == 0 {
        return Err(StoreError::InvalidInput("job_artifact.artifact_key must not be empty"));
    }
    if utf8_len_exceeds(key.as_slice(), MAX_ARTIFACT_KEY_LEN) {
        return Err(StoreError::InvalidInput("job_artifact.artifact_key is too long"));
    }
    let content = chars_of(request.content_text.as_str());
    if utf8_len_exceeds(content.as_slice(), MAX_JOB_ARTIFACT_LEN) {
        return Err(StoreError::InvalidInput("job_artifact.content_text exceeds max length (512KB)"));
    }
    let content_len = crate::text::utf8_len_of(content.as_slice());
    Ok(
        JobArtifactDraft {
            job_id,
            artifact_key: string_of(key.as_slice()),
            content_text: string_of(content.as_slice()),
            content_len,
        },
    )
}

/// Whether an artifact may be stored for a job that has `count` artifacts, given whether one
/// with the same key is among them (a replacement): a new key is refused once the job holds
/// the maximum.
pub fn check_artifact_room(count: usize, key_exists: bool) -> (r: Result<(), StoreError>)
    ensures
        r is Ok <==> (count < MAX_ARTIFACTS_PER_JOB || key_exists),
        r is Err ==> (r matches Err(StoreError::InvalidInput(m)) && m@
            == "job_artifact: max artifacts per job exceeded (8)"@),
{
    if count >= MAX_ARTIFACTS_PER_JOB && !key_exists {
        return Err(StoreError::InvalidInput("job_artifact: max artifacts per job exceeded (8)"));
    }
    Ok(())
}

/// The number of artifacts a job holds after an accepted store: one more for a new key, the
/// same for a replacement.
pub open spec fn count_after(count: nat, key_exists: bool) -> nat {
    if key_exists {
        count
    } else {
        count + 1
    }
}

/// A job never holds more than eight artifacts: from any count within the limit, every store
/// the room check accepts leaves the count within the limit.
pub proof fn lemma_artifacts_stay_bounded(count: nat, key_exists: bool)
    requires
        count <= MAX_ARTIFACTS_PER_JOB,
        count < MAX_ARTIFACTS_PER_JOB || key_exists,
    ensures
        count_after(count, key_exists) <= MAX_ARTIFACTS_PER_JOB,
{
}

} // verus!
