use bm_storage::store::error::StoreError;
use bm_storage::store::job_artifacts::{check_artifact_room, check_job_artifact, JobArtifactCreateRequest};

fn invalid<T: std::fmt::Debug>(r: Result<T, StoreError>) -> &'static str {
    match r {
        Err(StoreError::InvalidInput(m)) => m,
        other => panic!("expected invalid input, got {other:?}"),
    }
}

fn request(job: &str, key: &str, content: &str) -> JobArtifactCreateRequest {
    JobArtifactCreateRequest {
        job_id: job.to_string(),
        artifact_key: key.to_string(),
        content_text: content.to_string(),
    }
}

#[test]
fn artifacts_are_checked() {
    let d = check_job_artifact(&request(" JOB-001 ", " report ", "héllo")).unwrap();
    assert_eq!(d.job_id, "JOB-001");
    assert_eq!(d.artifact_key, "report");
    assert_eq!(d.content_text, "héllo");
    assert_eq!(d.content_len, 6);

    assert_eq!(invalid(check_job_artifact(&request("JOB-1", "k", ""))), "job id must have at least 3 digits");
    assert_eq!(
        invalid(check_job_artifact(&request("JOB-001", "  ", ""))),
        "job_artifact.artifact_key must not be empty"
    );
    assert_eq!(
        invalid(check_job_artifact(&request("JOB-001", &"k".repeat(129), ""))),
        "job_artifact.artifact_key is too long"
    );
    assert_eq!(
        invalid(check_job_artifact(&request("JOB-001", "k", &"x".repeat(512_001)))),
        "job_artifact.content_text exceeds max length (512KB)"
    );
}

#[test]
fn a_job_keeps_at_most_eight_artifacts() {
    assert!(check_artifact_room(7, false).is_ok());
    assert!(check_artifact_room(8, true).is_ok());
    assert_eq!(
        invalid(check_artifact_room(8, false)),
        "job_artifact: max artifacts per job exceeded (8)"
    );
}
