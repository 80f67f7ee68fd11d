use codspeed::cli::run::helpers::download_file::{
    check_digest, download_pinned_file, Attempt, AttemptError, Download, DownloadStep,
    DOWNLOAD_RETRY_COUNT,
};
use codspeed::executor::wall_time::executor::ExecutorName;
use codspeed::request_client::{
    classify_status, is_success, oidc_backoff, upload_backoff, Retryable, Retrying,
    UPLOAD_RETRY_COUNT,
};
use codspeed::run_environment::RunEnvironment;
use codspeed::upload::uploader::{
    bytes_to_mib, create_profile_archive, depends_on_size, refusal_reason, retrieve_upload_data,
    run_hash_line, upload, upload_headers, upload_profile_archive, ArchiveForm, DirEntry,
    FolderSize, StreamAttempt, StreamStep, StreamedUpload, UploadData,
    MAX_UNCOMPRESSED_PROFILE_SIZE_BYTES,
};

const GOOD_BODY: &[u8] = b"expected file content";
const BAD_BODY: &[u8] = b"corrupted file content";

fn download() -> Download {
    download_pinned_file(
        "http://127.0.0.1/file",
        &sha256::digest(GOOD_BODY),
        "/tmp/file",
    )
    .unwrap()
}

/// Makes attempts until the download ends: how it ended, after how many attempts, and whether a
/// file was deleted.
fn perform(script: Vec<Attempt>) -> (Result<(), String>, usize, bool) {
    let mut download = download();
    let mut removed = false;
    for (i, attempt) in script.iter().enumerate() {
        let (step, remove) = download.after_attempt(attempt);
        removed = removed || remove;
        match step {
            DownloadStep::Done => return (Ok(()), i + 1, removed),
            DownloadStep::Fail(error) => return (Err(error), i + 1, removed),
            DownloadStep::Retry(_, _) => {}
        }
    }
    panic!("more attempts than expected")
}

#[test]
fn recovers_from_aborted_connection() {
    let (result, attempts, _) = perform(vec![
        Attempt::SendFailed("connection closed".to_owned()),
        Attempt::Written(GOOD_BODY.to_vec()),
    ]);
    result.expect("download should recover from an aborted connection");
    assert_eq!(attempts, 2);
}

#[test]
fn recovers_from_truncated_body() {
    let (result, attempts, _) = perform(vec![
        Attempt::ReadFailed("end of file".to_owned()),
        Attempt::Written(GOOD_BODY.to_vec()),
    ]);
    result.expect("download should recover from a truncated response body");
    assert_eq!(attempts, 2);
}

#[test]
fn fails_after_exhausting_retries_on_truncated_bodies() {
    let attempts = (DOWNLOAD_RETRY_COUNT + 1) as usize;
    let (result, made, _) = perform(
        (0..attempts)
            .map(|_| Attempt::ReadFailed("end of file".to_owned()))
            .collect(),
    );
    let error = result.expect_err("persistent truncated bodies should fail the download");
    assert!(
        error.contains("Failed to read response"),
        "unexpected error: {error}"
    );
    assert_eq!(made, attempts);
}

#[test]
fn retries_server_errors_and_recovers() {
    let (result, attempts, _) = perform(vec![
        Attempt::Refused(500, "500 Internal Server Error".to_owned()),
        Attempt::Written(GOOD_BODY.to_vec()),
    ]);
    result.expect("download should recover from a transient server error");
    assert_eq!(attempts, 2);
}

#[test]
fn does_not_retry_client_errors() {
    let (result, attempts, _) = perform(vec![Attempt::Refused(404, "404 Not Found".to_owned())]);
    let error = result.expect_err("a 404 should fail the download");
    assert!(error.contains("404"), "unexpected error: {error}");
    assert_eq!(attempts, 1);
}

#[test]
fn does_not_retry_hash_mismatch() {
    let (result, attempts, removed) = perform(vec![Attempt::Written(BAD_BODY.to_vec())]);
    let error = result.expect_err("a hash mismatch should fail the download");
    assert!(
        error.contains("Hash mismatch"),
        "unexpected error: {error}"
    );
    assert_eq!(attempts, 1);
    assert!(removed, "partial file should be deleted");
}

#[test]
fn failures_on_disk_are_final() {
    for (attempt, message) in [
        (Attempt::CreateFailed("denied".to_owned()), "Failed to create file: /tmp/file, denied"),
        (Attempt::WriteFailed("full".to_owned()), "Failed to write to file: /tmp/file, full"),
        (Attempt::DigestFailed, "failed to compute sha256 of /tmp/file"),
    ] {
        let (result, attempts, removed) = perform(vec![attempt]);
        assert_eq!(result.unwrap_err(), message);
        assert_eq!(attempts, 1);
        assert!(!removed);
    }
}

#[test]
fn digests_are_compared() {
    assert!(check_digest("u", "ab", "ab").is_ok());
    match check_digest("u", "ab", "cd").unwrap_err() {
        AttemptError::Fatal(message) => assert_eq!(
            message,
            "Hash mismatch for u: expected ab, got cd. The downloaded file has been deleted."
        ),
        AttemptError::Transient(message) => panic!("{message}"),
    }
    assert_eq!(
        download_pinned_file("nowhere", "ab", "/p").unwrap_err(),
        "failed to parse pinned URL"
    );
}

#[test]
fn statuses_are_classified() {
    assert_eq!(classify_status(200), None);
    assert_eq!(classify_status(299), None);
    assert_eq!(classify_status(301), Some(Retryable::Fatal));
    assert_eq!(classify_status(404), Some(Retryable::Fatal));
    assert_eq!(classify_status(408), Some(Retryable::Transient));
    assert_eq!(classify_status(429), Some(Retryable::Transient));
    assert_eq!(classify_status(503), Some(Retryable::Transient));
    assert_eq!(classify_status(600), Some(Retryable::Fatal));
    assert!(is_success(204));
    assert!(!is_success(304));
}

#[test]
fn retries_are_counted() {
    assert_eq!(upload_backoff().max_retries, 3);
    assert_eq!(oidc_backoff().max_retries, 10);
    let mut retrying = Retrying::new(upload_backoff());
    assert!(retrying.next(false).is_none());
    for _ in 0..UPLOAD_RETRY_COUNT {
        assert!(retrying.next(true).is_some());
    }
    assert!(retrying.next(true).is_none());
}

const EXPECTED_ATTEMPTS: usize = UPLOAD_RETRY_COUNT as usize + 1;

#[test]
fn streamed_upload_is_retried() {
    let mut upload = StreamedUpload::new("/tmp/archive");
    let mut hits = 0;
    let answered = loop {
        hits += 1;
        match upload.send_streamed_with_retry(StreamAttempt::Answered(503)) {
            StreamStep::Retry(_) => {}
            StreamStep::Answer => break true,
            StreamStep::Fail(_) => break false,
        }
    };
    assert!(answered);
    assert!(
        upload_profile_archive(503, "503 Service Unavailable", "transient").is_some(),
        "a 503 should surface as an error after retries"
    );
    assert_eq!(
        hits, EXPECTED_ATTEMPTS,
        "streamed upload should be attempted 1 + UPLOAD_RETRY_COUNT times"
    );
}

#[test]
fn final_upload_failures_are_not_retried() {
    let mut upload = StreamedUpload::new("/tmp/archive");
    match upload.send_streamed_with_retry(StreamAttempt::OpenFailed) {
        StreamStep::Fail(error) => assert_eq!(error, "Failed to open file at path: /tmp/archive"),
        other => panic!("{other:?}"),
    }
    match upload.send_streamed_with_retry(StreamAttempt::SendFailed {
        error: "builder".to_owned(),
        transient: false,
    }) {
        StreamStep::Fail(error) => assert_eq!(error, "builder"),
        other => panic!("{other:?}"),
    }
    assert!(matches!(
        upload.send_streamed_with_retry(StreamAttempt::Answered(400)),
        StreamStep::Answer
    ));
    assert!(matches!(
        upload.send_streamed_with_retry(StreamAttempt::SendFailed {
            error: "timeout".to_owned(),
            transient: true,
        }),
        StreamStep::Retry(_)
    ));
}

#[test]
fn folders_are_summed_up() {
    let mut size = FolderSize::new("/p");
    assert_eq!(size.next_dir().as_deref(), Some("/p"));
    size.visit(&vec![
        DirEntry::File(10),
        DirEntry::Dir("/p/a".to_owned()),
        DirEntry::Other,
        DirEntry::Dir("/p/b".to_owned()),
    ]);
    assert_eq!(size.next_dir().as_deref(), Some("/p/b"));
    size.visit(&vec![DirEntry::File(5)]);
    assert_eq!(size.next_dir().as_deref(), Some("/p/a"));
    assert!(size.next_dir().is_none());
    assert_eq!(size.total_size, 15);
}

#[test]
fn large_archives_are_compressed() {
    assert_eq!(MAX_UNCOMPRESSED_PROFILE_SIZE_BYTES, 1024 * 1024 * 1024 * 5);
    assert_eq!(bytes_to_mib(MAX_UNCOMPRESSED_PROFILE_SIZE_BYTES), 5120);
    assert_eq!(bytes_to_mib(1024 * 1024 - 1), 0);
    assert!(!depends_on_size(ExecutorName::Valgrind));
    assert!(depends_on_size(ExecutorName::Memory));
    let (form, _) = create_profile_archive(ExecutorName::Valgrind, 0);
    assert_eq!(form, ArchiveForm::CompressedInMemory);
    let (form, text) =
        create_profile_archive(ExecutorName::WallTime, MAX_UNCOMPRESSED_PROFILE_SIZE_BYTES - 1);
    assert_eq!(form, ArchiveForm::UncompressedOnDisk);
    assert_eq!(
        text,
        "Profile folder size (5119 MiB) is below threshold (5120 MiB), creating uncompressed tar archive on disk"
    );
    let (form, _) =
        create_profile_archive(ExecutorName::Memory, MAX_UNCOMPRESSED_PROFILE_SIZE_BYTES);
    assert_eq!(form, ArchiveForm::UncompressedOnDisk);
    let (form, text) =
        create_profile_archive(ExecutorName::Memory, MAX_UNCOMPRESSED_PROFILE_SIZE_BYTES + 1);
    assert_eq!(form, ArchiveForm::CompressedOnDisk);
    assert!(text.contains("exceeds threshold"));
}

#[test]
fn refusals_come_with_advice() {
    let reason = |status: u16, environment: RunEnvironment, url: Option<&str>| {
        refusal_reason(status, "{}".to_owned(), Some("denied".to_owned()), environment, url)
    };
    assert_eq!(reason(403, RunEnvironment::Local, None), "denied");
    assert_eq!(
        reason(401, RunEnvironment::Local, None),
        "denied\n\nRun `codspeed auth login` to authenticate the CLI."
    );
    assert_eq!(
        reason(401, RunEnvironment::GithubActions, Some("https://docs")),
        "denied\n\nCheck that the workflow is correctly authenticated. View more at https://docs"
    );
    assert!(reason(401, RunEnvironment::Circleci, None).contains("CI job"));
    assert!(reason(401, RunEnvironment::GitlabCi, None).contains("CI job"));
    assert!(reason(401, RunEnvironment::Buildkite, None).contains("CODSPEED_TOKEN"));
    assert_eq!(
        refusal_reason(500, "plain".to_owned(), None, RunEnvironment::Local, None),
        "plain"
    );
}

#[test]
fn failed_requests_name_status_and_reason() {
    let message = retrieve_upload_data(
        500,
        "500 Internal Server Error",
        "oops".to_owned(),
        None,
        RunEnvironment::Local,
        None,
    )
    .unwrap();
    assert_eq!(
        console::strip_ansi_codes(&message),
        "Failed to retrieve upload data: 500 Internal Server Error\n  -> Reason: oops"
    );
    assert!(retrieve_upload_data(200, "200 OK", String::new(), None, RunEnvironment::Local, None)
        .is_none());
    assert!(upload_profile_archive(201, "201 Created", "").is_none());
    assert_eq!(
        console::strip_ansi_codes(&upload_profile_archive(403, "403 Forbidden", "no").unwrap()),
        "Failed to upload performance report: 403 Forbidden\n  -> Reason: no"
    );
}

#[test]
fn uploads_have_headers() {
    let headers = upload_headers(12, "md5==", Some("gzip"));
    assert_eq!(
        headers,
        vec![
            ("Content-Type", "application/x-tar".to_owned()),
            ("Content-Length", "12".to_owned()),
            ("Content-MD5", "md5==".to_owned()),
            ("Content-Encoding", "gzip".to_owned()),
        ]
    );
    assert_eq!(upload_headers(12, "md5==", None).len(), 3);
}

#[test]
fn uploads_give_run_and_repository() {
    let data = UploadData {
        status: "success".to_string(),
        upload_url: "http://u".to_string(),
        run_id: "test-run".to_string(),
    };
    let result = upload(data, "owner", "repo").clone();
    assert_eq!(result.run_id, "test-run");
    assert_eq!(result.owner, "owner");
    assert_eq!(result.repository, "repo");
    assert_eq!(run_hash_line(true, "abc").as_deref(), Some("CodSpeed Run Hash: \"abc\""));
    assert!(run_hash_line(false, "abc").is_none());
}
