//! Downloads of files whose contents are known in advance by their digest.
use vstd::prelude::*;

use crate::address::parse_url;
use crate::request_client::{classify_status, Backoff, Retryable, Retrying};
use crate::text::{concat, str_eq};
use std::time::Duration;

verus! {

/// How often a download is tried again.
pub const DOWNLOAD_RETRY_COUNT: u32 = 5;

/// How downloads are tried again.
pub fn download_backoff() -> (r: Backoff)
    ensures
        r == (Backoff { min_secs: 1, max_secs: 30, max_retries: DOWNLOAD_RETRY_COUNT }),
{
    Backoff { min_secs: 1, max_secs: 30, max_retries: DOWNLOAD_RETRY_COUNT }
}

// ---------------------------------------------------------------------------------------------
// One attempt
// ---------------------------------------------------------------------------------------------

/// How an attempt failed: for good, or for a reason that may pass.
#[derive(Debug)]
pub enum AttemptError {
    Fatal(String),
    Transient(String),
}

pub enum AttemptErrorView {
    Fatal(Seq<char>),
    Transient(Seq<char>),
}

impl View for AttemptError {
    type V = AttemptErrorView;

    open spec fn view(&self) -> AttemptErrorView {
        match self {
            AttemptError::Fatal(message) => AttemptErrorView::Fatal(message@),
            AttemptError::Transient(message) => AttemptErrorView::Transient(message@),
        }
    }
}

/// The view of what came of an attempt.
pub open spec fn attempt_view(r: Result<(), AttemptError>) -> Result<(), AttemptErrorView> {
    match r {
        Ok(()) => Ok(()),
        Err(error) => Err(error@),
    }
}

/// What happened in an attempt. The texts are those of errors.
#[derive(Debug)]
pub enum Attempt {
    /// The request could not be made.
    SendFailed(String),
    /// The answer has this status, which is no success, and which reads so.
    Refused(u16, String),
    /// The answer could not be read.
    ReadFailed(String),
    /// The file could not be made.
    CreateFailed(String),
    /// The file could not be written.
    WriteFailed(String),
    /// The file could not be read.
    DigestFailed,
    /// The file was written, and holds this.
    Written(Vec<u8>),
}

/// The SHA-256 of bytes in hexadecimal digits.
pub uninterp spec fn sha256_hex(content: Seq<u8>) -> Seq<char>;

/// `sha256::digest`: the SHA-256 of bytes in hexadecimal digits.
#[verifier::external_body]
fn sha256_digest(content: &Vec<u8>) -> (r: String)
    ensures
        r@ == sha256_hex(content@),
{
    sha256::digest(content)
}

/// What to say of a file that is not the expected one.
pub open spec fn mismatch_text(url: Seq<char>, expected: Seq<char>, actual: Seq<char>) -> Seq<char> {
    "Hash mismatch for "@ + url + ": expected "@ + expected + ", got "@ + actual
        + ". The downloaded file has been deleted."@
}

/// What comes of a file with the digest `actual`.
pub open spec fn checked(url: Seq<char>, expected: Seq<char>, actual: Seq<char>) -> Result<
    (),
    AttemptErrorView,
> {
    if actual == expected {
        Ok(())
    } else {
        Err(AttemptErrorView::Fatal(mismatch_text(url, expected, actual)))
    }
}

/// Whether a file with the digest `actual` is the expected one.
pub fn check_digest(url: &str, expected: &str, actual: &str) -> (r: Result<(), AttemptError>)
    ensures
        attempt_view(r) == checked(url@, expected@, actual@),
{
    if str_eq(actual, expected) {
        return Ok(());
    }
    let mut text = "Hash mismatch for ".to_owned();
    text.append(url);
    text.append(": expected ");
    text.append(expected);
    text.append(", got ");
    text.append(actual);
    text.append(". The downloaded file has been deleted.");
    Err(AttemptError::Fatal(text))
}

/// What comes of an attempt.
pub open spec fn attempted(
    attempt: Attempt,
    url: Seq<char>,
    expected: Seq<char>,
    path: Seq<char>,
) -> Result<(), AttemptErrorView> {
    match attempt {
        Attempt::SendFailed(e) => Err(
            AttemptErrorView::Transient("Failed to download file: "@ + e@),
        ),
        Attempt::Refused(status, text) => if crate::request_client::retryable_status(status) == Some(
            Retryable::Transient,
        ) {
            Err(AttemptErrorView::Transient("Failed to download file: "@ + text@))
        } else {
            Err(AttemptErrorView::Fatal("Failed to download file: "@ + text@))
        },
        Attempt::ReadFailed(e) => Err(AttemptErrorView::Transient("Failed to read response: "@ + e@)),
        Attempt::CreateFailed(e) => Err(
            AttemptErrorView::Fatal("Failed to create file: "@ + path + ", "@ + e@),
        ),
        Attempt::WriteFailed(e) => Err(
            AttemptErrorView::Fatal("Failed to write to file: "@ + path + ", "@ + e@),
        ),
        Attempt::DigestFailed => Err(
            AttemptErrorView::Fatal("failed to compute sha256 of "@ + path),
        ),
        Attempt::Written(content) => checked(url, expected, sha256_hex(content@)),
    }
}

fn concat_path(a: &str, path: &str, b: &str) -> (r: String)
    ensures
        r@ == a@ + path@ + ", "@ + b@,
{
    let mut text = a.to_owned();
    text.append(path);
    text.append(", ");
    text.append(b);
    text
}

/// What comes of an attempt to download a file and to make sure of its contents.
pub fn download_and_verify_once(attempt: &Attempt, url: &str, expected_sha256: &str, path: &str) -> (r:
    Result<(), AttemptError>)
    ensures
        attempt_view(r) == attempted(*attempt, url@, expected_sha256@, path@),
{
    match attempt {
        Attempt::SendFailed(e) => Err(
            AttemptError::Transient(concat("Failed to download file: ", e.as_str())),
        ),
        Attempt::Refused(status, text) => {
            let message = concat("Failed to download file: ", text.as_str());
            match classify_status(*status) {
                Some(Retryable::Transient) => Err(AttemptError::Transient(message)),
                _ => Err(AttemptError::Fatal(message)),
            }
        },
        Attempt::ReadFailed(e) => Err(
            AttemptError::Transient(concat("Failed to read response: ", e.as_str())),
        ),
        Attempt::CreateFailed(e) => Err(
            AttemptError::Fatal(concat_path("Failed to create file: ", path, e.as_str())),
        ),
        Attempt::WriteFailed(e) => Err(
            AttemptError::Fatal(concat_path("Failed to write to file: ", path, e.as_str())),
        ),
        Attempt::DigestFailed => Err(
            AttemptError::Fatal(concat("failed to compute sha256 of ", path)),
        ),
        Attempt::Written(content) => {
            let actual = sha256_digest(content);
            check_digest(url, expected_sha256, actual.as_str())
        },
    }
}

// ---------------------------------------------------------------------------------------------
// All attempts
// ---------------------------------------------------------------------------------------------

/// What is done after an attempt.
#[derive(Debug)]
pub enum DownloadStep {
    /// The file is there.
    Done,
    /// The attempt failed for this reason; there is another after this time.
    Retry(Duration, String),
    /// The download fails for this reason.
    Fail(String),
}

/// A download.
#[derive(Debug)]
pub struct Download {
    pub url: String,
    pub expected_sha256: String,
    pub path: String,
    pub retry: Retrying,
}

/// Whether an attempt failed for a reason that may pass.
pub open spec fn is_transient(r: Result<(), AttemptErrorView>) -> bool {
    r matches Err(AttemptErrorView::Transient(_))
}

impl Download {
    /// What comes of an attempt.
    pub open spec fn outcome(self, attempt: Attempt) -> Result<(), AttemptErrorView> {
        attempted(attempt, self.url@, self.expected_sha256@, self.path@)
    }

    /// What is done after an attempt. A file that is not the expected one is deleted: the result
    /// says whether it is.
    pub fn after_attempt(&mut self, attempt: &Attempt) -> (r: (DownloadStep, bool))
        ensures
            final(self).url == old(self).url,
            final(self).expected_sha256 == old(self).expected_sha256,
            final(self).path == old(self).path,
            final(self).retry.policy() == old(self).retry.policy(),
            ({
                let again = crate::request_client::retries(
                    is_transient(old(self).outcome(*attempt)),
                    old(self).retry.past(),
                    old(self).retry.max(),
                );
                &&& final(self).retry.past() == old(self).retry.past() + (if again {
                    1nat
                } else {
                    0
                })
                &&& match old(self).outcome(*attempt) {
                    Ok(()) => r.0 is Done,
                    Err(AttemptErrorView::Fatal(message)) => r.0 matches DownloadStep::Fail(m) && m@
                        == message,
                    Err(AttemptErrorView::Transient(message)) => if again {
                        r.0 matches DownloadStep::Retry(_, m) && m@ == message
                    } else {
                        r.0 matches DownloadStep::Fail(m) && m@ == message
                    },
                }
            }),
            r.1 == (attempt is Written && old(self).outcome(*attempt) is Err),
    {
        let result = download_and_verify_once(
            attempt,
            self.url.as_str(),
            self.expected_sha256.as_str(),
            self.path.as_str(),
        );
        let written: bool = match attempt {
            Attempt::Written(_) => true,
            _ => false,
        };
        match result {
            Ok(()) => (DownloadStep::Done, false),
            Err(AttemptError::Fatal(message)) => (DownloadStep::Fail(message), written),
            Err(AttemptError::Transient(message)) => match self.retry.next(true) {
                Some(wait) => (DownloadStep::Retry(wait, message), written),
                None => (DownloadStep::Fail(message), written),
            },
        }
    }
}

/// The download of a file from a URL to a path, or the error where it is no URL.
pub fn download_pinned_file(url: &str, sha256: &str, path: &str) -> (r: Result<Download, String>)
    ensures
        match crate::address::parsed_url(url@) {
            Ok(parsed) => {
                &&& r matches Ok(download)
                &&& download.url@ == parsed
                &&& download.expected_sha256@ == sha256@
                &&& download.path@ == path@
                &&& download.retry.past() == 0
                &&& download.retry.policy() == (Backoff {
                    min_secs: 1,
                    max_secs: 30,
                    max_retries: DOWNLOAD_RETRY_COUNT,
                })
            },
            Err(_) => r matches Err(m) && m@ == "failed to parse pinned URL"@,
        },
{
    match parse_url(url) {
        Ok(url) => Ok(
            Download {
                url,
                expected_sha256: sha256.to_owned(),
                path: path.to_owned(),
                retry: Retrying::new(download_backoff()),
            },
        ),
        Err(_) => Err("failed to parse pinned URL".to_owned()),
    }
}

/// A download succeeds only with a file that has the expected digest. Any other file is deleted, and
/// it is not tried again.
pub proof fn law_only_the_expected_file_is_kept(
    content: Vec<u8>,
    url: Seq<char>,
    expected: Seq<char>,
    path: Seq<char>,
)
    ensures
        attempted(Attempt::Written(content), url, expected, path) is Ok <==> sha256_hex(content@)
            == expected,
        !is_transient(attempted(Attempt::Written(content), url, expected, path)),
{
}

/// A download is tried again where the request could not be made, where the answer could not be read,
/// and where the server failed, took too long or had too many requests. Every other failure is final,
/// and success is a written file with the expected digest alone.
pub proof fn law_which_downloads_are_tried_again(
    attempt: Attempt,
    url: Seq<char>,
    expected: Seq<char>,
    path: Seq<char>,
)
    ensures
        is_transient(attempted(attempt, url, expected, path)) <==> match attempt {
            Attempt::SendFailed(_) => true,
            Attempt::ReadFailed(_) => true,
            Attempt::Refused(status, _) => 500 <= status <= 599 || status == 408 || status == 429,
            _ => false,
        },
        attempted(attempt, url, expected, path) is Ok <==> (attempt matches Attempt::Written(content)
            && sha256_hex(content@) == expected),
{
}

/// The text of a failure ends with the error that was met.
pub proof fn law_failures_tell_the_error(
    url: Seq<char>,
    expected: Seq<char>,
    path: Seq<char>,
    error: String,
    status: u16,
)
    ensures
        attempted(Attempt::SendFailed(error), url, expected, path) matches Err(
            AttemptErrorView::Transient(text),
        ) && error@.is_suffix_of(text),
        attempted(Attempt::ReadFailed(error), url, expected, path) matches Err(
            AttemptErrorView::Transient(text),
        ) && error@.is_suffix_of(text),
        attempted(Attempt::CreateFailed(error), url, expected, path) matches Err(
            AttemptErrorView::Fatal(text),
        ) && error@.is_suffix_of(text),
        attempted(Attempt::WriteFailed(error), url, expected, path) matches Err(
            AttemptErrorView::Fatal(text),
        ) && error@.is_suffix_of(text),
{
    let e = error@;
    let a = "Failed to download file: "@ + e;
    let b = "Failed to read response: "@ + e;
    let c = "Failed to create file: "@ + path + ", "@ + e;
    let d = "Failed to write to file: "@ + path + ", "@ + e;
    assert(a.skip(a.len() - e.len()) =~= e);
    assert(b.skip(b.len() - e.len()) =~= e);
    assert(c.skip(c.len() - e.len()) =~= e);
    assert(d.skip(d.len() - e.len()) =~= e);
}

/// A file is downloaded from the URL to the path and checked against the digest that were given, five
/// times more at most. What is no URL is refused.
pub proof fn law_download_is_what_was_asked_for(
    url: &str,
    sha256: &str,
    path: &str,
    r: Result<Download, String>,
)
    requires
        call_ensures(download_pinned_file, (url, sha256, path), r),
    ensures
        r is Ok <==> crate::address::parsed_url(url@) is Ok,
        r matches Ok(download) ==> Ok::<_, Seq<char>>(download.url@) == crate::address::parsed_url(url@)
            && download.expected_sha256@ == sha256@ && download.path@ == path@ && download.retry.past()
            == 0 && download.retry.max() == 5,
{
}

/// A download is done once the file that was expected was written, and goes on after a transient
/// failure as long as it was tried again fewer times than it may be. A file that is not the expected
/// one is taken away.
pub proof fn law_download_goes_on_after_transient_failures(
    download: &mut Download,
    attempt: &Attempt,
    r: (DownloadStep, bool),
)
    requires
        call_ensures(Download::after_attempt, (download, attempt), r),
    ensures
        r.0 is Done <==> (attempt matches Attempt::Written(content) && sha256_hex(content@)
            == old(download).expected_sha256@),
        r.0 is Retry <==> old(download).retry.past() < old(download).retry.max()
            && match *attempt {
            Attempt::SendFailed(_) => true,
            Attempt::ReadFailed(_) => true,
            Attempt::Refused(status, _) => 500 <= status <= 599 || status == 408 || status == 429,
            _ => false,
        },
        r.1 <==> (attempt matches Attempt::Written(content) && sha256_hex(content@)
            != old(download).expected_sha256@),
        final(download).retry.past() == old(download).retry.past() + (if r.0 is Retry {
            1int
        } else {
            0
        }),
        final(download).retry.max() == old(download).retry.max(),
        final(download).url == old(download).url,
        final(download).expected_sha256 == old(download).expected_sha256,
        final(download).path == old(download).path,
{
}

/// One attempt succeeds only with the expected file.
pub proof fn law_attempt_succeeds_with_the_expected_file(
    attempt: &Attempt,
    url: &str,
    expected: &str,
    path: &str,
    r: Result<(), AttemptError>,
)
    requires
        call_ensures(download_and_verify_once, (attempt, url, expected, path), r),
    ensures
        r is Ok <==> (attempt matches Attempt::Written(content) && sha256_hex(content@)
            == expected@),
        r matches Err(e) ==> (e is Transient <==> match *attempt {
            Attempt::SendFailed(_) => true,
            Attempt::ReadFailed(_) => true,
            Attempt::Refused(status, _) => 500 <= status <= 599 || status == 408 || status == 429,
            _ => false,
        }),
{
}

/// A digest is accepted if it is the expected one.
pub proof fn law_digests_must_be_equal(
    url: &str,
    expected: &str,
    actual: &str,
    r: Result<(), AttemptError>,
)
    requires
        call_ensures(check_digest, (url, expected, actual), r),
    ensures
        r is Ok <==> expected@ == actual@,
        r matches Err(e) ==> e is Fatal,
{
}

/// The error for a wrong file tells where it came from, what was expected and what came.
pub proof fn law_wrong_files_are_told(
    url: &str,
    expected: &str,
    actual: &str,
    r: Result<(), AttemptError>,
)
    requires
        call_ensures(check_digest, (url, expected, actual), r),
        expected@ != actual@,
    ensures
        r matches Err(AttemptError::Fatal(m)) && m@ == "Hash mismatch for "@ + url@
            + ": expected "@ + expected@ + ", got "@ + actual@
            + ". The downloaded file has been deleted."@,
{
}

} // verus!
