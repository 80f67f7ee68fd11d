//! Uploads of profiles.
use vstd::prelude::*;

use crate::executor::wall_time::executor::ExecutorName;
use crate::numeral::u64_to_decimal;
use crate::request_client::{classify_status, is_success, upload_backoff, Retryable, Retrying};
use crate::run_environment::RunEnvironment;
use crate::style::{bold, red};
use crate::text::concat;
use std::time::Duration;

verus! {

// ---------------------------------------------------------------------------------------------
// The size of a folder
// ---------------------------------------------------------------------------------------------

/// Whole mebibytes.
pub fn bytes_to_mib(bytes: u64) -> (r: u64)
    ensures
        r == bytes as nat / (1024 * 1024),
{
    bytes / (1024 * 1024)
}

/// An entry of a directory.
#[derive(Debug)]
pub enum DirEntry {
    /// A file of this size.
    File(u64),
    /// The directory of this path.
    Dir(String),
    /// Anything else.
    Other,
}

/// The size of all files together.
pub open spec fn file_sizes(entries: Seq<DirEntry>) -> nat
    decreases entries.len(),
{
    if entries.len() == 0 {
        0
    } else {
        file_sizes(entries.drop_last()) + match entries.last() {
            DirEntry::File(size) => size as nat,
            _ => 0,
        }
    }
}

/// The directories.
pub open spec fn subdirectories(entries: Seq<DirEntry>) -> Seq<Seq<char>>
    decreases entries.len(),
{
    if entries.len() == 0 {
        seq![]
    } else {
        match entries.last() {
            DirEntry::Dir(path) => subdirectories(entries.drop_last()).push(path@),
            _ => subdirectories(entries.drop_last()),
        }
    }
}

/// The size of the first entries is no more than that of all.
proof fn lemma_sizes_grow(entries: Seq<DirEntry>, i: int)
    requires
        0 <= i <= entries.len(),
    ensures
        file_sizes(entries.take(i)) <= file_sizes(entries),
    decreases entries.len() - i,
{
    if i == entries.len() {
        assert(entries.take(i) =~= entries);
    } else {
        assert(entries.take(i + 1).drop_last() =~= entries.take(i));
        lemma_sizes_grow(entries, i + 1);
    }
}

/// The size of a folder while it is walked through.
#[derive(Debug)]
pub struct FolderSize {
    /// The size of all files so far.
    pub total_size: u64,
    /// The directories that are still to be walked through.
    pub dirs_to_process: Vec<String>,
}

impl FolderSize {
    pub fn new(path: &str) -> (r: Self)
        ensures
            r.total_size == 0,
            r.dirs_to_process.deep_view() == seq![path@],
    {
        let mut dirs_to_process: Vec<String> = Vec::new();
        dirs_to_process.push(path.to_owned());
        assert(dirs_to_process.deep_view() =~= seq![path@]);
        FolderSize { total_size: 0, dirs_to_process }
    }

    /// The directory that is walked through next, if there is one.
    pub fn next_dir(&mut self) -> (r: Option<String>)
        ensures
            final(self).total_size == old(self).total_size,
            match r {
                Some(dir) => old(self).dirs_to_process.deep_view()
                    == final(self).dirs_to_process.deep_view().push(dir@),
                None => old(self).dirs_to_process@.len() == 0 && final(self).dirs_to_process@.len() == 0,
            },
    {
        let ghost before = self.dirs_to_process;
        let dir = self.dirs_to_process.pop();
        proof {
            if dir is Some {
                assert(before.deep_view() =~= self.dirs_to_process.deep_view().push(dir->0@));
            }
        }
        dir
    }

    /// Takes the entries of a directory into account.
    pub fn visit(&mut self, entries: &Vec<DirEntry>)
        requires
            old(self).total_size + file_sizes(entries@) <= u64::MAX,
        ensures
            final(self).total_size == old(self).total_size + file_sizes(entries@),
            final(self).dirs_to_process.deep_view() == old(self).dirs_to_process.deep_view()
                + subdirectories(entries@),
    {
        let ghost start = *self;
        let mut i: usize = 0;
        assert(entries@.take(0) =~= seq![]);
        assert(start.dirs_to_process.deep_view() + subdirectories(seq![])
            =~= start.dirs_to_process.deep_view());
        while i < entries.len()
            invariant
                i <= entries@.len(),
                start.total_size + file_sizes(entries@) <= u64::MAX,
                self.total_size == start.total_size + file_sizes(entries@.take(i as int)),
                self.dirs_to_process.deep_view() == start.dirs_to_process.deep_view()
                    + subdirectories(entries@.take(i as int)),
            decreases entries.len() - i,
        {
            proof {
                assert(entries@.take(i + 1).drop_last() =~= entries@.take(i as int));
                lemma_sizes_grow(entries@, i + 1);
            }
            match &entries[i] {
                DirEntry::File(size) => {
                    self.total_size = self.total_size + *size;
                },
                DirEntry::Dir(path) => {
                    let ghost before = self.dirs_to_process;
                    self.dirs_to_process.push(path.clone());
                    proof {
                        crate::list::lemma_deep_push(
                            before,
                            self.dirs_to_process@.last(),
                            self.dirs_to_process,
                        );
                    }
                },
                DirEntry::Other => {},
            }
            assert(self.dirs_to_process.deep_view() =~= start.dirs_to_process.deep_view()
                + subdirectories(entries@.take(i + 1)));
            i = i + 1;
        }
        assert(entries@.take(entries@.len() as int) =~= entries@);
    }
}

/// In whatever parts the entries of a folder are taken into account, its size is that of all files.
pub proof fn law_sizes_add_up(first: Seq<DirEntry>, second: Seq<DirEntry>)
    ensures
        file_sizes(first + second) == file_sizes(first) + file_sizes(second),
        subdirectories(first + second) == subdirectories(first) + subdirectories(second),
    decreases second.len(),
{
    if second.len() == 0 {
        assert(first + second =~= first);
        assert(subdirectories(first) + seq![] =~= subdirectories(first));
    } else {
        assert((first + second).drop_last() =~= first + second.drop_last());
        law_sizes_add_up(first, second.drop_last());
        assert(subdirectories(first + second) =~= subdirectories(first) + subdirectories(second));
    }
}

// ---------------------------------------------------------------------------------------------
// The archive
// ---------------------------------------------------------------------------------------------

/// The largest size of a folder that is not compressed: 5 GiB.
pub const MAX_UNCOMPRESSED_PROFILE_SIZE_BYTES: u64 = 5_368_709_120;

/// The form of an archive.
#[derive(Debug, Clone, Copy, PartialEq, Eq, Structural)]
pub enum ArchiveForm {
    CompressedInMemory,
    CompressedOnDisk,
    UncompressedOnDisk,
}

/// The form of the archive of a folder. The size of the folder matters only where it is not always
/// compressed.
pub open spec fn archive_form_of(executor: ExecutorName, folder_size: nat) -> ArchiveForm {
    match executor {
        ExecutorName::Valgrind => ArchiveForm::CompressedInMemory,
        _ => if folder_size > MAX_UNCOMPRESSED_PROFILE_SIZE_BYTES {
            ArchiveForm::CompressedOnDisk
        } else {
            ArchiveForm::UncompressedOnDisk
        },
    }
}

/// Whether the form of the archive depends on the size of the folder.
pub fn depends_on_size(executor: ExecutorName) -> (r: bool)
    ensures
        r == !(executor is Valgrind),
{
    match executor {
        ExecutorName::Valgrind => false,
        _ => true,
    }
}

/// What to say of how an archive is made.
pub open spec fn archive_text(form: ArchiveForm, folder_size: u64) -> Seq<char> {
    let size = "Profile folder size ("@ + crate::numeral::decimal(
        folder_size as nat / (1024 * 1024),
    ) + " MiB) "@;
    let threshold = crate::numeral::decimal(
        MAX_UNCOMPRESSED_PROFILE_SIZE_BYTES as nat / (1024 * 1024),
    );
    match form {
        ArchiveForm::CompressedInMemory => "Creating compressed tar archive for Valgrind"@,
        ArchiveForm::CompressedOnDisk => size + "exceeds threshold ("@ + threshold
            + " MiB), creating compressed tar.gz archive on disk"@,
        ArchiveForm::UncompressedOnDisk => size + "is below threshold ("@ + threshold
            + " MiB), creating uncompressed tar archive on disk"@,
    }
}

/// The form of the archive of a folder, and what to say of it.
pub fn create_profile_archive(executor: ExecutorName, folder_size: u64) -> (r: (ArchiveForm, String))
    ensures
        r.0 == archive_form_of(executor, folder_size as nat),
        r.1@ == archive_text(r.0, folder_size),
{
    match executor {
        ExecutorName::Valgrind => {
            return (
                ArchiveForm::CompressedInMemory,
                "Creating compressed tar archive for Valgrind".to_owned(),
            );
        },
        _ => {},
    }
    let mut text = "Profile folder size (".to_owned();
    text.append(u64_to_decimal(bytes_to_mib(folder_size)).as_str());
    text.append(" MiB) ");
    let threshold = u64_to_decimal(bytes_to_mib(MAX_UNCOMPRESSED_PROFILE_SIZE_BYTES));
    if folder_size > MAX_UNCOMPRESSED_PROFILE_SIZE_BYTES {
        text.append("exceeds threshold (");
        text.append(threshold.as_str());
        text.append(" MiB), creating compressed tar.gz archive on disk");
        (ArchiveForm::CompressedOnDisk, text)
    } else {
        text.append("is below threshold (");
        text.append(threshold.as_str());
        text.append(" MiB), creating uncompressed tar archive on disk");
        (ArchiveForm::UncompressedOnDisk, text)
    }
}

/// No folder above the threshold is left uncompressed, and a larger folder is compressed where a
/// smaller one is; a folder of up to the threshold is compressed only to be held in memory.
pub proof fn law_large_archives_are_compressed(executor: ExecutorName, size: nat, larger: nat)
    requires
        size <= larger,
    ensures
        archive_form_of(executor, size) is CompressedOnDisk ==> archive_form_of(executor, larger)
            is CompressedOnDisk,
        size > MAX_UNCOMPRESSED_PROFILE_SIZE_BYTES ==> !(archive_form_of(executor, size)
            is UncompressedOnDisk),
        size <= MAX_UNCOMPRESSED_PROFILE_SIZE_BYTES ==> !(archive_form_of(executor, size)
            is CompressedOnDisk),
{
}

// ---------------------------------------------------------------------------------------------
// Where to upload
// ---------------------------------------------------------------------------------------------

/// Where the archive is uploaded to.
#[derive(Debug)]
pub struct UploadData {
    pub status: String,
    pub upload_url: String,
    pub run_id: String,
}

/// What to do about requests that are not authenticated.
pub open spec fn advice_text(run_environment: RunEnvironment) -> Seq<char> {
    match run_environment {
        RunEnvironment::GithubActions => "Check that the workflow is correctly authenticated."@,
        RunEnvironment::GitlabCi => "Check that the CI job is correctly authenticated."@,
        RunEnvironment::Circleci => "Check that the CI job is correctly authenticated."@,
        RunEnvironment::Buildkite => "Check that CODSPEED_TOKEN is set and has the correct value."@,
        RunEnvironment::Local => "Run `codspeed auth login` to authenticate the CLI."@,
    }
}

fn advice(run_environment: RunEnvironment) -> (r: &'static str)
    ensures
        r@ == advice_text(run_environment),
{
    match run_environment {
        RunEnvironment::GithubActions => "Check that the workflow is correctly authenticated.",
        RunEnvironment::GitlabCi => "Check that the CI job is correctly authenticated.",
        RunEnvironment::Circleci => "Check that the CI job is correctly authenticated.",
        RunEnvironment::Buildkite => "Check that CODSPEED_TOKEN is set and has the correct value.",
        RunEnvironment::Local => "Run `codspeed auth login` to authenticate the CLI.",
    }
}

/// Why a request was refused: what the answer says, and what to do about it where the request was
/// not authenticated (401).
pub open spec fn reason_text(
    status: u16,
    said: Seq<char>,
    run_environment: RunEnvironment,
    docs_url: Option<Seq<char>>,
) -> Seq<char> {
    if status == 401 {
        said + "\n\n"@ + advice_text(run_environment) + (match docs_url {
            Some(url) => " View more at "@ + url,
            None => seq![],
        })
    } else {
        said
    }
}

/// Why a request was refused. `text` is the body of the answer, and `error` the error that it holds,
/// where it has the form of one.
pub fn refusal_reason(
    status: u16,
    text: String,
    error: Option<String>,
    run_environment: RunEnvironment,
    docs_url: Option<&str>,
) -> (r: String)
    ensures
        r@ == reason_text(
            status,
            crate::config::text_or(error.deep_view(), text@),
            run_environment,
            crate::text::text_of(docs_url),
        ),
{
    let mut message = match error {
        Some(error) => error,
        None => text,
    };
    let ghost said = message@;
    if status == 401 {
        message.append("\n\n");
        message.append(advice(run_environment));
        if let Some(url) = docs_url {
            message.append(" View more at ");
            message.append(url);
        }
        assert(message@ =~= reason_text(
            status,
            said,
            run_environment,
            crate::text::text_of(docs_url),
        ));
    }
    message
}

/// Whether `r` says that something failed with a status and for a reason.
pub open spec fn is_failure_text(
    r: Seq<char>,
    what: Seq<char>,
    status: Seq<char>,
    reason: Seq<char>,
) -> bool {
    exists|label: Seq<char>, detail: Seq<char>|
        #![trigger crate::style::styled(label, "Reason:"@, "\x1b[1m"@), crate::style::styled(
            detail,
            reason,
            "\x1b[31m"@,
        )]
        crate::style::styled(label, "Reason:"@, "\x1b[1m"@) && crate::style::styled(
            detail,
            reason,
            "\x1b[31m"@,
        ) && r == what + status + "\n  -> "@ + label + " "@ + detail
}

fn failure(what: &str, status_text: &str, reason: &str) -> (r: String)
    ensures
        is_failure_text(r@, what@, status_text@, reason@),
{
    let label = bold("Reason:");
    let detail = red(reason);
    let mut text = what.to_owned();
    text.append(status_text);
    text.append("\n  -> ");
    text.append(label.as_str());
    text.append(" ");
    text.append(detail.as_str());
    assert(crate::style::styled(label@, "Reason:"@, "\x1b[1m"@));
    assert(crate::style::styled(detail@, reason@, "\x1b[31m"@));
    text
}

/// The error of a request for where to upload, or `None` for an answer with success. `status_text`
/// is how the status reads, `text` the body of the answer, and `error` the error that it holds, where
/// it has the form of one.
pub fn retrieve_upload_data(
    status: u16,
    status_text: &str,
    text: String,
    error: Option<String>,
    run_environment: RunEnvironment,
    docs_url: Option<&str>,
) -> (r: Option<String>)
    ensures
        if crate::request_client::success_status(status) {
            r is None
        } else {
            &&& r matches Some(message)
            &&& is_failure_text(
                message@,
                "Failed to retrieve upload data: "@,
                status_text@,
                reason_text(
                    status,
                    crate::config::text_or(error.deep_view(), text@),
                    run_environment,
                    crate::text::text_of(docs_url),
                ),
            )
        },
{
    if is_success(status) {
        return None;
    }
    let reason = refusal_reason(status, text, error, run_environment, docs_url);
    Some(failure("Failed to retrieve upload data: ", status_text, reason.as_str()))
}

// ---------------------------------------------------------------------------------------------
// The upload itself
// ---------------------------------------------------------------------------------------------

/// The headers of an upload.
pub open spec fn headers_of(size: nat, hash: Seq<char>, encoding: Option<Seq<char>>) -> Seq<
    (Seq<char>, Seq<char>),
> {
    seq![
        ("Content-Type"@, "application/x-tar"@),
        ("Content-Length"@, crate::numeral::decimal(size)),
        ("Content-MD5"@, hash),
    ] + match encoding {
        Some(name) => seq![("Content-Encoding"@, name)],
        None => seq![],
    }
}

/// The headers of an upload of an archive of a size, with the MD5 of its contents and the name of
/// its compression.
pub fn upload_headers(size: u64, hash: &str, encoding: Option<&str>) -> (r: Vec<
    (&'static str, String),
>)
    ensures
        Seq::new(r@.len(), |i: int| (r@[i].0@, r@[i].1@)) == headers_of(
            size as nat,
            hash@,
            crate::text::text_of(encoding),
        ),
{
    let mut headers: Vec<(&'static str, String)> = Vec::new();
    headers.push(("Content-Type", "application/x-tar".to_owned()));
    headers.push(("Content-Length", u64_to_decimal(size)));
    headers.push(("Content-MD5", hash.to_owned()));
    if let Some(name) = encoding {
        headers.push(("Content-Encoding", name.to_owned()));
    }
    assert(Seq::new(headers@.len(), |i: int| (headers@[i].0@, headers@[i].1@)) =~= headers_of(
        size as nat,
        hash@,
        crate::text::text_of(encoding),
    ));
    headers
}

/// What came of an attempt to upload an archive from disk.
#[derive(Debug)]
pub enum StreamAttempt {
    /// The archive could not be opened.
    OpenFailed,
    /// The request failed with this error, for a reason that may pass or not.
    SendFailed { error: String, transient: bool },
    /// There is an answer with this status.
    Answered(u16),
}

impl StreamAttempt {
    /// Whether the attempt failed for a reason that may pass.
    pub open spec fn is_transient(self) -> bool {
        match self {
            StreamAttempt::OpenFailed => false,
            StreamAttempt::SendFailed { transient, .. } => transient,
            StreamAttempt::Answered(status) => crate::request_client::retryable_status(status)
                == Some(Retryable::Transient),
        }
    }
}

/// What is done after an attempt.
#[derive(Debug)]
pub enum StreamStep {
    /// There is another attempt after this time.
    Retry(Duration),
    /// The answer is what the upload gives, whatever its status.
    Answer,
    /// The upload fails with this error.
    Fail(String),
}

/// The upload of an archive from disk. What was read of it for one attempt is gone, so that each
/// attempt opens it again.
#[derive(Debug)]
pub struct StreamedUpload {
    pub path: String,
    pub retry: Retrying,
}

impl StreamedUpload {
    pub fn new(path: &str) -> (r: Self)
        ensures
            r.path@ == path@,
            r.retry.past() == 0,
            r.retry.policy() == (crate::request_client::Backoff {
                min_secs: 1,
                max_secs: 1800,
                max_retries: crate::request_client::UPLOAD_RETRY_COUNT,
            }),
    {
        StreamedUpload { path: path.to_owned(), retry: Retrying::new(upload_backoff()) }
    }

    /// What is done after an attempt.
    pub fn send_streamed_with_retry(&mut self, attempt: StreamAttempt) -> (r: StreamStep)
        ensures
            final(self).path == old(self).path,
            final(self).retry.policy() == old(self).retry.policy(),
            ({
                let again = crate::request_client::retries(
                    attempt.is_transient(),
                    old(self).retry.past(),
                    old(self).retry.max(),
                );
                &&& final(self).retry.past() == old(self).retry.past() + (if again {
                    1nat
                } else {
                    0
                })
                &&& if again {
                    r is Retry
                } else {
                    match attempt {
                        StreamAttempt::OpenFailed => r matches StreamStep::Fail(m) && m@
                            == "Failed to open file at path: "@ + old(self).path@,
                        StreamAttempt::SendFailed { error, .. } => r matches StreamStep::Fail(m)
                            && m@ == error@,
                        StreamAttempt::Answered(_) => r is Answer,
                    }
                }
            }),
    {
        let transient: bool = match &attempt {
            StreamAttempt::OpenFailed => false,
            StreamAttempt::SendFailed { transient, .. } => *transient,
            StreamAttempt::Answered(status) => match classify_status(*status) {
                Some(Retryable::Transient) => true,
                _ => false,
            },
        };
        if let Some(wait) = self.retry.next(transient) {
            return StreamStep::Retry(wait);
        }
        match attempt {
            StreamAttempt::OpenFailed => StreamStep::Fail(
                concat("Failed to open file at path: ", self.path.as_str()),
            ),
            StreamAttempt::SendFailed { error, .. } => StreamStep::Fail(error),
            StreamAttempt::Answered(_) => StreamStep::Answer,
        }
    }
}

/// The error of an upload that was answered, or `None` for an answer with success. `status_text` is
/// how the status reads, `text` the body of the answer.
pub fn upload_profile_archive(status: u16, status_text: &str, text: &str) -> (r: Option<String>)
    ensures
        if crate::request_client::success_status(status) {
            r is None
        } else {
            &&& r matches Some(message)
            &&& is_failure_text(
                message@,
                "Failed to upload performance report: "@,
                status_text@,
                text@,
            )
        },
{
    if is_success(status) {
        return None;
    }
    Some(failure("Failed to upload performance report: ", status_text, text))
}

// ---------------------------------------------------------------------------------------------
// What comes of it
// ---------------------------------------------------------------------------------------------

#[derive(Debug)]
pub struct UploadResult {
    pub run_id: String,
    pub owner: String,
    pub repository: String,
}

impl Clone for UploadResult {
    fn clone(&self) -> (r: Self)
        ensures
            r.run_id@ == self.run_id@,
            r.owner@ == self.owner@,
            r.repository@ == self.repository@,
    {
        UploadResult {
            run_id: self.run_id.clone(),
            owner: self.owner.clone(),
            repository: self.repository.clone(),
        }
    }
}

/// What is shown of a run without a token: its hash.
pub fn run_hash_line(tokenless: bool, hash: &str) -> (r: Option<String>)
    ensures
        if tokenless {
            r matches Some(line) && line@ == "CodSpeed Run Hash: \""@ + hash@ + "\""@
        } else {
            r is None
        },
{
    if !tokenless {
        return None;
    }
    let mut line = "CodSpeed Run Hash: \"".to_owned();
    line.append(hash);
    line.append("\"");
    Some(line)
}

/// What an upload gives: the run, and the repository that it belongs to.
pub fn upload(data: UploadData, owner: &str, repository: &str) -> (r: UploadResult)
    ensures
        r.run_id@ == data.run_id@,
        r.owner@ == owner@,
        r.repository@ == repository@,
{
    UploadResult {
        run_id: data.run_id,
        owner: owner.to_owned(),
        repository: repository.to_owned(),
    }
}

// ---------------------------------------------------------------------------------------------
// Laws
// ---------------------------------------------------------------------------------------------

/// A file counts with its size, and nothing else does. Directories are walked through, and nothing else
/// is.
pub proof fn law_files_count_with_their_size(size: u64, path: String)
    ensures
        file_sizes(seq![DirEntry::File(size)]) == size,
        file_sizes(seq![DirEntry::Dir(path)]) == 0,
        file_sizes(seq![DirEntry::Other]) == 0,
        file_sizes(Seq::empty()) == 0,
        subdirectories(seq![DirEntry::Dir(path)]) == seq![path@],
        subdirectories(seq![DirEntry::File(size)]).len() == 0,
        subdirectories(seq![DirEntry::Other]).len() == 0,
        subdirectories(Seq::empty()).len() == 0,
{
    let file = seq![DirEntry::File(size)];
    let dir = seq![DirEntry::Dir(path)];
    let other = seq![DirEntry::Other];
    assert(file.drop_last() =~= Seq::empty() && dir.drop_last() =~= Seq::empty()
        && other.drop_last() =~= Seq::empty());
    assert(file_sizes(Seq::empty()) == 0);
    assert(subdirectories(Seq::empty()) =~= Seq::<Seq<char>>::empty());
    assert(subdirectories(dir) =~= seq![path@]);
}

/// What Valgrind leaves is compressed in memory. All else is put on disk, and compressed if it is larger
/// than 5 GiB.
pub proof fn law_form_of_the_archive(
    executor: ExecutorName,
    size: u64,
    r: (ArchiveForm, String),
    sized: bool,
)
    requires
        call_ensures(create_profile_archive, (executor, size), r),
        call_ensures(depends_on_size, (executor,), sized),
    ensures
        r.0 is CompressedInMemory <==> executor is Valgrind,
        !(executor is Valgrind) ==> (r.0 is CompressedOnDisk <==> size > 5 * 1024 * 1024 * 1024),
        !(executor is Valgrind) ==> (r.0 is UncompressedOnDisk <==> size <= 5 * 1024 * 1024 * 1024),
        sized <==> !(executor is Valgrind),
{
}

/// A request that is refused is refused for the error that the answer holds, or else for its whole text.
/// One that is not authenticated is told what to do as well, after that.
pub proof fn law_refusals_say_why(
    status: u16,
    text: String,
    error: Option<String>,
    environment: RunEnvironment,
    docs_url: Option<&str>,
    r: String,
)
    requires
        call_ensures(refusal_reason, (status, text, error, environment, docs_url), r),
    ensures
        ({
            let said = if error is Some {
                error->0@
            } else {
                text@
            };
            &&& said.is_prefix_of(r@)
            &&& status != 401 ==> r@ == said
            &&& status == 401 ==> r@.len() > said.len()
            &&& status == 401 ==> (docs_url matches Some(url) ==> url@.is_suffix_of(r@))
        }),
{
    let said = if error is Some {
        error->0@
    } else {
        text@
    };
    reveal_strlit("\n\n");
    assert(r@.subrange(0, said.len() as int) =~= said);
    if status == 401 {
        if let Some(url) = docs_url {
            assert(r@.skip(r@.len() - url@.len()) =~= url@);
        }
    }
}

/// An answer is an error unless its status is from 200 to 299.
pub proof fn law_only_success_is_no_error(
    status: u16,
    status_text: &str,
    text: String,
    body: &str,
    error: Option<String>,
    environment: RunEnvironment,
    docs_url: Option<&str>,
    of_data: Option<String>,
    of_upload: Option<String>,
)
    requires
        call_ensures(
            retrieve_upload_data,
            (status, status_text, text, error, environment, docs_url),
            of_data,
        ),
        call_ensures(upload_profile_archive, (status, status_text, body), of_upload),
    ensures
        of_data is None <==> 200 <= status <= 299,
        of_upload is None <==> 200 <= status <= 299,
{
}

/// An upload tells its length and its digest, and how it is compressed, if it is.
pub proof fn law_upload_describes_the_archive(
    size: u64,
    hash: &str,
    encoding: Option<&str>,
    r: Vec<(&'static str, String)>,
)
    requires
        call_ensures(upload_headers, (size, hash, encoding), r),
    ensures
        r@.len() == (if encoding is Some {
            4int
        } else {
            3
        }),
        r@[0].0@ == "Content-Type"@ && r@[0].1@ == "application/x-tar"@,
        r@[1].0@ == "Content-Length"@ && crate::numeral::numeral_value(r@[1].1@, false) == Some(
            size as int,
        ),
        r@[2].0@ == "Content-MD5"@ && r@[2].1@ == hash@,
        encoding matches Some(name) ==> r@[3].0@ == "Content-Encoding"@ && r@[3].1@ == name@,
{
    let all = Seq::new(r@.len(), |i: int| (r@[i].0@, r@[i].1@));
    assert(all == headers_of(size as nat, hash@, crate::text::text_of(encoding)));
    assert(all.len() == r@.len());
    assert(all[0] == (r@[0].0@, r@[0].1@));
    assert(all[1] == (r@[1].0@, r@[1].1@));
    assert(all[2] == (r@[2].0@, r@[2].1@));
    if encoding is Some {
        assert(all[3] == (r@[3].0@, r@[3].1@));
    }
    crate::numeral::law_decimal_reads_back(size as nat);
}

/// An attempt is made again only where the request failed for a reason that may pass: an archive that
/// cannot be opened never is, and an answer only where the server failed, took too long or had too many
/// requests.
pub proof fn law_which_attempts_are_made_again(attempt: StreamAttempt)
    ensures
        attempt is OpenFailed ==> !attempt.is_transient(),
        attempt matches StreamAttempt::SendFailed { error, transient } ==> (attempt.is_transient()
            <==> transient),
        attempt matches StreamAttempt::Answered(status) ==> (attempt.is_transient() <==> 500 <= status
            <= 599 || status == 408 || status == 429),
{
}

/// An upload is tried three times more at most.
pub proof fn law_uploads_are_tried_again(path: &str, r: StreamedUpload)
    requires
        call_ensures(StreamedUpload::new, (path,), r),
    ensures
        r.path@ == path@,
        r.retry.past() == 0,
        r.retry.max() == 3,
{
}

/// What an upload gives is the run that it was made for, and the hash of a run is shown where it has no
/// token.
pub proof fn law_upload_gives_its_run(
    data: UploadData,
    owner: &str,
    repository: &str,
    r: UploadResult,
    tokenless: bool,
    hash: &str,
    line: Option<String>,
)
    requires
        call_ensures(upload, (data, owner, repository), r),
        call_ensures(run_hash_line, (tokenless, hash), line),
    ensures
        r.run_id@ == data.run_id@ && r.owner@ == owner@ && r.repository@ == repository@,
        line is Some <==> tokenless,
        line matches Some(text) ==> text@.len() > hash@.len() && hash@ == text@.subrange(
            text@.len() - hash@.len() - 1,
            text@.len() - 1,
        ),
{
    reveal_strlit("\"");
    if let Some(text) = line {
        assert(text@.subrange(text@.len() - hash@.len() - 1, text@.len() - 1) =~= hash@);
    }
}

/// An upload is made again after a transient failure, as long as it was made again fewer times than
/// it may be. What is left is an answer or the error.
pub proof fn law_upload_goes_on_after_transient_failures(
    upload: &mut StreamedUpload,
    attempt: StreamAttempt,
    r: StreamStep,
)
    requires
        call_ensures(StreamedUpload::send_streamed_with_retry, (upload, attempt), r),
    ensures
        r is Retry ==> old(upload).retry.past() < old(upload).retry.max() && !(
        attempt is OpenFailed),
        (attempt matches StreamAttempt::SendFailed { transient, .. } && transient)
            && old(upload).retry.past() < old(upload).retry.max() ==> r is Retry,
        (attempt matches StreamAttempt::SendFailed { transient, .. } && !transient) ==> r is Fail,
        attempt is OpenFailed ==> (r matches StreamStep::Fail(m) && m@
            == "Failed to open file at path: "@ + old(upload).path@),
        attempt is Answered ==> r is Answer || r is Retry,
        old(upload).retry.past() >= old(upload).retry.max() ==> !(r is Retry),
        final(upload).retry.past() == old(upload).retry.past() + (if r is Retry {
            1int
        } else {
            0
        }),
        final(upload).path == old(upload).path,
{
}

/// Each entry of a directory that is visited counts once: files with their size, and directories to
/// be visited in turn.
pub proof fn law_entries_are_visited_once(
    before: &mut FolderSize,
    after: &mut FolderSize,
    entries: &Vec<DirEntry>,
    more: &Vec<DirEntry>,
    entry: DirEntry,
)
    requires
        call_ensures(FolderSize::visit, (before, entries), ()),
        call_ensures(FolderSize::visit, (after, more), ()),
        *old(before) == *old(after),
        more@ == entries@.push(entry),
    ensures
        entries@.len() == 0 ==> final(before).total_size == old(before).total_size
            && final(before).dirs_to_process.deep_view() == old(before).dirs_to_process.deep_view(),
        match entry {
            DirEntry::File(size) => final(after).total_size == final(before).total_size + size
                && final(after).dirs_to_process.deep_view()
                == final(before).dirs_to_process.deep_view(),
            DirEntry::Dir(path) => final(after).total_size == final(before).total_size
                && final(after).dirs_to_process.deep_view()
                == final(before).dirs_to_process.deep_view().push(path@),
            DirEntry::Other => final(after).total_size == final(before).total_size
                && final(after).dirs_to_process.deep_view()
                == final(before).dirs_to_process.deep_view(),
        },
{
    assert(more@.drop_last() =~= entries@);
    assert(final(after).dirs_to_process.deep_view() =~= old(after).dirs_to_process.deep_view()
        + subdirectories(more@));
    if entry is Dir {
        assert(old(after).dirs_to_process.deep_view() + subdirectories(more@) =~= (old(
            before,
        ).dirs_to_process.deep_view() + subdirectories(entries@)).push(entry->Dir_0@));
    }
    if entries@.len() == 0 {
        assert(old(before).dirs_to_process.deep_view() + subdirectories(entries@) =~= old(
            before,
        ).dirs_to_process.deep_view());
    }
}

/// A refused authentication is followed by what to check where the run is made.
pub proof fn law_refused_authentication_gives_advice(
    text: String,
    environment: RunEnvironment,
    r: String,
)
    requires
        call_ensures(refusal_reason, (401, text, None, environment, None), r),
    ensures
        r@ == text@ + "\n\n"@ + match environment {
            RunEnvironment::Local => "Run `codspeed auth login` to authenticate the CLI."@,
            RunEnvironment::Buildkite =>
                "Check that CODSPEED_TOKEN is set and has the correct value."@,
            RunEnvironment::GithubActions => "Check that the workflow is correctly authenticated."@,
            _ => "Check that the CI job is correctly authenticated."@,
        },
{
    assert(r@ =~= text@ + "\n\n"@ + advice_text(environment));
}

} // verus!
