//! Writing a file without losing the one that stood there.

use vstd::prelude::*;

verus! {

/// What is being written.
#[derive(Clone, Copy, Debug, PartialEq, Eq, Structural)]
pub enum Artifact {
    /// A credential, which only its owner may read. The one before it is kept.
    Credential,
    /// A report, which may replace the one before it.
    Report,
    /// A backup, which is downloaded first and may replace the one before it.
    Backup,
}

/// How far the writing has come.
#[derive(Clone, Copy, Debug, PartialEq, Eq, Structural)]
pub enum FileStage {
    /// It finds out whether the file is there.
    Probing,
    /// It downloads what is to be written.
    Downloading,
    /// It makes the directory of the file.
    MakingDirectory,
    /// It writes a temporary file beside the place.
    Writing,
    /// It finds out once more whether the file is there.
    ProbingAgain,
    /// It moves the previous file away.
    Preserving,
    /// It removes the previous file.
    Replacing,
    /// It moves the temporary file to the place; a previous file was kept or not.
    Promoting { preserved: bool },
    /// That failed: it removes the temporary file.
    Discarding { preserved: bool },
    /// It moves the previous file back.
    PuttingBack,
    Done,
}

/// Why a file is not written.
#[derive(Clone, Copy, Debug, PartialEq, Eq, Structural)]
pub enum FileError {
    /// The file is there, and may not be replaced.
    Exists,
    Download,
    Directory,
    Write,
    Preserve,
    Replace,
    Promote,
}

/// What has come back.
#[derive(Clone, Copy, Debug, PartialEq, Eq, Structural)]
pub enum FileSignal {
    /// Whether the file is there.
    Found(bool),
    /// Whether it worked.
    Worked(bool),
}

/// What is to be done next.
#[derive(Clone, Copy, Debug, PartialEq, Eq, Structural)]
pub enum FileRequest {
    Probe,
    Download,
    MakeDirectory,
    Write,
    Preserve,
    Remove,
    Promote,
    Discard,
    PutBack,
    Finish,
    Fail(FileError),
    /// What came back is not what was asked for.
    Unexpected,
}

/// What the operator is told where a file is there and may not be replaced.
pub open spec fn exists_text(artifact: Artifact) -> Seq<char> {
    match artifact {
        Artifact::Credential => {
            "credential destination exists; pass --force to preserve and replace it"@
        },
        Artifact::Report => "report destination exists; pass --force to replace it"@,
        Artifact::Backup => "backup destination exists; pass --force to replace it"@,
    }
}

/// What the operator is told where a file is there and may not be replaced.
pub fn exists_message(artifact: Artifact) -> (r: &'static str)
    ensures
        r@ == exists_text(artifact),
{
    match artifact {
        Artifact::Credential => {
            "credential destination exists; pass --force to preserve and replace it"
        },
        Artifact::Report => "report destination exists; pass --force to replace it",
        Artifact::Backup => "backup destination exists; pass --force to replace it",
    }
}

/// A file that cannot be written.
pub open spec fn file_failure(error: FileError) -> (FileStage, FileRequest) {
    (FileStage::Done, FileRequest::Fail(error))
}

/// The temporary file moves to its place.
pub open spec fn promoting(preserved: bool) -> (FileStage, FileRequest) {
    (FileStage::Promoting { preserved }, FileRequest::Promote)
}

/// What is done next, and how far the writing is then.
pub open spec fn file_step(
    artifact: Artifact,
    force: bool,
    stage: FileStage,
    signal: FileSignal,
) -> (FileStage, FileRequest) {
    match (stage, signal) {
        (FileStage::Probing, FileSignal::Found(found)) => if found && !force {
            file_failure(FileError::Exists)
        } else if artifact == Artifact::Backup {
            (FileStage::Downloading, FileRequest::Download)
        } else {
            (FileStage::MakingDirectory, FileRequest::MakeDirectory)
        },
        (FileStage::Downloading, FileSignal::Worked(worked)) => if worked {
            (FileStage::Writing, FileRequest::Write)
        } else {
            file_failure(FileError::Download)
        },
        (FileStage::MakingDirectory, FileSignal::Worked(worked)) => if worked {
            (FileStage::Writing, FileRequest::Write)
        } else {
            file_failure(FileError::Directory)
        },
        (FileStage::Writing, FileSignal::Worked(worked)) => if !worked {
            file_failure(FileError::Write)
        } else if force || artifact == Artifact::Credential {
            (FileStage::ProbingAgain, FileRequest::Probe)
        } else {
            promoting(false)
        },
        (FileStage::ProbingAgain, FileSignal::Found(found)) => if !found {
            promoting(false)
        } else if artifact == Artifact::Credential {
            (FileStage::Preserving, FileRequest::Preserve)
        } else {
            (FileStage::Replacing, FileRequest::Remove)
        },
        (FileStage::Preserving, FileSignal::Worked(worked)) => if worked {
            promoting(true)
        } else {
            file_failure(FileError::Preserve)
        },
        (FileStage::Replacing, FileSignal::Worked(worked)) => if worked {
            promoting(false)
        } else {
            file_failure(FileError::Replace)
        },
        (FileStage::Promoting { preserved }, FileSignal::Worked(worked)) => if worked {
            (FileStage::Done, FileRequest::Finish)
        } else if artifact == Artifact::Backup {
            file_failure(FileError::Promote)
        } else {
            (FileStage::Discarding { preserved }, FileRequest::Discard)
        },
        (FileStage::Discarding { preserved }, FileSignal::Worked(_)) => if preserved {
            (FileStage::PuttingBack, FileRequest::PutBack)
        } else {
            file_failure(FileError::Promote)
        },
        (FileStage::PuttingBack, FileSignal::Worked(_)) => file_failure(FileError::Promote),
        _ => (stage, FileRequest::Unexpected),
    }
}

/// A file that is being written.
#[derive(Clone, Copy)]
pub struct FileWriting {
    pub artifact: Artifact,
    pub force: bool,
    pub stage: FileStage,
}

impl FileWriting {
    /// Begins to write a file: first comes whether it is there.
    pub fn begin(artifact: Artifact, force: bool) -> (r: (FileWriting, FileRequest))
        ensures
            r.0 == (FileWriting { artifact, force, stage: FileStage::Probing }),
            r.1 == FileRequest::Probe,
    {
        (FileWriting { artifact, force, stage: FileStage::Probing }, FileRequest::Probe)
    }

    /// Begins to write a credential that only its owner may read.
    pub fn write_private_json(force: bool) -> (r: (FileWriting, FileRequest))
        ensures
            r.0 == (FileWriting {
                artifact: Artifact::Credential,
                force,
                stage: FileStage::Probing,
            }),
            r.1 == FileRequest::Probe,
    {
        FileWriting::begin(Artifact::Credential, force)
    }

    /// Begins to write a report.
    pub fn write_json_artifact(force: bool) -> (r: (FileWriting, FileRequest))
        ensures
            r.0 == (FileWriting { artifact: Artifact::Report, force, stage: FileStage::Probing }),
            r.1 == FileRequest::Probe,
    {
        FileWriting::begin(Artifact::Report, force)
    }

    /// Begins to write a backup.
    pub fn run_backup(force: bool) -> (r: (FileWriting, FileRequest))
        ensures
            r.0 == (FileWriting { artifact: Artifact::Backup, force, stage: FileStage::Probing }),
            r.1 == FileRequest::Probe,
    {
        FileWriting::begin(Artifact::Backup, force)
    }

    fn go(&mut self, stage: FileStage, request: FileRequest) -> (r: FileRequest)
        ensures
            *final(self) == (FileWriting { stage, ..*old(self) }),
            r == request,
    {
        self.stage = stage;
        request
    }

    fn fail(&mut self, error: FileError) -> (r: FileRequest)
        ensures
            *final(self) == (FileWriting { stage: FileStage::Done, ..*old(self) }),
            r == FileRequest::Fail(error),
    {
        self.go(FileStage::Done, FileRequest::Fail(error))
    }

    fn promote(&mut self, preserved: bool) -> (r: FileRequest)
        ensures
            *final(self) == (FileWriting {
                stage: FileStage::Promoting { preserved },
                ..*old(self)
            }),
            r == FileRequest::Promote,
    {
        self.go(FileStage::Promoting { preserved }, FileRequest::Promote)
    }

    /// Takes what has come back, and tells what is to be done next.
    pub fn next(&mut self, signal: FileSignal) -> (request: FileRequest)
        ensures
            (final(self).stage, request) == file_step(
                old(self).artifact,
                old(self).force,
                old(self).stage,
                signal,
            ),
            final(self).artifact == old(self).artifact,
            final(self).force == old(self).force,
    {
        match (self.stage, signal) {
            (FileStage::Probing, FileSignal::Found(found)) => {
                if found && !self.force {
                    self.fail(FileError::Exists)
                } else if self.artifact == Artifact::Backup {
                    self.go(FileStage::Downloading, FileRequest::Download)
                } else {
                    self.go(FileStage::MakingDirectory, FileRequest::MakeDirectory)
                }
            },
            (FileStage::Downloading, FileSignal::Worked(worked)) => {
                if worked {
                    self.go(FileStage::Writing, FileRequest::Write)
                } else {
                    self.fail(FileError::Download)
                }
            },
            (FileStage::MakingDirectory, FileSignal::Worked(worked)) => {
                if worked {
                    self.go(FileStage::Writing, FileRequest::Write)
                } else {
                    self.fail(FileError::Directory)
                }
            },
            (FileStage::Writing, FileSignal::Worked(worked)) => {
                if !worked {
                    self.fail(FileError::Write)
                } else if self.force || self.artifact == Artifact::Credential {
                    self.go(FileStage::ProbingAgain, FileRequest::Probe)
                } else {
                    self.promote(false)
                }
            },
            (FileStage::ProbingAgain, FileSignal::Found(found)) => {
                if !found {
                    self.promote(false)
                } else if self.artifact == Artifact::Credential {
                    self.go(FileStage::Preserving, FileRequest::Preserve)
                } else {
                    self.go(FileStage::Replacing, FileRequest::Remove)
                }
            },
            (FileStage::Preserving, FileSignal::Worked(worked)) => {
                if worked {
                    self.promote(true)
                } else {
                    self.fail(FileError::Preserve)
                }
            },
            (FileStage::Replacing, FileSignal::Worked(worked)) => {
                if worked {
                    self.promote(false)
                } else {
                    self.fail(FileError::Replace)
                }
            },
            (FileStage::Promoting { preserved }, FileSignal::Worked(worked)) => {
                if worked {
                    self.go(FileStage::Done, FileRequest::Finish)
                } else if self.artifact == Artifact::Backup {
                    self.fail(FileError::Promote)
                } else {
                    self.go(FileStage::Discarding { preserved }, FileRequest::Discard)
                }
            },
            (FileStage::Discarding { preserved }, FileSignal::Worked(_)) => {
                if preserved {
                    self.go(FileStage::PuttingBack, FileRequest::PutBack)
                } else {
                    self.fail(FileError::Promote)
                }
            },
            (FileStage::PuttingBack, FileSignal::Worked(_)) => self.fail(FileError::Promote),
            _ => FileRequest::Unexpected,
        }
    }
}

/// How far a writing is after what has come back, and what it does next.
pub open spec fn file_run(artifact: Artifact, force: bool, signals: Seq<FileSignal>) -> (
    FileStage,
    FileRequest,
)
    decreases signals.len(),
{
    if signals.len() == 0 {
        (FileStage::Probing, FileRequest::Probe)
    } else {
        file_step(
            artifact,
            force,
            file_run(artifact, force, signals.drop_last()).0,
            signals.last(),
        )
    }
}

/// Unless the operator has said otherwise nothing is removed, and a file that is there when the writing
/// begins stays as it is: the writing is refused, and does nothing more.
pub proof fn law_nothing_is_replaced_unasked(artifact: Artifact, signals: Seq<FileSignal>)
    ensures
        file_run(artifact, false, signals).1 != FileRequest::Remove,
        signals.len() == 1 && signals[0] == FileSignal::Found(true) ==> file_run(
            artifact,
            false,
            signals,
        ) == file_failure(FileError::Exists),
        signals.len() > 1 && signals[0] == FileSignal::Found(true) ==> file_run(
            artifact,
            false,
            signals,
        ) == (FileStage::Done, FileRequest::Unexpected),
{
    lemma_unforced(artifact, signals);
}

proof fn lemma_unforced(artifact: Artifact, signals: Seq<FileSignal>)
    ensures
        ({
            let (stage, request) = file_run(artifact, false, signals);
            &&& request != FileRequest::Remove
            &&& artifact != Artifact::Credential ==> stage != FileStage::ProbingAgain
        }),
        signals.len() == 1 && signals[0] == FileSignal::Found(true) ==> file_run(
            artifact,
            false,
            signals,
        ) == file_failure(FileError::Exists),
        signals.len() > 1 && signals[0] == FileSignal::Found(true) ==> file_run(
            artifact,
            false,
            signals,
        ) == (FileStage::Done, FileRequest::Unexpected),
    decreases signals.len(),
{
    if signals.len() > 0 {
        lemma_unforced(artifact, signals.drop_last());
        reveal_with_fuel(file_run, 2);
    }
}

/// A credential is never removed: the one that stands there is moved away.
pub proof fn law_credentials_are_never_removed(force: bool, stage: FileStage, signal: FileSignal)
    ensures
        file_step(Artifact::Credential, force, stage, signal).1 != FileRequest::Remove,
        stage == FileStage::ProbingAgain && signal == FileSignal::Found(true) ==> file_step(
            Artifact::Credential,
            force,
            stage,
            signal,
        ).1 == FileRequest::Preserve,
{
}

/// Where a new credential cannot be moved to its place, the previous one is moved back, whatever comes
/// of removing the temporary file.
pub proof fn law_a_failed_credential_is_undone(force: bool, discarded: bool)
    ensures
        ({
            let failed = file_step(
                Artifact::Credential,
                force,
                FileStage::Promoting { preserved: true },
                FileSignal::Worked(false),
            );
            let after = file_step(
                Artifact::Credential,
                force,
                failed.0,
                FileSignal::Worked(discarded),
            );
            failed.1 == FileRequest::Discard && after.1 == FileRequest::PutBack
        }),
{
}

} // verus!
