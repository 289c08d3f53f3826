//! Putting a database back from a backup, without losing the one that stood there.

use crate::text;
use crate::text::{decimal, lemma_position_unique, split_at_each, without_leading};
use crate::web::{parse_url, parsed_url, percent_decode, percent_decoded, UrlView};
use vstd::prelude::*;
use vstd::utf8::{encode_utf8, is_ascii_chars_encode_utf8};

verus! {

// ------------------------------------------------------------------------------------------------
// SQLite

/// The file that a connection URL of SQLite names.
pub open spec fn database_file(url: Seq<char>) -> Option<Seq<char>> {
    if "sqlite://"@.is_prefix_of(url) {
        let path = split_at_each(url.skip("sqlite://"@.len() as int), '?')[0];
        if path.len() > 0 && path != ":memory:"@ {
            Some(path)
        } else {
            None
        }
    } else {
        None
    }
}

/// The file that a connection URL of SQLite names; there is none for a database in memory.
pub fn sqlite_database_path(database_url: &str) -> (r: Result<String, RestoreError>)
    ensures
        match r {
            Ok(path) => database_file(database_url@) == Some(path@),
            Err(error) => database_file(database_url@) is None && error
                == RestoreError::NotFileBacked,
        },
{
    let rest: &str = match text::strip_prefix(database_url, "sqlite://") {
        Some(rest) => rest,
        None => return Err(RestoreError::NotFileBacked),
    };
    proof {
        text::lemma_position(rest@, '?');
    }
    let path: &str = match text::split_once(rest, '?') {
        Some((path, _)) => path,
        None => rest,
    };
    assert(path@ == split_at_each(rest@, '?')[0]);
    if path.unicode_len() == 0 || text::same(path, ":memory:") {
        return Err(RestoreError::NotFileBacked);
    }
    Ok(text::owned(path))
}

/// The files of a SQLite database: the database, its write-ahead log and its shared memory.
pub fn database_sidecars(database: &str) -> (r: [String; 3])
    ensures
        r@[0]@ == database@,
        r@[1]@ == database@ + "-wal"@,
        r@[2]@ == database@ + "-shm"@,
{
    [text::owned(database), text::join2(database, "-wal"), text::join2(database, "-shm")]
}

/// Why a database is not put back.
#[derive(Clone, Copy, Debug, PartialEq, Eq, Structural)]
pub enum RestoreError {
    NotConfirmed,
    NotFileBacked,
    SameFile,
    Unreadable,
    NotSqlite,
    Parent,
    Recovery,
    /// One of the database's files could not be kept.
    Preserve,
    Copy,
    Protect,
    NotPostgres,
    InvalidUrl,
    Undecodable,
    Unnamed,
}

impl RestoreError {
    /// What the operator is told.
    pub fn message(&self) -> (r: &'static str)
        ensures
            r@ == restore_message(*self),
    {
        match self {
            RestoreError::NotConfirmed => "restore requires --confirm-restore",
            RestoreError::NotFileBacked => {
                "restore requires a file-backed sqlite:// database URL"
            },
            RestoreError::SameFile => "restore source and destination must be different files",
            RestoreError::Unreadable => "read SQLite restore header",
            RestoreError::NotSqlite => "restore source is not a SQLite database",
            RestoreError::Parent => "create restore destination directory",
            RestoreError::Recovery => "create recoverable pre-restore directory",
            RestoreError::Preserve => "preserve pre-restore database state",
            RestoreError::Copy => "copy restored database",
            RestoreError::Protect => "protect restored database permissions",
            RestoreError::NotPostgres => {
                "PostgreSQL restore requires a pg_dump custom-format backup"
            },
            RestoreError::InvalidUrl => "parse PostgreSQL restore URL",
            RestoreError::Undecodable => "decode PostgreSQL connection settings",
            RestoreError::Unnamed => "PostgreSQL restore URL must name a database",
        }
    }
}

/// What the operator is told.
pub open spec fn restore_message(error: RestoreError) -> Seq<char> {
    match error {
        RestoreError::NotConfirmed => "restore requires --confirm-restore"@,
        RestoreError::NotFileBacked => {
            "restore requires a file-backed sqlite:// database URL"@
        },
        RestoreError::SameFile => "restore source and destination must be different files"@,
        RestoreError::Unreadable => "read SQLite restore header"@,
        RestoreError::NotSqlite => "restore source is not a SQLite database"@,
        RestoreError::Parent => "create restore destination directory"@,
        RestoreError::Recovery => "create recoverable pre-restore directory"@,
        RestoreError::Preserve => "preserve pre-restore database state"@,
        RestoreError::Copy => "copy restored database"@,
        RestoreError::Protect => "protect restored database permissions"@,
        RestoreError::NotPostgres => {
            "PostgreSQL restore requires a pg_dump custom-format backup"@
        },
        RestoreError::InvalidUrl => "parse PostgreSQL restore URL"@,
        RestoreError::Undecodable => "decode PostgreSQL connection settings"@,
        RestoreError::Unnamed => "PostgreSQL restore URL must name a database"@,
    }
}

/// The sixteen bytes with which a SQLite database begins.
pub open spec fn sqlite_header() -> Seq<u8> {
    seq![83u8, 81, 76, 105, 116, 101, 32, 102, 111, 114, 109, 97, 116, 32, 51, 0]
}

/// Whether bytes are those with which a SQLite database begins.
pub fn is_sqlite_header(header: &[u8]) -> (r: bool)
    ensures
        r == (header@ == sqlite_header()),
{
    let expected: [u8; 16] = [83, 81, 76, 105, 116, 101, 32, 102, 111, 114, 109, 97, 116, 32, 51, 0];
    assert(expected@ =~= sqlite_header());
    text::same_bytes(header, expected.as_slice())
}

/// How far a restoration has come. The database's files are numbered as in `database_sidecars`.
#[derive(Clone, Copy, Debug, PartialEq, Eq, Structural)]
pub enum RestoreStage {
    /// It finds out whether the backup is the database itself.
    Comparing,
    /// It reads how the backup begins.
    Reading,
    /// It makes the directory of the database.
    MakingParent,
    /// It finds out whether there is a database already.
    LookingUp,
    /// It makes the directory in which the old files are kept.
    MakingRecovery,
    /// It finds out whether a file of the old database is there.
    Probing(u8),
    /// It moves a file of the old database away.
    Preserving(u8),
    /// It copies the backup; a database stood there or not.
    Copying { replaced: bool },
    /// The copy failed: it removes what was copied.
    Removing,
    /// It finds out whether a file of the old database was kept.
    ProbingKept(u8),
    /// It moves a file of the old database back.
    PuttingBack(u8),
    /// It keeps others from reading the database.
    Protecting,
    Done,
}

/// How moving a file went.
#[derive(Clone, Copy, Debug, PartialEq, Eq, Structural)]
pub enum Move {
    Moved,
    /// The file had gone meanwhile.
    NotFound,
    Failed,
}

/// What has come back.
pub enum RestoreSignal {
    /// Whether it is so.
    Found(bool),
    /// The first sixteen bytes of the backup, where they could be read.
    Header(Option<Vec<u8>>),
    /// Whether it worked.
    Worked(bool),
    Moved(Move),
}

/// What is to be done next.
#[derive(Clone, Copy, Debug, PartialEq, Eq, Structural)]
pub enum RestoreRequest {
    /// Hand the backup to PostgreSQL's own tool.
    RestorePostgres,
    Compare,
    ReadHeader,
    MakeParent,
    LookUp,
    MakeRecovery,
    Probe(u8),
    Preserve(u8),
    Copy,
    Remove,
    ProbeKept(u8),
    PutBack(u8),
    Protect,
    Finish,
    Fail(RestoreError),
    /// What came back is not what was asked for.
    Unexpected,
}

/// A restoration that fails.
pub open spec fn restore_failure(error: RestoreError) -> (RestoreStage, RestoreRequest) {
    (RestoreStage::Done, RestoreRequest::Fail(error))
}

/// How a restoration begins: it has to be confirmed.
pub open spec fn restore_start(url: Seq<char>, confirmed: bool) -> (RestoreStage, RestoreRequest) {
    if !confirmed {
        restore_failure(RestoreError::NotConfirmed)
    } else if "postgres:"@.is_prefix_of(url) || "postgresql:"@.is_prefix_of(url) {
        (RestoreStage::Done, RestoreRequest::RestorePostgres)
    } else if database_file(url) is None {
        restore_failure(RestoreError::NotFileBacked)
    } else {
        (RestoreStage::Comparing, RestoreRequest::Compare)
    }
}

/// What follows the `k`-th file of the old database.
pub open spec fn after_file(k: u8) -> (RestoreStage, RestoreRequest) {
    if k >= 2 {
        (RestoreStage::Copying { replaced: true }, RestoreRequest::Copy)
    } else {
        (RestoreStage::Probing((k + 1) as u8), RestoreRequest::Probe((k + 1) as u8))
    }
}

/// What follows the `k`-th file that was kept, once the copy has failed.
pub open spec fn after_kept(k: u8) -> (RestoreStage, RestoreRequest) {
    if k >= 2 {
        restore_failure(RestoreError::Copy)
    } else {
        (RestoreStage::ProbingKept((k + 1) as u8), RestoreRequest::ProbeKept((k + 1) as u8))
    }
}

/// What a restoration does next, and how far it is then.
pub open spec fn restore_step(stage: RestoreStage, signal: RestoreSignal) -> (
    RestoreStage,
    RestoreRequest,
) {
    match (stage, signal) {
        (RestoreStage::Comparing, RestoreSignal::Found(same)) => if same {
            restore_failure(RestoreError::SameFile)
        } else {
            (RestoreStage::Reading, RestoreRequest::ReadHeader)
        },
        (RestoreStage::Reading, RestoreSignal::Header(None)) => restore_failure(
            RestoreError::Unreadable,
        ),
        (RestoreStage::Reading, RestoreSignal::Header(Some(header))) => if header@
            == sqlite_header() {
            (RestoreStage::MakingParent, RestoreRequest::MakeParent)
        } else {
            restore_failure(RestoreError::NotSqlite)
        },
        (RestoreStage::MakingParent, RestoreSignal::Worked(worked)) => if worked {
            (RestoreStage::LookingUp, RestoreRequest::LookUp)
        } else {
            restore_failure(RestoreError::Parent)
        },
        (RestoreStage::LookingUp, RestoreSignal::Found(found)) => if found {
            (RestoreStage::MakingRecovery, RestoreRequest::MakeRecovery)
        } else {
            (RestoreStage::Copying { replaced: false }, RestoreRequest::Copy)
        },
        (RestoreStage::MakingRecovery, RestoreSignal::Worked(worked)) => if worked {
            (RestoreStage::Probing(0), RestoreRequest::Probe(0))
        } else {
            restore_failure(RestoreError::Recovery)
        },
        (RestoreStage::Probing(k), RestoreSignal::Found(found)) => if found {
            (RestoreStage::Preserving(k), RestoreRequest::Preserve(k))
        } else {
            after_file(k)
        },
        (RestoreStage::Preserving(k), RestoreSignal::Moved(moved)) => if moved == Move::Moved || (
        moved == Move::NotFound && k != 0) {
            after_file(k)
        } else {
            restore_failure(RestoreError::Preserve)
        },
        (RestoreStage::Copying { replaced }, RestoreSignal::Worked(worked)) => if worked {
            (RestoreStage::Protecting, RestoreRequest::Protect)
        } else if replaced {
            (RestoreStage::Removing, RestoreRequest::Remove)
        } else {
            restore_failure(RestoreError::Copy)
        },
        (RestoreStage::Removing, RestoreSignal::Worked(_)) => (
            RestoreStage::ProbingKept(0),
            RestoreRequest::ProbeKept(0),
        ),
        (RestoreStage::ProbingKept(k), RestoreSignal::Found(found)) => if found {
            (RestoreStage::PuttingBack(k), RestoreRequest::PutBack(k))
        } else {
            after_kept(k)
        },
        (RestoreStage::PuttingBack(k), RestoreSignal::Moved(_)) => after_kept(k),
        (RestoreStage::Protecting, RestoreSignal::Worked(worked)) => if worked {
            (RestoreStage::Done, RestoreRequest::Finish)
        } else {
            restore_failure(RestoreError::Protect)
        },
        _ => (stage, RestoreRequest::Unexpected),
    }
}

/// A restoration that is being carried out.
#[derive(Clone, Copy)]
pub struct Restoration {
    pub stage: RestoreStage,
}

impl Restoration {
    /// Begins a restoration, which has to be confirmed.
    pub fn restore_database(database_url: &str, confirmed: bool) -> (r: (Restoration, RestoreRequest))
        ensures
            (r.0.stage, r.1) == restore_start(database_url@, confirmed),
    {
        if !confirmed {
            return (
                Restoration { stage: RestoreStage::Done },
                RestoreRequest::Fail(RestoreError::NotConfirmed),
            );
        }
        if text::starts_with(database_url, "postgres:") || text::starts_with(
            database_url,
            "postgresql:",
        ) {
            return (Restoration { stage: RestoreStage::Done }, RestoreRequest::RestorePostgres);
        }
        match sqlite_database_path(database_url) {
            Ok(_) => (Restoration { stage: RestoreStage::Comparing }, RestoreRequest::Compare),
            Err(_) => (
                Restoration { stage: RestoreStage::Done },
                RestoreRequest::Fail(RestoreError::NotFileBacked),
            ),
        }
    }

    fn go(&mut self, stage: RestoreStage, request: RestoreRequest) -> (r: RestoreRequest)
        ensures
            final(self).stage == stage,
            r == request,
    {
        self.stage = stage;
        request
    }

    fn fail(&mut self, error: RestoreError) -> (request: RestoreRequest)
        ensures
            (final(self).stage, request) == restore_failure(error),
    {
        self.stage = RestoreStage::Done;
        RestoreRequest::Fail(error)
    }

    fn file_done(&mut self, k: u8) -> (request: RestoreRequest)
        ensures
            (final(self).stage, request) == after_file(k),
    {
        if k >= 2 {
            self.go(RestoreStage::Copying { replaced: true }, RestoreRequest::Copy)
        } else {
            self.go(RestoreStage::Probing(k + 1), RestoreRequest::Probe(k + 1))
        }
    }

    fn kept_done(&mut self, k: u8) -> (request: RestoreRequest)
        ensures
            (final(self).stage, request) == after_kept(k),
    {
        if k >= 2 {
            self.fail(RestoreError::Copy)
        } else {
            self.go(RestoreStage::ProbingKept(k + 1), RestoreRequest::ProbeKept(k + 1))
        }
    }

    /// Takes what has come back, and tells what is to be done next.
    pub fn next(&mut self, signal: RestoreSignal) -> (request: RestoreRequest)
        ensures
            (final(self).stage, request) == restore_step(old(self).stage, signal),
    {
        match (self.stage, signal) {
            (RestoreStage::Comparing, RestoreSignal::Found(same)) => {
                if same {
                    self.fail(RestoreError::SameFile)
                } else {
                    self.go(RestoreStage::Reading, RestoreRequest::ReadHeader)
                }
            },
            (RestoreStage::Reading, RestoreSignal::Header(header)) => match header {
                Some(header) => {
                    if is_sqlite_header(header.as_slice()) {
                        self.go(RestoreStage::MakingParent, RestoreRequest::MakeParent)
                    } else {
                        self.fail(RestoreError::NotSqlite)
                    }
                },
                None => self.fail(RestoreError::Unreadable),
            },
            (RestoreStage::MakingParent, RestoreSignal::Worked(worked)) => {
                if worked {
                    self.go(RestoreStage::LookingUp, RestoreRequest::LookUp)
                } else {
                    self.fail(RestoreError::Parent)
                }
            },
            (RestoreStage::LookingUp, RestoreSignal::Found(found)) => {
                if found {
                    self.go(RestoreStage::MakingRecovery, RestoreRequest::MakeRecovery)
                } else {
                    self.go(RestoreStage::Copying { replaced: false }, RestoreRequest::Copy)
                }
            },
            (RestoreStage::MakingRecovery, RestoreSignal::Worked(worked)) => {
                if worked {
                    self.go(RestoreStage::Probing(0), RestoreRequest::Probe(0))
                } else {
                    self.fail(RestoreError::Recovery)
                }
            },
            (RestoreStage::Probing(k), RestoreSignal::Found(found)) => {
                if found {
                    self.go(RestoreStage::Preserving(k), RestoreRequest::Preserve(k))
                } else {
                    self.file_done(k)
                }
            },
            (RestoreStage::Preserving(k), RestoreSignal::Moved(moved)) => {
                if moved == Move::Moved || (moved == Move::NotFound && k != 0) {
                    self.file_done(k)
                } else {
                    self.fail(RestoreError::Preserve)
                }
            },
            (RestoreStage::Copying { replaced }, RestoreSignal::Worked(worked)) => {
                if worked {
                    self.go(RestoreStage::Protecting, RestoreRequest::Protect)
                } else if replaced {
                    self.go(RestoreStage::Removing, RestoreRequest::Remove)
                } else {
                    self.fail(RestoreError::Copy)
                }
            },
            (RestoreStage::Removing, RestoreSignal::Worked(_)) => {
                self.go(RestoreStage::ProbingKept(0), RestoreRequest::ProbeKept(0))
            },
            (RestoreStage::ProbingKept(k), RestoreSignal::Found(found)) => {
                if found {
                    self.go(RestoreStage::PuttingBack(k), RestoreRequest::PutBack(k))
                } else {
                    self.kept_done(k)
                }
            },
            (RestoreStage::PuttingBack(k), RestoreSignal::Moved(_)) => self.kept_done(k),
            (RestoreStage::Protecting, RestoreSignal::Worked(worked)) => {
                if worked {
                    self.go(RestoreStage::Done, RestoreRequest::Finish)
                } else {
                    self.fail(RestoreError::Protect)
                }
            },
            _ => RestoreRequest::Unexpected,
        }
    }
}

/// How far a restoration is after all that has come back.
pub open spec fn restore_run(signals: Seq<RestoreSignal>) -> RestoreStage
    decreases signals.len(),
{
    if signals.len() == 0 {
        RestoreStage::Comparing
    } else {
        restore_step(restore_run(signals.drop_last()), signals.last()).0
    }
}

/// Whether a restoration has seen that the old database file is safe: it was moved away, or it was not
/// there.
pub open spec fn database_safe(signals: Seq<RestoreSignal>) -> bool {
    exists|i: int|
        0 <= i < signals.len() && ((restore_run(signals.take(i)) == RestoreStage::Preserving(0)
            && (#[trigger] signals[i]) == RestoreSignal::Moved(Move::Moved)) || (restore_run(
            signals.take(i),
        ) == RestoreStage::Probing(0) && signals[i] == RestoreSignal::Found(false)))
}

/// Nothing happens to a database without confirmation.
pub proof fn law_a_restoration_is_confirmed(url: Seq<char>)
    ensures
        restore_start(url, false) == (
            RestoreStage::Done,
            RestoreRequest::Fail(RestoreError::NotConfirmed),
        ),
{
}

/// Before a backup is copied over a database that stood there, the old database file is safe.
pub proof fn law_the_old_database_is_kept(signals: Seq<RestoreSignal>)
    requires
        restore_run(signals) == (RestoreStage::Copying { replaced: true }),
    ensures
        database_safe(signals),
{
    lemma_kept(signals);
}

proof fn lemma_kept(signals: Seq<RestoreSignal>)
    ensures
        match restore_run(signals) {
            RestoreStage::Probing(k) => k > 0 ==> database_safe(signals),
            RestoreStage::Preserving(k) => k > 0 ==> database_safe(signals),
            RestoreStage::Copying { replaced } => replaced ==> database_safe(signals),
            _ => true,
        },
    decreases signals.len(),
{
    if signals.len() > 0 {
        let before = signals.drop_last();
        let n = signals.len() - 1;
        lemma_kept(before);
        assert(signals.take(n) =~= before);
        assert(signals.last() == signals[n]);
        if database_safe(before) {
            let i = choose|i: int|
                0 <= i < before.len() && ((restore_run(before.take(i))
                    == RestoreStage::Preserving(0) && (#[trigger] before[i])
                    == RestoreSignal::Moved(Move::Moved)) || (restore_run(before.take(i))
                    == RestoreStage::Probing(0) && before[i] == RestoreSignal::Found(false)));
            assert(signals[i] == before[i]);
            assert(signals.take(i) =~= before.take(i));
        }
    }
}

/// A copy that failed over a database that stood there ends in failure, and not before each of the old
/// files that were kept has been moved back: from the failed copy on, a restoration only removes what
/// was copied and goes through the three files in order.
pub proof fn law_a_failed_copy_is_undone(k: u8, kept: bool, moved: Move)
    requires
        k < 3,
    ensures
        restore_step(
            RestoreStage::Copying { replaced: true },
            RestoreSignal::Worked(false),
        ) == (RestoreStage::Removing, RestoreRequest::Remove),
        restore_step(RestoreStage::Removing, RestoreSignal::Worked(kept)).1
            == RestoreRequest::ProbeKept(0),
        restore_step(RestoreStage::ProbingKept(k), RestoreSignal::Found(true))
            == (RestoreStage::PuttingBack(k), RestoreRequest::PutBack(k)),
        restore_step(RestoreStage::ProbingKept(k), RestoreSignal::Found(false)) == restore_step(
            RestoreStage::PuttingBack(k),
            RestoreSignal::Moved(moved),
        ),
        k < 2 ==> restore_step(RestoreStage::PuttingBack(k), RestoreSignal::Moved(moved)).1
            == RestoreRequest::ProbeKept((k + 1) as u8),
        k == 2 ==> restore_step(RestoreStage::PuttingBack(k), RestoreSignal::Moved(moved)).1
            == RestoreRequest::Fail(RestoreError::Copy),
{
}

// ------------------------------------------------------------------------------------------------
// PostgreSQL

/// A text under a name.
pub type Setting = (Seq<char>, Seq<char>);

/// What PostgreSQL's own tool is given: the database's name and the environment.
pub struct PostgresRestore {
    pub database: String,
    pub environment: Vec<(String, String)>,
}

/// The environment variable of a connection setting.
pub open spec fn setting_variable(name: Seq<char>) -> Option<Seq<char>> {
    if name == "sslmode"@ {
        Some("PGSSLMODE"@)
    } else if name == "sslrootcert"@ {
        Some("PGSSLROOTCERT"@)
    } else if name == "sslcert"@ {
        Some("PGSSLCERT"@)
    } else if name == "sslkey"@ {
        Some("PGSSLKEY"@)
    } else {
        None
    }
}

/// The environment variable of a connection setting.
fn variable_of(name: &str) -> (r: Option<&'static str>)
    ensures
        match r {
            Some(variable) => setting_variable(name@) == Some(variable@),
            None => setting_variable(name@) is None,
        },
{
    if text::same(name, "sslmode") {
        Some("PGSSLMODE")
    } else if text::same(name, "sslrootcert") {
        Some("PGSSLROOTCERT")
    } else if text::same(name, "sslcert") {
        Some("PGSSLCERT")
    } else if text::same(name, "sslkey") {
        Some("PGSSLKEY")
    } else {
        None
    }
}

/// The environment with the first `n` settings of a query that have a variable.
pub open spec fn with_settings(environment: Seq<Setting>, pairs: Seq<Setting>, n: nat) -> Seq<Setting>
    decreases n,
{
    if n == 0 {
        environment
    } else {
        let before = with_settings(environment, pairs, (n - 1) as nat);
        match setting_variable(pairs[n - 1].0) {
            Some(variable) => before.push((variable, pairs[n - 1].1)),
            None => before,
        }
    }
}

/// The environment with one more variable, where there is a value for it.
pub open spec fn with_variable(
    environment: Seq<Setting>,
    name: Seq<char>,
    value: Option<Seq<char>>,
) -> Seq<Setting> {
    match value {
        Some(value) => environment.push((name, value)),
        None => environment,
    }
}

/// What PostgreSQL's own tool is given for a connection URL.
pub open spec fn postgres_settings(url: UrlView) -> Result<(Seq<char>, Seq<Setting>), RestoreError> {
    let user = if url.username.len() == 0 {
        Some(None)
    } else {
        match percent_decoded(url.username) {
            Some(user) => Some(Some(user)),
            None => None,
        }
    };
    let password = match url.password {
        None => Some(None),
        Some(password) => match percent_decoded(password) {
            Some(password) => Some(Some(password)),
            None => None,
        },
    };
    match percent_decoded(without_leading(url.path, '/')) {
        None => Err(RestoreError::Undecodable),
        Some(database) => if database.len() == 0 {
            Err(RestoreError::Unnamed)
        } else {
            match (user, password) {
                (Some(user), Some(password)) => {
                    let host = with_variable(Seq::empty(), "PGHOST"@, url.host);
                    let port = with_variable(
                        host,
                        "PGPORT"@,
                        match url.port {
                            Some(port) => Some(decimal(port as nat)),
                            None => None,
                        },
                    );
                    let named = with_variable(port, "PGUSER"@, user);
                    let opened = with_variable(named, "PGPASSWORD"@, password);
                    Ok((database, with_settings(opened, url.query_pairs, url.query_pairs.len())))
                },
                _ => Err(RestoreError::Undecodable),
            }
        },
    }
}

/// What an environment says.
pub open spec fn environment_view(environment: Seq<(String, String)>) -> Seq<Setting> {
    environment.map_values(|setting: (String, String)| (setting.0@, setting.1@))
}

/// Adds a variable to an environment.
fn set_variable(environment: &mut Vec<(String, String)>, name: &str, value: String)
    ensures
        environment_view(final(environment)@) == environment_view(old(environment)@).push(
            (name@, value@),
        ),
{
    environment.push((text::owned(name), value));
    assert(environment_view(environment@) =~= environment_view(old(environment)@).push(
        (name@, value@),
    ));
}

/// Prepares PostgreSQL's own tool for a backup that begins with these five bytes. The password goes
/// into the environment and not among the arguments.
pub fn restore_postgres_database(header: &[u8], database_url: &str) -> (r: Result<
    PostgresRestore,
    RestoreError,
>)
    ensures
        header@ != postgres_header() ==> r is Err && r->Err_0 == RestoreError::NotPostgres,
        header@ == postgres_header() ==> match parsed_url(database_url@) {
            None => r is Err && r->Err_0 == RestoreError::InvalidUrl,
            Some(url) => match postgres_settings(url) {
                Ok((database, environment)) => r is Ok && r->Ok_0.database@ == database
                    && environment_view(r->Ok_0.environment@) == environment,
                Err(error) => r is Err && r->Err_0 == error,
            },
        },
{
    let expected: [u8; 5] = [80, 71, 68, 77, 80];
    assert(expected@ =~= postgres_header());
    if !text::same_bytes(header, expected.as_slice()) {
        return Err(RestoreError::NotPostgres);
    }
    let url = match parse_url(database_url) {
        Some(url) => url,
        None => return Err(RestoreError::InvalidUrl),
    };
    let ghost view = url@;
    let path = text::trim_start_matches(url.path.as_str(), '/');
    let database: String = match percent_decode(path) {
        Some(database) => database,
        None => return Err(RestoreError::Undecodable),
    };
    if database.as_str().unicode_len() == 0 {
        return Err(RestoreError::Unnamed);
    }
    let mut environment: Vec<(String, String)> = Vec::new();
    assert(environment_view(environment@) =~= Seq::empty());
    if let Some(host) = url.host {
        set_variable(&mut environment, "PGHOST", host);
    }
    if let Some(port) = url.port {
        set_variable(&mut environment, "PGPORT", text::decimal_of(port as u64));
    }
    if url.username.as_str().unicode_len() != 0 {
        match percent_decode(url.username.as_str()) {
            Some(user) => set_variable(&mut environment, "PGUSER", user),
            None => return Err(RestoreError::Undecodable),
        }
    }
    if let Some(password) = url.password {
        match percent_decode(password.as_str()) {
            Some(password) => set_variable(&mut environment, "PGPASSWORD", password),
            None => return Err(RestoreError::Undecodable),
        }
    }
    let ghost opened = environment_view(environment@);
    let ghost pairs = view.query_pairs;
    let given: Vec<(String, String)> = url.query_pairs;
    let mut i: usize = 0;
    while i < given.len()
        invariant
            i <= given@.len(),
            pairs == given@.map_values(|pair: (String, String)| (pair.0@, pair.1@)),
            environment_view(environment@) == with_settings(opened, pairs, i as nat),
        decreases given@.len() - i,
    {
        assert(pairs[i as int] == (given@[i as int].0@, given@[i as int].1@));
        if let Some(variable) = variable_of(given[i].0.as_str()) {
            set_variable(&mut environment, variable, given[i].1.clone());
        }
        i += 1;
    }
    Ok(PostgresRestore { database, environment })
}

/// The five bytes with which a custom-format backup of PostgreSQL begins.
pub open spec fn postgres_header() -> Seq<u8> {
    seq![80u8, 71, 68, 77, 80]
}

// ------------------------------------------------------------------------------------------------
// What a restoration comes to

/// The bytes with which files begin are the words of their formats.
pub proof fn law_headers_are_the_words_of_their_formats()
    ensures
        sqlite_header() == encode_utf8("SQLite format 3"@).push(0),
        postgres_header() == encode_utf8("PGDMP"@),
{
    reveal_strlit("SQLite format 3");
    reveal_strlit("PGDMP");
    is_ascii_chars_encode_utf8("SQLite format 3"@);
    is_ascii_chars_encode_utf8("PGDMP"@);
    assert(sqlite_header() =~= encode_utf8("SQLite format 3"@).push(0));
    assert(postgres_header() =~= encode_utf8("PGDMP"@));
}

/// The file of a database is what its address names, with or without settings behind it; one in memory has
/// no file.
pub proof fn law_the_file_is_what_the_address_names(path: Seq<char>, settings: Seq<char>)
    requires
        !path.contains('?'),
        path.len() > 0,
        path != ":memory:"@,
    ensures
        database_file("sqlite://"@ + path) == Some(path),
        database_file("sqlite://"@ + path + seq!['?'] + settings) == Some(path),
        database_file("sqlite://"@ + ":memory:"@) is None,
{
    let head = "sqlite://"@;
    let n = path.len() as int;
    assert forall|j: int| 0 <= j < n implies path[j] != '?' by {
        assert(path.contains(path[j]));
    }
    let plain = head + path;
    assert(head.is_prefix_of(plain));
    assert(plain.skip(head.len() as int) =~= path);
    lemma_position_unique(path, '?', n);
    assert(split_at_each(path, '?')[0] == path);
    let longer = head + path + seq!['?'] + settings;
    let rest = path + seq!['?'] + settings;
    assert(head.is_prefix_of(longer));
    assert(longer.skip(head.len() as int) =~= rest);
    lemma_position_unique(rest, '?', n);
    assert(split_at_each(rest, '?')[0] =~= rest.take(n));
    assert(rest.take(n) =~= path);
    let memory = head + ":memory:"@;
    assert(head.is_prefix_of(memory));
    assert(memory.skip(head.len() as int) =~= ":memory:"@);
    reveal_strlit(":memory:");
    lemma_position_unique(":memory:"@, '?', ":memory:"@.len() as int);
    assert(split_at_each(":memory:"@, '?')[0] == ":memory:"@);
}

/// Whether it was found out that a backup is another file than the database, and a database of its kind.
pub open spec fn source_checked(signals: Seq<RestoreSignal>) -> bool {
    &&& signals.len() >= 2
    &&& signals.contains(RestoreSignal::Found(false))
    &&& exists|i: int|
        0 <= i < signals.len() && (#[trigger] signals[i] matches RestoreSignal::Header(Some(header))
            && header@ == sqlite_header())
}

/// Nothing of the database is touched before it was found out that the backup is another file, and one of
/// its kind.
pub proof fn law_the_source_is_checked_first(signals: Seq<RestoreSignal>)
    ensures
        ({
            let stage = restore_run(signals);
            &&& !(stage is Comparing) && !(stage is Reading) && !(stage is Done) ==> source_checked(
                signals,
            )
            &&& stage is Reading ==> signals.contains(RestoreSignal::Found(false))
        }),
    decreases signals.len(),
{
    if signals.len() > 0 {
        let before = signals.drop_last();
        law_the_source_is_checked_first(before);
        let n = signals.len() - 1;
        assert(signals[n] == signals.last());
        if before.contains(RestoreSignal::Found(false)) {
            let i = choose|i: int|
                0 <= i < before.len() && before[i] == RestoreSignal::Found(false);
            assert(signals[i] == RestoreSignal::Found(false));
        }
        if source_checked(before) {
            let i = choose|i: int|
                0 <= i < before.len() && (#[trigger] before[i] matches RestoreSignal::Header(
                    Some(header),
                ) && header@ == sqlite_header());
            assert(signals[i] == before[i]);
        }
    }
}

/// All the files of the old database are moved away, one after the other, before the backup is copied; a side
/// file that has gone meanwhile does not matter, the database itself does.
pub proof fn law_every_old_file_is_moved_away(k: u8, signal: RestoreSignal)
    requires
        k < 3,
    ensures
        ({
            let next = if k < 2 {
                (RestoreStage::Probing((k + 1) as u8), RestoreRequest::Probe((k + 1) as u8))
            } else {
                (RestoreStage::Copying { replaced: true }, RestoreRequest::Copy)
            };
            &&& restore_step(RestoreStage::Probing(k), RestoreSignal::Found(true)) == (
                RestoreStage::Preserving(k),
                RestoreRequest::Preserve(k),
            )
            &&& restore_step(RestoreStage::Probing(k), RestoreSignal::Found(false)) == next
            &&& restore_step(RestoreStage::Preserving(k), RestoreSignal::Moved(Move::Moved)) == next
            &&& restore_step(RestoreStage::Preserving(k), RestoreSignal::Moved(Move::Failed)).1
                == RestoreRequest::Fail(RestoreError::Preserve)
            &&& k > 0 ==> restore_step(
                RestoreStage::Preserving(k),
                RestoreSignal::Moved(Move::NotFound),
            ) == next
            &&& k == 0 ==> restore_step(
                RestoreStage::Preserving(k),
                RestoreSignal::Moved(Move::NotFound),
            ).1 == RestoreRequest::Fail(RestoreError::Preserve)
            &&& restore_step(RestoreStage::LookingUp, RestoreSignal::Found(true)).1
                == RestoreRequest::MakeRecovery
            &&& restore_step(RestoreStage::MakingRecovery, RestoreSignal::Worked(true)).1
                == RestoreRequest::Probe(0)
        }),
{
}

/// A restoration is finished only after the copy was made and kept from others, and it fails in no silent
/// way: each step that does not work is told.
pub proof fn law_a_restoration_finishes_protected(stage: RestoreStage, signal: RestoreSignal)
    ensures
        restore_step(stage, signal).1 is Finish ==> stage is Protecting && signal
            == RestoreSignal::Worked(true),
        restore_step(stage, signal).1 is Protect ==> stage is Copying && signal
            == RestoreSignal::Worked(true),
        restore_step(stage, signal).0 is Done && !(stage is Done) ==> restore_step(stage, signal).1
            is Finish || restore_step(stage, signal).1 is Fail,
        restore_step(stage, signal).1 is Fail ==> restore_step(stage, signal).0 is Done,
{
}

/// The settings with which PostgreSQL's own tool is called are those of the address: its host, its port, its
/// user and its password, each where it has one.
pub proof fn law_postgres_is_called_as_the_address_says(url: UrlView)
    requires
        postgres_settings(url) is Ok,
        url.query_pairs.len() == 0,
    ensures
        ({
            let (database, environment) = postgres_settings(url)->Ok_0;
            &&& percent_decoded(without_leading(url.path, '/')) == Some(database)
            &&& database.len() > 0
            &&& url.host matches Some(host) ==> environment.contains(("PGHOST"@, host))
            &&& url.port matches Some(port) ==> environment.contains(
                ("PGPORT"@, decimal(port as nat)),
            )
            &&& url.username.len() > 0 ==> environment.contains(
                ("PGUSER"@, percent_decoded(url.username)->0),
            )
            &&& url.password matches Some(password) ==> environment.contains(
                ("PGPASSWORD"@, percent_decoded(password)->0),
            )
        }),
{
    let (database, environment) = postgres_settings(url)->Ok_0;
    let host = with_variable(Seq::empty(), "PGHOST"@, url.host);
    let port = with_variable(
        host,
        "PGPORT"@,
        match url.port {
            Some(port) => Some(decimal(port as nat)),
            None => None,
        },
    );
    let user = if url.username.len() == 0 {
        None
    } else {
        Some(percent_decoded(url.username)->0)
    };
    let password = match url.password {
        None => None,
        Some(password) => Some(percent_decoded(password)->0),
    };
    let named = with_variable(port, "PGUSER"@, user);
    assert(environment == with_variable(named, "PGPASSWORD"@, password));
    if url.host is Some {
        assert(environment[0] == ("PGHOST"@, url.host->0));
    }
    if url.port is Some {
        assert(environment[port.len() - 1] == ("PGPORT"@, decimal(url.port->0 as nat)));
    }
    if user is Some {
        assert(environment[named.len() - 1] == ("PGUSER"@, user->0));
    }
    if password is Some {
        assert(environment[environment.len() - 1] == ("PGPASSWORD"@, password->0));
    }
}

} // verus!
