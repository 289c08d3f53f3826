//! Statements that both supported databases accept.

use crate::text;
use crate::text::decimal;
use vstd::prelude::*;

verus! {

/// Which database holds the controller's state.
#[derive(Clone, Copy, Debug, PartialEq, Eq, Structural)]
pub enum DatabaseDialect {
    Sqlite,
    Postgres,
}

/// Which database a connection URL speaks of.
pub open spec fn url_dialect(url: Seq<char>) -> Option<DatabaseDialect> {
    if "sqlite:"@.is_prefix_of(url) {
        Some(DatabaseDialect::Sqlite)
    } else if "postgres:"@.is_prefix_of(url) || "postgresql:"@.is_prefix_of(url) {
        Some(DatabaseDialect::Postgres)
    } else {
        None
    }
}

/// Which database a connection URL speaks of.
pub fn dialect_of(url: &str) -> (r: Option<DatabaseDialect>)
    ensures
        r == url_dialect(url@),
{
    if text::starts_with(url, "sqlite:") {
        Some(DatabaseDialect::Sqlite)
    } else if text::starts_with(url, "postgres:") || text::starts_with(url, "postgresql:") {
        Some(DatabaseDialect::Postgres)
    } else {
        None
    }
}

/// The number of the parameter after the `n`-th; it stops at the greatest that 16 bits hold.
pub open spec fn next_parameter(n: nat) -> nat {
    if n < u16::MAX {
        n + 1
    } else {
        n
    }
}

/// A statement, from within a quoted text or not, after `n` parameters, with each question mark
/// outside quoted texts replaced by the next numbered parameter. Within a quoted text two quotes in a
/// row stand for one and do not end it.
pub open spec fn portable(s: Seq<char>, quoted: bool, n: nat) -> Seq<char>
    decreases s.len(),
{
    if s.len() == 0 {
        Seq::empty()
    } else if s[0] == '\'' {
        if quoted && s.len() > 1 && s[1] == '\'' {
            s.take(2) + portable(s.skip(2), quoted, n)
        } else {
            s.take(1) + portable(s.skip(1), !quoted, n)
        }
    } else if s[0] == '?' && !quoted {
        seq!['$'] + decimal(next_parameter(n)) + portable(s.skip(1), quoted, next_parameter(n))
    } else {
        s.take(1) + portable(s.skip(1), quoted, n)
    }
}

/// A statement with numbered parameters in place of its question marks.
pub fn portable_sql(input: &str) -> (output: String)
    ensures
        output@ == portable(input@, false, 0),
{
    let len: usize = input.unicode_len();
    let mut output = String::new();
    let mut parameters: u16 = 0;
    let mut quoted: bool = false;
    let mut i: usize = 0;
    assert(input@.skip(0) =~= input@);
    assert(output@ + portable(input@, false, 0) =~= portable(input@, false, 0));
    while i < len
        invariant
            i <= len == input@.len(),
            output@ + portable(input@.skip(i as int), quoted, parameters as nat) == portable(
                input@,
                false,
                0,
            ),
        decreases len - i,
    {
        let ghost done = output@;
        let ghost rest = input@.skip(i as int);
        let ghost whole = portable(rest, quoted, parameters as nat);
        let character: char = input.get_char(i);
        assert(character == rest[0]);
        assert(rest.skip(1) =~= input@.skip(i + 1));
        if character == '\'' {
            output.push(character);
            if quoted && i + 1 < len && input.get_char(i + 1) == '\'' {
                output.push('\'');
                assert(rest.skip(2) =~= input@.skip(i + 2));
                assert(rest.take(2) =~= seq!['\''].push('\''));
                assert(done + whole =~= output@ + portable(
                    rest.skip(2),
                    quoted,
                    parameters as nat,
                ));
                i += 2;
            } else {
                assert(done + whole =~= output@ + portable(
                    rest.skip(1),
                    !quoted,
                    parameters as nat,
                ));
                quoted = !quoted;
                i += 1;
            }
        } else if character == '?' && !quoted {
            parameters = parameters.saturating_add(1);
            output.push('$');
            output.append(text::decimal_of(parameters as u64).as_str());
            assert(done + whole =~= output@ + portable(rest.skip(1), quoted, parameters as nat));
            i += 1;
        } else {
            output.push(character);
            assert(done + whole =~= output@ + portable(rest.skip(1), quoted, parameters as nat));
            i += 1;
        }
    }
    assert(output@ + portable(input@.skip(len as int), quoted, parameters as nat) =~= output@);
    output
}

/// Whether a text holds neither quotes nor question marks.
pub open spec fn plain(s: Seq<char>) -> bool {
    forall|i: int| 0 <= i < s.len() ==> #[trigger] s[i] != '\'' && s[i] != '?'
}

/// What holds neither quotes nor question marks stays as it is, wherever it stands.
proof fn lemma_plain_stays(s: Seq<char>, rest: Seq<char>, quoted: bool, n: nat)
    requires
        plain(s),
    ensures
        portable(s + rest, quoted, n) == s + portable(rest, quoted, n),
    decreases s.len(),
{
    if s.len() == 0 {
        assert(s + rest =~= rest);
        assert(s + portable(rest, quoted, n) =~= portable(rest, quoted, n));
    } else {
        let whole = s + rest;
        assert(whole[0] == s[0]);
        assert(plain(s.skip(1))) by {
            assert forall|i: int| 0 <= i < s.skip(1).len() implies #[trigger] s.skip(1)[i] != '\''
                && s.skip(1)[i] != '?' by {
                assert(s.skip(1)[i] == s[i + 1]);
            }
        }
        lemma_plain_stays(s.skip(1), rest, quoted, n);
        assert(whole.skip(1) =~= s.skip(1) + rest);
        assert(whole.take(1) + (s.skip(1) + portable(rest, quoted, n)) =~= s + portable(
            rest,
            quoted,
            n,
        ));
    }
}

/// The figures of a number are neither quotes nor question marks.
proof fn lemma_decimal_is_plain(n: nat)
    ensures
        plain(decimal(n)),
        decimal(n).len() > 0,
    decreases n,
{
    if n >= 10 {
        lemma_decimal_is_plain(n / 10);
        let most = decimal(n / 10);
        assert forall|i: int| 0 <= i < decimal(n).len() implies #[trigger] decimal(n)[i] != '\''
            && decimal(n)[i] != '?' by {
            if i < most.len() {
                assert(decimal(n)[i] == most[i]);
            }
        }
    }
}

/// How many quotes a text holds.
pub open spec fn quotes(s: Seq<char>) -> nat
    decreases s.len(),
{
    if s.len() == 0 {
        0
    } else {
        (if s[0] == '\'' {
            1nat
        } else {
            0nat
        }) + quotes(s.skip(1))
    }
}

/// Whether a place in a statement, which begins within a quoted text or not, lies within a quoted text:
/// an odd number of quotes stands between it and the outside.
pub open spec fn within_quotes(s: Seq<char>, quoted: bool, i: int) -> bool {
    (quotes(s.take(i)) % 2 == 1) != quoted
}

/// A statement without question marks outside of quoted texts stays as it is.
pub proof fn law_statements_without_parameters_stay(s: Seq<char>, quoted: bool, n: nat)
    requires
        forall|i: int| 0 <= i < s.len() && #[trigger] s[i] == '?' ==> within_quotes(s, quoted, i),
    ensures
        portable(s, quoted, n) == s,
    decreases s.len(),
{
    if s.len() > 0 {
        assert(s.take(0) =~= Seq::empty());
        let doubled = s[0] == '\'' && quoted && s.len() > 1 && s[1] == '\'';
        let k: int = if doubled {
            2
        } else {
            1
        };
        let rest = s.skip(k);
        let after = if s[0] == '\'' && !doubled {
            !quoted
        } else {
            quoted
        };
        assert forall|i: int| 0 <= i < rest.len() && #[trigger] rest[i] == '?' implies within_quotes(
            rest,
            after,
            i,
        ) by {
            assert(s[i + k] == '?');
            let head = s.take(i + k);
            assert(head.skip(1).skip(k - 1) =~= rest.take(i));
            assert(head.skip(1) =~= s.skip(1).take(i + k - 1));
            if doubled {
                assert(head.skip(1)[0] == '\'');
                assert(quotes(head.skip(1)) == 1 + quotes(rest.take(i)));
                assert(quotes(head) == 2 + quotes(rest.take(i)));
            } else {
                assert(head.skip(1) =~= rest.take(i));
                assert(head[0] == s[0]);
            }
        }
        law_statements_without_parameters_stay(rest, after, n);
        assert(s.take(k) + rest =~= s);
    }
}

/// A statement that was made portable has no parameters left to number: made portable once more, it
/// stays as it is.
pub proof fn law_portable_statements_stay(s: Seq<char>, quoted: bool, n: nat, m: nat)
    ensures
        portable(portable(s, quoted, n), quoted, m) == portable(s, quoted, n),
    decreases s.len(),
{
    let out = portable(s, quoted, n);
    if s.len() == 0 {
    } else if s[0] == '\'' {
        if quoted && s.len() > 1 && s[1] == '\'' {
            let tail = portable(s.skip(2), quoted, n);
            law_portable_statements_stay(s.skip(2), quoted, n, m);
            assert(out.skip(2) =~= tail);
            assert(out.take(2) =~= s.take(2));
            assert(out[0] == '\'' && out[1] == '\'');
        } else {
            let tail = portable(s.skip(1), !quoted, n);
            law_portable_statements_stay(s.skip(1), !quoted, n, m);
            assert(out.skip(1) =~= tail);
            assert(out.take(1) =~= s.take(1));
            assert(out[0] == '\'');
            if quoted && out.len() > 1 {
                assert(out[1] == tail[0]);
                lemma_first_is_no_quote(s.skip(1), n);
            }
        }
    } else if s[0] == '?' && !quoted {
        let number = next_parameter(n);
        let tail = portable(s.skip(1), quoted, number);
        lemma_decimal_is_plain(number);
        law_portable_statements_stay(s.skip(1), quoted, number, m);
        let head = seq!['$'] + decimal(number);
        assert(plain(head)) by {
            assert forall|i: int| 0 <= i < head.len() implies #[trigger] head[i] != '\'' && head[i]
                != '?' by {
                if i > 0 {
                    assert(head[i] == decimal(number)[i - 1]);
                }
            }
        }
        lemma_plain_stays(head, tail, quoted, m);
    } else {
        let tail = portable(s.skip(1), quoted, n);
        law_portable_statements_stay(s.skip(1), quoted, n, m);
        assert(out.skip(1) =~= tail);
        assert(out.take(1) =~= s.take(1));
        assert(out[0] == s[0]);
    }
}

/// Outside a quoted text, what does not begin with a quote does not begin with one when it is made
/// portable.
proof fn lemma_first_is_no_quote(s: Seq<char>, n: nat)
    requires
        portable(s, false, n).len() > 0,
        s.len() == 0 || s[0] != '\'',
    ensures
        portable(s, false, n)[0] != '\'',
{
}

// ------------------------------------------------------------------------------------------------
// Backups

/// What is done for a backup.
#[derive(Clone, Copy, Debug, PartialEq, Eq, Structural)]
pub enum BackupRequest {
    /// SQLite writes a consistent copy of itself.
    Vacuum,
    /// PostgreSQL's own tool writes an archive.
    Dump,
    /// What the tool has left is removed, and then the backup has failed.
    Discard,
    Finish,
    Fail(BackupError),
}

/// Why there is no backup.
#[derive(Clone, Copy, Debug, PartialEq, Eq, Structural)]
pub enum BackupError {
    Exists,
    Copy,
    Launch,
    Dump,
}

/// How the work on a backup went.
#[derive(Clone, Copy, Debug, PartialEq, Eq, Structural)]
pub enum BackupOutcome {
    Done,
    /// It could not be begun.
    NotBegun,
    /// It was begun and failed.
    Failed,
}

/// Begins a backup to a place where nothing is yet.
pub fn backup_to(dialect: DatabaseDialect, exists: bool) -> (r: BackupRequest)
    ensures
        r == (if exists {
            BackupRequest::Fail(BackupError::Exists)
        } else if dialect == DatabaseDialect::Sqlite {
            BackupRequest::Vacuum
        } else {
            BackupRequest::Dump
        }),
{
    if exists {
        return BackupRequest::Fail(BackupError::Exists);
    }
    match dialect {
        DatabaseDialect::Sqlite => BackupRequest::Vacuum,
        DatabaseDialect::Postgres => BackupRequest::Dump,
    }
}

/// What follows the work on a backup: what PostgreSQL's tool has left of one that failed is removed.
pub fn after_backup(dialect: DatabaseDialect, outcome: BackupOutcome) -> (r: BackupRequest)
    ensures
        r == (match (dialect, outcome) {
            (_, BackupOutcome::Done) => BackupRequest::Finish,
            (DatabaseDialect::Sqlite, _) => BackupRequest::Fail(BackupError::Copy),
            (DatabaseDialect::Postgres, BackupOutcome::NotBegun) => BackupRequest::Fail(
                BackupError::Launch,
            ),
            (DatabaseDialect::Postgres, BackupOutcome::Failed) => BackupRequest::Discard,
        }),
{
    match outcome {
        BackupOutcome::Done => BackupRequest::Finish,
        BackupOutcome::NotBegun => match dialect {
            DatabaseDialect::Sqlite => BackupRequest::Fail(BackupError::Copy),
            DatabaseDialect::Postgres => BackupRequest::Fail(BackupError::Launch),
        },
        BackupOutcome::Failed => match dialect {
            DatabaseDialect::Sqlite => BackupRequest::Fail(BackupError::Copy),
            DatabaseDialect::Postgres => BackupRequest::Discard,
        },
    }
}

/// The parameters of a statement are numbered from left to right, each with the next number, and the text
/// around them stays; what stands in quotes is no parameter.
pub proof fn law_parameters_are_numbered_in_order(a: Seq<char>, b: Seq<char>, n: nat)
    requires
        plain(a),
        n < u16::MAX,
    ensures
        portable(a + seq!['?'] + b, false, n) == a + seq!['$'] + decimal(n + 1) + portable(
            b,
            false,
            n + 1,
        ),
        portable(a, false, n) == a,
    decreases a.len(),
{
    let s = a + seq!['?'] + b;
    if a.len() == 0 {
        assert(s =~= seq!['?'] + b);
        assert(s.skip(1) =~= b);
        assert(a + seq!['$'] + decimal(n + 1) + portable(b, false, n + 1) =~= seq!['$'] + decimal(
            n + 1,
        ) + portable(b, false, n + 1));
        assert(portable(a, false, n) =~= a);
    } else {
        let rest = a.skip(1);
        assert forall|i: int| 0 <= i < rest.len() implies #[trigger] rest[i] != '\'' && rest[i]
            != '?' by {
            assert(rest[i] == a[i + 1]);
        }
        law_parameters_are_numbered_in_order(rest, b, n);
        assert(s.skip(1) =~= rest + seq!['?'] + b);
        assert(s[0] == a[0] && a[0] != '\'' && a[0] != '?');
        assert(s.take(1) =~= a.take(1));
        assert(a.take(1) + (rest + seq!['$'] + decimal(n + 1) + portable(b, false, n + 1)) =~= a
            + seq!['$'] + decimal(n + 1) + portable(b, false, n + 1));
        assert(a.take(1) + rest =~= a);
    }
}

/// A text in quotes is kept as it is, with whatever it holds, and ends where the quotes do.
pub proof fn law_quoted_text_is_kept(quoted: Seq<char>, b: Seq<char>, n: nat)
    requires
        !quoted.contains('\''),
        b.len() > 0 ==> b[0] != '\'',
    ensures
        portable(seq!['\''] + quoted + seq!['\''] + b, false, n) == seq!['\''] + quoted + seq!['\'']
            + portable(b, false, n),
{
    let inner = quoted + seq!['\''] + b;
    let s = seq!['\''] + quoted + seq!['\''] + b;
    lemma_inside_quotes(quoted, b, n);
    assert(s.skip(1) =~= inner);
    assert(s[0] == '\'');
    assert(s.take(1) =~= seq!['\'']);
    assert(seq!['\''] + (quoted + seq!['\''] + portable(b, false, n)) =~= seq!['\''] + quoted + seq![
        '\'',
    ] + portable(b, false, n));
}

proof fn lemma_inside_quotes(quoted: Seq<char>, b: Seq<char>, n: nat)
    requires
        !quoted.contains('\''),
        b.len() > 0 ==> b[0] != '\'',
    ensures
        portable(quoted + seq!['\''] + b, true, n) == quoted + seq!['\''] + portable(b, false, n),
    decreases quoted.len(),
{
    let s = quoted + seq!['\''] + b;
    if quoted.len() == 0 {
        assert(s =~= seq!['\''] + b);
        assert(s.skip(1) =~= b);
        assert(s.take(1) =~= seq!['\'']);
        if s.len() > 1 {
            assert(s[1] == b[0]);
        }
        assert(quoted + seq!['\''] + portable(b, false, n) =~= seq!['\''] + portable(b, false, n));
    } else {
        let rest = quoted.skip(1);
        assert(!rest.contains('\'')) by {
            if rest.contains('\'') {
                let i = choose|i: int| 0 <= i < rest.len() && rest[i] == '\'';
                assert(quoted[i + 1] == '\'');
            }
        }
        lemma_inside_quotes(rest, b, n);
        assert(quoted.contains(quoted[0]));
        assert(s[0] == quoted[0]);
        assert(s.skip(1) =~= rest + seq!['\''] + b);
        assert(s.take(1) + (rest + seq!['\''] + portable(b, false, n)) =~= quoted + seq!['\'']
            + portable(b, false, n));
    }
}

} // verus!
