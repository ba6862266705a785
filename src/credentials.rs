use vstd::prelude::*;
use vstd::string::*;

use crate::text::{owned, str_equal};

verus! {

/// The key of the line that carries the secret in a credential helper's answer.
pub const PASSWORD_KEY: &'static str = "password=";

/// The default number of times the credential helper is polled.
pub const DEFAULT_CREDENTIAL_ATTEMPTS: u64 = 4;

/// The default pause between two polls of the credential helper, in milliseconds.
pub const DEFAULT_CREDENTIAL_TIMEOUT: u64 = 50;

/// `s` in upper case, by the Unicode rules.
pub uninterp spec fn upper_of(s: Seq<char>) -> Seq<char>;

/// `s` without leading and trailing white space.
pub uninterp spec fn trimmed(s: Seq<char>) -> Seq<char>;

/// Relies on `str::to_uppercase`: the result depends on the characters alone.
#[verifier::external_body]
fn uppercase(s: &str) -> (r: String)
    ensures
        r@ == upper_of(s@),
{
    s.to_uppercase()
}

/// Relies on `str::trim`: the result depends on the characters alone.
#[verifier::external_body]
fn trim_whitespace(s: &str) -> (r: String)
    ensures
        r@ == trimmed(s@),
{
    s.trim().to_string()
}

/// The environment variable that holds the token of `backend`, such as
/// `GITHUB_TOKEN` for `github`.
pub fn token_variable_name(backend: &str) -> (r: String)
    ensures
        r@ == upper_of(backend@) + "_TOKEN"@,
{
    let mut name = uppercase(backend);
    name.append("_TOKEN");
    name
}

/// The query written to the credential helper for the remote host `host`.
pub fn credential_query(host: &str) -> (r: String)
    ensures
        r@ == "protocol=https\nhost="@ + host@ + "\n\n"@,
{
    let mut query = owned("protocol=https\nhost=");
    query.append(host);
    query.append("\n\n");
    query
}

/// A token read from a token file: the file's contents without surrounding
/// white space.
pub fn token_from_file_contents(contents: &str) -> (r: String)
    ensures
        r@ == trimmed(contents@),
{
    trim_whitespace(contents)
}

/// The places a token is looked for, in order.
#[derive(PartialEq, Eq, Structural, Clone, Copy, Debug)]
pub enum CredentialSource {
    Environment,
    SecretStore,
    CredentialHelper,
    TokenFile,
}

/// The source tried after `source`, if any.
pub open spec fn source_after(source: CredentialSource) -> Option<CredentialSource> {
    match source {
        CredentialSource::Environment => Some(CredentialSource::SecretStore),
        CredentialSource::SecretStore => Some(CredentialSource::CredentialHelper),
        CredentialSource::CredentialHelper => Some(CredentialSource::TokenFile),
        CredentialSource::TokenFile => None,
    }
}

/// The next move of the credential chain.
pub enum CredentialStep {
    /// Ask this source.
    Try(CredentialSource),
    /// The token was found; nothing more is asked.
    Found(String),
    /// Every source failed: the backend has no token.
    Unavailable,
}

/// The chain starts with the environment.
pub fn first_credential_step() -> (r: CredentialStep)
    ensures
        r is Try && r->Try_0 == CredentialSource::Environment,
{
    CredentialStep::Try(CredentialSource::Environment)
}

/// The move after asking `source`, which answered `answer`: the first
/// answer wins, else the next source is asked, and after the token file the
/// chain gives up. A token file's contents are trimmed.
pub fn next_credential_step(source: CredentialSource, answer: Option<String>) -> (r: CredentialStep)
    ensures
        match answer {
            Some(a) => r is Found && r->Found_0@ == if source == CredentialSource::TokenFile {
                trimmed(a@)
            } else {
                a@
            },
            None => match source_after(source) {
                Some(next) => r is Try && r->Try_0 == next,
                None => r is Unavailable,
            },
        },
{
    match answer {
        Some(a) => match source {
            CredentialSource::TokenFile => CredentialStep::Found(token_from_file_contents(a.as_str())),
            _ => CredentialStep::Found(a),
        },
        None => match source {
            CredentialSource::Environment => CredentialStep::Try(CredentialSource::SecretStore),
            CredentialSource::SecretStore => CredentialStep::Try(CredentialSource::CredentialHelper),
            CredentialSource::CredentialHelper => CredentialStep::Try(CredentialSource::TokenFile),
            CredentialSource::TokenFile => CredentialStep::Unavailable,
        },
    }
}

/// The token that the chain settles on when each source would answer as
/// given: the first answer wins, a token file's contents are trimmed.
pub open spec fn chain_result(
    environment: Option<Seq<char>>,
    secret_store: Option<Seq<char>>,
    credential_helper: Option<Seq<char>>,
    token_file: Option<Seq<char>>,
) -> Option<Seq<char>> {
    if environment is Some {
        environment
    } else if secret_store is Some {
        secret_store
    } else if credential_helper is Some {
        credential_helper
    } else if token_file is Some {
        Some(trimmed(token_file.unwrap()))
    } else {
        None
    }
}

pub open spec fn opt_chars(s: Option<String>) -> Option<Seq<char>> {
    match s {
        Some(s) => Some(s@),
        None => None,
    }
}

fn copy_answer(answer: &Option<String>) -> (r: Option<String>)
    ensures
        opt_chars(r) == opt_chars(*answer),
{
    match answer {
        Some(a) => Some(a.clone()),
        None => None,
    }
}

/// Runs the chain over the answers of the four sources, asking each only
/// while no earlier one answered.
pub fn resolve_access_token(
    environment: Option<String>,
    secret_store: Option<String>,
    credential_helper: Option<String>,
    token_file: Option<String>,
) -> (r: Option<String>)
    ensures
        opt_chars(r) == chain_result(
            opt_chars(environment),
            opt_chars(secret_store),
            opt_chars(credential_helper),
            opt_chars(token_file),
        ),
{
    let ghost answers = (
        opt_chars(environment),
        opt_chars(secret_store),
        opt_chars(credential_helper),
        opt_chars(token_file),
    );
    let mut step = first_credential_step();
    let mut asked: u64 = 0;
    while asked < 4
        invariant
            asked <= 4,
            answers == (
                opt_chars(environment),
                opt_chars(secret_store),
                opt_chars(credential_helper),
                opt_chars(token_file),
            ),
            asked == 0 ==> step is Try && step->Try_0 == CredentialSource::Environment,
            asked == 1 ==> (step is Try && step->Try_0 == CredentialSource::SecretStore
                && answers.0 is None) || (step is Found && opt_chars(Some(step->Found_0))
                == chain_result(answers.0, answers.1, answers.2, answers.3)),
            asked == 2 ==> (step is Try && step->Try_0 == CredentialSource::CredentialHelper
                && answers.0 is None && answers.1 is None) || (step is Found && opt_chars(
                Some(step->Found_0),
            ) == chain_result(answers.0, answers.1, answers.2, answers.3)),
            asked == 3 ==> (step is Try && step->Try_0 == CredentialSource::TokenFile
                && answers.0 is None && answers.1 is None && answers.2 is None) || (step is Found
                && opt_chars(Some(step->Found_0)) == chain_result(
                answers.0,
                answers.1,
                answers.2,
                answers.3,
            )),
            asked == 4 ==> (step is Unavailable && chain_result(
                answers.0,
                answers.1,
                answers.2,
                answers.3,
            ) is None) || (step is Found && opt_chars(Some(step->Found_0)) == chain_result(
                answers.0,
                answers.1,
                answers.2,
                answers.3,
            )),
        decreases 4 - asked,
    {
        step = match step {
            CredentialStep::Try(source) => {
                let answer = match source {
                    CredentialSource::Environment => copy_answer(&environment),
                    CredentialSource::SecretStore => copy_answer(&secret_store),
                    CredentialSource::CredentialHelper => copy_answer(&credential_helper),
                    CredentialSource::TokenFile => copy_answer(&token_file),
                };
                next_credential_step(source, answer)
            },
            other => other,
        };
        asked += 1;
    }
    match step {
        CredentialStep::Found(token) => Some(token),
        _ => None,
    }
}

/// What to do with the running credential helper next.
#[derive(PartialEq, Eq, Structural, Clone, Copy, Debug)]
pub enum HelperAction {
    /// Check whether it has exited.
    Poll,
    /// Sleep this many milliseconds, then check again.
    SleepThenPoll(u64),
    /// It exited: read its answer.
    Collect,
    /// It did not exit in time: kill it and give up.
    Kill,
}

/// The bounded wait for the credential helper: at most `attempts` polls,
/// `timeout_ms` apart.
pub struct HelperWait {
    attempts: u64,
    timeout_ms: u64,
    polls: u64,
}

impl HelperWait {
    pub closed spec fn attempts(&self) -> u64 {
        self.attempts
    }

    pub closed spec fn timeout(&self) -> u64 {
        self.timeout_ms
    }

    /// The polls made so far.
    pub closed spec fn polls(&self) -> u64 {
        self.polls
    }

    /// A wait that has not polled yet.
    pub fn new(attempts: u64, timeout_ms: u64) -> (r: HelperWait)
        ensures
            r.attempts() == attempts,
            r.timeout() == timeout_ms,
            r.polls() == 0,
    {
        HelperWait { attempts, timeout_ms, polls: 0 }
    }

    /// The first move: poll, or kill at once when no poll is allowed.
    pub fn start(&self) -> (r: HelperAction)
        ensures
            r == if self.attempts() == 0 {
                HelperAction::Kill
            } else {
                HelperAction::Poll
            },
    {
        if self.attempts == 0 {
            HelperAction::Kill
        } else {
            HelperAction::Poll
        }
    }

    /// The move after a poll that saw the helper `exited` or not: collect
    /// its answer, or sleep and poll again while polls remain, else kill it.
    pub fn after_poll(&mut self, exited: bool) -> (r: HelperAction)
        requires
            old(self).polls() < old(self).attempts(),
        ensures
            final(self).polls() == old(self).polls() + 1,
            final(self).attempts() == old(self).attempts(),
            final(self).timeout() == old(self).timeout(),
            r == if exited {
                HelperAction::Collect
            } else if final(self).polls() == final(self).attempts() {
                HelperAction::Kill
            } else {
                HelperAction::SleepThenPoll(final(self).timeout())
            },
    {
        self.polls = self.polls + 1;
        if exited {
            HelperAction::Collect
        } else if self.polls == self.attempts {
            HelperAction::Kill
        } else {
            HelperAction::SleepThenPoll(self.timeout_ms)
        }
    }
}

/// The secret of a line of the helper's answer, when the line starts with
/// `password=`; a line ended by a newline loses a carriage return before it.
pub open spec fn password_of_line(s: Seq<char>, start: int, end: int, terminated: bool) -> Option<
    Seq<char>,
> {
    let raw = s.subrange(start, end);
    let line = if terminated && raw.len() > 0 && raw.last() == '\r' {
        raw.drop_last()
    } else {
        raw
    };
    if line.len() >= PASSWORD_KEY@.len() && line.subrange(0, PASSWORD_KEY@.len() as int)
        == PASSWORD_KEY@ {
        Some(line.subrange(PASSWORD_KEY@.len() as int, line.len() as int))
    } else {
        None
    }
}

/// The secret of the first `password=` line of `s` at or after the line
/// that starts at `line_start`, scanning from `i`.
pub open spec fn password_scan(s: Seq<char>, line_start: int, i: int) -> Option<Seq<char>>
    decreases s.len() - i,
{
    if i >= s.len() {
        if line_start < s.len() {
            password_of_line(s, line_start, s.len() as int, false)
        } else {
            None
        }
    } else if s[i] == '\n' {
        match password_of_line(s, line_start, i, true) {
            Some(v) => Some(v),
            None => password_scan(s, i + 1, i + 1),
        }
    } else {
        password_scan(s, line_start, i + 1)
    }
}

/// The secret in a credential helper's answer: the rest of its first line
/// that starts with `password=`.
pub open spec fn helper_password(s: Seq<char>) -> Option<Seq<char>> {
    password_scan(s, 0, 0)
}

fn line_password(output: &str, start: usize, end: usize, terminated: bool) -> (r: Option<String>)
    requires
        start <= end <= output@.len(),
    ensures
        opt_chars(r) == password_of_line(output@, start as int, end as int, terminated),
{
    let mut stop = end;
    if terminated && end > start && output.get_char(end - 1) == '\r' {
        stop = end - 1;
    }
    let ghost raw = output@.subrange(start as int, end as int);
    let ghost line = output@.subrange(start as int, stop as int);
    proof {
        reveal_strlit("password=");
        if stop < end {
            assert(line =~= raw.drop_last());
        } else {
            assert(line =~= raw);
        }
    }
    let key_len: usize = 9;
    if stop - start < key_len {
        return None;
    }
    let head = output.substring_char(start, start + key_len);
    proof {
        assert(head@ =~= line.subrange(0, 9));
    }
    if !str_equal(head, PASSWORD_KEY) {
        return None;
    }
    let rest = output.substring_char(start + key_len, stop);
    proof {
        assert(rest@ =~= line.subrange(9, line.len() as int));
    }
    Some(owned(rest))
}

/// The secret in a credential helper's answer, if a line carries one.
pub fn password_from_output(output: &str) -> (r: Option<String>)
    ensures
        opt_chars(r) == helper_password(output@),
{
    let n = output.unicode_len();
    let mut line_start: usize = 0;
    let mut i: usize = 0;
    while i < n
        invariant
            n == output@.len(),
            line_start <= i <= n,
            helper_password(output@) == password_scan(output@, line_start as int, i as int),
        decreases n - i,
    {
        if output.get_char(i) == '\n' {
            let found = line_password(output, line_start, i, true);
            if found.is_some() {
                return found;
            }
            line_start = i + 1;
        }
        i += 1;
    }
    if line_start < n {
        line_password(output, line_start, n, false)
    } else {
        None
    }
}

} // verus!
