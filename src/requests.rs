use std::fmt::Write;
use vstd::prelude::*;

use crate::menu::RequestType;
use crate::pattern::{capture_group, regex_group};

verus! {

/// The shape of a remote that the forge is reached through: the owner after
/// the colon, the repository name before the final `.git`.
pub const REMOTE_PATTERN: &'static str = ":(?<owner>.*)/(?<name>.*).git$";

/// The variables of a forge query.
pub struct VariableStore {
    pub repo_name: String,
    pub repo_owner: String,
    pub issue_number: i64,
}

/// The owner captured from a remote.
pub open spec fn remote_owner(remote: Seq<char>) -> Option<Seq<char>> {
    regex_group(REMOTE_PATTERN@, remote, "owner"@)
}

/// The repository name captured from a remote.
pub open spec fn remote_name(remote: Seq<char>) -> Option<Seq<char>> {
    regex_group(REMOTE_PATTERN@, remote, "name"@)
}

impl Default for VariableStore {
    fn default() -> (r: Self)
        ensures
            r.repo_name@ == Seq::<char>::empty(),
            r.repo_owner@ == Seq::<char>::empty(),
            r.issue_number == 0,
    {
        VariableStore { repo_name: String::new(), repo_owner: String::new(), issue_number: 0 }
    }
}

impl VariableStore {
    /// Sets the repository name.
    pub fn repo_name(self, repo_name: String) -> (r: Self)
        ensures
            r.repo_name@ == repo_name@,
            r.repo_owner@ == self.repo_owner@,
            r.issue_number == self.issue_number,
    {
        VariableStore { repo_name, ..self }
    }

    /// Sets the repository owner.
    pub fn repo_owner(self, repo_owner: String) -> (r: Self)
        ensures
            r.repo_name@ == self.repo_name@,
            r.repo_owner@ == repo_owner@,
            r.issue_number == self.issue_number,
    {
        VariableStore { repo_owner, ..self }
    }

    /// Sets the issue number.
    pub fn issue_number(self, issue_number: i64) -> (r: Self)
        ensures
            r.repo_name@ == self.repo_name@,
            r.repo_owner@ == self.repo_owner@,
            r.issue_number == issue_number,
    {
        VariableStore { issue_number, ..self }
    }

    /// The variables for a repository whose owner and name were captured:
    /// present only when both were.
    pub fn from_captures(owner: Option<String>, name: Option<String>) -> (r: Option<Self>)
        ensures
            match (owner, name) {
                (Some(o), Some(n)) => r.is_some() && r.unwrap().repo_owner@ == o@
                    && r.unwrap().repo_name@ == n@ && r.unwrap().issue_number == 0,
                _ => r.is_none(),
            },
    {
        match (owner, name) {
            (Some(o), Some(n)) => Some(VariableStore::default().repo_name(n).repo_owner(o)),
            _ => None,
        }
    }

    /// The variables for the repository behind `active_remote`, when the
    /// remote has the expected shape.
    pub fn default_with_repo_info(active_remote: &str) -> (r: Option<Self>)
        ensures
            match (remote_owner(active_remote@), remote_name(active_remote@)) {
                (Some(o), Some(n)) => r.is_some() && r.unwrap().repo_owner@ == o
                    && r.unwrap().repo_name@ == n && r.unwrap().issue_number == 0,
                _ => r.is_none(),
            },
    {
        let owner = capture_group(REMOTE_PATTERN, active_remote, "owner");
        let name = capture_group(REMOTE_PATTERN, active_remote, "name");
        Self::from_captures(owner, name)
    }
}

/// A forge user, by login.
pub struct User(pub String);

/// The rendering of the RFC 3339 timestamp `text`, taken to UTC, in the
/// strftime-style format `fmt`; `None` when the text is no such timestamp or
/// the format cannot be rendered.
pub uninterp spec fn formatted_time(text: Seq<char>, fmt: Seq<char>) -> Option<Seq<char>>;

/// Relies on `chrono::DateTime::parse_from_rfc3339` and `DateTime::format`:
/// the rendering depends on the two strings alone. A format that chrono
/// cannot render gives `None` here instead of a panic.
#[verifier::external_body]
fn format_timestamp(text: &str, fmt: &str) -> (r: Option<String>)
    ensures
        match r {
            Some(s) => formatted_time(text@, fmt@) == Some(s@),
            None => formatted_time(text@, fmt@) == None::<Seq<char>>,
        },
{
    let time = chrono::DateTime::parse_from_rfc3339(text).ok()?.with_timezone(&chrono::Utc);
    let mut out = String::new();
    write!(out, "{}", time.format(fmt)).ok()?;
    Some(out)
}

/// A point in time as the forge sends it: an RFC 3339 timestamp.
pub struct DateTime(pub String);

impl DateTime {
    /// The time in the format `fmt`; the timestamp as it came when it cannot
    /// be read or the format cannot be rendered.
    pub fn to_str(&self, fmt: &str) -> (r: String)
        ensures
            r@ == match formatted_time(self.0@, fmt@) {
                Some(s) => s,
                None => self.0@,
            },
    {
        match format_timestamp(self.0.as_str(), fmt) {
            Some(s) => s,
            None => self.0.clone(),
        }
    }
}

/// The query for the issues of a repository.
pub struct IssuesQuery;

/// The query for the pull requests of a repository.
pub struct PullRequestsQuery;

/// The query for the projects of a repository.
pub struct ProjectsQuery;

/// The query for one issue with its comments.
pub struct IssueDetailQuery;

/// Everything one list request needs.
pub struct RequestSpec {
    pub request_type: RequestType,
    pub variables: VariableStore,
    pub access_token: String,
}

/// What becomes of a request: sent with its variables, or not sent and why.
pub enum RequestPlan {
    MissingToken,
    MissingRemote,
    UnrecognisedRemote,
    Send(RequestSpec),
}

/// The plan for a request once the remote has been taken apart: sent when
/// the variables are there.
pub fn plan_with_variables(
    request_type: RequestType,
    access_token: &String,
    variables: Option<VariableStore>,
) -> (r: RequestPlan)
    ensures
        match variables {
            None => r is UnrecognisedRemote,
            Some(v) => match r {
                RequestPlan::Send(spec) => spec.request_type == request_type
                    && spec.variables == v && spec.access_token@ == access_token@,
                _ => false,
            },
        },
{
    match variables {
        None => RequestPlan::UnrecognisedRemote,
        Some(v) => RequestPlan::Send(
            RequestSpec { request_type, variables: v, access_token: access_token.clone() },
        ),
    }
}

/// Decides whether a request of `request_type` can go out: it needs an access
/// token and an active remote of the expected shape.
pub fn plan_request(
    request_type: RequestType,
    access_token: &Option<String>,
    active_remote: &Option<String>,
) -> (r: RequestPlan)
    ensures
        access_token.is_none() ==> r is MissingToken,
        access_token.is_some() && active_remote.is_none() ==> r is MissingRemote,
        access_token.is_some() && active_remote.is_some() ==> match (
            remote_owner(active_remote.unwrap()@),
            remote_name(active_remote.unwrap()@),
        ) {
            (Some(o), Some(n)) => match r {
                RequestPlan::Send(spec) => spec.request_type == request_type
                    && spec.variables.repo_owner@ == o && spec.variables.repo_name@ == n
                    && spec.variables.issue_number == 0 && spec.access_token@
                    == access_token.unwrap()@,
                _ => false,
            },
            _ => r is UnrecognisedRemote,
        },
{
    let token = match access_token {
        None => return RequestPlan::MissingToken,
        Some(t) => t,
    };
    let remote = match active_remote {
        None => return RequestPlan::MissingRemote,
        Some(remote) => remote,
    };
    let variables = VariableStore::default_with_repo_info(remote.as_str());
    plan_with_variables(request_type, token, variables)
}

} // verus!
