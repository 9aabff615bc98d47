//! Making an environment: the one path, and the names it uses.
//!
//! An environment is an issue in progress, so it takes the issue's id and
//! nothing is generated.

use vstd::prelude::*;
use crate::environment::{is_slug, not_a_slug, EnvironmentId};
use crate::text::concat2;

verus! {

/// How a clone ended: what the clone said, or why its task never finished.
#[derive(Debug, PartialEq, Eq)]
pub enum CloneEnd {
    Made,
    Refused(String),
    Lost(String),
}

/// What making an environment comes to.
pub open spec fn made(id: EnvironmentId, end: CloneEnd, out: Result<EnvironmentId, String>) -> bool {
    &&& match end {
        CloneEnd::Made => out == Ok::<EnvironmentId, String>(id),
        CloneEnd::Refused(reason) => out == Err::<EnvironmentId, String>(reason),
        CloneEnd::Lost(reason) => out matches Err(text) && text@
            == "the clone task did not finish: "@ + reason@,
    }
}

/// What making an environment comes to, once the clone's task has ended.
pub fn create(id: EnvironmentId, end: CloneEnd) -> (out: Result<EnvironmentId, String>)
    ensures
        made(id, end, out),
{
    match end {
        CloneEnd::Made => Ok(id),
        CloneEnd::Refused(reason) => Err(reason),
        CloneEnd::Lost(reason) => Err(
            concat2("the clone task did not finish: ", reason.as_str()),
        ),
    }
}

/// The environment an issue gets.
pub open spec fn started(issue: Seq<char>, out: Result<EnvironmentId, String>) -> bool {
    &&& match out {
        Ok(env) => is_slug(issue) && env@ == issue,
        Err(reason) => !is_slug(issue) && reason@ == not_a_slug(issue),
    }
}

/// The environment an issue gets when it is started: the issue's own id, which
/// is a valid environment id by construction (`i-0007`).
pub fn for_issue(issue_id: &str) -> (out: Result<EnvironmentId, String>)
    ensures
        started(issue_id@, out),
{
    EnvironmentId::parse(issue_id)
}

/// An environment is made exactly where its clone was, under the id it was asked
/// for; otherwise the reason comes back.
pub proof fn an_environment_is_its_clone(
    id: EnvironmentId,
    end: CloneEnd,
    out: Result<EnvironmentId, String>,
)
    requires
        made(id, end, out),
    ensures
        out is Ok <==> end is Made,
        out matches Ok(env) ==> env@ == id@,
        end matches CloneEnd::Refused(reason) ==> (out matches Err(text) && text@ == reason@),
        end matches CloneEnd::Lost(reason) ==> (out matches Err(text) && crate::text::holds_text(
            text@,
            reason@,
        )),
{
    if let CloneEnd::Lost(reason) = end {
        crate::text::lemma_holds_end("the clone task did not finish: "@, reason@);
    }
}

/// An issue's environment bears the issue's own id, whatever id could be one.
pub proof fn an_environment_bears_its_issues_id(
    issue: Seq<char>,
    out: Result<EnvironmentId, String>,
)
    requires
        started(issue, out),
    ensures
        out matches Ok(env) ==> env@ == issue,
        issue.len() > 0 && !issue.contains('/') <==> out is Ok,
{
}

} // verus!
