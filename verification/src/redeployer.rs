//! The stack-redeploy protocol: a strictly sequential three-step session
//! against the orchestration API — list the stacks and find the requested
//! one, fetch its current deployment file, then submit the update.
//!
//! The HTTP calls themselves are the caller's; this module decides, for
//! each completed call, what the next step is, and guarantees that a
//! failed step aborts the rest: the session only ever asks for the call
//! its current state names, and `Done` and `Failed` ask for none.

use vstd::prelude::*;

use crate::text::str_eq;

verus! {

/// An opaque JSON value, as the orchestration API hands it out. Stack
/// environment entries are carried through a redeploy unchanged and are
/// never inspected, so nothing of the type needs to be known here.
/// Relies on serde_json::Value only as a type; no function of it is called.
#[verifier::external_type_specification]
#[verifier::external_body]
pub struct ExJsonValue(serde_json::Value);

/// Why a redeploy failed: the requested stack does not exist, the API
/// answered with a non-success status, or the call never completed.
pub enum RedeployError {
    StackNotFound(String),
    Api(String),
    Network(String),
}

impl RedeployError {
    /// A human-readable account of the failure.
    pub fn message(&self) -> (r: String)
        ensures
            match self {
                RedeployError::StackNotFound(name) => r@ == "stack not found: "@ + name@,
                RedeployError::Api(msg) => r@ == "Portainer API error: "@ + msg@,
                RedeployError::Network(msg) => r@ == "network error: "@ + msg@,
            },
    {
        match self {
            RedeployError::StackNotFound(name) => String::from_str("stack not found: ").concat(
                name.as_str(),
            ),
            RedeployError::Api(msg) => String::from_str("Portainer API error: ").concat(
                msg.as_str(),
            ),
            RedeployError::Network(msg) => String::from_str("network error: ").concat(
                msg.as_str(),
            ),
        }
    }
}

/// One stack as the orchestration API lists it. Fetched fresh on every
/// redeploy and never cached.
pub struct Stack {
    pub id: i64,
    pub name: String,
    pub endpoint_id: i64,
    pub env: Vec<serde_json::Value>,
}

/// The update submitted in the final step: the stack's own environment
/// carried over unchanged, fresh images pulled, removed services pruned,
/// and the deployment file fetched in the previous step.
pub struct UpdateRequest {
    pub id: i64,
    pub endpoint_id: i64,
    pub env: Vec<serde_json::Value>,
    pub pull_image: bool,
    pub prune: bool,
    pub stack_file_content: String,
}

/// A redeploy session. Each non-terminal state names the one outbound
/// call the caller must complete next; `Done` and `Failed` name none.
pub enum RedeploySession {
    /// List all stacks the API knows.
    ListingStacks(String),
    /// Fetch the current deployment file of the found stack.
    FetchingFile(Stack),
    /// Submit the update.
    Updating(UpdateRequest),
    Done,
    Failed(RedeployError),
}

/// The index of the first stack named `name`, or `None` when no stack
/// carries that name.
pub open spec fn find_stack_index(stacks: Seq<Stack>, name: Seq<char>) -> Option<int>
    decreases stacks.len(),
{
    if stacks.len() == 0 {
        None
    } else if stacks[0].name@ == name {
        Some(0int)
    } else {
        match find_stack_index(stacks.drop_first(), name) {
            Some(i) => Some(i + 1),
            None => None,
        }
    }
}

proof fn lemma_find_stack_at(stacks: Seq<Stack>, name: Seq<char>, j: int)
    requires
        0 <= j < stacks.len(),
        stacks[j].name@ == name,
        forall|k: int| 0 <= k < j ==> stacks[k].name@ != name,
    ensures
        find_stack_index(stacks, name) == Some(j),
    decreases stacks.len(),
{
    if stacks[0].name@ != name {
        lemma_find_stack_at(stacks.drop_first(), name, j - 1);
    }
}

proof fn lemma_find_stack_none(stacks: Seq<Stack>, name: Seq<char>)
    requires
        forall|k: int| 0 <= k < stacks.len() ==> stacks[k].name@ != name,
    ensures
        find_stack_index(stacks, name) is None,
    decreases stacks.len(),
{
    if stacks.len() > 0 {
        lemma_find_stack_none(stacks.drop_first(), name);
    }
}

/// Opens a redeploy session for the stack called `stack_name`; the first
/// step is to list the stacks.
pub fn begin_redeploy(stack_name: String) -> (s: RedeploySession)
    ensures
        s == RedeploySession::ListingStacks(stack_name),
{
    RedeploySession::ListingStacks(stack_name)
}

/// Consumes the outcome of the stack-list call. A failed call fails the
/// session; a successful one either finds the first stack with the
/// requested name and moves on to the file fetch, or — when no stack has
/// that name — fails with `StackNotFound`, so that neither the file fetch
/// nor the update is ever asked for.
#[verifier::loop_isolation(false)]
pub fn on_stacks_listed(session: RedeploySession, response: Result<
    Vec<Stack>,
    RedeployError,
>) -> (next: RedeploySession)
    requires
        session is ListingStacks,
    ensures
        match response {
            Err(e) => next == RedeploySession::Failed(e),
            Ok(stacks) => match find_stack_index(stacks@, session->ListingStacks_0@) {
                Some(i) => next == RedeploySession::FetchingFile(stacks@[i]),
                None => next == RedeploySession::Failed(
                    RedeployError::StackNotFound(session->ListingStacks_0),
                ),
            },
        },
{
    let name = match session {
        RedeploySession::ListingStacks(name) => name,
        _ => vstd::pervasive::unreached(),
    };
    match response {
        Err(e) => RedeploySession::Failed(e),
        Ok(mut stacks) => {
            let n = stacks.len();
            let mut i: usize = 0;
            while i < n
                invariant
                    i <= n,
                    n == stacks.len(),
                    response == Ok::<Vec<Stack>, RedeployError>(stacks),
                    forall|k: int| 0 <= k < i ==> stacks@[k].name@ != name@,
                decreases n - i,
            {
                if str_eq(stacks[i].name.as_str(), name.as_str()) {
                    proof {
                        lemma_find_stack_at(stacks@, name@, i as int);
                    }
                    let stack = stacks.remove(i);
                    return RedeploySession::FetchingFile(stack);
                }
                i = i + 1;
            }
            proof {
                lemma_find_stack_none(stacks@, name@);
            }
            RedeploySession::Failed(RedeployError::StackNotFound(name))
        },
    }
}

/// Consumes the outcome of the file fetch. A failed call fails the
/// session; a successful one assembles the update: the stack's id and
/// endpoint, its environment unchanged, both refresh flags set, and the
/// file content just fetched.
pub fn on_file_fetched(session: RedeploySession, response: Result<String, RedeployError>) -> (next:
    RedeploySession)
    requires
        session is FetchingFile,
    ensures
        match response {
            Err(e) => next == RedeploySession::Failed(e),
            Ok(content) => next == RedeploySession::Updating(
                UpdateRequest {
                    id: session->FetchingFile_0.id,
                    endpoint_id: session->FetchingFile_0.endpoint_id,
                    env: session->FetchingFile_0.env,
                    pull_image: true,
                    prune: true,
                    stack_file_content: content,
                },
            ),
        },
{
    let stack = match session {
        RedeploySession::FetchingFile(stack) => stack,
        _ => vstd::pervasive::unreached(),
    };
    match response {
        Err(e) => RedeploySession::Failed(e),
        Ok(content) => RedeploySession::Updating(
            UpdateRequest {
                id: stack.id,
                endpoint_id: stack.endpoint_id,
                env: stack.env,
                pull_image: true,
                prune: true,
                stack_file_content: content,
            },
        ),
    }
}

/// Consumes the outcome of the update call: success completes the
/// session, failure fails it. Nothing is retried and nothing is rolled
/// back — the two earlier steps were read-only.
pub fn on_update_applied(session: RedeploySession, response: Result<(), RedeployError>) -> (next:
    RedeploySession)
    requires
        session is Updating,
    ensures
        match response {
            Err(e) => next == RedeploySession::Failed(e),
            Ok(_) => next == RedeploySession::Done,
        },
{
    match response {
        Err(e) => RedeploySession::Failed(e),
        Ok(_) => RedeploySession::Done,
    }
}

/// The redeploy strategy as its callers see it: one call that either
/// completes a redeploy of the named stack or reports why it could not.
/// Production and test implementations both satisfy it.
pub trait StackRedeployer {
    fn redeploy(&self, stack_name: &str) -> Result<(), RedeployError>;
}

} // verus!
