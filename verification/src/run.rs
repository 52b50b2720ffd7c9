//! The decisions of the command that runs one pipeline: how long to wait
//! for the cluster and for a job, which page of pipelines to ask for next,
//! and whether the query already has a pipeline.

use crate::text::same_text;
use crate::text::usize_to_text;
use crate::text::decimal_text;
use vstd::prelude::*;
use vstd::string::*;

verus! {

/// The number of times that the command asks the cluster whether it is up.
pub const CONNECT_ATTEMPTS: u32 = 50;

/// The state in which a job has failed.
pub const FAILED: &'static str = "Failed";

/// The name of a pipeline that was given none.
pub const DEFAULT_NAME: &'static str = "query";

/// What to do after the cluster was asked whether it is up.
#[derive(Clone, Copy, Debug, PartialEq, Eq, Structural)]
pub enum ConnectStep {
    Connected,
    Retry,
    GiveUp,
}

/// Decides what follows the answer to the `attempt`-th question, counted
/// from 0: an answer ends the waiting, and so does the last question
/// without one.
pub fn wait_for_connect(attempt: u32, answered: bool) -> (step: ConnectStep)
    ensures
        step == (if answered {
            ConnectStep::Connected
        } else if attempt + 1 < CONNECT_ATTEMPTS {
            ConnectStep::Retry
        } else {
            ConnectStep::GiveUp
        }),
{
    if answered {
        ConnectStep::Connected
    } else if attempt < CONNECT_ATTEMPTS - 1 {
        ConnectStep::Retry
    } else {
        ConnectStep::GiveUp
    }
}

/// Whether a text is one of the given texts.
pub open spec fn is_one_of(texts: Seq<&str>, text: Seq<char>) -> bool {
    exists|i: int| 0 <= i < texts.len() && (#[trigger] texts[i])@ == text
}

/// Whether a job in the state `last_state` has reached one of the states
/// that are waited for.
pub fn reached_state(last_state: &str, expected_states: &[&str]) -> (r: bool)
    ensures
        r == is_one_of(expected_states@, last_state@),
{
    let mut i: usize = 0;
    while i < expected_states.len()
        invariant
            i <= expected_states.len(),
            forall|j: int| 0 <= j < i ==> (#[trigger] expected_states[j])@ != last_state@,
        decreases expected_states.len() - i,
    {
        if same_text(expected_states[i], last_state) {
            return true;
        }
        i += 1;
    }
    false
}

/// What a look at the state of a job has shown: the state that the job is
/// now known to be in, whether that is news, and whether the job has
/// failed.
#[derive(Debug, PartialEq, Eq)]
pub struct Observed {
    pub last_state: String,
    pub transitioned: bool,
    pub failed: bool,
}

/// Takes note of the state that a job was found in while it was waited
/// for.
pub fn observe_state(last_state: String, state: String) -> (r: Observed)
    ensures
        r.last_state@ == state@,
        r.transitioned == (last_state@ != state@),
        r.failed == (state@ == FAILED@),
{
    let transitioned = !same_text(last_state.as_str(), state.as_str());
    let failed = same_text(state.as_str(), FAILED);
    Observed { last_state: state, transitioned, failed }
}

/// Where the next page of pipelines starts: after the last pipeline of the
/// page that was read, or where that page started if it was empty.
pub fn next_page(starting_after: String, last_id: Option<String>) -> (next: String)
    ensures
        next@ == (match last_id {
            Some(id) => id@,
            None => starting_after@,
        }),
{
    match last_id {
        Some(id) => id,
        None => starting_after,
    }
}

/// A pipeline as the API lists it.
#[derive(Debug, PartialEq, Eq)]
pub struct Pipeline {
    pub id: String,
    pub query: String,
}

/// Whether `i` is the first pipeline that runs the query.
pub open spec fn is_first_with_query(pipelines: Seq<Pipeline>, query: Seq<char>, i: int) -> bool {
    &&& 0 <= i < pipelines.len()
    &&& pipelines[i].query@ == query
    &&& forall|j: int| 0 <= j < i ==> (#[trigger] pipelines[j]).query@ != query
}

/// Finds the first pipeline that runs the query, if there is one.
pub fn existing_pipeline(pipelines: &Vec<Pipeline>, query: &str) -> (r: Option<usize>)
    ensures
        match r {
            Some(i) => is_first_with_query(pipelines@, query@, i as int),
            None => forall|j: int|
                0 <= j < pipelines.len() ==> (#[trigger] pipelines[j]).query@ != query@,
        },
{
    let mut i: usize = 0;
    while i < pipelines.len()
        invariant
            i <= pipelines.len(),
            forall|j: int| 0 <= j < i ==> (#[trigger] pipelines[j]).query@ != query@,
        decreases pipelines.len() - i,
    {
        if same_text(pipelines[i].query.as_str(), query) {
            return Some(i);
        }
        i += 1;
    }
    None
}

/// The name under which a pipeline is created.
pub fn pipeline_name(name: Option<String>) -> (r: String)
    ensures
        r@ == (match name {
            Some(given) => given@,
            None => DEFAULT_NAME@,
        }),
{
    match name {
        Some(given) => given,
        None => DEFAULT_NAME.to_owned(),
    }
}

/// The path of the database of a run that names none, made of a number
/// that the caller has drawn at random.
pub fn default_database(random: u32) -> (path: String)
    ensures
        path@ == "/tmp/arroyo/"@ + decimal_text(random as nat) + ".arroyo"@,
{
    "/tmp/arroyo/".to_owned().concat(usize_to_text(random as usize).as_str()).concat(".arroyo")
}

/// The port that the API listens on: the one that was asked for, or any.
pub fn http_port(run_http_port: Option<u16>) -> (port: u16)
    ensures
        port == (match run_http_port {
            Some(asked) => asked,
            None => 0u16,
        }),
{
    match run_http_port {
        Some(asked) => asked,
        None => 0,
    }
}

} // verus!
