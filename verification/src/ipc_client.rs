//! Requests to the daemon: one connection for each, and what is made of the
//! answer.
use crate::members::{network_views, NetworkStatus, NetworkView};
use vstd::prelude::*;

verus! {

// ---------------------------------------------------------------------------
// One request
// ---------------------------------------------------------------------------

/// The steps of one request, in order.
#[derive(Clone, Copy, Debug, PartialEq, Eq, Structural)]
pub enum CallStage {
    /// Connect to the daemon.
    Connect,
    /// Send the request.
    Send,
    /// Receive the answer.
    Receive,
}

/// The step after another; none after the last.
pub open spec fn next_stage(stage: CallStage) -> Option<CallStage> {
    match stage {
        CallStage::Connect => Some(CallStage::Send),
        CallStage::Send => Some(CallStage::Receive),
        CallStage::Receive => None,
    }
}

/// What a failed step is reported as.
pub open spec fn call_error(stage: CallStage, error: Seq<char>) -> Seq<char> {
    match stage {
        CallStage::Connect => "could not reach the tetron daemon: "@ + error,
        CallStage::Send => "failed to send request to daemon: "@ + error,
        CallStage::Receive => "failed to read daemon response: "@ + error,
    }
}

/// What follows once a step has succeeded or failed.
pub open spec fn after_stage(stage: CallStage, outcome: Result<(), Seq<char>>) -> Result<
    Option<CallStage>,
    Seq<char>,
> {
    match outcome {
        Ok(_) => Ok(next_stage(stage)),
        Err(e) => Err(call_error(stage, e)),
    }
}

/// The model of how a step came out.
pub open spec fn tried(r: Result<(), String>) -> Result<(), Seq<char>> {
    match r {
        Ok(_) => Ok(()),
        Err(e) => Err(e@),
    }
}

/// The model of what follows a step.
pub open spec fn follows(r: Result<Option<CallStage>, String>) -> Result<
    Option<CallStage>,
    Seq<char>,
> {
    match r {
        Ok(next) => Ok(next),
        Err(e) => Err(e@),
    }
}

/// Goes on with a request once a step has succeeded or failed: to the next
/// step, to the end of the request, or to the error that the request ends in.
/// That the daemon refuses a request is an answer, and no error here.
pub fn call(stage: CallStage, outcome: Result<(), String>) -> (r: Result<Option<CallStage>, String>)
    ensures
        follows(r) == after_stage(stage, tried(outcome)),
{
    match outcome {
        Ok(_) => Ok(
            match stage {
                CallStage::Connect => Some(CallStage::Send),
                CallStage::Send => Some(CallStage::Receive),
                CallStage::Receive => None,
            },
        ),
        Err(e) => {
            let mut text: String = match stage {
                CallStage::Connect => "could not reach the tetron daemon: ".to_owned(),
                CallStage::Send => "failed to send request to daemon: ".to_owned(),
                CallStage::Receive => "failed to read daemon response: ".to_owned(),
            };
            text.append(e.as_str());
            Err(text)
        },
    }
}

/// How each step of a request comes out, if it is taken.
pub struct Outcomes {
    pub connect: Result<(), Seq<char>>,
    pub send: Result<(), Seq<char>>,
    pub receive: Result<(), Seq<char>>,
}

/// How a step comes out.
pub open spec fn outcome_of(outcomes: Outcomes, stage: CallStage) -> Result<(), Seq<char>> {
    match stage {
        CallStage::Connect => outcomes.connect,
        CallStage::Send => outcomes.send,
        CallStage::Receive => outcomes.receive,
    }
}

/// How many steps come after another.
pub open spec fn stages_left(stage: CallStage) -> nat {
    match stage {
        CallStage::Connect => 2,
        CallStage::Send => 1,
        CallStage::Receive => 0,
    }
}

/// How a request ends that has come to a step.
pub open spec fn ends(stage: CallStage, outcomes: Outcomes) -> Result<(), Seq<char>>
    decreases stages_left(stage),
{
    match after_stage(stage, outcome_of(outcomes, stage)) {
        Ok(Some(next)) => if stages_left(next) < stages_left(stage) {
            ends(next, outcomes)
        } else {
            Ok(())
        },
        Ok(None) => Ok(()),
        Err(e) => Err(e),
    }
}

/// The steps that a request takes from a step on.
pub open spec fn taken(stage: CallStage, outcomes: Outcomes) -> Seq<CallStage>
    decreases stages_left(stage),
{
    match after_stage(stage, outcome_of(outcomes, stage)) {
        Ok(Some(next)) => if stages_left(next) < stages_left(stage) {
            seq![stage] + taken(next, outcomes)
        } else {
            seq![stage]
        },
        _ => seq![stage],
    }
}

/// A request ends well exactly when connecting, sending and receiving all
/// succeed, and otherwise with the error of the first of them that failed. Each
/// is tried once at most, and none after one that failed, so that the request is
/// sent once at most.
pub proof fn law_whole_request(outcomes: Outcomes)
    ensures
        ends(CallStage::Connect, outcomes) == (if outcomes.connect is Err {
            Err(call_error(CallStage::Connect, outcomes.connect->Err_0))
        } else if outcomes.send is Err {
            Err(call_error(CallStage::Send, outcomes.send->Err_0))
        } else if outcomes.receive is Err {
            Err(call_error(CallStage::Receive, outcomes.receive->Err_0))
        } else {
            Ok(())
        }),
        taken(CallStage::Connect, outcomes) == (if outcomes.connect is Err {
            seq![CallStage::Connect]
        } else if outcomes.send is Err {
            seq![CallStage::Connect, CallStage::Send]
        } else {
            seq![CallStage::Connect, CallStage::Send, CallStage::Receive]
        }),
        taken(CallStage::Connect, outcomes).no_duplicates(),
{
    reveal_with_fuel(ends, 3);
    reveal_with_fuel(taken, 3);
    let all = taken(CallStage::Connect, outcomes);
    assert(all =~= (if outcomes.connect is Err {
        seq![CallStage::Connect]
    } else if outcomes.send is Err {
        seq![CallStage::Connect, CallStage::Send]
    } else {
        seq![CallStage::Connect, CallStage::Send, CallStage::Receive]
    }));
}

// ---------------------------------------------------------------------------
// Status
// ---------------------------------------------------------------------------

/// An answer to a request for the status.
#[derive(Debug, PartialEq, Eq)]
pub enum StatusReply {
    Status { active: bool, networks: Vec<NetworkStatus> },
    /// Any other message.
    Other,
}

/// What a poll found out.
#[derive(Debug, PartialEq, Eq)]
pub enum PollResult {
    Reachable { active: bool, networks: Vec<NetworkStatus> },
    /// No connection, or an answer that is no status.
    Unreachable,
}

/// Mathematical model of a [`PollResult`].
pub enum PollView {
    Reachable { active: bool, networks: Seq<NetworkView> },
    Unreachable,
}

impl View for PollResult {
    type V = PollView;

    open spec fn view(&self) -> PollView {
        match *self {
            PollResult::Reachable { active, networks } => PollView::Reachable {
                active,
                networks: network_views(networks@),
            },
            PollResult::Unreachable => PollView::Unreachable,
        }
    }
}

/// What a poll found out: the daemon counts as reachable only if it answered
/// with its status.
pub open spec fn found_out(reply: Result<StatusReply, String>) -> PollResult {
    match reply {
        Ok(StatusReply::Status { active, networks }) => PollResult::Reachable { active, networks },
        _ => PollResult::Unreachable,
    }
}

/// What a poll found out.
pub fn poll_result(reply: Result<StatusReply, String>) -> (r: PollResult)
    ensures
        r == found_out(reply),
        reply matches Ok(StatusReply::Status { active, networks }) ==> r == (
        PollResult::Reachable { active, networks }),
        r is Unreachable <==> reply is Err || reply->Ok_0 is Other,
{
    match reply {
        Ok(StatusReply::Status { active, networks }) => PollResult::Reachable { active, networks },
        _ => PollResult::Unreachable,
    }
}

// ---------------------------------------------------------------------------
// Actions
// ---------------------------------------------------------------------------

/// An answer to a request to do something.
#[derive(Debug, PartialEq, Eq)]
pub enum ActionReply {
    Done { message: String },
    Refused { message: String },
    /// Any other message, as it prints for debugging.
    Other { debug: String },
}

/// The log line for the answer to an action, or for the failure to get one.
pub open spec fn action_line(reply: Result<ActionReply, String>) -> Seq<char> {
    "tetron-systray: "@ + (match reply {
        Ok(ActionReply::Done { message }) => message@,
        Ok(ActionReply::Refused { message }) => "error: "@ + message@,
        Ok(ActionReply::Other { debug }) => "unexpected response: "@ + debug@,
        Err(e) => e@,
    })
}

/// The log line for the answer to an action, or for the failure to get one.
pub fn action_report(reply: &Result<ActionReply, String>) -> (line: String)
    ensures
        line@ == action_line(*reply),
{
    let mut out: String = "tetron-systray: ".to_owned();
    match reply {
        Ok(ActionReply::Done { message }) => {
            out.append(message.as_str());
        },
        Ok(ActionReply::Refused { message }) => {
            out.append("error: ");
            out.append(message.as_str());
        },
        Ok(ActionReply::Other { debug }) => {
            out.append("unexpected response: ");
            out.append(debug.as_str());
        },
        Err(e) => {
            out.append(e.as_str());
        },
    }
    assert(out@ == action_line(*reply));
    out
}

} // verus!
