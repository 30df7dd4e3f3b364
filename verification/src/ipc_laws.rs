//! What is made of the daemon's answers.
use crate::ipc_client::{
    action_line, after_stage, call_error, follows, found_out, next_stage, tried, ActionReply,
    CallStage, PollResult, PollView, StatusReply,
};
use crate::members::{network_views, NetworkStatus};
use vstd::prelude::*;

verus! {

/// Every answer that is a status makes the daemon reachable, with the answer's
/// own values, whatever they are.
pub proof fn law_status_makes_reachable(active: bool, networks: Vec<NetworkStatus>)
    ensures
        found_out(Ok(StatusReply::Status { active, networks })) == (PollResult::Reachable {
            active,
            networks,
        }),
{
}

/// Nothing but a failure or another answer makes the daemon unreachable.
pub proof fn law_unreachable_without_status(reply: Result<StatusReply, String>)
    ensures
        found_out(reply) is Unreachable <==> reply is Err || reply->Ok_0 is Other,
{
}

/// The model of a result holds what the result holds.
pub proof fn law_result_model(active: bool, networks: Vec<NetworkStatus>)
    ensures
        (PollResult::Reachable { active, networks })@ == (PollView::Reachable {
            active,
            networks: network_views(networks@),
        }),
        PollResult::Unreachable@ == PollView::Unreachable,
{
}

/// A step that succeeds leads to the next one: connecting, sending, receiving,
/// in this order.
pub proof fn law_stages()
    ensures
        next_stage(CallStage::Connect) == Some(CallStage::Send),
        next_stage(CallStage::Send) == Some(CallStage::Receive),
        next_stage(CallStage::Receive) == None::<CallStage>,
        forall|s: CallStage| #[trigger]
            after_stage(s, Ok(())) == Ok::<Option<CallStage>, Seq<char>>(next_stage(s)),
{
}

/// The error of a step says which step it was, and then what went wrong.
pub proof fn law_call_error(e: Seq<char>)
    ensures
        after_stage(CallStage::Connect, Err(e)) == Err::<Option<CallStage>, Seq<char>>(
            "could not reach the tetron daemon: "@ + e,
        ),
        after_stage(CallStage::Send, Err(e)) == Err::<Option<CallStage>, Seq<char>>(
            "failed to send request to daemon: "@ + e,
        ),
        after_stage(CallStage::Receive, Err(e)) == Err::<Option<CallStage>, Seq<char>>(
            "failed to read daemon response: "@ + e,
        ),
        call_error(CallStage::Connect, e) == "could not reach the tetron daemon: "@ + e,
        call_error(CallStage::Send, e) == "failed to send request to daemon: "@ + e,
        call_error(CallStage::Receive, e) == "failed to read daemon response: "@ + e,
{
}

/// The log line of an action holds the daemon's own message, and says so where
/// the daemon refused or answered something else.
pub proof fn law_action_line(message: String)
    ensures
        action_line(Ok(ActionReply::Done { message })) == "tetron-systray: "@ + message@,
        action_line(Ok(ActionReply::Refused { message })) == "tetron-systray: error: "@ + message@,
        action_line(Ok(ActionReply::Other { debug: message }))
            == "tetron-systray: unexpected response: "@ + message@,
        action_line(Err(message)) == "tetron-systray: "@ + message@,
{
    reveal_strlit("tetron-systray: ");
    reveal_strlit("error: ");
    reveal_strlit("unexpected response: ");
    reveal_strlit("tetron-systray: error: ");
    reveal_strlit("tetron-systray: unexpected response: ");
    assert("tetron-systray: error: "@ =~= "tetron-systray: "@ + "error: "@);
    assert("tetron-systray: unexpected response: "@ =~= "tetron-systray: "@
        + "unexpected response: "@);
    assert(action_line(Ok(ActionReply::Refused { message })) =~= "tetron-systray: error: "@
        + message@);
    assert(action_line(Ok(ActionReply::Other { debug: message }))
        =~= "tetron-systray: unexpected response: "@ + message@);
}

/// The models of outcomes hold what the outcomes hold.
pub proof fn law_call_models(next: Option<CallStage>, e: String)
    ensures
        tried(Ok(())) == Ok::<(), Seq<char>>(()),
        tried(Err(e)) == Err::<(), Seq<char>>(e@),
        follows(Ok(next)) == Ok::<Option<CallStage>, Seq<char>>(next),
        follows(Err(e)) == Err::<Option<CallStage>, Seq<char>>(e@),
{
}

} // verus!
