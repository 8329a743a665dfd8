//! Ending the current session, or all sessions but the reserved one.

use crate::mux::{commands_of, MuxCommand, MuxCommandView};
use crate::text::{contains_str, contains_text, same_text, texts_of};
use crate::utils::{
    attached_session, current_session, existing_session_names, session_names, tmux_display_message,
    tmux_kill_session, tmux_switch_client, SessionError, SessionErrorView,
};
use vstd::prelude::*;
use vstd::string::*;

verus! {

/// A plan made from a session listing.
pub type KillPlan = Result<Seq<MuxCommandView>, SessionErrorView>;

/// The value of a plan made from a session listing.
pub open spec fn kill_plan_of(r: Result<Vec<MuxCommand>, SessionError>) -> KillPlan {
    match r {
        Ok(v) => Ok(commands_of(v@)),
        Err(e) => Err(e@),
    }
}

/// The message that refuses to end the reserved session.
pub open spec fn refusal(default: Seq<char>) -> Seq<char> {
    "Can't kill the default session: '"@ + default + "'"@
}

/// The plan that ends the attached session: the client moves to the first
/// window of the reserved session; then the attached session is ended,
/// unless it is the reserved one, which is kept and a message shown instead.
pub open spec fn kill_current_plan(default: Seq<char>, listing: Seq<char>) -> KillPlan {
    match attached_session(listing) {
        Err(e) => Err(e),
        Ok(current) => Ok(
            seq![
                MuxCommandView::SwitchClient { name: default, index: 1 },
                if current != default {
                    MuxCommandView::KillSession { name: current }
                } else {
                    MuxCommandView::DisplayMessage { text: refusal(default) }
                },
            ],
        ),
    }
}

/// The commands that end the sessions whose names do not hold the reserved
/// name, in the order of the names.
pub open spec fn kills(names: Seq<Seq<char>>, default: Seq<char>) -> Seq<MuxCommandView>
    decreases names.len(),
{
    if names.len() == 0 {
        Seq::empty()
    } else if contains_text(names.last(), default) {
        kills(names.drop_last(), default)
    } else {
        kills(names.drop_last(), default).push(MuxCommandView::KillSession { name: names.last() })
    }
}

/// The plan that ends all sessions but the reserved one: the client moves to
/// the first window of the reserved session, then every session whose name
/// does not hold the reserved name is ended.
pub open spec fn kill_all_plan(default: Seq<char>, listing: Seq<char>) -> KillPlan {
    match session_names(listing) {
        Err(e) => Err(e),
        Ok(names) => Ok(
            seq![MuxCommandView::SwitchClient { name: default, index: 1 }] + kills(names, default),
        ),
    }
}

/// The commands that end the session which the listing shows as attached.
pub fn kill_current_session(default: &str, listing: &str) -> (r: Result<
    Vec<MuxCommand>,
    SessionError,
>)
    ensures
        kill_plan_of(r) == kill_current_plan(default@, listing@),
{
    let current = match current_session(listing) {
        Ok(name) => name,
        Err(e) => {
            return Err(e);
        },
    };
    let mut v: Vec<MuxCommand> = Vec::new();
    v.push(tmux_switch_client(default, None));
    if !same_text(current.as_str(), default) {
        v.push(tmux_kill_session(current.as_str()));
    } else {
        let message = "Can't kill the default session: '".to_owned().concat(default).concat("'");
        v.push(tmux_display_message(message.as_str()));
    }
    assert(commands_of(v@) =~= kill_current_plan(default@, listing@)->Ok_0);
    Ok(v)
}

/// The commands that end every session of the listing but the reserved one.
pub fn kill_all_sessions(default: &str, listing: &str) -> (r: Result<Vec<MuxCommand>, SessionError>)
    ensures
        kill_plan_of(r) == kill_all_plan(default@, listing@),
{
    let sessions = match existing_session_names(listing) {
        Ok(names) => names,
        Err(e) => {
            return Err(e);
        },
    };
    let ghost names = texts_of(sessions@);
    let ghost first = seq![MuxCommandView::SwitchClient { name: default@, index: 1 }];
    let mut v: Vec<MuxCommand> = Vec::new();
    v.push(tmux_switch_client(default, None));
    let mut i: usize = 0;
    while i < sessions.len()
        invariant
            i <= sessions.len(),
            names == texts_of(sessions@),
            commands_of(v@) == first + kills(names.take(i as int), default@),
        decreases sessions.len() - i,
    {
        proof {
            assert(names.take(i + 1).drop_last() == names.take(i as int));
        }
        if !contains_str(sessions[i].as_str(), default) {
            let kill = tmux_kill_session(sessions[i].as_str());
            proof {
                assert((first + kills(names.take(i as int), default@)).push(kill@) =~= first
                    + kills(names.take(i as int), default@).push(kill@));
            }
            v.push(kill);
        }
        i = i + 1;
    }
    assert(names.take(i as int) == names);
    Ok(v)
}

} // verus!
