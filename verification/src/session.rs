//! What an editor session asks of the workspace, and what is to be done in
//! answer. The transport is not here: whoever runs the session turns each
//! message into an event, hands it to [`handle`], and carries out the action.

use crate::error::{diagnostic, HoconError};
use crate::grammar;
use crate::workspace::{opened, Workspace};
use vstd::prelude::*;

verus! {

/// What a message of the session comes to.
pub enum Event {
    /// A document was opened: its identifier and its full text.
    Open { path: String, text: String },
    /// The definition of what stands at a place in a document is asked for.
    Definition,
    /// The session is to end.
    Shutdown,
    /// Any other message.
    Other,
}

/// What is to be done after an event.
pub enum Action {
    /// Nothing; go on with the next message.
    Continue,
    /// Tell the host's log that the text opened under `path` did not parse,
    /// and go on.
    Report { path: String, failure: HoconError },
    /// Answer the request with an empty list of locations, and go on.
    AnswerNoLocations,
    /// Acknowledge and stop.
    Stop,
}

/// Applies `event` to `workspace` and says what is to be done.
///
/// A text that is opened is registered under its identifier if it parses; if
/// it does not, the workspace stays as it was and the failure is to be
/// reported. A request for a definition is answered with no locations. No
/// other event touches the workspace.
pub fn handle(workspace: &mut Workspace, event: Event) -> (action: Action)
    ensures
        match event {
            Event::Open { path, text } => {
                &&& final(workspace)@ == opened(old(workspace)@, path@, text@)
                &&& match grammar::document(text@) {
                    Ok(_) => action is Continue,
                    Err(h) => action matches Action::Report { path: reported, failure }
                        && reported@ == path@ && failure.message() == diagnostic(text@, h),
                }
            },
            Event::Definition => action is AnswerNoLocations && final(workspace)@ == old(
                workspace,
            )@,
            Event::Shutdown => action is Stop && final(workspace)@ == old(workspace)@,
            Event::Other => action is Continue && final(workspace)@ == old(workspace)@,
        },
{
    match event {
        Event::Open { path, text } => {
            let reported = path.clone();
            match workspace.open_file(path, text) {
                Ok(()) => Action::Continue,
                Err(failure) => Action::Report { path: reported, failure },
            }
        },
        Event::Definition => Action::AnswerNoLocations,
        Event::Shutdown => Action::Stop,
        Event::Other => Action::Continue,
    }
}

} // verus!
