//! The life of the tray: where it connects to, and what it does when something happens.

use vstd::prelude::*;

use crate::api::{base_url, Api};
use crate::command::Command;
use crate::error::Error;
use crate::snapshot::SnapshotView;
use crate::text::opt_text;
use crate::tray::status_line;

verus! {

/// How often the kernel is re-read when nothing else happens, in seconds.
///
/// Opening the menu and every menu command refresh right away, so this only decides how quickly
/// changes made elsewhere (the dashboard, another client) show up here.
pub const POLL: u64 = 30;

/// Where the controller listens unless the environment says otherwise.
pub const DEFAULT_CONTROLLER: &'static str = "127.0.0.1:9090";

/// A setting that is there and not empty.
pub open spec fn setting(value: Option<Seq<char>>) -> Option<Seq<char>> {
    match value {
        Some(value) if value.len() > 0 => Some(value),
        _ => None,
    }
}

/// Take an empty environment variable as unset.
pub fn nonempty(value: Option<String>) -> (setting: Option<String>)
    ensures
        opt_text(setting) == self::setting(opt_text(value)),
        value matches Some(text) ==> (setting is Some <==> text@.len() > 0),
        setting is Some ==> setting == value,
        value is None ==> setting is None,
{
    match value {
        Some(value) => if value.as_str().is_empty() {
            None
        } else {
            Some(value)
        },
        None => None,
    }
}

/// The client for the controller that the environment names: `controller` is its address, with
/// [`DEFAULT_CONTROLLER`] in its place where that is unset, and `secret` its secret.
pub fn connect(controller: Option<String>, secret: Option<String>) -> (api: Api)
    ensures
        api@.base == base_url(
            match setting(opt_text(controller)) {
                Some(address) => address,
                None => DEFAULT_CONTROLLER@,
            },
        ),
        api@.secret == setting(opt_text(secret)),
        controller matches Some(address) ==> api@.base == base_url(
            if address@.len() > 0 {
                address@
            } else {
                "127.0.0.1:9090"@
            },
        ),
        controller is None ==> api@.base == base_url("127.0.0.1:9090"@),
        secret matches Some(text) ==> api@.secret == (if text@.len() > 0 {
            Some(text@)
        } else {
            None
        }),
        secret is None ==> api@.secret is None,
{
    let address: String = match nonempty(controller) {
        Some(address) => address,
        None => DEFAULT_CONTROLLER.to_owned(),
    };
    Api::new(address.as_str(), nonempty(secret))
}

/// Something that happened to the tray.
pub enum Event {
    /// The menu is gone, nobody is listening anymore.
    Closed,
    /// [`POLL`] seconds have passed without a command.
    Elapsed,
    /// A command was picked from the menu.
    Picked(Command),
    /// The command was run, with this result.
    Ran(Result<(), Error>),
    /// The kernel was read and the tray redrawn.
    Refreshed,
}

/// What the tray does next.
pub enum Action {
    /// Wake up on a menu command, or once the poll interval has passed.
    Wait,
    Run(Command),
    /// Read the kernel state and redraw the tray, reporting `failure` when the command that
    /// triggered this did not go through.
    Refresh { failure: Option<String> },
    Stop,
}

/// `action` answers `event`.
pub open spec fn answers(event: Event, action: Action) -> bool {
    match event {
        Event::Closed => action == Action::Stop,
        Event::Elapsed => action == (Action::Refresh { failure: None }),
        Event::Picked(command) => action == Action::Run(command),
        Event::Ran(Ok(_)) => action == (Action::Refresh { failure: None }),
        Event::Ran(Err(error)) => {
            &&& action matches Action::Refresh { failure: Some(failure) }
            &&& failure@ == error.text()
        },
        Event::Refreshed => action == Action::Wait,
    }
}

/// Poll the kernel, and run the commands the menu sends.
pub fn serve(event: Event) -> (action: Action)
    ensures
        answers(event, action),
{
    match event {
        Event::Closed => Action::Stop,
        Event::Elapsed => Action::Refresh { failure: None },
        Event::Picked(command) => Action::Run(command),
        // A command can fail, e.g. picking a node in a group that does not support it; keep the
        // reason so the menu can show it.
        Event::Ran(result) => Action::Refresh {
            failure: match result {
                Ok(()) => None,
                Err(error) => Some(error.message()),
            },
        },
        Event::Refreshed => Action::Wait,
    }
}

/// Every command that is picked is run as it is, and then the kernel is read again, whatever came
/// of the command.
pub proof fn every_command_is_followed_by_a_refresh(
    command: Command,
    result: Result<(), Error>,
    first: Action,
    second: Action,
)
    requires
        answers(Event::Picked(command), first),
        answers(Event::Ran(result), second),
    ensures
        first == Action::Run(command),
        second is Refresh,
        second->failure is Some <==> result is Err,
{
}

/// The tray only ever stops when the menu is gone, and otherwise waits for the next command or
/// the next poll once it has redrawn itself.
pub proof fn only_a_closed_menu_stops_the_tray(event: Event, action: Action)
    requires
        answers(event, action),
    ensures
        action is Stop <==> event is Closed,
        action is Wait <==> event is Refreshed,
{
}

/// Why a command failed is shown at the head of the menu while the kernel can be reached; where
/// it cannot, that is shown instead.
pub proof fn a_failed_command_is_shown(error: Error, action: Action, state: SnapshotView)
    requires
        answers(Event::Ran(Err(error)), action),
    ensures
        action matches Action::Refresh { failure } && {
            let shown = status_line(state.with_failure(opt_text(failure)));
            &&& state.error is None ==> shown == "⚠ "@ + error.text()
            &&& state.error matches Some(unreachable) ==> shown == "⚠ "@ + unreachable
        },
{
}

/// Only a setting that is missing or empty counts as unset; any other is taken as it is, however
/// long.
pub proof fn only_an_empty_setting_is_unset(value: Option<Seq<char>>)
    ensures
        value is None ==> setting(value) is None,
        value matches Some(text) ==> (text.len() == 0 <==> setting(value) is None),
        value matches Some(text) ==> (text.len() > 0 ==> setting(value) == Some(text)),
{
}

/// What the tray does next: stop when the menu is gone, run what was picked, read the kernel
/// again after a poll and after a command, with the message of a failed one, and then wait.
pub proof fn every_event_has_its_answer(event: Event, action: Action)
    requires
        answers(event, action),
    ensures
        event is Closed ==> action is Stop,
        event is Elapsed ==> action is Refresh && action->failure is None,
        event matches Event::Picked(command) ==> action == Action::Run(command),
        event matches Event::Ran(Ok(_)) ==> action is Refresh && action->failure is None,
        event matches Event::Ran(Err(error)) ==> action is Refresh && opt_text(action->failure)
            == Some(error.text()),
        event is Refreshed ==> action is Wait,
{
}

} // verus!
