//! What holds of the answers of the daemon and of the frames on its connections.

use vstd::prelude::*;

use crate::daemon;
use crate::daemon::Method;
use crate::desktop;
use crate::json;
use crate::protocol::daemon_address;
use crate::protocol::rpc;
use crate::protocol::rpc::{JsonRpcRequestModel, JsonRpcResponseModel};
use crate::protocol::socket_address::SocketAddress;
use crate::protocol::{
    ready_state, DaemonConnectionView, DaemonState, DaemonStatus, MessageRole, RpcIdModel,
    RuntimeEventKindModel, SkillDefinitionModel,
};
use crate::runtime::activate_skill;
use crate::runtime::session_runner::RunnerError;

verus! {

/// The response carries an error and nothing else, under the identifier of its request.
pub open spec fn is_failure(
    response: JsonRpcResponseModel,
    id: RpcIdModel,
    code: int,
    message: Seq<char>,
) -> bool {
    &&& response.jsonrpc == "2.0"@
    &&& response.id == id
    &&& response.result is None
    &&& response.error matches Some(error)
    &&& error.code == code
    &&& error.message == message
    &&& error.data is None
}

/// What a request is answered: its result; that the session is busy; or what went wrong, with
/// where it did and the text of the error.
pub proof fn law_answers_tell_the_outcome(
    request: JsonRpcRequestModel,
    session_id: Option<Seq<char>>,
    outcome: Result<Result<String, String>, RunnerError>,
)
    ensures
        ({
            let response = daemon::answer(request, session_id, outcome);
            match outcome {
                Ok(Ok(result)) => {
                    &&& response.jsonrpc == "2.0"@
                    &&& response.id == request.id
                    &&& response.result == Some(result@)
                    &&& response.error is None
                },
                Ok(Err(reason)) => is_failure(
                    response,
                    request.id,
                    -32603,
                    "failed to serialize JSON-RPC frame: "@ + reason@,
                ),
                Err(RunnerError::Busy) => is_failure(
                    response,
                    request.id,
                    -32000,
                    "session "@ + (match session_id {
                        Some(id) => id,
                        None => "unknown"@,
                    }) + " is busy"@,
                ),
                Err(RunnerError::SessionStore(error)) => is_failure(
                    response,
                    request.id,
                    -32603,
                    "session store error: "@ + error.spec_message(),
                ),
                Err(RunnerError::SessionView(error)) => is_failure(
                    response,
                    request.id,
                    -32603,
                    "session view error: "@ + error.spec_message(),
                ),
                Err(RunnerError::SkillRegistry(error)) => is_failure(
                    response,
                    request.id,
                    -32603,
                    "skill registry error: "@ + error.spec_message(),
                ),
                Err(RunnerError::Provider(error)) => is_failure(
                    response,
                    request.id,
                    -32603,
                    "provider error: "@ + error.spec_message(),
                ),
            }
        }),
{
}

/// What is refused before it is served: text that is no request, an unknown method, and
/// parameters that are not those of the method; each with its code and with what was wrong.
pub proof fn law_refused_requests_are_answered(request: JsonRpcRequestModel, error: Seq<char>)
    ensures
        is_failure(
            daemon::method_not_found(request),
            request.id,
            -32601,
            "method not found: "@ + request.method,
        ),
        is_failure(
            daemon::invalid_params(request),
            request.id,
            -32602,
            "invalid params for "@ + request.method,
        ),
        is_failure(
            daemon::parse_error(error),
            RpcIdModel::Number(0),
            -32700,
            "parse error: "@ + error,
        ),
        daemon::parse_error_event(error) == (RuntimeEventKindModel::Error {
            message: "failed to parse JSON-RPC request: "@ + error,
            run_id: None,
        }),
{
}

/// Seven methods are served, each under its name, and no other name is one.
pub proof fn law_methods_are_served_under_their_names(name: Seq<char>)
    ensures
        daemon::method_of(name) == Some(Method::GetState) <==> name == "get_state"@,
        daemon::method_of(name) == Some(Method::NewSession) <==> name == "new_session"@,
        daemon::method_of(name) == Some(Method::LoadSession) <==> name == "load_session"@,
        daemon::method_of(name) == Some(Method::ListSessions) <==> name == "list_sessions"@,
        daemon::method_of(name) == Some(Method::DeleteSession) <==> name == "delete_session"@,
        daemon::method_of(name) == Some(Method::SendMessage) <==> name == "send_message"@,
        daemon::method_of(name) == Some(Method::CancelRun) <==> name == "cancel_run"@,
{
    reveal_strlit("get_state");
    reveal_strlit("new_session");
    reveal_strlit("load_session");
    reveal_strlit("list_sessions");
    reveal_strlit("delete_session");
    reveal_strlit("send_message");
    reveal_strlit("cancel_run");
    assert("get_state"@[0] == 'g');
    assert("new_session"@[0] == 'n');
    assert("load_session"@[1] == 'o');
    assert("list_sessions"@[0] == 'l' && "list_sessions"@[1] == 'i');
    assert("delete_session"@[0] == 'd');
    assert("send_message"@[0] == 's');
    assert("cancel_run"@[0] == 'c');
    assert("load_session"@[0] == 'l');
}

/// The daemon takes its address from the argument behind `--rpc-websocket`, and nothing else
/// on its command line; an address that is refused is told with the reason.
pub proof fn law_address_is_taken_from_the_command_line(
    program: Seq<char>,
    text: Seq<char>,
    args: Seq<Seq<char>>,
)
    ensures
        daemon::address_argument(seq![program, "--rpc-websocket"@, text])
            == match daemon_address::address_of(text) {
            Ok(address) => Ok::<SocketAddress, Seq<char>>(address),
            Err(error) => Err(
                "invalid --rpc-websocket address '"@ + text + "': "@ + error.message(),
            ),
        },
        !(args.len() == 3 && args[1] == "--rpc-websocket"@) ==> daemon::address_argument(args)
            == Err::<SocketAddress, Seq<char>>("usage: byte-daemon --rpc-websocket <addr>"@),
{
}

/// Frames are what they are made from, under version 2.0 of the protocol.
pub proof fn law_frames_hold_what_they_are_made_from(
    id: RpcIdModel,
    method: Seq<char>,
    params: Option<Seq<char>>,
    result: Seq<char>,
    code: i64,
    message: Seq<char>,
)
    ensures
        ({
            let request = rpc::request_frame(id, method, params);
            request.jsonrpc == "2.0"@ && request.id == id && request.method == method
                && request.params == params
        }),
        ({
            let response = rpc::success_frame(id, result);
            response.jsonrpc == "2.0"@ && response.id == id && response.result == Some(result)
                && response.error is None
        }),
        is_failure(rpc::failure_frame(id, code, message), id, code as int, message),
        ({
            let notification = rpc::notification_frame(method, params);
            notification.jsonrpc == "2.0"@ && notification.method == method && notification.params
                == params
        }),
{
}

/// An error of the connection is told to the client as an event of no run.
pub proof fn law_connection_errors_are_events(message: Seq<char>)
    ensures
        desktop::error_event(message).kind == (RuntimeEventKindModel::Error {
            message,
            run_id: None,
        }),
        desktop::error_event(message).sequence == 0,
{
}

/// The first activation of a skill hands the model its name, its description and its content,
/// as an object with these members; a repeated one only says that it is active, by its name.
pub proof fn law_activation_hands_out_the_skill(skill: SkillDefinitionModel)
    ensures
        activate_skill::activation_output(skill, false) == json::json_object(
            seq!["name"@, "description"@, "content"@],
            seq![skill.name, skill.description, skill.content],
        ),
        activate_skill::activation_output(skill, true) == "Skill `"@ + skill.name
            + "` is already active; its instructions are provided in the conversation."@,
        activate_skill::activated(skill).name == skill.name,
        activate_skill::activated(skill).content == skill.content,
{
}

/// A call names a skill exactly when its arguments have a string member `name`.
pub proof fn law_call_names_a_skill(member: Result<Option<Seq<char>>, Seq<char>>)
    ensures
        activate_skill::named_skill(member) == match member {
            Ok(name) => name,
            Err(_) => None,
        },
{
}

/// A connected daemon is shown with its state and without an error; one that is not connected
/// is shown with the error and without a state.
pub proof fn law_connections_are_shown(
    view: DaemonConnectionView,
    state: DaemonState,
    error: Seq<char>,
)
    ensures
        desktop::connected_view(view, state) <==> view.connected && view.state.deep_view() == Some(
            state.deep_view(),
        ) && view.error is None,
        desktop::disconnected_view(view, error) <==> !view.connected && view.state is None
            && view.error.deep_view() == Some(error),
        !(desktop::connected_view(view, state) && desktop::disconnected_view(view, error)),
{
}

/// The saved address of the daemon is looked for in `byte/daemon.toml` below the configuration
/// directory, or below `.config` in the home directory.
pub proof fn law_saved_address_is_looked_for(
    dir: Seq<char>,
    home: Seq<char>,
    other: Option<Seq<char>>,
)
    requires
        dir.len() > 0,
        dir.last() != '/',
        home.len() > 0,
        home.last() != '/',
    ensures
        desktop::daemon_config_path(Some(dir), other) == dir + "/byte/daemon.toml"@,
        desktop::daemon_config_path(None, Some(home)) == home + "/.config/byte/daemon.toml"@,
{
    reveal_strlit("byte");
    reveal_strlit("daemon.toml");
    reveal_strlit(".config");
    reveal_strlit("/byte/daemon.toml");
    reveal_strlit("/.config/byte/daemon.toml");
    assert(desktop::daemon_config_path(Some(dir), other) =~= dir + "/byte/daemon.toml"@);
    assert(desktop::daemon_config_path(None, Some(home)) =~= home + "/.config/byte/daemon.toml"@);
}

/// A daemon that serves requests tells its version and that of the protocol.
pub proof fn law_ready_daemon_tells_its_version(version: Seq<char>)
    ensures
        ready_state(version).status == DaemonStatus::Ready,
        ready_state(version).daemon_version == version,
        ready_state(version).protocol_version == 1,
{
}

/// A request waits exactly when its number is among those that wait; taking one off leaves
/// every other one.
pub proof fn law_requests_wait_by_number(
    before: Seq<u64>,
    after: Seq<u64>,
    id: RpcIdModel,
    n: u64,
    text: Seq<char>,
)
    ensures
        desktop::is_pending(before, RpcIdModel::Number(n)) <==> before.contains(n),
        !desktop::is_pending(before, RpcIdModel::String(text)),
        desktop::only_removed(before, after, id) && id != RpcIdModel::Number(n) ==> (
        after.contains(n) <==> before.contains(n)),
        desktop::only_removed(before, after, RpcIdModel::Number(n)) ==> !after.contains(n),
{
}

/// Roles are told by their names.
pub proof fn law_roles_have_names()
    ensures
        MessageRole::System.spec_text() == "system"@,
        MessageRole::Developer.spec_text() == "developer"@,
        MessageRole::Assistant.spec_text() == "assistant"@,
        MessageRole::Tool.spec_text() == "tool"@,
        MessageRole::Summary.spec_text() == "summary"@,
{
}

} // verus!
