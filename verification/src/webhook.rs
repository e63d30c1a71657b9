//! The webhook control plane: what each request is answered with, which
//! operation it starts, and what is told once the operation has ended.
//!
//! Listening, running the operations in the background and sending the
//! notifications are the caller's part.

use crate::security::constant_time_compare;
use crate::server::{has_name, named_at, Server, ServerRegistry};
use crate::text::{from_chars, push_str, str_same, to_chars, opt_text};
use crate::url::{parameter_spec, query_parameter};
use vstd::prelude::*;

verus! {

pub const STATUS_OK: u16 = 200;

pub const STATUS_ACCEPTED: u16 = 202;

pub const STATUS_BAD_REQUEST: u16 = 400;

pub const STATUS_UNAUTHORIZED: u16 = 401;

/// What the server holds for all requests: the secret, the servers known by
/// name, and the SSH key to use, if any. It is made when the server starts
/// and no handler changes it.
pub struct WebhookState {
    pub secret: String,
    pub servers: ServerRegistry,
    pub ssh_key: Option<String>,
}

/// The query of an update request.
#[derive(Debug, Clone)]
pub struct WebhookQuery {
    pub server: String,
    pub token: String,
    pub image: Option<String>,
}

/// The query of a cleanup request.
#[derive(Debug, Clone)]
pub struct CleanupQuery {
    pub server: String,
    pub token: String,
}

/// The operations that a request can start.
#[derive(Debug, Clone, Copy, PartialEq, Eq, Structural)]
pub enum Operation {
    UpdateOs,
    UpdateDockerAll,
    UpdateDockerImage,
    CleanupSafe,
    PruneUnusedImages,
}

/// The path of each operation.
pub open spec fn operation_path(op: Operation) -> Seq<char> {
    match op {
        Operation::UpdateOs => "/webhook/update/os"@,
        Operation::UpdateDockerAll => "/webhook/update/docker/all"@,
        Operation::UpdateDockerImage => "/webhook/update/docker/image"@,
        Operation::CleanupSafe => "/webhook/cleanup/safe"@,
        Operation::PruneUnusedImages => "/webhook/cleanup/images/prune-unused"@,
    }
}

/// What a request asks for.
#[derive(Debug, Clone, Copy, PartialEq, Eq, Structural)]
pub enum Route {
    /// `GET /health`.
    Health,
    /// `POST` to the path of an operation.
    Start(Operation),
}

/// The route of a method and a path, if there is one.
pub open spec fn route_spec(method: Seq<char>, path: Seq<char>) -> Option<Route> {
    if method == "GET"@ && path == "/health"@ {
        Some(Route::Health)
    } else if method != "POST"@ {
        None
    } else if path == operation_path(Operation::UpdateOs) {
        Some(Route::Start(Operation::UpdateOs))
    } else if path == operation_path(Operation::UpdateDockerAll) {
        Some(Route::Start(Operation::UpdateDockerAll))
    } else if path == operation_path(Operation::UpdateDockerImage) {
        Some(Route::Start(Operation::UpdateDockerImage))
    } else if path == operation_path(Operation::CleanupSafe) {
        Some(Route::Start(Operation::CleanupSafe))
    } else if path == operation_path(Operation::PruneUnusedImages) {
        Some(Route::Start(Operation::PruneUnusedImages))
    } else {
        None
    }
}

pub fn route(method: &str, path: &str) -> (r: Option<Route>)
    ensures
        r == route_spec(method@, path@),
{
    if str_same(method, "GET") && str_same(path, "/health") {
        Some(Route::Health)
    } else if !str_same(method, "POST") {
        None
    } else if str_same(path, "/webhook/update/os") {
        Some(Route::Start(Operation::UpdateOs))
    } else if str_same(path, "/webhook/update/docker/all") {
        Some(Route::Start(Operation::UpdateDockerAll))
    } else if str_same(path, "/webhook/update/docker/image") {
        Some(Route::Start(Operation::UpdateDockerImage))
    } else if str_same(path, "/webhook/cleanup/safe") {
        Some(Route::Start(Operation::CleanupSafe))
    } else if str_same(path, "/webhook/cleanup/images/prune-unused") {
        Some(Route::Start(Operation::PruneUnusedImages))
    } else {
        None
    }
}

/// The operation to run in the background.
pub struct Job {
    pub operation: Operation,
    pub server: Server,
    /// The image to update, for the update of one image.
    pub image: Option<String>,
}

/// The answer to a request, and the operation that it starts, if any.
pub struct WebhookResponse {
    pub status: u16,
    pub body: String,
    pub job: Option<Job>,
}

/// What the answer to an accepted request says was started.
pub open spec fn started_text(op: Operation, server: Seq<char>, image: Option<Seq<char>>) -> Seq<
    char,
> {
    match op {
        Operation::UpdateOs => "OS update started for "@ + server,
        Operation::UpdateDockerAll => "Docker update started for "@ + server,
        Operation::UpdateDockerImage => "Docker image "@ + (match image {
            Some(i) => i,
            None => ""@,
        }) + " update started for "@ + server,
        Operation::CleanupSafe => "Safe cleanup started for "@ + server,
        Operation::PruneUnusedImages => "Unused image cleanup started for "@ + server,
    }
}

/// The answer to a request for an operation.
///
/// A token that is not the secret gets 401 and starts nothing. With the
/// right token: the update of one image needs an image, else 400; the server
/// must be known by name, else 400; then the answer is 202, and the
/// operation is started for that server.
pub fn handle(state: &WebhookState, op: Operation, query: &WebhookQuery) -> (r: WebhookResponse)
    ensures
        query.token@ != state.secret@ ==> r.status == STATUS_UNAUTHORIZED && r.job is None
            && r.body@ == "Invalid token"@,
        query.token@ == state.secret@ && op is UpdateDockerImage && query.image is None
            ==> r.status == STATUS_BAD_REQUEST && r.job is None && r.body@
            == "Missing image parameter"@,
        query.token@ == state.secret@ && !(op is UpdateDockerImage && query.image is None)
            && !has_name(state.servers.views(), query.server@) ==> r.status == STATUS_BAD_REQUEST
            && r.job is None && r.body@ == "Unknown server: "@ + query.server@,
        query.token@ == state.secret@ && !(op is UpdateDockerImage && query.image is None)
            && has_name(state.servers.views(), query.server@) ==> r.status == STATUS_ACCEPTED
            && r.body@ == started_text(op, query.server@, opt_text(query.image)) && (r.job
            matches Some(job) && job.operation == op && job.server@.name == query.server@
            && (exists|k: int|
            named_at(state.servers.views(), query.server@, k) && state.servers.views()[k]
                == job.server@) && opt_text(job.image) == (if op is UpdateDockerImage {
            opt_text(query.image)
        } else {
            None
        })),
        r.job is Some ==> r.status == STATUS_ACCEPTED,
{
    if !constant_time_compare(query.token.as_str(), state.secret.as_str()) {
        return WebhookResponse {
            status: STATUS_UNAUTHORIZED,
            body: "Invalid token".to_string(),
            job: None,
        };
    }
    let image: Option<String> = match op {
        Operation::UpdateDockerImage => match &query.image {
            Some(i) => Some(i.clone()),
            None => {
                return WebhookResponse {
                    status: STATUS_BAD_REQUEST,
                    body: "Missing image parameter".to_string(),
                    job: None,
                };
            },
        },
        _ => None,
    };
    let server = match state.servers.lookup(query.server.as_str()) {
        Some(s) => s.duplicate(),
        None => {
            let mut body = to_chars("Unknown server: ");
            push_str(&mut body, query.server.as_str());
            return WebhookResponse {
                status: STATUS_BAD_REQUEST,
                body: from_chars(&body),
                job: None,
            };
        },
    };
    let mut body: Vec<char> = Vec::new();
    match op {
        Operation::UpdateOs => {
            push_str(&mut body, "OS update started for ");
        },
        Operation::UpdateDockerAll => {
            push_str(&mut body, "Docker update started for ");
        },
        Operation::UpdateDockerImage => {
            push_str(&mut body, "Docker image ");
            match &image {
                Some(i) => {
                    push_str(&mut body, i.as_str());
                },
                None => {},
            }
            push_str(&mut body, " update started for ");
        },
        Operation::CleanupSafe => {
            push_str(&mut body, "Safe cleanup started for ");
        },
        Operation::PruneUnusedImages => {
            push_str(&mut body, "Unused image cleanup started for ");
        },
    }
    push_str(&mut body, query.server.as_str());
    assert(body@ =~= started_text(op, query.server@, opt_text(query.image)));
    WebhookResponse {
        status: STATUS_ACCEPTED,
        body: from_chars(&body),
        job: Some(Job { operation: op, server, image }),
    }
}

/// The answer to a request that names a server and a token only, as the
/// cleanup requests do.
pub fn handle_cleanup(state: &WebhookState, op: Operation, query: &CleanupQuery) -> (r:
    WebhookResponse)
    ensures
        query.token@ != state.secret@ ==> r.status == STATUS_UNAUTHORIZED && r.job is None
            && r.body@ == "Invalid token"@,
        query.token@ == state.secret@ && op is UpdateDockerImage ==> r.status
            == STATUS_BAD_REQUEST && r.job is None && r.body@ == "Missing image parameter"@,
        query.token@ == state.secret@ && !(op is UpdateDockerImage) && !has_name(
            state.servers.views(),
            query.server@,
        ) ==> r.status == STATUS_BAD_REQUEST && r.job is None && r.body@ == "Unknown server: "@
            + query.server@,
        query.token@ == state.secret@ && !(op is UpdateDockerImage) && has_name(
            state.servers.views(),
            query.server@,
        ) ==> r.status == STATUS_ACCEPTED && r.body@ == started_text(op, query.server@, None)
            && (r.job matches Some(job) && job.operation == op && job.server@.name
            == query.server@ && job.image is None),
        r.job is Some ==> r.status == STATUS_ACCEPTED,
{
    let q = WebhookQuery { server: query.server.clone(), token: query.token.clone(), image: None };
    handle(state, op, &q)
}

/// The answer to `GET /health`.
pub fn health_check() -> (r: WebhookResponse)
    ensures
        r.status == STATUS_OK,
        r.body@ == "OK"@,
        r.job is None,
{
    WebhookResponse { status: STATUS_OK, body: "OK".to_string(), job: None }
}

pub const STATUS_NOT_FOUND: u16 = 404;

/// What became of a request before any operation was looked at.
pub enum Request {
    /// No route takes the request.
    NoRoute,
    /// It asks for the state of the server.
    Health,
    /// It lacks the server or the token.
    Incomplete,
    /// It asks for an operation, with these parameters.
    Asks(Operation, WebhookQuery),
}

/// Reads a request: its route, and the parameters `server`, `token` and
/// `image` of its query string, decoded.
pub fn read_request(method: &str, path: &str, query: &str) -> (r: Request)
    ensures
        match route_spec(method@, path@) {
            None => r is NoRoute,
            Some(Route::Health) => r is Health,
            Some(Route::Start(op)) => if parameter_spec(query@, "server"@) is Some
                && parameter_spec(query@, "token"@) is Some {
                r matches Request::Asks(o, q) && o == op && Some(q.server@) == parameter_spec(
                    query@,
                    "server"@,
                ) && Some(q.token@) == parameter_spec(query@, "token"@) && opt_text(q.image)
                    == parameter_spec(query@, "image"@)
            } else {
                r is Incomplete
            },
        },
{
    match route(method, path) {
        None => Request::NoRoute,
        Some(Route::Health) => Request::Health,
        Some(Route::Start(op)) => {
            match (query_parameter(query, "server"), query_parameter(query, "token")) {
                (Some(server), Some(token)) => Request::Asks(
                    op,
                    WebhookQuery { server, token, image: query_parameter(query, "image") },
                ),
                _ => Request::Incomplete,
            }
        },
    }
}

/// The answer to a request as it arrives: its method, its path and its
/// query string. A request that no route takes gets 404, one that lacks the
/// server or the token gets 400, and neither starts anything; the others are
/// answered as [`handle`] and [`health_check`] say.
pub fn handle_request(state: &WebhookState, method: &str, path: &str, query: &str) -> (r:
    WebhookResponse)
    ensures
        route_spec(method@, path@) is None ==> r.status == STATUS_NOT_FOUND && r.job is None,
        route_spec(method@, path@) == Some(Route::Health) ==> r.status == STATUS_OK && r.job
            is None,
        route_spec(method@, path@) matches Some(Route::Start(op)) ==> {
            let server = parameter_spec(query@, "server"@);
            let token = parameter_spec(query@, "token"@);
            let image = parameter_spec(query@, "image"@);
            if server is None || token is None {
                r.status == STATUS_BAD_REQUEST && r.job is None
            } else if token->0 != state.secret@ {
                r.status == STATUS_UNAUTHORIZED && r.job is None
            } else if op is UpdateDockerImage && image is None {
                r.status == STATUS_BAD_REQUEST && r.job is None
            } else if !has_name(state.servers.views(), server->0) {
                r.status == STATUS_BAD_REQUEST && r.job is None
            } else {
                r.status == STATUS_ACCEPTED && r.body@ == started_text(op, server->0, image) && (
                r.job matches Some(job) && job.operation == op && job.server@.name == server->0)
            }
        },
        r.job is Some ==> r.status == STATUS_ACCEPTED,
{
    match read_request(method, path, query) {
        Request::NoRoute => WebhookResponse {
            status: STATUS_NOT_FOUND,
            body: "Not Found".to_string(),
            job: None,
        },
        Request::Health => health_check(),
        Request::Incomplete => WebhookResponse {
            status: STATUS_BAD_REQUEST,
            body: "Missing query parameter".to_string(),
            job: None,
        },
        Request::Asks(op, q) => handle(state, op, &q),
    }
}

/// What the result of an operation is called in its message.
pub open spec fn outcome_prefix(op: Operation) -> Seq<char> {
    match op {
        Operation::UpdateOs => "OS: "@,
        Operation::UpdateDockerAll => "Docker: "@,
        Operation::UpdateDockerImage => "Docker: "@,
        Operation::CleanupSafe => ""@,
        Operation::PruneUnusedImages => ""@,
    }
}

/// The title of the notification of a finished operation.
pub open spec fn completion_title(op: Operation, server: Seq<char>, ok: bool) -> Seq<char> {
    server + (match op {
        Operation::UpdateOs => if ok {
            " - OS update complete"@
        } else {
            " - OS update failed"@
        },
        Operation::UpdateDockerAll => if ok {
            " - Docker update complete"@
        } else {
            " - Docker update failed"@
        },
        Operation::UpdateDockerImage => if ok {
            " - Docker image update complete"@
        } else {
            " - Docker image update failed"@
        },
        Operation::CleanupSafe => if ok {
            " - Docker Cleanup: Complete"@
        } else {
            " - Docker Cleanup: Failed"@
        },
        Operation::PruneUnusedImages => if ok {
            " - Docker Cleanup: Unused images pruned"@
        } else {
            " - Docker Cleanup: Unused image prune failed"@
        },
    })
}

/// The message of the notification of a finished operation.
pub open spec fn completion_message(op: Operation, outcome: Result<String, String>) -> Seq<char> {
    match outcome {
        Ok(result) => "✅ "@ + outcome_prefix(op) + result@,
        Err(why) => "❌ Error: "@ + why@,
    }
}

/// The notification of a finished operation.
pub struct Completion {
    pub title: String,
    pub message: String,
}

/// What is told once an operation has ended: that it is complete, with what
/// it reports, or that it failed, with the error.
pub fn completion(op: Operation, server_name: &str, outcome: &Result<String, String>) -> (r:
    Completion)
    ensures
        r.title@ == completion_title(op, server_name@, *outcome is Ok),
        r.message@ == completion_message(op, *outcome),
{
    let ok = outcome.is_ok();
    let mut title = to_chars(server_name);
    let tail = match op {
        Operation::UpdateOs => if ok {
            " - OS update complete"
        } else {
            " - OS update failed"
        },
        Operation::UpdateDockerAll => if ok {
            " - Docker update complete"
        } else {
            " - Docker update failed"
        },
        Operation::UpdateDockerImage => if ok {
            " - Docker image update complete"
        } else {
            " - Docker image update failed"
        },
        Operation::CleanupSafe => if ok {
            " - Docker Cleanup: Complete"
        } else {
            " - Docker Cleanup: Failed"
        },
        Operation::PruneUnusedImages => if ok {
            " - Docker Cleanup: Unused images pruned"
        } else {
            " - Docker Cleanup: Unused image prune failed"
        },
    };
    push_str(&mut title, tail);
    let message = match outcome {
        Ok(result) => {
            let mut m = to_chars("✅ ");
            let prefix = match op {
                Operation::UpdateOs => "OS: ",
                Operation::UpdateDockerAll => "Docker: ",
                Operation::UpdateDockerImage => "Docker: ",
                Operation::CleanupSafe => "",
                Operation::PruneUnusedImages => "",
            };
            push_str(&mut m, prefix);
            push_str(&mut m, result.as_str());
            m
        },
        Err(why) => {
            let mut m = to_chars("❌ Error: ");
            push_str(&mut m, why.as_str());
            m
        },
    };
    Completion { title: from_chars(&title), message: from_chars(&message) }
}

/// The shortest secret that is not warned about.
pub const RECOMMENDED_SECRET_LENGTH: usize = 32;

/// Whether a secret is shorter than recommended.
pub fn secret_is_short(secret: &str) -> (r: bool)
    ensures
        r == (secret@.len() < RECOMMENDED_SECRET_LENGTH),
{
    secret.unicode_len() < RECOMMENDED_SECRET_LENGTH
}

} // verus!
