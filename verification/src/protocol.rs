//! What is said between the tools and the server: requests, events, and the lines in which
//! events arrive.

use vstd::prelude::*;

use crate::json::{parse_json, JsonValue, JsonValueView};
use crate::text::{same_text, trim};

verus! {

/// The id that every request of a tool carries.
pub const REQUEST_ID: u64 = 1;

/// A request to the server.
#[derive(Debug, PartialEq)]
pub enum Request {
    /// Start an agent in a session of its own.
    CommSpawn {
        id: u64,
        session_id: String,
        working_dir: Option<String>,
        initial_message: Option<String>,
        request_nonce: Option<String>,
        spawn_mode: Option<String>,
        model: Option<String>,
        effort: Option<String>,
        label: Option<String>,
    },
    /// Wait until sessions have reached one of the given statuses.
    CommAwaitMembers {
        id: u64,
        session_id: String,
        target_status: Vec<String>,
        session_ids: Vec<String>,
        mode: Option<String>,
        timeout_secs: Option<u64>,
        background: bool,
        notify: bool,
        wake: bool,
    },
    /// Read the conversation of a session.
    CommReadContext { id: u64, session_id: String, target_session: String },
    /// Stop a session.
    CommStop { id: u64, session_id: String, target_session: String, force: Option<bool> },
}

/// The contents of a [`Request`].
pub enum RequestView {
    CommSpawn {
        id: u64,
        session_id: Seq<char>,
        working_dir: Option<Seq<char>>,
        initial_message: Option<Seq<char>>,
        request_nonce: Option<Seq<char>>,
        spawn_mode: Option<Seq<char>>,
        model: Option<Seq<char>>,
        effort: Option<Seq<char>>,
        label: Option<Seq<char>>,
    },
    CommAwaitMembers {
        id: u64,
        session_id: Seq<char>,
        target_status: Seq<Seq<char>>,
        session_ids: Seq<Seq<char>>,
        mode: Option<Seq<char>>,
        timeout_secs: Option<u64>,
        background: bool,
        notify: bool,
        wake: bool,
    },
    CommReadContext { id: u64, session_id: Seq<char>, target_session: Seq<char> },
    CommStop { id: u64, session_id: Seq<char>, target_session: Seq<char>, force: Option<bool> },
}

impl View for Request {
    type V = RequestView;

    open spec fn view(&self) -> RequestView {
        match self {
            Request::CommSpawn {
                id,
                session_id,
                working_dir,
                initial_message,
                request_nonce,
                spawn_mode,
                model,
                effort,
                label,
            } => RequestView::CommSpawn {
                id: *id,
                session_id: session_id@,
                working_dir: working_dir.deep_view(),
                initial_message: initial_message.deep_view(),
                request_nonce: request_nonce.deep_view(),
                spawn_mode: spawn_mode.deep_view(),
                model: model.deep_view(),
                effort: effort.deep_view(),
                label: label.deep_view(),
            },
            Request::CommAwaitMembers {
                id,
                session_id,
                target_status,
                session_ids,
                mode,
                timeout_secs,
                background,
                notify,
                wake,
            } => RequestView::CommAwaitMembers {
                id: *id,
                session_id: session_id@,
                target_status: target_status.deep_view(),
                session_ids: session_ids.deep_view(),
                mode: mode.deep_view(),
                timeout_secs: *timeout_secs,
                background: *background,
                notify: *notify,
                wake: *wake,
            },
            Request::CommReadContext { id, session_id, target_session } => {
                RequestView::CommReadContext {
                    id: *id,
                    session_id: session_id@,
                    target_session: target_session@,
                }
            },
            Request::CommStop { id, session_id, target_session, force } => RequestView::CommStop {
                id: *id,
                session_id: session_id@,
                target_session: target_session@,
                force: *force,
            },
        }
    }
}

/// The id of a request.
pub open spec fn request_id(request: RequestView) -> u64 {
    match request {
        RequestView::CommSpawn { id, .. } => id,
        RequestView::CommAwaitMembers { id, .. } => id,
        RequestView::CommReadContext { id, .. } => id,
        RequestView::CommStop { id, .. } => id,
    }
}

/// The session that makes a request.
pub open spec fn request_session(request: RequestView) -> Seq<char> {
    match request {
        RequestView::CommSpawn { session_id, .. } => session_id,
        RequestView::CommAwaitMembers { session_id, .. } => session_id,
        RequestView::CommReadContext { session_id, .. } => session_id,
        RequestView::CommStop { session_id, .. } => session_id,
    }
}

impl Request {
    /// The id of the request, which the event that answers it carries too.
    pub fn id(&self) -> (id: u64)
        ensures
            id == request_id(self@),
    {
        match self {
            Request::CommSpawn { id, .. } => *id,
            Request::CommAwaitMembers { id, .. } => *id,
            Request::CommReadContext { id, .. } => *id,
            Request::CommStop { id, .. } => *id,
        }
    }
}

/// One message of a session's conversation.
#[derive(Debug, PartialEq)]
pub struct HistoryMessage {
    pub role: String,
    pub content: String,
}

/// The contents of a [`HistoryMessage`].
pub struct HistoryMessageView {
    pub role: Seq<char>,
    pub content: Seq<char>,
}

impl View for HistoryMessage {
    type V = HistoryMessageView;

    open spec fn view(&self) -> HistoryMessageView {
        HistoryMessageView { role: self.role@, content: self.content@ }
    }
}

impl DeepView for HistoryMessage {
    type V = HistoryMessageView;

    open spec fn deep_view(&self) -> HistoryMessageView {
        self@
    }
}

/// The content of the last message of the assistant, if there is one.
pub open spec fn last_assistant_content(messages: Seq<HistoryMessageView>) -> Option<Seq<char>>
    decreases messages.len(),
{
    if messages.len() == 0 {
        None
    } else if messages.last().role == "assistant"@ {
        Some(messages.last().content)
    } else {
        last_assistant_content(messages.drop_last())
    }
}

/// The content of the last message of the assistant, if there is one.
pub fn latest_assistant_comm_report(messages: &Vec<HistoryMessage>) -> (report: Option<String>)
    ensures
        report.deep_view() == last_assistant_content(messages.deep_view()),
{
    let ghost views = messages.deep_view();
    let mut i: usize = messages.len();
    assert(views.take(i as int) =~= views);
    while i > 0
        invariant
            i <= messages.len(),
            views == messages.deep_view(),
            last_assistant_content(views) == last_assistant_content(views.take(i as int)),
        decreases i,
    {
        assert(views.take(i as int).last() == messages@[i - 1]@);
        assert(views.take(i as int).drop_last() =~= views.take(i - 1));
        if same_text(&messages[i - 1].role, "assistant") {
            return Some(messages[i - 1].content.clone());
        }
        i -= 1;
    }
    None
}

/// The content given is that of an assistant message, and no assistant message comes after it;
/// there is none exactly when no message is the assistant's.
pub proof fn law_last_assistant_message(messages: Seq<HistoryMessageView>)
    ensures
        match last_assistant_content(messages) {
            Some(content) => exists|i: int|
                0 <= i < messages.len() && (#[trigger] messages[i]).role == "assistant"@
                    && messages[i].content == content && (forall|k: int|
                    i < k < messages.len() ==> (#[trigger] messages[k]).role != "assistant"@),
            None => forall|k: int|
                0 <= k < messages.len() ==> (#[trigger] messages[k]).role != "assistant"@,
        },
    decreases messages.len(),
{
    if messages.len() > 0 {
        let last = messages.len() - 1;
        if messages.last().role == "assistant"@ {
            assert(messages[last].role == "assistant"@);
        } else {
            let front = messages.drop_last();
            law_last_assistant_message(front);
            match last_assistant_content(front) {
                Some(content) => {
                    let i = choose|i: int|
                        0 <= i < front.len() && (#[trigger] front[i]).role == "assistant"@
                            && front[i].content == content && (forall|k: int|
                            i < k < front.len() ==> (#[trigger] front[k]).role != "assistant"@);
                    assert(messages[i].role == "assistant"@);
                    assert forall|k: int| i < k < messages.len() implies (
                    #[trigger] messages[k]).role != "assistant"@ by {
                        if k < last {
                            assert(front[k].role != "assistant"@);
                        }
                    }
                },
                None => {
                    assert forall|k: int| 0 <= k < messages.len() implies (
                    #[trigger] messages[k]).role != "assistant"@ by {
                        if k < last {
                            assert(front[k].role != "assistant"@);
                        }
                    }
                },
            }
        }
    }
}

/// An event of the server, as far as the tools tell events apart.
#[derive(Debug, PartialEq)]
pub enum ServerEvent {
    CommSpawnResponse { new_session_id: String },
    CommAwaitMembersResponse { completed: bool },
    CommContextHistory { messages: Vec<HistoryMessage> },
    Error { message: String },
    /// Any other event.
    Other,
}

/// The contents of a [`ServerEvent`].
pub enum ServerEventView {
    CommSpawnResponse { new_session_id: Seq<char> },
    CommAwaitMembersResponse { completed: bool },
    CommContextHistory { messages: Seq<HistoryMessageView> },
    Error { message: Seq<char> },
    Other,
}

impl View for ServerEvent {
    type V = ServerEventView;

    open spec fn view(&self) -> ServerEventView {
        match self {
            ServerEvent::CommSpawnResponse { new_session_id } => {
                ServerEventView::CommSpawnResponse { new_session_id: new_session_id@ }
            },
            ServerEvent::CommAwaitMembersResponse { completed } => {
                ServerEventView::CommAwaitMembersResponse { completed: *completed }
            },
            ServerEvent::CommContextHistory { messages } => {
                ServerEventView::CommContextHistory { messages: messages.deep_view() }
            },
            ServerEvent::Error { message } => ServerEventView::Error { message: message@ },
            ServerEvent::Other => ServerEventView::Other,
        }
    }
}

/// What to do with a line from the server while a request waits for its answer.
#[derive(Debug, PartialEq)]
pub enum LineOutcome {
    /// Read on.
    Skip,
    /// The request has failed, with this message.
    Fail(String),
    /// The line is the answer.
    Deliver,
}

/// The contents of a [`LineOutcome`].
pub enum LineOutcomeView {
    Skip,
    Fail(Seq<char>),
    Deliver,
}

impl View for LineOutcome {
    type V = LineOutcomeView;

    open spec fn view(&self) -> LineOutcomeView {
        match self {
            LineOutcome::Skip => LineOutcomeView::Skip,
            LineOutcome::Fail(message) => LineOutcomeView::Fail(message@),
            LineOutcome::Deliver => LineOutcomeView::Deliver,
        }
    }
}

/// Whether an event of this type is news for everyone, and never the answer to a request.
pub open spec fn broadcast_event(kind: Seq<char>) -> bool {
    ||| kind == "swarm_status"@
    ||| kind == "swarm_plan"@
    ||| kind == "swarm_plan_proposal"@
    ||| kind == "swarm_event"@
    ||| kind == "notification"@
    ||| kind == "soft_interrupt_injected"@
    ||| kind == "session"@
    ||| kind == "session_id"@
    ||| kind == "history"@
    ||| kind == "mcp_status"@
    ||| kind == "memory_injected"@
    ||| kind == "compaction"@
    ||| kind == "connection_type"@
    ||| kind == "connection_phase"@
    ||| kind == "status_detail"@
    ||| kind == "upstream_provider"@
    ||| kind == "reloading"@
    ||| kind == "reload_progress"@
    ||| kind == "available_models_updated"@
    ||| kind == "side_panel_state"@
    ||| kind == "transcript"@
    ||| kind == "interrupted"@
}

/// Whether an event of this type is news for everyone.
pub fn is_broadcast_event(kind: &str) -> (yes: bool)
    ensures
        yes == broadcast_event(kind@),
{
    same_text(kind, "swarm_status") || same_text(kind, "swarm_plan") || same_text(
        kind,
        "swarm_plan_proposal",
    ) || same_text(kind, "swarm_event") || same_text(kind, "notification") || same_text(
        kind,
        "soft_interrupt_injected",
    ) || same_text(kind, "session") || same_text(kind, "session_id") || same_text(kind, "history")
        || same_text(kind, "mcp_status") || same_text(kind, "memory_injected") || same_text(
        kind,
        "compaction",
    ) || same_text(kind, "connection_type") || same_text(kind, "connection_phase") || same_text(
        kind,
        "status_detail",
    ) || same_text(kind, "upstream_provider") || same_text(kind, "reloading") || same_text(
        kind,
        "reload_progress",
    ) || same_text(kind, "available_models_updated") || same_text(kind, "side_panel_state")
        || same_text(kind, "transcript") || same_text(kind, "interrupted")
}

/// The type of an event; empty if it names none.
pub open spec fn event_kind(document: JsonValueView) -> Seq<char> {
    match crate::json::text_of(document, "type"@) {
        Some(kind) => kind,
        None => Seq::empty(),
    }
}

/// What to do with an event: acknowledgements, events that carry another id and broadcast events
/// are passed over; an error ends the request with its message; any other is the answer.
pub open spec fn judged(document: JsonValueView, request_id: u64) -> LineOutcomeView {
    let kind = event_kind(document);
    if kind == "ack"@ || crate::json::number_of(document, "id"@) != Some(request_id) || broadcast_event(kind) {
        LineOutcomeView::Skip
    } else if kind == "error"@ {
        LineOutcomeView::Fail(
            match crate::json::text_of(document, "message"@) {
                Some(message) => message,
                None => "unknown error"@,
            },
        )
    } else {
        LineOutcomeView::Deliver
    }
}

/// What to do with an event while the given request waits for its answer.
pub fn judge_event(document: &JsonValue, request_id: u64) -> (outcome: LineOutcome)
    ensures
        outcome@ == judged(document@, request_id),
{
    let kind = match document.text_at("type") {
        Some(kind) => kind,
        None => String::new(),
    };
    if same_text(&kind, "ack") {
        return LineOutcome::Skip;
    }
    match document.number_at("id") {
        Some(id) => {
            if id != request_id {
                return LineOutcome::Skip;
            }
        },
        None => {
            return LineOutcome::Skip;
        },
    }
    if is_broadcast_event(&kind) {
        return LineOutcome::Skip;
    }
    if same_text(&kind, "error") {
        return match document.text_at("message") {
            Some(message) => LineOutcome::Fail(message),
            None => LineOutcome::Fail("unknown error".to_owned()),
        };
    }
    LineOutcome::Deliver
}

/// What to do with a line, given what parsing it (without the white space at its ends) gave. An
/// empty line, without even a line end, means that the connection was closed.
pub open spec fn judged_line(
    line: Seq<char>,
    parsed: Result<JsonValueView, Seq<char>>,
    request_id: u64,
) -> LineOutcomeView {
    if line.len() == 0 {
        LineOutcomeView::Fail("Connection closed before receiving response"@)
    } else {
        match parsed {
            Ok(document) => judged(document, request_id),
            Err(message) => LineOutcomeView::Fail(message),
        }
    }
}

/// What to do with a line, given what parsing it gave.
pub fn judge_line(
    line: &str,
    parsed: Result<JsonValue, String>,
    request_id: u64,
) -> (outcome: LineOutcome)
    ensures
        outcome@ == judged_line(line@, crate::json::outcome(parsed), request_id),
{
    if line.is_empty() {
        return LineOutcome::Fail("Connection closed before receiving response".to_owned());
    }
    match parsed {
        Ok(document) => judge_event(&document, request_id),
        Err(message) => LineOutcome::Fail(message),
    }
}

/// What to do with a line while the given request waits for its answer. The line is what was
/// read, with its line end; it is empty if the connection was closed.
pub fn read_event_line(line: &str, request_id: u64) -> (outcome: LineOutcome)
    ensures
        outcome@ == judged_line(
            line@,
            crate::json::json_document(crate::text::trimmed(line@)),
            request_id,
        ),
{
    let parsed = parse_json(&trim(line));
    judge_line(line, parsed, request_id)
}

/// An event that carries another id, or none, never ends a request, whatever it says.
pub proof fn law_foreign_events_are_passed_over(document: JsonValueView, request_id: u64)
    requires
        crate::json::number_of(document, "id"@) != Some(request_id),
    ensures
        judged(document, request_id) is Skip,
{
}

/// The news for everyone are of these types and of no other.
pub proof fn law_news_are_these(kind: Seq<char>)
    ensures
        broadcast_event(kind) <==> seq![
            "available_models_updated"@,
            "compaction"@,
            "connection_phase"@,
            "connection_type"@,
            "history"@,
            "interrupted"@,
            "mcp_status"@,
            "memory_injected"@,
            "notification"@,
            "reload_progress"@,
            "reloading"@,
            "session"@,
            "session_id"@,
            "side_panel_state"@,
            "soft_interrupt_injected"@,
            "status_detail"@,
            "swarm_event"@,
            "swarm_plan"@,
            "swarm_plan_proposal"@,
            "swarm_status"@,
            "transcript"@,
            "upstream_provider"@,
        ].contains(kind),
{
    let all = seq![
        "available_models_updated"@,
        "compaction"@,
        "connection_phase"@,
        "connection_type"@,
        "history"@,
        "interrupted"@,
        "mcp_status"@,
        "memory_injected"@,
        "notification"@,
        "reload_progress"@,
        "reloading"@,
        "session"@,
        "session_id"@,
        "side_panel_state"@,
        "soft_interrupt_injected"@,
        "status_detail"@,
        "swarm_event"@,
        "swarm_plan"@,
        "swarm_plan_proposal"@,
        "swarm_status"@,
        "transcript"@,
        "upstream_provider"@,
    ];
    assert(all[0] == "available_models_updated"@);
    assert(all[1] == "compaction"@);
    assert(all[2] == "connection_phase"@);
    assert(all[3] == "connection_type"@);
    assert(all[4] == "history"@);
    assert(all[5] == "interrupted"@);
    assert(all[6] == "mcp_status"@);
    assert(all[7] == "memory_injected"@);
    assert(all[8] == "notification"@);
    assert(all[9] == "reload_progress"@);
    assert(all[10] == "reloading"@);
    assert(all[11] == "session"@);
    assert(all[12] == "session_id"@);
    assert(all[13] == "side_panel_state"@);
    assert(all[14] == "soft_interrupt_injected"@);
    assert(all[15] == "status_detail"@);
    assert(all[16] == "swarm_event"@);
    assert(all[17] == "swarm_plan"@);
    assert(all[18] == "swarm_plan_proposal"@);
    assert(all[19] == "swarm_status"@);
    assert(all[20] == "transcript"@);
    assert(all[21] == "upstream_provider"@);
}

/// An event that carries the id of the request is passed over only if it is an acknowledgement
/// or news for everyone. An error among the others fails the request with its own message, or
/// with a standing one if it has none, and every other is the answer, also one without a type.
pub proof fn law_own_events_are_answers(document: JsonValueView, request_id: u64)
    requires
        crate::json::number_of(document, "id"@) == Some(request_id),
    ensures
        match crate::json::text_of(document, "type"@) {
            None => judged(document, request_id) is Deliver,
            Some(kind) => {
                &&& judged(document, request_id) is Skip <==> kind == "ack"@ || broadcast_event(kind)
                &&& kind == "error"@ ==> judged(document, request_id) == LineOutcomeView::Fail(
                    match crate::json::text_of(document, "message"@) {
                        Some(message) => message,
                        None => "unknown error"@,
                    },
                )
                &&& kind != "error"@ ==> !(judged(document, request_id) is Fail)
            },
        },
{
    lemma_error_is_no_news();
}

proof fn lemma_error_is_no_news()
    ensures
        !broadcast_event("error"@),
        "error"@ != "ack"@,
        !broadcast_event(Seq::empty()),
        "error"@ != Seq::<char>::empty(),
        "ack"@ != Seq::<char>::empty(),
{
    reveal_strlit("error");
    assert("error"@.len() == 5);
    reveal_strlit("ack");
    assert("ack"@.len() == 3);
    reveal_strlit("swarm_status");
    assert("swarm_status"@.len() == 12);
    reveal_strlit("swarm_plan");
    assert("swarm_plan"@.len() == 10);
    reveal_strlit("swarm_plan_proposal");
    assert("swarm_plan_proposal"@.len() == 19);
    reveal_strlit("swarm_event");
    assert("swarm_event"@.len() == 11);
    reveal_strlit("notification");
    assert("notification"@.len() == 12);
    reveal_strlit("soft_interrupt_injected");
    assert("soft_interrupt_injected"@.len() == 23);
    reveal_strlit("session");
    assert("session"@.len() == 7);
    reveal_strlit("session_id");
    assert("session_id"@.len() == 10);
    reveal_strlit("history");
    assert("history"@.len() == 7);
    reveal_strlit("mcp_status");
    assert("mcp_status"@.len() == 10);
    reveal_strlit("memory_injected");
    assert("memory_injected"@.len() == 15);
    reveal_strlit("compaction");
    assert("compaction"@.len() == 10);
    reveal_strlit("connection_type");
    assert("connection_type"@.len() == 15);
    reveal_strlit("connection_phase");
    assert("connection_phase"@.len() == 16);
    reveal_strlit("status_detail");
    assert("status_detail"@.len() == 13);
    reveal_strlit("upstream_provider");
    assert("upstream_provider"@.len() == 17);
    reveal_strlit("reloading");
    assert("reloading"@.len() == 9);
    reveal_strlit("reload_progress");
    assert("reload_progress"@.len() == 15);
    reveal_strlit("available_models_updated");
    assert("available_models_updated"@.len() == 24);
    reveal_strlit("side_panel_state");
    assert("side_panel_state"@.len() == 16);
    reveal_strlit("transcript");
    assert("transcript"@.len() == 10);
    reveal_strlit("interrupted");
    assert("interrupted"@.len() == 11);
}

/// An empty line fails the request, since the connection was closed; a line that does not parse
/// fails it with the message of the parser; any other is judged by the event it holds.
pub proof fn law_lines_are_judged_by_their_event(
    line: Seq<char>,
    parsed: Result<JsonValueView, Seq<char>>,
    request_id: u64,
)
    ensures
        line.len() == 0 ==> judged_line(line, parsed, request_id) == LineOutcomeView::Fail(
            "Connection closed before receiving response"@,
        ),
        line.len() > 0 ==> match parsed {
            Ok(document) => judged_line(line, parsed, request_id) == judged(document, request_id),
            Err(message) => judged_line(line, parsed, request_id) == LineOutcomeView::Fail(message),
        },
{
}

/// The id and the session of a request are those it was made with.
pub proof fn law_request_carries_its_id(request: Request)
    ensures
        REQUEST_ID == 1,
        match request {
            Request::CommSpawn { id, session_id, .. } => request_id(request@) == id
                && request_session(request@) == session_id@,
            Request::CommAwaitMembers { id, session_id, .. } => request_id(request@) == id
                && request_session(request@) == session_id@,
            Request::CommReadContext { id, session_id, .. } => request_id(request@) == id
                && request_session(request@) == session_id@,
            Request::CommStop { id, session_id, .. } => request_id(request@) == id
                && request_session(request@) == session_id@,
        },
{
}

/// The contents of a request, a message, an event and an outcome are those of their fields, each
/// under its own kind.
pub proof fn law_contents_are_those_of_the_fields(
    request: Request,
    message: HistoryMessage,
    event: ServerEvent,
    outcome: LineOutcome,
)
    ensures
        match request {
            Request::CommSpawn {
                id,
                session_id,
                working_dir,
                initial_message,
                request_nonce,
                spawn_mode,
                model,
                effort,
                label,
            } => {
                &&& request@ is CommSpawn
                &&& request@->CommSpawn_id == id
                &&& request@->CommSpawn_session_id == session_id@
                &&& request@->working_dir == working_dir.deep_view()
                &&& request@->initial_message == initial_message.deep_view()
                &&& request@->request_nonce == request_nonce.deep_view()
                &&& request@->spawn_mode == spawn_mode.deep_view()
                &&& request@->model == model.deep_view()
                &&& request@->effort == effort.deep_view()
                &&& request@->label == label.deep_view()
            },
            Request::CommAwaitMembers {
                id,
                session_id,
                target_status,
                session_ids,
                mode,
                timeout_secs,
                background,
                notify,
                wake,
            } => {
                &&& request@ is CommAwaitMembers
                &&& request@->CommAwaitMembers_id == id
                &&& request@->CommAwaitMembers_session_id == session_id@
                &&& request@->target_status == target_status.deep_view()
                &&& request@->session_ids == session_ids.deep_view()
                &&& request@->mode == mode.deep_view()
                &&& request@->timeout_secs == timeout_secs
                &&& request@->background == background
                &&& request@->notify == notify
                &&& request@->wake == wake
            },
            Request::CommReadContext { id, session_id, target_session } => {
                &&& request@ is CommReadContext
                &&& request@->CommReadContext_id == id
                &&& request@->CommReadContext_session_id == session_id@
                &&& request@->CommReadContext_target_session == target_session@
            },
            Request::CommStop { id, session_id, target_session, force } => {
                &&& request@ is CommStop
                &&& request@->CommStop_id == id
                &&& request@->CommStop_session_id == session_id@
                &&& request@->CommStop_target_session == target_session@
                &&& request@->force == force
            },
        },
        message@.role == message.role@,
        message@.content == message.content@,
        message.deep_view() == message@,
        match event {
            ServerEvent::CommSpawnResponse { new_session_id } => event@ is CommSpawnResponse
                && event@->new_session_id == new_session_id@,
            ServerEvent::CommAwaitMembersResponse { completed } => event@ is CommAwaitMembersResponse
                && event@->completed == completed,
            ServerEvent::CommContextHistory { messages } => event@ is CommContextHistory
                && event@->messages == messages.deep_view(),
            ServerEvent::Error { message } => event@ is Error && event@->message == message@,
            ServerEvent::Other => event@ is Other,
        },
        match outcome {
            LineOutcome::Skip => outcome@ is Skip,
            LineOutcome::Fail(message) => outcome@ is Fail && outcome@->Fail_0 == message@,
            LineOutcome::Deliver => outcome@ is Deliver,
        },
{
}

} // verus!
