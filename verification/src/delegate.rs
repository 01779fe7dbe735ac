//! Delegating a task to another model.
//!
//! A delegation is a conversation with the server: an agent is started, waited for, read and
//! stopped. Each reply of the server decides on the next request, or on the result.

use vstd::prelude::*;

use crate::config::{DelegateConfig, DelegateConfigView};
use crate::protocol::{
    latest_assistant_comm_report, HistoryMessage, Request, RequestView, ServerEvent,
    ServerEventView, REQUEST_ID,
};
use crate::session_delegate_config::{
    effective_delegate_model, effective_delegate_timeout, validate_model_allowed,
    DelegateSessionConfigView, SessionDelegateConfigs,
};
use crate::text::{number_text, trim};

verus! {

/// What the model is told about the tool that delegates.
pub const DELEGATE_DESCRIPTION: &'static str =
    "Delegate a difficult sub-task to a more capable model. Use this when you determine a task is too complex, requires deep reasoning, or is outside your capabilities. The delegate model will process the task independently and return its result. Returns the full response from the delegate model. You can specify which model to delegate to via the `model` parameter. Use `configure_delegate` to see which models are available.";

/// The JSON schema of the arguments of the tool that delegates.
pub const DELEGATE_PARAMETERS: &'static str = r#"{
    "type": "object",
    "properties": {
        "task": {
            "type": "string",
            "description": "The task to delegate to the more capable model. Be specific about what you need."
        },
        "context": {
            "type": "string",
            "description": "Optional additional context for the delegate model (file contents, code, reasoning, etc.)"
        },
        "model": {
            "type": "string",
            "description": "Optional model override. Use when you need a specific model for this delegation. See allowed models via `configure_delegate`."
        }
    },
    "required": ["task"]
}"#;

/// The tool that delegates a task to a more capable model.
pub struct DelegateTool;

/// The arguments of [`DelegateTool`].
#[derive(Debug, PartialEq)]
pub struct DelegateInput {
    /// The task to delegate.
    pub task: String,
    /// What else the delegate should know.
    pub context: Option<String>,
    /// The model to use for this delegation, in place of the configured one.
    pub model: Option<String>,
}

/// The contents of a [`DelegateInput`].
pub struct DelegateInputView {
    pub task: Seq<char>,
    pub context: Option<Seq<char>>,
    pub model: Option<Seq<char>>,
}

impl View for DelegateInput {
    type V = DelegateInputView;

    open spec fn view(&self) -> DelegateInputView {
        DelegateInputView {
            task: self.task@,
            context: self.context.deep_view(),
            model: self.model.deep_view(),
        }
    }
}

/// How far a delegation has come: which request it waits on.
#[derive(Debug, PartialEq)]
pub enum Stage {
    /// The agent is being started.
    Spawning,
    /// The agent is at work.
    Awaiting { spawned: String, timeout_minutes: u32 },
    /// The agent took too long and is being stopped.
    Abandoning { spawned: String, timeout_minutes: u32 },
    /// The agent is done and its conversation is being read.
    Reading { spawned: String },
    /// The agent is being stopped, and the response is known.
    Stopping { response: String },
}

/// The contents of a [`Stage`].
pub enum StageView {
    Spawning,
    Awaiting { spawned: Seq<char>, timeout_minutes: u32 },
    Abandoning { spawned: Seq<char>, timeout_minutes: u32 },
    Reading { spawned: Seq<char> },
    Stopping { response: Seq<char> },
}

impl View for Stage {
    type V = StageView;

    open spec fn view(&self) -> StageView {
        match self {
            Stage::Spawning => StageView::Spawning,
            Stage::Awaiting { spawned, timeout_minutes } => StageView::Awaiting {
                spawned: spawned@,
                timeout_minutes: *timeout_minutes,
            },
            Stage::Abandoning { spawned, timeout_minutes } => StageView::Abandoning {
                spawned: spawned@,
                timeout_minutes: *timeout_minutes,
            },
            Stage::Reading { spawned } => StageView::Reading { spawned: spawned@ },
            Stage::Stopping { response } => StageView::Stopping { response: response@ },
        }
    }
}

/// A delegation under way.
#[derive(Debug, PartialEq)]
pub struct Delegation {
    /// The session that delegates.
    pub session_id: String,
    /// The task.
    pub task: String,
    /// The name of the delegate model, for the report.
    pub model_label: String,
    /// The statuses in which an agent counts as done.
    pub target_status: Vec<String>,
    /// How far the delegation has come.
    pub stage: Stage,
}

/// The contents of a [`Delegation`].
pub struct DelegationView {
    pub session_id: Seq<char>,
    pub task: Seq<char>,
    pub model_label: Seq<char>,
    pub target_status: Seq<Seq<char>>,
    pub stage: StageView,
}

impl View for Delegation {
    type V = DelegationView;

    open spec fn view(&self) -> DelegationView {
        DelegationView {
            session_id: self.session_id@,
            task: self.task@,
            model_label: self.model_label@,
            target_status: self.target_status.deep_view(),
            stage: self.stage@,
        }
    }
}

/// What is to be done next for a delegation.
#[derive(Debug, PartialEq)]
pub enum Step {
    /// Send the request, and hand the reply back together with the delegation.
    Send { delegation: Delegation, request: Request },
    /// The tool is done: its output, or the error it fails with.
    Finish(Result<String, String>),
}

/// The contents of a [`Step`].
pub enum StepView {
    Send { delegation: DelegationView, request: RequestView },
    Finish(Result<Seq<char>, Seq<char>>),
}

impl View for Step {
    type V = StepView;

    open spec fn view(&self) -> StepView {
        match self {
            Step::Send { delegation, request } => StepView::Send {
                delegation: delegation@,
                request: request@,
            },
            Step::Finish(Ok(output)) => StepView::Finish(Ok(output@)),
            Step::Finish(Err(message)) => StepView::Finish(Err(message@)),
        }
    }
}

/// A reply over its views: the event that answered, or why there was none.
pub open spec fn reply_view(reply: Result<ServerEvent, String>) -> Result<ServerEventView, Seq<char>> {
    match reply {
        Ok(event) => Ok(event@),
        Err(message) => Err(message@),
    }
}

/// The first message for the delegate: the task and, unless it is blank, the context.
pub open spec fn initial_message(task: Seq<char>, context: Option<Seq<char>>) -> Seq<char> {
    let base =
        "You are a delegate agent. Complete the task below and report your results.\n\nTask: "@
        + task;
    match context {
        Some(context) => if crate::text::blank(context) {
            base
        } else {
            base + "\n\nAdditional context:\n"@ + context
        },
        None => base,
    }
}

/// The model a delegation goes to: the one asked for, else the one in force for the session.
pub open spec fn chosen_model(
    configs: Map<Seq<char>, DelegateSessionConfigView>,
    file: DelegateConfigView,
    input: DelegateInputView,
    session_id: Seq<char>,
) -> Option<Seq<char>> {
    match input.model {
        Some(model) => Some(model),
        None => crate::session_delegate_config::model_for(configs, file, session_id),
    }
}

/// What is said if the model is not allowed.
pub open spec fn delegation_refused(
    configs: Map<Seq<char>, DelegateSessionConfigView>,
    file: DelegateConfigView,
    session_id: Seq<char>,
    model: Seq<char>,
) -> Seq<char> {
    "Cannot delegate: "@ + crate::session_delegate_config::refusal(
        model,
        crate::session_delegate_config::allowed_for(configs, file, session_id),
    ) + "\n\nUse `configure_delegate` to see available models or change the delegate model."@
}

/// The request that starts the agent.
pub open spec fn spawn_request(
    session_id: Seq<char>,
    message: Seq<char>,
    model: Option<Seq<char>>,
) -> RequestView {
    RequestView::CommSpawn {
        id: REQUEST_ID,
        session_id,
        working_dir: None,
        initial_message: Some(message),
        request_nonce: None,
        spawn_mode: Some("headless"@),
        model,
        effort: None,
        label: Some("delegate"@),
    }
}

/// The request that waits for the agent.
pub open spec fn await_request(
    session_id: Seq<char>,
    target_status: Seq<Seq<char>>,
    spawned: Seq<char>,
    timeout_minutes: u32,
) -> RequestView {
    RequestView::CommAwaitMembers {
        id: REQUEST_ID,
        session_id,
        target_status,
        session_ids: seq![spawned],
        mode: None,
        timeout_secs: Some((timeout_minutes * 60) as u64),
        background: false,
        notify: false,
        wake: false,
    }
}

/// The request that reads the agent's conversation.
pub open spec fn read_request(session_id: Seq<char>, spawned: Seq<char>) -> RequestView {
    RequestView::CommReadContext { id: REQUEST_ID, session_id, target_session: spawned }
}

/// The request that stops the agent.
pub open spec fn stop_request(session_id: Seq<char>, spawned: Seq<char>) -> RequestView {
    RequestView::CommStop {
        id: REQUEST_ID,
        session_id,
        target_session: spawned,
        force: Some(true),
    }
}

/// The first step of a delegation: nothing is sent for a model that is not allowed, else the
/// agent is started.
pub open spec fn first_step(
    configs: Map<Seq<char>, DelegateSessionConfigView>,
    file: DelegateConfigView,
    input: DelegateInputView,
    session_id: Seq<char>,
    target_status: Seq<Seq<char>>,
) -> StepView {
    let model = chosen_model(configs, file, input, session_id);
    let start = StepView::Send {
        delegation: DelegationView {
            session_id,
            task: input.task,
            model_label: match model {
                Some(model) => model,
                None => "default"@,
            },
            target_status,
            stage: StageView::Spawning,
        },
        request: spawn_request(session_id, initial_message(input.task, input.context), model),
    };
    match model {
        Some(name) => if crate::session_delegate_config::model_allowed(
            configs,
            file,
            session_id,
            name,
        ) {
            start
        } else {
            StepView::Finish(Ok(delegation_refused(configs, file, session_id, name)))
        },
        None => start,
    }
}

/// The message of an event that was not expected.
pub open spec fn unexpected(event: ServerEventView) -> Seq<char> {
    match event {
        ServerEventView::Error { message } => message,
        _ => "Unknown response"@,
    }
}

/// `before`, then `what`, then the session it is about.
pub open spec fn about_session(before: Seq<char>, what: Seq<char>, spawned: Seq<char>) -> Seq<char> {
    before + what + ". Session: "@ + spawned
}

/// What is said if the agent did not finish in time.
pub open spec fn too_late(timeout_minutes: u32, spawned: Seq<char>) -> Seq<char> {
    "Delegate task did not complete within "@ + crate::text::decimal(timeout_minutes as nat)
        + " minutes. Session: "@ + spawned
}

/// What is reported in place of a response that could not be read.
pub open spec fn unavailable(why: Seq<char>) -> Seq<char> {
    "<delegate agent completed but response unavailable: "@ + why + ">"@
}

/// The response of the agent, given the reply to reading its conversation.
pub open spec fn response_of(reply: Result<ServerEventView, Seq<char>>) -> Seq<char> {
    match reply {
        Ok(ServerEventView::CommContextHistory { messages }) => {
            match crate::protocol::last_assistant_content(messages) {
                Some(content) => content,
                None => "<no response from delegate>"@,
            }
        },
        Ok(event) => unavailable(unexpected(event)),
        Err(message) => unavailable(message),
    }
}

/// The output of a delegation that went through.
pub open spec fn delegation_report(
    model_label: Seq<char>,
    task: Seq<char>,
    response: Seq<char>,
) -> Seq<char> {
    "## Delegation Result\n\n**Delegate model:** "@ + model_label + "\n\n**Task:** "@ + task
        + "\n\n**Response:**\n\n"@ + response
}

/// The delegation at another stage.
pub open spec fn at_stage(delegation: DelegationView, stage: StageView) -> DelegationView {
    DelegationView { stage, ..delegation }
}

/// The next step of a delegation once a reply has come.
pub open spec fn next_step(
    configs: Map<Seq<char>, DelegateSessionConfigView>,
    file: DelegateConfigView,
    delegation: DelegationView,
    reply: Result<ServerEventView, Seq<char>>,
) -> StepView {
    let session_id = delegation.session_id;
    match delegation.stage {
        StageView::Spawning => match reply {
            Ok(ServerEventView::CommSpawnResponse { new_session_id }) => {
                if new_session_id.len() > 0 {
                    let timeout_minutes = crate::session_delegate_config::timeout_for(
                        configs,
                        file,
                        session_id,
                    );
                    StepView::Send {
                        delegation: at_stage(
                            delegation,
                            StageView::Awaiting { spawned: new_session_id, timeout_minutes },
                        ),
                        request: await_request(
                            session_id,
                            delegation.target_status,
                            new_session_id,
                            timeout_minutes,
                        ),
                    }
                } else {
                    StepView::Finish(Err("Spawn returned empty session ID."@))
                }
            },
            Ok(_) => StepView::Finish(Err("Failed to spawn delegate agent."@)),
            Err(message) => StepView::Finish(Err(message)),
        },
        StageView::Awaiting { spawned, timeout_minutes } => match reply {
            Ok(ServerEventView::CommAwaitMembersResponse { completed }) => {
                if completed {
                    StepView::Send {
                        delegation: at_stage(delegation, StageView::Reading { spawned }),
                        request: read_request(session_id, spawned),
                    }
                } else {
                    StepView::Send {
                        delegation: at_stage(
                            delegation,
                            StageView::Abandoning { spawned, timeout_minutes },
                        ),
                        request: stop_request(session_id, spawned),
                    }
                }
            },
            Ok(event) => StepView::Finish(
                Err(about_session("Delegate task failed: "@, unexpected(event), spawned)),
            ),
            Err(message) => StepView::Finish(
                Err(about_session("Delegate task timed out or failed: "@, message, spawned)),
            ),
        },
        StageView::Abandoning { spawned, timeout_minutes } => StepView::Finish(
            Err(too_late(timeout_minutes, spawned)),
        ),
        StageView::Reading { spawned } => StepView::Send {
            delegation: at_stage(delegation, StageView::Stopping { response: response_of(reply) }),
            request: stop_request(session_id, spawned),
        },
        StageView::Stopping { response } => StepView::Finish(
            Ok(delegation_report(delegation.model_label, delegation.task, response)),
        ),
    }
}

/// The message of an event that was not expected.
fn unexpected_message(event: ServerEvent) -> (message: String)
    ensures
        message@ == unexpected(event@),
{
    match event {
        ServerEvent::Error { message } => message,
        _ => "Unknown response".to_owned(),
    }
}

/// `before`, then `what`, then the session it is about.
fn session_failure(before: &str, what: &str, spawned: &str) -> (message: String)
    ensures
        message@ == about_session(before@, what@, spawned@),
{
    let mut message = before.to_owned();
    message.append(what);
    message.append(". Session: ");
    message.append(spawned);
    message
}

/// What is reported in place of a response that could not be read.
fn unavailable_response(why: &str) -> (response: String)
    ensures
        response@ == unavailable(why@),
{
    let mut response = "<delegate agent completed but response unavailable: ".to_owned();
    response.append(why);
    response.append(">");
    response
}

/// The request that stops the agent.
fn make_stop_request(session_id: &str, spawned: &str) -> (request: Request)
    ensures
        request@ == stop_request(session_id@, spawned@),
{
    Request::CommStop {
        id: REQUEST_ID,
        session_id: session_id.to_owned(),
        target_session: spawned.to_owned(),
        force: Some(true),
    }
}

impl DelegateTool {
    /// The tool.
    pub fn new() -> (tool: Self)
        ensures
            tool == DelegateTool,
    {
        DelegateTool
    }

    /// The name under which the model calls the tool.
    pub fn name(&self) -> (name: &'static str)
        ensures
            name@ == "delegate"@,
    {
        "delegate"
    }

    /// What the model is told about the tool.
    pub fn description(&self) -> (description: &'static str)
        ensures
            description@ == DELEGATE_DESCRIPTION@,
    {
        DELEGATE_DESCRIPTION
    }

    /// The JSON schema of the tool's arguments, as JSON text.
    pub fn parameters_schema(&self) -> (schema: &'static str)
        ensures
            schema@ == DELEGATE_PARAMETERS@,
    {
        DELEGATE_PARAMETERS
    }

    /// Extract the last assistant message content from a conversation history.
    pub fn extract_last_assistant_message(messages: &Vec<HistoryMessage>) -> (content: Option<
        String,
    >)
        ensures
            content.deep_view() == crate::protocol::last_assistant_content(messages.deep_view()),
    {
        latest_assistant_comm_report(messages)
    }

    /// Build the initial message for the spawned delegate agent.
    pub fn build_initial_message(task: &str, context: Option<&str>) -> (message: String)
        ensures
            message@ == initial_message(task@, context.deep_view()),
    {
        let mut message =
            "You are a delegate agent. Complete the task below and report your results.\n\nTask: ".to_owned();
        message.append(task);
        if let Some(context) = context {
            proof {
                crate::text::law_blank_trims_to_nothing(context@);
            }
            if !trim(context).as_str().is_empty() {
                message.append("\n\nAdditional context:\n");
                message.append(context);
            }
        }
        message
    }

    /// Begin a delegation for a session. An agent counts as done in one of the target statuses.
    pub fn start(
        &self,
        configs: &SessionDelegateConfigs,
        file: &DelegateConfig,
        params: DelegateInput,
        session_id: &str,
        target_status: Vec<String>,
    ) -> (step: Step)
        ensures
            step@ == first_step(
                configs@,
                file@,
                params@,
                session_id@,
                target_status.deep_view(),
            ),
    {
        let message = match &params.context {
            Some(context) => Self::build_initial_message(&params.task, Some(context.as_str())),
            None => Self::build_initial_message(&params.task, None),
        };
        let delegate_model = match params.model {
            Some(model) => Some(model),
            None => effective_delegate_model(configs, file, session_id),
        };
        let model_label = match &delegate_model {
            Some(model) => model.clone(),
            None => "default".to_owned(),
        };
        if let Some(model) = &delegate_model {
            if let Err(refusal) = validate_model_allowed(configs, file, session_id, model) {
                let mut output = "Cannot delegate: ".to_owned();
                output.append(&refusal);
                output.append(
                    "\n\nUse `configure_delegate` to see available models or change the delegate model.",
                );
                return Step::Finish(Ok(output));
            }
        }
        Step::Send {
            delegation: Delegation {
                session_id: session_id.to_owned(),
                task: params.task,
                model_label,
                target_status,
                stage: Stage::Spawning,
            },
            request: Request::CommSpawn {
                id: REQUEST_ID,
                session_id: session_id.to_owned(),
                working_dir: None,
                initial_message: Some(message),
                request_nonce: None,
                spawn_mode: Some("headless".to_owned()),
                model: delegate_model,
                effort: None,
                label: Some("delegate".to_owned()),
            },
        }
    }

    /// Go on with a delegation, given the reply to its last request.
    pub fn advance(
        &self,
        configs: &SessionDelegateConfigs,
        file: &DelegateConfig,
        delegation: Delegation,
        reply: Result<ServerEvent, String>,
    ) -> (step: Step)
        ensures
            step@ == next_step(configs@, file@, delegation@, reply_view(reply)),
    {
        let Delegation { session_id, task, model_label, target_status, stage } = delegation;
        match stage {
            Stage::Spawning => match reply {
                Ok(ServerEvent::CommSpawnResponse { new_session_id }) => {
                    if new_session_id.as_str().is_empty() {
                        return Step::Finish(Err("Spawn returned empty session ID.".to_owned()));
                    }
                    let timeout_minutes = effective_delegate_timeout(configs, file, &session_id);
                    let mut session_ids: Vec<String> = Vec::new();
                    session_ids.push(new_session_id.clone());
                    assert(session_ids.deep_view() =~= seq![new_session_id@]);
                    let request = Request::CommAwaitMembers {
                        id: REQUEST_ID,
                        session_id: session_id.clone(),
                        target_status: target_status.clone(),
                        session_ids,
                        mode: None,
                        timeout_secs: Some(timeout_minutes as u64 * 60),
                        background: false,
                        notify: false,
                        wake: false,
                    };
                    let stage = Stage::Awaiting { spawned: new_session_id, timeout_minutes };
                    Step::Send {
                        delegation: Delegation {
                            session_id,
                            task,
                            model_label,
                            target_status,
                            stage,
                        },
                        request,
                    }
                },
                Ok(_) => Step::Finish(Err("Failed to spawn delegate agent.".to_owned())),
                Err(message) => Step::Finish(Err(message)),
            },
            Stage::Awaiting { spawned, timeout_minutes } => match reply {
                Ok(ServerEvent::CommAwaitMembersResponse { completed }) => {
                    if completed {
                        let request = Request::CommReadContext {
                            id: REQUEST_ID,
                            session_id: session_id.clone(),
                            target_session: spawned.clone(),
                        };
                        let stage = Stage::Reading { spawned };
                        Step::Send {
                            delegation: Delegation {
                                session_id,
                                task,
                                model_label,
                                target_status,
                                stage,
                            },
                            request,
                        }
                    } else {
                        let request = make_stop_request(&session_id, &spawned);
                        let stage = Stage::Abandoning { spawned, timeout_minutes };
                        Step::Send {
                            delegation: Delegation {
                                session_id,
                                task,
                                model_label,
                                target_status,
                                stage,
                            },
                            request,
                        }
                    }
                },
                Ok(event) => {
                    let why = unexpected_message(event);
                    Step::Finish(Err(session_failure("Delegate task failed: ", &why, &spawned)))
                },
                Err(message) => Step::Finish(
                    Err(session_failure("Delegate task timed out or failed: ", &message, &spawned)),
                ),
            },
            Stage::Abandoning { spawned, timeout_minutes } => {
                let mut message = "Delegate task did not complete within ".to_owned();
                message.append(&number_text(timeout_minutes as u64, 10));
                message.append(" minutes. Session: ");
                message.append(&spawned);
                Step::Finish(Err(message))
            },
            Stage::Reading { spawned } => {
                let response = match reply {
                    Ok(ServerEvent::CommContextHistory { messages }) => {
                        match Self::extract_last_assistant_message(&messages) {
                            Some(content) => content,
                            None => "<no response from delegate>".to_owned(),
                        }
                    },
                    Ok(event) => unavailable_response(&unexpected_message(event)),
                    Err(message) => unavailable_response(&message),
                };
                let request = make_stop_request(&session_id, &spawned);
                let stage = Stage::Stopping { response };
                Step::Send {
                    delegation: Delegation { session_id, task, model_label, target_status, stage },
                    request,
                }
            },
            Stage::Stopping { response } => {
                let mut output = "## Delegation Result\n\n**Delegate model:** ".to_owned();
                output.append(&model_label);
                output.append("\n\n**Task:** ");
                output.append(&task);
                output.append("\n\n**Response:**\n\n");
                output.append(&response);
                Step::Finish(Ok(output))
            },
        }
    }
}

/// How many replies a delegation still takes at most.
pub open spec fn replies_left(stage: StageView) -> nat {
    match stage {
        StageView::Spawning => 4,
        StageView::Awaiting { .. } => 3,
        StageView::Reading { .. } => 2,
        StageView::Abandoning { .. } => 1,
        StageView::Stopping { .. } => 1,
    }
}

/// Every delegation ends: with each reply it comes nearer to its end, and the last one ends it.
pub proof fn law_delegation_ends(
    configs: Map<Seq<char>, DelegateSessionConfigView>,
    file: DelegateConfigView,
    delegation: DelegationView,
    reply: Result<ServerEventView, Seq<char>>,
)
    ensures
        next_step(configs, file, delegation, reply) matches StepView::Send { delegation: next, .. }
            ==> replies_left(next.stage) < replies_left(delegation.stage),
        replies_left(delegation.stage) == 1 ==> next_step(configs, file, delegation, reply) is Finish,
{
}

/// Every request of a delegation carries the one request id and the session that delegates, and
/// what the delegation is about does not change on the way.
pub proof fn law_requests_are_the_sessions_own(
    configs: Map<Seq<char>, DelegateSessionConfigView>,
    file: DelegateConfigView,
    delegation: DelegationView,
    reply: Result<ServerEventView, Seq<char>>,
)
    ensures
        next_step(configs, file, delegation, reply) matches StepView::Send {
            delegation: next,
            request,
        } ==> {
            &&& crate::protocol::request_id(request) == REQUEST_ID
            &&& crate::protocol::request_session(request) == delegation.session_id
            &&& next.session_id == delegation.session_id
            &&& next.task == delegation.task
            &&& next.model_label == delegation.model_label
            &&& next.target_status == delegation.target_status
        },
{
}

/// A delegation begins with an agent being started only for a model that is allowed, or with no
/// model at all; the session and the request id are those of every request.
pub proof fn law_only_allowed_models_are_delegated_to(
    configs: Map<Seq<char>, DelegateSessionConfigView>,
    file: DelegateConfigView,
    input: DelegateInputView,
    session_id: Seq<char>,
    target_status: Seq<Seq<char>>,
)
    ensures
        first_step(configs, file, input, session_id, target_status) matches StepView::Send {
            delegation,
            request,
        } ==> {
            &&& request matches RequestView::CommSpawn { id, session_id: own, model, .. } && id
                == REQUEST_ID && own == session_id && (model matches Some(name)
                ==> crate::session_delegate_config::model_allowed(configs, file, session_id, name))
            &&& delegation.stage is Spawning
            &&& delegation.session_id == session_id
        },
        input.model is None ==> first_step(configs, file, input, session_id, target_status) is Send,
{
    crate::session_delegate_config::law_model_in_force_is_allowed(configs, file, session_id);
}

/// The agent whose stage this is, while it has not been told to stop.
pub open spec fn running_agent(stage: StageView) -> Option<Seq<char>> {
    match stage {
        StageView::Awaiting { spawned, .. } => Some(spawned),
        StageView::Reading { spawned } => Some(spawned),
        _ => None,
    }
}

/// An agent that is done, or that took too long, is told to stop before the delegation ends: a
/// delegation with a running agent goes on to an agent that still runs, or stops it, or fails
/// because waiting for it failed. A report is given only after the stop.
pub proof fn law_agents_are_stopped(
    configs: Map<Seq<char>, DelegateSessionConfigView>,
    file: DelegateConfigView,
    delegation: DelegationView,
    reply: Result<ServerEventView, Seq<char>>,
)
    ensures
        running_agent(delegation.stage) matches Some(spawned) ==> match next_step(
            configs,
            file,
            delegation,
            reply,
        ) {
            StepView::Send { delegation: next, request } => {
                ||| running_agent(next.stage) == Some(spawned)
                ||| request == stop_request(delegation.session_id, spawned)
            },
            StepView::Finish(result) => {
                &&& result is Err
                &&& delegation.stage is Awaiting
                &&& !(reply matches Ok(ServerEventView::CommAwaitMembersResponse { .. }))
            },
        },
        next_step(configs, file, delegation, reply) matches StepView::Finish(Ok(_))
            ==> delegation.stage is Stopping,
        next_step(configs, file, delegation, reply) matches StepView::Send {
            delegation: next,
            request,
        } ==> (next.stage is Stopping || next.stage is Abandoning ==> request is CommStop),
{
}

/// A delegation in which all goes well reports the model, the task and the last message of the
/// assistant, whatever is answered to the stop at its end.
pub proof fn law_response_is_reported(
    configs: Map<Seq<char>, DelegateSessionConfigView>,
    file: DelegateConfigView,
    delegation: DelegationView,
    spawned: Seq<char>,
    messages: Seq<crate::protocol::HistoryMessageView>,
    stopped: Result<ServerEventView, Seq<char>>,
)
    requires
        delegation.stage is Spawning,
        spawned.len() > 0,
    ensures
        next_step(
            configs,
            file,
            delegation,
            Ok(ServerEventView::CommSpawnResponse { new_session_id: spawned }),
        ) matches StepView::Send { delegation: awaiting, .. } && next_step(
            configs,
            file,
            awaiting,
            Ok(ServerEventView::CommAwaitMembersResponse { completed: true }),
        ) matches StepView::Send { delegation: reading, .. } && next_step(
            configs,
            file,
            reading,
            Ok(ServerEventView::CommContextHistory { messages }),
        ) matches StepView::Send { delegation: stopping, .. } && next_step(
            configs,
            file,
            stopping,
            stopped,
        ) == StepView::Finish(
            Ok(
                delegation_report(
                    delegation.model_label,
                    delegation.task,
                    match crate::protocol::last_assistant_content(messages) {
                        Some(content) => content,
                        None => "<no response from delegate>"@,
                    },
                ),
            ),
        ),
{
}

/// The message for the delegate opens with the standing instruction, then gives the task in full.
/// If the context has a character that is no white space, the message ends with exactly that
/// context, under its heading; else it ends with the task.
pub proof fn law_message_gives_task_and_context(task: Seq<char>, context: Option<Seq<char>>)
    ensures
        ({
            let message = initial_message(task, context);
            let opening =
                "You are a delegate agent. Complete the task below and report your results.\n\nTask: "@;
            let heading = "\n\nAdditional context:\n"@;
            let told = context is Some && exists|i: int|
                0 <= i < context->0.len() && !crate::text::white_space(#[trigger] context->0[i]);
            &&& message.take(opening.len() as int) == opening
            &&& message.skip(opening.len() as int).take(task.len() as int) == task
            &&& told ==> {
                &&& message.len() == opening.len() + task.len() + heading.len() + context->0.len()
                &&& message.skip(opening.len() as int + task.len()).take(heading.len() as int)
                    == heading
                &&& message.skip(message.len() - context->0.len()) == context->0
            }
            &&& !told ==> message.len() == opening.len() + task.len()
        }),
{
    let message = initial_message(task, context);
    let opening =
        "You are a delegate agent. Complete the task below and report your results.\n\nTask: "@;
    let heading = "\n\nAdditional context:\n"@;
    assert(message.take(opening.len() as int) =~= opening);
    assert(message.skip(opening.len() as int).take(task.len() as int) =~= task);
    if let Some(context) = context {
        if !crate::text::blank(context) {
            assert(message.skip(opening.len() as int + task.len()).take(heading.len() as int)
                =~= heading);
            assert(message.skip(message.len() - context.len()) =~= context);
        }
    }
}

/// Two messages for the same task are the same only if what they tell of the context is the same:
/// of two different contexts that are not blank, neither is lost.
pub proof fn law_contexts_are_told_apart(task: Seq<char>, a: Seq<char>, b: Seq<char>)
    requires
        !crate::text::blank(a),
        !crate::text::blank(b),
        a != b,
    ensures
        initial_message(task, Some(a)) != initial_message(task, Some(b)),
        initial_message(task, Some(a)) != initial_message(task, None),
{
    law_message_gives_task_and_context(task, Some(a));
    law_message_gives_task_and_context(task, Some(b));
    law_message_gives_task_and_context(task, None);
}

/// A delegation that starts asks the server for one agent, without a window and under the label
/// of delegates, on behalf of the session. Its first message gives the task in full and, if the
/// context is not blank, ends with exactly that context.
pub proof fn law_agent_is_started_with_the_task(
    configs: Map<Seq<char>, DelegateSessionConfigView>,
    file: DelegateConfigView,
    input: DelegateInputView,
    session_id: Seq<char>,
    target_status: Seq<Seq<char>>,
)
    ensures
        first_step(configs, file, input, session_id, target_status) matches StepView::Send {
            delegation,
            request,
        } ==> {
            let message = request->initial_message->0;
            let opening =
                "You are a delegate agent. Complete the task below and report your results.\n\nTask: "@;
            let told = input.context is Some && exists|i: int|
                0 <= i < input.context->0.len() && !crate::text::white_space(
                    #[trigger] input.context->0[i],
                );
            &&& request is CommSpawn
            &&& request->initial_message is Some
            &&& message.take(opening.len() as int) == opening
            &&& message.skip(opening.len() as int).take(input.task.len() as int) == input.task
            &&& told ==> message.len() >= input.context->0.len() && message.skip(
                message.len() - input.context->0.len(),
            ) == input.context->0
            &&& !told ==> message.len() == opening.len() + input.task.len()
            &&& message == initial_message(input.task, input.context)
            &&& request->CommSpawn_id == 1
            &&& request->CommSpawn_session_id == session_id
            &&& request->working_dir is None
            &&& request->request_nonce is None
            &&& request->spawn_mode == Some("headless"@)
            &&& request->effort is None
            &&& request->label == Some("delegate"@)
            &&& delegation.session_id == session_id
            &&& delegation.task == input.task
            &&& delegation.target_status == target_status
            &&& delegation.stage is Spawning
        },
{
    law_message_gives_task_and_context(input.task, input.context);
}

/// The agent runs the model that was asked for, else the one the session has set, else the
/// file's, else the server's own; the report will name that model, or say that it is the default.
pub proof fn law_agent_runs_the_model_in_force(
    configs: Map<Seq<char>, DelegateSessionConfigView>,
    file: DelegateConfigView,
    input: DelegateInputView,
    session_id: Seq<char>,
    target_status: Seq<Seq<char>>,
)
    ensures
        first_step(configs, file, input, session_id, target_status) matches StepView::Send {
            delegation,
            request,
        } ==> {
            &&& request is CommSpawn
            &&& request->model == if input.model is Some {
                input.model
            } else if configs.contains_key(session_id) && configs[session_id].delegate_model is Some {
                configs[session_id].delegate_model
            } else {
                file.delegate_model
            }
            &&& request->model matches Some(model) ==> delegation.model_label == model
            &&& request->model is None ==> delegation.model_label == "default"@
        },
{
}

/// No agent is started exactly when a model was asked for that is not allowed: the list in force
/// is not empty, the model is not on it, and it is the delegate model neither of the file nor of
/// the session. The output then names the model and all the models that are allowed.
pub proof fn law_delegation_is_refused_exactly_when(
    configs: Map<Seq<char>, DelegateSessionConfigView>,
    file: DelegateConfigView,
    input: DelegateInputView,
    session_id: Seq<char>,
    target_status: Seq<Seq<char>>,
)
    ensures
        ({
            let step = first_step(configs, file, input, session_id, target_status);
            let list = if configs.contains_key(session_id)
                && configs[session_id].allowed_models is Some {
                configs[session_id].allowed_models->0
            } else {
                file.allowed_models
            };
            &&& step is Finish <==> {
                &&& input.model is Some
                &&& list.len() > 0
                &&& !list.contains(input.model->0)
                &&& file.delegate_model != input.model
                &&& configs.contains_key(session_id) ==> configs[session_id].delegate_model
                    != input.model
            }
            &&& step is Finish ==> step == StepView::Finish(
                Ok(
                    "Cannot delegate: "@ + ("Model '"@ + input.model->0
                        + "' is not in the allowed list. Allowed models: "@ + crate::text::joined(
                        list,
                        ", "@,
                    ))
                        + "\n\nUse `configure_delegate` to see available models or change the delegate model."@,
                ),
            )
        }),
{
    crate::session_delegate_config::law_model_in_force_is_allowed(configs, file, session_id);
}

/// The answer to the spawn: an agent with a session id is waited for, it alone, in the statuses
/// given, for as many minutes as the session has set or else the file says, at sixty seconds
/// each. Without a session id, with another answer or with none, the delegation fails.
pub proof fn law_started_agent_is_awaited(
    configs: Map<Seq<char>, DelegateSessionConfigView>,
    file: DelegateConfigView,
    delegation: DelegationView,
    reply: Result<ServerEventView, Seq<char>>,
)
    requires
        delegation.stage is Spawning,
    ensures
        ({
            let step = next_step(configs, file, delegation, reply);
            let minutes = if configs.contains_key(delegation.session_id)
                && configs[delegation.session_id].timeout_minutes is Some {
                configs[delegation.session_id].timeout_minutes->0
            } else {
                file.timeout_minutes
            };
            match reply {
                Ok(ServerEventView::CommSpawnResponse { new_session_id }) => if new_session_id.len()
                    > 0 {
                    &&& step is Send
                    &&& step->request is CommAwaitMembers
                    &&& step->request->CommAwaitMembers_id == 1
                    &&& step->request->CommAwaitMembers_session_id == delegation.session_id
                    &&& step->request->target_status == delegation.target_status
                    &&& step->request->session_ids.len() == 1
                    &&& step->request->session_ids[0] == new_session_id
                    &&& step->request->mode is None
                    &&& step->request->timeout_secs is Some
                    &&& step->request->timeout_secs->0 == minutes * 60
                    &&& !step->request->background
                    &&& !step->request->notify
                    &&& !step->request->wake
                    &&& step->delegation.stage is Awaiting
                    &&& step->delegation.stage->Awaiting_spawned == new_session_id
                    &&& step->delegation.stage->Awaiting_timeout_minutes == minutes
                } else {
                    step == StepView::Finish(Err("Spawn returned empty session ID."@))
                },
                Ok(_) => step == StepView::Finish(Err("Failed to spawn delegate agent."@)),
                Err(message) => step == StepView::Finish(Err(message)),
            }
        }),
{
}

/// The answer to the wait: the conversation of an agent that is done is read, and an agent that
/// is not is stopped, by force. With any other answer, or none, the delegation fails, and says
/// why in full and which session it was.
pub proof fn law_awaited_agent_is_read_or_stopped(
    configs: Map<Seq<char>, DelegateSessionConfigView>,
    file: DelegateConfigView,
    delegation: DelegationView,
    reply: Result<ServerEventView, Seq<char>>,
)
    requires
        delegation.stage is Awaiting,
    ensures
        ({
            let step = next_step(configs, file, delegation, reply);
            let spawned = delegation.stage->Awaiting_spawned;
            match reply {
                Ok(ServerEventView::CommAwaitMembersResponse { completed: true }) => {
                    &&& step is Send
                    &&& step->request is CommReadContext
                    &&& step->request->CommReadContext_id == 1
                    &&& step->request->CommReadContext_session_id == delegation.session_id
                    &&& step->request->CommReadContext_target_session == spawned
                    &&& step->delegation.stage is Reading
                    &&& step->delegation.stage->Reading_spawned == spawned
                },
                Ok(ServerEventView::CommAwaitMembersResponse { completed: false }) => {
                    &&& step is Send
                    &&& step->request is CommStop
                    &&& step->request->CommStop_id == 1
                    &&& step->request->CommStop_session_id == delegation.session_id
                    &&& step->request->CommStop_target_session == spawned
                    &&& step->request->force == Some(true)
                    &&& step->delegation.stage is Abandoning
                    &&& step->delegation.stage->Abandoning_spawned == spawned
                    &&& step->delegation.stage->Abandoning_timeout_minutes
                        == delegation.stage->Awaiting_timeout_minutes
                },
                Ok(ServerEventView::Error { message }) => step == StepView::Finish(
                    Err("Delegate task failed: "@ + message + ". Session: "@ + spawned),
                ),
                Ok(_) => step == StepView::Finish(
                    Err("Delegate task failed: "@ + "Unknown response"@ + ". Session: "@ + spawned),
                ),
                Err(message) => step == StepView::Finish(
                    Err(
                        "Delegate task timed out or failed: "@ + message + ". Session: "@
                            + spawned,
                    ),
                ),
            }
        }),
{
}

/// An agent that took too long fails the delegation, whatever is answered to the stop: the
/// message gives the minutes it had, and ends with its session.
pub proof fn law_late_agent_fails_the_delegation(
    configs: Map<Seq<char>, DelegateSessionConfigView>,
    file: DelegateConfigView,
    delegation: DelegationView,
    reply: Result<ServerEventView, Seq<char>>,
)
    requires
        delegation.stage is Abandoning,
    ensures
        ({
            let step = next_step(configs, file, delegation, reply);
            let before = "Delegate task did not complete within "@;
            let minutes = crate::text::number(
                delegation.stage->Abandoning_timeout_minutes as nat,
                10,
            );
            let spawned = delegation.stage->Abandoning_spawned;
            step == StepView::Finish(Err(before + minutes + " minutes. Session: "@ + spawned))
        }),
{
}

/// The agent is stopped by force once its conversation was read, and the response is taken from
/// the answer to the reading: the last message of the assistant in full, or a note that there is
/// none, or a note that says in full why it could not be read.
pub proof fn law_read_agent_is_stopped(
    configs: Map<Seq<char>, DelegateSessionConfigView>,
    file: DelegateConfigView,
    delegation: DelegationView,
    reply: Result<ServerEventView, Seq<char>>,
)
    requires
        delegation.stage is Reading,
    ensures
        ({
            let step = next_step(configs, file, delegation, reply);
            let response = step->delegation.stage->response;
            let unread = "<delegate agent completed but response unavailable: "@;
            &&& step is Send
            &&& step->request is CommStop
            &&& step->request->CommStop_id == 1
            &&& step->request->CommStop_session_id == delegation.session_id
            &&& step->request->CommStop_target_session == delegation.stage->Reading_spawned
            &&& step->request->force == Some(true)
            &&& step->delegation.stage is Stopping
            &&& match reply {
                Ok(ServerEventView::CommContextHistory { messages }) => {
                    &&& forall|i: int|
                        0 <= i < messages.len() && (#[trigger] messages[i]).role == "assistant"@ && (
                        forall|k: int|
                            i < k < messages.len() ==> (#[trigger] messages[k]).role
                                != "assistant"@) ==> response == messages[i].content
                    &&& (forall|k: int|
                        0 <= k < messages.len() ==> (#[trigger] messages[k]).role != "assistant"@)
                        ==> response == "<no response from delegate>"@
                },
                Ok(ServerEventView::Error { message }) => response == unread + message + ">"@,
                Ok(_) => response == unread + "Unknown response"@ + ">"@,
                Err(message) => response == unread + message + ">"@,
            }
        }),
{
    if let Ok(ServerEventView::CommContextHistory { messages }) = reply {
        crate::protocol::law_last_assistant_message(messages);
        assert forall|i: int|
            0 <= i < messages.len() && (#[trigger] messages[i]).role == "assistant"@ && (forall|
                k: int,
            |
                i < k < messages.len() ==> (#[trigger] messages[k]).role
                    != "assistant"@) implies crate::protocol::last_assistant_content(messages)
            == Some(messages[i].content) by {
            if let Some(content) = crate::protocol::last_assistant_content(messages) {
                let at = choose|at: int|
                    0 <= at < messages.len() && (#[trigger] messages[at]).role == "assistant"@
                        && messages[at].content == content && (forall|k: int|
                        at < k < messages.len() ==> (#[trigger] messages[k]).role
                            != "assistant"@);
                assert(messages[at].role == "assistant"@);
                assert(at == i);
            } else {
                assert(messages[i].role != "assistant"@);
            }
        }
        if forall|k: int|
            0 <= k < messages.len() ==> (#[trigger] messages[k]).role != "assistant"@ {
            assert(crate::protocol::last_assistant_content(messages) is None);
        }
    }
}

/// The output of a delegation names the model and the task in full, and ends with the whole
/// response, whatever its length and whatever is answered to the stop.
pub proof fn law_output_ends_with_the_response(
    configs: Map<Seq<char>, DelegateSessionConfigView>,
    file: DelegateConfigView,
    delegation: DelegationView,
    reply: Result<ServerEventView, Seq<char>>,
)
    requires
        delegation.stage is Stopping,
    ensures
        ({
            let step = next_step(configs, file, delegation, reply);
            let output = step->Finish_0->Ok_0;
            let response = delegation.stage->response;
            let opening = "## Delegation Result\n\n**Delegate model:** "@;
            let about = "\n\n**Task:** "@;
            let heading = "\n\n**Response:**\n\n"@;
            let label = delegation.model_label;
            let task = delegation.task;
            &&& step is Finish
            &&& step->Finish_0 is Ok
            &&& output.len() == opening.len() + label.len() + about.len() + task.len()
                + heading.len() + response.len()
            &&& output.skip(output.len() - response.len()) == response
            &&& output.take(opening.len() as int) == opening
            &&& output.skip(opening.len() as int).take(label.len() as int) == label
            &&& output.skip(opening.len() as int + label.len()).take(about.len() as int) == about
            &&& output.skip(opening.len() as int + label.len() + about.len()).take(
                task.len() as int,
            ) == task
            &&& output.skip(opening.len() as int + label.len() + about.len() + task.len()).take(
                heading.len() as int,
            ) == heading
        }),
{
    let output = next_step(configs, file, delegation, reply)->Finish_0->Ok_0;
    let response = delegation.stage->response;
    let opening = "## Delegation Result\n\n**Delegate model:** "@;
    let about = "\n\n**Task:** "@;
    let heading = "\n\n**Response:**\n\n"@;
    let label = delegation.model_label;
    let task = delegation.task;
    assert(output == opening + label + about + task + heading + response);
    assert(output.skip(output.len() - response.len()) =~= response);
    assert(output.take(opening.len() as int) =~= opening);
    assert(output.skip(opening.len() as int).take(label.len() as int) =~= label);
    assert(output.skip(opening.len() as int + label.len()).take(about.len() as int) =~= about);
    assert(output.skip(opening.len() as int + label.len() + about.len()).take(task.len() as int)
        =~= task);
    assert(output.skip(opening.len() as int + label.len() + about.len() + task.len()).take(
        heading.len() as int,
    ) =~= heading);
}

/// What a delegation ends with if all goes well: the agent is started, is done in time, and gives
/// the messages when it is read.
pub open spec fn output_of_run(
    configs: Map<Seq<char>, DelegateSessionConfigView>,
    file: DelegateConfigView,
    delegation: DelegationView,
    spawned: Seq<char>,
    messages: Seq<crate::protocol::HistoryMessageView>,
    stopped: Result<ServerEventView, Seq<char>>,
) -> StepView {
    let awaiting = next_step(
        configs,
        file,
        delegation,
        Ok(ServerEventView::CommSpawnResponse { new_session_id: spawned }),
    )->delegation;
    let reading = next_step(
        configs,
        file,
        awaiting,
        Ok(ServerEventView::CommAwaitMembersResponse { completed: true }),
    )->delegation;
    let stopping = next_step(
        configs,
        file,
        reading,
        Ok(ServerEventView::CommContextHistory { messages }),
    )->delegation;
    next_step(configs, file, stopping, stopped)
}

/// A delegation that goes well ends with the whole content of the last message of the assistant,
/// whatever its length; and two that differ in that content alone differ in their output.
pub proof fn law_whole_response_is_reported(
    configs: Map<Seq<char>, DelegateSessionConfigView>,
    file: DelegateConfigView,
    delegation: DelegationView,
    spawned: Seq<char>,
    messages: Seq<crate::protocol::HistoryMessageView>,
    last: int,
    stopped: Result<ServerEventView, Seq<char>>,
    other: Seq<char>,
)
    requires
        delegation.stage is Spawning,
        spawned.len() > 0,
        0 <= last < messages.len(),
        messages[last].role == "assistant"@,
        forall|k: int| last < k < messages.len() ==> (#[trigger] messages[k]).role != "assistant"@,
    ensures
        ({
            let content = messages[last].content;
            let changed = messages.update(
                last,
                crate::protocol::HistoryMessageView { role: messages[last].role, content: other },
            );
            let step = output_of_run(configs, file, delegation, spawned, messages, stopped);
            &&& step matches StepView::Finish(Ok(output)) && output.len() >= content.len()
                && output.skip(output.len() - content.len()) == content
            &&& other != content ==> step != output_of_run(
                configs,
                file,
                delegation,
                spawned,
                changed,
                stopped,
            )
        }),
{
    let content = messages[last].content;
    let changed = messages.update(
        last,
        crate::protocol::HistoryMessageView { role: messages[last].role, content: other },
    );
    assert(changed[last].role == "assistant"@);
    assert forall|k: int| last < k < changed.len() implies (#[trigger] changed[k]).role
        != "assistant"@ by {
        assert(messages[k].role != "assistant"@);
    }
    lemma_run_reaches_the_stop(configs, file, delegation, spawned, messages, last, stopped);
    lemma_run_reaches_the_stop(configs, file, delegation, spawned, changed, last, stopped);
    let a = output_of_run(configs, file, delegation, spawned, messages, stopped)->Finish_0->Ok_0;
    let b = output_of_run(configs, file, delegation, spawned, changed, stopped)->Finish_0->Ok_0;
    if other != content && a == b {
        assert(a.skip(a.len() - content.len()) == content);
        assert(b.skip(b.len() - other.len()) == other);
        assert(content.len() == other.len());
    }
}

proof fn lemma_run_reaches_the_stop(
    configs: Map<Seq<char>, DelegateSessionConfigView>,
    file: DelegateConfigView,
    delegation: DelegationView,
    spawned: Seq<char>,
    messages: Seq<crate::protocol::HistoryMessageView>,
    last: int,
    stopped: Result<ServerEventView, Seq<char>>,
)
    requires
        delegation.stage is Spawning,
        spawned.len() > 0,
        0 <= last < messages.len(),
        messages[last].role == "assistant"@,
        forall|k: int| last < k < messages.len() ==> (#[trigger] messages[k]).role != "assistant"@,
    ensures
        ({
            let content = messages[last].content;
            let step = output_of_run(configs, file, delegation, spawned, messages, stopped);
            &&& step matches StepView::Finish(Ok(output)) && output.len() == content.len()
                + delegation.model_label.len() + delegation.task.len()
                + "## Delegation Result\n\n**Delegate model:** "@.len()
                + "\n\n**Task:** "@.len() + "\n\n**Response:**\n\n"@.len() && output.skip(
                output.len() - content.len(),
            ) == content
        }),
{
    let awaiting = next_step(
        configs,
        file,
        delegation,
        Ok(ServerEventView::CommSpawnResponse { new_session_id: spawned }),
    )->delegation;
    let reading = next_step(
        configs,
        file,
        awaiting,
        Ok(ServerEventView::CommAwaitMembersResponse { completed: true }),
    )->delegation;
    let stopping = next_step(
        configs,
        file,
        reading,
        Ok(ServerEventView::CommContextHistory { messages }),
    )->delegation;
    law_read_agent_is_stopped(
        configs,
        file,
        reading,
        Ok(ServerEventView::CommContextHistory { messages }),
    );
    assert(messages[last].role == "assistant"@);
    assert(stopping.stage->response == messages[last].content);
    law_output_ends_with_the_response(configs, file, stopping, stopped);
}

/// The contents of the arguments, of a delegation, of a stage, of a step and of a reply are those
/// of their fields, each under its own kind.
pub proof fn law_contents_are_those_of_the_fields(
    input: DelegateInput,
    delegation: Delegation,
    stage: Stage,
    step: Step,
    reply: Result<ServerEvent, String>,
)
    ensures
        input@.task == input.task@,
        input@.context == input.context.deep_view(),
        input@.model == input.model.deep_view(),
        delegation@.session_id == delegation.session_id@,
        delegation@.task == delegation.task@,
        delegation@.model_label == delegation.model_label@,
        delegation@.target_status == delegation.target_status.deep_view(),
        delegation@.stage == delegation.stage@,
        match stage {
            Stage::Spawning => stage@ is Spawning,
            Stage::Awaiting { spawned, timeout_minutes } => stage@ is Awaiting
                && stage@->Awaiting_spawned == spawned@ && stage@->Awaiting_timeout_minutes
                == timeout_minutes,
            Stage::Abandoning { spawned, timeout_minutes } => stage@ is Abandoning
                && stage@->Abandoning_spawned == spawned@ && stage@->Abandoning_timeout_minutes
                == timeout_minutes,
            Stage::Reading { spawned } => stage@ is Reading && stage@->Reading_spawned == spawned@,
            Stage::Stopping { response } => stage@ is Stopping && stage@->response == response@,
        },
        match step {
            Step::Send { delegation, request } => step@ is Send && step@->delegation == delegation@
                && step@->request == request@,
            Step::Finish(Ok(output)) => step@ == StepView::Finish(Ok(output@)),
            Step::Finish(Err(message)) => step@ == StepView::Finish(Err(message@)),
        },
        match reply {
            Ok(event) => reply_view(reply) == Ok::<ServerEventView, Seq<char>>(event@),
            Err(message) => reply_view(reply) == Err::<ServerEventView, Seq<char>>(message@),
        },
{
}

} // verus!
