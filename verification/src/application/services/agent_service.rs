//! The decisions of the agent service: which identities a run is addressed
//! to, the ids of new sessions, and the reply that a run's events add up to.
//! It also builds the service: the model, the agent, the runner and the
//! session store. Driving the runner is asynchronous and happens around these.

use crate::application::errors::AppError;
use crate::config::{ConfigError, Settings};
use adk_rust::agent::{LlmAgent, LlmAgentBuilder};
use adk_rust::model::deepseek::DeepSeekClient;
use adk_rust::runner::Runner;
use adk_rust::session::InMemorySessionService;
use adk_rust::{AdkError, IdentityError, SessionId, UserId};
use std::sync::Arc;
use vstd::prelude::*;
use vstd::utf8::encode_utf8;

verus! {

/// The fixed application name that scopes the agent's sessions.
pub const APP_NAME: &'static str = "rust_claw";

#[verifier::external_type_specification]
#[verifier::external_body]
pub struct ExUserId(UserId);

#[verifier::external_type_specification]
#[verifier::external_body]
pub struct ExSessionId(SessionId);

#[verifier::external_type_specification]
#[verifier::external_body]
pub struct ExIdentityError(IdentityError);

/// The identifier rule of the agent runtime: not empty, at most 512 bytes in
/// UTF-8, and no NUL character.
pub open spec fn is_valid_identity(text: Seq<char>) -> bool {
    &&& text.len() > 0
    &&& encode_utf8(text).len() <= 512
    &&& !text.contains('\0')
}

/// A lower-case hexadecimal digit.
pub open spec fn is_lower_hex(c: char) -> bool {
    ('0' <= c <= '9') || ('a' <= c <= 'f')
}

/// The hyphenated lower-case text of a random (version 4, RFC 4122 variant)
/// UUID: 36 characters, hyphens at positions 8, 13, 18 and 23, the version
/// digit `4` at position 14, a variant digit `8`, `9`, `a` or `b` at position
/// 19, and lower-case hex digits everywhere else.
pub open spec fn is_uuid_text(text: Seq<char>) -> bool {
    &&& text.len() == 36
    &&& text[8] == '-' && text[13] == '-' && text[18] == '-' && text[23] == '-'
    &&& text[14] == '4'
    &&& (text[19] == '8' || text[19] == '9' || text[19] == 'a' || text[19] == 'b')
    &&& forall|i: int|
        0 <= i < text.len() && i != 8 && i != 13 && i != 18 && i != 23 ==> is_lower_hex(
            #[trigger] text[i],
        )
}

/// The user identifier that the agent runtime makes of a valid text.
pub uninterp spec fn user_id_of(text: Seq<char>) -> UserId;

/// The session identifier that the agent runtime makes of a valid text.
pub uninterp spec fn session_id_of(text: Seq<char>) -> SessionId;

/// Calls `adk_rust::UserId::new`, which validates the text (not empty, at
/// most 512 bytes, no NUL). The contract states when it succeeds, and that
/// the identifier is the one that the text makes (`user_id_of`): the same
/// text always gives the same identifier.
#[verifier::external_body]
fn parse_user_id(text: &str) -> (r: Result<UserId, IdentityError>)
    ensures
        r is Ok <==> is_valid_identity(text@),
        r matches Ok(u) ==> u == user_id_of(text@),
{
    UserId::new(text)
}

/// Calls `adk_rust::SessionId::try_from(&str)`, which applies the same
/// validation as `UserId::new`. The contract states when it succeeds, and
/// that the identifier is the one that the text makes (`session_id_of`).
#[verifier::external_body]
fn parse_session_id(text: &str) -> (r: Result<SessionId, IdentityError>)
    ensures
        r is Ok <==> is_valid_identity(text@),
        r matches Ok(s) ==> s == session_id_of(text@),
{
    SessionId::try_from(text)
}

/// Calls `adk_rust::SessionId::generate` and renders the id with its
/// `Display`: the text of a fresh random UUID v4 in its hyphenated lower-case
/// form (with the version and variant digits that `Uuid::new_v4` sets).
/// Which UUID comes out is left to chance; only its shape is stated.
#[verifier::external_body]
fn generate_session_id() -> (id: String)
    ensures
        is_uuid_text(id@),
{
    SessionId::generate().to_string()
}

/// A UUID text is a valid identifier.
pub proof fn lemma_uuid_text_is_valid_identity(text: Seq<char>)
    requires
        is_uuid_text(text),
    ensures
        is_valid_identity(text),
{
    assert(vstd::utf8::is_ascii_chars(text)) by {
        assert forall|i: int| 0 <= i < text.len() implies '\0' <= #[trigger] text[i] <= '\u{7f}' by {
            if i != 8 && i != 13 && i != 18 && i != 23 {
                assert(is_lower_hex(text[i]));
            }
        }
    }
    vstd::utf8::is_ascii_chars_encode_utf8(text);
    assert(!text.contains('\0')) by {
        if text.contains('\0') {
            let i = choose|i: int| 0 <= i < text.len() && text[i] == '\0';
            if i != 8 && i != 13 && i != 18 && i != 23 {
                assert(is_lower_hex(text[i]));
            }
        }
    }
}

/// The id of a new session: a random UUID, which the runtime accepts as a
/// session identifier.
pub fn new_session_id() -> (id: String)
    ensures
        is_uuid_text(id@),
        is_valid_identity(id@),
{
    let id = generate_session_id();
    proof {
        lemma_uuid_text_is_valid_identity(id@);
    }
    id
}

/// The role under which the user's message is handed to the agent.
pub const USER_ROLE: &'static str = "user";

/// A new session as the session store is asked for it: the application it
/// belongs to, its user and its id.
#[derive(Debug, Clone)]
pub struct SessionRequest {
    pub app_name: String,
    pub user_id: String,
    pub session_id: String,
}

/// The request for a new, empty session of `user_id`: under this
/// application's name, with a fresh random id.
pub fn new_session_request(user_id: &str) -> (req: SessionRequest)
    ensures
        req.app_name@ == APP_NAME@,
        req.user_id@ == user_id@,
        is_uuid_text(req.session_id@),
        is_valid_identity(req.session_id@),
{
    SessionRequest {
        app_name: APP_NAME.to_string(),
        user_id: user_id.to_string(),
        session_id: new_session_id(),
    }
}

#[verifier::external_type_specification]
#[verifier::external_body]
pub struct ExAdkError(AdkError);

#[verifier::external_type_specification]
#[verifier::external_body]
pub struct ExDeepSeekClient(DeepSeekClient);

#[verifier::external_type_specification]
#[verifier::external_body]
pub struct ExLlmAgent(LlmAgent);

#[verifier::external_type_specification]
#[verifier::external_body]
pub struct ExRunner(Runner);

#[verifier::external_type_specification]
#[verifier::external_body]
pub struct ExInMemorySessionService(InMemorySessionService);

/// A DeepSeek chat model, with the API key that it was set up with.
pub struct DeepSeekModel {
    client: DeepSeekClient,
    key: Ghost<Seq<char>>,
}

impl DeepSeekModel {
    /// The API key that the model was set up with.
    pub closed spec fn spec_key(&self) -> Seq<char> {
        self.key@
    }
}

/// What an agent is built from: its name, description, instruction, and the
/// API key of its model.
pub type AgentSpec = (Seq<char>, Seq<char>, Seq<char>, Seq<char>);

/// What a runner is built from: its application name, its agent, and the
/// session store it keeps the sessions in.
pub type RunnerSpec = (Seq<char>, AgentSpec, InMemorySessionService);

/// An LLM agent, with what it was built from.
pub struct AssistantAgent {
    agent: LlmAgent,
    spec: Ghost<AgentSpec>,
}

impl AssistantAgent {
    pub closed spec fn spec_built_from(&self) -> AgentSpec {
        self.spec@
    }
}

/// Calls `DeepSeekClient::chat(api_key)`, which sets up an HTTP client for
/// DeepSeek's chat model with that key. Whether the set-up succeeds depends
/// on the machine (the HTTP client's construction), so that is left unsaid;
/// a model that comes back was set up with the given key.
#[verifier::external_body]
fn deepseek_chat_client(api_key: String) -> (r: Result<DeepSeekModel, AdkError>)
    ensures
        r matches Ok(m) ==> m.spec_key() == api_key@,
{
    let key = Ghost(api_key@);
    match DeepSeekClient::chat(api_key) {
        Ok(client) => Ok(DeepSeekModel { client, key }),
        Err(e) => Err(e),
    }
}

/// Builds an `LlmAgent` with `LlmAgentBuilder` from a name, a description, an
/// instruction and a model. `build` fails only without a model or with
/// duplicate sub-agents, neither of which can happen here, so it succeeds;
/// the agent is built from exactly these. What it holds beyond that is left
/// unsaid: the type keeps it private.
#[verifier::external_body]
fn build_agent(name: &str, description: &str, instruction: &str, model: DeepSeekModel) -> (r:
    Result<AssistantAgent, AdkError>)
    ensures
        r is Ok,
        r matches Ok(a) ==> a.spec_built_from() == (name@, description@, instruction@, model.spec_key()),
{
    let spec = Ghost((name@, description@, instruction@, model.key@));
    let built = LlmAgentBuilder::new(name).description(description).instruction(instruction).model(
        Arc::new(model.client),
    ).build();
    match built {
        Ok(agent) => Ok(AssistantAgent { agent, spec }),
        Err(e) => Err(e),
    }
}

/// Calls `InMemorySessionService::new`: an empty in-memory session store.
#[verifier::external_body]
fn in_memory_session_store() -> (store: InMemorySessionService) {
    InMemorySessionService::new()
}

/// Builds a `Runner` with `Runner::builder()` from an application name, an
/// agent and a session store, which the runner keeps its sessions in.
/// `Runner::new` never refuses its configuration, so it succeeds; the runner
/// is built from exactly these. What it holds beyond that is left unsaid: the
/// type keeps it private.
#[verifier::external_body]
fn build_runner(app_name: &str, agent: AssistantAgent, sessions: &Arc<InMemorySessionService>) -> (r:
    Result<(Runner, Ghost<RunnerSpec>), AdkError>)
    ensures
        r is Ok,
        r matches Ok(p) ==> p.1@ == (app_name@, agent.spec_built_from(), **sessions),
{
    let spec = Ghost((app_name@, agent.spec@, **sessions));
    let built = Runner::builder().app_name(app_name).agent(Arc::new(agent.agent)).session_service(
        sessions.clone(),
    ).build();
    match built {
        Ok(runner) => Ok((runner, spec)),
        Err(e) => Err(e),
    }
}

/// Why the agent service could not be built, step by step.
#[derive(Debug)]
pub enum InitFailure {
    /// The settings lack what the service needs.
    Config(ConfigError),
    /// The DeepSeek model could not be set up.
    Model(AdkError),
    /// The agent could not be built.
    Agent(AdkError),
    /// The runner could not be built.
    Runner(AdkError),
}

impl InitFailure {
    /// The text reported for each failure.
    pub open spec fn spec_message(&self) -> Seq<char> {
        match self {
            InitFailure::Config(e) => e.spec_message(),
            InitFailure::Model(_) => "初始化 DeepSeek 模型失败"@,
            InitFailure::Agent(_) => "构建 LLM 智能体失败"@,
            InitFailure::Runner(_) => "构建 Agent Runner 失败"@,
        }
    }

    pub fn message(&self) -> (m: &'static str)
        ensures
            m@ == self.spec_message(),
    {
        match self {
            InitFailure::Config(e) => e.message(),
            InitFailure::Model(_) => "初始化 DeepSeek 模型失败",
            InitFailure::Agent(_) => "构建 LLM 智能体失败",
            InitFailure::Runner(_) => "构建 Agent Runner 失败",
        }
    }
}

/// The name of the service's agent.
pub const AGENT_NAME: &'static str = "assistant";

/// The description of the service's agent.
pub const AGENT_DESCRIPTION: &'static str = "通用 AI 助手";

/// The instruction of the service's agent.
pub const AGENT_INSTRUCTION: &'static str = "你是一个乐于助人的 AI 助手，请简洁准确地回答问题。";

/// The agent that the service runs, for a model with the given API key.
pub open spec fn assistant_spec(key: Seq<char>) -> AgentSpec {
    (AGENT_NAME@, AGENT_DESCRIPTION@, AGENT_INSTRUCTION@, key)
}

/// The agent service: one DeepSeek-backed LLM agent named `assistant`, run by
/// a runner under this application's name, and the in-memory session store
/// that the runner and the session endpoints share.
#[derive(Clone)]
pub struct AgentService {
    pub runner: Arc<Runner>,
    pub session_service: Arc<InMemorySessionService>,
    /// What the runner was built from.
    pub built_from: Ghost<RunnerSpec>,
}

impl AgentService {
    /// What the service's runner was built from.
    pub open spec fn spec_built_from(&self) -> RunnerSpec {
        self.built_from@
    }

    /// Whether the service runs the assistant agent, for a model with the
    /// given key, under this application's name, with its own session store.
    pub open spec fn runs_assistant(&self, key: Seq<char>) -> bool {
        self.spec_built_from() == (APP_NAME@, assistant_spec(key), *self.session_service)
    }

    /// Builds the service from the settings: the API key must be set; then
    /// the model is set up with it and the rest is assembled from the model.
    pub fn new(settings: &Settings) -> (r: Result<AgentService, InitFailure>)
        ensures
            settings.deepseek_api_key is None <==> (r matches Err(InitFailure::Config(e)) && e
                == ConfigError::MissingApiKey),
            r matches Err(InitFailure::Config(e)) ==> e == ConfigError::MissingApiKey,
            !(r matches Err(InitFailure::Agent(_))),
            !(r matches Err(InitFailure::Runner(_))),
            r matches Ok(svc) ==> settings.deepseek_api_key is Some && svc.runs_assistant(
                settings.deepseek_api_key->0@,
            ),
    {
        let api_key = match settings.require_api_key() {
            Ok(k) => k,
            Err(e) => {
                return Err(InitFailure::Config(e));
            },
        };
        let model = deepseek_chat_client(api_key);
        AgentService::from_model(model)
    }

    /// Assembles the service from the outcome of the model's set-up: a
    /// failed set-up is reported as the model's failure and nothing else is
    /// built; otherwise the assistant agent is built on the model, and the
    /// runner under this application's name with a new session store, which
    /// the service keeps.
    pub fn from_model(model: Result<DeepSeekModel, AdkError>) -> (r: Result<AgentService, InitFailure>)
        ensures
            match model {
                Err(e) => r matches Err(InitFailure::Model(f)) && f == e,
                Ok(m) => r matches Ok(svc) && svc.runs_assistant(m.spec_key()),
            },
    {
        let model = match model {
            Ok(m) => m,
            Err(e) => {
                return Err(InitFailure::Model(e));
            },
        };
        let agent = match build_agent(AGENT_NAME, AGENT_DESCRIPTION, AGENT_INSTRUCTION, model) {
            Ok(a) => a,
            Err(e) => {
                return Err(InitFailure::Agent(e));
            },
        };
        let session_service = Arc::new(in_memory_session_store());
        let (runner, built_from) = match build_runner(APP_NAME, agent, &session_service) {
            Ok(p) => p,
            Err(e) => {
                return Err(InitFailure::Runner(e));
            },
        };
        Ok(AgentService { runner: Arc::new(runner), session_service, built_from })
    }
}

/// The identities that a run is addressed to. The user id is checked first;
/// a refused one is reported as an internal error "非法的用户标识", a refused
/// session id as "非法的会话标识".
pub fn run_identity(session_id: &str, user_id: &str) -> (r: Result<(UserId, SessionId), AppError>)
    ensures
        r is Ok <==> is_valid_identity(user_id@) && is_valid_identity(session_id@),
        r matches Ok(p) ==> p.0 == user_id_of(user_id@) && p.1 == session_id_of(session_id@),
        r matches Err(e) ==> e is Internal,
        !is_valid_identity(user_id@) ==> (r matches Err(e) && e.spec_message() == "非法的用户标识"@),
        is_valid_identity(user_id@) && !is_valid_identity(session_id@) ==> (r matches Err(e)
            && e.spec_message() == "非法的会话标识"@),
{
    let user = match parse_user_id(user_id) {
        Ok(u) => u,
        Err(_) => {
            return Err(AppError::internal("非法的用户标识"));
        },
    };
    let session = match parse_session_id(session_id) {
        Ok(s) => s,
        Err(_) => {
            return Err(AppError::internal("非法的会话标识"));
        },
    };
    Ok((user, session))
}

/// One event of an agent run, as far as the service reads it: whether it is a
/// partial (streamed) chunk, and the parts of its content, each with its text
/// where it is a text part.
#[derive(Debug, Clone)]
pub struct AgentEvent {
    /// A streamed chunk (`true`) or a final event (`false`).
    pub partial: bool,
    /// The parts of the content, where the event has content.
    pub content: Option<Vec<Option<String>>>,
}

/// The text of a list of parts: the texts of its text parts, in order.
pub open spec fn parts_text(parts: Seq<Option<String>>) -> Seq<char>
    decreases parts.len(),
{
    if parts.len() == 0 {
        Seq::empty()
    } else {
        parts_text(parts.drop_last()) + match parts.last() {
            Some(t) => t@,
            None => Seq::empty(),
        }
    }
}

impl AgentEvent {
    /// The text that the event carries.
    pub open spec fn spec_text(&self) -> Seq<char> {
        match self.content {
            Some(parts) => parts_text(parts@),
            None => Seq::empty(),
        }
    }

    /// The text that the event carries: the texts of its text parts, joined.
    pub fn text(&self) -> (t: String)
        ensures
            t@ == self.spec_text(),
    {
        let mut t = String::new();
        match &self.content {
            None => {},
            Some(parts) => {
                let mut i: usize = 0;
                while i < parts.len()
                    invariant
                        i <= parts@.len(),
                        t@ == parts_text(parts@.subrange(0, i as int)),
                    decreases parts@.len() - i,
                {
                    proof {
                        assert(parts@.subrange(0, i + 1).drop_last() =~= parts@.subrange(0, i as int));
                    }
                    match &parts[i] {
                        Some(s) => t.append(s.as_str()),
                        None => {},
                    }
                    i = i + 1;
                }
                assert(parts@.subrange(0, i as int) =~= parts@);
            },
        }
        t
    }
}

/// The reply that a run's events add up to: the texts of the final events, in
/// order. Partial events are streamed chunks whose text the final events
/// repeat, so they add nothing.
pub open spec fn reply_of(events: Seq<AgentEvent>) -> Seq<char>
    decreases events.len(),
{
    if events.len() == 0 {
        Seq::empty()
    } else {
        let e = events.last();
        reply_of(events.drop_last()) + if e.partial {
            Seq::empty()
        } else {
            e.spec_text()
        }
    }
}

/// The whole reply of a (non-streaming) chat, from the events of its run.
pub fn final_reply(events: &Vec<AgentEvent>) -> (reply: String)
    ensures
        reply@ == reply_of(events@),
{
    let mut reply = String::new();
    let mut i: usize = 0;
    while i < events.len()
        invariant
            i <= events@.len(),
            reply@ == reply_of(events@.subrange(0, i as int)),
        decreases events@.len() - i,
    {
        proof {
            assert(events@.subrange(0, i + 1).drop_last() =~= events@.subrange(0, i as int));
        }
        let event = &events[i];
        if !event.partial {
            let text = event.text();
            reply.append(text.as_str());
        }
        i = i + 1;
    }
    assert(events@.subrange(0, i as int) =~= events@);
    reply
}

/// The reply of events read in two stretches is the reply of the first
/// stretch followed by the reply of the second.
pub proof fn lemma_reply_of_concat(a: Seq<AgentEvent>, b: Seq<AgentEvent>)
    ensures
        reply_of(a + b) == reply_of(a) + reply_of(b),
    decreases b.len(),
{
    if b.len() == 0 {
        assert(a + b =~= a);
        assert(reply_of(a) + reply_of(b) =~= reply_of(a));
    } else {
        lemma_reply_of_concat(a, b.drop_last());
        assert((a + b).drop_last() =~= a + b.drop_last());
        assert((a + b).last() == b.last());
        let tail = if b.last().partial {
            Seq::<char>::empty()
        } else {
            b.last().spec_text()
        };
        assert(reply_of(a) + reply_of(b.drop_last()) + tail =~= reply_of(a) + (reply_of(
            b.drop_last(),
        ) + tail));
    }
}

/// A partial event never changes the reply.
pub proof fn lemma_partial_event_adds_nothing(events: Seq<AgentEvent>, e: AgentEvent)
    requires
        e.partial,
    ensures
        reply_of(events.push(e)) == reply_of(events),
{
    assert(events.push(e).drop_last() =~= events);
    assert(reply_of(events) + Seq::<char>::empty() =~= reply_of(events));
}

/// The outcome of a (non-streaming) chat from the events read off its run:
/// when reading an event failed, the internal error "读取 Agent 事件失败"
/// (the events before it are dropped); otherwise the whole reply.
pub fn chat_outcome(events: &Vec<AgentEvent>, read_failed: bool) -> (r: Result<String, AppError>)
    ensures
        read_failed ==> (r matches Err(e) && e is Internal && e.spec_message() == "读取 Agent 事件失败"@),
        !read_failed ==> (r matches Ok(reply) && reply@ == reply_of(events@)),
{
    if read_failed {
        Err(AppError::internal("读取 Agent 事件失败"))
    } else {
        Ok(final_reply(events))
    }
}

/// The text of parts read in two stretches is the text of the first stretch
/// followed by the text of the second.
pub proof fn lemma_parts_text_concat(a: Seq<Option<String>>, b: Seq<Option<String>>)
    ensures
        parts_text(a + b) == parts_text(a) + parts_text(b),
    decreases b.len(),
{
    if b.len() == 0 {
        assert(a + b =~= a);
        assert(parts_text(a) + parts_text(b) =~= parts_text(a));
    } else {
        lemma_parts_text_concat(a, b.drop_last());
        assert((a + b).drop_last() =~= a + b.drop_last());
        assert((a + b).last() == b.last());
        let tail = match b.last() {
            Some(t) => t@,
            None => Seq::<char>::empty(),
        };
        assert(parts_text(a) + parts_text(b.drop_last()) + tail =~= parts_text(a) + (parts_text(
            b.drop_last(),
        ) + tail));
    }
}

/// A text part contributes its string exactly, and a part without text
/// contributes nothing: with the law above, the text of an event is its text
/// parts' strings joined, unchanged.
pub proof fn lemma_parts_text_single(s: String)
    ensures
        parts_text(seq![Some(s)]) == s@,
        parts_text(seq![None::<String>]) == Seq::<char>::empty(),
{
    assert(seq![Some(s)].drop_last() =~= Seq::<Option<String>>::empty());
    assert(seq![None::<String>].drop_last() =~= Seq::<Option<String>>::empty());
    assert(parts_text(Seq::<Option<String>>::empty()) == Seq::<char>::empty());
    assert(seq![Some(s)].last() == Some(s));
    assert(seq![None::<String>].last() == None::<String>);
    assert(Seq::<char>::empty() + s@ =~= s@);
    assert(Seq::<char>::empty() + Seq::<char>::empty() =~= Seq::<char>::empty());
}

/// Appending a text part to an event's parts appends its string to the
/// event's text; appending a part without text leaves the text as it is.
pub proof fn lemma_parts_text_push(parts: Seq<Option<String>>, s: String)
    ensures
        parts_text(parts.push(Some(s))) == parts_text(parts) + s@,
        parts_text(parts.push(None)) == parts_text(parts),
{
    lemma_parts_text_concat(parts, seq![Some(s)]);
    lemma_parts_text_concat(parts, seq![None::<String>]);
    lemma_parts_text_single(s);
    assert(parts.push(Some(s)) =~= parts + seq![Some(s)]);
    assert(parts.push(None) =~= parts + seq![None::<String>]);
    assert(parts_text(parts) + Seq::<char>::empty() =~= parts_text(parts));
}

/// The reply of a run with a single final event is that event's whole text.
pub proof fn lemma_reply_of_final_event(e: AgentEvent)
    requires
        !e.partial,
    ensures
        reply_of(seq![e]) == e.spec_text(),
{
    assert(seq![e].drop_last() =~= Seq::<AgentEvent>::empty());
    assert(reply_of(Seq::<AgentEvent>::empty()) == Seq::<char>::empty());
    assert(seq![e].last() == e);
    assert(Seq::<char>::empty() + e.spec_text() =~= e.spec_text());
}

} // verus!
