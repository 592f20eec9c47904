//! The server-side protocol dispatcher.
//!
//! The server is a state machine: messages come in through
//! `handle_message`, and everything it decides to send goes into its
//! outbox, in order, for the embedder to drain through the outbound layer
//! chain. Tool invocations do not reply synchronously: `handle_message`
//! hands back the jobs to start, and `poll_jobs` turns the events their
//! tasks produce into response messages — only while the job is still
//! held, which is the cancellation-safety law. Methods other than
//! `initialize` and `ping` require the running state; requests that arrive
//! too early are answered with an invalid-request error and reach no
//! handler, which is the lifecycle law.

use vstd::prelude::*;

use crate::errors::MCPError;
use crate::error_codes::{INVALID_PARAMS, INVALID_REQUEST};
use crate::jobman::{has_job, JobManager, TaskEvent};
use crate::json::{obj_view, JsonVal, JsonValue};
use crate::logging::{level_label, level_rank, spec_level_from, LoggingLevel};
use crate::rpc::{
    version_seq, ErrObjVal, ErrVal, IdVal, JSONRPCError, JSONRPCMessage, JSONRPCResponse, MsgVal,
    NoteVal, RespVal, RequestId,
};
use crate::schema::{
    CallToolParams, CallToolResult, CancelledParams, EmptyResult, Implementation,
    InitializeResult, ListToolsResult, LoggingMessageNotification, LoggingMessageParams,
    ResourceContents, ServerCapabilities, SetLevelParams, TextContent, EmbeddedResource,
    AudioContent, ImageContent, Tool, ToolInputSchema, ToolResultContent, ToolsCapability, LoadType,
};
use crate::session::{assoc_lookup, spec_get_session, SessionStore};
use crate::time::{now_millis, now_rfc3339};
use crate::transport::ChainContext;
use crate::wire::{
    call_tool_result_jv, empty_result_jv, list_tools_result_jv,
    str_member,
};
use crate::builders::build_server_notification;
use crate::schema::ServerNotification;

verus! {

/// What the server calls itself, and the tools it offers.
pub struct ServerConfig {
    pub name: String,
    pub version: String,
    pub tools: Vec<Tool>,
    pub timeout_ms: Option<u64>,
}

impl ServerConfig {
    /// The default configuration: a plainly named server with no tools.
    pub fn new() -> (r: ServerConfig)
        ensures
            r.name@ == ("MCP Server")@,
            r.version@ == ("1.0.0")@,
            r.tools@ =~= Seq::<Tool>::empty(),
            r.timeout_ms is None,
    {
        ServerConfig {
            name: String::from_str("MCP Server"),
            version: String::from_str("1.0.0"),
            tools: Vec::new(),
            timeout_ms: None,
        }
    }

    /// The same configuration under another name.
    pub fn with_name(self, name: &str) -> (r: ServerConfig)
        ensures
            r.name@ == name@,
            r.version == self.version,
            r.tools == self.tools,
            r.timeout_ms == self.timeout_ms,
    {
        ServerConfig { name: name.to_owned(), ..self }
    }

    /// The same configuration under another version.
    pub fn with_version(self, version: &str) -> (r: ServerConfig)
        ensures
            r.version@ == version@,
            r.name == self.name,
            r.tools == self.tools,
            r.timeout_ms == self.timeout_ms,
    {
        ServerConfig { version: version.to_owned(), ..self }
    }

    /// The same configuration with one more tool.
    pub fn with_tools(self, tools: Tool) -> (r: ServerConfig)
        ensures
            r.tools@ == self.tools@.push(tools),
            r.name == self.name,
            r.version == self.version,
            r.timeout_ms == self.timeout_ms,
    {
        let mut cfg = self;
        cfg.tools.push(tools);
        cfg
    }

    /// The same configuration with a receive timeout, in milliseconds.
    pub fn with_timeout(self, timeout_ms: u64) -> (r: ServerConfig)
        ensures
            r.timeout_ms == Some(timeout_ms),
            r.name == self.name,
            r.version == self.version,
            r.tools == self.tools,
    {
        ServerConfig { timeout_ms: Some(timeout_ms), ..self }
    }
}

impl Default for ServerConfig {
    /// The default configuration, as `new` gives it.
    fn default() -> (r: ServerConfig)
        ensures
            r.name@ == ("MCP Server")@,
            r.version@ == ("1.0.0")@,
            r.tools@ =~= Seq::<Tool>::empty(),
            r.timeout_ms is None,
    {
        ServerConfig::new()
    }
}

/// Where the server stands in the lifecycle.
#[derive(Debug, Clone, Copy, PartialEq, Eq, Structural)]
pub enum ServerState {
    Initialized,
    Running,
    Uninitialized,
    Shutdown,
}

/// What the embedder supplies around the server; the engine itself asks
/// nothing of it.
pub trait ServerProvider {

}

/// A tool invocation the embedder must now start: the handler registered
/// under the tool name is to be run with the arguments, reporting its
/// events under the request id.
pub struct JobStart {
    pub id: RequestId,
    pub tool: String,
    pub arguments: JsonValue,
}

/// The server engine.
pub struct Server {
    pub config: ServerConfig,
    pub state: ServerState,
    pub registered_tools: Vec<String>,
    pub next_request_id: i64,
    pub current_request_id: Option<i64>,
    pub cached: Vec<JSONRPCMessage>,
    pub jobs: JobManager,
    pub sessions: SessionStore,
    pub session_id: String,
    pub outbox: Vec<JSONRPCMessage>,
    pub stop_requested: bool,
    pub is_initialized: bool,
}

/// The methods admitted in any lifecycle state.
pub open spec fn exempt_method(m: Seq<char>) -> bool {
    m == ("initialize")@ || m == ("ping")@
}

/// The session id a payload context carries, or the local one.
pub open spec fn dispatch_sid(ctx: Option<ChainContext>) -> Seq<char> {
    match ctx {
        Some(c) => match assoc_lookup(c.data@, ("sessionId")@) {
            Some(s) => s@,
            None => ("local")@,
        },
        None => ("local")@,
    }
}

/// Whether the payload context names a session.
pub open spec fn ctx_has_sid(ctx: Option<ChainContext>) -> bool {
    match ctx {
        Some(c) => assoc_lookup(c.data@, ("sessionId")@) is Some,
        None => false,
    }
}

/// What the clock's formatted reading looks like: a text at least as long
/// as `YYYY-MM-DDTHH:MM:SS`, all printable ASCII with no quote or
/// backslash.
pub open spec fn timestamp_text(ts: Seq<char>) -> bool {
    ts.len() >= 19 && forall|i: int|
        0 <= i < ts.len() ==> crate::json::is_plain_char(#[trigger] ts[i]) && (ts[i] as u32) < 127
}

/// One message appended to an outbox.
pub open spec fn pushed(
    pre: Seq<JSONRPCMessage>,
    post: Seq<JSONRPCMessage>,
    m: MsgVal,
) -> bool {
    post.len() == pre.len() + 1 && post.take(pre.len() as int) == pre && post.last()@ == m
}

/// The error a request in a wrong lifecycle state is answered with.
pub open spec fn wrong_state_error(id: IdVal) -> MsgVal {
    MsgVal::Error(
        ErrVal {
            jsonrpc: version_seq(),
            id,
            error: ErrObjVal {
                code: INVALID_REQUEST,
                message: (
                "Cannot handle the request in the current state. Please initialize the session first")@,
                data: None,
            },
        },
    )
}

/// The error an unreadable level change is answered with.
pub open spec fn set_level_params_error(id: IdVal) -> MsgVal {
    MsgVal::Error(
        ErrVal {
            jsonrpc: version_seq(),
            id,
            error: ErrObjVal {
                code: INVALID_PARAMS,
                message: ("Invalid set level parameters")@,
                data: None,
            },
        },
    )
}

/// The capabilities member of the initialize result: logging off, and the
/// tools capability exactly when tools are configured.
pub open spec fn spec_capabilities_jv(config: ServerConfig) -> JsonVal {
    JsonVal::Obj(
        seq![(("logging")@, JsonVal::Bool(false))] + (if config.tools@.len() > 0 {
            seq![
                (
                    ("tools")@,
                    JsonVal::Obj(seq![(("listChanged")@, JsonVal::Bool(false))]),
                ),
            ]
        } else {
            Seq::empty()
        }),
    )
}

/// The result `initialize` answers with, for a given configuration.
pub open spec fn spec_initialize_result(config: ServerConfig) -> JsonVal {
    JsonVal::Obj(
        seq![
            (("protocolVersion")@, JsonVal::Str(("2025-03-26")@)),
            (("capabilities")@, spec_capabilities_jv(config)),
            (
                ("serverInfo")@,
                JsonVal::Obj(
                    seq![
                        (("name")@, JsonVal::Str(config.name@)),
                        (("version")@, JsonVal::Str(config.version@)),
                    ],
                ),
            ),
        ],
    )
}

/// Whether the configuration offers a tool under `name`.
pub open spec fn config_has_tool(tools: Seq<Tool>, name: Seq<char>) -> bool {
    exists|i: int| 0 <= i < tools.len() && (#[trigger] tools[i].name)@ == name
}

/// Whether a handler is registered under `name`.
pub open spec fn is_registered(registered: Seq<String>, name: Seq<char>) -> bool {
    exists|i: int| 0 <= i < registered.len() && (#[trigger] registered[i])@ == name
}

/// What `send_log` does, at one instant: the current session is consulted
/// — removing it if it expired — and the record goes out exactly when its
/// level reaches the session's stored level, read as `info` when the
/// session stores none.
pub open spec fn spec_send_log(
    pre: Server,
    post: Server,
    level: LoggingLevel,
    msg: Seq<char>,
    now: i64,
) -> bool {
    let sess = spec_get_session(pre.sessions.store@, pre.session_id@, now);
    &&& post.config == pre.config
    &&& post.state == pre.state
    &&& post.registered_tools == pre.registered_tools
    &&& post.jobs == pre.jobs
    &&& post.cached == pre.cached
    &&& post.session_id == pre.session_id
    &&& post.stop_requested == pre.stop_requested
    &&& match sess {
        None => post.outbox@ == pre.outbox@,
        Some(it) => {
            let threshold = match assoc_lookup(it.items@, ("debug_level")@) {
                Some(v) => spec_level_from(v@),
                None => LoggingLevel::Info,
            };
            if level_rank(level) >= level_rank(threshold) {
                pushed(
                    pre.outbox@,
                    post.outbox@,
                    MsgVal::Notification(
                        NoteVal {
                            jsonrpc: version_seq(),
                            method: ("notifications/message")@,
                            params: Some(
                                JsonVal::Obj(
                                    seq![
                                        (("level")@, JsonVal::Str(level_label(level))),
                                        (("logger")@, JsonVal::Str(("Mcp Server 1.0")@)),
                                        (("data")@, JsonVal::Str(msg)),
                                    ],
                                ),
                            ),
                        },
                    ),
                )
            } else {
                post.outbox@ == pre.outbox@
            }
        },
    }
}

/// The log filter law: with a live session whose stored level reads as
/// `threshold`, `send_log` emits its record exactly when the record's
/// level is at least the threshold; with no live session nothing goes out.
pub proof fn lemma_log_filter(
    pre: Server,
    post: Server,
    level: LoggingLevel,
    msg: Seq<char>,
    now: i64,
)
    requires
        spec_send_log(pre, post, level, msg, now),
    ensures
        match spec_get_session(pre.sessions.store@, pre.session_id@, now) {
            Some(it) => {
                let threshold = match assoc_lookup(it.items@, ("debug_level")@) {
                    Some(v) => spec_level_from(v@),
                    None => LoggingLevel::Info,
                };
                (post.outbox@.len() > pre.outbox@.len()) == (level_rank(level) >= level_rank(
                    threshold,
                ))
            },
            None => post.outbox@.len() == pre.outbox@.len(),
        },
{
}

/// The cancellation-safety law: every message the job poll appends
/// answers a request that still held a job, so once a job is gone — by
/// `notifications/cancelled` or by finishing — no polled message carries
/// its id.
pub proof fn lemma_cancellation_safety(
    jobs: Seq<(RequestId, Option<ChainContext>)>,
    pre_outbox: Seq<JSONRPCMessage>,
    post_outbox: Seq<JSONRPCMessage>,
    cancelled: IdVal,
)
    requires
        !has_job(jobs, cancelled),
        post_outbox.len() >= pre_outbox.len(),
        forall|k: int|
            pre_outbox.len() <= k < post_outbox.len() ==> match (#[trigger] post_outbox[k])@ {
                MsgVal::Response(resp) => has_job(jobs, resp.id),
                _ => false,
            },
    ensures
        forall|k: int|
            pre_outbox.len() <= k < post_outbox.len() ==> match (#[trigger] post_outbox[k])@ {
                MsgVal::Response(resp) => resp.id != cancelled,
                _ => false,
            },
{
}

/// The lifecycle law: a request whose method is not exempt, delivered
/// while the server is not running, is answered with exactly one
/// invalid-request error and reaches no handler: the state, the jobs and
/// the sessions stay as they were.
pub proof fn lemma_lifecycle_law(pre: Server, post: Server, req: crate::rpc::ReqVal)
    requires
        pre.state != ServerState::Running,
        !exempt_method(req.method),
        pushed(pre.outbox@, post.outbox@, wrong_state_error(req.id)),
    ensures
        post.outbox@.len() == pre.outbox@.len() + 1,
        post.outbox@.last()@ matches MsgVal::Error(e) && e.error.code == INVALID_REQUEST && e.id
            == req.id,
{
}

impl Server {
    /// The engine's invariant: session ids and job ids are unique.
    pub open spec fn wf(self) -> bool {
        self.sessions.wf() && self.jobs.wf()
    }

    /// A fresh server: uninitialized, silent, with no jobs, sessions, or
    /// registered handlers.
    pub fn new(config: ServerConfig) -> (r: Server)
        ensures
            r.wf(),
            r.config == config,
            r.state == ServerState::Uninitialized,
            r.registered_tools@ =~= Seq::<String>::empty(),
            r.next_request_id == 0,
            r.current_request_id is None,
            r.cached@ =~= Seq::<JSONRPCMessage>::empty(),
            r.jobs.jobs@ =~= Seq::<(RequestId, Option<ChainContext>)>::empty(),
            r.sessions.store@ =~= Seq::<(String, crate::session::SessionItem)>::empty(),
            r.session_id@ == ("local")@,
            r.outbox@ =~= Seq::<JSONRPCMessage>::empty(),
            !r.stop_requested,
            !r.is_initialized,
    {
        Server {
            config,
            state: ServerState::Uninitialized,
            registered_tools: Vec::new(),
            next_request_id: 0,
            current_request_id: None,
            cached: Vec::new(),
            jobs: JobManager::new(),
            sessions: SessionStore::new(),
            session_id: String::from_str("local"),
            outbox: Vec::new(),
            stop_requested: false,
            is_initialized: false,
        }
    }

    /// Sets the receive timeout, in milliseconds.
    pub fn with_timeout(&mut self, timeout_ms: u64)
        ensures
            *final(self) == (Server {
                config: ServerConfig {
                    timeout_ms: Some(timeout_ms),
                    ..old(self).config
                },
                ..*old(self)
            }),
    {
        self.config.timeout_ms = Some(timeout_ms);
    }

    /// Latches the started flag: a server starts once.
    pub fn start(&mut self) -> (r: Result<(), MCPError>)
        ensures
            final(self).is_initialized,
            *final(self) == (Server { is_initialized: true, ..*old(self) }),
            r is Ok <==> !old(self).is_initialized,
    {
        if self.is_initialized {
            proof {
                reveal_strlit("Server already initialized");
            }
            return Err(MCPError::Transport(String::from_str("Server already initialized")));
        }
        self.is_initialized = true;
        Ok(())
    }

    /// Asks the serve loop to stop.
    pub fn stop(&mut self) -> (r: Result<(), MCPError>)
        ensures
            *final(self) == (Server { stop_requested: true, ..*old(self) }),
            r is Ok,
    {
        self.stop_requested = true;
        Ok(())
    }

    /// Registers a handler name for a configured tool: the embedder runs
    /// the handler itself when a job starts. Fails exactly when the
    /// configuration offers no tool under the name.
    pub fn register_tool_handler(&mut self, tool_name: String) -> (r: Result<(), MCPError>)
        ensures
            r is Ok <==> config_has_tool(old(self).config.tools@, tool_name@),
            r is Ok ==> final(self).registered_tools@ == old(self).registered_tools@.push(
                tool_name,
            ) && *final(self) == (Server {
                registered_tools: final(self).registered_tools,
                ..*old(self)
            }),
            r is Err ==> *final(self) == *old(self),
    {
        let mut i: usize = 0;
        let mut found = false;
        while i < self.config.tools.len()
            invariant
                i <= self.config.tools@.len(),
                found == exists|j: int|
                    0 <= j < i && (#[trigger] self.config.tools@[j].name)@ == tool_name@,
            decreases self.config.tools@.len() - i,
        {
            if self.config.tools[i].name.eq(&tool_name) {
                found = true;
            }
            i = i + 1;
        }
        if !found {
            proof {
                reveal_strlit("Tool not found in server config");
            }
            return Err(MCPError::Transport(String::from_str("Tool not found in server config")));
        }
        self.registered_tools.push(tool_name);
        Ok(())
    }

    /// Whether a handler is registered under `name`.
    fn handler_registered(&self, name: &String) -> (r: bool)
        ensures
            r == is_registered(self.registered_tools@, name@),
    {
        let mut i: usize = 0;
        while i < self.registered_tools.len()
            invariant
                i <= self.registered_tools@.len(),
                forall|j: int| 0 <= j < i ==> (#[trigger] self.registered_tools@[j])@ != name@,
            decreases self.registered_tools@.len() - i,
        {
            if self.registered_tools[i].eq(name) {
                return true;
            }
            i = i + 1;
        }
        false
    }
}

impl Server {
    /// The next request id for a server-initiated request: strictly
    /// increasing.
    fn next_request_id(&mut self) -> (r: RequestId)
        requires
            old(self).next_request_id < i64::MAX,
        ensures
            final(self).next_request_id == old(self).next_request_id + 1,
            r@ == IdVal::N((old(self).next_request_id + 1) as i64),
            final(self).current_request_id == Some((old(self).next_request_id + 1) as i64),
            *final(self) == (Server {
                next_request_id: final(self).next_request_id,
                current_request_id: final(self).current_request_id,
                ..*old(self)
            }),
    {
        self.next_request_id = self.next_request_id + 1;
        let id = self.next_request_id;
        self.current_request_id = Some(id);
        RequestId::Number(id)
    }

    /// Builds a roots listing request for the client, under a fresh id.
    /// The embedder sends it and waits on `try_recieve` for the answer.
    pub fn make_list_roots_request(&mut self) -> (r: crate::rpc::JSONRPCRequest)
        requires
            old(self).next_request_id < i64::MAX,
        ensures
            r@ == (crate::rpc::ReqVal {
                jsonrpc: version_seq(),
                id: IdVal::N((old(self).next_request_id + 1) as i64),
                method: ("roots/list")@,
                params: None,
            }),
            final(self).next_request_id == old(self).next_request_id + 1,
            *final(self) == (Server {
                next_request_id: final(self).next_request_id,
                current_request_id: Some((old(self).next_request_id + 1) as i64),
                ..*old(self)
            }),
    {
        let id = self.next_request_id();
        let req = crate::schema::ListRootsRequest::new();
        crate::builders::build_server_request(id, crate::schema::ServerRequest::ListRootsRequest(req))
    }

    /// The first cached response, if one arrived.
    pub fn try_recieve(&mut self) -> (r: Result<JSONRPCMessage, MCPError>)
        ensures
            match r {
                Ok(m) => old(self).cached@.len() > 0 && m == old(self).cached@[0] && final(self).cached@ == old(self).cached@.drop_first(),
                Err(_) => old(self).cached@.len() == 0 && *final(self) == *old(self),
            },
            *final(self) == (Server { cached: final(self).cached, ..*old(self) }),
    {
        if self.cached.len() == 0 {
            proof {
                reveal_strlit("No cached message");
            }
            return Err(MCPError::Transport(String::from_str("No cached message")));
        }
        let m = self.cached.remove(0);
        proof {
            assert(self.cached@ =~= old(self).cached@.drop_first());
        }
        Ok(m)
    }

    /// Sets the session id the current dispatch runs under.
    pub fn set_session_id(&mut self, session_id: String)
        ensures
            *final(self) == (Server { session_id, ..*old(self) }),
    {
        self.session_id = session_id;
    }

    /// The session id the current dispatch runs under.
    pub fn get_current_session(&self) -> (r: String)
        ensures
            r@ == self.session_id@,
    {
        self.session_id.clone()
    }

    /// The session the current dispatch belongs to, read at this instant:
    /// at whatever instant the clock gave, the answer and the store agree
    /// with a read at that instant.
    pub fn current_session(&mut self) -> (r: Option<crate::session::SessionItem>)
        requires
            old(self).wf(),
        ensures
            final(self).wf(),
            match (r, assoc_lookup(old(self).sessions.store@, old(self).session_id@)) {
                (Some(a), Some(b)) => a.expires_at == b.expires_at,
                (Some(_), None) => false,
                (None, _) => true,
            },
            exists|now: i64|
                now >= 0 && (r is Some <==> #[trigger] spec_get_session(
                    old(self).sessions.store@,
                    old(self).session_id@,
                    now,
                ) is Some) && assoc_lookup(final(self).sessions.store@, old(self).session_id@)
                    == spec_get_session(
                    old(self).sessions.store@,
                    old(self).session_id@,
                    now,
                ),
            *final(self) == (Server { sessions: final(self).sessions, ..*old(self) }),
    {
        let sid = self.session_id.clone();
        self.sessions.get_session(&sid)
    }

    /// Emits a log record to the client at this instant, exactly when the
    /// record's level reaches the current session's stored level; with no
    /// live session nothing is emitted.
    pub fn send_log_at(&mut self, level: LoggingLevel, message: &str, now: i64)
        requires
            old(self).wf(),
        ensures
            final(self).wf(),
            spec_send_log(*old(self), *final(self), level, message@, now),
    {
        proof {
            reveal_strlit("debug_level");
        }
        let sid = self.session_id.clone();
        let session = self.sessions.get_session_at(sid.as_str(), now);
        match session {
            None => {},
            Some(it) => {
                let threshold = match it.get_item("debug_level") {
                    Some(v) => LoggingLevel::from(v.as_str()),
                    None => LoggingLevel::Info,
                };
                if level.at_least(&threshold) {
                    proof {
                        reveal_strlit("Mcp Server 1.0");
                        reveal_strlit("notifications/message");
                    }
                    let params = LoggingMessageParams {
                        level,
                        logger: Some(String::from_str("Mcp Server 1.0")),
                        data: JsonValue::Str(message.to_owned()),
                    };
                    let note = LoggingMessageNotification::new(params);
                    let wire = crate::builders::build_server_notification(
                        ServerNotification::LoggingMessageNotification(note),
                    );
                    proof {
                        assert(wire@.params->Some_0->Obj_0 =~= seq![
                            (("level")@, JsonVal::Str(level_label(level))),
                            (("logger")@, JsonVal::Str(("Mcp Server 1.0")@)),
                            (("data")@, JsonVal::Str(message@)),
                        ]);
                    }
                    self.outbox.push(JSONRPCMessage::Notification(wire));
                    proof {
                        assert(self.outbox@.take(old(self).outbox@.len() as int) =~= old(self).outbox@);
                    }
                }
            },
        }
    }

    /// Emits a log record at the current instant.
    pub fn send_log(&mut self, level: LoggingLevel, message: &str)
        requires
            old(self).wf(),
        ensures
            final(self).wf(),
            exists|now: i64| spec_send_log(*old(self), *final(self), level, message@, now),
    {
        let now = now_millis();
        self.send_log_at(level, message, now);
    }

    /// A log record at the `info` level.
    pub fn info(&mut self, message: &str)
        requires
            old(self).wf(),
        ensures
            final(self).wf(),
            exists|now: i64|
                spec_send_log(*old(self), *final(self), LoggingLevel::Info, message@, now),
    {
        self.send_log(LoggingLevel::Info, message);
    }

    /// A log record at the `debug` level.
    pub fn debug(&mut self, message: &str)
        requires
            old(self).wf(),
        ensures
            final(self).wf(),
            exists|now: i64|
                spec_send_log(*old(self), *final(self), LoggingLevel::Debug, message@, now),
    {
        self.send_log(LoggingLevel::Debug, message);
    }

    /// A log record at the `error` level.
    pub fn error(&mut self, message: &str)
        requires
            old(self).wf(),
        ensures
            final(self).wf(),
            exists|now: i64|
                spec_send_log(*old(self), *final(self), LoggingLevel::Error, message@, now),
    {
        self.send_log(LoggingLevel::Error, message);
    }

    /// A log record at the `warning` level.
    pub fn warning(&mut self, message: &str)
        requires
            old(self).wf(),
        ensures
            final(self).wf(),
            exists|now: i64|
                spec_send_log(*old(self), *final(self), LoggingLevel::Warning, message@, now),
    {
        self.send_log(LoggingLevel::Warning, message);
    }

    /// A log record at the `warning` level, as the notice level maps there.
    pub fn notice(&mut self, message: &str)
        requires
            old(self).wf(),
        ensures
            final(self).wf(),
            exists|now: i64|
                spec_send_log(*old(self), *final(self), LoggingLevel::Warning, message@, now),
    {
        self.send_log(LoggingLevel::Warning, message);
    }

    /// A log record at the `critical` level.
    pub fn critical(&mut self, message: &str)
        requires
            old(self).wf(),
        ensures
            final(self).wf(),
            exists|now: i64|
                spec_send_log(*old(self), *final(self), LoggingLevel::Critical, message@, now),
    {
        self.send_log(LoggingLevel::Critical, message);
    }

    /// A log record at the `emergency` level.
    pub fn emergency(&mut self, message: &str)
        requires
            old(self).wf(),
        ensures
            final(self).wf(),
            exists|now: i64|
                spec_send_log(*old(self), *final(self), LoggingLevel::Emergency, message@, now),
    {
        self.send_log(LoggingLevel::Emergency, message);
    }

    /// A log record at the `alert` level.
    pub fn alert(&mut self, message: &str)
        requires
            old(self).wf(),
        ensures
            final(self).wf(),
            exists|now: i64|
                spec_send_log(*old(self), *final(self), LoggingLevel::Alert, message@, now),
    {
        self.send_log(LoggingLevel::Alert, message);
    }
}

impl Server {
    /// Dispatches one inbound message, as the method table prescribes:
    /// every reply joins the outbox in order; `tools/call` replies nothing
    /// and instead hands back the job to start. A request other than
    /// `initialize` or `ping` delivered while the server is not running is
    /// answered with exactly one invalid-request error and reaches no
    /// handler. An unknown notification changes nothing.
    #[verifier::rlimit(100)]
    pub fn handle_message(&mut self, ctx: Option<ChainContext>, message: JSONRPCMessage) -> (r:
        Result<Vec<JobStart>, MCPError>)
        requires
            old(self).wf(),
        ensures
            final(self).wf(),
            final(self).config == old(self).config,
            final(self).registered_tools == old(self).registered_tools,
            final(self).is_initialized == old(self).is_initialized,
            final(self).next_request_id == old(self).next_request_id,
            final(self).current_request_id == old(self).current_request_id,
            match message@ {
                MsgVal::Request(req) => {
                    &&& final(self).session_id@ == dispatch_sid(ctx)
                    &&& final(self).cached == old(self).cached
                    &&& if old(self).state != ServerState::Running && !exempt_method(req.method) {
                        &&& pushed(old(self).outbox@, final(self).outbox@, wrong_state_error(req.id))
                        &&& final(self).state == old(self).state
                        &&& final(self).jobs == old(self).jobs
                        &&& final(self).sessions == old(self).sessions
                        &&& final(self).stop_requested == old(self).stop_requested
                        &&& r is Err
                    } else if req.method == ("initialize")@ {
                        &&& final(self).state == ServerState::Initialized
                        &&& pushed(
                            old(self).outbox@,
                            final(self).outbox@,
                            MsgVal::Response(
                                RespVal {
                                    jsonrpc: version_seq(),
                                    id: req.id,
                                    result: spec_initialize_result(old(self).config),
                                },
                            ),
                        )
                        &&& if ctx_has_sid(ctx) {
                            &&& (match (
                                assoc_lookup(final(self).sessions.store@, dispatch_sid(ctx)),
                                assoc_lookup(old(self).sessions.store@, dispatch_sid(ctx)),
                            ) {
                                (Some(a), Some(b)) => a == b,
                                (Some(a), None) => a.items@.len() == 0,
                                _ => false,
                            })
                            &&& (forall|other: Seq<char>|
                                other != dispatch_sid(ctx) ==> #[trigger] assoc_lookup(
                                    final(self).sessions.store@,
                                    other,
                                ) == assoc_lookup(old(self).sessions.store@, other))
                        } else {
                            final(self).sessions == old(self).sessions
                        }
                        &&& final(self).jobs == old(self).jobs
                        &&& final(self).stop_requested == old(self).stop_requested
                        &&& r is Ok
                    } else if req.method == ("ping")@ {
                        &&& (exists|ts: Seq<char>|
                            timestamp_text(ts) && pushed(
                                old(self).outbox@,
                                final(self).outbox@,
                                MsgVal::Response(
                                    RespVal {
                                        jsonrpc: version_seq(),
                                        id: req.id,
                                        result: JsonVal::Obj(
                                            seq![(("timestamp")@, JsonVal::Str(ts))],
                                        ),
                                    },
                                ),
                            ))
                        &&& final(self).state == old(self).state
                        &&& final(self).jobs == old(self).jobs
                        &&& final(self).sessions == old(self).sessions
                        &&& final(self).stop_requested == old(self).stop_requested
                        &&& r is Ok
                    } else if req.method == ("tools/list")@ {
                        &&& pushed(
                            old(self).outbox@,
                            final(self).outbox@,
                            MsgVal::Response(
                                RespVal {
                                    jsonrpc: version_seq(),
                                    id: req.id,
                                    result: list_tools_result_jv(
                                        ListToolsResult {
                                            next_cursor: None,
                                            tools: old(self).config.tools,
                                        },
                                    ),
                                },
                            ),
                        )
                        &&& final(self).state == old(self).state
                        &&& final(self).jobs == old(self).jobs
                        &&& final(self).sessions == old(self).sessions
                        &&& final(self).stop_requested == old(self).stop_requested
                        &&& r is Ok
                    } else if req.method == ("tools/call")@ {
                        &&& final(self).state == old(self).state
                        &&& final(self).sessions == old(self).sessions
                        &&& final(self).stop_requested == old(self).stop_requested
                        &&& match req.params {
                            Some(pv) => match str_member(pv, ("name")@) {
                                Some(name) => if is_registered(
                                    old(self).registered_tools@,
                                    name,
                                ) {
                                    &&& has_job(final(self).jobs.jobs@, req.id)
                                    &&& (forall|other: IdVal|
                                        other != req.id ==> #[trigger] has_job(
                                            final(self).jobs.jobs@,
                                            other,
                                        ) == has_job(old(self).jobs.jobs@, other))
                                    &&& final(self).outbox@ == old(self).outbox@
                                    &&& (match r {
                                        Ok(js) => js@.len() == 1 && js@[0].id@ == req.id
                                            && js@[0].tool@ == name && js@[0].arguments@ == (
                                        match crate::wire::obj_member(pv, ("arguments")@) {
                                            Some(ms) => JsonVal::Obj(ms),
                                            None => JsonVal::Null,
                                        }),
                                        Err(_) => false,
                                    })
                                } else {
                                    &&& pushed(
                                        old(self).outbox@,
                                        final(self).outbox@,
                                        MsgVal::Error(
                                            ErrVal {
                                                jsonrpc: version_seq(),
                                                id: req.id,
                                                error: ErrObjVal {
                                                    code: -32000i32,
                                                    message: (
                                                    "Tool execution failed: no handler is registered for the tool")@,
                                                    data: None,
                                                },
                                            },
                                        ),
                                    )
                                    &&& final(self).jobs == old(self).jobs
                                    &&& (match r {
                                        Ok(js) => js@.len() == 0,
                                        Err(_) => false,
                                    })
                                },
                                None => {
                                    &&& pushed(
                                        old(self).outbox@,
                                        final(self).outbox@,
                                        MsgVal::Error(
                                            ErrVal {
                                                jsonrpc: version_seq(),
                                                id: req.id,
                                                error: ErrObjVal {
                                                    code: INVALID_PARAMS,
                                                    message: ("Failed to call tool")@,
                                                    data: None,
                                                },
                                            },
                                        ),
                                    )
                                    &&& final(self).jobs == old(self).jobs
                                    &&& r is Err
                                },
                            },
                            None => {
                                &&& pushed(
                                    old(self).outbox@,
                                    final(self).outbox@,
                                    MsgVal::Error(
                                        ErrVal {
                                            jsonrpc: version_seq(),
                                            id: req.id,
                                            error: ErrObjVal {
                                                code: INVALID_PARAMS,
                                                message: ("Failed to call tool")@,
                                                data: None,
                                            },
                                        },
                                    ),
                                )
                                &&& final(self).jobs == old(self).jobs
                                &&& r is Err
                            },
                        }
                    } else if req.method == ("shutdown")@ {
                        &&& pushed(
                            old(self).outbox@,
                            final(self).outbox@,
                            MsgVal::Response(
                                RespVal {
                                    jsonrpc: version_seq(),
                                    id: req.id,
                                    result: JsonVal::Obj(Seq::empty()),
                                },
                            ),
                        )
                        &&& final(self).stop_requested
                        &&& final(self).state == ServerState::Shutdown
                        &&& final(self).jobs == old(self).jobs
                        &&& final(self).sessions == old(self).sessions
                        &&& r is Ok
                    } else if req.method == ("logging/setLevel")@ {
                        &&& final(self).state == old(self).state
                        &&& final(self).jobs == old(self).jobs
                        &&& final(self).stop_requested == old(self).stop_requested
                        &&& match req.params {
                            Some(pv) => match str_member(pv, ("level")@) {
                                Some(lvlname) => {
                                    &&& pushed(
                                        old(self).outbox@,
                                        final(self).outbox@,
                                        MsgVal::Response(
                                            RespVal {
                                                jsonrpc: version_seq(),
                                                id: req.id,
                                                result: JsonVal::Obj(Seq::empty()),
                                            },
                                        ),
                                    )
                                    &&& r is Ok
                                    &&& (match (
                                        assoc_lookup(
                                            final(self).sessions.store@,
                                            dispatch_sid(ctx),
                                        ),
                                        assoc_lookup(
                                            old(self).sessions.store@,
                                            dispatch_sid(ctx),
                                        ),
                                    ) {
                                        (Some(a), Some(b)) => match assoc_lookup(
                                            a.items@,
                                            ("debug_level")@,
                                        ) {
                                            Some(v) => v@ == level_label(
                                                spec_level_from(lvlname),
                                            ),
                                            None => false,
                                        },
                                        (None, None) => true,
                                        _ => false,
                                    })
                                },
                                None => pushed(
                                    old(self).outbox@,
                                    final(self).outbox@,
                                    set_level_params_error(req.id),
                                ) && r is Err && final(self).sessions == old(self).sessions,
                            },
                            None => pushed(
                                old(self).outbox@,
                                final(self).outbox@,
                                set_level_params_error(req.id),
                            ) && r is Err && final(self).sessions == old(self).sessions,
                        }
                    } else {
                        &&& pushed(
                            old(self).outbox@,
                            final(self).outbox@,
                            MsgVal::Error(
                                ErrVal {
                                    jsonrpc: version_seq(),
                                    id: req.id,
                                    error: ErrObjVal {
                                        code: INVALID_REQUEST,
                                        message: ("Unsupported method")@,
                                        data: None,
                                    },
                                },
                            ),
                        )
                        &&& final(self).state == old(self).state
                        &&& final(self).jobs == old(self).jobs
                        &&& final(self).sessions == old(self).sessions
                        &&& final(self).stop_requested == old(self).stop_requested
                        &&& r is Ok
                    }
                },
                MsgVal::Notification(note) => {
                    &&& final(self).session_id == old(self).session_id
                    &&& final(self).outbox@ == old(self).outbox@
                    &&& final(self).sessions == old(self).sessions
                    &&& final(self).cached == old(self).cached
                    &&& final(self).stop_requested == old(self).stop_requested
                    &&& r is Ok
                    &&& if note.method == ("notifications/cancelled")@ {
                        &&& final(self).state == old(self).state
                        &&& match note.params {
                            Some(pv) => match crate::wire::id_member(pv, ("requestId")@) {
                                Some(cid) => !has_job(final(self).jobs.jobs@, cid) && (forall|
                                    other: IdVal,
                                |
                                    other != cid ==> #[trigger] has_job(
                                        final(self).jobs.jobs@,
                                        other,
                                    ) == has_job(old(self).jobs.jobs@, other)),
                                None => final(self).jobs == old(self).jobs,
                            },
                            None => final(self).jobs == old(self).jobs,
                        }
                    } else if note.method == ("notifications/initialized")@ {
                        &&& final(self).state == (if old(self).state
                            == ServerState::Initialized {
                            ServerState::Running
                        } else {
                            old(self).state
                        })
                        &&& final(self).jobs == old(self).jobs
                    } else {
                        &&& final(self).state == old(self).state
                        &&& final(self).jobs == old(self).jobs
                    }
                },
                MsgVal::Response(_) => final(self).cached@ == old(self).cached@.push(message)
                    && final(self).outbox@ == old(self).outbox@ && final(self).state == old(self).state && final(self).jobs == old(self).jobs && final(self).sessions == old(self).sessions && final(self).session_id == old(self).session_id && final(self).stop_requested == old(self).stop_requested && r is Ok,
                MsgVal::Error(_) => final(self).cached@ == old(self).cached@.push(message)
                    && final(self).outbox@ == old(self).outbox@ && final(self).state == old(self).state && final(self).jobs == old(self).jobs && final(self).sessions == old(self).sessions && final(self).session_id == old(self).session_id && final(self).stop_requested == old(self).stop_requested && r is Ok,
            },
    {
        proof {
            reveal_strlit("initialize");
            reveal_strlit("ping");
            reveal_strlit("tools/list");
            reveal_strlit("tools/call");
            reveal_strlit("shutdown");
            reveal_strlit("logging/setLevel");
            reveal_strlit("notifications/cancelled");
            reveal_strlit("notifications/initialized");
            reveal_strlit("sessionId");
            reveal_strlit("local");
            assert(("initialize")@ != ("tools/list")@) by {
                assert(("initialize")@[0] == 'i' && ("tools/list")@[0] == 't');
            }
            assert(("initialize")@ != ("tools/call")@) by {
                assert(("initialize")@[0] == 'i' && ("tools/call")@[0] == 't');
            }
            assert(("tools/list")@ != ("tools/call")@) by {
                assert(("tools/list")@[6] == 'l' && ("tools/call")@[6] == 'c');
            }
        }
        match message {
            JSONRPCMessage::Request(req) => {
                let sid: String = match &ctx {
                    Some(c) => match c.get("sessionId") {
                        Some(s) => s,
                        None => String::from_str("local"),
                    },
                    None => String::from_str("local"),
                };
                self.session_id = sid;
                let exempt = crate::wire::str_eq_text(req.method.as_str(), "initialize")
                    || crate::wire::str_eq_text(req.method.as_str(), "ping");
                if self.state != ServerState::Running && !exempt {
                    proof {
                        reveal_strlit(
                            "Cannot handle the request in the current state. Please initialize the session first",
                        );
                    }
                    let err = JSONRPCError::new_with_details(
                        req.id,
                        INVALID_REQUEST,
                        String::from_str(
                            "Cannot handle the request in the current state. Please initialize the session first",
                        ),
                        None,
                    );
                    self.outbox.push(JSONRPCMessage::Error(err));
                    proof {
                        assert(self.outbox@.take(old(self).outbox@.len() as int) =~= old(self).outbox@);
                        reveal_strlit("Server not running");
                    }
                    return Err(
                        MCPError::Protocol(String::from_str("Server not running")),
                    );
                }
                if crate::wire::str_eq_text(req.method.as_str(), "initialize") {
                    self.handle_initialize(req.id);
                    let has_sid = match &ctx {
                        Some(c) => c.get("sessionId").is_some(),
                        None => false,
                    };
                    if has_sid {
                        let sid2 = self.session_id.clone();
                        if !self.sessions.has_session(sid2.as_str()) {
                            self.sessions.create_session(sid2, 1800);
                        }
                    }
                    return Ok(Vec::new());
                }
                if crate::wire::str_eq_text(req.method.as_str(), "ping") {
                    self.handle_ping(req.id);
                    return Ok(Vec::new());
                }
                if crate::wire::str_eq_text(req.method.as_str(), "tools/list") {
                    self.handle_list_tools(req.id);
                    return Ok(Vec::new());
                }
                if crate::wire::str_eq_text(req.method.as_str(), "tools/call") {
                    return self.handle_tool_call(ctx, req.id, req.params);
                }
                if crate::wire::str_eq_text(req.method.as_str(), "shutdown") {
                    self.handle_shutdown(req.id);
                    self.state = ServerState::Shutdown;
                    self.stop_requested = true;
                    return Ok(Vec::new());
                }
                if crate::wire::str_eq_text(req.method.as_str(), "logging/setLevel") {
                    return self.handle_set_level(req.id, req.params);
                }
                proof {
                    reveal_strlit("Unsupported method");
                }
                let err = JSONRPCError::new_with_details(
                    req.id,
                    INVALID_REQUEST,
                    String::from_str("Unsupported method"),
                    None,
                );
                self.outbox.push(JSONRPCMessage::Error(err));
                proof {
                    assert(self.outbox@.take(old(self).outbox@.len() as int) =~= old(self).outbox@);
                }
                Ok(Vec::new())
            },
            JSONRPCMessage::Notification(note) => {
                if crate::wire::str_eq_text(note.method.as_str(), "notifications/cancelled") {
                    match &note.params {
                        Some(pv) => match CancelledParams::from_json(pv) {
                            Some(p) => {
                                let _ = self.jobs.cancel_job(&p.request_id);
                            },
                            None => {},
                        },
                        None => {},
                    }
                    return Ok(Vec::new());
                }
                if crate::wire::str_eq_text(note.method.as_str(), "notifications/initialized") {
                    if self.state == ServerState::Initialized {
                        self.state = ServerState::Running;
                    }
                    return Ok(Vec::new());
                }
                Ok(Vec::new())
            },
            JSONRPCMessage::Response(resp) => {
                self.cached.push(JSONRPCMessage::Response(resp));
                Ok(Vec::new())
            },
            JSONRPCMessage::Error(err) => {
                self.cached.push(JSONRPCMessage::Error(err));
                Ok(Vec::new())
            },
        }
    }

    /// Answers `initialize`: the server's identity and capabilities, and
    /// the move to the initialized state.
    fn handle_initialize(&mut self, id: RequestId)
        ensures
            final(self).state == ServerState::Initialized,
            pushed(
                old(self).outbox@,
                final(self).outbox@,
                MsgVal::Response(
                    RespVal {
                        jsonrpc: version_seq(),
                        id: id@,
                        result: spec_initialize_result(old(self).config),
                    },
                ),
            ),
            *final(self) == (Server {
                state: final(self).state,
                outbox: final(self).outbox,
                ..*old(self)
            }),
    {
        let capabilities = ServerCapabilities {
            experimental: None,
            logging: Some(JsonValue::Bool(false)),
            prompts: None,
            resources: None,
            tools: if self.config.tools.len() > 0 {
                Some(ToolsCapability { list_changed: Some(false) })
            } else {
                None
            },
        };
        let server_info = Implementation {
            name: self.config.name.clone(),
            version: self.config.version.clone(),
        };
        proof {
            reveal_strlit("2025-03-26");
        }
        let init_result = InitializeResult {
            protocol_version: String::from_str("2025-03-26"),
            capabilities,
            server_info,
            instructions: None,
        };
        let result = init_result.to_json();
        proof {
            assert(result@ =~~= spec_initialize_result(old(self).config));
        }
        let response = JSONRPCResponse::new(id, result);
        self.outbox.push(JSONRPCMessage::Response(response));
        self.state = ServerState::Initialized;
        proof {
            assert(self.outbox@.take(old(self).outbox@.len() as int) =~= old(self).outbox@);
        }
    }

    /// Answers `ping`: an empty result stamped with the current instant.
    fn handle_ping(&mut self, id: RequestId)
        ensures
            exists|ts: Seq<char>|
                timestamp_text(ts) && pushed(
                    old(self).outbox@,
                    final(self).outbox@,
                    MsgVal::Response(
                        RespVal {
                            jsonrpc: version_seq(),
                            id: id@,
                            result: JsonVal::Obj(seq![(("timestamp")@, JsonVal::Str(ts))]),
                        },
                    ),
                ),
            *final(self) == (Server { outbox: final(self).outbox, ..*old(self) }),
    {
        let timestamp = now_rfc3339();
        let ghost ts = timestamp@;
        proof {
            reveal_strlit("timestamp");
            assert(timestamp_text(ts));
        }
        let mut extra: Vec<(String, JsonValue)> = Vec::new();
        extra.push((String::from_str("timestamp"), JsonValue::Str(timestamp)));
        let result = EmptyResult { _meta: None, extra: Some(extra) };
        let jv = result.to_json();
        proof {
            assert(obj_view(result.extra->Some_0@) =~= seq![(("timestamp")@, JsonVal::Str(ts))]);
            assert(empty_result_jv(result)->Obj_0 =~= seq![(("timestamp")@, JsonVal::Str(ts))]);
            assert(jv@ == JsonVal::Obj(seq![(("timestamp")@, JsonVal::Str(ts))]));
        }
        let response = JSONRPCResponse::new(id, jv);
        self.outbox.push(JSONRPCMessage::Response(response));
        proof {
            assert(self.outbox@.take(old(self).outbox@.len() as int) =~= old(self).outbox@);
        }
    }

    /// Answers `tools/list`: every configured tool, with no cursor.
    fn handle_list_tools(&mut self, id: RequestId)
        ensures
            pushed(
                old(self).outbox@,
                final(self).outbox@,
                MsgVal::Response(
                    RespVal {
                        jsonrpc: version_seq(),
                        id: id@,
                        result: list_tools_result_jv(
                            ListToolsResult {
                                next_cursor: None,
                                tools: old(self).config.tools,
                            },
                        ),
                    },
                ),
            ),
            *final(self) == (Server { outbox: final(self).outbox, ..*old(self) }),
    {
        let tools = clone_tools(&self.config.tools);
        let listing = ListToolsResult { next_cursor: None, tools };
        let jv = listing.to_json();
        proof {
            assert(crate::wire::tools_jv(listing.tools@) =~= crate::wire::tools_jv(
                old(self).config.tools@,
            ));
            assert(jv@ =~~= list_tools_result_jv(
                ListToolsResult { next_cursor: None, tools: old(self).config.tools },
            ));
        }
        let response = JSONRPCResponse::new(id, jv);
        self.outbox.push(JSONRPCMessage::Response(response));
        proof {
            assert(self.outbox@.take(old(self).outbox@.len() as int) =~= old(self).outbox@);
        }
    }

    /// Answers `shutdown`: an empty result.
    fn handle_shutdown(&mut self, id: RequestId)
        ensures
            pushed(
                old(self).outbox@,
                final(self).outbox@,
                MsgVal::Response(
                    RespVal {
                        jsonrpc: version_seq(),
                        id: id@,
                        result: JsonVal::Obj(Seq::empty()),
                    },
                ),
            ),
            *final(self) == (Server { outbox: final(self).outbox, ..*old(self) }),
    {
        let empty: Vec<(String, JsonValue)> = Vec::new();
        proof {
            assert(obj_view(empty@) =~= Seq::<(Seq<char>, JsonVal)>::empty());
        }
        let response = JSONRPCResponse::new(id, JsonValue::Obj(empty));
        self.outbox.push(JSONRPCMessage::Response(response));
        proof {
            assert(self.outbox@.take(old(self).outbox@.len() as int) =~= old(self).outbox@);
        }
    }
}

/// An owned copy of a tool list, equal on the wire.
fn clone_tools(tools: &Vec<Tool>) -> (r: Vec<Tool>)
    ensures
        crate::wire::tools_jv(r@) == crate::wire::tools_jv(tools@),
{
    let mut r: Vec<Tool> = Vec::new();
    let mut i: usize = 0;
    while i < tools.len()
        invariant
            i <= tools@.len(),
            r@.len() == i,
            forall|k: int|
                0 <= k < i ==> crate::wire::tool_jv(#[trigger] r@[k]) == crate::wire::tool_jv(
                    tools@[k],
                ),
        decreases tools@.len() - i,
    {
        r.push(clone_tool(&tools[i]));
        i = i + 1;
    }
    proof {
        assert(crate::wire::tools_jv(r@) =~= crate::wire::tools_jv(tools@));
    }
    r
}

/// An owned copy of one tool, equal on the wire.
fn clone_tool(t: &Tool) -> (r: Tool)
    ensures
        crate::wire::tool_jv(r) == crate::wire::tool_jv(*t),
{
    let description = match &t.description {
        Some(d) => Some(d.clone()),
        None => None,
    };
    let properties = match &t.input_schema.properties {
        Some(p) => Some(crate::json::clone_members(p)),
        None => None,
    };
    let required = match &t.input_schema.required {
        Some(names) => {
            let mut out: Vec<String> = Vec::new();
            let mut i: usize = 0;
            while i < names.len()
                invariant
                    i <= names@.len(),
                    out@.len() == i,
                    forall|k: int| 0 <= k < i ==> (#[trigger] out@[k])@ == names@[k]@,
                decreases names@.len() - i,
            {
                out.push(names[i].clone());
                i = i + 1;
            }
            proof {
                assert(crate::wire::strings_jv(out@) =~= crate::wire::strings_jv(names@));
            }
            Some(out)
        },
        None => None,
    };
    let r = Tool {
        name: t.name.clone(),
        description,
        input_schema: ToolInputSchema {
            kind: t.input_schema.kind.clone(),
            properties,
            required,
        },
    };
    proof {
        assert(crate::wire::tool_jv(r) =~~= crate::wire::tool_jv(*t));
    }
    r
}

impl Server {
    /// Starts a tool invocation: parses the call, checks the handler, and
    /// hands back the job to start; no response is sent now — the job's
    /// events answer later, under this request's id.
    fn handle_tool_call(
        &mut self,
        ctx: Option<ChainContext>,
        id: RequestId,
        params: Option<JsonValue>,
    ) -> (r: Result<Vec<JobStart>, MCPError>)
        requires
            old(self).wf(),
        ensures
            final(self).wf(),
            final(self).state == old(self).state,
            *final(self) == (Server {
                jobs: final(self).jobs,
                outbox: final(self).outbox,
                ..*old(self)
            }),
            match params {
                Some(pv) => match str_member(pv@, ("name")@) {
                    Some(name) => if is_registered(old(self).registered_tools@, name) {
                        &&& has_job(final(self).jobs.jobs@, id@)
                        &&& (forall|other: IdVal|
                            other != id@ ==> #[trigger] has_job(final(self).jobs.jobs@, other)
                                == has_job(old(self).jobs.jobs@, other))
                        &&& final(self).outbox@ == old(self).outbox@
                        &&& (match r {
                            Ok(js) => js@.len() == 1 && js@[0].id@ == id@ && js@[0].tool@ == name
                                && js@[0].arguments@ == (match crate::wire::obj_member(
                                pv@,
                                ("arguments")@,
                            ) {
                                Some(ms) => JsonVal::Obj(ms),
                                None => JsonVal::Null,
                            }),
                            Err(_) => false,
                        })
                    } else {
                        &&& pushed(
                            old(self).outbox@,
                            final(self).outbox@,
                            MsgVal::Error(
                                ErrVal {
                                    jsonrpc: version_seq(),
                                    id: id@,
                                    error: ErrObjVal {
                                        code: -32000i32,
                                        message: (
                                        "Tool execution failed: no handler is registered for the tool")@,
                                        data: None,
                                    },
                                },
                            ),
                        )
                        &&& final(self).jobs == old(self).jobs
                        &&& (match r {
                            Ok(js) => js@.len() == 0,
                            Err(_) => false,
                        })
                    },
                    None => {
                        &&& pushed(
                            old(self).outbox@,
                            final(self).outbox@,
                            MsgVal::Error(
                                ErrVal {
                                    jsonrpc: version_seq(),
                                    id: id@,
                                    error: ErrObjVal {
                                        code: INVALID_PARAMS,
                                        message: ("Failed to call tool")@,
                                        data: None,
                                    },
                                },
                            ),
                        )
                        &&& final(self).jobs == old(self).jobs
                        &&& r is Err
                    },
                },
                None => {
                    &&& pushed(
                        old(self).outbox@,
                        final(self).outbox@,
                        MsgVal::Error(
                            ErrVal {
                                jsonrpc: version_seq(),
                                id: id@,
                                error: ErrObjVal {
                                    code: INVALID_PARAMS,
                                    message: ("Failed to call tool")@,
                                    data: None,
                                },
                            },
                        ),
                    )
                    &&& final(self).jobs == old(self).jobs
                    &&& r is Err
                },
            },
    {
        proof {
            reveal_strlit("Failed to call tool");
        }
        let parsed: Option<CallToolParams> = match &params {
            Some(pv) => CallToolParams::from_json(pv),
            None => None,
        };
        match parsed {
            None => {
                let err = JSONRPCError::new_with_details(
                    id,
                    INVALID_PARAMS,
                    String::from_str("Failed to call tool"),
                    None,
                );
                self.outbox.push(JSONRPCMessage::Error(err));
                proof {
                    assert(self.outbox@.take(old(self).outbox@.len() as int) =~= old(self).outbox@);
                }
                Err(MCPError::Protocol(String::from_str("Failed to call tool")))
            },
            Some(p) => {
                if self.handler_registered(&p.name) {
                    let args: JsonValue = match p.arguments {
                        Some(pairs) => JsonValue::Obj(pairs),
                        None => JsonValue::Null,
                    };
                    self.jobs.add_job(id.dup(), ctx);
                    let mut js: Vec<JobStart> = Vec::new();
                    js.push(JobStart { id, tool: p.name, arguments: args });
                    Ok(js)
                } else {
                    proof {
                        reveal_strlit(
                            "Tool execution failed: no handler is registered for the tool",
                        );
                    }
                    let err = JSONRPCError::new_with_details(
                        id,
                        -32000,
                        String::from_str(
                            "Tool execution failed: no handler is registered for the tool",
                        ),
                        None,
                    );
                    self.outbox.push(JSONRPCMessage::Error(err));
                    proof {
                        assert(self.outbox@.take(old(self).outbox@.len() as int) =~= old(self).outbox@);
                    }
                    Ok(Vec::new())
                }
            },
        }
    }

    /// Persists the requested level into the current session's state and
    /// answers with an empty result.
    fn handle_set_level(&mut self, id: RequestId, params: Option<JsonValue>) -> (r: Result<
        Vec<JobStart>,
        MCPError,
    >)
        requires
            old(self).wf(),
        ensures
            final(self).wf(),
            *final(self) == (Server {
                sessions: final(self).sessions,
                outbox: final(self).outbox,
                ..*old(self)
            }),
            match params {
                Some(pv) => match str_member(pv@, ("level")@) {
                    Some(lvlname) => {
                        &&& pushed(
                            old(self).outbox@,
                            final(self).outbox@,
                            MsgVal::Response(
                                RespVal {
                                    jsonrpc: version_seq(),
                                    id: id@,
                                    result: JsonVal::Obj(Seq::empty()),
                                },
                            ),
                        )
                        &&& r is Ok
                        &&& (match (
                            assoc_lookup(final(self).sessions.store@, old(self).session_id@),
                            assoc_lookup(old(self).sessions.store@, old(self).session_id@),
                        ) {
                            (Some(a), Some(b)) => match assoc_lookup(
                                a.items@,
                                ("debug_level")@,
                            ) {
                                Some(v) => v@ == level_label(spec_level_from(lvlname)),
                                None => false,
                            },
                            (None, None) => true,
                            _ => false,
                        })
                        &&& (forall|other: Seq<char>|
                            other != old(self).session_id@ ==> #[trigger] assoc_lookup(
                                final(self).sessions.store@,
                                other,
                            ) == assoc_lookup(old(self).sessions.store@, other))
                    },
                    None => pushed(
                        old(self).outbox@,
                        final(self).outbox@,
                        set_level_params_error(id@),
                    ) && r is Err && final(self).sessions == old(self).sessions,
                },
                None => pushed(
                    old(self).outbox@,
                    final(self).outbox@,
                    set_level_params_error(id@),
                ) && r is Err && final(self).sessions == old(self).sessions,
            },
    {
        let parsed: Option<SetLevelParams> = match &params {
            Some(pv) => SetLevelParams::from_json(pv),
            None => None,
        };
        match parsed {
            None => {
                proof {
                    reveal_strlit("Invalid set level parameters");
                }
                let err = JSONRPCError::new_with_details(
                    id,
                    INVALID_PARAMS,
                    String::from_str("Invalid set level parameters"),
                    None,
                );
                self.outbox.push(JSONRPCMessage::Error(err));
                proof {
                    assert(self.outbox@.take(old(self).outbox@.len() as int) =~= old(self).outbox@);
                }
                Err(MCPError::Protocol(String::from_str("Invalid set level parameters")))
            },
            Some(p) => {
                proof {
                    reveal_strlit("debug_level");
                }
                let sid = self.session_id.clone();
                self.sessions.set_session_value(
                    sid.as_str(),
                    String::from_str("debug_level"),
                    p.level.to_string(),
                );
                let empty: Vec<(String, JsonValue)> = Vec::new();
                proof {
                    assert(obj_view(empty@) =~= Seq::<(Seq<char>, JsonVal)>::empty());
                }
                let response = JSONRPCResponse::new(id, JsonValue::Obj(empty));
                self.outbox.push(JSONRPCMessage::Response(response));
                proof {
                    assert(self.outbox@.take(old(self).outbox@.len() as int) =~= old(self).outbox@);
                }
                Ok(Vec::new())
            },
        }
    }
}

/// The wire form of the resource a tool's embedded fragment carries,
/// re-rendered from the parse of the fragment's text.
pub open spec fn spec_embedded_resource_jv(v: JsonVal) -> JsonVal {
    JsonVal::Obj(
        seq![(("uri")@, JsonVal::Str(str_member(v, ("uri")@)->Some_0))] + (match str_member(
            v,
            ("mimeType")@,
        ) {
            Some(m) => seq![(("mimeType")@, JsonVal::Str(m))],
            None => Seq::empty(),
        }) + (if str_member(v, ("text")@) is Some {
            seq![(("text")@, JsonVal::Str(str_member(v, ("text")@)->Some_0))]
        } else {
            seq![(("blob")@, JsonVal::Str(str_member(v, ("blob")@)->Some_0))]
        }),
    )
}

/// The wire entry a data fragment renders to, if it renders: text, sound
/// and image fragments always do; an embedded fragment only when its text
/// is the JSON of resource contents.
pub open spec fn spec_fragment_entry(load_type: LoadType, text: Seq<char>) -> Option<JsonVal> {
    match load_type {
        LoadType::Text => Some(
            JsonVal::Obj(
                seq![
                    (("type")@, JsonVal::Str(("text")@)),
                    (("text")@, JsonVal::Str(text)),
                ],
            ),
        ),
        LoadType::Audio => Some(
            JsonVal::Obj(
                seq![
                    (("type")@, JsonVal::Str(("audio")@)),
                    (("data")@, JsonVal::Str(text)),
                    (("mimeType")@, JsonVal::Str(("audio/mpeg")@)),
                ],
            ),
        ),
        LoadType::Image => Some(
            JsonVal::Obj(
                seq![
                    (("type")@, JsonVal::Str(("image")@)),
                    (("data")@, JsonVal::Str(text)),
                    (("mimeType")@, JsonVal::Str(("image/png")@)),
                ],
            ),
        ),
        LoadType::Embedded => match crate::json::spec_parse_json(text) {
            Some(v) => if crate::wire::parses_resource(v) {
                Some(
                    JsonVal::Obj(
                        seq![
                            (("type")@, JsonVal::Str(("resource")@)),
                            (("resource")@, spec_embedded_resource_jv(v)),
                        ],
                    ),
                )
            } else {
                None
            },
            None => None,
        },
    }
}

/// The response a data fragment of a tool call becomes: a one-entry tool
/// result under the call's id, not an error.
pub open spec fn spec_fragment_response(id: IdVal, entry: JsonVal) -> MsgVal {
    MsgVal::Response(
        RespVal {
            jsonrpc: version_seq(),
            id,
            result: JsonVal::Obj(
                seq![
                    (("content")@, JsonVal::Arr(seq![entry])),
                    (("isError")@, JsonVal::Bool(false)),
                ],
            ),
        },
    )
}

impl Server {
    /// Packages one data fragment of a tool call as the response that goes
    /// out under the call's id. Text, audio and image fragments carry the
    /// fragment's text directly, with the fixed sound and image types; an
    /// embedded fragment must hold the JSON text of resource contents,
    /// which is parsed and re-rendered, and anything else fails.
    pub fn package_tool_event(&self, id: RequestId, load_type: LoadType, text: &str) -> (r: Result<
        JSONRPCMessage,
        MCPError,
    >)
        requires
            text@.len() < 0x1000_0000,
        ensures
            match r {
                Ok(m) => spec_fragment_entry(load_type, text@) matches Some(entry) && m@
                    == spec_fragment_response(id@, entry),
                Err(_) => spec_fragment_entry(load_type, text@) is None,
            },
    {
        proof {
            reveal_strlit("text");
            reveal_strlit("audio");
            reveal_strlit("image");
            reveal_strlit("resource");
            reveal_strlit("audio/mpeg");
            reveal_strlit("image/png");
        }
        let entry: ToolResultContent = match load_type {
            LoadType::Text => ToolResultContent::Text(
                TextContent {
                    kind: String::from_str("text"),
                    text: text.to_owned(),
                    annotations: None,
                },
            ),
            LoadType::Audio => ToolResultContent::Audio(
                AudioContent {
                    kind: String::from_str("audio"),
                    data: text.to_owned(),
                    mime_type: String::from_str("audio/mpeg"),
                    annotations: None,
                },
            ),
            LoadType::Image => ToolResultContent::Image(
                ImageContent {
                    kind: String::from_str("image"),
                    data: text.to_owned(),
                    mime_type: String::from_str("image/png"),
                    annotations: None,
                },
            ),
            LoadType::Embedded => {
                let parsed = match crate::json::parse_json_text(text) {
                    Some(v) => v,
                    None => {
                        proof {
                            reveal_strlit("the embedded fragment is not JSON");
                        }
                        return Err(
                            MCPError::Serialization(
                                String::from_str("the embedded fragment is not JSON"),
                            ),
                        );
                    },
                };
                let resource = match ResourceContents::from_json(&parsed) {
                    Some(rc) => rc,
                    None => {
                        proof {
                            reveal_strlit("the embedded fragment is not resource contents");
                        }
                        return Err(
                            MCPError::Serialization(
                                String::from_str(
                                    "the embedded fragment is not resource contents",
                                ),
                            ),
                        );
                    },
                };
                ToolResultContent::Resource(
                    EmbeddedResource {
                        kind: String::from_str("resource"),
                        resource,
                        annotations: None,
                    },
                )
            },
        };
        let mut content: Vec<ToolResultContent> = Vec::new();
        content.push(entry);
        let result = CallToolResult { content, is_error: Some(false) };
        let jv = result.to_json();
        proof {
            assert(crate::wire::contents_jv(result.content@) =~= seq![
                crate::wire::tool_result_content_jv(result.content@[0]),
            ]);
            match load_type {
                LoadType::Embedded => {
                    let v = crate::json::spec_parse_json(text@)->Some_0;
                    assert(crate::wire::tool_result_content_jv(result.content@[0])->Obj_0[1].1
                        =~~= spec_embedded_resource_jv(v));
                    assert(crate::wire::tool_result_content_jv(result.content@[0]) =~~= JsonVal::Obj(
                        seq![
                            (("type")@, JsonVal::Str(("resource")@)),
                            (("resource")@, spec_embedded_resource_jv(v)),
                        ],
                    ));
                },
                _ => {},
            }
            assert(call_tool_result_jv(result)->Obj_0 =~= seq![
                (
                    ("content")@,
                    JsonVal::Arr(seq![crate::wire::tool_result_content_jv(result.content@[0])]),
                ),
                (("isError")@, JsonVal::Bool(false)),
            ]);
            assert(jv@ == JsonVal::Obj(
                seq![
                    (
                        ("content")@,
                        JsonVal::Arr(
                            seq![crate::wire::tool_result_content_jv(result.content@[0])],
                        ),
                    ),
                    (("isError")@, JsonVal::Bool(false)),
                ],
            ));
        }
        let response = JSONRPCResponse::new(id, jv);
        Ok(JSONRPCMessage::Response(response))
    }

    /// Turns the events the running tasks produced into responses, in
    /// event order, as `spec_poll` folds them: a data fragment of a
    /// still-held job goes out under the job's id; a finished job is
    /// evicted; a fragment that does not render stops the poll with an
    /// error; and events for jobs no longer held produce nothing.
    pub fn poll_jobs(&mut self, events: &Vec<(RequestId, TaskEvent)>) -> (r: Result<
        (),
        MCPError,
    >)
        requires
            old(self).wf(),
            forall|k: int|
                0 <= k < events@.len() ==> (match (#[trigger] events@[k]).1 {
                    TaskEvent::Data(_, text) => text@.len() < 0x1000_0000,
                    _ => true,
                }),
        ensures
            final(self).wf(),
            ({
                let folded = spec_poll(old(self).jobs.jobs@, events@);
                &&& final(self).outbox@.len() == old(self).outbox@.len() + folded.0.len()
                &&& final(self).outbox@.take(old(self).outbox@.len() as int) == old(self).outbox@
                &&& (forall|k: int|
                    0 <= k < folded.0.len() ==> (#[trigger] final(self).outbox@[old(
                        self,
                    ).outbox@.len() + k])@ == folded.0[k])
                &&& final(self).jobs.jobs@ == folded.1
                &&& (r is Ok <==> folded.2)
            }),
            forall|k: int|
                old(self).outbox@.len() <= k < final(self).outbox@.len() ==> (match (
                #[trigger] final(self).outbox@[k])@ {
                    MsgVal::Response(resp) => has_job(old(self).jobs.jobs@, resp.id),
                    _ => false,
                }),
            forall|id: IdVal|
                #[trigger] has_job(final(self).jobs.jobs@, id) ==> has_job(
                    old(self).jobs.jobs@,
                    id,
                ),
            *final(self) == (Server {
                jobs: final(self).jobs,
                outbox: final(self).outbox,
                ..*old(self)
            }),
    {
        let r = self.poll_events(events, 0);
        proof {
            assert(events@.skip(0) =~= events@);
            let folded = spec_poll(old(self).jobs.jobs@, events@);
            lemma_spec_poll_ids(old(self).jobs.jobs@, events@);
            assert forall|k: int|
                old(self).outbox@.len() <= k < self.outbox@.len() implies (match (
            #[trigger] self.outbox@[k])@ {
                MsgVal::Response(resp) => has_job(old(self).jobs.jobs@, resp.id),
                _ => false,
            }) by {
                let k2 = k - old(self).outbox@.len() as int;
                assert(self.outbox@[old(self).outbox@.len() + k2]@ == folded.0[k2]);
                assert(self.outbox@[k] == self.outbox@[old(self).outbox@.len() + k2]);
            }
        }
        r
    }

    /// Folds the events from index `i` on, as `spec_poll` of the suffix
    /// prescribes.
    fn poll_events(&mut self, events: &Vec<(RequestId, TaskEvent)>, i: usize) -> (r: Result<
        (),
        MCPError,
    >)
        requires
            old(self).wf(),
            i <= events@.len(),
            forall|k: int|
                0 <= k < events@.len() ==> (match (#[trigger] events@[k]).1 {
                    TaskEvent::Data(_, text) => text@.len() < 0x1000_0000,
                    _ => true,
                }),
        ensures
            final(self).wf(),
            ({
                let folded = spec_poll(old(self).jobs.jobs@, events@.skip(i as int));
                &&& final(self).outbox@.len() == old(self).outbox@.len() + folded.0.len()
                &&& final(self).outbox@.take(old(self).outbox@.len() as int) == old(self).outbox@
                &&& (forall|k: int|
                    0 <= k < folded.0.len() ==> (#[trigger] final(self).outbox@[old(
                        self,
                    ).outbox@.len() + k])@ == folded.0[k])
                &&& final(self).jobs.jobs@ == folded.1
                &&& (r is Ok <==> folded.2)
            }),
            *final(self) == (Server {
                jobs: final(self).jobs,
                outbox: final(self).outbox,
                ..*old(self)
            }),
        decreases events@.len() - i,
    {
        if i >= events.len() {
            proof {
                assert(events@.skip(i as int) =~= Seq::<(RequestId, TaskEvent)>::empty());
                assert(self.outbox@.take(self.outbox@.len() as int) =~= self.outbox@);
            }
            return Ok(());
        }
        proof {
            assert(events@.skip(i as int)[0] == events@[i as int]);
            assert(events@.skip(i as int).drop_first() =~= events@.skip(i as int + 1));
        }
        let held = self.jobs.has(&events[i].0);
        if !held {
            return self.poll_events(events, i + 1);
        }
        match &events[i].1 {
            TaskEvent::Data(lt, text) => {
                let m = self.package_tool_event(events[i].0.dup(), *lt, text.as_str());
                match m {
                    Ok(msg) => {
                        let ghost mid = old(self).outbox@.len() as int;
                        let ghost mv = msg@;
                        self.outbox.push(msg);
                        let ghost pushed_box = self.outbox@;
                        let r2 = self.poll_events(events, i + 1);
                        proof {
                            let folded = spec_poll(
                                old(self).jobs.jobs@,
                                events@.skip(i as int),
                            );
                            let rest = spec_poll(
                                old(self).jobs.jobs@,
                                events@.skip(i as int + 1),
                            );
                            assert(folded.0 =~= seq![mv] + rest.0);
                            assert(self.outbox@.take(mid + 1) == pushed_box);
                            assert(self.outbox@.take(mid) =~= pushed_box.take(mid));
                            assert(pushed_box.take(mid) =~= old(self).outbox@);
                            assert forall|k: int|
                                0 <= k < folded.0.len() implies (#[trigger] self.outbox@[mid
                                + k])@ == folded.0[k] by {
                                if k == 0 {
                                    assert(self.outbox@[mid] == self.outbox@.take(mid + 1)[mid]);
                                    assert(pushed_box[mid] == msg);
                                } else {
                                    assert(self.outbox@[(mid + 1) + (k - 1)]@ == rest.0[k - 1]);
                                    assert(self.outbox@[mid + k] == self.outbox@[(mid + 1) + (k
                                        - 1)]);
                                }
                            }
                        }
                        r2
                    },
                    Err(e) => {
                        proof {
                            assert(self.outbox@.take(self.outbox@.len() as int)
                                =~= self.outbox@);
                        }
                        Err(e)
                    },
                }
            },
            TaskEvent::Done => {
                let _ = self.jobs.cancel_job(&events[i].0);
                self.poll_events(events, i + 1)
            },
            TaskEvent::Cancelled => {
                self.poll_events(events, i + 1)
            },
        }
    }
}

/// The fold of a run of task events over the held jobs: the responses that
/// go out in order, the jobs still held afterwards, and whether every
/// fragment rendered (a fragment that does not render cuts the run there).
pub open spec fn spec_poll(
    jobs: Seq<(RequestId, Option<ChainContext>)>,
    events: Seq<(RequestId, TaskEvent)>,
) -> (Seq<MsgVal>, Seq<(RequestId, Option<ChainContext>)>, bool)
    decreases events.len(),
{
    if events.len() == 0 {
        (Seq::empty(), jobs, true)
    } else if !has_job(jobs, events[0].0@) {
        spec_poll(jobs, events.drop_first())
    } else {
        match events[0].1 {
            TaskEvent::Data(lt, text) => match spec_fragment_entry(lt, text@) {
                Some(entry) => {
                    let rest = spec_poll(jobs, events.drop_first());
                    (
                        seq![spec_fragment_response(events[0].0@, entry)] + rest.0,
                        rest.1,
                        rest.2,
                    )
                },
                None => (Seq::empty(), jobs, false),
            },
            TaskEvent::Done => spec_poll(
                crate::jobman::remove_first_job(jobs, events[0].0@),
                events.drop_first(),
            ),
            TaskEvent::Cancelled => spec_poll(jobs, events.drop_first()),
        }
    }
}

/// Every response the fold emits answers a job held at the start, and
/// every job still held at the end was held at the start.
pub proof fn lemma_spec_poll_ids(
    jobs: Seq<(RequestId, Option<ChainContext>)>,
    events: Seq<(RequestId, TaskEvent)>,
)
    ensures
        forall|k: int|
            0 <= k < spec_poll(jobs, events).0.len() ==> (match #[trigger] spec_poll(
                jobs,
                events,
            ).0[k] {
                MsgVal::Response(resp) => has_job(jobs, resp.id),
                _ => false,
            }),
        forall|id: IdVal|
            #[trigger] has_job(spec_poll(jobs, events).1, id) ==> has_job(jobs, id),
    decreases events.len(),
{
    if events.len() > 0 {
        let folded = spec_poll(jobs, events);
        if !has_job(jobs, events[0].0@) {
            lemma_spec_poll_ids(jobs, events.drop_first());
        } else {
            match events[0].1 {
                TaskEvent::Data(lt, text) => match spec_fragment_entry(lt, text@) {
                    Some(entry) => {
                        lemma_spec_poll_ids(jobs, events.drop_first());
                        let rest = spec_poll(jobs, events.drop_first());
                        assert forall|k: int| 0 <= k < folded.0.len() implies (match
                            #[trigger] folded.0[k] {
                            MsgVal::Response(resp) => has_job(jobs, resp.id),
                            _ => false,
                        }) by {
                            if k > 0 {
                                assert(folded.0[k] == rest.0[k - 1]);
                            }
                        }
                    },
                    None => {},
                },
                TaskEvent::Done => {
                    let jobs2 = crate::jobman::remove_first_job(jobs, events[0].0@);
                    lemma_spec_poll_ids(jobs2, events.drop_first());
                    assert forall|k: int| 0 <= k < folded.0.len() implies (match
                        #[trigger] folded.0[k] {
                        MsgVal::Response(resp) => has_job(jobs, resp.id),
                        _ => false,
                    }) by {
                        match folded.0[k] {
                            MsgVal::Response(resp) => {
                                crate::jobman::lemma_remove_first_subset(
                                    jobs,
                                    events[0].0@,
                                    resp.id,
                                );
                            },
                            _ => {},
                        }
                    }
                    assert forall|id: IdVal| #[trigger] has_job(folded.1, id) implies has_job(
                        jobs,
                        id,
                    ) by {
                        crate::jobman::lemma_remove_first_subset(jobs, events[0].0@, id);
                    }
                },
                TaskEvent::Cancelled => {
                    lemma_spec_poll_ids(jobs, events.drop_first());
                },
            }
        }
    }
}

} // verus!
