//! The client-side protocol dispatcher.
//!
//! Each call draws the next id — strictly increasing over the life of the
//! client, which is the monotonic-id law — and builds the request to send;
//! the embedder carries it through the outbound chain and waits. Inbound
//! responses and errors join the pending cache; `take_response` removes
//! exactly one match for an id per call, which is the id-correlation law,
//! and leaves any further responses under the same id to be drained
//! explicitly. Inbound requests and notifications are routed to the
//! provider the host supplies.

use vstd::prelude::*;

use crate::errors::MCPError;
use crate::json::{JsonVal, JsonValue};
use crate::logging::LoggingLevel;
use crate::rpc::{
    version_seq, IdVal, JSONRPCMessage, JSONRPCNotification, JSONRPCRequest, MsgVal, NoteVal,
    ReqVal, RequestId,
};
use crate::schema::{
    CallToolParams, CallToolRequest, CancelledNotification, CancelledParams, ClientCapabilities,
    ClientNotification, ClientRequest, ClientShutdownRequest, Implementation, InitializeParams,
    InitializeRequest, InitializedNotification, InitializedNotificationParams, ListToolsRequest,
    PaginatedParams, PingRequest, RootsCapability, SetLevelParams, SetLevelRequest,
};
use crate::builders::{build_client_notification, build_client_request};
use crate::wire::{call_tool_params_jv, set_level_params_jv, str_eq_text};

verus! {

/// What the host supplies to answer server-initiated traffic: probes,
/// roots listing, sampling, and the log sink.
pub trait ClientProvider {
    /// Answers a server `ping`.
    fn client_ping_response(&self, id: RequestId, params: Option<JsonValue>) -> Result<
        (),
        MCPError,
    >;

    /// Answers a server `roots/list`.
    fn client_list_roots(&self, id: RequestId, params: Option<JsonValue>) -> Result<(), MCPError>;

    /// Answers a server `sampling/createMessage`.
    fn client_sampling_message(&self, id: RequestId, params: Option<JsonValue>) -> Result<
        (),
        MCPError,
    >;

    /// Receives a server log record.
    fn client_logs(&self, params: Option<JsonValue>) -> Result<(), MCPError>;
}

/// The id the k-th request drawn after the counter stood at `start`
/// carries.
pub open spec fn nth_request_id(start: int, k: nat) -> int {
    start + k + 1
}

/// Monotonic ids: of two requests drawn from one client, the later
/// carries the strictly larger id.
pub proof fn lemma_monotonic_ids(start: int, i: nat, j: nat)
    requires
        i < j,
    ensures
        nth_request_id(start, i) < nth_request_id(start, j),
{
}

/// Whether a cached message answers the request with the given id: a
/// response or an error carrying exactly that id.
pub open spec fn matches_id(m: MsgVal, id: IdVal) -> bool {
    match m {
        MsgVal::Response(resp) => resp.id == id,
        MsgVal::Error(e) => e.id == id,
        _ => false,
    }
}

/// How many cached messages answer the given id.
pub open spec fn count_matching(msgs: Seq<JSONRPCMessage>, id: IdVal) -> nat
    decreases msgs.len(),
{
    if msgs.len() == 0 {
        0
    } else {
        (if matches_id(msgs[0]@, id) {
            1nat
        } else {
            0nat
        }) + count_matching(msgs.drop_first(), id)
    }
}

/// Removing one matching message lowers the match count by exactly one:
/// each take hands the caller at most one answer for an id, and the rest
/// stay cached until drained explicitly.
pub proof fn lemma_id_correlation(
    pre: Seq<JSONRPCMessage>,
    post: Seq<JSONRPCMessage>,
    idx: int,
    id: IdVal,
)
    requires
        0 <= idx < pre.len(),
        matches_id(pre[idx]@, id),
        post == pre.remove(idx),
    ensures
        count_matching(post, id) + 1 == count_matching(pre, id),
    decreases pre.len(),
{
    if idx == 0 {
        assert(pre.remove(0) =~= pre.drop_first());
    } else {
        assert(pre.remove(idx)[0] == pre[0]);
        assert(pre.remove(idx).drop_first() =~= pre.drop_first().remove(idx - 1));
        assert(pre.drop_first()[idx - 1] == pre[idx]);
        lemma_id_correlation(pre.drop_first(), pre.drop_first().remove(idx - 1), idx - 1, id);
    }
}

/// The initialize parameters this client announces.
pub open spec fn spec_client_initialize_params() -> JsonVal {
    JsonVal::Obj(
        seq![
            (("protocolVersion")@, JsonVal::Str(("2025-03-26")@)),
            (
                ("capabilities")@,
                JsonVal::Obj(
                    seq![
                        (
                            ("roots")@,
                            JsonVal::Obj(seq![(("listChanged")@, JsonVal::Bool(false))]),
                        ),
                    ],
                ),
            ),
            (
                ("clientInfo")@,
                JsonVal::Obj(
                    seq![
                        (("name")@, JsonVal::Str(("MCP Client")@)),
                        (("version")@, JsonVal::Str(("1.0.0")@)),
                    ],
                ),
            ),
        ],
    )
}

/// The client engine.
pub struct Client<T: ClientProvider> {
    pub is_initialized: bool,
    pub next_request_id: i64,
    pub timeout_ms: Option<u64>,
    pub cached: Vec<JSONRPCMessage>,
    pub current_request_id: Option<i64>,
    pub provider: T,
    pub outbox: Vec<JSONRPCMessage>,
}

impl<T: ClientProvider> Client<T> {
    /// A fresh client around the given provider.
    pub fn new(provider: T) -> (r: Client<T>)
        ensures
            !r.is_initialized,
            r.next_request_id == 0,
            r.timeout_ms is None,
            r.cached@ =~= Seq::<JSONRPCMessage>::empty(),
            r.current_request_id is None,
            r.outbox@ =~= Seq::<JSONRPCMessage>::empty(),
    {
        Client {
            is_initialized: false,
            next_request_id: 0,
            timeout_ms: None,
            cached: Vec::new(),
            current_request_id: None,
            provider,
            outbox: Vec::new(),
        }
    }

    /// Sets the receive timeout, in milliseconds.
    pub fn with_timeout(&mut self, timeout_ms: u64)
        ensures
            *final(self) == (Client { timeout_ms: Some(timeout_ms), ..*old(self) }),
    {
        self.timeout_ms = Some(timeout_ms);
    }

    /// Latches the started flag: a client starts once.
    pub fn start(&mut self) -> (r: Result<(), MCPError>)
        ensures
            *final(self) == (Client { is_initialized: true, ..*old(self) }),
            r is Ok <==> !old(self).is_initialized,
    {
        if self.is_initialized {
            proof {
                reveal_strlit("Client already initialized");
            }
            return Err(MCPError::Transport(String::from_str("Client already initialized")));
        }
        self.is_initialized = true;
        Ok(())
    }

    /// The next request id: one past the one before, so ids strictly
    /// increase over the client's life.
    fn next_request_id(&mut self) -> (r: RequestId)
        requires
            old(self).next_request_id < i64::MAX,
        ensures
            final(self).next_request_id == old(self).next_request_id + 1,
            r@ == IdVal::N((nth_request_id(old(self).next_request_id as int, 0)) as i64),
            *final(self) == (Client {
                next_request_id: final(self).next_request_id,
                current_request_id: Some(final(self).next_request_id),
                ..*old(self)
            }),
    {
        self.next_request_id = self.next_request_id + 1;
        let id = self.next_request_id;
        self.current_request_id = Some(id);
        RequestId::Number(id)
    }

    /// Builds the opening request: the protocol version and capabilities
    /// this client announces, under a fresh id.
    pub fn make_initialize_request(&mut self) -> (r: JSONRPCRequest)
        requires
            old(self).next_request_id < i64::MAX,
        ensures
            r@ == (ReqVal {
                jsonrpc: version_seq(),
                id: IdVal::N((old(self).next_request_id + 1) as i64),
                method: ("initialize")@,
                params: Some(spec_client_initialize_params()),
            }),
            *final(self) == (Client {
                next_request_id: (old(self).next_request_id + 1) as i64,
                current_request_id: Some((old(self).next_request_id + 1) as i64),
                ..*old(self)
            }),
    {
        proof {
            reveal_strlit("2025-03-26");
            reveal_strlit("MCP Client");
            reveal_strlit("1.0.0");
        }
        let params = InitializeParams {
            protocol_version: String::from_str("2025-03-26"),
            client_info: Implementation {
                name: String::from_str("MCP Client"),
                version: String::from_str("1.0.0"),
            },
            capabilities: ClientCapabilities {
                experimental: None,
                roots: Some(RootsCapability { list_changed: Some(false) }),
                sampling: None,
            },
        };
        let request = InitializeRequest::new(params);
        let id = self.next_request_id();
        let r = build_client_request(id, ClientRequest::Initialize(request));
        proof {
            assert(r@.params->Some_0->Obj_0 =~~= spec_client_initialize_params()->Obj_0);
        }
        r
    }

    /// Builds the notice that initialization finished.
    pub fn make_initialized_notification(&self) -> (r: JSONRPCNotification)
        ensures
            r@ == (NoteVal {
                jsonrpc: version_seq(),
                method: ("notifications/initialized")@,
                params: Some(JsonVal::Obj(Seq::empty())),
            }),
    {
        let note = InitializedNotification::new(InitializedNotificationParams { _meta: None });
        build_client_notification(ClientNotification::Initialized(note))
    }

    /// Builds the tool listing request, under a fresh id.
    pub fn make_list_tools_request(&mut self, cursor: Option<String>) -> (r: JSONRPCRequest)
        requires
            old(self).next_request_id < i64::MAX,
        ensures
            r@ == (ReqVal {
                jsonrpc: version_seq(),
                id: IdVal::N((old(self).next_request_id + 1) as i64),
                method: ("tools/list")@,
                params: Some(
                    JsonVal::Obj(
                        match cursor {
                            Some(c) => seq![(("cursor")@, JsonVal::Str(c@))],
                            None => Seq::empty(),
                        },
                    ),
                ),
            }),
            *final(self) == (Client {
                next_request_id: (old(self).next_request_id + 1) as i64,
                current_request_id: Some((old(self).next_request_id + 1) as i64),
                ..*old(self)
            }),
    {
        let request = ListToolsRequest::new(Some(PaginatedParams { cursor }));
        let id = self.next_request_id();
        build_client_request(id, ClientRequest::ListTools(request))
    }

    /// Builds a tool call request, under a fresh id.
    pub fn make_call_tool_request(&mut self, params: CallToolParams) -> (r: JSONRPCRequest)
        requires
            old(self).next_request_id < i64::MAX,
        ensures
            r@ == (ReqVal {
                jsonrpc: version_seq(),
                id: IdVal::N((old(self).next_request_id + 1) as i64),
                method: ("tools/call")@,
                params: Some(call_tool_params_jv(params)),
            }),
            *final(self) == (Client {
                next_request_id: (old(self).next_request_id + 1) as i64,
                current_request_id: Some((old(self).next_request_id + 1) as i64),
                ..*old(self)
            }),
    {
        let request = CallToolRequest::new(params);
        let id = self.next_request_id();
        build_client_request(id, ClientRequest::CallTool(request))
    }

    /// Builds a probe, under a fresh id.
    pub fn make_ping_request(&mut self) -> (r: JSONRPCRequest)
        requires
            old(self).next_request_id < i64::MAX,
        ensures
            r@ == (ReqVal {
                jsonrpc: version_seq(),
                id: IdVal::N((old(self).next_request_id + 1) as i64),
                method: ("ping")@,
                params: None,
            }),
            *final(self) == (Client {
                next_request_id: (old(self).next_request_id + 1) as i64,
                current_request_id: Some((old(self).next_request_id + 1) as i64),
                ..*old(self)
            }),
    {
        let request = PingRequest::new();
        let id = self.next_request_id();
        build_client_request(id, ClientRequest::Ping(request))
    }

    /// Builds the shutdown request, under a fresh id.
    pub fn make_shutdown_request(&mut self) -> (r: JSONRPCRequest)
        requires
            old(self).next_request_id < i64::MAX,
        ensures
            r@ == (ReqVal {
                jsonrpc: version_seq(),
                id: IdVal::N((old(self).next_request_id + 1) as i64),
                method: ("shutdown")@,
                params: None,
            }),
            *final(self) == (Client {
                next_request_id: (old(self).next_request_id + 1) as i64,
                current_request_id: Some((old(self).next_request_id + 1) as i64),
                ..*old(self)
            }),
    {
        let request = ClientShutdownRequest::new();
        let id = self.next_request_id();
        build_client_request(id, ClientRequest::Shutdown(request))
    }

    /// Builds the level change request, under a fresh id.
    pub fn make_set_level_request(&mut self, level: LoggingLevel) -> (r: JSONRPCRequest)
        requires
            old(self).next_request_id < i64::MAX,
        ensures
            r@ == (ReqVal {
                jsonrpc: version_seq(),
                id: IdVal::N((old(self).next_request_id + 1) as i64),
                method: ("logging/setLevel")@,
                params: Some(set_level_params_jv(SetLevelParams { level })),
            }),
            *final(self) == (Client {
                next_request_id: (old(self).next_request_id + 1) as i64,
                current_request_id: Some((old(self).next_request_id + 1) as i64),
                ..*old(self)
            }),
    {
        let request = SetLevelRequest::new(SetLevelParams { level });
        let id = self.next_request_id();
        build_client_request(id, ClientRequest::SetLevel(request))
    }

    /// Builds the cancellation of the most recent request.
    pub fn make_cancel_notification(&self) -> (r: JSONRPCNotification)
        requires
            self.current_request_id is Some,
        ensures
            r@ == (NoteVal {
                jsonrpc: version_seq(),
                method: ("notifications/cancelled")@,
                params: Some(
                    JsonVal::Obj(
                        seq![
                            (
                                ("requestId")@,
                                JsonVal::Int(self.current_request_id->Some_0),
                            ),
                            (("reason")@, JsonVal::Str(("client cancelled")@)),
                        ],
                    ),
                ),
            }),
    {
        proof {
            reveal_strlit("client cancelled");
        }
        let id: i64 = match self.current_request_id {
            Some(v) => v,
            None => 0,
        };
        let params = CancelledParams {
            request_id: RequestId::Number(id),
            reason: Some(String::from_str("client cancelled")),
        };
        let note = CancelledNotification::new(params);
        let r = build_client_notification(ClientNotification::Cancelled(note));
        proof {
            assert(r@.params->Some_0->Obj_0 =~= seq![
                (("requestId")@, JsonVal::Int(self.current_request_id->Some_0)),
                (("reason")@, JsonVal::Str(("client cancelled")@)),
            ]);
        }
        r
    }

    /// Routes one inbound message: responses and errors join the pending
    /// cache; requests go to the provider by method; notifications go to
    /// the provider's log sink.
    pub fn handle_message(&mut self, message: JSONRPCMessage) -> (r: Result<(), MCPError>)
        ensures
            match message@ {
                MsgVal::Response(_) => final(self).cached@ == old(self).cached@.push(message)
                    && *final(self) == (Client { cached: final(self).cached, ..*old(self) }) && r
                    is Ok,
                MsgVal::Error(_) => final(self).cached@ == old(self).cached@.push(message)
                    && *final(self) == (Client { cached: final(self).cached, ..*old(self) }) && r
                    is Ok,
                _ => *final(self) == *old(self),
            },
    {
        match message {
            JSONRPCMessage::Response(resp) => {
                self.cached.push(JSONRPCMessage::Response(resp));
                Ok(())
            },
            JSONRPCMessage::Error(err) => {
                self.cached.push(JSONRPCMessage::Error(err));
                Ok(())
            },
            JSONRPCMessage::Request(req) => {
                if str_eq_text(req.method.as_str(), "ping") {
                    self.provider.client_ping_response(req.id, req.params)
                } else if str_eq_text(req.method.as_str(), "roots/list") {
                    self.provider.client_list_roots(req.id, req.params)
                } else if str_eq_text(req.method.as_str(), "sampling/createMessage") {
                    self.provider.client_sampling_message(req.id, req.params)
                } else {
                    Ok(())
                }
            },
            JSONRPCMessage::Notification(note) => {
                let _ = self.provider.client_logs(note.params);
                Ok(())
            },
        }
    }

    /// The oldest pending response, if any arrived.
    pub fn try_recieve(&mut self) -> (r: Result<JSONRPCMessage, MCPError>)
        ensures
            match r {
                Ok(m) => old(self).cached@.len() > 0 && m == old(self).cached@[0] && final(self).cached@ == old(self).cached@.drop_first(),
                Err(_) => old(self).cached@.len() == 0 && *final(self) == *old(self),
            },
            *final(self) == (Client { cached: final(self).cached, ..*old(self) }),
    {
        if self.cached.len() == 0 {
            proof {
                reveal_strlit("No cached message");
            }
            return Err(MCPError::Transport(String::from_str("No cached message")));
        }
        let m = self.cached.remove(0);
        proof {
            assert(self.cached@ =~= old(self).cached@.drop_first());
        }
        Ok(m)
    }

    /// Takes the oldest pending answer to the request with the given id,
    /// if one arrived: exactly one match leaves the cache, and any further
    /// answers under the same id stay until drained.
    pub fn take_response(&mut self, id: &RequestId) -> (r: Option<JSONRPCMessage>)
        ensures
            *final(self) == (Client { cached: final(self).cached, ..*old(self) }),
            match r {
                Some(m) => exists|idx: int|
                    0 <= idx < old(self).cached@.len() && m == old(self).cached@[idx]
                        && #[trigger] matches_id(old(self).cached@[idx]@, id@) && (forall|j: int|
                        0 <= j < idx ==> !matches_id(#[trigger] old(self).cached@[j]@, id@))
                        && final(self).cached@ == old(self).cached@.remove(idx),
                None => count_matching(old(self).cached@, id@) == 0 && *final(self) == *old(self),
            },
    {
        let mut i: usize = 0;
        while i < self.cached.len()
            invariant
                i <= self.cached@.len(),
                *self == *old(self),
                forall|j: int| 0 <= j < i ==> !matches_id(#[trigger] self.cached@[j]@, id@),
            decreases self.cached@.len() - i,
        {
            let hit = match &self.cached[i] {
                JSONRPCMessage::Response(resp) => resp.id.same_as(id),
                JSONRPCMessage::Error(e) => e.id.same_as(id),
                _ => false,
            };
            if hit {
                let ghost idx = i as int;
                let m = self.cached.remove(i);
                proof {
                    assert(m == old(self).cached@[idx]);
                    assert(matches_id(old(self).cached@[idx]@, id@));
                }
                return Some(m);
            }
            i = i + 1;
        }
        proof {
            lemma_count_none(self.cached@, id@);
        }
        None
    }
}

/// A cache with no matching message counts zero matches.
proof fn lemma_count_none(msgs: Seq<JSONRPCMessage>, id: IdVal)
    requires
        forall|j: int| 0 <= j < msgs.len() ==> !matches_id(#[trigger] msgs[j]@, id),
    ensures
        count_matching(msgs, id) == 0,
    decreases msgs.len(),
{
    if msgs.len() > 0 {
        assert forall|j: int| 0 <= j < msgs.drop_first().len() implies !matches_id(
            #[trigger] msgs.drop_first()[j]@,
            id,
        ) by {
            assert(msgs.drop_first()[j] == msgs[j + 1]);
        }
        lemma_count_none(msgs.drop_first(), id);
    }
}

} // verus!
