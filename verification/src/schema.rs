//! The MCP schema: the data the methods carry.
//!
//! Wire objects use camelCase member names; absent members are omitted,
//! never null. Free-form extension points are carried as JSON values.

use vstd::prelude::*;

use crate::json::JsonValue;
use crate::logging::LoggingLevel;
use crate::rpc::{JSONRPCError, JSONRPCNotification, JSONRPCRequest, JSONRPCResponse, RequestId};

verus! {

/// The newest protocol version this runtime speaks.
pub const LATEST_PROTOCOL_VERSION: &'static str = "2025-03-26";

/// The JSON-RPC version literal.
pub const JSONRPC_VERSION: &'static str = "2.0";

/// The context key that carries the session id.
pub const SESSION_ID_KEY: &'static str = "sessionId";

/// The kind of content a tool streams back.
#[derive(Debug, Clone, Copy, PartialEq, Eq, Structural)]
pub enum LoadType {
    Text,
    Audio,
    Image,
    Embedded,
}

/// The sender or recipient of a sampling message.
#[derive(Debug, Clone, Copy, PartialEq, Eq, Structural)]
pub enum Role {
    User,
    Assistant,
}

/// Who may see an object. The numeric priority of the wire schema is a
/// floating-point number and stays outside the verified core.
pub struct Annotations {
    pub audience: Option<Vec<Role>>,
}

/// A base result: reserved metadata plus free-form members.
pub struct EmptyResult {
    pub _meta: Option<Vec<(String, JsonValue)>>,
    pub extra: Option<Vec<(String, JsonValue)>>,
}

impl EmptyResult {
    /// A result with nothing in it.
    pub fn new() -> (r: EmptyResult)
        ensures
            r._meta is None,
            r.extra is None,
    {
        EmptyResult { _meta: None, extra: None }
    }
}

/// A progress token: a string or a number.
#[derive(Debug, Clone, PartialEq, Eq)]
pub enum ProgressToken {
    String(String),
    Number(i64),
}

/// Reserved request metadata.
pub struct RequestMeta {
    pub progress_token: Option<ProgressToken>,
}

/// A cancellation notice: the id of the request to cancel, and an optional
/// reason.
pub struct CancelledParams {
    pub request_id: RequestId,
    pub reason: Option<String>,
}

/// A notification cancelling a previously issued request.
pub struct CancelledNotification {
    pub method: String,
    pub params: CancelledParams,
}

impl CancelledNotification {
    /// The wire form of a cancellation.
    pub fn new(params: CancelledParams) -> (r: CancelledNotification)
        ensures
            r.method@ == ("notifications/cancelled")@,
            r.params == params,
    {
        CancelledNotification { method: String::from_str("notifications/cancelled"), params }
    }
}

/// A name and version describing one end of the conversation.
pub struct Implementation {
    pub name: String,
    pub version: String,
}

/// Whether the client announces root-list change notifications.
pub struct RootsCapability {
    pub list_changed: Option<bool>,
}

/// What the client can do.
pub struct ClientCapabilities {
    pub experimental: Option<Vec<(String, JsonValue)>>,
    pub roots: Option<RootsCapability>,
    pub sampling: Option<JsonValue>,
}

/// Whether the server announces prompt-list change notifications.
pub struct PromptsCapability {
    pub list_changed: Option<bool>,
}

/// What the server offers for resources.
pub struct ResourcesCapability {
    pub subscribe: Option<bool>,
    pub list_changed: Option<bool>,
}

/// Whether the server announces tool-list change notifications.
pub struct ToolsCapability {
    pub list_changed: Option<bool>,
}

/// What the server can do.
pub struct ServerCapabilities {
    pub experimental: Option<Vec<(String, JsonValue)>>,
    pub logging: Option<JsonValue>,
    pub prompts: Option<PromptsCapability>,
    pub resources: Option<ResourcesCapability>,
    pub tools: Option<ToolsCapability>,
}

/// What the client sends first.
pub struct InitializeParams {
    pub protocol_version: String,
    pub capabilities: ClientCapabilities,
    pub client_info: Implementation,
}

/// The first request of the conversation.
pub struct InitializeRequest {
    pub method: String,
    pub params: InitializeParams,
}

impl InitializeRequest {
    /// The wire form of the opening request.
    pub fn new(params: InitializeParams) -> (r: InitializeRequest)
        ensures
            r.method@ == ("initialize")@,
            r.params == params,
    {
        InitializeRequest { method: String::from_str("initialize"), params }
    }
}

/// The server's answer to `initialize`.
pub struct InitializeResult {
    pub protocol_version: String,
    pub capabilities: ServerCapabilities,
    pub server_info: Implementation,
    pub instructions: Option<String>,
}

/// Reserved metadata of the initialized notification.
pub struct InitializedNotificationParams {
    pub _meta: Option<Vec<(String, String)>>,
}

/// The client's notice that initialization finished.
pub struct InitializedNotification {
    pub method: String,
    pub params: InitializedNotificationParams,
}

impl InitializedNotification {
    /// The wire form of the notice.
    pub fn new(params: InitializedNotificationParams) -> (r: InitializedNotification)
        ensures
            r.method@ == ("notifications/initialized")@,
            r.params == params,
    {
        InitializedNotification {
            method: String::from_str("notifications/initialized"),
            params,
        }
    }
}

/// A liveness probe, from either side.
pub struct PingRequest {
    pub method: String,
}

impl PingRequest {
    /// The wire form of a probe.
    pub fn new() -> (r: PingRequest)
        ensures
            r.method@ == ("ping")@,
    {
        PingRequest { method: String::from_str("ping") }
    }
}

/// A progress report for a long-running request. The wire carries the
/// completed amount as a number; it is held here as an integer.
pub struct ProgressParams {
    pub progress_token: ProgressToken,
    pub progress: i64,
    pub total: Option<i64>,
}

/// An advisory progress notification.
pub struct ProgressNotification {
    pub method: String,
    pub params: ProgressParams,
}

/// An opaque pagination cursor.
pub struct PaginatedParams {
    pub cursor: Option<String>,
}

/// A request that may carry a pagination cursor.
pub struct PaginatedRequest {
    pub method: String,
    pub params: Option<String>,
}

/// A result that may carry the next pagination cursor.
pub struct PaginatedResult {
    pub _meta: Option<Vec<(String, JsonValue)>>,
    pub next_cursor: Option<String>,
}

/// A resource the server can read.
pub struct Resource {
    pub uri: String,
    pub name: String,
    pub description: Option<String>,
    pub mime_type: Option<String>,
    pub size: Option<u64>,
    pub annotations: Option<Annotations>,
}

/// The resource listing.
pub struct ListResourcesResult {
    pub next_cursor: Option<String>,
    pub resources: Vec<Resource>,
}

/// Asks for the resource listing.
pub struct ListResourcesRequest {
    pub method: String,
    pub params: Option<PaginatedParams>,
}

/// Asks for the resource template listing.
pub struct ListResourceTemplatesRequest {
    pub method: String,
    pub params: Option<PaginatedParams>,
}

/// Asks to read one resource.
pub struct ReadResourceRequest {
    pub method: String,
    pub params: ReadResourceParams,
}

/// Which resource to read.
pub struct ReadResourceParams {
    pub uri: String,
}

/// The contents that came back from a read.
pub struct ReadResourceResult {
    pub contents: Vec<ResourceContent>,
}

/// Binary resource contents, base64-encoded.
pub struct BlobResourceContents {
    pub uri: String,
    pub mime_type: Option<String>,
    pub blob: String,
}

/// Text resource contents.
pub struct TextResourceContents {
    pub uri: String,
    pub mime_type: Option<String>,
    pub text: String,
}

/// Either form of resource contents.
pub enum ResourceContent {
    Text(TextResourceContents),
    Blob(BlobResourceContents),
}

/// Either form of resource contents, embedded in other results.
pub enum ResourceContents {
    Text(TextResourceContents),
    Blob(BlobResourceContents),
}

/// The server's notice that its resource list changed.
pub struct ResourceListChangedNotification {
    pub method: String,
}

/// Which resource to watch.
pub struct SubscribeParams {
    pub uri: String,
}

/// Asks for update notices about one resource.
pub struct SubscribeRequest {
    pub method: String,
    pub params: SubscribeParams,
}

/// Stops update notices about one resource.
pub struct UnsubscribeRequest {
    pub method: String,
    pub params: UnsubscribeParams,
}

/// Which resource to stop watching.
pub struct UnsubscribeParams {
    pub uri: String,
}

/// The server's notice that one resource changed.
pub struct ResourceUpdatedNotification {
    pub method: String,
    pub params: ResourceUpdatedParams,
}

/// Which resource changed.
pub struct ResourceUpdatedParams {
    pub uri: String,
}

/// Asks for the prompt listing.
pub struct ListPromptsRequest {
    pub method: String,
    pub params: Option<PaginatedParams>,
}

/// One argument a prompt accepts.
pub struct PromptArgument {
    pub name: String,
    pub description: Option<String>,
    pub required: Option<bool>,
}

/// A prompt or prompt template the server offers.
pub struct Prompt {
    pub name: String,
    pub description: Option<String>,
    pub arguments: Option<Vec<PromptArgument>>,
}

/// The prompt listing.
pub struct ListPromptsResult {
    pub next_cursor: Option<String>,
    pub prompts: Vec<Prompt>,
}

/// Asks for one prompt.
pub struct GetPromptRequest {
    pub method: String,
    pub params: GetPromptParams,
}

/// Which prompt, with its template arguments.
pub struct GetPromptParams {
    pub name: String,
    pub arguments: Option<Vec<(String, String)>>,
}

/// Text handed to or from the model.
pub struct TextContent {
    pub kind: String,
    pub text: String,
    pub annotations: Option<Annotations>,
}

/// An image handed to or from the model.
pub struct ImageContent {
    pub kind: String,
    pub data: String,
    pub mime_type: String,
    pub annotations: Option<Annotations>,
}

/// Audio handed to or from the model.
pub struct AudioContent {
    pub kind: String,
    pub data: String,
    pub mime_type: String,
    pub annotations: Option<Annotations>,
}

/// Resource contents embedded in a prompt or tool result.
pub struct EmbeddedResource {
    pub kind: String,
    pub resource: ResourceContents,
    pub annotations: Option<Annotations>,
}

/// Any content of a prompt message.
pub enum PromptMessageContent {
    Text(TextContent),
    Image(ImageContent),
    Audio(AudioContent),
    Resource(EmbeddedResource),
}

/// One message of a prompt.
pub struct PromptMessage {
    pub role: Role,
    pub content: PromptMessageContent,
}

/// The prompt the server rendered.
pub struct GetPromptResult {
    pub description: Option<String>,
    pub messages: Vec<PromptMessage>,
}

/// The server's notice that its prompt list changed.
pub struct PromptListChangedNotification {
    pub method: String,
}

/// Asks for the tool listing.
pub struct ListToolsRequest {
    pub method: String,
    pub params: Option<PaginatedParams>,
}

impl ListToolsRequest {
    /// The wire form of the tool listing request.
    pub fn new(params: Option<PaginatedParams>) -> (r: ListToolsRequest)
        ensures
            r.method@ == ("tools/list")@,
            r.params == params,
    {
        ListToolsRequest { method: String::from_str("tools/list"), params }
    }
}

/// The tool listing.
pub struct ListToolsResult {
    pub next_cursor: Option<String>,
    pub tools: Vec<Tool>,
}

/// The JSON schema of a tool's input: an object with optional properties
/// and required names.
pub struct ToolInputSchema {
    pub kind: String,
    pub properties: Option<Vec<(String, JsonValue)>>,
    pub required: Option<Vec<String>>,
}

/// One tool the client can call.
pub struct Tool {
    pub name: String,
    pub description: Option<String>,
    pub input_schema: ToolInputSchema,
}

/// A root the server may work under.
pub struct Root {
    pub uri: String,
    pub name: Option<String>,
}

/// One entry of a tool result's content.
pub enum ToolResultContent {
    Audio(AudioContent),
    Text(TextContent),
    Image(ImageContent),
    Resource(EmbeddedResource),
}

/// What a tool call produced.
pub struct CallToolResult {
    pub content: Vec<ToolResultContent>,
    pub is_error: Option<bool>,
}

/// Asks to run one tool.
pub struct CallToolRequest {
    pub method: String,
    pub params: CallToolParams,
}

impl CallToolRequest {
    /// The wire form of a tool call.
    pub fn new(params: CallToolParams) -> (r: CallToolRequest)
        ensures
            r.method@ == ("tools/call")@,
            r.params == params,
    {
        CallToolRequest { method: String::from_str("tools/call"), params }
    }
}

/// Which tool to run, with its arguments.
pub struct CallToolParams {
    pub name: String,
    pub arguments: Option<Vec<(String, JsonValue)>>,
}

/// The server's notice that its tool list changed.
pub struct ToolListChangedNotification {
    pub method: String,
}

/// Behavioural hints about a tool.
pub struct ToolAnnotations {
    pub destructive_hint: bool,
    pub idempotent_hint: bool,
    pub open_world_hint: bool,
    pub read_only_hint: bool,
    pub title: String,
}

/// Asks the server to adjust the log level.
pub struct SetLevelRequest {
    pub method: String,
    pub params: SetLevelParams,
}

impl SetLevelRequest {
    /// The wire form of the level change.
    pub fn new(params: SetLevelParams) -> (r: SetLevelRequest)
        ensures
            r.method@ == ("logging/setLevel")@,
            r.params == params,
    {
        SetLevelRequest { method: String::from_str("logging/setLevel"), params }
    }
}

/// The level the client wants to receive.
pub struct SetLevelParams {
    pub level: LoggingLevel,
}

/// A log record sent to the client.
pub struct LoggingMessageNotification {
    pub method: String,
    pub params: LoggingMessageParams,
}

impl LoggingMessageNotification {
    /// The wire form of a log record.
    pub fn new(params: LoggingMessageParams) -> (r: LoggingMessageNotification)
        ensures
            r.method@ == ("notifications/message")@,
            r.params == params,
    {
        LoggingMessageNotification { method: String::from_str("notifications/message"), params }
    }
}

/// The level, origin and body of a log record.
pub struct LoggingMessageParams {
    pub level: LoggingLevel,
    pub logger: Option<String>,
    pub data: JsonValue,
}

/// A hint naming a preferred model. The numeric priorities of the wire
/// schema are floating-point numbers and stay outside the verified core.
pub struct ModelHint {
    pub name: Option<String>,
}

/// The server's model preferences.
pub struct ModelPreferences {
    pub hints: Option<Vec<ModelHint>>,
}

/// Any content of a sampling message.
pub enum MessageContent {
    Audio(AudioContent),
    Text(TextContent),
    Image(ImageContent),
}

/// One message handed to or from the model.
pub struct SamplingMessage {
    pub role: Role,
    pub content: MessageContent,
}

/// How much server context to include while sampling.
#[derive(Debug, Clone, Copy, PartialEq, Eq, Structural)]
pub enum IncludeContext {
    NoContext,
    ThisServer,
    AllServers,
}

/// Asks the client to sample its model.
pub struct CreateMessageRequest {
    pub method: String,
    pub params: CreateMessageParams,
}

/// What to sample. The sampling temperature of the wire schema is a
/// floating-point number and stays outside the verified core.
pub struct CreateMessageParams {
    pub messages: Vec<SamplingMessage>,
    pub model_preferences: Option<ModelPreferences>,
    pub system_prompt: Option<String>,
    pub include_context: Option<IncludeContext>,
    pub max_tokens: u32,
    pub stop_sequences: Option<Vec<String>>,
    pub metadata: Option<JsonValue>,
}

/// The stop reasons the schema names.
#[derive(Debug, Clone, Copy, PartialEq, Eq, Structural)]
pub enum KnownStopReason {
    EndTurn,
    StopSequence,
    MaxTokens,
}

/// Why sampling stopped.
pub enum StopReason {
    Known(KnownStopReason),
    Custom(String),
}

/// What the client sampled.
pub struct CreateMessageResult {
    pub role: Role,
    pub content: MessageContent,
    pub model: String,
    pub stop_reason: Option<StopReason>,
}

/// Asks the server for completion options.
pub struct CompleteRequest {
    pub method: String,
    pub params: CompleteParams,
}

/// A reference to a prompt or a resource.
pub enum Reference {
    Prompt(PromptReference),
    Resource(ResourceReference),
}

/// Names a prompt.
pub struct PromptReference {
    pub kind: String,
    pub name: String,
}

/// Names a resource.
pub struct ResourceReference {
    pub kind: String,
    pub uri: String,
}

/// The argument being completed.
pub struct ArgumentInfo {
    pub name: String,
    pub value: String,
}

/// What to complete.
pub struct CompleteParams {
    pub ref_: Reference,
    pub argument: ArgumentInfo,
}

/// The completion options.
pub struct CompleteResult {
    pub _meta: Option<Vec<(String, String)>>,
    pub completion: CompletionInfo,
}

/// The values and whether more exist.
pub struct CompletionInfo {
    pub values: Vec<String>,
    pub total: Option<u32>,
    pub has_more: Option<bool>,
}

/// Asks the client for its roots.
pub struct ListRootsRequest {
    pub method: String,
}

impl ListRootsRequest {
    /// The wire form of the roots request.
    pub fn new() -> (r: ListRootsRequest)
        ensures
            r.method@ == ("roots/list")@,
    {
        ListRootsRequest { method: String::from_str("roots/list") }
    }
}

/// The client's roots.
pub struct ListRootsResult {
    pub _meta: Option<Vec<(String, String)>>,
    pub roots: Vec<Root>,
}

/// The client's notice that its roots changed.
pub struct RootsListChangedNotification {
    pub method: String,
}

/// Asks the server to finish.
pub struct ClientShutdownRequest {
    pub method: String,
}

impl ClientShutdownRequest {
    /// The wire form of the shutdown request.
    pub fn new() -> (r: ClientShutdownRequest)
        ensures
            r.method@ == ("shutdown")@,
    {
        ClientShutdownRequest { method: String::from_str("shutdown") }
    }
}

/// A resource template the server offers.
pub struct ResourceTemplate {
    pub uri_template: String,
    pub name: String,
    pub description: Option<String>,
    pub mime_type: Option<String>,
    pub annotations: Option<Annotations>,
}

/// The resource template listing.
pub struct ListResourceTemplatesResult {
    pub next_cursor: Option<String>,
    pub resource_templates: Vec<ResourceTemplate>,
}

/// A bare tool call result, as a raw value.
pub struct ToolCallResult {
    pub result: JsonValue,
}

/// Any request a client issues.
pub enum ClientRequest {
    Initialize(InitializeRequest),
    Ping(PingRequest),
    ListResources(ListResourcesRequest),
    ListResourceTemplates(ListResourceTemplatesRequest),
    ReadResource(ReadResourceRequest),
    Subscribe(SubscribeRequest),
    Unsubscribe(UnsubscribeRequest),
    ListPrompts(ListPromptsRequest),
    GetPrompt(GetPromptRequest),
    ListTools(ListToolsRequest),
    CallTool(CallToolRequest),
    SetLevel(SetLevelRequest),
    Complete(CompleteRequest),
    Shutdown(ClientShutdownRequest),
}

/// Any notification a client issues.
pub enum ClientNotification {
    Cancelled(CancelledNotification),
    Initialized(InitializedNotification),
    ProgressNotification(ProgressNotification),
    RootsListChanged(RootsListChangedNotification),
}

/// Any request a server issues.
pub enum ServerRequest {
    Ping(PingRequest),
    CreateMessageRequest(CreateMessageRequest),
    ListRootsRequest(ListRootsRequest),
}

/// Any notification a server issues.
pub enum ServerNotification {
    CancelledNotification(CancelledNotification),
    ProgressNotification(ProgressNotification),
    ResourceListChangedNotification(ResourceListChangedNotification),
    ResourceUpdatedNotification(ResourceUpdatedNotification),
    PromptListChangedNotification(PromptListChangedNotification),
    ToolListChangedNotification(ToolListChangedNotification),
    LoggingMessageNotification(LoggingMessageNotification),
}

/// One element of a batch request. Batches exist in the schema but are
/// not dispatched by this core.
pub enum JSONRPCBatchRequest {
    Request(JSONRPCRequest),
    Notification(JSONRPCNotification),
}

/// One element of a batch response.
pub enum JSONRPCBatchResponseEnum {
    Response(JSONRPCResponse),
    Error(JSONRPCError),
}

/// A batch of responses.
pub struct JSONRPCBatchResponse {
    pub response: Vec<JSONRPCBatchResponseEnum>,
}

/// Any result a client returns to a server-initiated request.
pub enum ClientResult {
    Empty(EmptyResult),
    CreateMessage(CreateMessageResult),
    ListRootsResult(ListRootsResult),
}

/// Any result a server returns.
pub enum ServerResult {
    EmptyResult(EmptyResult),
    InitializeResult(InitializeResult),
    ListResourcesResult(ListResourcesResult),
    ListResourceTemplatesResult(ListResourceTemplatesResult),
    ReadResourceResult(ReadResourceResult),
    ListPromptsResult(ListPromptsResult),
    GetPromptResult(GetPromptResult),
    ListToolsResult(ListToolsResult),
    CallToolResult(CallToolResult),
    CompleteResult(CompleteResult),
}

/// Any typed answer a client hands back upward.
pub enum ClientRequst {
    CreateMessageResult(CreateMessageResult),
    ListRootsResult(ListRootsResult),
    ListToolsResult(ListToolsResult),
    CallToolResult(CallToolResult),
}

/// The transport settings of the HTTP transport, which stands outside this
/// core.
pub struct HttpTransportConfig {
    pub port: u16,
    pub ip_address: String,
    pub enable_tls: bool,
    pub cert_file: Option<String>,
    pub key_file: Option<String>,
}

} // verus!
