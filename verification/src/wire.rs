//! The wire form of the schema: each carried type as a JSON value, and
//! back. Members use camelCase names; absent members are omitted.

use vstd::prelude::*;

use crate::json::{arr_view, clone_members, obj_view, JsonVal, JsonValue};
use crate::logging::{level_label, spec_level_from, LoggingLevel};
use crate::rpc::{id_jv, jv_to_id, obj_lookup, IdVal, RequestId};
use crate::json::jv_lookup;
use crate::schema::{
    Annotations, ArgumentInfo, AudioContent, CallToolParams, CallToolResult, CancelledParams,
    ClientCapabilities, CompleteParams, EmbeddedResource, EmptyResult, GetPromptParams,
    ImageContent, Implementation, InitializeParams, InitializeResult, ListToolsResult,
    LoggingMessageParams, PaginatedParams, ProgressParams, ProgressToken, ReadResourceParams,
    Reference, ResourceContents, ResourceUpdatedParams, Role, RootsCapability, ServerCapabilities,
    SetLevelParams, SubscribeParams, TextContent, TextResourceContents, BlobResourceContents,
    Tool, ToolInputSchema, ToolResultContent, ToolsCapability, UnsubscribeParams,
};

verus! {

/// The wire name of a role.
pub open spec fn role_jv(r: Role) -> JsonVal {
    match r {
        Role::User => JsonVal::Str(("user")@),
        Role::Assistant => JsonVal::Str(("assistant")@),
    }
}

/// The wire form of a list of roles.
pub open spec fn roles_jv(roles: Seq<Role>) -> Seq<JsonVal> {
    Seq::new(roles.len(), |i: int| if 0 <= i < roles.len() {
        role_jv(roles[i])
    } else {
        JsonVal::Null
    })
}

/// The wire form of a list of strings.
pub open spec fn strings_jv(names: Seq<String>) -> Seq<JsonVal> {
    Seq::new(names.len(), |i: int| if 0 <= i < names.len() {
        JsonVal::Str(names[i]@)
    } else {
        JsonVal::Null
    })
}

/// The wire form of annotations.
pub open spec fn annotations_jv(a: Annotations) -> JsonVal {
    JsonVal::Obj(
        match a.audience {
            Some(roles) => seq![(("audience")@, JsonVal::Arr(roles_jv(roles@)))],
            None => Seq::empty(),
        },
    )
}

/// The wire form of optional annotations, as a member list.
pub open spec fn annotations_member(a: Option<Annotations>) -> Seq<(Seq<char>, JsonVal)> {
    match a {
        Some(ann) => seq![(("annotations")@, annotations_jv(ann))],
        None => Seq::empty(),
    }
}

/// The wire form of a name and version.
pub open spec fn implementation_jv(im: Implementation) -> JsonVal {
    JsonVal::Obj(
        seq![
            (("name")@, JsonVal::Str(im.name@)),
            (("version")@, JsonVal::Str(im.version@)),
        ],
    )
}

/// The wire form of the tools capability.
pub open spec fn tools_capability_jv(c: ToolsCapability) -> JsonVal {
    JsonVal::Obj(
        match c.list_changed {
            Some(b) => seq![(("listChanged")@, JsonVal::Bool(b))],
            None => Seq::empty(),
        },
    )
}

/// The wire form of the roots capability.
pub open spec fn roots_capability_jv(c: RootsCapability) -> JsonVal {
    JsonVal::Obj(
        match c.list_changed {
            Some(b) => seq![(("listChanged")@, JsonVal::Bool(b))],
            None => Seq::empty(),
        },
    )
}

/// The wire form of the server capabilities. Only the members the server
/// set are emitted.
pub open spec fn server_capabilities_jv(c: ServerCapabilities) -> JsonVal {
    JsonVal::Obj(
        (match c.logging {
            Some(_) => seq![(("logging")@, c.logging->Some_0@)],
            None => Seq::empty(),
        }) + (match c.tools {
            Some(_) => seq![(("tools")@, tools_capability_jv(c.tools->Some_0))],
            None => Seq::empty(),
        }),
    )
}

/// The wire form of the client capabilities.
pub open spec fn client_capabilities_jv(c: ClientCapabilities) -> JsonVal {
    JsonVal::Obj(
        (match c.roots {
            Some(_) => seq![(("roots")@, roots_capability_jv(c.roots->Some_0))],
            None => Seq::empty(),
        }) + (match c.sampling {
            Some(_) => seq![(("sampling")@, c.sampling->Some_0@)],
            None => Seq::empty(),
        }),
    )
}

/// The wire form of the initialize parameters.
pub open spec fn initialize_params_jv(p: InitializeParams) -> JsonVal {
    JsonVal::Obj(
        seq![
            (("protocolVersion")@, JsonVal::Str(p.protocol_version@)),
            (("capabilities")@, client_capabilities_jv(p.capabilities)),
            (("clientInfo")@, implementation_jv(p.client_info)),
        ],
    )
}

/// The wire form of the initialize result.
pub open spec fn initialize_result_jv(r: InitializeResult) -> JsonVal {
    JsonVal::Obj(
        seq![
            (("protocolVersion")@, JsonVal::Str(r.protocol_version@)),
            (("capabilities")@, server_capabilities_jv(r.capabilities)),
            (("serverInfo")@, implementation_jv(r.server_info)),
        ] + (match r.instructions {
            Some(_) => seq![(("instructions")@, JsonVal::Str(r.instructions->Some_0@))],
            None => Seq::empty(),
        }),
    )
}

/// The wire form of a tool's input schema.
pub open spec fn tool_input_schema_jv(s: ToolInputSchema) -> JsonVal {
    JsonVal::Obj(
        seq![(("type")@, JsonVal::Str(s.kind@))] + (match s.properties {
            Some(props) => seq![(("properties")@, JsonVal::Obj(obj_view(props@)))],
            None => Seq::empty(),
        }) + (match s.required {
            Some(names) => seq![(("required")@, JsonVal::Arr(strings_jv(names@)))],
            None => Seq::empty(),
        }),
    )
}

/// The wire form of one tool.
pub open spec fn tool_jv(t: Tool) -> JsonVal {
    JsonVal::Obj(
        seq![(("name")@, JsonVal::Str(t.name@))] + (match t.description {
            Some(_) => seq![(("description")@, JsonVal::Str(t.description->Some_0@))],
            None => Seq::empty(),
        }) + seq![(("inputSchema")@, tool_input_schema_jv(t.input_schema))],
    )
}

/// The wire form of a list of tools.
pub open spec fn tools_jv(tools: Seq<Tool>) -> Seq<JsonVal> {
    Seq::new(tools.len(), |i: int| if 0 <= i < tools.len() {
        tool_jv(tools[i])
    } else {
        JsonVal::Null
    })
}

/// The wire form of the tool listing.
pub open spec fn list_tools_result_jv(r: ListToolsResult) -> JsonVal {
    JsonVal::Obj(
        (match r.next_cursor {
            Some(_) => seq![(("nextCursor")@, JsonVal::Str(r.next_cursor->Some_0@))],
            None => Seq::empty(),
        }) + seq![(("tools")@, JsonVal::Arr(tools_jv(r.tools@)))],
    )
}

/// The wire form of an empty result: reserved metadata, then the free-form
/// members at top level.
pub open spec fn empty_result_jv(r: EmptyResult) -> JsonVal {
    JsonVal::Obj(
        (match r._meta {
            Some(pairs) => seq![(("_meta")@, JsonVal::Obj(obj_view(pairs@)))],
            None => Seq::empty(),
        }) + (match r.extra {
            Some(pairs) => obj_view(pairs@),
            None => Seq::empty(),
        }),
    )
}

/// The wire form of text resource contents.
pub open spec fn text_resource_jv(t: TextResourceContents) -> JsonVal {
    JsonVal::Obj(
        seq![(("uri")@, JsonVal::Str(t.uri@))] + (match t.mime_type {
            Some(_) => seq![(("mimeType")@, JsonVal::Str(t.mime_type->Some_0@))],
            None => Seq::empty(),
        }) + seq![(("text")@, JsonVal::Str(t.text@))],
    )
}

/// The wire form of binary resource contents.
pub open spec fn blob_resource_jv(b: BlobResourceContents) -> JsonVal {
    JsonVal::Obj(
        seq![(("uri")@, JsonVal::Str(b.uri@))] + (match b.mime_type {
            Some(_) => seq![(("mimeType")@, JsonVal::Str(b.mime_type->Some_0@))],
            None => Seq::empty(),
        }) + seq![(("blob")@, JsonVal::Str(b.blob@))],
    )
}

/// The wire form of either resource contents.
pub open spec fn resource_contents_jv(rc: ResourceContents) -> JsonVal {
    match rc {
        ResourceContents::Text(t) => text_resource_jv(t),
        ResourceContents::Blob(b) => blob_resource_jv(b),
    }
}

/// The wire form of one tool result entry, tagged by its `type` member.
pub open spec fn tool_result_content_jv(c: ToolResultContent) -> JsonVal {
    match c {
        ToolResultContent::Text(t) => JsonVal::Obj(
            seq![
                (("type")@, JsonVal::Str(t.kind@)),
                (("text")@, JsonVal::Str(t.text@)),
            ] + annotations_member(t.annotations),
        ),
        ToolResultContent::Audio(a) => JsonVal::Obj(
            seq![
                (("type")@, JsonVal::Str(a.kind@)),
                (("data")@, JsonVal::Str(a.data@)),
                (("mimeType")@, JsonVal::Str(a.mime_type@)),
            ] + annotations_member(a.annotations),
        ),
        ToolResultContent::Image(im) => JsonVal::Obj(
            seq![
                (("type")@, JsonVal::Str(im.kind@)),
                (("data")@, JsonVal::Str(im.data@)),
                (("mimeType")@, JsonVal::Str(im.mime_type@)),
            ] + annotations_member(im.annotations),
        ),
        ToolResultContent::Resource(e) => JsonVal::Obj(
            seq![
                (("type")@, JsonVal::Str(e.kind@)),
                (("resource")@, resource_contents_jv(e.resource)),
            ] + annotations_member(e.annotations),
        ),
    }
}

/// The wire form of a list of tool result entries.
pub open spec fn contents_jv(entries: Seq<ToolResultContent>) -> Seq<JsonVal> {
    Seq::new(entries.len(), |i: int| if 0 <= i < entries.len() {
        tool_result_content_jv(entries[i])
    } else {
        JsonVal::Null
    })
}

/// The wire form of a tool call result.
pub open spec fn call_tool_result_jv(r: CallToolResult) -> JsonVal {
    JsonVal::Obj(
        seq![
            (("content")@, JsonVal::Arr(contents_jv(r.content@))),
        ] + (match r.is_error {
            Some(b) => seq![(("isError")@, JsonVal::Bool(b))],
            None => Seq::empty(),
        }),
    )
}

/// The wire form of a log record's parameters.
pub open spec fn logging_message_params_jv(p: LoggingMessageParams) -> JsonVal {
    JsonVal::Obj(
        seq![(("level")@, JsonVal::Str(level_label(p.level)))] + (match p.logger {
            Some(_) => seq![(("logger")@, JsonVal::Str(p.logger->Some_0@))],
            None => Seq::empty(),
        }) + seq![(("data")@, p.data@)],
    )
}

/// The wire form of a cancellation's parameters.
pub open spec fn cancelled_params_jv(p: CancelledParams) -> JsonVal {
    JsonVal::Obj(
        seq![(("requestId")@, id_jv(p.request_id@))] + (match p.reason {
            Some(_) => seq![(("reason")@, JsonVal::Str(p.reason->Some_0@))],
            None => Seq::empty(),
        }),
    )
}

/// The wire form of a pagination cursor.
pub open spec fn paginated_params_jv(p: PaginatedParams) -> JsonVal {
    JsonVal::Obj(
        match p.cursor {
            Some(_) => seq![(("cursor")@, JsonVal::Str(p.cursor->Some_0@))],
            None => Seq::empty(),
        },
    )
}

/// The wire form of a tool call's parameters.
pub open spec fn call_tool_params_jv(p: CallToolParams) -> JsonVal {
    JsonVal::Obj(
        seq![(("name")@, JsonVal::Str(p.name@))] + (match p.arguments {
            Some(pairs) => seq![(("arguments")@, JsonVal::Obj(obj_view(pairs@)))],
            None => Seq::empty(),
        }),
    )
}

/// The wire form of a level change's parameters.
pub open spec fn set_level_params_jv(p: SetLevelParams) -> JsonVal {
    JsonVal::Obj(seq![(("level")@, JsonVal::Str(level_label(p.level)))])
}

// ---------------------------------------------------------------------------
// Building the wire forms.
// ---------------------------------------------------------------------------
impl Implementation {
    /// The wire form of this name and version.
    pub fn to_json(&self) -> (r: JsonValue)
        ensures
            r@ == implementation_jv(*self),
    {
        let mut ms: Vec<(String, JsonValue)> = Vec::new();
        ms.push((String::from_str("name"), JsonValue::Str(self.name.clone())));
        ms.push((String::from_str("version"), JsonValue::Str(self.version.clone())));
        proof {
            assert(obj_view(ms@) =~= seq![
                (("name")@, JsonVal::Str(self.name@)),
                (("version")@, JsonVal::Str(self.version@)),
            ]);
        }
        JsonValue::Obj(ms)
    }
}

/// The wire form of a role.
fn role_to_json(r: &Role) -> (out: JsonValue)
    ensures
        out@ == role_jv(*r),
{
    match r {
        Role::User => JsonValue::Str(String::from_str("user")),
        Role::Assistant => JsonValue::Str(String::from_str("assistant")),
    }
}

impl Annotations {
    /// The wire form of these annotations.
    pub fn to_json(&self) -> (r: JsonValue)
        ensures
            r@ == annotations_jv(*self),
    {
        let mut ms: Vec<(String, JsonValue)> = Vec::new();
        match &self.audience {
            Some(roles) => {
                let mut arr: Vec<JsonValue> = Vec::new();
                let mut i: usize = 0;
                while i < roles.len()
                    invariant
                        i <= roles@.len(),
                        arr@.len() == i,
                        forall|k: int| 0 <= k < i ==> arr@[k]@ == role_jv(#[trigger] roles@[k]),
                    decreases roles@.len() - i,
                {
                    arr.push(role_to_json(&roles[i]));
                    i = i + 1;
                }
                proof {
                    assert(arr_view(arr@) =~= roles_jv(roles@));
                }
                ms.push((String::from_str("audience"), JsonValue::Arr(arr)));
            },
            None => {},
        }
        proof {
            assert(obj_view(ms@) =~= annotations_jv(*self)->Obj_0);
        }
        JsonValue::Obj(ms)
    }
}

/// The wire member list of optional annotations.
fn annotations_to_members(a: &Option<Annotations>, ms: &mut Vec<(String, JsonValue)>)
    ensures
        obj_view(final(ms)@) == obj_view(old(ms)@) + annotations_member(*a),
{
    match a {
        Some(ann) => {
            ms.push((String::from_str("annotations"), ann.to_json()));
            proof {
                assert(obj_view(ms@) =~= obj_view(old(ms)@) + annotations_member(*a));
            }
        },
        None => {
            proof {
                assert(obj_view(ms@) =~= obj_view(old(ms)@) + annotations_member(*a));
            }
        },
    }
}

impl ToolsCapability {
    /// The wire form of this capability.
    pub fn to_json(&self) -> (r: JsonValue)
        ensures
            r@ == tools_capability_jv(*self),
    {
        let mut ms: Vec<(String, JsonValue)> = Vec::new();
        match self.list_changed {
            Some(b) => {
                ms.push((String::from_str("listChanged"), JsonValue::Bool(b)));
            },
            None => {},
        }
        proof {
            assert(obj_view(ms@) =~= tools_capability_jv(*self)->Obj_0);
        }
        JsonValue::Obj(ms)
    }
}

impl RootsCapability {
    /// The wire form of this capability.
    pub fn to_json(&self) -> (r: JsonValue)
        ensures
            r@ == roots_capability_jv(*self),
    {
        let mut ms: Vec<(String, JsonValue)> = Vec::new();
        match self.list_changed {
            Some(b) => {
                ms.push((String::from_str("listChanged"), JsonValue::Bool(b)));
            },
            None => {},
        }
        proof {
            assert(obj_view(ms@) =~= roots_capability_jv(*self)->Obj_0);
        }
        JsonValue::Obj(ms)
    }
}

impl ServerCapabilities {
    /// The wire form of these capabilities.
    pub fn to_json(&self) -> (r: JsonValue)
        ensures
            r@ == server_capabilities_jv(*self),
    {
        let mut ms: Vec<(String, JsonValue)> = Vec::new();
        match &self.logging {
            Some(v) => {
                ms.push((String::from_str("logging"), v.deep_clone()));
            },
            None => {},
        }
        match &self.tools {
            Some(t) => {
                ms.push((String::from_str("tools"), t.to_json()));
            },
            None => {},
        }
        proof {
            assert(obj_view(ms@) =~= server_capabilities_jv(*self)->Obj_0);
        }
        JsonValue::Obj(ms)
    }
}

impl ClientCapabilities {
    /// The wire form of these capabilities.
    pub fn to_json(&self) -> (r: JsonValue)
        ensures
            r@ == client_capabilities_jv(*self),
    {
        let mut ms: Vec<(String, JsonValue)> = Vec::new();
        match &self.roots {
            Some(c) => {
                ms.push((String::from_str("roots"), c.to_json()));
            },
            None => {},
        }
        match &self.sampling {
            Some(v) => {
                ms.push((String::from_str("sampling"), v.deep_clone()));
            },
            None => {},
        }
        proof {
            assert(obj_view(ms@) =~= client_capabilities_jv(*self)->Obj_0);
        }
        JsonValue::Obj(ms)
    }
}

impl InitializeParams {
    /// The wire form of these parameters.
    pub fn to_json(&self) -> (r: JsonValue)
        ensures
            r@ == initialize_params_jv(*self),
    {
        let mut ms: Vec<(String, JsonValue)> = Vec::new();
        ms.push((
            String::from_str("protocolVersion"),
            JsonValue::Str(self.protocol_version.clone()),
        ));
        ms.push((String::from_str("capabilities"), self.capabilities.to_json()));
        ms.push((String::from_str("clientInfo"), self.client_info.to_json()));
        proof {
            assert(obj_view(ms@) =~= initialize_params_jv(*self)->Obj_0);
        }
        JsonValue::Obj(ms)
    }
}

impl InitializeResult {
    /// The wire form of this result.
    pub fn to_json(&self) -> (r: JsonValue)
        ensures
            r@ == initialize_result_jv(*self),
    {
        let mut ms: Vec<(String, JsonValue)> = Vec::new();
        ms.push((
            String::from_str("protocolVersion"),
            JsonValue::Str(self.protocol_version.clone()),
        ));
        ms.push((String::from_str("capabilities"), self.capabilities.to_json()));
        ms.push((String::from_str("serverInfo"), self.server_info.to_json()));
        match &self.instructions {
            Some(s) => {
                ms.push((String::from_str("instructions"), JsonValue::Str(s.clone())));
            },
            None => {},
        }
        proof {
            assert(obj_view(ms@) =~= initialize_result_jv(*self)->Obj_0);
        }
        JsonValue::Obj(ms)
    }
}

impl ToolInputSchema {
    /// The wire form of this schema.
    pub fn to_json(&self) -> (r: JsonValue)
        ensures
            r@ == tool_input_schema_jv(*self),
    {
        let mut ms: Vec<(String, JsonValue)> = Vec::new();
        ms.push((String::from_str("type"), JsonValue::Str(self.kind.clone())));
        match &self.properties {
            Some(props) => {
                ms.push((String::from_str("properties"), JsonValue::Obj(clone_members(props))));
            },
            None => {},
        }
        match &self.required {
            Some(names) => {
                let mut arr: Vec<JsonValue> = Vec::new();
                let mut i: usize = 0;
                while i < names.len()
                    invariant
                        i <= names@.len(),
                        arr@.len() == i,
                        forall|k: int|
                            0 <= k < i ==> arr@[k]@ == JsonVal::Str(#[trigger] names@[k]@),
                    decreases names@.len() - i,
                {
                    arr.push(JsonValue::Str(names[i].clone()));
                    i = i + 1;
                }
                proof {
                    assert(arr_view(arr@) =~= strings_jv(names@));
                }
                ms.push((String::from_str("required"), JsonValue::Arr(arr)));
            },
            None => {},
        }
        proof {
            assert(obj_view(ms@) =~= tool_input_schema_jv(*self)->Obj_0);
        }
        JsonValue::Obj(ms)
    }
}

impl Tool {
    /// The wire form of this tool.
    pub fn to_json(&self) -> (r: JsonValue)
        ensures
            r@ == tool_jv(*self),
    {
        let mut ms: Vec<(String, JsonValue)> = Vec::new();
        ms.push((String::from_str("name"), JsonValue::Str(self.name.clone())));
        match &self.description {
            Some(d) => {
                ms.push((String::from_str("description"), JsonValue::Str(d.clone())));
            },
            None => {},
        }
        ms.push((String::from_str("inputSchema"), self.input_schema.to_json()));
        proof {
            assert(obj_view(ms@) =~= tool_jv(*self)->Obj_0);
        }
        JsonValue::Obj(ms)
    }
}

impl ListToolsResult {
    /// The wire form of this listing.
    pub fn to_json(&self) -> (r: JsonValue)
        ensures
            r@ == list_tools_result_jv(*self),
    {
        let mut ms: Vec<(String, JsonValue)> = Vec::new();
        match &self.next_cursor {
            Some(c) => {
                ms.push((String::from_str("nextCursor"), JsonValue::Str(c.clone())));
            },
            None => {},
        }
        let mut arr: Vec<JsonValue> = Vec::new();
        let mut i: usize = 0;
        while i < self.tools.len()
            invariant
                i <= self.tools@.len(),
                arr@.len() == i,
                forall|k: int| 0 <= k < i ==> arr@[k]@ == tool_jv(#[trigger] self.tools@[k]),
            decreases self.tools@.len() - i,
        {
            arr.push(self.tools[i].to_json());
            i = i + 1;
        }
        proof {
            assert(arr_view(arr@) =~= tools_jv(self.tools@));
        }
        ms.push((String::from_str("tools"), JsonValue::Arr(arr)));
        proof {
            assert(obj_view(ms@) =~= list_tools_result_jv(*self)->Obj_0);
        }
        JsonValue::Obj(ms)
    }
}

impl EmptyResult {
    /// The wire form of this result.
    pub fn to_json(&self) -> (r: JsonValue)
        ensures
            r@ == empty_result_jv(*self),
    {
        let mut ms: Vec<(String, JsonValue)> = Vec::new();
        match &self._meta {
            Some(pairs) => {
                ms.push((String::from_str("_meta"), JsonValue::Obj(clone_members(pairs))));
            },
            None => {},
        }
        match &self.extra {
            Some(pairs) => {
                let mut extras = clone_members(pairs);
                ms.append(&mut extras);
            },
            None => {},
        }
        proof {
            assert(obj_view(ms@) =~= empty_result_jv(*self)->Obj_0);
        }
        JsonValue::Obj(ms)
    }
}

impl TextResourceContents {
    /// The wire form of these contents.
    pub fn to_json(&self) -> (r: JsonValue)
        ensures
            r@ == text_resource_jv(*self),
    {
        let mut ms: Vec<(String, JsonValue)> = Vec::new();
        ms.push((String::from_str("uri"), JsonValue::Str(self.uri.clone())));
        match &self.mime_type {
            Some(m) => {
                ms.push((String::from_str("mimeType"), JsonValue::Str(m.clone())));
            },
            None => {},
        }
        ms.push((String::from_str("text"), JsonValue::Str(self.text.clone())));
        proof {
            assert(obj_view(ms@) =~= text_resource_jv(*self)->Obj_0);
        }
        JsonValue::Obj(ms)
    }
}

impl BlobResourceContents {
    /// The wire form of these contents.
    pub fn to_json(&self) -> (r: JsonValue)
        ensures
            r@ == blob_resource_jv(*self),
    {
        let mut ms: Vec<(String, JsonValue)> = Vec::new();
        ms.push((String::from_str("uri"), JsonValue::Str(self.uri.clone())));
        match &self.mime_type {
            Some(m) => {
                ms.push((String::from_str("mimeType"), JsonValue::Str(m.clone())));
            },
            None => {},
        }
        ms.push((String::from_str("blob"), JsonValue::Str(self.blob.clone())));
        proof {
            assert(obj_view(ms@) =~= blob_resource_jv(*self)->Obj_0);
        }
        JsonValue::Obj(ms)
    }
}

impl ResourceContents {
    /// The wire form of these contents.
    pub fn to_json(&self) -> (r: JsonValue)
        ensures
            r@ == resource_contents_jv(*self),
    {
        match self {
            ResourceContents::Text(t) => t.to_json(),
            ResourceContents::Blob(b) => b.to_json(),
        }
    }
}

impl ToolResultContent {
    /// The wire form of this entry.
    pub fn to_json(&self) -> (r: JsonValue)
        ensures
            r@ == tool_result_content_jv(*self),
    {
        let mut ms: Vec<(String, JsonValue)> = Vec::new();
        match self {
            ToolResultContent::Text(t) => {
                ms.push((String::from_str("type"), JsonValue::Str(t.kind.clone())));
                ms.push((String::from_str("text"), JsonValue::Str(t.text.clone())));
                annotations_to_members(&t.annotations, &mut ms);
                proof {
                    assert(obj_view(ms@) =~= tool_result_content_jv(*self)->Obj_0);
                }
                JsonValue::Obj(ms)
            },
            ToolResultContent::Audio(a) => {
                ms.push((String::from_str("type"), JsonValue::Str(a.kind.clone())));
                ms.push((String::from_str("data"), JsonValue::Str(a.data.clone())));
                ms.push((String::from_str("mimeType"), JsonValue::Str(a.mime_type.clone())));
                annotations_to_members(&a.annotations, &mut ms);
                proof {
                    assert(obj_view(ms@) =~= tool_result_content_jv(*self)->Obj_0);
                }
                JsonValue::Obj(ms)
            },
            ToolResultContent::Image(im) => {
                ms.push((String::from_str("type"), JsonValue::Str(im.kind.clone())));
                ms.push((String::from_str("data"), JsonValue::Str(im.data.clone())));
                ms.push((String::from_str("mimeType"), JsonValue::Str(im.mime_type.clone())));
                annotations_to_members(&im.annotations, &mut ms);
                proof {
                    assert(obj_view(ms@) =~= tool_result_content_jv(*self)->Obj_0);
                }
                JsonValue::Obj(ms)
            },
            ToolResultContent::Resource(e) => {
                ms.push((String::from_str("type"), JsonValue::Str(e.kind.clone())));
                ms.push((String::from_str("resource"), e.resource.to_json()));
                annotations_to_members(&e.annotations, &mut ms);
                proof {
                    assert(obj_view(ms@) =~= tool_result_content_jv(*self)->Obj_0);
                }
                JsonValue::Obj(ms)
            },
        }
    }
}

impl CallToolResult {
    /// The wire form of this result.
    pub fn to_json(&self) -> (r: JsonValue)
        ensures
            r@ == call_tool_result_jv(*self),
    {
        let mut arr: Vec<JsonValue> = Vec::new();
        let mut i: usize = 0;
        while i < self.content.len()
            invariant
                i <= self.content@.len(),
                arr@.len() == i,
                forall|k: int|
                    0 <= k < i ==> arr@[k]@ == tool_result_content_jv(
                        #[trigger] self.content@[k],
                    ),
            decreases self.content@.len() - i,
        {
            arr.push(self.content[i].to_json());
            i = i + 1;
        }
        proof {
            assert(arr_view(arr@) =~= contents_jv(self.content@));
        }
        let mut ms: Vec<(String, JsonValue)> = Vec::new();
        ms.push((String::from_str("content"), JsonValue::Arr(arr)));
        match self.is_error {
            Some(b) => {
                ms.push((String::from_str("isError"), JsonValue::Bool(b)));
            },
            None => {},
        }
        proof {
            assert(obj_view(ms@) =~= call_tool_result_jv(*self)->Obj_0);
        }
        JsonValue::Obj(ms)
    }
}

impl LoggingMessageParams {
    /// The wire form of these parameters.
    pub fn to_json(&self) -> (r: JsonValue)
        ensures
            r@ == logging_message_params_jv(*self),
    {
        let mut ms: Vec<(String, JsonValue)> = Vec::new();
        ms.push((String::from_str("level"), JsonValue::Str(self.level.to_string())));
        match &self.logger {
            Some(l) => {
                ms.push((String::from_str("logger"), JsonValue::Str(l.clone())));
            },
            None => {},
        }
        ms.push((String::from_str("data"), self.data.deep_clone()));
        proof {
            assert(obj_view(ms@) =~= logging_message_params_jv(*self)->Obj_0);
        }
        JsonValue::Obj(ms)
    }
}

impl CancelledParams {
    /// The wire form of this cancellation.
    pub fn to_json(&self) -> (r: JsonValue)
        ensures
            r@ == cancelled_params_jv(*self),
    {
        let mut ms: Vec<(String, JsonValue)> = Vec::new();
        let idv = match &self.request_id {
            RequestId::String(s) => JsonValue::Str(s.clone()),
            RequestId::Number(n) => JsonValue::Int(*n),
        };
        ms.push((String::from_str("requestId"), idv));
        match &self.reason {
            Some(s) => {
                ms.push((String::from_str("reason"), JsonValue::Str(s.clone())));
            },
            None => {},
        }
        proof {
            assert(obj_view(ms@) =~= cancelled_params_jv(*self)->Obj_0);
        }
        JsonValue::Obj(ms)
    }
}

impl PaginatedParams {
    /// The wire form of this cursor.
    pub fn to_json(&self) -> (r: JsonValue)
        ensures
            r@ == paginated_params_jv(*self),
    {
        let mut ms: Vec<(String, JsonValue)> = Vec::new();
        match &self.cursor {
            Some(c) => {
                ms.push((String::from_str("cursor"), JsonValue::Str(c.clone())));
            },
            None => {},
        }
        proof {
            assert(obj_view(ms@) =~= paginated_params_jv(*self)->Obj_0);
        }
        JsonValue::Obj(ms)
    }
}

impl CallToolParams {
    /// The wire form of these parameters.
    pub fn to_json(&self) -> (r: JsonValue)
        ensures
            r@ == call_tool_params_jv(*self),
    {
        let mut ms: Vec<(String, JsonValue)> = Vec::new();
        ms.push((String::from_str("name"), JsonValue::Str(self.name.clone())));
        match &self.arguments {
            Some(pairs) => {
                ms.push((String::from_str("arguments"), JsonValue::Obj(clone_members(pairs))));
            },
            None => {},
        }
        proof {
            assert(obj_view(ms@) =~= call_tool_params_jv(*self)->Obj_0);
        }
        JsonValue::Obj(ms)
    }
}

impl SetLevelParams {
    /// The wire form of these parameters.
    pub fn to_json(&self) -> (r: JsonValue)
        ensures
            r@ == set_level_params_jv(*self),
    {
        let mut ms: Vec<(String, JsonValue)> = Vec::new();
        ms.push((String::from_str("level"), JsonValue::Str(self.level.to_string())));
        proof {
            assert(obj_view(ms@) =~= set_level_params_jv(*self)->Obj_0);
        }
        JsonValue::Obj(ms)
    }
}


/// The wire form of a string-to-string map.
pub open spec fn string_map_jv(pairs: Seq<(String, String)>) -> Seq<(Seq<char>, JsonVal)> {
    Seq::new(pairs.len(), |i: int| if 0 <= i < pairs.len() {
        (pairs[i].0@, JsonVal::Str(pairs[i].1@))
    } else {
        (Seq::empty(), JsonVal::Null)
    })
}

/// The wire form of a progress token.
pub open spec fn progress_token_jv(t: ProgressToken) -> JsonVal {
    match t {
        ProgressToken::String(s) => JsonVal::Str(s@),
        ProgressToken::Number(n) => JsonVal::Int(n),
    }
}

/// The wire form of a progress report.
pub open spec fn progress_params_jv(p: ProgressParams) -> JsonVal {
    JsonVal::Obj(
        seq![
            (("progressToken")@, progress_token_jv(p.progress_token)),
            (("progress")@, JsonVal::Int(p.progress)),
        ] + (match p.total {
            Some(t) => seq![(("total")@, JsonVal::Int(t))],
            None => Seq::empty(),
        }),
    )
}

/// The wire form of a resource-updated notice's parameters.
pub open spec fn resource_updated_params_jv(p: ResourceUpdatedParams) -> JsonVal {
    JsonVal::Obj(seq![(("uri")@, JsonVal::Str(p.uri@))])
}

/// The wire form of a read request's parameters.
pub open spec fn read_resource_params_jv(p: ReadResourceParams) -> JsonVal {
    JsonVal::Obj(seq![(("uri")@, JsonVal::Str(p.uri@))])
}

/// The wire form of a subscription's parameters.
pub open spec fn subscribe_params_jv(p: SubscribeParams) -> JsonVal {
    JsonVal::Obj(seq![(("uri")@, JsonVal::Str(p.uri@))])
}

/// The wire form of an unsubscription's parameters.
pub open spec fn unsubscribe_params_jv(p: UnsubscribeParams) -> JsonVal {
    JsonVal::Obj(seq![(("uri")@, JsonVal::Str(p.uri@))])
}

/// The wire form of a prompt request's parameters.
pub open spec fn get_prompt_params_jv(p: GetPromptParams) -> JsonVal {
    JsonVal::Obj(
        seq![(("name")@, JsonVal::Str(p.name@))] + (match p.arguments {
            Some(pairs) => seq![(("arguments")@, JsonVal::Obj(string_map_jv(pairs@)))],
            None => Seq::empty(),
        }),
    )
}

/// The wire form of a prompt or resource reference.
pub open spec fn reference_jv(r: Reference) -> JsonVal {
    match r {
        Reference::Prompt(p) => JsonVal::Obj(
            seq![
                (("type")@, JsonVal::Str(p.kind@)),
                (("name")@, JsonVal::Str(p.name@)),
            ],
        ),
        Reference::Resource(res) => JsonVal::Obj(
            seq![
                (("type")@, JsonVal::Str(res.kind@)),
                (("uri")@, JsonVal::Str(res.uri@)),
            ],
        ),
    }
}

/// The wire form of a completion request's parameters.
pub open spec fn complete_params_jv(p: CompleteParams) -> JsonVal {
    JsonVal::Obj(
        seq![
            (("ref")@, reference_jv(p.ref_)),
            (
                ("argument")@,
                JsonVal::Obj(
                    seq![
                        (("name")@, JsonVal::Str(p.argument.name@)),
                        (("value")@, JsonVal::Str(p.argument.value@)),
                    ],
                ),
            ),
        ],
    )
}

impl ProgressParams {
    /// The wire form of this report.
    pub fn to_json(&self) -> (r: JsonValue)
        ensures
            r@ == progress_params_jv(*self),
    {
        let mut ms: Vec<(String, JsonValue)> = Vec::new();
        let token = match &self.progress_token {
            ProgressToken::String(s) => JsonValue::Str(s.clone()),
            ProgressToken::Number(n) => JsonValue::Int(*n),
        };
        ms.push((String::from_str("progressToken"), token));
        ms.push((String::from_str("progress"), JsonValue::Int(self.progress)));
        match self.total {
            Some(t) => {
                ms.push((String::from_str("total"), JsonValue::Int(t)));
            },
            None => {},
        }
        proof {
            assert(obj_view(ms@) =~= progress_params_jv(*self)->Obj_0);
        }
        JsonValue::Obj(ms)
    }
}

impl ResourceUpdatedParams {
    /// The wire form of this notice.
    pub fn to_json(&self) -> (r: JsonValue)
        ensures
            r@ == resource_updated_params_jv(*self),
    {
        let mut ms: Vec<(String, JsonValue)> = Vec::new();
        ms.push((String::from_str("uri"), JsonValue::Str(self.uri.clone())));
        proof {
            assert(obj_view(ms@) =~= resource_updated_params_jv(*self)->Obj_0);
        }
        JsonValue::Obj(ms)
    }
}

impl ReadResourceParams {
    /// The wire form of these parameters.
    pub fn to_json(&self) -> (r: JsonValue)
        ensures
            r@ == read_resource_params_jv(*self),
    {
        let mut ms: Vec<(String, JsonValue)> = Vec::new();
        ms.push((String::from_str("uri"), JsonValue::Str(self.uri.clone())));
        proof {
            assert(obj_view(ms@) =~= read_resource_params_jv(*self)->Obj_0);
        }
        JsonValue::Obj(ms)
    }
}

impl SubscribeParams {
    /// The wire form of these parameters.
    pub fn to_json(&self) -> (r: JsonValue)
        ensures
            r@ == subscribe_params_jv(*self),
    {
        let mut ms: Vec<(String, JsonValue)> = Vec::new();
        ms.push((String::from_str("uri"), JsonValue::Str(self.uri.clone())));
        proof {
            assert(obj_view(ms@) =~= subscribe_params_jv(*self)->Obj_0);
        }
        JsonValue::Obj(ms)
    }
}

impl UnsubscribeParams {
    /// The wire form of these parameters.
    pub fn to_json(&self) -> (r: JsonValue)
        ensures
            r@ == unsubscribe_params_jv(*self),
    {
        let mut ms: Vec<(String, JsonValue)> = Vec::new();
        ms.push((String::from_str("uri"), JsonValue::Str(self.uri.clone())));
        proof {
            assert(obj_view(ms@) =~= unsubscribe_params_jv(*self)->Obj_0);
        }
        JsonValue::Obj(ms)
    }
}

impl GetPromptParams {
    /// The wire form of these parameters.
    pub fn to_json(&self) -> (r: JsonValue)
        ensures
            r@ == get_prompt_params_jv(*self),
    {
        let mut ms: Vec<(String, JsonValue)> = Vec::new();
        ms.push((String::from_str("name"), JsonValue::Str(self.name.clone())));
        match &self.arguments {
            Some(pairs) => {
                let mut args: Vec<(String, JsonValue)> = Vec::new();
                let mut i: usize = 0;
                while i < pairs.len()
                    invariant
                        i <= pairs@.len(),
                        args@.len() == i,
                        forall|k: int|
                            0 <= k < i ==> (#[trigger] args@[k]).0@ == pairs@[k].0@
                                && args@[k].1@ == JsonVal::Str(pairs@[k].1@),
                    decreases pairs@.len() - i,
                {
                    let entry = &pairs[i];
                    args.push((entry.0.clone(), JsonValue::Str(entry.1.clone())));
                    i = i + 1;
                }
                proof {
                    assert(obj_view(args@) =~= string_map_jv(pairs@));
                }
                ms.push((String::from_str("arguments"), JsonValue::Obj(args)));
            },
            None => {},
        }
        proof {
            assert(obj_view(ms@) =~= get_prompt_params_jv(*self)->Obj_0);
        }
        JsonValue::Obj(ms)
    }
}

impl CompleteParams {
    /// The wire form of these parameters.
    pub fn to_json(&self) -> (r: JsonValue)
        ensures
            r@ == complete_params_jv(*self),
    {
        let mut ms: Vec<(String, JsonValue)> = Vec::new();
        let reference = match &self.ref_ {
            Reference::Prompt(p) => {
                let mut rms: Vec<(String, JsonValue)> = Vec::new();
                rms.push((String::from_str("type"), JsonValue::Str(p.kind.clone())));
                rms.push((String::from_str("name"), JsonValue::Str(p.name.clone())));
                proof {
                    assert(obj_view(rms@) =~= reference_jv(self.ref_)->Obj_0);
                }
                JsonValue::Obj(rms)
            },
            Reference::Resource(res) => {
                let mut rms: Vec<(String, JsonValue)> = Vec::new();
                rms.push((String::from_str("type"), JsonValue::Str(res.kind.clone())));
                rms.push((String::from_str("uri"), JsonValue::Str(res.uri.clone())));
                proof {
                    assert(obj_view(rms@) =~= reference_jv(self.ref_)->Obj_0);
                }
                JsonValue::Obj(rms)
            },
        };
        ms.push((String::from_str("ref"), reference));
        let mut ams: Vec<(String, JsonValue)> = Vec::new();
        ams.push((String::from_str("name"), JsonValue::Str(self.argument.name.clone())));
        ams.push((String::from_str("value"), JsonValue::Str(self.argument.value.clone())));
        proof {
            assert(obj_view(ams@) =~= seq![
                (("name")@, JsonVal::Str(self.argument.name@)),
                (("value")@, JsonVal::Str(self.argument.value@)),
            ]);
        }
        ms.push((String::from_str("argument"), JsonValue::Obj(ams)));
        proof {
            assert(obj_view(ms@) =~= complete_params_jv(*self)->Obj_0);
        }
        JsonValue::Obj(ms)
    }
}

// ---------------------------------------------------------------------------
// Reading the wire forms back.
// ---------------------------------------------------------------------------
/// The member under `key`, when the value is an object that carries it.
pub open spec fn any_member(v: JsonVal, key: Seq<char>) -> Option<JsonVal> {
    match v {
        JsonVal::Obj(ms) => jv_lookup(ms, key),
        _ => None,
    }
}

/// The string member under `key`, if it is one.
pub open spec fn str_member(v: JsonVal, key: Seq<char>) -> Option<Seq<char>> {
    match any_member(v, key) {
        Some(JsonVal::Str(s)) => Some(s),
        _ => None,
    }
}

/// The boolean member under `key`, if it is one.
pub open spec fn bool_member(v: JsonVal, key: Seq<char>) -> Option<bool> {
    match any_member(v, key) {
        Some(JsonVal::Bool(b)) => Some(b),
        _ => None,
    }
}

/// The object member under `key`, if it is one.
pub open spec fn obj_member(v: JsonVal, key: Seq<char>) -> Option<Seq<(Seq<char>, JsonVal)>> {
    match any_member(v, key) {
        Some(JsonVal::Obj(ms)) => Some(ms),
        _ => None,
    }
}

/// The request id under `key`, if the member is a string or an integer.
pub open spec fn id_member(v: JsonVal, key: Seq<char>) -> Option<IdVal> {
    match any_member(v, key) {
        Some(m) => jv_to_id(m),
        None => None,
    }
}

/// The member under `key`, read through a borrowed value.
pub fn member_of<'a>(v: &'a JsonValue, key: &str) -> (r: Option<&'a JsonValue>)
    ensures
        match r {
            Some(m) => any_member(v@, key@) == Some(m@),
            None => any_member(v@, key@) is None,
        },
{
    match v {
        JsonValue::Obj(ms) => obj_lookup(ms, &key.to_owned()),
        _ => None,
    }
}

/// The string member under `key`, copied out.
pub fn str_member_of(v: &JsonValue, key: &str) -> (r: Option<String>)
    ensures
        match r {
            Some(s) => str_member(v@, key@) == Some(s@),
            None => str_member(v@, key@) is None,
        },
{
    match member_of(v, key) {
        Some(JsonValue::Str(s)) => Some(s.clone()),
        _ => None,
    }
}

impl CancelledParams {
    /// Reads a cancellation from its wire form: succeeds exactly when the
    /// `requestId` member is a string or an integer; a string `reason` is
    /// kept, anything else reads as no reason.
    pub fn from_json(v: &JsonValue) -> (r: Option<CancelledParams>)
        ensures
            match r {
                Some(p) => id_member(v@, ("requestId")@) == Some(p.request_id@) && (match p.reason {
                    Some(s) => str_member(v@, ("reason")@) == Some(s@),
                    None => str_member(v@, ("reason")@) is None,
                }),
                None => id_member(v@, ("requestId")@) is None,
            },
    {
        let idv = match member_of(v, "requestId") {
            Some(JsonValue::Str(s)) => RequestId::String(s.clone()),
            Some(JsonValue::Int(n)) => RequestId::Number(*n),
            _ => {
                return None;
            },
        };
        let reason = str_member_of(v, "reason");
        Some(CancelledParams { request_id: idv, reason })
    }
}

impl CallToolParams {
    /// Reads a tool call's parameters from their wire form: succeeds
    /// exactly when the `name` member is a string; an object `arguments`
    /// member is kept, anything else reads as no arguments.
    pub fn from_json(v: &JsonValue) -> (r: Option<CallToolParams>)
        ensures
            match r {
                Some(p) => str_member(v@, ("name")@) == Some(p.name@) && (match p.arguments {
                    Some(pairs) => obj_member(v@, ("arguments")@) == Some(obj_view(pairs@)),
                    None => obj_member(v@, ("arguments")@) is None,
                }),
                None => str_member(v@, ("name")@) is None,
            },
    {
        let name = match str_member_of(v, "name") {
            Some(s) => s,
            None => {
                return None;
            },
        };
        let arguments = match member_of(v, "arguments") {
            Some(JsonValue::Obj(pairs)) => Some(clone_members(pairs)),
            _ => None,
        };
        Some(CallToolParams { name, arguments })
    }
}

impl SetLevelParams {
    /// Reads a level change from its wire form: succeeds exactly when the
    /// `level` member is a string; its name is read case-insensitively and
    /// unknown names fall back to `Info`.
    pub fn from_json(v: &JsonValue) -> (r: Option<SetLevelParams>)
        ensures
            match r {
                Some(p) => (match str_member(v@, ("level")@) {
                    Some(s) => p.level == spec_level_from(s),
                    None => false,
                }),
                None => str_member(v@, ("level")@) is None,
            },
    {
        match member_of(v, "level") {
            Some(JsonValue::Str(s)) => Some(SetLevelParams { level: LoggingLevel::from(s.as_str()) }),
            _ => None,
        }
    }
}

impl ResourceContents {
    /// Reads resource contents from their wire form: text contents when a
    /// string `text` member is present, else binary contents when a string
    /// `blob` member is; a string `uri` is required either way.
    pub fn from_json(v: &JsonValue) -> (r: Option<ResourceContents>)
        ensures
            match r {
                Some(ResourceContents::Text(t)) => str_member(v@, ("uri")@) == Some(t.uri@)
                    && str_member(v@, ("text")@) == Some(t.text@) && (match t.mime_type {
                    Some(m) => str_member(v@, ("mimeType")@) == Some(m@),
                    None => str_member(v@, ("mimeType")@) is None,
                }),
                Some(ResourceContents::Blob(b)) => str_member(v@, ("uri")@) == Some(b.uri@)
                    && str_member(v@, ("text")@) is None && str_member(v@, ("blob")@) == Some(
                    b.blob@,
                ) && (match b.mime_type {
                    Some(m) => str_member(v@, ("mimeType")@) == Some(m@),
                    None => str_member(v@, ("mimeType")@) is None,
                }),
                None => str_member(v@, ("uri")@) is None || (str_member(v@, ("text")@) is None
                    && str_member(v@, ("blob")@) is None),
            },
    {
        let uri = match str_member_of(v, "uri") {
            Some(s) => s,
            None => {
                return None;
            },
        };
        let mime_type = str_member_of(v, "mimeType");
        match str_member_of(v, "text") {
            Some(text) => Some(
                ResourceContents::Text(TextResourceContents { uri, mime_type, text }),
            ),
            None => match str_member_of(v, "blob") {
                Some(blob) => Some(
                    ResourceContents::Blob(BlobResourceContents { uri, mime_type, blob }),
                ),
                None => None,
            },
        }
    }
}

/// Whether a JSON value reads as resource contents.
pub open spec fn parses_resource(v: JsonVal) -> bool {
    str_member(v, ("uri")@) is Some && (str_member(v, ("text")@) is Some || str_member(
        v,
        ("blob")@,
    ) is Some)
}

/// Whether a JSON value reads as one content entry.
pub open spec fn parses_entry(v: JsonVal) -> bool {
    match str_member(v, ("type")@) {
        Some(k) => if k == ("text")@ {
            str_member(v, ("text")@) is Some
        } else if k == ("audio")@ {
            str_member(v, ("data")@) is Some && str_member(v, ("mimeType")@) is Some
        } else if k == ("image")@ {
            str_member(v, ("data")@) is Some && str_member(v, ("mimeType")@) is Some
        } else if k == ("resource")@ {
            match any_member(v, ("resource")@) {
                Some(rv) => parses_resource(rv),
                None => false,
            }
        } else {
            false
        },
        None => false,
    }
}

/// Whether a JSON value reads as a tool call result.
pub open spec fn parses_call_tool_result(v: JsonVal) -> bool {
    match any_member(v, ("content")@) {
        Some(JsonVal::Arr(entries)) => forall|i: int|
            0 <= i < entries.len() ==> parses_entry(#[trigger] entries[i]),
        _ => false,
    }
}

/// Whether a parsed content entry reads back the given one: tagged by its
/// `type` member, with annotations left aside.
pub open spec fn entry_reads(v: JsonVal, e: ToolResultContent) -> bool {
    match e {
        ToolResultContent::Text(t) => str_member(v, ("type")@) == Some(("text")@) && t.kind@ == (
        "text")@ && str_member(v, ("text")@) == Some(t.text@) && t.annotations is None,
        ToolResultContent::Audio(a) => str_member(v, ("type")@) == Some(("audio")@) && a.kind@ == (
        "audio")@ && str_member(v, ("data")@) == Some(a.data@) && str_member(v, ("mimeType")@)
            == Some(a.mime_type@) && a.annotations is None,
        ToolResultContent::Image(im) => str_member(v, ("type")@) == Some(("image")@) && im.kind@
            == ("image")@ && str_member(v, ("data")@) == Some(im.data@) && str_member(
            v,
            ("mimeType")@,
        ) == Some(im.mime_type@) && im.annotations is None,
        ToolResultContent::Resource(_) => str_member(v, ("type")@) == Some(("resource")@),
    }
}

impl ToolResultContent {
    /// Reads one content entry from its wire form, deciding the variant by
    /// the `type` member. Annotations are not read back.
    pub fn from_json(v: &JsonValue) -> (r: Option<ToolResultContent>)
        ensures
            r is Some <==> parses_entry(v@),
            match r {
                Some(e) => entry_reads(v@, e),
                None => true,
            },
    {
        let kind = match str_member_of(v, "type") {
            Some(s) => s,
            None => {
                return None;
            },
        };
        if str_eq_text(kind.as_str(), "text") {
            match str_member_of(v, "text") {
                Some(text) => Some(
                    ToolResultContent::Text(TextContent { kind, text, annotations: None }),
                ),
                None => None,
            }
        } else if str_eq_text(kind.as_str(), "audio") {
            match (str_member_of(v, "data"), str_member_of(v, "mimeType")) {
                (Some(data), Some(mime_type)) => Some(
                    ToolResultContent::Audio(
                        AudioContent { kind, data, mime_type, annotations: None },
                    ),
                ),
                _ => None,
            }
        } else if str_eq_text(kind.as_str(), "image") {
            match (str_member_of(v, "data"), str_member_of(v, "mimeType")) {
                (Some(data), Some(mime_type)) => Some(
                    ToolResultContent::Image(
                        ImageContent { kind, data, mime_type, annotations: None },
                    ),
                ),
                _ => None,
            }
        } else if str_eq_text(kind.as_str(), "resource") {
            match member_of(v, "resource") {
                Some(res) => match ResourceContents::from_json(res) {
                    Some(resource) => Some(
                        ToolResultContent::Resource(
                            EmbeddedResource { kind, resource, annotations: None },
                        ),
                    ),
                    None => None,
                },
                None => None,
            }
        } else {
            None
        }
    }
}

/// Whether two string slices hold the same text.
pub fn str_eq_text(a: &str, b: &str) -> (r: bool)
    ensures
        r == (a@ == b@),
{
    String::from_str(a).eq(&String::from_str(b))
}

impl CallToolResult {
    /// Reads a tool call result from its wire form: succeeds exactly when
    /// the `content` member is an array whose every entry reads as one
    /// content entry; a boolean `isError` member is kept.
    #[verifier::loop_isolation(false)]
    pub fn from_json(v: &JsonValue) -> (r: Option<CallToolResult>)
        ensures
            r is Some <==> parses_call_tool_result(v@),
            match r {
                Some(res) => (match any_member(v@, ("content")@) {
                    Some(JsonVal::Arr(entries)) => res.content@.len() == entries.len() && forall|
                        i: int,
                    |
                        0 <= i < entries.len() ==> entry_reads(
                            entries[i],
                            #[trigger] res.content@[i],
                        ),
                    _ => false,
                }) && (match res.is_error {
                    Some(b) => bool_member(v@, ("isError")@) == Some(b),
                    None => bool_member(v@, ("isError")@) is None,
                }),
                None => true,
            },
    {
        let entries = match member_of(v, "content") {
            Some(JsonValue::Arr(items)) => items,
            _ => {
                return None;
            },
        };
        let mut content: Vec<ToolResultContent> = Vec::new();
        let mut i: usize = 0;
        while i < entries.len()
            invariant
                i <= entries@.len(),
                content@.len() == i,
                forall|k: int|
                    0 <= k < i ==> entry_reads(entries@[k]@, #[trigger] content@[k]),
                forall|k: int| 0 <= k < i ==> parses_entry(#[trigger] entries@[k]@),
            decreases entries@.len() - i,
        {
            match ToolResultContent::from_json(&entries[i]) {
                Some(e) => {
                    content.push(e);
                },
                None => {
                    proof {
                        let es = arr_view(entries@);
                        assert(any_member(v@, ("content")@) == Some(JsonVal::Arr(es)));
                        assert(es[i as int] == entries@[i as int]@);
                        assert(!parses_entry(es[i as int]));
                        let es2 = any_member(v@, ("content")@)->Some_0->Arr_0;
                        assert(es2 == es);
                        assert(!parses_entry(es2[i as int]));
                    }
                    return None;
                },
            }
            i = i + 1;
        }
        let is_error = match member_of(v, "isError") {
            Some(JsonValue::Bool(b)) => Some(*b),
            _ => None,
        };
        proof {
            let es = arr_view(entries@);
            assert forall|k: int| 0 <= k < es.len() implies parses_entry(#[trigger] es[k]) by {
                assert(es[k] == entries@[k]@);
            }
            assert forall|k: int| 0 <= k < es.len() implies entry_reads(
                es[k],
                #[trigger] content@[k],
            ) by {
                assert(es[k] == entries@[k]@);
            }
        }
        Some(CallToolResult { content, is_error })
    }
}

} // verus!
