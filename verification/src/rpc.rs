//! The JSON-RPC 2.0 envelope: requests, notifications, responses and errors,
//! with a codec that is proved to round-trip over the JSON text layer.
//!
//! Structural rules for reading an object: a response carries `id` and
//! `result`; an error carries `id` and `error`; a request carries `method`
//! and `id`; a notification carries `method` without `id`. The `jsonrpc`
//! member must hold the literal version.

use vstd::prelude::*;

use crate::json::{
    jser, jv_lookup, lemma_json_round_trip, obj_view, spec_parse_json, JsonVal, JsonValue,
};
use crate::json::{parse_json_text, to_json_text};
use crate::errors::MCPError;

verus! {

/// The JSON-RPC version this runtime speaks.
pub open spec fn version_seq() -> Seq<char> {
    seq!['2', '.', '0']
}

pub open spec fn key_jsonrpc() -> Seq<char> {
    seq!['j', 's', 'o', 'n', 'r', 'p', 'c']
}

pub open spec fn key_id() -> Seq<char> {
    seq!['i', 'd']
}

pub open spec fn key_method() -> Seq<char> {
    seq!['m', 'e', 't', 'h', 'o', 'd']
}

pub open spec fn key_params() -> Seq<char> {
    seq!['p', 'a', 'r', 'a', 'm', 's']
}

pub open spec fn key_result() -> Seq<char> {
    seq!['r', 'e', 's', 'u', 'l', 't']
}

pub open spec fn key_error() -> Seq<char> {
    seq!['e', 'r', 'r', 'o', 'r']
}

pub open spec fn key_code() -> Seq<char> {
    seq!['c', 'o', 'd', 'e']
}

pub open spec fn key_message() -> Seq<char> {
    seq!['m', 'e', 's', 's', 'a', 'g', 'e']
}

pub open spec fn key_data() -> Seq<char> {
    seq!['d', 'a', 't', 'a']
}

/// A request id: a string or a signed 64-bit integer. Equality is by
/// variant and value.
pub enum RequestId {
    String(String),
    Number(i64),
}

/// The model of a request id.
pub enum IdVal {
    S(Seq<char>),
    N(i64),
}

impl View for RequestId {
    type V = IdVal;

    open spec fn view(&self) -> IdVal {
        match self {
            RequestId::String(s) => IdVal::S(s@),
            RequestId::Number(n) => IdVal::N(*n),
        }
    }
}

impl RequestId {
    /// An owned copy, equal in the model.
    pub fn dup(&self) -> (r: RequestId)
        ensures
            r@ == self@,
    {
        match self {
            RequestId::String(s) => RequestId::String(s.clone()),
            RequestId::Number(n) => RequestId::Number(*n),
        }
    }

    /// Whether two ids are the same.
    pub fn same_as(&self, other: &RequestId) -> (r: bool)
        ensures
            r == (self@ == other@),
    {
        match (self, other) {
            (RequestId::String(a), RequestId::Number(_)) => false,
            (RequestId::Number(_), RequestId::String(b)) => false,
            (RequestId::String(a), RequestId::String(b)) => a.eq(b),
            (RequestId::Number(a), RequestId::Number(b)) => *a == *b,
        }
    }
}

/// A request that expects a response.
pub struct JSONRPCRequest {
    pub jsonrpc: String,
    pub id: RequestId,
    pub method: String,
    pub params: Option<JsonValue>,
}

/// A notification, which expects no response.
pub struct JSONRPCNotification {
    pub jsonrpc: String,
    pub method: String,
    pub params: Option<JsonValue>,
}

/// A successful response to a request.
pub struct JSONRPCResponse {
    pub jsonrpc: String,
    pub id: RequestId,
    pub result: JsonValue,
}

/// The error member of an error response.
pub struct JSONRPCErrorObject {
    pub code: i32,
    pub message: String,
    pub data: Option<JsonValue>,
}

/// A response reporting that a request failed.
pub struct JSONRPCError {
    pub jsonrpc: String,
    pub id: RequestId,
    pub error: JSONRPCErrorObject,
}

/// Any JSON-RPC message.
pub enum JSONRPCMessage {
    Request(JSONRPCRequest),
    Notification(JSONRPCNotification),
    Response(JSONRPCResponse),
    Error(JSONRPCError),
}

/// The model of a request.
pub struct ReqVal {
    pub jsonrpc: Seq<char>,
    pub id: IdVal,
    pub method: Seq<char>,
    pub params: Option<JsonVal>,
}

/// The model of a notification.
pub struct NoteVal {
    pub jsonrpc: Seq<char>,
    pub method: Seq<char>,
    pub params: Option<JsonVal>,
}

/// The model of a response.
pub struct RespVal {
    pub jsonrpc: Seq<char>,
    pub id: IdVal,
    pub result: JsonVal,
}

/// The model of an error member.
pub struct ErrObjVal {
    pub code: i32,
    pub message: Seq<char>,
    pub data: Option<JsonVal>,
}

/// The model of an error response.
pub struct ErrVal {
    pub jsonrpc: Seq<char>,
    pub id: IdVal,
    pub error: ErrObjVal,
}

/// The model of any message.
pub enum MsgVal {
    Request(ReqVal),
    Notification(NoteVal),
    Response(RespVal),
    Error(ErrVal),
}

/// The model of an optional parameter value.
pub open spec fn opt_view(p: Option<JsonValue>) -> Option<JsonVal> {
    match p {
        Some(v) => Some(v@),
        None => None,
    }
}

impl View for JSONRPCRequest {
    type V = ReqVal;

    open spec fn view(&self) -> ReqVal {
        ReqVal {
            jsonrpc: self.jsonrpc@,
            id: self.id@,
            method: self.method@,
            params: opt_view(self.params),
        }
    }
}

impl View for JSONRPCNotification {
    type V = NoteVal;

    open spec fn view(&self) -> NoteVal {
        NoteVal { jsonrpc: self.jsonrpc@, method: self.method@, params: opt_view(self.params) }
    }
}

impl View for JSONRPCResponse {
    type V = RespVal;

    open spec fn view(&self) -> RespVal {
        RespVal { jsonrpc: self.jsonrpc@, id: self.id@, result: self.result@ }
    }
}

impl View for JSONRPCErrorObject {
    type V = ErrObjVal;

    open spec fn view(&self) -> ErrObjVal {
        ErrObjVal { code: self.code, message: self.message@, data: opt_view(self.data) }
    }
}

impl View for JSONRPCError {
    type V = ErrVal;

    open spec fn view(&self) -> ErrVal {
        ErrVal { jsonrpc: self.jsonrpc@, id: self.id@, error: self.error@ }
    }
}

impl View for JSONRPCMessage {
    type V = MsgVal;

    open spec fn view(&self) -> MsgVal {
        match self {
            JSONRPCMessage::Request(r) => MsgVal::Request(r@),
            JSONRPCMessage::Notification(n) => MsgVal::Notification(n@),
            JSONRPCMessage::Response(r) => MsgVal::Response(r@),
            JSONRPCMessage::Error(e) => MsgVal::Error(e@),
        }
    }
}

// ---------------------------------------------------------------------------
// Well-formedness: messages whose text round-trips.
// ---------------------------------------------------------------------------
/// A message the codec round-trips: it carries the version this runtime
/// speaks. Ids, methods and payloads are free — every string survives the
/// text, escaped as needed.
pub open spec fn wf_msg(m: MsgVal) -> bool {
    match m {
        MsgVal::Request(r) => r.jsonrpc == version_seq(),
        MsgVal::Notification(n) => n.jsonrpc == version_seq(),
        MsgVal::Response(r) => r.jsonrpc == version_seq(),
        MsgVal::Error(e) => e.jsonrpc == version_seq(),
    }
}

// ---------------------------------------------------------------------------
// Encoding: a message as a JSON value, members in canonical order.
// ---------------------------------------------------------------------------
/// An id as a JSON value.
pub open spec fn id_jv(id: IdVal) -> JsonVal {
    match id {
        IdVal::S(s) => JsonVal::Str(s),
        IdVal::N(n) => JsonVal::Int(n),
    }
}

/// The `params` member, present only when there are parameters.
pub open spec fn params_members(p: Option<JsonVal>) -> Seq<(Seq<char>, JsonVal)> {
    match p {
        Some(v) => seq![(key_params(), v)],
        None => Seq::empty(),
    }
}

/// An error member as a JSON object.
pub open spec fn enc_err_obj(e: ErrObjVal) -> JsonVal {
    JsonVal::Obj(
        seq![(key_code(), JsonVal::Int(e.code as i64)), (key_message(), JsonVal::Str(e.message))]
            + params_data(e.data),
    )
}

/// The `data` member of an error, present only when set.
pub open spec fn params_data(d: Option<JsonVal>) -> Seq<(Seq<char>, JsonVal)> {
    match d {
        Some(v) => seq![(key_data(), v)],
        None => Seq::empty(),
    }
}

/// A message as a JSON value: canonical member order, absent members omitted.
pub open spec fn enc_msg(m: MsgVal) -> JsonVal {
    match m {
        MsgVal::Request(r) => JsonVal::Obj(
            seq![
                (key_jsonrpc(), JsonVal::Str(r.jsonrpc)),
                (key_id(), id_jv(r.id)),
                (key_method(), JsonVal::Str(r.method)),
            ] + params_members(r.params),
        ),
        MsgVal::Notification(n) => JsonVal::Obj(
            seq![
                (key_jsonrpc(), JsonVal::Str(n.jsonrpc)),
                (key_method(), JsonVal::Str(n.method)),
            ] + params_members(n.params),
        ),
        MsgVal::Response(r) => JsonVal::Obj(
            seq![
                (key_jsonrpc(), JsonVal::Str(r.jsonrpc)),
                (key_id(), id_jv(r.id)),
                (key_result(), r.result),
            ],
        ),
        MsgVal::Error(e) => JsonVal::Obj(
            seq![
                (key_jsonrpc(), JsonVal::Str(e.jsonrpc)),
                (key_id(), id_jv(e.id)),
                (key_error(), enc_err_obj(e.error)),
            ],
        ),
    }
}

/// The wire text of a message.
pub open spec fn spec_encode_message(m: MsgVal) -> Seq<char> {
    jser(enc_msg(m))
}

// ---------------------------------------------------------------------------
// Decoding: structural matching on a parsed JSON object.
// ---------------------------------------------------------------------------
/// An id read back from a JSON value.
pub open spec fn jv_to_id(v: JsonVal) -> Option<IdVal> {
    match v {
        JsonVal::Str(s) => Some(IdVal::S(s)),
        JsonVal::Int(n) => Some(IdVal::N(n)),
        _ => None,
    }
}

/// An error member read back from a JSON value: `code` must be a 32-bit
/// integer and `message` a string; `data` is free.
pub open spec fn dec_err_obj(v: JsonVal) -> Option<ErrObjVal> {
    match v {
        JsonVal::Obj(ms) => match (jv_lookup(ms, key_code()), jv_lookup(ms, key_message())) {
            (Some(JsonVal::Int(c)), Some(JsonVal::Str(msg))) => if -2147483648 <= c
                <= 2147483647 {
                Some(ErrObjVal { code: c as i32, message: msg, data: jv_lookup(ms, key_data()) })
            } else {
                None
            },
            _ => None,
        },
        _ => None,
    }
}

/// A message read back from a JSON value by the structural rules.
pub open spec fn dec_msg(v: JsonVal) -> Option<MsgVal> {
    match v {
        JsonVal::Obj(ms) => {
            if jv_lookup(ms, key_jsonrpc()) != Some(JsonVal::Str(version_seq())) {
                None
            } else {
                let id = jv_lookup(ms, key_id());
                let method = jv_lookup(ms, key_method());
                let result = jv_lookup(ms, key_result());
                let error = jv_lookup(ms, key_error());
                let params = jv_lookup(ms, key_params());
                if id is Some && result is Some {
                    match jv_to_id(id->Some_0) {
                        Some(idv) => Some(
                            MsgVal::Response(
                                RespVal {
                                    jsonrpc: version_seq(),
                                    id: idv,
                                    result: result->Some_0,
                                },
                            ),
                        ),
                        None => None,
                    }
                } else if id is Some && error is Some {
                    match (jv_to_id(id->Some_0), dec_err_obj(error->Some_0)) {
                        (Some(idv), Some(eo)) => Some(
                            MsgVal::Error(ErrVal { jsonrpc: version_seq(), id: idv, error: eo }),
                        ),
                        _ => None,
                    }
                } else if id is Some && method is Some {
                    match (jv_to_id(id->Some_0), method->Some_0) {
                        (Some(idv), JsonVal::Str(ms2)) => Some(
                            MsgVal::Request(
                                ReqVal {
                                    jsonrpc: version_seq(),
                                    id: idv,
                                    method: ms2,
                                    params: params,
                                },
                            ),
                        ),
                        _ => None,
                    }
                } else if method is Some {
                    match method->Some_0 {
                        JsonVal::Str(ms2) => Some(
                            MsgVal::Notification(
                                NoteVal { jsonrpc: version_seq(), method: ms2, params: params },
                            ),
                        ),
                        _ => None,
                    }
                } else {
                    None
                }
            }
        },
        _ => None,
    }
}

/// The decode of a wire text: parse, then match the structure.
pub open spec fn spec_decode_message(s: Seq<char>) -> Option<MsgVal> {
    match spec_parse_json(s) {
        Some(v) => dec_msg(v),
        None => None,
    }
}

// ---------------------------------------------------------------------------
// Lookup characterization.
// ---------------------------------------------------------------------------
/// A lookup finds the member at the first index whose key matches.
proof fn lemma_lookup_index(ms: Seq<(Seq<char>, JsonVal)>, key: Seq<char>, idx: int)
    requires
        0 <= idx < ms.len(),
        ms[idx].0 == key,
        forall|j: int| 0 <= j < idx ==> (#[trigger] ms[j].0) != key,
    ensures
        jv_lookup(ms, key) == Some(ms[idx].1),
    decreases idx,
{
    if idx > 0 {
        assert(ms[0].0 != key);
        assert forall|j: int| 0 <= j < idx - 1 implies (#[trigger] ms.drop_first()[j].0)
            != key by {
            assert(ms.drop_first()[j] == ms[j + 1]);
        }
        assert(ms.drop_first()[idx - 1] == ms[idx]);
        lemma_lookup_index(ms.drop_first(), key, idx - 1);
    }
}

/// A lookup for a key that no member carries finds nothing.
proof fn lemma_lookup_none(ms: Seq<(Seq<char>, JsonVal)>, key: Seq<char>)
    requires
        forall|j: int| 0 <= j < ms.len() ==> (#[trigger] ms[j].0) != key,
    ensures
        jv_lookup(ms, key) is None,
    decreases ms.len(),
{
    if ms.len() > 0 {
        assert forall|j: int| 0 <= j < ms.drop_first().len() implies (
        #[trigger] ms.drop_first()[j].0) != key by {
            assert(ms.drop_first()[j] == ms[j + 1]);
        }
        lemma_lookup_none(ms.drop_first(), key);
    }
}

/// The member keys of equal length are still distinct.
proof fn lemma_keys_distinct()
    ensures
        key_method() != key_params(),
        key_method() != key_result(),
        key_params() != key_result(),
        key_code() != key_data(),
        key_jsonrpc() != key_message(),
{
    assert(key_method()[0] == 'm' && key_params()[0] == 'p' && key_result()[0] == 'r');
    assert(key_code()[0] == 'c' && key_data()[0] == 'd');
    assert(key_jsonrpc()[0] == 'j' && key_message()[0] == 'm');
}

// ---------------------------------------------------------------------------
// Structural decoding inverts the encoding.
// ---------------------------------------------------------------------------
/// Reading an id back from its JSON form gives the id.
proof fn lemma_id_round_trip(id: IdVal)
    ensures
        jv_to_id(id_jv(id)) == Some(id),
{
}

/// Decoding the encoded error member gives it back.
proof fn lemma_dec_enc_err_obj(e: ErrObjVal)
    ensures
        dec_err_obj(enc_err_obj(e)) == Some(e),
{
    lemma_keys_distinct();
    let ms = seq![
        (key_code(), JsonVal::Int(e.code as i64)),
        (key_message(), JsonVal::Str(e.message)),
    ] + params_data(e.data);
    assert(ms[0] == (key_code(), JsonVal::Int(e.code as i64)));
    assert(ms[1] == (key_message(), JsonVal::Str(e.message)));
    lemma_lookup_index(ms, key_code(), 0);
    lemma_lookup_index(ms, key_message(), 1);
    match e.data {
        Some(d) => {
            assert(ms[2] == (key_data(), d));
            lemma_lookup_index(ms, key_data(), 2);
        },
        None => {
            lemma_lookup_none(ms, key_data());
        },
    }
    assert((e.code as i64) as i32 == e.code);
}

/// Decoding the encoded message gives it back: the structural rules pick the
/// same variant and the same members.
proof fn lemma_dec_enc(m: MsgVal)
    requires
        wf_msg(m),
    ensures
        dec_msg(enc_msg(m)) == Some(m),
{
    lemma_keys_distinct();
    match m {
        MsgVal::Request(r) => {
            let ms = seq![
                (key_jsonrpc(), JsonVal::Str(r.jsonrpc)),
                (key_id(), id_jv(r.id)),
                (key_method(), JsonVal::Str(r.method)),
            ] + params_members(r.params);
            assert(ms[0] == (key_jsonrpc(), JsonVal::Str(r.jsonrpc)));
            assert(ms[1] == (key_id(), id_jv(r.id)));
            assert(ms[2] == (key_method(), JsonVal::Str(r.method)));
            lemma_lookup_index(ms, key_jsonrpc(), 0);
            lemma_lookup_index(ms, key_id(), 1);
            lemma_lookup_index(ms, key_method(), 2);
            match r.params {
                Some(p) => {
                    assert(ms[3] == (key_params(), p));
                    lemma_lookup_index(ms, key_params(), 3);
                },
                None => {
                    lemma_lookup_none(ms, key_params());
                },
            }
            lemma_lookup_none(ms, key_result());
            lemma_lookup_none(ms, key_error());
            lemma_id_round_trip(r.id);
        },
        MsgVal::Notification(n) => {
            let ms = seq![
                (key_jsonrpc(), JsonVal::Str(n.jsonrpc)),
                (key_method(), JsonVal::Str(n.method)),
            ] + params_members(n.params);
            assert(ms[0] == (key_jsonrpc(), JsonVal::Str(n.jsonrpc)));
            assert(ms[1] == (key_method(), JsonVal::Str(n.method)));
            lemma_lookup_index(ms, key_jsonrpc(), 0);
            lemma_lookup_index(ms, key_method(), 1);
            match n.params {
                Some(p) => {
                    assert(ms[2] == (key_params(), p));
                    lemma_lookup_index(ms, key_params(), 2);
                },
                None => {
                    lemma_lookup_none(ms, key_params());
                },
            }
            lemma_lookup_none(ms, key_id());
            lemma_lookup_none(ms, key_result());
            lemma_lookup_none(ms, key_error());
        },
        MsgVal::Response(r) => {
            let ms = seq![
                (key_jsonrpc(), JsonVal::Str(r.jsonrpc)),
                (key_id(), id_jv(r.id)),
                (key_result(), r.result),
            ];
            assert(ms[0] == (key_jsonrpc(), JsonVal::Str(r.jsonrpc)));
            assert(ms[1] == (key_id(), id_jv(r.id)));
            assert(ms[2] == (key_result(), r.result));
            lemma_lookup_index(ms, key_jsonrpc(), 0);
            lemma_lookup_index(ms, key_id(), 1);
            lemma_lookup_index(ms, key_result(), 2);
            lemma_id_round_trip(r.id);
        },
        MsgVal::Error(e) => {
            let ms = seq![
                (key_jsonrpc(), JsonVal::Str(e.jsonrpc)),
                (key_id(), id_jv(e.id)),
                (key_error(), enc_err_obj(e.error)),
            ];
            assert(ms[0] == (key_jsonrpc(), JsonVal::Str(e.jsonrpc)));
            assert(ms[1] == (key_id(), id_jv(e.id)));
            assert(ms[2] == (key_error(), enc_err_obj(e.error)));
            lemma_lookup_index(ms, key_jsonrpc(), 0);
            lemma_lookup_index(ms, key_id(), 1);
            lemma_lookup_index(ms, key_error(), 2);
            lemma_lookup_none(ms, key_result());
            lemma_id_round_trip(e.id);
            lemma_dec_enc_err_obj(e.error);
        },
    }
}

/// Round trip: decoding the wire text of any well-formed message gives the
/// message back, variant, id, method and payload included.
pub proof fn lemma_message_round_trip(m: MsgVal)
    requires
        wf_msg(m),
    ensures
        spec_decode_message(spec_encode_message(m)) == Some(m),
{
    lemma_json_round_trip(enc_msg(m));
    lemma_dec_enc(m);
}

// ---------------------------------------------------------------------------
// The executable codec.
// ---------------------------------------------------------------------------
/// Whether two strings hold the same text.
fn string_eq(a: &String, b: &String) -> (r: bool)
    ensures
        r == (a@ == b@),
{
    a.eq(b)
}

/// The first member of `ms` under `key`, as `jv_lookup` describes.
#[verifier::loop_isolation(false)]
pub fn obj_lookup<'a>(ms: &'a Vec<(String, JsonValue)>, key: &String) -> (r: Option<&'a JsonValue>)
    ensures
        match r {
            Some(v) => jv_lookup(obj_view(ms@), key@) == Some(v@),
            None => jv_lookup(obj_view(ms@), key@) is None,
        },
{
    let mut i: usize = 0;
    proof {
        assert(obj_view(ms@).skip(0) =~= obj_view(ms@));
    }
    while i < ms.len()
        invariant
            i <= ms@.len(),
            jv_lookup(obj_view(ms@), key@) == jv_lookup(obj_view(ms@).skip(i as int), key@),
        decreases ms@.len() - i,
    {
        proof {
            assert(obj_view(ms@).skip(i as int)[0] == (ms@[i as int].0@, ms@[i as int].1@));
            assert(obj_view(ms@).skip(i as int).drop_first() =~= obj_view(ms@).skip(i as int + 1));
        }
        if string_eq(&ms[i].0, key) {
            return Some(&ms[i].1);
        }
        i = i + 1;
    }
    proof {
        assert(obj_view(ms@).skip(ms@.len() as int) =~= Seq::<(Seq<char>, JsonVal)>::empty());
    }
    None
}

/// An id as a JSON value.
fn id_to_json(id: &RequestId) -> (r: JsonValue)
    ensures
        r@ == id_jv(id@),
{
    match id {
        RequestId::String(s) => JsonValue::Str(s.clone()),
        RequestId::Number(n) => JsonValue::Int(*n),
    }
}

/// An error member as a JSON object.
fn err_obj_to_json(e: &JSONRPCErrorObject) -> (r: JsonValue)
    ensures
        r@ == enc_err_obj(e@),
{
    proof {
        reveal_strlit("code");
        reveal_strlit("message");
        reveal_strlit("data");
    }
    let mut ms: Vec<(String, JsonValue)> = Vec::new();
    ms.push((String::from_str("code"), JsonValue::Int(e.code as i64)));
    ms.push((String::from_str("message"), JsonValue::Str(e.message.clone())));
    match &e.data {
        Some(d) => {
            ms.push((String::from_str("data"), d.deep_clone()));
        },
        None => {},
    }
    proof {
        assert(("code")@ =~= key_code());
        assert(("message")@ =~= key_message());
        assert(("data")@ =~= key_data());
        assert(obj_view(ms@) =~= seq![
            (key_code(), JsonVal::Int(e.code as i64)),
            (key_message(), JsonVal::Str(e.message@)),
        ] + params_data(opt_view(e.data)));
    }
    JsonValue::Obj(ms)
}

/// A message as a JSON value, as `enc_msg` describes.
fn message_to_json(m: &JSONRPCMessage) -> (r: JsonValue)
    ensures
        r@ == enc_msg(m@),
{
    proof {
        reveal_strlit("jsonrpc");
        reveal_strlit("id");
        reveal_strlit("method");
        reveal_strlit("params");
        reveal_strlit("result");
        reveal_strlit("error");
    }
    let mut ms: Vec<(String, JsonValue)> = Vec::new();
    match m {
        JSONRPCMessage::Request(r) => {
            ms.push((String::from_str("jsonrpc"), JsonValue::Str(r.jsonrpc.clone())));
            ms.push((String::from_str("id"), id_to_json(&r.id)));
            ms.push((String::from_str("method"), JsonValue::Str(r.method.clone())));
            match &r.params {
                Some(p) => {
                    ms.push((String::from_str("params"), p.deep_clone()));
                },
                None => {},
            }
            proof {
                assert(("jsonrpc")@ =~= key_jsonrpc());
                assert(("id")@ =~= key_id());
                assert(("method")@ =~= key_method());
                assert(("params")@ =~= key_params());
                assert(obj_view(ms@) =~= seq![
                    (key_jsonrpc(), JsonVal::Str(r.jsonrpc@)),
                    (key_id(), id_jv(r.id@)),
                    (key_method(), JsonVal::Str(r.method@)),
                ] + params_members(opt_view(r.params)));
            }
            JsonValue::Obj(ms)
        },
        JSONRPCMessage::Notification(n) => {
            ms.push((String::from_str("jsonrpc"), JsonValue::Str(n.jsonrpc.clone())));
            ms.push((String::from_str("method"), JsonValue::Str(n.method.clone())));
            match &n.params {
                Some(p) => {
                    ms.push((String::from_str("params"), p.deep_clone()));
                },
                None => {},
            }
            proof {
                assert(("jsonrpc")@ =~= key_jsonrpc());
                assert(("method")@ =~= key_method());
                assert(("params")@ =~= key_params());
                assert(obj_view(ms@) =~= seq![
                    (key_jsonrpc(), JsonVal::Str(n.jsonrpc@)),
                    (key_method(), JsonVal::Str(n.method@)),
                ] + params_members(opt_view(n.params)));
            }
            JsonValue::Obj(ms)
        },
        JSONRPCMessage::Response(r) => {
            ms.push((String::from_str("jsonrpc"), JsonValue::Str(r.jsonrpc.clone())));
            ms.push((String::from_str("id"), id_to_json(&r.id)));
            ms.push((String::from_str("result"), r.result.deep_clone()));
            proof {
                assert(("jsonrpc")@ =~= key_jsonrpc());
                assert(("id")@ =~= key_id());
                assert(("result")@ =~= key_result());
                assert(obj_view(ms@) =~= seq![
                    (key_jsonrpc(), JsonVal::Str(r.jsonrpc@)),
                    (key_id(), id_jv(r.id@)),
                    (key_result(), r.result@),
                ]);
            }
            JsonValue::Obj(ms)
        },
        JSONRPCMessage::Error(e) => {
            ms.push((String::from_str("jsonrpc"), JsonValue::Str(e.jsonrpc.clone())));
            ms.push((String::from_str("id"), id_to_json(&e.id)));
            ms.push((String::from_str("error"), err_obj_to_json(&e.error)));
            proof {
                assert(("jsonrpc")@ =~= key_jsonrpc());
                assert(("id")@ =~= key_id());
                assert(("error")@ =~= key_error());
                assert(obj_view(ms@) =~= seq![
                    (key_jsonrpc(), JsonVal::Str(e.jsonrpc@)),
                    (key_id(), id_jv(e.id@)),
                    (key_error(), enc_err_obj(e.error@)),
                ]);
            }
            JsonValue::Obj(ms)
        },
    }
}

/// Encodes a message as its wire text.
pub fn encode_message(m: &JSONRPCMessage) -> (r: String)
    ensures
        r@ == spec_encode_message(m@),
{
    let jv = message_to_json(m);
    to_json_text(&jv)
}

/// Reads an id from a JSON value, as `jv_to_id` describes.
fn json_to_id(v: &JsonValue) -> (r: Option<RequestId>)
    ensures
        match r {
            Some(id) => jv_to_id(v@) == Some(id@),
            None => jv_to_id(v@) is None,
        },
{
    match v {
        JsonValue::Str(s) => Some(RequestId::String(s.clone())),
        JsonValue::Int(n) => Some(RequestId::Number(*n)),
        _ => None,
    }
}

/// Reads an error member from a JSON value, as `dec_err_obj` describes.
fn json_to_err_obj(v: &JsonValue) -> (r: Option<JSONRPCErrorObject>)
    ensures
        match r {
            Some(e) => dec_err_obj(v@) == Some(e@),
            None => dec_err_obj(v@) is None,
        },
{
    proof {
        reveal_strlit("code");
        reveal_strlit("message");
        reveal_strlit("data");
    }
    match v {
        JsonValue::Obj(ms) => {
            let kcode = String::from_str("code");
            let kmessage = String::from_str("message");
            let kdata = String::from_str("data");
            proof {
                assert(kcode@ =~= key_code());
                assert(kmessage@ =~= key_message());
                assert(kdata@ =~= key_data());
            }
            let code_m = obj_lookup(ms, &kcode);
            let message_m = obj_lookup(ms, &kmessage);
            match (code_m, message_m) {
                (Some(JsonValue::Int(c)), Some(JsonValue::Str(msg))) => {
                    if -2147483648 <= *c && *c <= 2147483647 {
                        let data = match obj_lookup(ms, &kdata) {
                            Some(d) => Some(d.deep_clone()),
                            None => None,
                        };
                        Some(
                            JSONRPCErrorObject {
                                code: *c as i32,
                                message: msg.clone(),
                                data,
                            },
                        )
                    } else {
                        None
                    }
                },
                _ => None,
            }
        },
        _ => None,
    }
}

/// Reads a message from a JSON value by the structural rules, as `dec_msg`
/// describes.
fn json_to_message(v: &JsonValue) -> (r: Option<JSONRPCMessage>)
    ensures
        match r {
            Some(m) => dec_msg(v@) == Some(m@),
            None => dec_msg(v@) is None,
        },
{
    proof {
        reveal_strlit("jsonrpc");
        reveal_strlit("2.0");
        reveal_strlit("id");
        reveal_strlit("method");
        reveal_strlit("params");
        reveal_strlit("result");
        reveal_strlit("error");
    }
    match v {
        JsonValue::Obj(ms) => {
            let kjsonrpc = String::from_str("jsonrpc");
            let kid = String::from_str("id");
            let kmethod = String::from_str("method");
            let kparams = String::from_str("params");
            let kresult = String::from_str("result");
            let kerror = String::from_str("error");
            let vversion = String::from_str("2.0");
            proof {
                assert(kjsonrpc@ =~= key_jsonrpc());
                assert(kid@ =~= key_id());
                assert(kmethod@ =~= key_method());
                assert(kparams@ =~= key_params());
                assert(kresult@ =~= key_result());
                assert(kerror@ =~= key_error());
                assert(vversion@ =~= version_seq());
            }
            let version_ok = match obj_lookup(ms, &kjsonrpc) {
                Some(JsonValue::Str(s)) => string_eq(s, &vversion),
                _ => false,
            };
            if !version_ok {
                return None;
            }
            let id_m = obj_lookup(ms, &kid);
            let method_m = obj_lookup(ms, &kmethod);
            let result_m = obj_lookup(ms, &kresult);
            let error_m = obj_lookup(ms, &kerror);
            let params_m = obj_lookup(ms, &kparams);
            let params: Option<JsonValue> = match params_m {
                Some(p) => Some(p.deep_clone()),
                None => None,
            };
            match (id_m, result_m) {
                (Some(idv), Some(resv)) => {
                    return match json_to_id(idv) {
                        Some(id) => Some(
                            JSONRPCMessage::Response(
                                JSONRPCResponse {
                                    jsonrpc: vversion,
                                    id,
                                    result: resv.deep_clone(),
                                },
                            ),
                        ),
                        None => None,
                    };
                },
                _ => {},
            }
            match (id_m, error_m) {
                (Some(idv), Some(errv)) => {
                    return match (json_to_id(idv), json_to_err_obj(errv)) {
                        (Some(id), Some(error)) => Some(
                            JSONRPCMessage::Error(JSONRPCError { jsonrpc: vversion, id, error }),
                        ),
                        _ => None,
                    };
                },
                _ => {},
            }
            match (id_m, method_m) {
                (Some(idv), Some(methv)) => {
                    return match (json_to_id(idv), methv) {
                        (Some(id), JsonValue::Str(name)) => Some(
                            JSONRPCMessage::Request(
                                JSONRPCRequest {
                                    jsonrpc: vversion,
                                    id,
                                    method: name.clone(),
                                    params,
                                },
                            ),
                        ),
                        _ => None,
                    };
                },
                _ => {},
            }
            match method_m {
                Some(JsonValue::Str(name)) => Some(
                    JSONRPCMessage::Notification(
                        JSONRPCNotification { jsonrpc: vversion, method: name.clone(), params },
                    ),
                ),
                _ => None,
            }
        },
        _ => None,
    }
}

/// Decodes a wire text: returns the message exactly when the text is valid
/// JSON whose structure matches one of the four envelope forms with the
/// right version; every other text is a parse failure.
pub fn decode_message(s: &str) -> (r: Result<JSONRPCMessage, MCPError>)
    requires
        s@.len() < 0x1000_0000,
    ensures
        match r {
            Ok(m) => spec_decode_message(s@) == Some(m@),
            Err(_) => spec_decode_message(s@) is None,
        },
{
    proof {
        reveal_strlit("the text is not a JSON-RPC message");
    }
    match parse_json_text(s) {
        Some(v) => match json_to_message(&v) {
            Some(m) => Ok(m),
            None => Err(
                MCPError::Serialization(String::from_str("the text is not a JSON-RPC message")),
            ),
        },
        None => Err(
            MCPError::Serialization(String::from_str("the text is not a JSON-RPC message")),
        ),
    }
}

// ---------------------------------------------------------------------------
// Envelope constructors.
// ---------------------------------------------------------------------------
impl JSONRPCRequest {
    /// A request with the runtime's JSON-RPC version.
    pub fn new(id: RequestId, method: String, params: Option<JsonValue>) -> (r: JSONRPCRequest)
        ensures
            r@ == (ReqVal {
                jsonrpc: version_seq(),
                id: id@,
                method: method@,
                params: opt_view(params),
            }),
    {
        proof {
            reveal_strlit("2.0");
            assert(("2.0")@ =~= version_seq());
        }
        JSONRPCRequest { jsonrpc: String::from_str("2.0"), id, method, params }
    }
}

impl JSONRPCNotification {
    /// A notification with the runtime's JSON-RPC version.
    pub fn new(method: String, params: Option<JsonValue>) -> (r: JSONRPCNotification)
        ensures
            r@ == (NoteVal { jsonrpc: version_seq(), method: method@, params: opt_view(params) }),
    {
        proof {
            reveal_strlit("2.0");
            assert(("2.0")@ =~= version_seq());
        }
        JSONRPCNotification { jsonrpc: String::from_str("2.0"), method, params }
    }
}

impl JSONRPCResponse {
    /// A response with the runtime's JSON-RPC version.
    pub fn new(id: RequestId, result: JsonValue) -> (r: JSONRPCResponse)
        ensures
            r@ == (RespVal { jsonrpc: version_seq(), id: id@, result: result@ }),
    {
        proof {
            reveal_strlit("2.0");
            assert(("2.0")@ =~= version_seq());
        }
        JSONRPCResponse { jsonrpc: String::from_str("2.0"), id, result }
    }
}

impl JSONRPCError {
    /// An error response with the runtime's JSON-RPC version.
    pub fn new(id: RequestId, error_obj: JSONRPCErrorObject) -> (r: JSONRPCError)
        ensures
            r@ == (ErrVal { jsonrpc: version_seq(), id: id@, error: error_obj@ }),
    {
        proof {
            reveal_strlit("2.0");
            assert(("2.0")@ =~= version_seq());
        }
        JSONRPCError { jsonrpc: String::from_str("2.0"), id, error: error_obj }
    }

    /// An error response from its code, message and optional data.
    pub fn new_with_details(id: RequestId, code: i32, message: String, data: Option<JsonValue>) -> (r:
        JSONRPCError)
        ensures
            r@ == (ErrVal {
                jsonrpc: version_seq(),
                id: id@,
                error: ErrObjVal { code, message: message@, data: opt_view(data) },
            }),
    {
        JSONRPCError::new(id, JSONRPCErrorObject { code, message, data })
    }
}

} // verus!
