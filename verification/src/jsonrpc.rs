use vstd::prelude::*;

use crate::error::CopilotError;
use crate::json::{field, members, JsonNumber, JsonValue};
use std::collections::HashMap;
use vstd::std_specs::iter::IteratorSpec;
use std::time::Duration;

verus! {

broadcast use vstd::std_specs::hash::group_hash_axioms;

// =============================================================================
// JSON-RPC 2.0 message types
// =============================================================================

/// JSON-RPC request ID (can be string or integer).
#[derive(Debug, Clone, PartialEq, Eq, Hash)]
pub enum JsonRpcId {
    Num(i64),
    Str(String),
}

impl From<i64> for JsonRpcId {
    fn from(n: i64) -> (r: Self) {
        JsonRpcId::Num(n)
    }
}

impl vstd::std_specs::convert::FromSpecImpl<i64> for JsonRpcId {
    open spec fn obeys_from_spec() -> bool {
        true
    }

    open spec fn from_spec(n: i64) -> Self {
        JsonRpcId::Num(n)
    }
}

impl From<String> for JsonRpcId {
    fn from(s: String) -> (r: Self) {
        JsonRpcId::Str(s)
    }
}

impl vstd::std_specs::convert::FromSpecImpl<String> for JsonRpcId {
    open spec fn obeys_from_spec() -> bool {
        true
    }

    open spec fn from_spec(s: String) -> Self {
        JsonRpcId::Str(s)
    }
}

impl<'a> From<&'a str> for JsonRpcId {
    fn from(s: &'a str) -> (r: Self)
        ensures
            r matches JsonRpcId::Str(t) && t@ == s@,
    {
        JsonRpcId::Str(s.to_owned())
    }
}

impl<'a> vstd::std_specs::convert::FromSpecImpl<&'a str> for JsonRpcId {
    /// The result holds a fresh `String`, which no spec function can name;
    /// the impl's own `ensures` says what it holds.
    open spec fn obeys_from_spec() -> bool {
        false
    }

    open spec fn from_spec(s: &'a str) -> Self {
        JsonRpcId::Str(choose|t: String| t@ == s@)
    }
}

/// The characters of the protocol version that every message carries.
pub open spec fn version_text() -> Seq<char> {
    seq!['2', '.', '0']
}

fn version_string() -> (s: String)
    ensures
        s@ == version_text(),
{
    let s = "2.0".to_owned();
    proof {
        reveal_strlit("2.0");
        assert(s@ =~= version_text());
    }
    s
}

/// JSON-RPC 2.0 Request.
#[derive(Debug, Clone)]
pub struct JsonRpcRequest {
    pub jsonrpc: String,
    pub method: String,
    pub params: Option<JsonValue>,
    pub id: Option<JsonRpcId>,
}

impl JsonRpcRequest {
    /// Create a new request.
    pub fn new(method: &str, params: Option<JsonValue>, id: Option<JsonRpcId>) -> (r: Self)
        ensures
            r.jsonrpc@ == version_text(),
            r.method@ == method@,
            r.params == params,
            r.id == id,
    {
        JsonRpcRequest { jsonrpc: version_string(), method: method.to_owned(), params, id }
    }

    /// Create a notification (no id).
    pub fn notification(method: &str, params: Option<JsonValue>) -> (r: Self)
        ensures
            r.jsonrpc@ == version_text(),
            r.method@ == method@,
            r.params == params,
            r.id is None,
    {
        Self::new(method, params, None)
    }

    /// Check if this is a notification.
    pub fn is_notification(&self) -> (b: bool)
        ensures
            b == (self.id is None),
    {
        self.id.is_none()
    }
}

/// JSON-RPC 2.0 Error object.
#[derive(Debug, Clone)]
pub struct JsonRpcError {
    pub code: i32,
    pub message: String,
    pub data: Option<JsonValue>,
}

impl JsonRpcError {
    /// Standard error codes.
    pub const PARSE_ERROR: i32 = -32700;
    pub const INVALID_REQUEST: i32 = -32600;
    pub const METHOD_NOT_FOUND: i32 = -32601;
    pub const INVALID_PARAMS: i32 = -32602;
    pub const INTERNAL_ERROR: i32 = -32603;

    /// Create a new error.
    pub fn new(code: i32, message: &str) -> (e: Self)
        ensures
            e.code == code,
            e.message@ == message@,
            e.data is None,
    {
        JsonRpcError { code, message: message.to_owned(), data: None }
    }

    /// Create an error with data.
    pub fn with_data(code: i32, message: &str, data: JsonValue) -> (e: Self)
        ensures
            e.code == code,
            e.message@ == message@,
            e.data == Some(data),
    {
        JsonRpcError { code, message: message.to_owned(), data: Some(data) }
    }
}

/// JSON-RPC 2.0 Response.
#[derive(Debug, Clone)]
pub struct JsonRpcResponse {
    pub jsonrpc: String,
    pub id: Option<JsonRpcId>,
    pub result: Option<JsonValue>,
    pub error: Option<JsonRpcError>,
}

impl JsonRpcResponse {
    /// Create a success response.
    pub fn success(id: JsonRpcId, result: JsonValue) -> (r: Self)
        ensures
            r.jsonrpc@ == version_text(),
            r.id == Some(id),
            r.result == Some(result),
            r.error is None,
    {
        JsonRpcResponse { jsonrpc: version_string(), id: Some(id), result: Some(result), error: None }
    }

    /// Create an error response.
    pub fn error(id: JsonRpcId, error: JsonRpcError) -> (r: Self)
        ensures
            r.jsonrpc@ == version_text(),
            r.id == Some(id),
            r.result is None,
            r.error == Some(error),
    {
        JsonRpcResponse { jsonrpc: version_string(), id: Some(id), result: None, error: Some(error) }
    }

    /// Check if this is an error response.
    pub fn is_error(&self) -> (b: bool)
        ensures
            b == (self.error is Some),
    {
        self.error.is_some()
    }
}


// =============================================================================
// Messages as JSON objects
// =============================================================================

/// The key of a message's protocol version.
pub open spec fn jsonrpc_key() -> Seq<char> {
    seq!['j', 's', 'o', 'n', 'r', 'p', 'c']
}

/// The key of a request's method.
pub open spec fn method_key() -> Seq<char> {
    seq!['m', 'e', 't', 'h', 'o', 'd']
}

/// The key of a request's parameters.
pub open spec fn params_key() -> Seq<char> {
    seq!['p', 'a', 'r', 'a', 'm', 's']
}

/// The key of a message's id.
pub open spec fn id_key() -> Seq<char> {
    seq!['i', 'd']
}

/// The key of a response's result.
pub open spec fn result_key() -> Seq<char> {
    seq!['r', 'e', 's', 'u', 'l', 't']
}

/// The key of a response's error.
pub open spec fn error_key() -> Seq<char> {
    seq!['e', 'r', 'r', 'o', 'r']
}

/// The key of an error's code.
pub open spec fn code_key() -> Seq<char> {
    seq!['c', 'o', 'd', 'e']
}

/// The key of an error's message.
pub open spec fn message_key() -> Seq<char> {
    seq!['m', 'e', 's', 's', 'a', 'g', 'e']
}

/// The key of an error's data.
pub open spec fn data_key() -> Seq<char> {
    seq!['d', 'a', 't', 'a']
}

/// The JSON number that the integer `n` is written as.
pub open spec fn int_json(n: i64) -> JsonValue {
    if n >= 0 {
        JsonValue::Number(JsonNumber::PosInt(n as u64))
    } else {
        JsonValue::Number(JsonNumber::NegInt(n))
    }
}

/// The JSON value that the id `id` is written as: a number or a string.
pub open spec fn id_json(id: JsonRpcId) -> JsonValue {
    match id {
        JsonRpcId::Num(n) => int_json(n),
        JsonRpcId::Str(s) => JsonValue::Str(s),
    }
}

/// The members of the JSON object that carries the request `r`: its version
/// and method, and its parameters and id when it has them.
pub open spec fn request_members(r: JsonRpcRequest) -> Map<Seq<char>, JsonValue> {
    let m = Map::<Seq<char>, JsonValue>::empty().insert(jsonrpc_key(), JsonValue::Str(r.jsonrpc)).insert(
        method_key(),
        JsonValue::Str(r.method),
    );
    let m = match r.params {
        Some(p) => m.insert(params_key(), p),
        None => m,
    };
    match r.id {
        Some(i) => m.insert(id_key(), id_json(i)),
        None => m,
    }
}

/// The members of the JSON object that carries the error `e`: its code and
/// message, and its data when it has some.
pub open spec fn error_members(e: JsonRpcError) -> Map<Seq<char>, JsonValue> {
    let m = Map::<Seq<char>, JsonValue>::empty().insert(code_key(), int_json(e.code as i64)).insert(
        message_key(),
        JsonValue::Str(e.message),
    );
    match e.data {
        Some(d) => m.insert(data_key(), d),
        None => m,
    }
}

/// `v` is the JSON object that carries the response `r`: its version, and
/// its id, result and error each when it has it (the error as the object
/// that carries it), and nothing else.
pub open spec fn carries_response(v: JsonValue, r: JsonRpcResponse) -> bool {
    let m = members(v);
    &&& v is Object
    &&& forall|k: Seq<char>| #[trigger] m.contains_key(k)
        ==> k == jsonrpc_key() || k == id_key() || k == result_key() || k == error_key()
    &&& m.contains_key(jsonrpc_key()) && m[jsonrpc_key()] == JsonValue::Str(r.jsonrpc)
    &&& m.contains_key(id_key()) == r.id is Some
    &&& r.id matches Some(i) ==> m[id_key()] == id_json(i)
    &&& m.contains_key(result_key()) == r.result is Some
    &&& r.result matches Some(x) ==> m[result_key()] == x
    &&& m.contains_key(error_key()) == r.error is Some
    &&& r.error matches Some(e) ==> (m[error_key()] is Object && members(m[error_key()]) == error_members(e))
}

fn owned(s: &str) -> (k: String)
    ensures
        k@ == s@,
{
    s.to_owned()
}

fn int_to_json(n: i64) -> (v: JsonValue)
    ensures
        v == int_json(n),
{
    if n >= 0 {
        JsonValue::Number(JsonNumber::PosInt(n as u64))
    } else {
        JsonValue::Number(JsonNumber::NegInt(n))
    }
}

fn id_to_json(id: JsonRpcId) -> (v: JsonValue)
    ensures
        v == id_json(id),
{
    match id {
        JsonRpcId::Num(n) => int_to_json(n),
        JsonRpcId::Str(s) => JsonValue::Str(s),
    }
}

impl JsonRpcRequest {
    /// The JSON object that carries this request.
    pub fn into_json(self) -> (v: JsonValue)
        ensures
            v is Object,
            members(v) == request_members(self),
    {
        proof {
            reveal_strlit("jsonrpc");
            reveal_strlit("method");
            reveal_strlit("params");
            reveal_strlit("id");
            assert("jsonrpc"@ =~= jsonrpc_key());
            assert("method"@ =~= method_key());
            assert("params"@ =~= params_key());
            assert("id"@ =~= id_key());
        }
        let ghost r = self;
        let mut v = JsonValue::empty_object();
        v.set_field(owned("jsonrpc"), JsonValue::Str(self.jsonrpc));
        v.set_field(owned("method"), JsonValue::Str(self.method));
        match self.params {
            Some(p) => v.set_field(owned("params"), p),
            None => {},
        }
        match self.id {
            Some(i) => v.set_field(owned("id"), id_to_json(i)),
            None => {},
        }
        proof {
            assert(members(v) =~= request_members(r));
        }
        v
    }
}

impl JsonRpcError {
    /// The JSON object that carries this error.
    pub fn into_json(self) -> (v: JsonValue)
        ensures
            v is Object,
            members(v) == error_members(self),
    {
        proof {
            reveal_strlit("code");
            reveal_strlit("message");
            reveal_strlit("data");
            assert("code"@ =~= code_key());
            assert("message"@ =~= message_key());
            assert("data"@ =~= data_key());
        }
        let ghost e = self;
        let mut v = JsonValue::empty_object();
        v.set_field(owned("code"), int_to_json(self.code as i64));
        v.set_field(owned("message"), JsonValue::Str(self.message));
        match self.data {
            Some(d) => v.set_field(owned("data"), d),
            None => {},
        }
        proof {
            assert(members(v) =~= error_members(e));
        }
        v
    }
}

impl JsonRpcResponse {
    /// The JSON object that carries this response.
    pub fn into_json(self) -> (v: JsonValue)
        ensures
            carries_response(v, self),
    {
        proof {
            reveal_strlit("jsonrpc");
            reveal_strlit("id");
            reveal_strlit("result");
            reveal_strlit("error");
            assert("jsonrpc"@ =~= jsonrpc_key());
            assert("id"@ =~= id_key());
            assert("result"@ =~= result_key());
            assert("error"@ =~= error_key());
        }
        let ghost r = self;
        let mut v = JsonValue::empty_object();
        v.set_field(owned("jsonrpc"), JsonValue::Str(self.jsonrpc));
        let ghost m0 = members(v);
        match self.id {
            Some(i) => v.set_field(owned("id"), id_to_json(i)),
            None => {},
        }
        let ghost m1 = members(v);
        match self.result {
            Some(x) => v.set_field(owned("result"), x),
            None => {},
        }
        let ghost m2 = members(v);
        match self.error {
            Some(e) => v.set_field(owned("error"), e.into_json()),
            None => {},
        }
        proof {
            let m = members(v);
            assert(m0 =~= Map::<Seq<char>, JsonValue>::empty().insert(jsonrpc_key(), JsonValue::Str(r.jsonrpc)));
            assert forall|k: Seq<char>| #[trigger] m.contains_key(k)
                implies k == jsonrpc_key() || k == id_key() || k == result_key() || k == error_key() by {
                assert(m2.contains_key(k) || k == error_key());
                assert(m1.contains_key(k) || k == result_key() || k == error_key());
            }
        }
        v
    }
}

// =============================================================================
// Incoming messages
// =============================================================================

/// What an incoming message is taken to be.
#[derive(Debug, Clone, Copy, PartialEq, Eq)]
pub enum MessageKind {
    /// An answer to one of our requests: it has a non-null `id`, a `result`
    /// or an `error`, and no `method`.
    Response,
    /// A request or a notification from the peer: it has a `method`.
    Call,
    /// Neither; it is dropped.
    Ignored,
}

/// The kind of the incoming message `m`.
pub open spec fn message_kind(m: JsonValue) -> MessageKind {
    if field(m, seq!['i', 'd']) matches Some(id) && !(id is Null)
        && (field(m, seq!['r', 'e', 's', 'u', 'l', 't']) is Some || field(m, seq!['e', 'r', 'r', 'o', 'r']) is Some)
        && field(m, seq!['m', 'e', 't', 'h', 'o', 'd']) is None
    {
        MessageKind::Response
    } else if field(m, seq!['m', 'e', 't', 'h', 'o', 'd']) is Some {
        MessageKind::Call
    } else {
        MessageKind::Ignored
    }
}

/// Decides how an incoming message is dispatched.
pub fn classify_message(message: &JsonValue) -> (k: MessageKind)
    ensures
        k == message_kind(*message),
{
    proof {
        reveal_strlit("id");
        reveal_strlit("result");
        reveal_strlit("error");
        reveal_strlit("method");
    }
    let id = message.get("id");
    let has_method = message.get("method").is_some();
    proof {
        assert("id"@ =~= seq!['i', 'd']);
        assert("result"@ =~= seq!['r', 'e', 's', 'u', 'l', 't']);
        assert("error"@ =~= seq!['e', 'r', 'r', 'o', 'r']);
        assert("method"@ =~= seq!['m', 'e', 't', 'h', 'o', 'd']);
    }
    let id_present = match id {
        Some(v) => !v.is_null(),
        None => false,
    };
    if id_present && (message.get("result").is_some() || message.get("error").is_some()) && !has_method {
        MessageKind::Response
    } else if has_method {
        MessageKind::Call
    } else {
        MessageKind::Ignored
    }
}

/// The parameters handed to a handler: those of the message, or `null`.
pub fn params_or_null(params: Option<JsonValue>) -> (v: JsonValue)
    ensures
        v == match params {
            Some(p) => p,
            None => JsonValue::Null,
        },
{
    match params {
        Some(p) => p,
        None => JsonValue::Null,
    }
}

/// The characters of the message that answers a call of an unknown method.
pub open spec fn method_not_found_text(method: Seq<char>) -> Seq<char> {
    seq!['M', 'e', 't', 'h', 'o', 'd', ' ', 'n', 'o', 't', ' ', 'f', 'o', 'u', 'n', 'd', ':', ' '] + method
}

/// The error that answers a request when no request handler is set.
pub fn method_not_found(method: &str) -> (e: JsonRpcError)
    ensures
        e.code == JsonRpcError::METHOD_NOT_FOUND,
        e.message@ == method_not_found_text(method@),
        e.data is None,
{
    let prefix = "Method not found: ".to_owned();
    proof {
        reveal_strlit("Method not found: ");
        assert(prefix@ =~= seq!['M', 'e', 't', 'h', 'o', 'd', ' ', 'n', 'o', 't', ' ', 'f', 'o', 'u', 'n', 'd', ':', ' ']);
    }
    let message = prefix.concat(method);
    JsonRpcError { code: JsonRpcError::METHOD_NOT_FOUND, message, data: None }
}

/// The answer to an incoming request with the given `id`: what the handler
/// returned (`handled`), or, when no handler is set (`None`), a "method not
/// found" error. A message without an id is a notification and gets no answer.
pub fn respond_to_request(
    id: Option<JsonRpcId>,
    method: &str,
    handled: Option<Result<JsonValue, JsonRpcError>>,
) -> (r: Option<JsonRpcResponse>)
    ensures
        id is None ==> r is None,
        id matches Some(i) ==> r matches Some(resp) && resp.jsonrpc@ == version_text() && resp.id == Some(i)
            && match handled {
                Some(Ok(v)) => resp.result == Some(v) && resp.error is None,
                Some(Err(e)) => resp.result is None && resp.error == Some(e),
                None => resp.result is None && (resp.error matches Some(e)
                    && e.code == JsonRpcError::METHOD_NOT_FOUND
                    && e.message@ == method_not_found_text(method@) && e.data is None),
            },
{
    match id {
        None => None,
        Some(id) => match handled {
            Some(Ok(v)) => Some(JsonRpcResponse::success(id, v)),
            Some(Err(e)) => Some(JsonRpcResponse::error(id, e)),
            None => Some(JsonRpcResponse::error(id, method_not_found(method))),
        },
    }
}

// =============================================================================
// Client state: pending requests and their answers
// =============================================================================

/// How long `invoke` waits for an answer, in seconds.
pub const DEFAULT_TIMEOUT_SECS: u64 = 30;

/// The code of the error that a pending request gets when the connection closes.
pub const CONNECTION_CLOSED_CODE: i32 = -32801;

/// `outcome` is the error that a pending request gets when the connection closes.
pub open spec fn is_connection_closed(outcome: Result<JsonValue, JsonRpcError>) -> bool {
    outcome matches Err(e) && e.code == CONNECTION_CLOSED_CODE
        && e.message@ == seq!['C', 'o', 'n', 'n', 'e', 'c', 't', 'i', 'o', 'n', ' ', 'c', 'l', 'o', 's', 'e', 'd']
        && e.data is None
}

fn connection_closed_error() -> (e: JsonRpcError)
    ensures
        is_connection_closed(Err(e)),
{
    let e = JsonRpcError::new(CONNECTION_CLOSED_CODE, "Connection closed");
    proof {
        reveal_strlit("Connection closed");
        assert(e.message@ =~= seq!['C', 'o', 'n', 'n', 'e', 'c', 't', 'i', 'o', 'n', ' ', 'c', 'l', 'o', 's', 'e', 'd']);
    }
    e
}

/// The id that follows `id`: one more, wrapping around from the largest
/// `i64` to the smallest.
pub open spec fn id_after(id: i64) -> i64 {
    if id == i64::MAX {
        i64::MIN
    } else {
        (id + 1) as i64
    }
}

/// What an answer to the request `id` is handed to: the waiting side's
/// `sender`, and the `outcome` it is to receive.
pub struct Delivery<S> {
    pub id: i64,
    pub sender: S,
    pub outcome: Result<JsonValue, JsonRpcError>,
}

/// What the wait for an answer came to.
pub enum WaitOutcome {
    /// The read loop delivered an answer.
    Reply(Result<JsonValue, JsonRpcError>),
    /// The delivering side went away without an answer.
    ChannelClosed,
    /// No answer came in time.
    TimedOut,
}

/// The outcome that an answer `response` to a pending request carries.
pub open spec fn response_outcome(response: JsonRpcResponse) -> Result<JsonValue, JsonRpcError> {
    match response.error {
        Some(e) => Err(e),
        None => Ok(
            match response.result {
                Some(v) => v,
                None => JsonValue::Null,
            },
        ),
    }
}

/// `failed` answers each of the requests `pending`, once each, with the
/// "Connection closed" error, and its answer goes to that request's sender.
pub open spec fn fails_each<S>(pending: Map<i64, S>, failed: Seq<Delivery<S>>) -> bool {
    &&& failed.len() == pending.len()
    &&& forall|i: int| 0 <= i < failed.len() ==> {
        &&& pending.contains_key(#[trigger] failed[i].id)
        &&& failed[i].sender == pending[failed[i].id]
        &&& is_connection_closed(failed[i].outcome)
    }
    &&& forall|i: int, j: int| 0 <= i < failed.len() && 0 <= j < failed.len() && i != j
        ==> #[trigger] failed[i].id != #[trigger] failed[j].id
    &&& forall|id: i64| #[trigger] pending.contains_key(id)
        ==> exists|i: int| 0 <= i < failed.len() && #[trigger] failed[i].id == id
}

/// What a read of the next incoming message came to.
#[derive(Debug, Clone, Copy, PartialEq, Eq)]
pub enum ReadEvent {
    /// A message was read.
    Message,
    /// The peer closed the connection.
    Closed,
    /// The read failed otherwise.
    Failed,
}

/// What the read loop does after a read.
pub enum ReadStep<S> {
    /// Dispatch the message that was read, then read on.
    Dispatch,
    /// Read on.
    ReadOn,
    /// End the loop, after handing each of these answers to its sender.
    End(Vec<Delivery<S>>),
}

/// The id that a client's request gets when it made `k` requests before it:
/// the first gets 1, and each one after that the id after the one before.
pub open spec fn nth_request_id(k: nat) -> i64
    decreases k,
{
    if k == 0 {
        1
    } else {
        id_after(nth_request_id((k - 1) as nat))
    }
}

/// The shared state of a JSON-RPC client: whether its read loop runs, the id
/// that its next request gets, and its pending requests, each with the
/// `sender` through which its answer reaches the caller that waits for it;
/// and, for the proofs, how many requests it has made.
pub struct RpcState<S> {
    running: bool,
    next_id: i64,
    pending: HashMap<i64, S>,
    made: Ghost<nat>,
}

impl<S> RpcState<S> {
    /// Whether the read loop runs.
    pub closed spec fn spec_running(&self) -> bool {
        self.running
    }

    /// The id that the next request gets.
    pub closed spec fn spec_next_id(&self) -> i64 {
        self.next_id
    }

    /// The pending requests, by id.
    pub closed spec fn pending(&self) -> Map<i64, S> {
        self.pending@
    }

    /// How many requests the client has made.
    pub closed spec fn spec_requests_made(&self) -> nat {
        self.made@
    }

    /// The id that the next request gets follows from the number of requests
    /// made: it is the id of the request made after that many.
    pub open spec fn ids_follow_count(&self) -> bool {
        self.spec_next_id() == nth_request_id(self.spec_requests_made())
    }

    /// Every pending request has an id from 1 up to, not including, the id
    /// that the next request gets: the next id is fresh.
    pub open spec fn ids_below_next(&self) -> bool {
        &&& 1 <= self.spec_next_id()
        &&& forall|id: i64| #[trigger] self.pending().contains_key(id) ==> 1 <= id < self.spec_next_id()
    }

    proof fn lemma_fewer_pending(old_st: Self, new_st: Self)
        requires
            old_st.ids_below_next(),
            forall|id: i64| #[trigger] new_st.pending().contains_key(id) ==> old_st.pending().contains_key(id),
            new_st.spec_next_id() == old_st.spec_next_id(),
        ensures
            new_st.ids_below_next(),
    {
        assert forall|id: i64| #[trigger] new_st.pending().contains_key(id) implies 1 <= id < new_st.spec_next_id() by {
            assert(old_st.pending().contains_key(id));
        }
    }

    /// Creates the state of a client that has not started.
    pub fn new() -> (st: Self)
        ensures
            st.ids_below_next(),
            !st.spec_running(),
            st.spec_next_id() == 1,
            st.pending() == Map::<i64, S>::empty(),
            st.spec_requests_made() == 0,
            st.ids_follow_count(),
    {
        let st = RpcState { running: false, next_id: 1, pending: HashMap::new(), made: Ghost(0) };
        assert(st.pending() =~= Map::<i64, S>::empty());
        st
    }

    /// Check if the read loop runs.
    pub fn is_running(&self) -> (b: bool)
        ensures
            b == self.spec_running(),
    {
        self.running
    }

    /// The id that the next request gets.
    pub fn next_id(&self) -> (id: i64)
        ensures
            id == self.spec_next_id(),
    {
        self.next_id
    }

    /// The number of pending requests.
    pub fn pending_len(&self) -> (n: usize)
        ensures
            n == self.pending().len(),
    {
        self.pending.len()
    }

    /// Whether the request `id` awaits an answer.
    pub fn is_pending(&self, id: i64) -> (b: bool)
        ensures
            b == self.pending().contains_key(id),
    {
        self.pending.contains_key(&id)
    }

    /// Marks the read loop as running; returns whether it already ran, in
    /// which case it must not be started a second time.
    pub fn start(&mut self) -> (was_running: bool)
        ensures
            was_running == old(self).spec_running(),
            final(self).spec_running(),
            final(self).spec_next_id() == old(self).spec_next_id(),
            final(self).spec_requests_made() == old(self).spec_requests_made(),
            final(self).pending() == old(self).pending(),
            old(self).ids_below_next() ==> final(self).ids_below_next(),
    {
        let was = self.running;
        self.running = true;
        was
    }

    /// Registers a request to `method`: it gets the next id, and its answer
    /// will go to `sender`. Returns the request to send.
    pub fn begin_request(&mut self, method: &str, params: Option<JsonValue>, sender: S) -> (req: JsonRpcRequest)
        ensures
            req.jsonrpc@ == version_text(),
            req.method@ == method@,
            req.params == params,
            req.id == Some(JsonRpcId::Num(old(self).spec_next_id())),
            final(self).pending() == old(self).pending().insert(old(self).spec_next_id(), sender),
            final(self).spec_next_id() == id_after(old(self).spec_next_id()),
            final(self).spec_requests_made() == old(self).spec_requests_made() + 1,
            old(self).ids_follow_count() ==> final(self).ids_follow_count(),
            final(self).spec_running() == old(self).spec_running(),
            old(self).ids_below_next() && old(self).spec_next_id() < i64::MAX ==> {
                &&& !old(self).pending().contains_key(old(self).spec_next_id())
                &&& final(self).ids_below_next()
            },
    {
        let ghost before = self.pending@;
        let id = self.next_id;
        self.next_id = self.next_id.wrapping_add(1);
        self.made = Ghost(self.made@ + 1);
        self.pending.insert(id, sender);
        proof {
            if old(self).ids_below_next() && id < i64::MAX {
                assert forall|k: i64| #[trigger] self.pending().contains_key(k) implies 1 <= k < self.spec_next_id() by {
                    if k != id {
                        assert(old(self).pending().contains_key(k));
                    }
                }
            }
        }
        JsonRpcRequest::new(method, params, Some(JsonRpcId::Num(id)))
    }

    /// Forgets the request `id`, whose message could not be sent.
    pub fn abandon_request(&mut self, id: i64) -> (sender: Option<S>)
        ensures
            final(self).pending() == old(self).pending().remove(id),
            sender is Some <==> old(self).pending().contains_key(id),
            sender matches Some(s) ==> s == old(self).pending()[id],
            old(self).ids_below_next() ==> final(self).ids_below_next(),
            final(self).spec_next_id() == old(self).spec_next_id(),
            final(self).spec_requests_made() == old(self).spec_requests_made(),
            final(self).spec_running() == old(self).spec_running(),
    {
        let ghost before = self.pending@;
        let r = self.pending.remove(&id);
        proof {
            if old(self).ids_below_next() {
                Self::lemma_fewer_pending(*old(self), *self);
            }
        }
        r
    }

    /// What the caller of request `id` gets once its wait is over. A wait
    /// that ended without an answer forgets the request.
    pub fn finish_request(&mut self, id: i64, waited: WaitOutcome, timeout: Duration) -> (r: Result<JsonValue, CopilotError>)
        ensures
            final(self).spec_next_id() == old(self).spec_next_id(),
            final(self).spec_requests_made() == old(self).spec_requests_made(),
            final(self).spec_running() == old(self).spec_running(),
            old(self).ids_below_next() ==> final(self).ids_below_next(),
            match waited {
                WaitOutcome::Reply(Ok(v)) => r == Ok::<JsonValue, CopilotError>(v)
                    && final(self).pending() == old(self).pending(),
                WaitOutcome::Reply(Err(e)) => r matches Err(CopilotError::JsonRpc { code, message, data })
                    && code == e.code && message == e.message && data == e.data
                    && final(self).pending() == old(self).pending(),
                WaitOutcome::ChannelClosed => r matches Err(CopilotError::ConnectionClosed)
                    && final(self).pending() == old(self).pending().remove(id),
                WaitOutcome::TimedOut => r matches Err(CopilotError::Timeout(t)) && t == timeout
                    && final(self).pending() == old(self).pending().remove(id),
            },
    {
        let ghost before = self.pending@;
        proof {
            if old(self).ids_below_next() {
                Self::lemma_fewer_pending(*old(self), *self);
            }
        }
        match waited {
            WaitOutcome::Reply(Ok(v)) => Ok(v),
            WaitOutcome::Reply(Err(e)) => Err(CopilotError::JsonRpc { code: e.code, message: e.message, data: e.data }),
            WaitOutcome::ChannelClosed => {
                self.pending.remove(&id);
                proof {
                    if old(self).ids_below_next() {
                        Self::lemma_fewer_pending(*old(self), *self);
                    }
                }
                Err(CopilotError::ConnectionClosed)
            },
            WaitOutcome::TimedOut => {
                self.pending.remove(&id);
                proof {
                    if old(self).ids_below_next() {
                        Self::lemma_fewer_pending(*old(self), *self);
                    }
                }
                Err(CopilotError::Timeout(timeout))
            },
        }
    }

    /// Takes an answer from the peer. When it answers a pending request (by a
    /// numeric id), that request is no longer pending, and its outcome goes to
    /// the request's sender; any other answer is dropped.
    pub fn handle_response(&mut self, response: JsonRpcResponse) -> (d: Option<Delivery<S>>)
        ensures
            final(self).spec_next_id() == old(self).spec_next_id(),
            final(self).spec_requests_made() == old(self).spec_requests_made(),
            final(self).spec_running() == old(self).spec_running(),
            old(self).ids_below_next() ==> final(self).ids_below_next(),
            match response.id {
                Some(JsonRpcId::Num(n)) => {
                    &&& final(self).pending() == old(self).pending().remove(n)
                    &&& (d is Some <==> old(self).pending().contains_key(n))
                    &&& (d matches Some(dl) ==> dl.id == n && dl.sender == old(self).pending()[n]
                        && dl.outcome == response_outcome(response))
                },
                _ => d is None && final(self).pending() == old(self).pending(),
            },
    {
        let ghost before = self.pending@;
        let id = match &response.id {
            Some(JsonRpcId::Num(n)) => *n,
            _ => {
                return None;
            },
        };
        let removed = self.pending.remove(&id);
        proof {
            if old(self).ids_below_next() {
                Self::lemma_fewer_pending(*old(self), *self);
            }
        }
        match removed {
            Some(sender) => {
                let outcome = match response.error {
                    Some(e) => Err(e),
                    None => Ok(params_or_null(response.result)),
                };
                Some(Delivery { id, sender, outcome })
            },
            None => None,
        }
    }

    /// Stops the client: the read loop is no longer running, and every pending
    /// request is failed with a "Connection closed" error, once each.
    pub fn shut_down(&mut self) -> (failed: Vec<Delivery<S>>)
        ensures
            !final(self).spec_running(),
            final(self).spec_next_id() == old(self).spec_next_id(),
            final(self).spec_requests_made() == old(self).spec_requests_made(),
            final(self).pending() == Map::<i64, S>::empty(),
            old(self).ids_below_next() ==> final(self).ids_below_next(),
            fails_each(old(self).pending(), failed@),
    {
        self.running = false;
        let ghost old_pending = self.pending@;
        let mut ids: Vec<i64> = Vec::new();
        let ghost keys_seq = vstd::std_specs::hash::spec_keys_iter(&self.pending).remaining();
        proof {
            broadcast use vstd::std_specs::hash::axiom_spec_keys_iter;
        }
        for k in it: self.pending.keys()
            invariant
                self.pending@ == old_pending,
                it.seq() == keys_seq,
                ids@.len() == it.index(),
                forall|j: int| 0 <= j < ids@.len() ==> ids@[j] == *it.seq()[j],
        {
            ids.push(*k);
        }
        proof {
            assert(ids@.len() == old_pending.dom().len());
            assert(ids@.no_duplicates());
            assert(ids@ =~= keys_seq.unref());
            assert(ids@.to_set() =~= old_pending.dom());
        }
        let mut failed: Vec<Delivery<S>> = Vec::new();
        let n = ids.len();
        let mut i: usize = 0;
        while i < n
            invariant
                n == ids@.len(),
                i <= n,
                ids@.no_duplicates(),
                ids@.to_set() == old_pending.dom(),
                !self.running,
                self.next_id == old(self).next_id,
                self.made == old(self).made,
                failed@.len() == i,
                forall|j: int| 0 <= j < i ==> {
                    &&& (#[trigger] failed@[j]).id == ids@[j]
                    &&& failed@[j].sender == old_pending[ids@[j]]
                    &&& is_connection_closed(failed@[j].outcome)
                },
                forall|k: i64| #[trigger] self.pending@.contains_key(k)
                    <==> (old_pending.contains_key(k) && !ids@.take(i as int).contains(k)),
                forall|k: i64| #[trigger] self.pending@.contains_key(k) ==> self.pending@[k] == old_pending[k],
            decreases n - i,
        {
            let id = ids[i];
            proof {
                assert(ids@.to_set().contains(id));
                assert(!ids@.take(i as int).contains(id)) by {
                    if ids@.take(i as int).contains(id) {
                        let j = choose|j: int| 0 <= j < i && ids@.take(i as int)[j] == id;
                        assert(ids@[j] == ids@[i as int]);
                    }
                }
                assert(self.pending@.contains_key(id));
            }
            let ghost before = self.pending@;
            match self.pending.remove(&id) {
                Some(sender) => {
                    failed.push(Delivery { id, sender, outcome: Err(connection_closed_error()) });
                },
                None => {},
            }
            proof {
                let i1: int = i + 1;
                assert(self.pending@ == before.remove(id));
                assert forall|k: i64| #[trigger] self.pending@.contains_key(k)
                    <==> (old_pending.contains_key(k) && !ids@.take(i1).contains(k)) by {
                    if ids@.take(i1).contains(k) && k != id {
                        let j = choose|j: int| 0 <= j < i1 && ids@.take(i1)[j] == k;
                        assert(ids@.take(i as int)[j] == k);
                    }
                    if ids@.take(i as int).contains(k) {
                        let j = choose|j: int| 0 <= j < i && ids@.take(i as int)[j] == k;
                        assert(ids@.take(i1)[j] == k);
                    }
                    if k == id {
                        assert(ids@.take(i1)[i as int] == k);
                    }
                }
            }
            i = i + 1;
        }
        proof {
            assert(ids@.take(n as int) =~= ids@);
            assert forall|k: i64| !self.pending@.contains_key(k) by {
                if old_pending.contains_key(k) {
                    assert(ids@.to_set().contains(k));
                }
            }
            assert(self.pending@ =~= Map::<i64, S>::empty());
            assert forall|id: i64| #[trigger] old_pending.contains_key(id)
                implies exists|i: int| 0 <= i < failed@.len() && #[trigger] failed@[i].id == id by {
                assert(ids@.to_set().contains(id));
                let j = choose|j: int| 0 <= j < ids@.len() && ids@[j] == id;
                assert(failed@[j].id == id);
            }
            assert forall|a: int, b: int| 0 <= a < failed@.len() && 0 <= b < failed@.len() && a != b
                implies #[trigger] failed@[a].id != #[trigger] failed@[b].id by {
                assert(failed@[a].id == ids@[a]);
                assert(failed@[b].id == ids@[b]);
            }
            assert forall|a: int| 0 <= a < failed@.len() implies old_pending.contains_key(#[trigger] failed@[a].id) by {
                assert(failed@[a].id == ids@[a]);
                assert(ids@.to_set().contains(ids@[a]));
            }
        }
        failed
    }
}


impl<S> RpcState<S> {
    /// Decides what the read loop does after a read. A message is dispatched.
    /// A closed connection ends the loop and the client: it stops running, and
    /// every pending request fails with "Connection closed". Another failure
    /// ends the loop only when the client no longer runs (it was stopped).
    pub fn after_read(&mut self, event: ReadEvent) -> (step: ReadStep<S>)
        ensures
            final(self).spec_next_id() == old(self).spec_next_id(),
            final(self).spec_requests_made() == old(self).spec_requests_made(),
            old(self).ids_below_next() ==> final(self).ids_below_next(),
            match event {
                ReadEvent::Message => step is Dispatch && *final(self) == *old(self),
                ReadEvent::Closed => {
                    &&& !final(self).spec_running()
                    &&& final(self).pending() == Map::<i64, S>::empty()
                    &&& step matches ReadStep::End(failed) && fails_each(old(self).pending(), failed@)
                },
                ReadEvent::Failed => *final(self) == *old(self) && if old(self).spec_running() {
                    step is ReadOn
                } else {
                    step matches ReadStep::End(failed) && failed@.len() == 0
                },
            },
    {
        match event {
            ReadEvent::Message => ReadStep::Dispatch,
            ReadEvent::Closed => ReadStep::End(self.shut_down()),
            ReadEvent::Failed => {
                if self.running {
                    ReadStep::ReadOn
                } else {
                    ReadStep::End(Vec::new())
                }
            },
        }
    }
}

/// The message of the error that a second start of a split client gets.
pub open spec fn reader_taken_text() -> Seq<char> {
    seq!['R', 'e', 'a', 'd', 'e', 'r', ' ', 'a', 'l', 'r', 'e', 'a', 'd', 'y', ' ', 't', 'a', 'k', 'e', 'n', ' ',
        'o', 'r', ' ', 'c', 'l', 'i', 'e', 'n', 't', ' ', 'a', 'l', 'r', 'e', 'a', 'd', 'y', ' ', 's', 't', 'a',
        'r', 't', 'e', 'd']
}

/// Takes the reading half of a split client's connection, which its read
/// loop gets when it starts; once it is taken, a start is refused.
pub fn take_reader<R>(slot: &mut Option<R>) -> (r: Result<R, CopilotError>)
    ensures
        *final(slot) is None,
        match *old(slot) {
            Some(reader) => r matches Ok(x) && x == reader,
            None => r matches Err(CopilotError::InvalidConfig(m)) && m@ == reader_taken_text(),
        },
{
    match slot.take() {
        Some(reader) => Ok(reader),
        None => {
            let m = "Reader already taken or client already started".to_owned();
            proof {
                reveal_strlit("Reader already taken or client already started");
                assert(m@ =~= reader_taken_text());
            }
            Err(CopilotError::InvalidConfig(m))
        },
    }
}

// =============================================================================
// Laws of the client state
// =============================================================================

/// The id that a request gets is fresh: no pending request has it, and after
/// the request is registered every pending id is again below the next id
/// (as long as the ids have not run up to the largest `i64`).
pub proof fn law_request_id_fresh<S>(st: RpcState<S>, sender: S)
    requires
        st.ids_below_next(),
        st.spec_next_id() < i64::MAX,
    ensures
        !st.pending().contains_key(st.spec_next_id()),
        forall|id: i64| #[trigger] st.pending().insert(st.spec_next_id(), sender).contains_key(id)
            ==> 1 <= id < id_after(st.spec_next_id()),
{
    assert forall|id: i64| #[trigger] st.pending().insert(st.spec_next_id(), sender).contains_key(id)
        implies 1 <= id < id_after(st.spec_next_id()) by {
        if id != st.spec_next_id() {
            assert(st.pending().contains_key(id));
        }
    }
}

/// Request ids run 1, 2, 3, …: the request that a client makes after `k`
/// earlier ones (as long as `k` stays below the largest `i64`) gets the id
/// `k + 1`, so no two of them share an id and each is larger than the last.
pub proof fn law_ids_count_up(k: nat)
    requires
        k < i64::MAX,
    ensures
        nth_request_id(k) == k + 1,
    decreases k,
{
    if k > 0 {
        law_ids_count_up((k - 1) as nat);
    }
}

/// Answering a request undoes its registration: once the answer to the
/// request that `begin_request` registered is taken, the pending requests are
/// those there were before, and the answer went to that request's sender.
pub proof fn law_answer_undoes_registration<S>(st: RpcState<S>, sender: S)
    requires
        st.ids_below_next(),
    ensures
        st.pending().insert(st.spec_next_id(), sender).contains_key(st.spec_next_id()),
        st.pending().insert(st.spec_next_id(), sender)[st.spec_next_id()] == sender,
        st.pending().insert(st.spec_next_id(), sender).remove(st.spec_next_id()) == st.pending(),
{
    assert(st.pending().insert(st.spec_next_id(), sender).remove(st.spec_next_id()) =~= st.pending());
}

/// An answer reaches its caller at most once: after the answer to request `n`
/// is taken, `n` is no longer pending, so a second answer with the same id is
/// dropped.
pub proof fn law_answer_taken_once<S>(pending: Map<i64, S>, n: i64)
    ensures
        !pending.remove(n).contains_key(n),
        pending.remove(n).remove(n) == pending.remove(n),
{
    assert(pending.remove(n).remove(n) =~= pending.remove(n));
}

/// A call from the peer is never taken for an answer: a message that names a
/// method is dispatched as a call, whatever else it holds.
pub proof fn law_calls_are_not_answers(m: JsonValue)
    requires
        field(m, seq!['m', 'e', 't', 'h', 'o', 'd']) is Some,
    ensures
        message_kind(m) == MessageKind::Call,
{
}

/// The caller of an answered request gets the peer's error whole: when the
/// answer carries an error, the outcome is that error, its code, message and
/// data unchanged; when it carries none, the outcome is its result, or
/// `null` when it has no result.
pub proof fn law_answer_outcome(r: JsonRpcResponse)
    ensures
        r.error matches Some(e) ==> response_outcome(r) matches Err(x) && x.code == e.code
            && x.message == e.message && x.data == e.data,
        r.error is None ==> (r.result matches Some(v) ==> response_outcome(r) == Ok::<JsonValue, JsonRpcError>(v)),
        r.error is None && r.result is None ==> response_outcome(r) == Ok::<JsonValue, JsonRpcError>(JsonValue::Null),
{
}

/// An answer is never dropped: a message with a non-null `id`, a `result`
/// (of any value, `null` too) or an `error`, and no `method` is taken for
/// an answer to one of our requests.
pub proof fn law_answers_are_responses(m: JsonValue)
    requires
        field(m, id_key()) matches Some(id) && !(id is Null),
        field(m, result_key()) is Some || field(m, error_key()) is Some,
        field(m, method_key()) is None,
    ensures
        message_kind(m) == MessageKind::Response,
{
}

/// Only a message with a non-null `id` is taken for an answer: one without an
/// id, or with a `null` id, is a call when it names a method, and is dropped
/// otherwise.
pub proof fn law_answers_have_ids(m: JsonValue)
    requires
        field(m, id_key()) is None || field(m, id_key()) == Some(JsonValue::Null),
    ensures
        message_kind(m) != MessageKind::Response,
        message_kind(m) == (if field(m, method_key()) is Some { MessageKind::Call } else { MessageKind::Ignored }),
{
}

/// The JSON object of a request has exactly the members "jsonrpc" and
/// "method", "params" exactly when the request has parameters and "id"
/// exactly when it has an id, each holding what the request holds.
pub proof fn law_request_object(r: JsonRpcRequest)
    ensures
        request_members(r).contains_key(jsonrpc_key()),
        request_members(r)[jsonrpc_key()] == JsonValue::Str(r.jsonrpc),
        request_members(r).contains_key(method_key()),
        request_members(r)[method_key()] == JsonValue::Str(r.method),
        request_members(r).contains_key(params_key()) <==> r.params is Some,
        r.params matches Some(p) ==> request_members(r)[params_key()] == p,
        request_members(r).contains_key(id_key()) <==> r.id is Some,
        r.id matches Some(i) ==> request_members(r)[id_key()] == id_json(i),
        forall|k: Seq<char>| #[trigger] request_members(r).contains_key(k)
            ==> k == jsonrpc_key() || k == method_key() || k == params_key() || k == id_key(),
{
}

/// The JSON object of an error has exactly the members "code" and "message",
/// and "data" exactly when the error has data, each holding what the error
/// holds; a numeric id or code is written as the number it is.
pub proof fn law_error_object(e: JsonRpcError, n: i64)
    ensures
        error_members(e).contains_key(code_key()),
        error_members(e)[code_key()] == int_json(e.code as i64),
        error_members(e).contains_key(message_key()),
        error_members(e)[message_key()] == JsonValue::Str(e.message),
        error_members(e).contains_key(data_key()) <==> e.data is Some,
        e.data matches Some(d) ==> error_members(e)[data_key()] == d,
        forall|k: Seq<char>| #[trigger] error_members(e).contains_key(k)
            ==> k == code_key() || k == message_key() || k == data_key(),
        n >= 0 ==> int_json(n) == JsonValue::Number(JsonNumber::PosInt(n as u64)),
        n < 0 ==> int_json(n) == JsonValue::Number(JsonNumber::NegInt(n)),
        id_json(JsonRpcId::Num(n)) == int_json(n),
{
}

/// The JSON object `v` of a response `r` has "jsonrpc", and "id", "result"
/// and "error" exactly when the response has them: a success carries no
/// "error" member, an error response no "result" member, and the error
/// member carries the error's code, message and data.
pub proof fn law_response_object(v: JsonValue, r: JsonRpcResponse)
    requires
        carries_response(v, r),
    ensures
        members(v).contains_key(jsonrpc_key()) && members(v)[jsonrpc_key()] == JsonValue::Str(r.jsonrpc),
        members(v).contains_key(id_key()) <==> r.id is Some,
        members(v).contains_key(result_key()) <==> r.result is Some,
        members(v).contains_key(error_key()) <==> r.error is Some,
        r.result matches Some(x) ==> members(v)[result_key()] == x,
        r.error matches Some(e) ==> {
            &&& members(members(v)[error_key()]).contains_key(code_key())
            &&& members(members(v)[error_key()])[code_key()] == int_json(e.code as i64)
            &&& members(members(v)[error_key()]).contains_key(message_key())
            &&& members(members(v)[error_key()])[message_key()] == JsonValue::Str(e.message)
            &&& (members(members(v)[error_key()]).contains_key(data_key()) <==> e.data is Some)
            &&& (e.data matches Some(d) ==> members(members(v)[error_key()])[data_key()] == d)
        },
        forall|k: Seq<char>| #[trigger] members(v).contains_key(k)
            ==> k == jsonrpc_key() || k == id_key() || k == result_key() || k == error_key(),
{
    if r.error is Some {
        law_error_object(r.error.unwrap(), 0);
    }
}

} // verus!
