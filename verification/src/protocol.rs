//! The dispatch protocol: framed requests and responses, and the mapping
//! from a request to the operation it names.
//!
//! A request is one JSON object `{id, method, params}` per line; a response
//! echoes the request's `id` and carries exactly one of `result` and
//! `error`. Serialization and parsing go through the verified codec;
//! `lemma_request_round_trip` shows that a serialized request parses back
//! to the identical triple.

use vstd::prelude::*;
use vstd::string::*;
use crate::codec::{
    JsonValue, JsonVal, ser_val, parse_doc, lookup_obj, get_field_spec, get_str_field, get_field,
    dup_value, to_json, from_json, obj2, obj3, str_val, wf_val, lemma_parse_of_ser, lemma_view_wf,
};
use crate::strutil::str_eq;
use crate::memory::fresh_id;

verus! {

/// One framed request.
#[derive(Debug)]
pub struct Request {
    pub id: String,
    pub method: String,
    pub params: JsonValue,
}

#[verifier::ext_equal]
pub struct RequestV {
    pub id: Seq<char>,
    pub method: Seq<char>,
    pub params: JsonVal,
}

impl View for Request {
    type V = RequestV;

    open spec fn view(&self) -> RequestV {
        RequestV { id: self.id@, method: self.method@, params: self.params@ }
    }
}

/// One framed response: exactly one of `result` and `error` is present.
#[derive(Debug)]
pub struct Response {
    pub id: String,
    pub result: Option<JsonValue>,
    pub error: Option<String>,
}

#[verifier::ext_equal]
pub struct ResponseV {
    pub id: Seq<char>,
    pub result: Option<JsonVal>,
    pub error: Option<Seq<char>>,
}

impl View for Response {
    type V = ResponseV;

    open spec fn view(&self) -> ResponseV {
        ResponseV {
            id: self.id@,
            result: match &self.result {
                Some(v) => Some(v@),
                None => None,
            },
            error: match &self.error {
                Some(e) => Some(e@),
                None => None,
            },
        }
    }
}

/// Exactly one of `result` and `error` is present.
pub open spec fn response_wf(r: ResponseV) -> bool {
    (r.result is Some) <==> (r.error is None)
}

impl Request {
    /// A fresh request for the given method, stamped with a new identifier.
    pub fn new(method: &str, params: JsonValue) -> (r: Request)
        ensures
            r@.method == method@,
            r@.params == params@,
            r@.id.len() == 26,
    {
        Request { id: fresh_id(), method: String::from_str(method), params }
    }
}

impl Response {
    /// A success response: echoes the request's identifier and carries the
    /// result, no error.
    pub fn ok(id: String, result: JsonValue) -> (r: Response)
        ensures
            r@.id == id@,
            r@.result == Some(result@),
            r@.error is None,
            response_wf(r@),
    {
        Response { id, result: Some(result), error: None }
    }

    /// A failure response: echoes the request's identifier and carries the
    /// error text, no result.
    pub fn err(id: String, error: String) -> (r: Response)
        ensures
            r@.id == id@,
            r@.result is None,
            r@.error == Some(error@),
            response_wf(r@),
    {
        Response { id, result: None, error: Some(error) }
    }
}

// ---------------------------------------------------------------------------
// Request framing.
// ---------------------------------------------------------------------------

/// The document a request stands for on the wire.
pub open spec fn req_jv(r: RequestV) -> JsonVal {
    JsonVal::Obj(
        seq![
            ("id"@, JsonVal::Str(r.id)),
            ("method"@, JsonVal::Str(r.method)),
            ("params"@, r.params),
        ],
    )
}

/// The wire text of a request.
pub open spec fn ser_request(r: RequestV) -> Seq<char> {
    ser_val(req_jv(r))
}

/// The request a wire line stands for, if it is an object carrying string
/// `id` and `method` members and a `params` member.
pub open spec fn parse_request_spec(s: Seq<char>) -> Option<RequestV> {
    match parse_doc(s) {
        Some(doc) => match doc {
            JsonVal::Obj(fields) => match (
                lookup_obj(fields, "id"@),
                lookup_obj(fields, "method"@),
                lookup_obj(fields, "params"@),
            ) {
                (Some(JsonVal::Str(id)), Some(JsonVal::Str(method)), Some(params)) => Some(
                    RequestV { id, method, params },
                ),
                _ => None,
            },
            _ => None,
        },
        None => None,
    }
}

/// Serializes a request to its wire line (without the newline).
pub fn encode_request(req: &Request) -> (out: String)
    ensures
        out@ == ser_request(req@),
{
    let doc = obj3(
        "id",
        str_val(req.id.as_str()),
        "method",
        str_val(req.method.as_str()),
        "params",
        dup_value(&req.params),
    );
    proof {
        assert(doc@ =~= req_jv(req@));
    }
    to_json(&doc)
}

/// Parses one wire line back into a request.
pub fn parse_request(line: &str) -> (r: Option<Request>)
    ensures
        match r {
            Some(req) => parse_request_spec(line@) == Some(req@),
            None => parse_request_spec(line@) is None,
        },
{
    match from_json(line) {
        Some(doc) => {
            let id = match get_str_field(&doc, "id") {
                Some(s) => String::from_str(s.as_str()),
                None => {
                    return None;
                },
            };
            let method = match get_str_field(&doc, "method") {
                Some(s) => String::from_str(s.as_str()),
                None => {
                    return None;
                },
            };
            let params = match get_field(&doc, "params") {
                Some(p) => dup_value(p),
                None => {
                    return None;
                },
            };
            let req = Request { id, method, params };
            proof {
                assert(parse_request_spec(line@) == Some(req@));
            }
            Some(req)
        },
        None => None,
    }
}

/// A request serialized and parsed back is the identical triple, for every
/// identifier, method and well-formed `params` document.
pub proof fn lemma_request_round_trip(r: RequestV)
    requires
        wf_val(r.params),
    ensures
        parse_request_spec(ser_request(r)) == Some(r),
{
    let doc = req_jv(r);
    let fields = doc->Obj_0;
    assert(wf_val(doc)) by {
        assert(forall|i: int|
            0 <= i < fields.len() ==> wf_val(#[trigger] fields[i].1));
    }
    lemma_parse_of_ser(doc);
    proof_strlits();
    let f1 = fields.drop_first();
    let f2 = f1.drop_first();
    assert(f1 =~= seq![("method"@, JsonVal::Str(r.method)), ("params"@, r.params)]);
    assert(f2 =~= seq![("params"@, r.params)]);
    assert(lookup_obj(fields, "id"@) == Some(JsonVal::Str(r.id)));
    assert(lookup_obj(f1, "method"@) == Some(JsonVal::Str(r.method)));
    assert(lookup_obj(fields, "method"@) == lookup_obj(f1, "method"@));
    assert(f2.drop_first() =~= Seq::<(Seq<char>, JsonVal)>::empty());
    assert(lookup_obj(f2, "params"@) == Some(r.params));
    assert(lookup_obj(f1, "params"@) == lookup_obj(f2, "params"@));
    assert(lookup_obj(fields, "params"@) == lookup_obj(f1, "params"@));
}

/// Every executable request round-trips: its `params` document is an
/// executable value, whose view is always well formed.
pub proof fn lemma_request_round_trip_exec(req: &Request)
    ensures
        parse_request_spec(ser_request(req@)) == Some(req@),
{
    lemma_view_wf(&req.params);
    lemma_request_round_trip(req@);
}

/// The three member names of a request differ from one another.
proof fn proof_strlits()
    ensures
        "id"@ != "method"@,
        "id"@ != "params"@,
        "method"@ != "params"@,
{
    reveal_strlit("id");
    reveal_strlit("method");
    reveal_strlit("params");
    assert("id"@.len() == 2);
    assert("method"@.len() == 6);
    assert("method"@[0] == 'm');
    assert("params"@[0] == 'p');
}

// ---------------------------------------------------------------------------
// Response framing.
// ---------------------------------------------------------------------------

/// The document a response stands for on the wire: `id` and exactly one of
/// `result` and `error`.
pub open spec fn resp_jv(r: ResponseV) -> JsonVal {
    if r.error is Some {
        JsonVal::Obj(
            seq![("id"@, JsonVal::Str(r.id)), ("error"@, JsonVal::Str(r.error->0))],
        )
    } else {
        JsonVal::Obj(seq![("id"@, JsonVal::Str(r.id)), ("result"@, r.result->0)])
    }
}

/// The wire text of a response.
pub open spec fn ser_response(r: ResponseV) -> Seq<char> {
    ser_val(resp_jv(r))
}

/// The response a wire line stands for: an object with a string `id` and
/// either an `error` string or a `result` member.
pub open spec fn parse_response_spec(s: Seq<char>) -> Option<ResponseV> {
    match parse_doc(s) {
        Some(doc) => match doc {
            JsonVal::Obj(fields) => match lookup_obj(fields, "id"@) {
                Some(JsonVal::Str(id)) => match lookup_obj(fields, "error"@) {
                    Some(JsonVal::Str(e)) => Some(
                        ResponseV { id, result: None, error: Some(e) },
                    ),
                    Some(_) => None,
                    None => match lookup_obj(fields, "result"@) {
                        Some(v) => Some(ResponseV { id, result: Some(v), error: None }),
                        None => None,
                    },
                },
                _ => None,
            },
            _ => None,
        },
        None => None,
    }
}

/// Serializes a response to its wire line (without the newline).
pub fn encode_response(resp: &Response) -> (out: String)
    requires
        response_wf(resp@),
    ensures
        out@ == ser_response(resp@),
{
    let doc = match &resp.error {
        Some(e) => obj2("id", str_val(resp.id.as_str()), "error", str_val(e.as_str())),
        None => match &resp.result {
            Some(v) => obj2("id", str_val(resp.id.as_str()), "result", dup_value(v)),
            None => {
                proof {
                    assert(false);
                }
                JsonValue::Null
            },
        },
    };
    proof {
        assert(doc@ =~= resp_jv(resp@));
    }
    to_json(&doc)
}

/// Parses one wire line back into a response.
pub fn parse_response(line: &str) -> (r: Option<Response>)
    ensures
        match r {
            Some(resp) => parse_response_spec(line@) == Some(resp@),
            None => parse_response_spec(line@) is None,
        },
{
    match from_json(line) {
        Some(doc) => {
            let id = match get_str_field(&doc, "id") {
                Some(s) => String::from_str(s.as_str()),
                None => {
                    return None;
                },
            };
            match get_field(&doc, "error") {
                Some(e) => match e {
                    JsonValue::Str(es) => {
                        let resp = Response {
                            id,
                            result: None,
                            error: Some(String::from_str(es.as_str())),
                        };
                        proof {
                            assert(parse_response_spec(line@) == Some(resp@));
                        }
                        Some(resp)
                    },
                    _ => None,
                },
                None => match get_field(&doc, "result") {
                    Some(v) => {
                        let resp = Response { id, result: Some(dup_value(v)), error: None };
                        proof {
                            assert(parse_response_spec(line@) == Some(resp@));
                        }
                        Some(resp)
                    },
                    None => None,
                },
            }
        },
        None => None,
    }
}

// ---------------------------------------------------------------------------
// Dispatch.
// ---------------------------------------------------------------------------

/// The operation a request names. Mutating work (`Chat`) is serialized by
/// the dispatcher; the others may run concurrently.
#[derive(Debug)]
pub enum Command {
    Chat { message: String },
    Snapshot { description: String },
    ListSnapshots,
    Restore { id: String },
    Ping,
    Unknown { method: String },
}

#[verifier::ext_equal]
pub enum CommandV {
    Chat { message: Seq<char> },
    Snapshot { description: Seq<char> },
    ListSnapshots,
    Restore { id: Seq<char> },
    Ping,
    Unknown { method: Seq<char> },
}

impl View for Command {
    type V = CommandV;

    open spec fn view(&self) -> CommandV {
        match self {
            Command::Chat { message } => CommandV::Chat { message: message@ },
            Command::Snapshot { description } => CommandV::Snapshot { description: description@ },
            Command::ListSnapshots => CommandV::ListSnapshots,
            Command::Restore { id } => CommandV::Restore { id: id@ },
            Command::Ping => CommandV::Ping,
            Command::Unknown { method } => CommandV::Unknown { method: method@ },
        }
    }
}

/// The string member under `key`, or the default where the member is
/// missing or of another shape.
pub open spec fn str_param(params: JsonVal, key: Seq<char>, dflt: Seq<char>) -> Seq<char> {
    match get_field_spec(params, key) {
        Some(f) => match f {
            JsonVal::Str(s) => s,
            _ => dflt,
        },
        None => dflt,
    }
}

/// The operation a request stands for, with the defaults the daemon uses:
/// a chat message defaults to empty, a snapshot description to "Manual
/// snapshot", a restore identifier to empty.
pub open spec fn classify_spec(r: RequestV) -> CommandV {
    if r.method == "chat"@ {
        CommandV::Chat { message: str_param(r.params, "message"@, ""@) }
    } else if r.method == "snapshot"@ {
        CommandV::Snapshot { description: str_param(r.params, "description"@, "Manual snapshot"@) }
    } else if r.method == "list_snapshots"@ {
        CommandV::ListSnapshots
    } else if r.method == "restore"@ {
        CommandV::Restore { id: str_param(r.params, "id"@, ""@) }
    } else if r.method == "ping"@ {
        CommandV::Ping
    } else {
        CommandV::Unknown { method: r.method }
    }
}

fn str_param_x(params: &JsonValue, key: &str, dflt: &str) -> (r: String)
    ensures
        r@ == str_param(params@, key@, dflt@),
{
    match get_str_field(params, key) {
        Some(s) => String::from_str(s.as_str()),
        None => String::from_str(dflt),
    }
}

/// Maps a request onto the operation it names.
pub fn classify_request(req: &Request) -> (c: Command)
    ensures
        c@ == classify_spec(req@),
{
    if str_eq(req.method.as_str(), "chat") {
        Command::Chat { message: str_param_x(&req.params, "message", "") }
    } else if str_eq(req.method.as_str(), "snapshot") {
        Command::Snapshot {
            description: str_param_x(&req.params, "description", "Manual snapshot"),
        }
    } else if str_eq(req.method.as_str(), "list_snapshots") {
        Command::ListSnapshots
    } else if str_eq(req.method.as_str(), "restore") {
        Command::Restore { id: str_param_x(&req.params, "id", "") }
    } else if str_eq(req.method.as_str(), "ping") {
        Command::Ping
    } else {
        Command::Unknown { method: String::from_str(req.method.as_str()) }
    }
}

/// The error text for a method the daemon does not know.
pub fn unknown_method_error(method: &str) -> (s: String)
    ensures
        s@ == "Unknown method: "@ + method@,
{
    let mut s = String::from_str("Unknown method: ");
    s.append(method);
    s
}

/// An error text under one of the daemon's prefixes.
pub fn prefixed_error(prefix: &str, detail: &str) -> (s: String)
    ensures
        s@ == prefix@ + detail@,
{
    let mut s = String::from_str(prefix);
    s.append(detail);
    s
}

} // verus!
