use vstd::prelude::*;
use crate::json::{jstr, json_chars, obj_lookup, spec_get, to_json_string, JsonValue};
use crate::types::{
    freshness_status_str, schema_status_str, FreshnessStatus, SchemaStatus,
};

verus! {

// ---------------------------------------------------------------------------
// JSON-RPC envelope.
// ---------------------------------------------------------------------------

/// A parsed JSON-RPC request: the transport hands these to the dispatcher.
pub struct JsonRpcRequest {
    pub id: Option<JsonValue>,
    pub method: String,
    pub params: JsonValue,
}

/// A JSON-RPC response: exactly one of `result` and `error` is set.
pub struct JsonRpcResponse {
    pub id: JsonValue,
    pub result: Option<JsonValue>,
    pub error: Option<(i64, String)>,
}

impl JsonRpcResponse {
    pub fn success(id: Option<JsonValue>, result: JsonValue) -> (r: JsonRpcResponse)
        ensures
            r.result == Option::Some(result),
            r.error is None,
            r.id == (match id {
                Option::Some(v) => v,
                Option::None => JsonValue::Null,
            }),
    {
        JsonRpcResponse {
            id: match id {
                Option::Some(v) => v,
                Option::None => JsonValue::Null,
            },
            result: Option::Some(result),
            error: Option::None,
        }
    }

    pub fn failure(id: Option<JsonValue>, code: i64, message: String) -> (r: JsonRpcResponse)
        ensures
            r.result is None,
            r.error == Option::Some((code, message)),
            r.id == (match id {
                Option::Some(v) => v,
                Option::None => JsonValue::Null,
            }),
    {
        JsonRpcResponse {
            id: match id {
                Option::Some(v) => v,
                Option::None => JsonValue::Null,
            },
            result: Option::None,
            error: Option::Some((code, message)),
        }
    }

    /// The wire form: `jsonrpc`, `id`, and `result` or `error`.
    #[verifier::rlimit(100)]
    pub fn to_json(self) -> (r: JsonValue)
        ensures
            spec_get(r, "jsonrpc"@) matches Option::Some(v) && v is Str && v->Str_0@ == "2.0"@,
            spec_get(r, "id"@) == Option::Some(self.id),
            self.result matches Option::Some(res) ==> spec_get(r, "result"@) == Option::Some(res),
            self.error matches Option::Some(e) ==> (spec_get(r, "error"@) matches Option::Some(eo)
                && spec_get(eo, "code"@) == Option::Some(JsonValue::Int(e.0))
                && spec_get(eo, "message"@) == Option::Some(JsonValue::Str(e.1))),
    {
        let mut fields: Vec<(String, JsonValue)> = Vec::new();
        fields.push((String::from_str("jsonrpc"), jstr("2.0")));
        fields.push((String::from_str("id"), self.id));
        match self.result {
            Option::Some(res) => {
                fields.push((String::from_str("result"), res));
            },
            Option::None => {},
        }
        match self.error {
            Option::Some((code, message)) => {
                let mut e: Vec<(String, JsonValue)> = Vec::new();
                e.push((String::from_str("code"), JsonValue::Int(code)));
                e.push((String::from_str("message"), JsonValue::Str(message)));
                fields.push((String::from_str("error"), JsonValue::Obj(e)));
            },
            Option::None => {},
        }
        let r = JsonValue::Obj(fields);
        proof {
            reveal_with_fuel(crate::json::obj_lookup, 8);
            reveal_strlit("jsonrpc");
            reveal_strlit("id");
            reveal_strlit("result");
            reveal_strlit("error");
            reveal_strlit("code");
            reveal_strlit("message");
            if self.result is Some {
                assert(fields@[2].0@ == "result"@);
                assert(fields@[0].0@ != "result"@);
                assert(fields@[1].0@ != "result"@);
                assert(obj_lookup(fields@, "result"@) == Option::Some(fields@[2].1));
                assert(fields@[2].1 == self.result->0);
            }
            assert("jsonrpc"@.len() == 7 && "id"@.len() == 2);
            assert(fields@[0].0@ != "id"@);
            assert(fields@[1].0@ == "id"@);
            assert(obj_lookup(fields@, "id"@) == Option::Some(fields@[1].1));
            if self.error is Some {
                let ei: int = if self.result is Some {
                    3
                } else {
                    2
                };
                assert(fields@[ei].0@ == "error"@);
                assert(fields@[0].0@ != "error"@);
                assert(fields@[1].0@ != "error"@);
                if self.result is Some {
                    assert(fields@[2].0@ != "error"@);
                }
                assert(obj_lookup(fields@, "error"@) == Option::Some(fields@[ei].1));
                let eo = fields@[ei].1;
                assert(eo is Obj);
                assert(eo->Obj_0@[0].0@ == "code"@);
                assert(obj_lookup(eo->Obj_0@, "code"@) == Option::Some(eo->Obj_0@[0].1));
                assert(eo->Obj_0@[0].1 == JsonValue::Int((self.error->0).0));
                assert(eo->Obj_0@[0].0@ != "message"@);
                assert(eo->Obj_0@[1].0@ == "message"@);
                assert(obj_lookup(eo->Obj_0@, "message"@) == Option::Some(eo->Obj_0@[1].1));
            }
        }
        r
    }
}

// ---------------------------------------------------------------------------
// Protocol metadata.
// ---------------------------------------------------------------------------

/// The metadata object every tool payload carries.
pub struct ProtocolMetadata {
    pub ref_name: String,
    pub index_status: SchemaStatus,
    pub freshness_status: FreshnessStatus,
    pub active_job: bool,
}

/// `m` is the wire form of metadata `md`: protocol version `1.0`, the
/// effective ref, the index and freshness status strings, and the
/// active-job flag.
pub open spec fn is_metadata_json(m: JsonValue, md: ProtocolMetadata) -> bool {
    &&& spec_get(m, "codecompass_protocol_version"@) matches Option::Some(v) && v is Str
        && v->Str_0@ == "1.0"@
    &&& spec_get(m, "ref"@) matches Option::Some(v2) && v2 is Str && v2->Str_0@ == md.ref_name@
    &&& spec_get(m, "index_status"@) matches Option::Some(v3) && v3 is Str && v3->Str_0@
        == schema_status_str(md.index_status)
    &&& spec_get(m, "freshness_status"@) matches Option::Some(v4) && v4 is Str && v4->Str_0@
        == freshness_status_str(md.freshness_status)
    &&& spec_get(m, "active_job"@) == Option::Some(JsonValue::Bool(md.active_job))
}

impl ProtocolMetadata {
    /// A field-for-field copy of the value.
    pub fn duplicate(&self) -> (r: ProtocolMetadata)
        ensures
            r == *self,
    {
        ProtocolMetadata {
            ref_name: self.ref_name.clone(),
            index_status: self.index_status,
            freshness_status: self.freshness_status,
            active_job: self.active_job,
        }
    }

    /// The serialisable object: protocol version, ref, index and freshness
    /// status strings, and the active-job flag.
    #[verifier::rlimit(100)]
    pub fn to_json(&self) -> (r: JsonValue)
        ensures
            is_metadata_json(r, *self),
    {
        let mut fields: Vec<(String, JsonValue)> = Vec::new();
        fields.push((String::from_str("codecompass_protocol_version"), jstr("1.0")));
        fields.push((String::from_str("ref"), JsonValue::Str(self.ref_name.clone())));
        fields.push((
            String::from_str("index_status"),
            JsonValue::Str(self.index_status.as_str().to_owned()),
        ));
        fields.push((
            String::from_str("freshness_status"),
            JsonValue::Str(self.freshness_status.as_str().to_owned()),
        ));
        fields.push((String::from_str("active_job"), JsonValue::Bool(self.active_job)));
        let r = JsonValue::Obj(fields);
        proof {
            reveal_with_fuel(crate::json::obj_lookup, 8);
            reveal_strlit("codecompass_protocol_version");
            reveal_strlit("ref");
            reveal_strlit("index_status");
            reveal_strlit("freshness_status");
            reveal_strlit("active_job");
            assert(fields@.len() == 5);
            assert(fields@[0].0@ == "codecompass_protocol_version"@);
            assert(fields@[1].0@ == "ref"@);
            assert(fields@[2].0@ == "index_status"@);
            assert(fields@[3].0@ == "freshness_status"@);
            assert(fields@[4].0@ == "active_job"@);
            assert(obj_lookup(fields@, "codecompass_protocol_version"@) == Option::Some(
                fields@[0].1,
            ));
            assert(fields@[0].0@ != "ref"@ && fields@[1].0@ == "ref"@);
            assert(obj_lookup(fields@, "ref"@) == Option::Some(fields@[1].1));
            assert(fields@[0].0@ != "index_status"@ && fields@[1].0@ != "index_status"@);
            assert(obj_lookup(fields@, "index_status"@) == Option::Some(fields@[2].1));
            assert(fields@[0].0@ != "freshness_status"@ && fields@[1].0@ != "freshness_status"@
                && fields@[2].0@ != "freshness_status"@);
            assert(obj_lookup(fields@, "freshness_status"@) == Option::Some(fields@[3].1));
            assert(fields@[0].0@ != "active_job"@ && fields@[1].0@ != "active_job"@
                && fields@[2].0@ != "active_job"@ && fields@[3].0@ != "active_job"@);
            assert(obj_lookup(fields@, "active_job"@) == Option::Some(fields@[4].1));
        }
        r
    }
}

// ---------------------------------------------------------------------------
// Tool payload shapes.
// ---------------------------------------------------------------------------

/// The domain-error code a tool payload carries, if it is an error payload.
pub open spec fn payload_error_code(p: JsonValue) -> Option<Seq<char>> {
    match spec_get(p, "error"@) {
        Option::Some(e) => match spec_get(e, "code"@) {
            Option::Some(c) => if c is Str {
                Option::Some(c->Str_0@)
            } else {
                Option::None
            },
            Option::None => Option::None,
        },
        Option::None => Option::None,
    }
}

/// Every tool payload carries a metadata object.
pub open spec fn payload_has_metadata(p: JsonValue) -> bool {
    spec_get(p, "metadata"@) is Some
}

/// `p` is the standard error payload for `code` and `message` under metadata
/// `md`, carrying `data` when one is given.
pub open spec fn is_error_payload(
    p: JsonValue,
    code: Seq<char>,
    message: Seq<char>,
    data: Option<JsonValue>,
    md: ProtocolMetadata,
) -> bool {
    &&& spec_get(p, "error"@) matches Option::Some(e) && {
        &&& spec_get(e, "code"@) matches Option::Some(c) && c is Str && c->Str_0@ == code
        &&& spec_get(e, "message"@) matches Option::Some(m) && m is Str && m->Str_0@ == message
        &&& spec_get(e, "data"@) == data
    }
    &&& spec_get(p, "metadata"@) matches Option::Some(m) && is_metadata_json(m, md)
}

/// Build the standard domain-error payload: `error.code`, `error.message`,
/// optional `error.data`, and the metadata object.
#[verifier::rlimit(100)]
pub fn tool_error_payload(
    code: &str,
    message: &str,
    data: Option<JsonValue>,
    metadata: &ProtocolMetadata,
) -> (r: JsonValue)
    ensures
        payload_error_code(r) == Option::Some(code@),
        payload_has_metadata(r),
        is_error_payload(r, code@, message@, data, *metadata),
{
    let ghost gdata = data;
    let mut e: Vec<(String, JsonValue)> = Vec::new();
    e.push((String::from_str("code"), jstr(code)));
    e.push((String::from_str("message"), jstr(message)));
    match data {
        Option::Some(d) => {
            e.push((String::from_str("data"), d));
        },
        Option::None => {},
    }
    let mut fields: Vec<(String, JsonValue)> = Vec::new();
    fields.push((String::from_str("error"), JsonValue::Obj(e)));
    fields.push((String::from_str("metadata"), metadata.to_json()));
    let r = JsonValue::Obj(fields);
    proof {
        reveal_with_fuel(crate::json::obj_lookup, 8);
        reveal_strlit("error");
        reveal_strlit("code");
        reveal_strlit("message");
        reveal_strlit("data");
        reveal_strlit("metadata");
        assert(fields@.len() == 2);
        assert(fields@[0].0@ == "error"@);
        assert(obj_lookup(fields@, "error"@) == Option::Some(fields@[0].1));
        assert(fields@[0].0@ != "metadata"@ && fields@[1].0@ == "metadata"@);
        assert(obj_lookup(fields@, "metadata"@) == Option::Some(fields@[1].1));
        let eo = fields@[0].1;
        assert(eo is Obj);
        assert(eo->Obj_0@[0].0@ == "code"@);
        assert(obj_lookup(eo->Obj_0@, "code"@) == Option::Some(eo->Obj_0@[0].1));
        assert("code"@.len() == 4 && "message"@.len() == 7 && "data"@.len() == 4);
        assert("code"@[0] == 'c' && "data"@[0] == 'd');
        assert(eo->Obj_0@[0].0@ != "message"@ && eo->Obj_0@[1].0@ == "message"@);
        assert(obj_lookup(eo->Obj_0@, "message"@) == Option::Some(eo->Obj_0@[1].1));
        assert(eo->Obj_0@[0].0@ != "data"@ && eo->Obj_0@[1].0@ != "data"@);
        if gdata is Some {
            assert(eo->Obj_0@.len() == 3);
            assert(eo->Obj_0@[2].0@ == "data"@);
            assert(obj_lookup(eo->Obj_0@, "data"@) == Option::Some(eo->Obj_0@[2].1));
        } else {
            assert(eo->Obj_0@.len() == 2);
            assert(obj_lookup(eo->Obj_0@, "data"@) is None);
        }
    }
    r
}

/// Wrap a payload as MCP tool text content: the payload is serialised and
/// carried as the `text` of the single content element.
#[verifier::rlimit(100)]
#[verifier::spinoff_prover]
pub fn tool_text_response(id: Option<JsonValue>, payload: JsonValue) -> (r: JsonRpcResponse)
    ensures
        r.error is None,
        r.result matches Option::Some(res) && is_tool_text(res, payload),
        r.id == (match id {
            Option::Some(v) => v,
            Option::None => JsonValue::Null,
        }),
{
    let ghost p = payload;
    let text = to_json_string(&payload);
    let mut item_fields: Vec<(String, JsonValue)> = Vec::new();
    item_fields.push((String::from_str("type"), jstr("text")));
    item_fields.push((String::from_str("text"), JsonValue::Str(text)));
    let item = JsonValue::Obj(item_fields);
    let mut arr: Vec<JsonValue> = Vec::new();
    arr.push(item);
    let mut fields: Vec<(String, JsonValue)> = Vec::new();
    fields.push((String::from_str("content"), JsonValue::Arr(arr)));
    let result = JsonValue::Obj(fields);
    proof {
        reveal_with_fuel(crate::json::obj_lookup, 8);
        reveal_strlit("content");
        reveal_strlit("type");
        reveal_strlit("text");
        assert(fields@[0].0@ == "content"@);
        assert(obj_lookup(fields@, "content"@) == Option::Some(fields@[0].1));
        let c = fields@[0].1;
        assert(c is Arr && c->Arr_0@.len() == 1);
        let it = c->Arr_0@[0];
        assert(it is Obj);
        assert(it->Obj_0@[0].0@ == "type"@ && it->Obj_0@[1].0@ == "text"@);
        assert("type"@.len() == 4 && "text"@.len() == 4);
        assert("type"@[1] == 'y' && "text"@[1] == 'e');
        assert("type"@ != "text"@);
        assert(it->Obj_0@[0].0@ != "text"@);
        assert(obj_lookup(it->Obj_0@, "text"@) == Option::Some(it->Obj_0@[1].1));
        assert(it->Obj_0@[1].1 is Str && it->Obj_0@[1].1->Str_0@ == json_chars(p));
        assert(is_tool_text(result, p));
    }
    JsonRpcResponse::success(id, result)
}

/// `res` is the MCP wrapping of `payload`: one text content element whose
/// text is the payload's serialised JSON.
pub open spec fn is_tool_text(res: JsonValue, payload: JsonValue) -> bool {
    match spec_get(res, "content"@) {
        Option::Some(c) => c is Arr && c->Arr_0@.len() == 1 && (match spec_get(
            c->Arr_0@[0],
            "text"@,
        ) {
            Option::Some(t) => t is Str && t->Str_0@ == json_chars(payload),
            Option::None => false,
        }),
        Option::None => false,
    }
}

} // verus!
