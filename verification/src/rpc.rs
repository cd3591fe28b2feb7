//! JSON-RPC envelopes as the gateway reads and writes them.
//!
//! An envelope is a [`JsonValue`] object; these functions build responses
//! and requests and classify inbound payloads. The spec accessors below are
//! the vocabulary the rest of the library's contracts are written in.

use vstd::prelude::*;
use crate::json::JsonValue;
use crate::json::lemma_first_match_lookup;
use crate::json::lemma_absent_lookup_none;

verus! {

/// JSON-RPC: invalid JSON was received.
pub const PARSE_ERROR: i64 = -32700;

/// JSON-RPC: the envelope is not a valid request object.
pub const INVALID_REQUEST: i64 = -32600;

/// JSON-RPC: the method (here: also the language) is not available.
pub const METHOD_NOT_FOUND: i64 = -32601;

/// JSON-RPC: the params member is invalid.
pub const INVALID_PARAMS: i64 = -32602;

/// JSON-RPC: an internal error occurred while handling the request.
pub const INTERNAL_ERROR: i64 = -32603;

/// The string content of a field of an object, when both exist.
pub open spec fn spec_field_str(v: JsonValue, key: Seq<char>) -> Option<Seq<char>> {
    match v.spec_get(key) {
        Some(f) => f.spec_as_str(),
        None => None,
    }
}

/// The id member of an envelope.
pub open spec fn spec_id_of(v: JsonValue) -> Option<JsonValue> {
    v.spec_get("id"@)
}

/// The result member of a response.
pub open spec fn spec_result_of(v: JsonValue) -> Option<JsonValue> {
    v.spec_get("result"@)
}

/// The error.code member of a response.
pub open spec fn spec_error_code(v: JsonValue) -> Option<i64> {
    match v.spec_get("error"@) {
        Some(e) => match e.spec_get("code"@) {
            Some(c) => c.spec_as_int(),
            None => None,
        },
        None => None,
    }
}

/// The error.message member of a response.
pub open spec fn spec_error_message(v: JsonValue) -> Option<Seq<char>> {
    match v.spec_get("error"@) {
        Some(e) => match e.spec_get("message"@) {
            Some(m) => m.spec_as_str(),
            None => None,
        },
        None => None,
    }
}

/// A payload with a method and no id is a server-initiated notification.
pub open spec fn spec_is_notification(v: JsonValue) -> bool {
    v.spec_get("method"@) is Some && v.spec_get("id"@) is None
}

pub fn is_notification(v: &JsonValue) -> (r: bool)
    ensures
        r == spec_is_notification(*v),
{
    let has_method = match v.get("method") {
        Some(_) => true,
        None => false,
    };
    let has_id = match v.get("id") {
        Some(_) => true,
        None => false,
    };
    has_method && !has_id
}

/// The member names used by the envelope builders are pairwise distinct.
proof fn lemma_rpc_keys_distinct()
    ensures
        "jsonrpc"@ != "id"@,
        "jsonrpc"@ != "error"@,
        "jsonrpc"@ != "result"@,
        "jsonrpc"@ != "method"@,
        "jsonrpc"@ != "params"@,
        "id"@ != "error"@,
        "id"@ != "result"@,
        "id"@ != "method"@,
        "id"@ != "params"@,
        "error"@ != "result"@,
        "error"@ != "method"@,
        "error"@ != "params"@,
        "result"@ != "method"@,
        "result"@ != "params"@,
        "method"@ != "params"@,
        "code"@ != "message"@,
{
    reveal_strlit("jsonrpc");
    reveal_strlit("id");
    reveal_strlit("error");
    reveal_strlit("result");
    reveal_strlit("method");
    reveal_strlit("params");
    reveal_strlit("code");
    reveal_strlit("message");
    assert("jsonrpc"@.len() == 7);
    assert("id"@.len() == 2);
    assert("error"@.len() == 5);
    assert("result"@.len() == 6);
    assert("method"@.len() == 6);
    assert("params"@.len() == 6);
    assert("code"@.len() == 4);
    assert("message"@.len() == 7);
    assert("result"@[0] == 'r');
    assert("method"@[0] == 'm');
    assert("params"@[0] == 'p');
    assert("jsonrpc"@[0] == 'j');
    assert("message"@[0] == 'm');
}

/// A response envelope carrying an error object.
pub fn error_response(id: JsonValue, code: i64, message: String) -> (r: JsonValue)
    ensures
        spec_field_str(r, "jsonrpc"@) == Some("2.0"@),
        spec_id_of(r) == Some(id),
        spec_error_code(r) == Some(code),
        spec_error_message(r) == Some(message@),
        spec_result_of(r) is None,
{
    let ghost gmsg = message@;
    let mut err_pairs: Vec<(String, JsonValue)> = Vec::new();
    err_pairs.push(("code".to_owned(), JsonValue::Int(code)));
    err_pairs.push(("message".to_owned(), JsonValue::Str(message)));
    let err = JsonValue::Obj(err_pairs);
    let mut pairs: Vec<(String, JsonValue)> = Vec::new();
    pairs.push(("jsonrpc".to_owned(), JsonValue::Str("2.0".to_owned())));
    pairs.push(("id".to_owned(), id));
    pairs.push(("error".to_owned(), err));
    let r = JsonValue::Obj(pairs);
    proof {
        lemma_rpc_keys_distinct();
        lemma_first_match_lookup(err_pairs@, 0);
        lemma_first_match_lookup(err_pairs@, 1);
        lemma_first_match_lookup(pairs@, 0);
        lemma_first_match_lookup(pairs@, 1);
        lemma_first_match_lookup(pairs@, 2);
        lemma_absent_lookup_none(pairs@, "result"@);
        assert(spec_field_str(r, "jsonrpc"@) == Some("2.0"@));
        assert(spec_id_of(r) == Some(id));
        assert(spec_error_code(r) == Some(code));
        assert(spec_error_message(r) == Some(gmsg));
        assert(spec_result_of(r) is None);
    }
    r
}

/// A response envelope carrying a result.
pub fn success_response(id: JsonValue, result: JsonValue) -> (r: JsonValue)
    ensures
        spec_field_str(r, "jsonrpc"@) == Some("2.0"@),
        spec_id_of(r) == Some(id),
        spec_result_of(r) == Some(result),
        spec_error_code(r) is None,
        spec_error_message(r) is None,
{
    let mut pairs: Vec<(String, JsonValue)> = Vec::new();
    pairs.push(("jsonrpc".to_owned(), JsonValue::Str("2.0".to_owned())));
    pairs.push(("id".to_owned(), id));
    pairs.push(("result".to_owned(), result));
    let r = JsonValue::Obj(pairs);
    proof {
        lemma_rpc_keys_distinct();
        lemma_first_match_lookup(pairs@, 0);
        lemma_first_match_lookup(pairs@, 1);
        lemma_first_match_lookup(pairs@, 2);
        lemma_absent_lookup_none(pairs@, "error"@);
        assert(spec_field_str(r, "jsonrpc"@) == Some("2.0"@));
        assert(spec_id_of(r) == Some(id));
        assert(spec_result_of(r) == Some(result));
        assert(spec_error_code(r) is None);
        assert(spec_error_message(r) is None);
    }
    r
}

/// A request envelope with a numeric id.
pub fn request_envelope(id: i64, method: String, params: Option<JsonValue>) -> (r: JsonValue)
    ensures
        spec_field_str(r, "jsonrpc"@) == Some("2.0"@),
        spec_id_of(r) == Some(JsonValue::Int(id)),
        spec_field_str(r, "method"@) == Some(method@),
        match params {
            Some(p) => r.spec_get("params"@) == Some(p),
            None => r.spec_get("params"@) is None,
        },
        !spec_is_notification(r),
{
    let ghost gmethod = method@;
    let mut pairs: Vec<(String, JsonValue)> = Vec::new();
    pairs.push(("jsonrpc".to_owned(), JsonValue::Str("2.0".to_owned())));
    pairs.push(("id".to_owned(), JsonValue::Int(id)));
    pairs.push(("method".to_owned(), JsonValue::Str(method)));
    match params {
        Some(p) => {
            pairs.push(("params".to_owned(), p));
            let r = JsonValue::Obj(pairs);
            proof {
                lemma_rpc_keys_distinct();
                lemma_first_match_lookup(pairs@, 0);
                lemma_first_match_lookup(pairs@, 1);
                lemma_first_match_lookup(pairs@, 2);
                lemma_first_match_lookup(pairs@, 3);
                assert(spec_field_str(r, "jsonrpc"@) == Some("2.0"@));
                assert(spec_id_of(r) == Some(JsonValue::Int(id)));
                assert(spec_field_str(r, "method"@) == Some(gmethod));
                assert(r.spec_get("params"@) == Some(p));
            }
            r
        },
        None => {
            let r = JsonValue::Obj(pairs);
            proof {
                lemma_rpc_keys_distinct();
                lemma_first_match_lookup(pairs@, 0);
                lemma_first_match_lookup(pairs@, 1);
                lemma_first_match_lookup(pairs@, 2);
                lemma_absent_lookup_none(pairs@, "params"@);
                assert(spec_field_str(r, "jsonrpc"@) == Some("2.0"@));
                assert(spec_id_of(r) == Some(JsonValue::Int(id)));
                assert(spec_field_str(r, "method"@) == Some(gmethod));
                assert(r.spec_get("params"@) is None);
            }
            r
        },
    }
}

/// A notification envelope: a method and no id.
pub fn notification_envelope(method: String, params: Option<JsonValue>) -> (r: JsonValue)
    ensures
        spec_field_str(r, "jsonrpc"@) == Some("2.0"@),
        spec_id_of(r) is None,
        spec_field_str(r, "method"@) == Some(method@),
        match params {
            Some(p) => r.spec_get("params"@) == Some(p),
            None => r.spec_get("params"@) is None,
        },
        spec_is_notification(r),
{
    let ghost gmethod = method@;
    let mut pairs: Vec<(String, JsonValue)> = Vec::new();
    pairs.push(("jsonrpc".to_owned(), JsonValue::Str("2.0".to_owned())));
    pairs.push(("method".to_owned(), JsonValue::Str(method)));
    match params {
        Some(p) => {
            pairs.push(("params".to_owned(), p));
            let r = JsonValue::Obj(pairs);
            proof {
                lemma_rpc_keys_distinct();
                lemma_first_match_lookup(pairs@, 0);
                lemma_first_match_lookup(pairs@, 1);
                lemma_first_match_lookup(pairs@, 2);
                lemma_absent_lookup_none(pairs@, "id"@);
                assert(spec_field_str(r, "jsonrpc"@) == Some("2.0"@));
                assert(spec_id_of(r) is None);
                assert(spec_field_str(r, "method"@) == Some(gmethod));
                assert(r.spec_get("params"@) == Some(p));
            }
            r
        },
        None => {
            let r = JsonValue::Obj(pairs);
            proof {
                lemma_rpc_keys_distinct();
                lemma_first_match_lookup(pairs@, 0);
                lemma_first_match_lookup(pairs@, 1);
                lemma_absent_lookup_none(pairs@, "id"@);
                lemma_absent_lookup_none(pairs@, "params"@);
                assert(spec_field_str(r, "jsonrpc"@) == Some("2.0"@));
                assert(spec_id_of(r) is None);
                assert(spec_field_str(r, "method"@) == Some(gmethod));
                assert(r.spec_get("params"@) is None);
            }
            r
        },
    }
}

/// The serialized text of an envelope: what the application writes to
/// the socket for a reply or a re-published notification.
pub fn envelope_text(v: &JsonValue) -> (r: String)
    ensures
        r@ == crate::codec::spec_json_text(*v),
{
    crate::codec::json_to_text(v)
}

} // verus!
