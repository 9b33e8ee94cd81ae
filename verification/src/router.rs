//! Decoding of the line-based text requests and their routing onto the
//! store: verb and path tokens, numeric parameters, and the dispatch to
//! the one matching store operation.

use vstd::prelude::*;
use vstd::utf8::{decode_utf8, valid_utf8};

use crate::api;
use crate::api::{
    add_item_response, query_all_response, query_one_response, remove_item_response,
};
use crate::restaurant::Restaurant;
use crate::text::{parse_u32, parse_u32_spec, split_char, split_spec, str_eq};

verus! {

/// The verb token of a request.
#[derive(Debug, PartialEq, Eq, Structural, Clone, Copy)]
pub enum RequestMethod {
    Get,
    Post,
    Delete,
    Put,
    Unknown,
}

/// The operation named by a request path.
#[derive(Debug, PartialEq, Eq, Structural, Clone, Copy)]
pub enum RequestApi {
    Add,
    Remove,
    Query,
    Unknown,
}

/// Which verb a token names.
pub open spec fn parse_method_spec(s: Seq<char>) -> RequestMethod {
    if s == "GET"@ {
        RequestMethod::Get
    } else if s == "POST"@ {
        RequestMethod::Post
    } else if s == "DELETE"@ {
        RequestMethod::Delete
    } else if s == "PUT"@ {
        RequestMethod::Put
    } else {
        RequestMethod::Unknown
    }
}

/// Decodes the verb token.
pub fn parse_method(s: &str) -> (r: RequestMethod)
    ensures
        r == parse_method_spec(s@),
{
    if str_eq(s, "GET") {
        RequestMethod::Get
    } else if str_eq(s, "POST") {
        RequestMethod::Post
    } else if str_eq(s, "DELETE") {
        RequestMethod::Delete
    } else if str_eq(s, "PUT") {
        RequestMethod::Put
    } else {
        RequestMethod::Unknown
    }
}

/// Which operation a path names, and its raw parameter pieces: the path
/// must start with a separator and name a known operation, and the
/// pieces after the operation name are the parameters.
pub open spec fn parse_api_spec(s: Seq<char>) -> (RequestApi, Seq<Seq<char>>) {
    let parts = split_spec(s, '/');
    if parts.len() < 2 {
        (RequestApi::Unknown, Seq::<Seq<char>>::empty())
    } else if parts[1] == "add"@ {
        (RequestApi::Add, parts.skip(2))
    } else if parts[1] == "remove"@ {
        (RequestApi::Remove, parts.skip(2))
    } else if parts[1] == "query"@ {
        (RequestApi::Query, parts.skip(2))
    } else {
        (RequestApi::Unknown, Seq::<Seq<char>>::empty())
    }
}

/// Decodes the path token into the operation and its parameters.
pub fn parse_api(s: &str) -> (r: (RequestApi, Vec<String>))
    ensures
        r.0 == parse_api_spec(s@).0,
        r.1@.len() == parse_api_spec(s@).1.len(),
        forall|i: int| 0 <= i < r.1@.len() ==> r.1@[i]@ == parse_api_spec(s@).1[i],
{
    let parts = split_char(s, '/');
    if parts.len() < 2 {
        return (RequestApi::Unknown, Vec::new());
    }
    let name = parts[1].as_str();
    let api: RequestApi;
    if str_eq(name, "add") {
        api = RequestApi::Add;
    } else if str_eq(name, "remove") {
        api = RequestApi::Remove;
    } else if str_eq(name, "query") {
        api = RequestApi::Query;
    } else {
        return (RequestApi::Unknown, Vec::new());
    }
    let mut params: Vec<String> = Vec::new();
    let mut i: usize = 2;
    while i < parts.len()
        invariant
            2 <= i <= parts@.len(),
            parts@.len() == split_spec(s@, '/').len(),
            forall|j: int| 0 <= j < parts@.len() ==> parts@[j]@ == split_spec(s@, '/')[j],
            params@.len() == i - 2,
            forall|j: int| 0 <= j < params@.len() ==> params@[j]@ == split_spec(s@, '/')[j + 2],
        decreases parts@.len() - i,
    {
        params.push(parts[i].clone());
        i = i + 1;
    }
    (api, params)
}

/// What the router answers to a decoded request: the routing table of
/// the protocol. Unknown verbs, unknown paths, wrong parameter counts
/// and malformed numbers each get their marker; a recognized operation
/// gets the corresponding store operation's response.
pub open spec fn response_matches(req: Seq<char>, store: Restaurant, resp: Seq<char>) -> bool {
    let toks = split_spec(req, ' ');
    if toks.len() < 2 {
        resp == "some error"@
    } else {
        let method = parse_method_spec(toks[0]);
        let api_kind = parse_api_spec(toks[1]).0;
        let params = parse_api_spec(toks[1]).1;
        match method {
            RequestMethod::Get => {
                if api_kind is Query {
                    if params.len() == 1 {
                        match parse_u32_spec(params[0]) {
                            Some(tid) => query_all_response(tid, store, resp),
                            None => resp == "some error"@,
                        }
                    } else if params.len() == 2 {
                        match (parse_u32_spec(params[0]), parse_u32_spec(params[1])) {
                            (Some(tid), Some(iid)) => query_one_response(tid, iid, store, resp),
                            _ => resp == "some error"@,
                        }
                    } else {
                        resp == "wrong api"@
                    }
                } else {
                    resp == ""@
                }
            },
            RequestMethod::Post => {
                if api_kind is Add {
                    if params.len() == 2 {
                        match parse_u32_spec(params[0]) {
                            Some(tid) => add_item_response(tid, params[1], store, resp),
                            None => resp == "some error"@,
                        }
                    } else {
                        resp == "wrong api"@
                    }
                } else {
                    resp == ""@
                }
            },
            RequestMethod::Delete => {
                if api_kind is Remove {
                    if params.len() == 2 {
                        match (parse_u32_spec(params[0]), parse_u32_spec(params[1])) {
                            (Some(tid), Some(iid)) => remove_item_response(tid, iid, store, resp),
                            _ => resp == "some error"@,
                        }
                    } else {
                        resp == "wrong api"@
                    }
                } else {
                    resp == ""@
                }
            },
            RequestMethod::Put => resp == ""@,
            RequestMethod::Unknown => resp == "unknown method"@,
        }
    }
}

/// Relies on std's `str::from_utf8`: succeeds exactly on valid UTF-8 and
/// yields the characters that the bytes encode.
#[verifier::external_body]
fn bytes_to_str(v: &[u8]) -> (r: Option<&str>)
    ensures
        r is Some <==> valid_utf8(v@),
        r matches Some(s) ==> s@ == decode_utf8(v@),
{
    core::str::from_utf8(v).ok()
}

/// Decodes one raw request and performs the operation it names. Bytes
/// that are not text, a missing token, or a malformed number are decode
/// failures answered with a marker, never a fault.
pub fn request_parser(req: &[u8], restaurant: Restaurant) -> (r: String)
    requires
        restaurant.wf(),
    ensures
        !valid_utf8(req@) ==> r@ == "some error"@,
        valid_utf8(req@) ==> response_matches(decode_utf8(req@), restaurant, r@),
{
    let text = match bytes_to_str(req) {
        None => { return String::from_str("some error"); },
        Some(t) => t,
    };
    let toks = split_char(text, ' ');
    if toks.len() < 2 {
        return String::from_str("some error");
    }
    let method = parse_method(toks[0].as_str());
    let (api_kind, params) = parse_api(toks[1].as_str());
    match method {
        RequestMethod::Get => {
            match api_kind {
                RequestApi::Query => {
                    if params.len() == 1 {
                        match parse_u32(params[0].as_str()) {
                            Some(tid) => api::query_all(tid, restaurant),
                            None => String::from_str("some error"),
                        }
                    } else if params.len() == 2 {
                        let tid = parse_u32(params[0].as_str());
                        let iid = parse_u32(params[1].as_str());
                        match (tid, iid) {
                            (Some(t), Some(i)) => api::query_one(t, i, restaurant),
                            _ => String::from_str("some error"),
                        }
                    } else {
                        String::from_str("wrong api")
                    }
                },
                _ => String::from_str(""),
            }
        },
        RequestMethod::Post => {
            match api_kind {
                RequestApi::Add => {
                    if params.len() == 2 {
                        match parse_u32(params[0].as_str()) {
                            Some(tid) => api::add_item(tid, params[1].as_str(), restaurant),
                            None => String::from_str("some error"),
                        }
                    } else {
                        String::from_str("wrong api")
                    }
                },
                _ => String::from_str(""),
            }
        },
        RequestMethod::Delete => {
            match api_kind {
                RequestApi::Remove => {
                    if params.len() == 2 {
                        let tid = parse_u32(params[0].as_str());
                        let iid = parse_u32(params[1].as_str());
                        match (tid, iid) {
                            (Some(t), Some(i)) => api::remove_item(t, i, restaurant),
                            _ => String::from_str("some error"),
                        }
                    } else {
                        String::from_str("wrong api")
                    }
                },
                _ => String::from_str(""),
            }
        },
        RequestMethod::Put => String::from_str(""),
        RequestMethod::Unknown => String::from_str("unknown method"),
    }
}

} // verus!
