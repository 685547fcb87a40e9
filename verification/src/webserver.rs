//! The HTTP surface: what each route answers. A route is decided here from
//! plain values; listening, matching paths and writing JSON are the server's
//! business.

use crate::cache::{
    hash_lookup, hash_url_text, id_lookup, id_url_text, CacheLoadingError, Lookup, MapCache,
};
use crate::hex::{parse_hex, parse_hex_u32};
use crate::models::BeatSaverMap;
use crate::request_manager::RequestError;
use crate::transport::{built_get, describe_error, is_status_code};
use std::sync::Arc;
use vstd::prelude::*;
use vstd::string::*;

verus! {

/// The status of a request that was served.
pub const OK: u16 = 200;

/// The status of a request that is malformed.
pub const BAD_REQUEST: u16 = 400;

/// The status of a request that failed for no fault of the client.
pub const INTERNAL_SERVER_ERROR: u16 = 500;

/// An answer to a client.
#[derive(Debug)]
pub enum Reply {
    /// Status 200 and the record as JSON.
    Json(Arc<BeatSaverMap>),
    /// A status and a body of plain text.
    Text { status: u16, message: String },
}

/// What a route has for the client.
#[derive(Debug)]
pub enum Served {
    /// The answer.
    Reply(Reply),
    /// Nothing yet: the client's ticket waits for a load, and the answer is
    /// due when the load settles.
    Waiting,
}

/// Where a GET request leads.
#[derive(Debug, PartialEq, Eq)]
pub enum Route {
    /// To the lookup by this content hash.
    Hash(String),
    /// To the lookup by this id, still as the path gives it.
    Id(String),
    /// Nowhere.
    NotFound,
}

/// The path under which records are looked up by content hash.
pub open spec fn hash_route() -> Seq<char> {
    "/maps/hash/"@
}

/// The path under which records are looked up by id.
pub open spec fn id_route() -> Seq<char> {
    "/maps/id/"@
}

/// The one segment that a path has beyond a stem: what follows the stem, up
/// to one closing slash, if that is not empty and holds no slash.
pub open spec fn segment_after(path: Seq<char>, stem: Seq<char>) -> Option<Seq<char>> {
    if path.len() > stem.len() && path.subrange(0, stem.len() as int) == stem {
        let rest = path.skip(stem.len() as int);
        let segment = if rest.last() == '/' {
            rest.drop_last()
        } else {
            rest
        };
        if segment.len() > 0 && !segment.contains('/') {
            Some(segment)
        } else {
            None
        }
    } else {
        None
    }
}

fn param_after<'a>(path: &'a str, stem: &str) -> (segment: Option<&'a str>)
    ensures
        match segment {
            Some(found) => segment_after(path@, stem@) == Some(found@),
            None => segment_after(path@, stem@) is None,
        },
{
    let length: usize = path.unicode_len();
    let stem_length: usize = stem.unicode_len();
    if length <= stem_length {
        return None;
    }
    let mut at: usize = 0;
    let mut closed = false;
    for c in it: path.chars()
        invariant
            it.seq() == path@,
            at == it.index(),
            at <= length,
            length == path@.len(),
            stem_length == stem@.len(),
            stem_length < length,
            path@.subrange(0, if at < stem_length { at as int } else { stem_length as int })
                == stem@.subrange(0, if at < stem_length { at as int } else { stem_length as int }),
            forall|i: int| stem_length <= i < at - (if closed { 1int } else { 0int }) ==> path@[i] != '/',
            closed ==> at == length && at > stem_length + 1 && path@[at - 1] == '/',
            !closed && at > stem_length ==> path@[at - 1] != '/',
    {
        if at < stem_length {
            if c != stem.get_char(at) {
                return None;
            }
        } else if c == '/' {
            if at + 1 < length || at == stem_length {
                proof {
                    let rest = path@.skip(stem_length as int);
                    let segment = if rest.last() == '/' {
                        rest.drop_last()
                    } else {
                        rest
                    };
                    if at + 1 < length {
                        assert(segment[at - stem_length] == '/');
                    }
                }
                return None;
            }
            closed = true;
        }
        at = at + 1;
    }
    let end: usize = if closed {
        length - 1
    } else {
        length
    };
    let found = path.substring_char(stem_length, end);
    proof {
        assert(stem@.subrange(0, stem_length as int) =~= stem@);
        assert forall|i: int| 0 <= i < found@.len() implies found@[i] != '/' by {
            assert(found@[i] == path@[stem_length + i]);
        }
    }
    Some(found)
}

/// Finds the route of a GET request from its path. The hash and the id are
/// taken as they stand in the path: one segment, with one closing slash
/// allowed behind it.
pub fn route(path: &str) -> (route: Route)
    ensures
        match route {
            Route::Hash(hash) => segment_after(path@, hash_route()) == Some(hash@),
            Route::Id(id) => segment_after(path@, hash_route()) is None && segment_after(
                path@,
                id_route(),
            ) == Some(id@),
            Route::NotFound => segment_after(path@, hash_route()) is None && segment_after(
                path@,
                id_route(),
            ) is None,
        },
{
    match param_after(path, "/maps/hash/") {
        Some(hash) => Route::Hash(hash.to_owned()),
        None => match param_after(path, "/maps/id/") {
            Some(id) => Route::Id(id.to_owned()),
            None => Route::NotFound,
        },
    }
}

/// The status that answers an error. A status that the upstream gave is
/// passed on if it is one, every other error is an internal one.
pub open spec fn error_status(error: CacheLoadingError) -> u16 {
    match error {
        CacheLoadingError::LoadingError(reason) => match *reason {
            RequestError::StatusCodeError(code) => if 100 <= code && code < 1000 {
                code
            } else {
                INTERNAL_SERVER_ERROR
            },
            _ => INTERNAL_SERVER_ERROR,
        },
        _ => INTERNAL_SERVER_ERROR,
    }
}

/// How the body that answers an error begins. For the two errors that carry
/// a detail of the client library, the detail follows; for every other
/// error this is the whole body.
pub open spec fn error_lead(error: CacheLoadingError) -> Seq<char> {
    match error {
        CacheLoadingError::CommunicationError =>
            "An internal error occurred when communicating with the cache"@,
        CacheLoadingError::NoData => "The internal cache returned no data"@,
        CacheLoadingError::LoadingError(reason) => match *reason {
            RequestError::StatusCodeError(_) => "Upstream request didn't return successfully"@,
            RequestError::ReqwestError(_) => "Upstream request failed: "@,
            RequestError::BufferError => "Buffer is full"@,
            RequestError::JsonError(_) => "Upstream returned invalid json - "@,
            _ => "An internal error occurred in the loader"@,
        },
    }
}

/// Whether an error carries a detail of the client library.
pub open spec fn has_detail(error: CacheLoadingError) -> bool {
    match error {
        CacheLoadingError::LoadingError(reason) => *reason is ReqwestError || *reason is JsonError,
        _ => false,
    }
}

/// Whether `reply` is the answer to `result`: a record goes out as it is, an
/// error as text under its status.
pub open spec fn answers(result: Result<Arc<BeatSaverMap>, CacheLoadingError>, reply: Reply) -> bool {
    match result {
        Ok(map) => reply == Reply::Json(map),
        Err(error) => {
            &&& reply matches Reply::Text { status, message }
            &&& status == error_status(error)
            &&& message@.len() >= error_lead(error).len()
            &&& message@.subrange(0, error_lead(error).len() as int) == error_lead(error)
            &&& !has_detail(error) ==> message@ == error_lead(error)
        },
    }
}

/// An internal error with the given body.
pub fn internal_server_error(message: String) -> (reply: Reply)
    ensures
        reply == (Reply::Text { status: INTERNAL_SERVER_ERROR, message }),
{
    Reply::Text { status: INTERNAL_SERVER_ERROR, message }
}

/// An error under the upstream's status, or under 500 where the upstream's
/// number is no status.
pub fn status_code_error(message: String, status: u16) -> (reply: Reply)
    ensures
        reply == (Reply::Text {
            status: if 100 <= status && status < 1000 {
                status
            } else {
                INTERNAL_SERVER_ERROR
            },
            message,
        }),
{
    if is_status_code(status) {
        Reply::Text { status, message }
    } else {
        Reply::Text { status: INTERNAL_SERVER_ERROR, message }
    }
}

/// Answers a lookup that has come to its end.
pub fn handle_result(result: Result<Arc<BeatSaverMap>, CacheLoadingError>) -> (reply: Reply)
    ensures
        answers(result, reply),
{
    let reply = match result {
        Ok(map) => Reply::Json(map),
        Err(CacheLoadingError::CommunicationError) => internal_server_error(
            "An internal error occurred when communicating with the cache".to_owned(),
        ),
        Err(CacheLoadingError::NoData) => internal_server_error(
            "The internal cache returned no data".to_owned(),
        ),
        Err(CacheLoadingError::LoadingError(reason)) => {
            match &*reason {
                RequestError::StatusCodeError(status) => status_code_error(
                    "Upstream request didn't return successfully".to_owned(),
                    *status,
                ),
                RequestError::ReqwestError(error) => internal_server_error(
                    describe_error("Upstream request failed: ", error),
                ),
                RequestError::BufferError => internal_server_error("Buffer is full".to_owned()),
                RequestError::JsonError(error) => internal_server_error(
                    describe_error("Upstream returned invalid json - ", error),
                ),
                _ => internal_server_error("An internal error occurred in the loader".to_owned()),
            }
        },
    };
    proof {
        if reply is Text {
            let text = reply->message@;
            assert(text.subrange(0, text.len() as int) =~= text);
        }
    }
    reply
}

/// Whether `served` is what a route owes for what the lookup found: a record
/// at once, an error at once, and nothing yet where the ticket waits.
pub open spec fn serves(found: Lookup, served: Served) -> bool {
    match found {
        Lookup::Cached(map) => served matches Served::Reply(reply) && answers(Ok(map), reply),
        Lookup::Failed(error) => served matches Served::Reply(reply) && answers(
            Err(CacheLoadingError::LoadingError(Arc::new(error))),
            reply,
        ),
        _ => served is Waiting,
    }
}

fn serve(found: Lookup) -> (served: Served)
    ensures
        serves(found, served),
{
    match found {
        Lookup::Cached(map) => Served::Reply(handle_result(Ok(map))),
        Lookup::Failed(error) => Served::Reply(
            handle_result(Err(CacheLoadingError::LoadingError(Arc::new(error)))),
        ),
        _ => Served::Waiting,
    }
}

/// The route `GET /maps/hash/{hash}`: a lookup by content hash.
pub fn by_hash(hash: String, cache: &mut MapCache, ticket: u64, now: u64) -> (served: Served)
    requires
        old(cache).wf(),
    ensures
        final(cache)@ == hash_lookup(
            old(cache)@,
            hash,
            ticket,
            now,
            built_get(hash_url_text(hash@)),
        ).0,
        serves(
            hash_lookup(old(cache)@, hash, ticket, now, built_get(hash_url_text(hash@))).1,
            served,
        ),
        final(cache).spec_client() == old(cache).spec_client(),
        final(cache).wf(),
{
    let found = cache.get_map_by_hash(hash, ticket, now);
    serve(found)
}

/// The route `GET /maps/id/{id}`: a lookup by the id that the path gives in
/// hexadecimal. A segment that is no hexadecimal 32-bit number is answered
/// with 400 before the cache is touched.
pub fn by_id(id: &str, cache: &mut MapCache, ticket: u64, now: u64) -> (served: Served)
    requires
        old(cache).wf(),
    ensures
        match parse_hex_u32(id@) {
            None => {
                &&& served matches Served::Reply(Reply::Text { status, message })
                &&& status == BAD_REQUEST
                &&& message@ == "Key is not a hex-formatted number"@
                &&& *final(cache) == *old(cache)
            },
            Some(key) => {
                &&& final(cache)@ == id_lookup(
                    old(cache)@,
                    key,
                    ticket,
                    now,
                    built_get(id_url_text(key)),
                ).0
                &&& serves(
                    id_lookup(old(cache)@, key, ticket, now, built_get(id_url_text(key))).1,
                    served,
                )
            },
        },
        final(cache).spec_client() == old(cache).spec_client(),
        final(cache).wf(),
{
    match parse_hex(id) {
        Some(key) => {
            let found = cache.get_map_by_id(key, ticket, now);
            serve(found)
        },
        None => Served::Reply(
            Reply::Text {
                status: BAD_REQUEST,
                message: "Key is not a hex-formatted number".to_owned(),
            },
        ),
    }
}

/// The route `OPTIONS *`: the fixed answer to a cross-origin preflight.
pub fn options() -> (reply: Reply)
    ensures
        reply matches Reply::Text { status, message } && status == OK && message@ == "OK"@,
{
    Reply::Text { status: OK, message: "OK".to_owned() }
}

} // verus!
