//! The connection driver's compute: one parsed request in, one response
//! and a store update out. The route table decides the outcome; the
//! store stands in for the byte store the file routes delegate to.

use vstd::prelude::*;
use crate::bytes::{push_all, count_while, ws_pred};
use crate::request::{Request, accept_gzip, user_agent_of, client_accept_gzip,
    user_agent_value, method_of, target_of, first_token, after_token};
use crate::router::{Route, route, route_matches, is_echo, is_file_get, is_file_post,
    is_user_agent, is_root};
use crate::response::{Response, ReadOutcome, respond_text, respond_file, text_response,
    dec_digits, wire_bytes, gzip_of};
use crate::store::FileStore;
use crate::tokens::{echo_prefix, files_prefix, octet_stream, text_plain, reason_not_found,
    reason_not_found_vec};

verus! {

/// The body of the not-found fallback: the status code and its reason
/// phrase as literal text.
pub open spec fn not_found_body() -> Seq<u8> {
    dec_digits(404) + seq![32u8] + reason_not_found()
}

pub fn not_found_body_vec() -> (v: Vec<u8>)
    ensures
        v@ == not_found_body(),
{
    let mut v = crate::response::fmt_u64(404);
    v.push(32u8);
    let reason = reason_not_found_vec();
    push_all(&mut v, reason.as_slice());
    proof {
        assert(v@ =~= not_found_body());
    }
    v
}

/// What one request/response exchange does, over the store's map before
/// and after: each route of the table paired with its response, gzip
/// applied to the text routes exactly when the request negotiated it.
pub open spec fn handled(
    req: Request,
    store0: Map<Seq<u8>, Seq<u8>>,
    store1: Map<Seq<u8>, Seq<u8>>,
    r: Response,
) -> bool {
    let m = req.method@;
    let t = req.target@;
    let gz = accept_gzip(req.headers@);
    if is_echo(m, t) {
        &&& text_response(r, 200, t.skip(echo_prefix().len() as int), gz)
        &&& store1 == store0
    } else if is_file_get(m, t) {
        let name = t.skip(files_prefix().len() as int);
        &&& store1 == store0
        &&& if store0.contains_key(name) {
            &&& r.status == 200
            &&& r.content_type@ == octet_stream()
            &&& r.gzip == false
            &&& r.body@ == store0[name]
        } else {
            text_response(r, 404, Seq::empty(), false)
        }
    } else if is_file_post(m, t) {
        let name = t.skip(files_prefix().len() as int);
        &&& store1 == store0.insert(name, req.body@)
        &&& text_response(r, 201, Seq::empty(), false)
    } else if is_user_agent(m, t) {
        &&& text_response(r, 200, user_agent_of(req.headers@), gz)
        &&& store1 == store0
    } else if is_root(m, t) {
        &&& text_response(r, 200, Seq::empty(), gz)
        &&& store1 == store0
    } else {
        &&& text_response(r, 404, not_found_body(), gz)
        &&& store1 == store0
    }
}

/// Dispatches one request against the store and builds its response.
pub fn handle_request(req: &Request, store: &mut FileStore) -> (r: Response)
    ensures
        handled(*req, old(store)@, final(store)@, r),
{
    let gz = client_accept_gzip(&req.headers);
    match route(req.method.as_slice(), req.target.as_slice()) {
        Route::Echo(s) => respond_text(200, s.as_slice(), gz),
        Route::FileGet(name) => {
            let outcome = match store.read_file(name.as_slice()) {
                Some(d) => ReadOutcome::Found(d),
                None => ReadOutcome::Absent,
            };
            respond_file(outcome)
        },
        Route::FilePost(name) => {
            store.write_file(name.as_slice(), req.body.as_slice());
            let empty: Vec<u8> = Vec::new();
            respond_text(201, empty.as_slice(), false)
        },
        Route::UserAgent => {
            let ua = user_agent_value(&req.headers);
            respond_text(200, ua.as_slice(), gz)
        },
        Route::Root => {
            let empty: Vec<u8> = Vec::new();
            respond_text(200, empty.as_slice(), gz)
        },
        Route::NotFound => {
            let body = not_found_body_vec();
            respond_text(404, body.as_slice(), gz)
        },
    }
}

/// Echoing without gzip: when the request is a GET whose target starts
/// with the echo prefix and gzip was not negotiated, the exchange leaves
/// the store alone and answers 200 text/plain whose body is, byte for
/// byte, the target after the prefix — so the serialized response
/// declares a `Content-Length` of exactly that byte count.
pub proof fn lemma_echo_plain(
    req: Request,
    store0: Map<Seq<u8>, Seq<u8>>,
    store1: Map<Seq<u8>, Seq<u8>>,
    r: Response,
)
    requires
        handled(req, store0, store1, r),
        is_echo(req.method@, req.target@),
        !accept_gzip(req.headers@),
    ensures
        r.status == 200,
        r.content_type@ == text_plain(),
        r.body@ == req.target@.skip(echo_prefix().len() as int),
        store1 == store0,
        r.wire() == wire_bytes(
            200,
            text_plain(),
            false,
            req.target@.skip(echo_prefix().len() as int),
        ),
{
}

/// Echoing with gzip negotiated: the body written is the compressor's
/// output for the echoed bytes, the response carries the gzip encoding
/// header, and the declared `Content-Length` counts the compressed
/// bytes, not the text. That the compressed body decompresses back to
/// the echoed bytes is the compressor's round trip, checked by tests
/// against the real compressor.
pub proof fn lemma_echo_gzip(
    req: Request,
    store0: Map<Seq<u8>, Seq<u8>>,
    store1: Map<Seq<u8>, Seq<u8>>,
    r: Response,
)
    requires
        handled(req, store0, store1, r),
        is_echo(req.method@, req.target@),
        accept_gzip(req.headers@),
    ensures
        r.status == 200,
        r.gzip,
        r.body@ == gzip_of(req.target@.skip(echo_prefix().len() as int)),
        store1 == store0,
        r.wire() == wire_bytes(
            200,
            text_plain(),
            true,
            gzip_of(req.target@.skip(echo_prefix().len() as int)),
        ),
{
}

/// Posting a body under a name and then getting that name returns
/// exactly the posted body: after the write that `handled` states for a
/// file post, the name is present in the store's map and holds those
/// bytes, which is what `handled` then returns for a file get.
pub proof fn lemma_post_then_get_round_trip(
    store: Map<Seq<u8>, Seq<u8>>,
    name: Seq<u8>,
    body: Seq<u8>,
)
    ensures
        store.insert(name, body).contains_key(name),
        store.insert(name, body)[name] == body,
{
}

/// Posting the same name again overwrites: two writes of one name leave
/// the store exactly as the later write alone would, so a later get sees
/// only the latest body.
pub proof fn lemma_post_overwrites(
    store: Map<Seq<u8>, Seq<u8>>,
    name: Seq<u8>,
    first: Seq<u8>,
    second: Seq<u8>,
)
    ensures
        store.insert(name, first).insert(name, second) == store.insert(name, second),
        store.insert(name, second)[name] == second,
{
    assert(store.insert(name, first).insert(name, second) =~= store.insert(name, second));
}

/// A request line with no tokens at all parses to empty method and
/// target, and those match no route: the malformed line falls through
/// to the not-found fallback instead of failing the pipeline.
pub proof fn lemma_empty_request_line_not_found(r: Route)
    requires
        route_matches(method_of(Seq::empty()), target_of(Seq::empty()), r),
    ensures
        r matches Route::NotFound,
{
    let e = Seq::<u8>::empty();
    assert(count_while(e, ws_pred()) == 0);
    assert(e.skip(0) =~= e);
    assert(first_token(e) =~= e);
    assert(after_token(e) =~= e);
    assert(method_of(e) == e);
    assert(target_of(e) == e);
}

} // verus!
