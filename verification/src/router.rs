//! The route table: maps a method and a raw target to a handler
//! outcome. Prefix routes match on the raw target bytes, never decoded,
//! and the first matching rule wins.

use vstd::prelude::*;
use crate::bytes::{starts_with_spec, starts_with, bytes_eq};
use crate::tokens::{
    method_get, method_get_vec, method_post, method_post_vec, echo_prefix, echo_prefix_vec,
    files_prefix, files_prefix_vec, user_agent_path, user_agent_path_vec, root_path, root_path_vec,
};

verus! {

/// Where a request goes: each variant carries what its handler needs,
/// already cut out of the raw target.
pub enum Route {
    /// `GET /echo/{rest}`: echo `rest` back as the body.
    Echo(Vec<u8>),
    /// `GET /files/{name}`: serve the named file.
    FileGet(Vec<u8>),
    /// `POST /files/{name}`: store the request body under the name.
    FilePost(Vec<u8>),
    /// `GET /user-agent`: reflect the `User-Agent` header.
    UserAgent,
    /// `GET /`: an empty success.
    Root,
    /// Anything else.
    NotFound,
}

pub open spec fn is_echo(m: Seq<u8>, t: Seq<u8>) -> bool {
    m == method_get() && starts_with_spec(t, echo_prefix())
}

pub open spec fn is_file_get(m: Seq<u8>, t: Seq<u8>) -> bool {
    !is_echo(m, t) && m == method_get() && starts_with_spec(t, files_prefix())
}

pub open spec fn is_file_post(m: Seq<u8>, t: Seq<u8>) -> bool {
    m == method_post() && starts_with_spec(t, files_prefix())
}

pub open spec fn is_user_agent(m: Seq<u8>, t: Seq<u8>) -> bool {
    m == method_get() && t == user_agent_path()
}

pub open spec fn is_root(m: Seq<u8>, t: Seq<u8>) -> bool {
    m == method_get() && t == root_path()
}

/// What `route` must return for a method and a target: the first rule
/// of the table that matches, the not-found fallback when none does.
pub open spec fn route_matches(m: Seq<u8>, t: Seq<u8>, r: Route) -> bool {
    if is_echo(m, t) {
        r matches Route::Echo(s) && s@ == t.skip(echo_prefix().len() as int)
    } else if is_file_get(m, t) {
        r matches Route::FileGet(n) && n@ == t.skip(files_prefix().len() as int)
    } else if is_file_post(m, t) {
        r matches Route::FilePost(n) && n@ == t.skip(files_prefix().len() as int)
    } else if is_user_agent(m, t) {
        r matches Route::UserAgent
    } else if is_root(m, t) {
        r matches Route::Root
    } else {
        r matches Route::NotFound
    }
}

/// Dispatches a method and a raw target on the route table.
pub fn route(method: &[u8], target: &[u8]) -> (r: Route)
    ensures
        route_matches(method@, target@, r),
{
    let get = method_get_vec();
    let post = method_post_vec();
    let echo = echo_prefix_vec();
    let files = files_prefix_vec();
    let is_get = bytes_eq(method, get.as_slice());
    if is_get && starts_with(target, echo.as_slice()) {
        let rest = vstd::slice::slice_to_vec(&target[echo.len()..target.len()]);
        proof {
            assert(target@.subrange(echo_prefix().len() as int, target@.len() as int)
                =~= target@.skip(echo_prefix().len() as int));
        }
        return Route::Echo(rest);
    }
    if is_get && starts_with(target, files.as_slice()) {
        let name = vstd::slice::slice_to_vec(&target[files.len()..target.len()]);
        proof {
            assert(target@.subrange(files_prefix().len() as int, target@.len() as int)
                =~= target@.skip(files_prefix().len() as int));
        }
        return Route::FileGet(name);
    }
    if bytes_eq(method, post.as_slice()) && starts_with(target, files.as_slice()) {
        let name = vstd::slice::slice_to_vec(&target[files.len()..target.len()]);
        proof {
            assert(target@.subrange(files_prefix().len() as int, target@.len() as int)
                =~= target@.skip(files_prefix().len() as int));
        }
        return Route::FilePost(name);
    }
    let ua = user_agent_path_vec();
    if is_get && bytes_eq(target, ua.as_slice()) {
        return Route::UserAgent;
    }
    let root = root_path_vec();
    if is_get && bytes_eq(target, root.as_slice()) {
        return Route::Root;
    }
    Route::NotFound
}

} // verus!
