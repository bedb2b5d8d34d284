//! The byte constants of the wire protocol: method and route tokens,
//! header names, content types, and the pieces of a serialized response.

use vstd::prelude::*;

verus! {

/// `"GET"`: the GET method token.
pub open spec fn method_get() -> Seq<u8> {
    seq![71u8, 69u8, 84u8]
}

pub fn method_get_vec() -> (v: Vec<u8>)
    ensures
        v@ == method_get(),
{
    let v: Vec<u8> = vec![71u8, 69u8, 84u8];
    proof {
        assert(v@ =~= method_get());
    }
    v
}

/// `"POST"`: the POST method token.
pub open spec fn method_post() -> Seq<u8> {
    seq![80u8, 79u8, 83u8, 84u8]
}

pub fn method_post_vec() -> (v: Vec<u8>)
    ensures
        v@ == method_post(),
{
    let v: Vec<u8> = vec![80u8, 79u8, 83u8, 84u8];
    proof {
        assert(v@ =~= method_post());
    }
    v
}

/// `"/echo/"`: the target prefix of the echo route.
pub open spec fn echo_prefix() -> Seq<u8> {
    seq![47u8, 101u8, 99u8, 104u8, 111u8, 47u8]
}

pub fn echo_prefix_vec() -> (v: Vec<u8>)
    ensures
        v@ == echo_prefix(),
{
    let v: Vec<u8> = vec![47u8, 101u8, 99u8, 104u8, 111u8, 47u8];
    proof {
        assert(v@ =~= echo_prefix());
    }
    v
}

/// `"/files/"`: the target prefix of the file routes.
pub open spec fn files_prefix() -> Seq<u8> {
    seq![47u8, 102u8, 105u8, 108u8, 101u8, 115u8, 47u8]
}

pub fn files_prefix_vec() -> (v: Vec<u8>)
    ensures
        v@ == files_prefix(),
{
    let v: Vec<u8> = vec![47u8, 102u8, 105u8, 108u8, 101u8, 115u8, 47u8];
    proof {
        assert(v@ =~= files_prefix());
    }
    v
}

/// `"/user-agent"`: the target of the user-agent route.
pub open spec fn user_agent_path() -> Seq<u8> {
    seq![47u8, 117u8, 115u8, 101u8, 114u8, 45u8, 97u8, 103u8, 101u8, 110u8, 116u8]
}

pub fn user_agent_path_vec() -> (v: Vec<u8>)
    ensures
        v@ == user_agent_path(),
{
    let v: Vec<u8> = vec![47u8, 117u8, 115u8, 101u8, 114u8, 45u8, 97u8, 103u8, 101u8, 110u8, 116u8];
    proof {
        assert(v@ =~= user_agent_path());
    }
    v
}

/// `"/"`: the target of the root route.
pub open spec fn root_path() -> Seq<u8> {
    seq![47u8]
}

pub fn root_path_vec() -> (v: Vec<u8>)
    ensures
        v@ == root_path(),
{
    let v: Vec<u8> = vec![47u8];
    proof {
        assert(v@ =~= root_path());
    }
    v
}

/// `"User-Agent"`: the header carrying the client's user agent.
pub open spec fn user_agent_name() -> Seq<u8> {
    seq![85u8, 115u8, 101u8, 114u8, 45u8, 65u8, 103u8, 101u8, 110u8, 116u8]
}

pub fn user_agent_name_vec() -> (v: Vec<u8>)
    ensures
        v@ == user_agent_name(),
{
    let v: Vec<u8> = vec![85u8, 115u8, 101u8, 114u8, 45u8, 65u8, 103u8, 101u8, 110u8, 116u8];
    proof {
        assert(v@ =~= user_agent_name());
    }
    v
}

/// `"Accept-Encoding"`: the header driving content negotiation.
pub open spec fn accept_encoding_name() -> Seq<u8> {
    seq![65u8, 99u8, 99u8, 101u8, 112u8, 116u8, 45u8, 69u8, 110u8, 99u8, 111u8, 100u8, 105u8, 110u8, 103u8]
}

pub fn accept_encoding_name_vec() -> (v: Vec<u8>)
    ensures
        v@ == accept_encoding_name(),
{
    let v: Vec<u8> = vec![65u8, 99u8, 99u8, 101u8, 112u8, 116u8, 45u8, 69u8, 110u8, 99u8, 111u8, 100u8, 105u8, 110u8, 103u8];
    proof {
        assert(v@ =~= accept_encoding_name());
    }
    v
}

/// `"Content-Length"`: the header declaring the body length.
pub open spec fn content_length_name() -> Seq<u8> {
    seq![67u8, 111u8, 110u8, 116u8, 101u8, 110u8, 116u8, 45u8, 76u8, 101u8, 110u8, 103u8, 116u8, 104u8]
}

pub fn content_length_name_vec() -> (v: Vec<u8>)
    ensures
        v@ == content_length_name(),
{
    let v: Vec<u8> = vec![67u8, 111u8, 110u8, 116u8, 101u8, 110u8, 116u8, 45u8, 76u8, 101u8, 110u8, 103u8, 116u8, 104u8];
    proof {
        assert(v@ =~= content_length_name());
    }
    v
}

/// `"gzip"`: the gzip encoding token.
pub open spec fn gzip_token() -> Seq<u8> {
    seq![103u8, 122u8, 105u8, 112u8]
}

pub fn gzip_token_vec() -> (v: Vec<u8>)
    ensures
        v@ == gzip_token(),
{
    let v: Vec<u8> = vec![103u8, 122u8, 105u8, 112u8];
    proof {
        assert(v@ =~= gzip_token());
    }
    v
}

/// `"text/plain"`: the plain-text content type.
pub open spec fn text_plain() -> Seq<u8> {
    seq![116u8, 101u8, 120u8, 116u8, 47u8, 112u8, 108u8, 97u8, 105u8, 110u8]
}

pub fn text_plain_vec() -> (v: Vec<u8>)
    ensures
        v@ == text_plain(),
{
    let v: Vec<u8> = vec![116u8, 101u8, 120u8, 116u8, 47u8, 112u8, 108u8, 97u8, 105u8, 110u8];
    proof {
        assert(v@ =~= text_plain());
    }
    v
}

/// `"application/octet-stream"`: the content type of served files.
pub open spec fn octet_stream() -> Seq<u8> {
    seq![97u8, 112u8, 112u8, 108u8, 105u8, 99u8, 97u8, 116u8, 105u8, 111u8, 110u8, 47u8, 111u8, 99u8, 116u8, 101u8, 116u8, 45u8, 115u8, 116u8, 114u8, 101u8, 97u8, 109u8]
}

pub fn octet_stream_vec() -> (v: Vec<u8>)
    ensures
        v@ == octet_stream(),
{
    let v: Vec<u8> = vec![97u8, 112u8, 112u8, 108u8, 105u8, 99u8, 97u8, 116u8, 105u8, 111u8, 110u8, 47u8, 111u8, 99u8, 116u8, 101u8, 116u8, 45u8, 115u8, 116u8, 114u8, 101u8, 97u8, 109u8];
    proof {
        assert(v@ =~= octet_stream());
    }
    v
}

/// `"HTTP/1.1 "`: the protocol prefix of every status line.
pub open spec fn status_line_prefix() -> Seq<u8> {
    seq![72u8, 84u8, 84u8, 80u8, 47u8, 49u8, 46u8, 49u8, 32u8]
}

pub fn status_line_prefix_vec() -> (v: Vec<u8>)
    ensures
        v@ == status_line_prefix(),
{
    let v: Vec<u8> = vec![72u8, 84u8, 84u8, 80u8, 47u8, 49u8, 46u8, 49u8, 32u8];
    proof {
        assert(v@ =~= status_line_prefix());
    }
    v
}

/// `"\r\n"`: the line delimiter of the wire format.
pub open spec fn crlf() -> Seq<u8> {
    seq![13u8, 10u8]
}

pub fn crlf_vec() -> (v: Vec<u8>)
    ensures
        v@ == crlf(),
{
    let v: Vec<u8> = vec![13u8, 10u8];
    proof {
        assert(v@ =~= crlf());
    }
    v
}

/// `": "`: the separator between a header name and its value.
pub open spec fn header_sep() -> Seq<u8> {
    seq![58u8, 32u8]
}

pub fn header_sep_vec() -> (v: Vec<u8>)
    ensures
        v@ == header_sep(),
{
    let v: Vec<u8> = vec![58u8, 32u8];
    proof {
        assert(v@ =~= header_sep());
    }
    v
}

/// `"Content-Type"`: the header naming the body's media type.
pub open spec fn content_type_name() -> Seq<u8> {
    seq![67u8, 111u8, 110u8, 116u8, 101u8, 110u8, 116u8, 45u8, 84u8, 121u8, 112u8, 101u8]
}

pub fn content_type_name_vec() -> (v: Vec<u8>)
    ensures
        v@ == content_type_name(),
{
    let v: Vec<u8> = vec![67u8, 111u8, 110u8, 116u8, 101u8, 110u8, 116u8, 45u8, 84u8, 121u8, 112u8, 101u8];
    proof {
        assert(v@ =~= content_type_name());
    }
    v
}

/// `"Content-Encoding"`: the header naming the body's encoding.
pub open spec fn content_encoding_name() -> Seq<u8> {
    seq![67u8, 111u8, 110u8, 116u8, 101u8, 110u8, 116u8, 45u8, 69u8, 110u8, 99u8, 111u8, 100u8, 105u8, 110u8, 103u8]
}

pub fn content_encoding_name_vec() -> (v: Vec<u8>)
    ensures
        v@ == content_encoding_name(),
{
    let v: Vec<u8> = vec![67u8, 111u8, 110u8, 116u8, 101u8, 110u8, 116u8, 45u8, 69u8, 110u8, 99u8, 111u8, 100u8, 105u8, 110u8, 103u8];
    proof {
        assert(v@ =~= content_encoding_name());
    }
    v
}

/// `"OK"`: the reason phrase of status 200.
pub open spec fn reason_ok() -> Seq<u8> {
    seq![79u8, 75u8]
}

pub fn reason_ok_vec() -> (v: Vec<u8>)
    ensures
        v@ == reason_ok(),
{
    let v: Vec<u8> = vec![79u8, 75u8];
    proof {
        assert(v@ =~= reason_ok());
    }
    v
}

/// `"Created"`: the reason phrase of status 201.
pub open spec fn reason_created() -> Seq<u8> {
    seq![67u8, 114u8, 101u8, 97u8, 116u8, 101u8, 100u8]
}

pub fn reason_created_vec() -> (v: Vec<u8>)
    ensures
        v@ == reason_created(),
{
    let v: Vec<u8> = vec![67u8, 114u8, 101u8, 97u8, 116u8, 101u8, 100u8];
    proof {
        assert(v@ =~= reason_created());
    }
    v
}

/// `"Not Found"`: the reason phrase of status 404.
pub open spec fn reason_not_found() -> Seq<u8> {
    seq![78u8, 111u8, 116u8, 32u8, 70u8, 111u8, 117u8, 110u8, 100u8]
}

pub fn reason_not_found_vec() -> (v: Vec<u8>)
    ensures
        v@ == reason_not_found(),
{
    let v: Vec<u8> = vec![78u8, 111u8, 116u8, 32u8, 70u8, 111u8, 117u8, 110u8, 100u8];
    proof {
        assert(v@ =~= reason_not_found());
    }
    v
}

/// `"Internal Server Error"`: the reason phrase of status 500.
pub open spec fn reason_server_error() -> Seq<u8> {
    seq![73u8, 110u8, 116u8, 101u8, 114u8, 110u8, 97u8, 108u8, 32u8, 83u8, 101u8, 114u8, 118u8, 101u8, 114u8, 32u8, 69u8, 114u8, 114u8, 111u8, 114u8]
}

pub fn reason_server_error_vec() -> (v: Vec<u8>)
    ensures
        v@ == reason_server_error(),
{
    let v: Vec<u8> = vec![73u8, 110u8, 116u8, 101u8, 114u8, 110u8, 97u8, 108u8, 32u8, 83u8, 101u8, 114u8, 118u8, 101u8, 114u8, 32u8, 69u8, 114u8, 114u8, 111u8, 114u8];
    proof {
        assert(v@ =~= reason_server_error());
    }
    v
}

} // verus!
