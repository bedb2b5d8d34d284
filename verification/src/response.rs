//! The response writer: builds a response value and serializes it as an
//! HTTP/1.1 status line, headers and body, with a `Content-Length` that
//! always equals the exact byte length of the body written — computed
//! after compression when gzip was negotiated.

use vstd::prelude::*;
use crate::bytes::push_all;
use crate::tokens::{
    status_line_prefix, status_line_prefix_vec, crlf, crlf_vec, header_sep, header_sep_vec,
    content_type_name, content_type_name_vec, content_encoding_name, content_encoding_name_vec,
    content_length_name, content_length_name_vec, gzip_token, gzip_token_vec, reason_ok,
    reason_created, reason_not_found, reason_server_error, text_plain, text_plain_vec,
    octet_stream,
};

verus! {

/// The decimal digits of `n`, most significant first.
pub open spec fn dec_digits(n: nat) -> Seq<u8>
    decreases n,
{
    if n < 10 {
        seq![(48 + n) as u8]
    } else {
        dec_digits(n / 10).push((48 + n % 10) as u8)
    }
}

/// Formats a number in decimal.
pub fn fmt_u64(n: u64) -> (v: Vec<u8>)
    ensures
        v@ == dec_digits(n as nat),
    decreases n,
{
    if n < 10 {
        let v: Vec<u8> = vec![48u8 + n as u8];
        proof {
            assert(v@ =~= dec_digits(n as nat));
        }
        v
    } else {
        let mut v = fmt_u64(n / 10);
        v.push(48u8 + (n % 10) as u8);
        v
    }
}

/// The reason phrase the status line carries for each status the
/// pipeline produces; no other status is ever built.
pub open spec fn reason_of(status: u16) -> Seq<u8> {
    if status == 200 {
        reason_ok()
    } else if status == 201 {
        reason_created()
    } else if status == 404 {
        reason_not_found()
    } else if status == 500 {
        reason_server_error()
    } else {
        Seq::empty()
    }
}

pub fn reason_vec(status: u16) -> (v: Vec<u8>)
    ensures
        v@ == reason_of(status),
{
    if status == 200 {
        crate::tokens::reason_ok_vec()
    } else if status == 201 {
        crate::tokens::reason_created_vec()
    } else if status == 404 {
        crate::tokens::reason_not_found_vec()
    } else if status == 500 {
        crate::tokens::reason_server_error_vec()
    } else {
        Vec::new()
    }
}

/// What the gzip compressor returns for given input bytes. The stream
/// depends on the input alone, so the round trip through a decompressor
/// is checked by tests against the real compressor.
pub uninterp spec fn gzip_of(data: Seq<u8>) -> Seq<u8>;

/// Relies on flate2's `write::GzEncoder` at the default compression
/// level: a standard gzip stream whose bytes are a function of the input
/// bytes alone (the default header carries a zero mtime and fixed flags,
/// and the DEFLATE payload is deterministic). Writing into the in-memory
/// `Vec` sink cannot fail, so `finish` returns the stream.
#[verifier::external_body]
fn gzip_compress(data: &[u8]) -> (r: Vec<u8>)
    ensures
        r@ == gzip_of(data@),
{
    let mut enc = flate2::write::GzEncoder::new(Vec::new(), flate2::Compression::default());
    std::io::Write::write_all(&mut enc, data).expect("writing to a Vec sink cannot fail");
    enc.finish().expect("finishing a Vec sink cannot fail")
}

/// One response about to be written: its body already holds the bytes
/// that go on the wire (compressed when `gzip` is set).
pub struct Response {
    pub status: u16,
    pub content_type: Vec<u8>,
    pub gzip: bool,
    pub body: Vec<u8>,
}

/// The exact bytes a response puts on the wire: status line, the
/// `Content-Type` header, a `Content-Encoding: gzip` header exactly when
/// gzip was applied, a `Content-Length` equal to the body's byte length,
/// a blank line, then the body, raw.
pub open spec fn wire_bytes(status: u16, content_type: Seq<u8>, gzip: bool, body: Seq<u8>) -> Seq<
    u8,
> {
    status_line_prefix() + dec_digits(status as nat) + seq![32u8] + reason_of(status) + crlf()
        + content_type_name() + header_sep() + content_type + crlf() + (if gzip {
        content_encoding_name() + header_sep() + gzip_token() + crlf()
    } else {
        Seq::<u8>::empty()
    }) + content_length_name() + header_sep() + dec_digits(body.len()) + crlf() + crlf() + body
}

impl Response {
    /// The bytes this response puts on the wire.
    pub open spec fn wire(self) -> Seq<u8> {
        wire_bytes(self.status, self.content_type@, self.gzip, self.body@)
    }

    /// Serializes the response for the wire.
    pub fn serialize(&self) -> (v: Vec<u8>)
        ensures
            v@ == self.wire(),
    {
        let mut v: Vec<u8> = Vec::new();
        let prefix = status_line_prefix_vec();
        push_all(&mut v, prefix.as_slice());
        let code = fmt_u64(self.status as u64);
        push_all(&mut v, code.as_slice());
        v.push(32u8);
        let reason = reason_vec(self.status);
        push_all(&mut v, reason.as_slice());
        let nl = crlf_vec();
        push_all(&mut v, nl.as_slice());
        let ctn = content_type_name_vec();
        push_all(&mut v, ctn.as_slice());
        let sep = header_sep_vec();
        push_all(&mut v, sep.as_slice());
        push_all(&mut v, self.content_type.as_slice());
        push_all(&mut v, nl.as_slice());
        if self.gzip {
            let cen = content_encoding_name_vec();
            push_all(&mut v, cen.as_slice());
            push_all(&mut v, sep.as_slice());
            let gz = gzip_token_vec();
            push_all(&mut v, gz.as_slice());
            push_all(&mut v, nl.as_slice());
        }
        let cln = content_length_name_vec();
        push_all(&mut v, cln.as_slice());
        push_all(&mut v, sep.as_slice());
        let len = fmt_u64(self.body.len() as u64);
        push_all(&mut v, len.as_slice());
        push_all(&mut v, nl.as_slice());
        push_all(&mut v, nl.as_slice());
        push_all(&mut v, self.body.as_slice());
        proof {
            assert(v@ =~= self.wire());
        }
        v
    }
}

/// A plain-text response: the given content as the body, gzip-compressed
/// exactly when the client negotiated it, with the length computed from
/// the bytes actually written.
pub open spec fn text_response(r: Response, status: u16, content: Seq<u8>, gz: bool) -> bool {
    &&& r.status == status
    &&& r.content_type@ == text_plain()
    &&& r.gzip == gz
    &&& r.body@ == (if gz {
        gzip_of(content)
    } else {
        content
    })
}

pub fn respond_text(status: u16, content: &[u8], gz: bool) -> (r: Response)
    ensures
        text_response(r, status, content@, gz),
{
    let body = if gz {
        gzip_compress(content)
    } else {
        vstd::slice::slice_to_vec(content)
    };
    Response { status, content_type: text_plain_vec(), gzip: gz, body }
}

/// What reading a file can come to: its bytes, no such file, or a read
/// that failed for some io reason.
pub enum ReadOutcome {
    Found(Vec<u8>),
    Absent,
    Failed,
}

/// The response a file read gets: the raw bytes as an octet-stream on
/// success, an empty 404 when the file is absent, an empty 500 when the
/// read failed. None of these is ever compressed.
pub open spec fn file_response(r: Response, outcome: ReadOutcome) -> bool {
    match outcome {
        ReadOutcome::Found(d) => {
            &&& r.status == 200
            &&& r.content_type@ == octet_stream()
            &&& r.gzip == false
            &&& r.body@ == d@
        },
        ReadOutcome::Absent => text_response(r, 404, Seq::empty(), false),
        ReadOutcome::Failed => text_response(r, 500, Seq::empty(), false),
    }
}

/// Turns the outcome of a file read into its response.
pub fn respond_file(outcome: ReadOutcome) -> (r: Response)
    ensures
        file_response(r, outcome),
{
    match outcome {
        ReadOutcome::Found(d) => Response {
            status: 200,
            content_type: crate::tokens::octet_stream_vec(),
            gzip: false,
            body: d,
        },
        ReadOutcome::Absent => respond_text(404, Vec::new().as_slice(), false),
        ReadOutcome::Failed => respond_text(500, Vec::new().as_slice(), false),
    }
}

} // verus!
