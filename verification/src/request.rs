//! The request parser: splits the request line into method, target and
//! version, turns header lines into a name-to-value mapping, decides
//! gzip negotiation, and reads the declared body length.
//!
//! Parsing is deliberately permissive: missing request-line tokens
//! default to empty, and a header line without a `": "` separator is
//! dropped rather than failing the whole request.

use vstd::prelude::*;
use crate::bytes::{
    count_while, ws_pred, non_ws_pred, skip_ws_from, skip_non_ws_from, trim_spec, trim,
    contains_seq_spec, contains_seq,
};
use crate::pairs::{pairs_view, lookup_pairs, lookup_vec};
use crate::tokens::{
    method_post, accept_encoding_name, accept_encoding_name_vec, content_length_name,
    content_length_name_vec, gzip_token, gzip_token_vec, user_agent_name, user_agent_name_vec,
};

verus! {

/// Why handling a request failed. A malformed request covers an
/// unreadable head or a non-numeric `Content-Length`; an incomplete
/// body means the stream closed before the declared length arrived;
/// an io failure is a read or write error on the connection itself.
#[derive(PartialEq, Eq, Structural, Clone, Copy, Debug)]
pub enum HttpError {
    MalformedRequest,
    IncompleteBody,
    IoFailure,
}

/// The first whitespace-separated token of `s`.
pub open spec fn first_token(s: Seq<u8>) -> Seq<u8> {
    let t = s.skip(count_while(s, ws_pred()));
    t.take(count_while(t, non_ws_pred()))
}

/// What is left of `s` after its first token.
pub open spec fn after_token(s: Seq<u8>) -> Seq<u8> {
    let t = s.skip(count_while(s, ws_pred()));
    t.skip(count_while(t, non_ws_pred()))
}

/// The method of a request line: its first token.
pub open spec fn method_of(line: Seq<u8>) -> Seq<u8> {
    first_token(line)
}

/// The target of a request line: its second token.
pub open spec fn target_of(line: Seq<u8>) -> Seq<u8> {
    first_token(after_token(line))
}

/// The version of a request line: its third token.
pub open spec fn version_of(line: Seq<u8>) -> Seq<u8> {
    first_token(after_token(after_token(line)))
}

/// Extracts one whitespace-separated token of `line` starting at or
/// after `from`, with the index just past it.
fn take_token(line: &[u8], from: usize) -> (r: (Vec<u8>, usize))
    requires
        from <= line@.len(),
    ensures
        r.1 <= line@.len(),
        r.0@ == first_token(line@.skip(from as int)),
        line@.skip(r.1 as int) == after_token(line@.skip(from as int)),
{
    let a = skip_ws_from(line, from);
    let b = skip_non_ws_from(line, a);
    proof {
        let s = line@.skip(from as int);
        let t = s.skip(count_while(s, ws_pred()));
        assert(t =~= line@.skip(a as int));
        assert(t.take(count_while(t, non_ws_pred())) =~= line@.subrange(a as int, b as int));
        assert(t.skip(count_while(t, non_ws_pred())) =~= line@.skip(b as int));
    }
    (vstd::slice::slice_to_vec(&line[a..b]), b)
}

/// Splits a request line on whitespace into method, target and version;
/// whatever tokens are missing come back empty, and anything after the
/// third token is ignored.
pub fn parse_request_line(line: &[u8]) -> (r: (Vec<u8>, Vec<u8>, Vec<u8>))
    ensures
        r.0@ == method_of(line@),
        r.1@ == target_of(line@),
        r.2@ == version_of(line@),
{
    proof {
        assert(line@.skip(0) =~= line@);
    }
    let (method, p1) = take_token(line, 0);
    let (target, p2) = take_token(line, p1);
    let (version, _p3) = take_token(line, p2);
    (method, target, version)
}

/// The position of the first `": "` in `s`, or a position past
/// `s.len() - 2` when there is none.
pub open spec fn find_sep(s: Seq<u8>) -> int
    decreases s.len(),
{
    if s.len() < 2 {
        s.len() as int
    } else if s[0] == 58 && s[1] == 32 {
        0
    } else {
        1 + find_sep(s.skip(1))
    }
}

pub proof fn lemma_find_sep(s: Seq<u8>)
    ensures
        0 <= find_sep(s) <= s.len(),
        find_sep(s) + 2 <= s.len() ==> s[find_sep(s)] == 58 && s[find_sep(s) + 1] == 32,
        forall|k: int| 0 <= k < find_sep(s) && k + 2 <= s.len() ==> !(#[trigger] s[k] == 58 && s[k + 1] == 32),
    decreases s.len(),
{
    if s.len() >= 2 && !(s[0] == 58 && s[1] == 32) {
        lemma_find_sep(s.skip(1));
        let f = find_sep(s);
        assert forall|k: int| 0 <= k < f && k + 2 <= s.len() implies !(#[trigger] s[k] == 58 && s[k
            + 1] == 32) by {
            if k > 0 {
                assert(s.skip(1)[k - 1] == s[k]);
                assert(s.skip(1)[k] == s[k + 1]);
            }
        }
        if f + 2 <= s.len() {
            assert(s.skip(1)[f - 1] == s[f]);
            assert(s.skip(1)[f] == s[f + 1]);
        }
    }
}

/// A header line read as a name and a value: the name is everything
/// before the first `": "`, the value everything after it, with
/// surrounding whitespace removed. A line without `": "` is no header.
pub open spec fn header_of_line(line: Seq<u8>) -> Option<(Seq<u8>, Seq<u8>)> {
    let f = find_sep(line);
    if f + 2 <= line.len() {
        Some((line.take(f), trim_spec(line.skip(f + 2))))
    } else {
        None
    }
}

/// Parses one header line, dropping a line without a `": "` separator.
pub fn parse_header_line(line: &[u8]) -> (r: Option<(Vec<u8>, Vec<u8>)>)
    ensures
        match r {
            Some(p) => header_of_line(line@) == Some((p.0@, p.1@)),
            None => header_of_line(line@) is None,
        },
{
    if line.len() < 2 {
        proof {
            lemma_find_sep(line@);
        }
        return None;
    }
    let bound = line.len() - 2;
    let mut i: usize = 0;
    while i <= bound && !(line[i] == 58 && line[i + 1] == 32)
        invariant
            bound == line@.len() - 2,
            0 <= i <= bound + 1,
            forall|k: int| 0 <= k < i ==> !(#[trigger] line@[k] == 58 && line@[k + 1] == 32),
        decreases bound + 1 - i,
    {
        i += 1;
    }
    proof {
        lemma_find_sep(line@);
        let f = find_sep(line@);
        if i <= bound {
            if i < f {
                assert(!(line@[i as int] == 58 && line@[i as int + 1] == 32));
                assert(false);
            }
            if f + 2 > line@.len() {
                assert(!(line@[i as int] == 58 && line@[i as int + 1] == 32));
                assert(false);
            }
            if f < i {
                assert(!(line@[f] == 58 && line@[f + 1] == 32));
                assert(false);
            }
        } else {
            if f + 2 <= line@.len() {
                assert(!(line@[f] == 58 && line@[f + 1] == 32));
                assert(false);
            }
        }
    }
    if i <= bound {
        let name = vstd::slice::slice_to_vec(&line[0..i]);
        let value = trim(&line[i + 2..line.len()]);
        proof {
            assert(line@.subrange(0, i as int) =~= line@.take(find_sep(line@)));
            assert(line@.subrange(i + 2, line@.len() as int) =~= line@.skip(find_sep(line@) + 2));
        }
        Some((name, value))
    } else {
        None
    }
}

/// The headers that a sequence of raw lines denotes, in order, one
/// entry per line that parses as a header.
pub open spec fn headers_of_lines(lines: Seq<Seq<u8>>) -> Seq<(Seq<u8>, Seq<u8>)>
    decreases lines.len(),
{
    if lines.len() == 0 {
        seq![]
    } else {
        let rest = headers_of_lines(lines.drop_last());
        match header_of_line(lines.last()) {
            Some(p) => rest.push(p),
            None => rest,
        }
    }
}

/// The header mapping of a request: name-value pairs in the order the
/// lines arrived, matched case-sensitively, the last pair of a name
/// winning on lookup.
pub struct Headers {
    pub pairs: Vec<(Vec<u8>, Vec<u8>)>,
}

impl View for Headers {
    type V = Seq<(Seq<u8>, Seq<u8>)>;

    open spec fn view(&self) -> Seq<(Seq<u8>, Seq<u8>)> {
        pairs_view(self.pairs@)
    }
}

impl Headers {
    /// The value of the last header named `name`, if any.
    pub fn get(&self, name: &[u8]) -> (r: Option<Vec<u8>>)
        ensures
            match r {
                Some(d) => lookup_pairs(self@, name@) == Some(d@),
                None => lookup_pairs(self@, name@) is None,
            },
    {
        lookup_vec(&self.pairs, name)
    }
}

/// Parses raw header lines into the header mapping, dropping each line
/// that has no `": "` separator.
pub fn parse_headers(lines: &Vec<Vec<u8>>) -> (r: Headers)
    ensures
        r@ == headers_of_lines(lines@.map_values(|l: Vec<u8>| l@)),
{
    let ghost lv = lines@.map_values(|l: Vec<u8>| l@);
    let mut pairs: Vec<(Vec<u8>, Vec<u8>)> = Vec::new();
    let mut i: usize = 0;
    proof {
        assert(pairs_view(pairs@) =~= headers_of_lines(lv.take(0)));
    }
    while i < lines.len()
        invariant
            0 <= i <= lines@.len(),
            lv == lines@.map_values(|l: Vec<u8>| l@),
            pairs_view(pairs@) == headers_of_lines(lv.take(i as int)),
        decreases lines@.len() - i,
    {
        let ghost pairs0 = pairs_view(pairs@);
        proof {
            assert(lv.take(i + 1).drop_last() =~= lv.take(i as int));
            assert(lv.take(i + 1).last() == lv[i as int]);
        }
        match parse_header_line(lines[i].as_slice()) {
            Some(p) => {
                pairs.push(p);
                proof {
                    assert(pairs_view(pairs@) =~= pairs0.push((pairs@.last().0@, pairs@.last().1@)));
                }
            },
            None => {},
        }
        i += 1;
    }
    proof {
        assert(lv.take(lines@.len() as int) =~= lv);
    }
    Headers { pairs }
}

/// Content negotiation: gzip applies exactly when the request carries
/// an `Accept-Encoding` header whose raw value contains `"gzip"`
/// anywhere, with no further structure read into the value.
pub open spec fn accept_gzip(headers: Seq<(Seq<u8>, Seq<u8>)>) -> bool {
    match lookup_pairs(headers, accept_encoding_name()) {
        Some(v) => contains_seq_spec(v, gzip_token()),
        None => false,
    }
}

/// Whether the client accepts a gzip-encoded response body.
pub fn client_accept_gzip(headers: &Headers) -> (r: bool)
    ensures
        r == accept_gzip(headers@),
{
    let name = accept_encoding_name_vec();
    match headers.get(name.as_slice()) {
        Some(v) => {
            let token = gzip_token_vec();
            contains_seq(v.as_slice(), token.as_slice())
        },
        None => false,
    }
}

/// The value of the `User-Agent` header, or empty when absent.
pub open spec fn user_agent_of(headers: Seq<(Seq<u8>, Seq<u8>)>) -> Seq<u8> {
    match lookup_pairs(headers, user_agent_name()) {
        Some(v) => v,
        None => Seq::empty(),
    }
}

pub fn user_agent_value(headers: &Headers) -> (r: Vec<u8>)
    ensures
        r@ == user_agent_of(headers@),
{
    let name = user_agent_name_vec();
    match headers.get(name.as_slice()) {
        Some(v) => v,
        None => Vec::new(),
    }
}

pub open spec fn is_digit(b: u8) -> bool {
    48 <= b <= 57
}

pub open spec fn all_digits(s: Seq<u8>) -> bool {
    s.len() > 0 && forall|k: int| 0 <= k < s.len() ==> is_digit(#[trigger] s[k])
}

/// The number that a string of decimal digits denotes.
pub open spec fn dec_value(s: Seq<u8>) -> int
    decreases s.len(),
{
    if s.len() == 0 {
        0
    } else {
        dec_value(s.drop_last()) * 10 + (s.last() - 48)
    }
}

proof fn lemma_dec_value_nonneg(s: Seq<u8>)
    requires
        forall|k: int| 0 <= k < s.len() ==> is_digit(#[trigger] s[k]),
    ensures
        dec_value(s) >= 0,
    decreases s.len(),
{
    if s.len() > 0 {
        lemma_dec_value_nonneg(s.drop_last());
    }
}

/// A digit string's value only grows as digits are appended.
proof fn lemma_dec_value_prefix(s: Seq<u8>, j: int)
    requires
        0 <= j <= s.len(),
        forall|k: int| 0 <= k < s.len() ==> is_digit(#[trigger] s[k]),
    ensures
        dec_value(s.take(j)) <= dec_value(s),
    decreases s.len() - j,
{
    if j < s.len() {
        lemma_dec_value_prefix(s, j + 1);
        assert(s.take(j + 1).drop_last() =~= s.take(j));
        lemma_dec_value_nonneg(s.take(j));
    } else {
        assert(s.take(j) =~= s);
    }
}

/// Reads a decimal number: succeeds exactly when `v` is one or more
/// digits and nothing else, and the value fits the machine's sizes.
pub fn parse_decimal(v: &[u8]) -> (r: Option<usize>)
    ensures
        r is Some <==> all_digits(v@) && dec_value(v@) <= usize::MAX,
        r matches Some(n) ==> n == dec_value(v@),
{
    if v.len() == 0 {
        return None;
    }
    let mut acc: usize = 0;
    let mut i: usize = 0;
    while i < v.len()
        invariant
            0 < v@.len(),
            0 <= i <= v@.len(),
            forall|k: int| 0 <= k < i ==> is_digit(#[trigger] v@[k]),
            acc == dec_value(v@.take(i as int)),
        decreases v@.len() - i,
    {
        let b = v[i];
        if b < 48 || b > 57 {
            return None;
        }
        let d = (b - 48) as usize;
        proof {
            assert(v@.take(i + 1).drop_last() =~= v@.take(i as int));
            assert(v@.take(i + 1).last() == v@[i as int]);
        }
        if acc > (usize::MAX - d) / 10 {
            proof {
                assert(acc >= (usize::MAX - d) / 10 + 1);
                assert(acc * 10 >= ((usize::MAX - d) / 10 + 1) * 10) by (nonlinear_arith)
                    requires
                        acc >= (usize::MAX - d) / 10 + 1,
                ;
                assert(((usize::MAX - d) / 10) * 10 + 10 > usize::MAX - d) by {
                    vstd::arithmetic::div_mod::lemma_fundamental_div_mod(
                        usize::MAX - d,
                        10,
                    );
                }
                assert(dec_value(v@.take(i + 1)) > usize::MAX);
                if all_digits(v@) {
                    lemma_dec_value_prefix(v@, i + 1);
                }
            }
            return None;
        }
        proof {
            assert(acc <= (usize::MAX - d) / 10);
            assert(acc * 10 <= ((usize::MAX - d) / 10) * 10) by (nonlinear_arith)
                requires
                    acc <= (usize::MAX - d) / 10,
            ;
            assert(((usize::MAX - d) / 10) * 10 <= usize::MAX - d) by {
                vstd::arithmetic::div_mod::lemma_fundamental_div_mod(usize::MAX - d, 10);
            }
        }
        acc = acc * 10 + d;
        i += 1;
    }
    proof {
        assert(v@.take(v@.len() as int) =~= v@);
    }
    Some(acc)
}

/// The body length a request declares. `None` stands for a request
/// whose `Content-Length` does not read as a number that fits.
pub open spec fn body_len_of(method: Seq<u8>, headers: Seq<(Seq<u8>, Seq<u8>)>) -> Option<int> {
    if method != method_post() {
        Some(0)
    } else {
        match lookup_pairs(headers, content_length_name()) {
            None => Some(0),
            Some(v) => if all_digits(v) && dec_value(v) <= usize::MAX {
                Some(dec_value(v))
            } else {
                None
            },
        }
    }
}

/// How many body bytes to read: zero unless the method is POST with a
/// `Content-Length` header, whose value must read as a number; a value
/// that does not makes the request malformed.
pub fn required_body_len(method: &[u8], headers: &Headers) -> (r: Result<usize, HttpError>)
    ensures
        match r {
            Ok(n) => body_len_of(method@, headers@) == Some(n as int),
            Err(e) => body_len_of(method@, headers@) is None && e == HttpError::MalformedRequest,
        },
{
    let post = crate::tokens::method_post_vec();
    if !crate::bytes::bytes_eq(method, post.as_slice()) {
        return Ok(0);
    }
    let name = content_length_name_vec();
    match headers.get(name.as_slice()) {
        None => Ok(0),
        Some(v) => match parse_decimal(v.as_slice()) {
            Some(n) => Ok(n),
            None => Err(HttpError::MalformedRequest),
        },
    }
}

/// The header lines of a split head: everything after the request line.
pub open spec fn rest_lines(lines: Seq<Seq<u8>>) -> Seq<Seq<u8>> {
    if lines.len() >= 1 {
        lines.skip(1)
    } else {
        Seq::empty()
    }
}

/// One parsed request: the tokens of its request line, its header
/// mapping, and its body bytes.
pub struct Request {
    pub method: Vec<u8>,
    pub target: Vec<u8>,
    pub version: Vec<u8>,
    pub headers: Headers,
    pub body: Vec<u8>,
}

/// Parses a complete request head (everything up to and including the
/// blank line) into a request with an empty body.
pub fn parse_head(head: &[u8]) -> (r: Request)
    ensures
        ({
            let lines = crate::reader::split_lines(head@);
            let first = if lines.len() > 0 {
                lines[0]
            } else {
                Seq::<u8>::empty()
            };
            &&& r.method@ == method_of(first)
            &&& r.target@ == target_of(first)
            &&& r.version@ == version_of(first)
            &&& r.headers@ == headers_of_lines(rest_lines(lines))
            &&& r.body@ == Seq::<u8>::empty()
        }),
{
    let lines = crate::reader::head_lines(head);
    let ghost lv = lines@.map_values(|l: Vec<u8>| l@);
    let (method, target, version) = if lines.len() > 0 {
        parse_request_line(lines[0].as_slice())
    } else {
        let empty: Vec<u8> = Vec::new();
        proof {
            crate::bytes::lemma_count_while(Seq::<u8>::empty(), ws_pred());
            assert(first_token(Seq::<u8>::empty()) =~= Seq::<u8>::empty());
            assert(after_token(Seq::<u8>::empty()) =~= Seq::<u8>::empty());
        }
        (Vec::new(), Vec::new(), empty)
    };
    let mut header_lines: Vec<Vec<u8>> = Vec::new();
    let mut i: usize = 1;
    let ghost rest = rest_lines(lv);
    proof {
        assert(header_lines@.map_values(|l: Vec<u8>| l@) =~= rest.take(0));
    }
    while i < lines.len()
        invariant
            1 <= i,
            i <= lines@.len() || i == 1,
            lv == lines@.map_values(|l: Vec<u8>| l@),
            rest == rest_lines(lv),
            header_lines@.map_values(|l: Vec<u8>| l@) == rest.take(i - 1),
        decreases lines@.len() - i,
    {
        let ghost hl0 = header_lines@.map_values(|l: Vec<u8>| l@);
        header_lines.push(vstd::slice::slice_to_vec(lines[i].as_slice()));
        proof {
            assert(rest[i - 1] == lv[i as int]);
            assert(header_lines@.map_values(|l: Vec<u8>| l@) =~= hl0.push(lv[i as int]));
            assert(rest.take(i as int) =~= hl0.push(lv[i as int]));
        }
        i += 1;
    }
    proof {
        assert(rest.take(i - 1) =~= rest);
    }
    let headers = parse_headers(&header_lines);
    Request { method, target, version, headers, body: Vec::new() }
}

} // verus!
