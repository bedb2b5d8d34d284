//! Byte-level scanning helpers: counting a prefix that satisfies a
//! predicate, substring search, equality, and whitespace trimming.

use vstd::prelude::*;

verus! {

/// The ASCII bytes that count as whitespace when lines are split into
/// tokens and header values are trimmed.
pub open spec fn is_ws(b: u8) -> bool {
    b == 32 || b == 9 || b == 13 || b == 10
}

/// Length of the longest prefix of `s` whose bytes all satisfy `p`.
pub open spec fn count_while(s: Seq<u8>, p: spec_fn(u8) -> bool) -> int
    decreases s.len(),
{
    if s.len() == 0 {
        0
    } else if p(s[0]) {
        1 + count_while(s.skip(1), p)
    } else {
        0
    }
}

pub open spec fn ws_pred() -> spec_fn(u8) -> bool {
    |b: u8| is_ws(b)
}

pub open spec fn non_ws_pred() -> spec_fn(u8) -> bool {
    |b: u8| !is_ws(b)
}

pub open spec fn not_nl_pred() -> spec_fn(u8) -> bool {
    |b: u8| b != 10
}

/// `count_while` names the first position where `p` fails: everything
/// before it satisfies `p`, and the byte there (if any) does not.
pub proof fn lemma_count_while(s: Seq<u8>, p: spec_fn(u8) -> bool)
    ensures
        0 <= count_while(s, p) <= s.len(),
        forall|k: int| 0 <= k < count_while(s, p) ==> p(s[k]),
        count_while(s, p) < s.len() ==> !p(s[count_while(s, p)]),
    decreases s.len(),
{
    if s.len() > 0 && p(s[0]) {
        lemma_count_while(s.skip(1), p);
        let c = count_while(s, p);
        assert forall|k: int| 0 <= k < c implies p(s[k]) by {
            if k > 0 {
                assert(s.skip(1)[k - 1] == s[k]);
            }
        }
        if c < s.len() {
            assert(s.skip(1)[c - 1] == s[c]);
        }
    }
}

/// A position with the two properties of `lemma_count_while` is unique,
/// so it equals `count_while`.
pub proof fn lemma_count_while_unique(s: Seq<u8>, p: spec_fn(u8) -> bool, i: int)
    requires
        0 <= i <= s.len(),
        forall|k: int| 0 <= k < i ==> p(s[k]),
        i < s.len() ==> !p(s[i]),
    ensures
        i == count_while(s, p),
{
    lemma_count_while(s, p);
    let c = count_while(s, p);
    if i < c {
        assert(p(s[i]));
        assert(false);
    } else if c < i {
        assert(p(s[c]));
        assert(false);
    }
}

pub fn is_ws_byte(b: u8) -> (r: bool)
    ensures
        r == is_ws(b),
{
    b == 32 || b == 9 || b == 13 || b == 10
}

/// First index at or past `from` holding a byte that is not whitespace,
/// or the length of `s` if all of the rest is whitespace.
pub fn skip_ws_from(s: &[u8], from: usize) -> (r: usize)
    requires
        from <= s@.len(),
    ensures
        from <= r <= s@.len(),
        r - from == count_while(s@.skip(from as int), ws_pred()),
{
    let mut i: usize = from;
    while i < s.len() && is_ws_byte(s[i])
        invariant
            from <= i <= s@.len(),
            forall|k: int| from <= k < i ==> is_ws(s@[k]),
        decreases s@.len() - i,
    {
        i += 1;
    }
    proof {
        let suf = s@.skip(from as int);
        assert forall|k: int| 0 <= k < i - from implies ws_pred()(suf[k]) by {
            assert(suf[k] == s@[from + k]);
        }
        if i - from < suf.len() {
            assert(suf[i - from] == s@[i as int]);
        }
        lemma_count_while_unique(suf, ws_pred(), i - from);
    }
    i
}

/// First index at or past `from` holding a whitespace byte, or the
/// length of `s` if none follows.
pub fn skip_non_ws_from(s: &[u8], from: usize) -> (r: usize)
    requires
        from <= s@.len(),
    ensures
        from <= r <= s@.len(),
        r - from == count_while(s@.skip(from as int), non_ws_pred()),
{
    let mut i: usize = from;
    while i < s.len() && !is_ws_byte(s[i])
        invariant
            from <= i <= s@.len(),
            forall|k: int| from <= k < i ==> !is_ws(s@[k]),
        decreases s@.len() - i,
    {
        i += 1;
    }
    proof {
        let suf = s@.skip(from as int);
        assert forall|k: int| 0 <= k < i - from implies non_ws_pred()(suf[k]) by {
            assert(suf[k] == s@[from + k]);
        }
        if i - from < suf.len() {
            assert(suf[i - from] == s@[i as int]);
        }
        lemma_count_while_unique(suf, non_ws_pred(), i - from);
    }
    i
}

/// First index at or past `from` holding a line feed, or the length of
/// `s` if none follows.
pub fn find_nl_from(s: &[u8], from: usize) -> (r: usize)
    requires
        from <= s@.len(),
    ensures
        from <= r <= s@.len(),
        r - from == count_while(s@.skip(from as int), not_nl_pred()),
{
    let mut i: usize = from;
    while i < s.len() && s[i] != 10
        invariant
            from <= i <= s@.len(),
            forall|k: int| from <= k < i ==> s@[k] != 10,
        decreases s@.len() - i,
    {
        i += 1;
    }
    proof {
        let suf = s@.skip(from as int);
        assert forall|k: int| 0 <= k < i - from implies not_nl_pred()(suf[k]) by {
            assert(suf[k] == s@[from + k]);
        }
        if i - from < suf.len() {
            assert(suf[i - from] == s@[i as int]);
        }
        lemma_count_while_unique(suf, not_nl_pred(), i - from);
    }
    i
}

/// Whether `needle` matches `hay` starting exactly at `at`.
pub fn is_match_at(hay: &[u8], at: usize, needle: &[u8]) -> (r: bool)
    requires
        at + needle@.len() <= hay@.len(),
    ensures
        r == (hay@.subrange(at as int, at + needle@.len()) == needle@),
{
    let hlen: usize = hay.len();
    let mut k: usize = 0;
    while k < needle.len()
        invariant
            hay@.len() == hlen,
            at + needle@.len() <= hay@.len(),
            0 <= k <= needle@.len(),
            forall|j: int| 0 <= j < k ==> hay@[at + j] == needle@[j],
        decreases needle@.len() - k,
    {
        if hay[at + k] != needle[k] {
            proof {
                assert(hay@.subrange(at as int, at + needle@.len())[k as int] == hay@[at + k]);
            }
            return false;
        }
        k += 1;
    }
    proof {
        assert(hay@.subrange(at as int, at + needle@.len()) =~= needle@);
    }
    true
}

/// `needle` occurs somewhere inside `hay`.
pub open spec fn contains_seq_spec(hay: Seq<u8>, needle: Seq<u8>) -> bool {
    exists|i: int|
        0 <= i && i + needle.len() <= hay.len() && #[trigger] hay.subrange(i, i + needle.len())
            == needle
}

pub fn contains_seq(hay: &[u8], needle: &[u8]) -> (r: bool)
    ensures
        r == contains_seq_spec(hay@, needle@),
{
    if needle.len() > hay.len() {
        return false;
    }
    if needle.len() == 0 {
        proof {
            assert(hay@.subrange(0, 0 + needle@.len() as int) =~= needle@);
            assert(contains_seq_spec(hay@, needle@));
        }
        return true;
    }
    let hlen: usize = hay.len();
    let end = hay.len() - needle.len();
    let mut i: usize = 0;
    while i <= end
        invariant
            hay@.len() == hlen,
            1 <= needle@.len() <= hay@.len(),
            end == hay@.len() - needle@.len(),
            0 <= i <= end + 1,
            forall|j: int|
                0 <= j < i ==> #[trigger] hay@.subrange(j, j + needle@.len()) != needle@,
        decreases end + 1 - i,
    {
        if is_match_at(hay, i, needle) {
            assert(hay@.subrange(i as int, i + needle@.len()) == needle@);
            return true;
        }
        i += 1;
    }
    false
}

/// `s` begins with the prefix `p`.
pub open spec fn starts_with_spec(s: Seq<u8>, p: Seq<u8>) -> bool {
    s.len() >= p.len() && s.subrange(0, p.len() as int) == p
}

pub fn starts_with(s: &[u8], p: &[u8]) -> (r: bool)
    ensures
        r == starts_with_spec(s@, p@),
{
    if p.len() > s.len() {
        false
    } else {
        is_match_at(s, 0, p)
    }
}

pub fn bytes_eq(a: &[u8], b: &[u8]) -> (r: bool)
    ensures
        r == (a@ == b@),
{
    if a.len() != b.len() {
        return false;
    }
    let r = is_match_at(a, 0, b);
    proof {
        assert(a@.subrange(0, b@.len() as int) =~= a@);
    }
    r
}

/// Appends all of `s` to `out`.
pub fn push_all(out: &mut Vec<u8>, s: &[u8])
    ensures
        final(out)@ == old(out)@ + s@,
{
    let mut i: usize = 0;
    while i < s.len()
        invariant
            0 <= i <= s@.len(),
            out@ == old(out)@ + s@.take(i as int),
        decreases s@.len() - i,
    {
        out.push(s[i]);
        proof {
            assert(old(out)@ + s@.take(i + 1) =~= (old(out)@ + s@.take(i as int)).push(s@[i as int]));
        }
        i += 1;
    }
    proof {
        assert(s@.take(s@.len() as int) =~= s@);
    }
}

/// Count of trailing whitespace bytes of `s`.
pub open spec fn trailing_ws(s: Seq<u8>) -> int
    decreases s.len(),
{
    if s.len() == 0 {
        0
    } else if is_ws(s.last()) {
        1 + trailing_ws(s.drop_last())
    } else {
        0
    }
}

pub proof fn lemma_trailing_ws(s: Seq<u8>)
    ensures
        0 <= trailing_ws(s) <= s.len(),
        forall|k: int| s.len() - trailing_ws(s) <= k < s.len() ==> is_ws(s[k]),
        trailing_ws(s) < s.len() ==> !is_ws(s[s.len() - trailing_ws(s) - 1]),
    decreases s.len(),
{
    if s.len() > 0 && is_ws(s.last()) {
        lemma_trailing_ws(s.drop_last());
        let t = trailing_ws(s);
        assert forall|k: int| s.len() - t <= k < s.len() implies is_ws(s[k]) by {
            if k < s.len() - 1 {
                assert(s.drop_last()[k] == s[k]);
            }
        }
        if t < s.len() {
            assert(s.drop_last()[s.len() - t - 1] == s[s.len() - t - 1]);
        }
    }
}

pub proof fn lemma_trailing_ws_unique(s: Seq<u8>, j: int)
    requires
        0 <= j <= s.len(),
        forall|k: int| j <= k < s.len() ==> is_ws(s[k]),
        0 < j ==> !is_ws(s[j - 1]),
    ensures
        s.len() - j == trailing_ws(s),
{
    lemma_trailing_ws(s);
    let t = trailing_ws(s);
    if s.len() - j < t {
        assert(is_ws(s[j - 1]));
        assert(false);
    } else if t < s.len() - j {
        assert(is_ws(s[s.len() - t - 1]));
        assert(false);
    }
}

/// `s` without its leading and trailing whitespace.
pub open spec fn trim_spec(s: Seq<u8>) -> Seq<u8> {
    let inner = s.skip(count_while(s, ws_pred()));
    inner.take(inner.len() - trailing_ws(inner))
}

pub fn trim(s: &[u8]) -> (r: Vec<u8>)
    ensures
        r@ == trim_spec(s@),
{
    let i = skip_ws_from(s, 0);
    let mut j: usize = s.len();
    while j > i && is_ws_byte(s[j - 1])
        invariant
            i <= j <= s@.len(),
            i == count_while(s@.skip(0), ws_pred()),
            forall|k: int| j <= k < s@.len() ==> is_ws(s@[k]),
        decreases j,
    {
        j -= 1;
    }
    proof {
        assert(s@.skip(0) =~= s@);
        lemma_count_while(s@, ws_pred());
        let inner = s@.skip(i as int);
        assert forall|k: int| j - i <= k < inner.len() implies is_ws(inner[k]) by {
            assert(inner[k] == s@[i + k]);
        }
        if 0 < j - i {
            assert(inner[j - i - 1] == s@[j - 1]);
        }
        lemma_trailing_ws_unique(inner, j - i);
        assert(inner.take(j - i) =~= s@.subrange(i as int, j as int));
    }
    vstd::slice::slice_to_vec(&s[i..j])
}

} // verus!
