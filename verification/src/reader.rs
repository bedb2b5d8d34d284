//! The line reader: finds the blank line that ends a request head in a
//! byte stream, and splits the head into its lines. A line ends at a
//! line feed; a carriage return just before the line feed is not part
//! of the line's text.

use vstd::prelude::*;
use crate::bytes::{count_while, not_nl_pred, find_nl_from};

verus! {

/// The line feed at `i` ends an empty line: it sits at the start of the
/// stream or right after a previous line's end, with at most a carriage
/// return in between.
pub open spec fn blank_line_at(s: Seq<u8>, i: int) -> bool {
    &&& 0 <= i < s.len()
    &&& s[i] == 10
    &&& {
        ||| i == 0
        ||| s[i - 1] == 10
        ||| (s[i - 1] == 13 && (i == 1 || s[i - 2] == 10))
    }
}

/// Scans for the first blank line that ends the request head. Returns
/// the index just past its line feed, or `None` when the head is not
/// complete yet.
pub fn head_complete(buf: &[u8]) -> (r: Option<usize>)
    ensures
        match r {
            Some(j) => 1 <= j <= buf@.len() && blank_line_at(buf@, j - 1) && forall|k: int|
                0 <= k < j - 1 ==> !blank_line_at(buf@, k),
            None => forall|k: int| !blank_line_at(buf@, k),
        },
{
    let mut i: usize = 0;
    while i < buf.len()
        invariant
            0 <= i <= buf@.len(),
            forall|k: int| 0 <= k < i ==> !blank_line_at(buf@, k),
        decreases buf@.len() - i,
    {
        if buf[i] == 10 {
            let prev_nl = i == 0 || buf[i - 1] == 10;
            let prev_crnl = i > 0 && buf[i - 1] == 13 && (i == 1 || buf[i - 2] == 10);
            if prev_nl || prev_crnl {
                return Some(i + 1);
            }
        }
        i += 1;
    }
    None
}

/// `s` with a final carriage return removed, if it has one.
pub open spec fn strip_cr(s: Seq<u8>) -> Seq<u8> {
    if s.len() > 0 && s.last() == 13 {
        s.drop_last()
    } else {
        s
    }
}

/// The lines of `s`: split at each line feed, each line without its
/// delimiter and without a carriage return just before it. A last line
/// not ended by a line feed counts too; empty input has no lines.
pub open spec fn split_lines(s: Seq<u8>) -> Seq<Seq<u8>>
    decreases s.len(),
{
    if s.len() == 0 {
        seq![]
    } else {
        let i = count_while(s, not_nl_pred());
        if 0 <= i < s.len() {
            seq![strip_cr(s.take(i))] + split_lines(s.skip(i + 1))
        } else {
            seq![strip_cr(s)]
        }
    }
}

/// Splits a request head into its lines.
pub fn head_lines(head: &[u8]) -> (lines: Vec<Vec<u8>>)
    ensures
        lines@.map_values(|l: Vec<u8>| l@) == split_lines(head@),
{
    let mut lines: Vec<Vec<u8>> = Vec::new();
    let mut pos: usize = 0;
    proof {
        assert(head@.skip(0) =~= head@);
        assert(lines@.map_values(|l: Vec<u8>| l@) =~= Seq::<Seq<u8>>::empty());
    }
    while pos < head.len()
        invariant
            0 <= pos <= head@.len(),
            lines@.map_values(|l: Vec<u8>| l@) + split_lines(head@.skip(pos as int)) == split_lines(
                head@,
            ),
        decreases head@.len() - pos,
    {
        let ghost suffix = head@.skip(pos as int);
        let ghost lines0 = lines@.map_values(|l: Vec<u8>| l@);
        let nl = find_nl_from(head, pos);
        proof {
            assert(count_while(suffix, not_nl_pred()) == nl - pos);
        }
        let end = if nl > pos && head[nl - 1] == 13 {
            nl - 1
        } else {
            nl
        };
        let line = vstd::slice::slice_to_vec(&head[pos..end]);
        proof {
            assert(suffix.take(nl - pos) =~= head@.subrange(pos as int, nl as int));
            if nl > pos && head@[nl - 1] == 13 {
                assert(suffix.take(nl - pos).drop_last() =~= head@.subrange(
                    pos as int,
                    nl as int - 1,
                ));
            }
            assert(line@ == strip_cr(suffix.take(nl - pos)));
        }
        lines.push(line);
        proof {
            assert(lines@.map_values(|l: Vec<u8>| l@) =~= lines0.push(line@));
        }
        if nl >= head.len() {
            proof {
                assert(suffix =~= suffix.take(nl - pos));
                assert(split_lines(suffix) == seq![strip_cr(suffix)]);
                assert(lines0.push(line@) =~= lines0 + seq![line@]);
                assert(lines0 + split_lines(suffix) =~= lines0.push(line@));
            }
            pos = head.len();
        } else {
            proof {
                assert(suffix.skip(nl - pos + 1) =~= head@.skip(nl + 1));
                assert(split_lines(suffix) == seq![strip_cr(suffix.take(nl - pos))] + split_lines(
                    suffix.skip(nl - pos + 1),
                ));
                assert(lines0 + split_lines(suffix) =~= lines0.push(line@) + split_lines(
                    head@.skip(nl + 1),
                ));
            }
            pos = nl + 1;
        }
    }
    proof {
        assert(head@.skip(pos as int) =~= Seq::<u8>::empty());
    }
    lines
}

} // verus!
