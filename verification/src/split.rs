//! The header splitter: separates an input document into its raw
//! metadata block and its body text. The first line must be the `---`
//! marker; the header runs to the next line that is exactly the marker;
//! the remaining lines, joined with newlines, are the body, verbatim.

use vstd::prelude::*;

use crate::bytes::{bytes_eq, push_all};
use crate::keys::{spec_yaml_delim, yaml_delim};

verus! {

/// The header block and the body text of one input document.
#[derive(Debug, Clone, PartialEq, Eq)]
pub struct RawDocument {
    pub header: Vec<u8>,
    pub body: Vec<u8>,
}

/// Why an input could not be split.
#[derive(Debug, Clone, Copy, PartialEq, Eq, Structural)]
pub enum SplitError {
    /// The first line is not the delimiter marker.
    MissingDelimiter,
    /// No later line is the delimiter marker.
    UnterminatedHeader,
}

/// The lines of `s[i..]` split at newline bytes, with `cur` the part of
/// the current line read so far; a final newline closes the last line
/// without opening an empty one.
pub open spec fn lines_from(s: Seq<u8>, i: int, cur: Seq<u8>) -> Seq<Seq<u8>>
    decreases s.len() - i,
{
    if i < 0 || i >= s.len() {
        if cur.len() == 0 {
            Seq::empty()
        } else {
            seq![cur]
        }
    } else if s[i] == 10 {
        seq![cur] + lines_from(s, i + 1, Seq::empty())
    } else {
        lines_from(s, i + 1, cur.push(s[i]))
    }
}

/// The lines of `s`.
pub open spec fn split_lines(s: Seq<u8>) -> Seq<Seq<u8>> {
    lines_from(s, 0, Seq::empty())
}

/// Index of the first line at or after `i` that is exactly the marker.
pub open spec fn delim_from(lines: Seq<Seq<u8>>, i: int) -> Option<int>
    decreases lines.len() - i,
{
    if i < 0 || i >= lines.len() {
        None
    } else if lines[i] == spec_yaml_delim() {
        Some(i)
    } else {
        delim_from(lines, i + 1)
    }
}

/// The header block: the lines of `[i, end)`, each followed by a newline.
pub open spec fn header_of(lines: Seq<Seq<u8>>, i: int, end: int) -> Seq<u8>
    decreases end - i,
{
    if i < 0 || i >= end {
        Seq::empty()
    } else {
        lines[i] + seq![10u8] + header_of(lines, i + 1, end)
    }
}

/// The body: the lines from `i` on, joined with newlines.
pub open spec fn body_of(lines: Seq<Seq<u8>>, i: int) -> Seq<u8>
    decreases lines.len() - i,
{
    if i < 0 || i >= lines.len() {
        Seq::empty()
    } else if i == lines.len() - 1 {
        lines[i]
    } else {
        lines[i] + seq![10u8] + body_of(lines, i + 1)
    }
}

/// What splitting an input yields: the header block and the body, or
/// the error naming the missing marker.
pub open spec fn split_spec(input: Seq<u8>) -> Result<(Seq<u8>, Seq<u8>), SplitError> {
    let lines = split_lines(input);
    if lines.len() == 0 || lines[0] != spec_yaml_delim() {
        Err(SplitError::MissingDelimiter)
    } else {
        match delim_from(lines, 1) {
            Some(e) => Ok((header_of(lines, 1, e), body_of(lines, e + 1))),
            None => Err(SplitError::UnterminatedHeader),
        }
    }
}

/// The lines of `s`, split at newline bytes as `split_lines` says.
pub fn split_lines_exec(s: &[u8]) -> (r: Vec<Vec<u8>>)
    ensures
        r@.map_values(|l: Vec<u8>| l@) == split_lines(s@),
{
    let mut out: Vec<Vec<u8>> = Vec::new();
    let mut cur: Vec<u8> = Vec::new();
    let mut i: usize = 0;
    proof {
        assert(out@.map_values(|l: Vec<u8>| l@) + lines_from(s@, 0, cur@) =~= lines_from(
            s@,
            0,
            Seq::empty(),
        ));
    }
    while i < s.len()
        invariant
            0 <= i <= s@.len(),
            split_lines(s@) == out@.map_values(|l: Vec<u8>| l@) + lines_from(s@, i as int, cur@),
        decreases s@.len() - i,
    {
        let ghost out0 = out@.map_values(|l: Vec<u8>| l@);
        let ghost cur0 = cur@;
        if s[i] == 10 {
            out.push(cur);
            cur = Vec::new();
            proof {
                assert(out@.map_values(|l: Vec<u8>| l@) =~= out0.push(cur0));
                assert(out0.push(cur0) + lines_from(s@, i + 1, cur@) =~= out0 + (seq![cur0]
                    + lines_from(s@, i + 1, Seq::empty())));
            }
        } else {
            cur.push(s[i]);
        }
        i += 1;
    }
    if cur.len() > 0 {
        let ghost out0 = out@.map_values(|l: Vec<u8>| l@);
        let ghost cur0 = cur@;
        out.push(cur);
        proof {
            assert(out@.map_values(|l: Vec<u8>| l@) =~= out0.push(cur0));
            assert(out0.push(cur0) =~= out0 + seq![cur0]);
        }
    } else {
        proof {
            assert(out@.map_values(|l: Vec<u8>| l@) + lines_from(s@, i as int, cur@)
                =~= out@.map_values(|l: Vec<u8>| l@));
        }
    }
    out
}

/// Splits an input document at its delimiter markers, as `split_spec`
/// says: the first line must be the marker, the header runs to the next
/// marker line, and the remaining lines joined with newlines form the
/// body.
pub fn split_document(input: &[u8]) -> (r: Result<RawDocument, SplitError>)
    ensures
        match r {
            Ok(rd) => split_spec(input@) == Ok::<_, SplitError>((rd.header@, rd.body@)),
            Err(e) => split_spec(input@) == Err::<(Seq<u8>, Seq<u8>), _>(e),
        },
{
    let lines = split_lines_exec(input);
    let ghost lv = lines@.map_values(|l: Vec<u8>| l@);
    let delim = yaml_delim();
    let n = lines.len();
    if n == 0 || !bytes_eq(lines[0].as_slice(), delim.as_slice()) {
        return Err(SplitError::MissingDelimiter);
    }
    proof {
        assert(lv[0] == spec_yaml_delim());
    }
    // find the closing marker
    let mut e: usize = 1;
    let mut found: bool = false;
    while e < n && !found
        invariant
            1 <= e <= n,
            delim@ == spec_yaml_delim(),
            lv == lines@.map_values(|l: Vec<u8>| l@),
            n == lv.len(),
            n == lines@.len(),
            !found ==> delim_from(lv, 1) == delim_from(lv, e as int),
            found ==> e < n && delim_from(lv, 1) == Some(e as int),
        decreases n - e + (if found { 0int } else { 1int }),
    {
        if bytes_eq(lines[e].as_slice(), delim.as_slice()) {
            proof {
                assert(lv[e as int] == spec_yaml_delim());
            }
            found = true;
        } else {
            proof {
                assert(lv[e as int] != spec_yaml_delim());
            }
            e += 1;
        }
    }
    if !found {
        return Err(SplitError::UnterminatedHeader);
    }
    // assemble the header block
    let mut header: Vec<u8> = Vec::new();
    let mut l: usize = 1;
    while l < e
        invariant
            1 <= l <= e < n,
            lv == lines@.map_values(|l: Vec<u8>| l@),
            n == lv.len(),
            n == lines@.len(),
            header_of(lv, 1, e as int) == header@ + header_of(lv, l as int, e as int),
        decreases e - l,
    {
        let ghost h0 = header@;
        push_all(&mut header, lines[l].as_slice());
        header.push(10);
        proof {
            assert(header@ =~= h0 + (lv[l as int] + seq![10u8]));
            assert(h0 + (lv[l as int] + seq![10u8]) + header_of(lv, l + 1, e as int) =~= h0 + (
            lv[l as int] + seq![10u8] + header_of(lv, l + 1, e as int)));
        }
        l += 1;
    }
    proof {
        assert(header@ + header_of(lv, e as int, e as int) =~= header@);
    }
    // assemble the body
    let mut body: Vec<u8> = Vec::new();
    let mut b: usize = e + 1;
    while b < n
        invariant
            e + 1 <= b <= n,
            lv == lines@.map_values(|l: Vec<u8>| l@),
            n == lv.len(),
            n == lines@.len(),
            body_of(lv, e + 1) == body@ + body_of(lv, b as int),
        decreases n - b,
    {
        let ghost b0 = body@;
        push_all(&mut body, lines[b].as_slice());
        if b + 1 < n {
            body.push(10);
            proof {
                assert(body@ =~= b0 + (lv[b as int] + seq![10u8]));
                assert(b0 + (lv[b as int] + seq![10u8]) + body_of(lv, b + 1) =~= b0 + (lv[b as int]
                    + seq![10u8] + body_of(lv, b + 1)));
            }
        } else {
            proof {
                assert(body@ =~= b0 + lv[b as int]);
                assert(body_of(lv, b as int) == lv[b as int]);
            }
        }
        b += 1;
    }
    proof {
        if b >= n {
            assert(body@ + body_of(lv, b as int) =~= body@);
        }
    }
    Ok(RawDocument { header, body })
}

} // verus!
