//! The metadata parser: decodes the raw header block into an ordered
//! key-value document. Each non-blank line is `key: value`; a value is a
//! plain scalar, a quoted scalar, or a flow array `[a, b]` of scalars.
//! Nested structures are not decodable and are rejected.

use vstd::prelude::*;

use crate::bytes::push_all;
use crate::split::{split_lines, split_lines_exec};
use crate::value::{has_key, lemma_key_index, lemma_push_key, wf_doc, Doc, DocV, Value, ValueV};

verus! {

/// Why a header block could not be decoded.
#[derive(Debug, Clone, Copy, PartialEq, Eq, Structural)]
pub enum ParseError {
    /// A non-blank line holds no `:` separator.
    MissingColon,
    /// The text before the `:` is empty.
    EmptyKey,
    /// The value is empty or an unclosed `[`: not a scalar and not a
    /// flow array.
    BadValue,
    /// A key appears on two lines.
    DuplicateKey,
}

/// Index of the first byte at or after `i` that equals `b`, or the
/// length when none does.
pub open spec fn find_byte_from(s: Seq<u8>, b: u8, i: int) -> int
    decreases s.len() - i,
{
    if i < 0 || i >= s.len() {
        s.len() as int
    } else if s[i] == b {
        i
    } else {
        find_byte_from(s, b, i + 1)
    }
}

/// Index of the first byte at or after `i` that is not a space, or the
/// length when all of them are.
pub open spec fn skip_spaces(s: Seq<u8>, i: int) -> int
    decreases s.len() - i,
{
    if i < 0 || i >= s.len() {
        s.len() as int
    } else if s[i] != 32 {
        i
    } else {
        skip_spaces(s, i + 1)
    }
}

/// Moves `b` down past trailing spaces, but not below `a`.
pub open spec fn trim_to(s: Seq<u8>, a: int, b: int) -> int
    decreases b,
{
    if a < 0 || b <= a {
        a
    } else if s[b - 1] != 32 {
        b
    } else {
        trim_to(s, a, b - 1)
    }
}

/// `s` without leading and trailing spaces.
pub open spec fn trim(s: Seq<u8>) -> Seq<u8> {
    let a = skip_spaces(s, 0);
    let b = trim_to(s, a, s.len() as int);
    s.subrange(a, b)
}

/// Whether `s` holds only spaces.
pub open spec fn blank(s: Seq<u8>) -> bool {
    skip_spaces(s, 0) == s.len()
}

/// `s` without one matching pair of surrounding quotes, single or
/// double; anything else is kept verbatim.
pub open spec fn unquote(s: Seq<u8>) -> Seq<u8> {
    if s.len() >= 2 && s[0] == s[s.len() - 1] && (s[0] == 34 || s[0] == 39) {
        s.subrange(1, s.len() - 1)
    } else {
        s
    }
}

/// The pieces of `s[i..]` split at commas, with `cur` the piece read so
/// far; the empty string yields one empty piece.
pub open spec fn commas_from(s: Seq<u8>, i: int, cur: Seq<u8>) -> Seq<Seq<u8>>
    decreases s.len() - i,
{
    if i < 0 || i >= s.len() {
        seq![cur]
    } else if s[i] == 44 {
        seq![cur] + commas_from(s, i + 1, Seq::empty())
    } else {
        commas_from(s, i + 1, cur.push(s[i]))
    }
}

/// The elements of a flow array body: comma-separated scalars, each
/// trimmed and unquoted; a blank body has none.
pub open spec fn arr_items(inner: Seq<u8>) -> Seq<Seq<u8>> {
    if blank(inner) {
        Seq::empty()
    } else {
        commas_from(inner, 0, Seq::empty()).map_values(|p: Seq<u8>| unquote(trim(p)))
    }
}

/// What a trimmed value decodes to: a flow array when bracketed, a
/// scalar otherwise; empty values and unclosed brackets do not decode.
pub open spec fn decode_value(v: Seq<u8>) -> Option<ValueV> {
    if v.len() == 0 {
        None
    } else if v[0] == 91 {
        if v.len() >= 2 && v[v.len() - 1] == 93 {
            Some(ValueV::Arr(arr_items(v.subrange(1, v.len() - 1))))
        } else {
            None
        }
    } else {
        Some(ValueV::Str(unquote(v)))
    }
}

/// Decodes the lines from `i` on into entries appended to `acc`: blank
/// lines are skipped, every other line is `key: value` with a fresh,
/// non-empty key and a decodable value.
pub open spec fn parse_from(lines: Seq<Seq<u8>>, i: int, acc: DocV) -> Result<DocV, ParseError>
    decreases lines.len() - i,
{
    if i < 0 || i >= lines.len() {
        Ok(acc)
    } else {
        let l = lines[i];
        if blank(l) {
            parse_from(lines, i + 1, acc)
        } else {
            let c = find_byte_from(l, 58, 0);
            if c >= l.len() {
                Err(ParseError::MissingColon)
            } else {
                let k = trim(l.subrange(0, c));
                if k.len() == 0 {
                    Err(ParseError::EmptyKey)
                } else if has_key(acc, k) {
                    Err(ParseError::DuplicateKey)
                } else {
                    match decode_value(trim(l.subrange(c + 1, l.len() as int))) {
                        Some(v) => parse_from(lines, i + 1, acc.push((k, v))),
                        None => Err(ParseError::BadValue),
                    }
                }
            }
        }
    }
}

/// What parsing a header block yields.
pub open spec fn parse_spec(header: Seq<u8>) -> Result<DocV, ParseError> {
    parse_from(split_lines(header), 0, Seq::empty())
}

/// Index of the first byte equal to `b`, or the length when none is.
fn find_byte(s: &[u8], b: u8) -> (r: usize)
    ensures
        r == find_byte_from(s@, b, 0),
        r <= s@.len(),
{
    let n = s.len();
    let mut i: usize = 0;
    while i < n && s[i] != b
        invariant
            0 <= i <= n,
            n == s@.len(),
            find_byte_from(s@, b, 0) == find_byte_from(s@, b, i as int),
        decreases n - i,
    {
        i += 1;
    }
    proof {
        assert(find_byte_from(s@, b, i as int) == i as int);
    }
    i
}

/// A copy of `s` without leading and trailing spaces.
fn trim_exec(s: &[u8]) -> (r: Vec<u8>)
    ensures
        r@ == trim(s@),
{
    let n = s.len();
    let mut a: usize = 0;
    while a < n && s[a] == 32
        invariant
            0 <= a <= n,
            n == s@.len(),
            skip_spaces(s@, 0) == skip_spaces(s@, a as int),
        decreases n - a,
    {
        a += 1;
    }
    proof {
        assert(skip_spaces(s@, a as int) == a as int);
    }
    let mut b: usize = n;
    while b > a && s[b - 1] == 32
        invariant
            a <= b <= n,
            n == s@.len(),
            trim_to(s@, a as int, n as int) == trim_to(s@, a as int, b as int),
        decreases b,
    {
        b -= 1;
    }
    proof {
        assert(trim_to(s@, a as int, b as int) == b as int);
    }
    let mut r: Vec<u8> = Vec::new();
    push_all(&mut r, &s[a..b]);
    r
}

/// Whether `s` holds only spaces.
fn blank_exec(s: &[u8]) -> (r: bool)
    ensures
        r == blank(s@),
{
    let n = s.len();
    let mut a: usize = 0;
    while a < n && s[a] == 32
        invariant
            0 <= a <= n,
            n == s@.len(),
            skip_spaces(s@, 0) == skip_spaces(s@, a as int),
        decreases n - a,
    {
        a += 1;
    }
    proof {
        assert(skip_spaces(s@, a as int) == a as int);
    }
    a == n
}

/// A copy of `s` without one matching pair of surrounding quotes.
fn unquote_exec(s: &[u8]) -> (r: Vec<u8>)
    ensures
        r@ == unquote(s@),
{
    let n = s.len();
    let mut r: Vec<u8> = Vec::new();
    if n >= 2 && s[0] == s[n - 1] && (s[0] == 34 || s[0] == 39) {
        push_all(&mut r, &s[1..n - 1]);
    } else {
        push_all(&mut r, s);
        proof {
            assert(s@.subrange(0, s@.len() as int) =~= s@);
        }
    }
    r
}

/// The pieces of `s` split at commas, as `commas_from` says.
fn split_commas_exec(s: &[u8]) -> (r: Vec<Vec<u8>>)
    ensures
        r@.map_values(|p: Vec<u8>| p@) == commas_from(s@, 0, Seq::empty()),
{
    let mut out: Vec<Vec<u8>> = Vec::new();
    let mut cur: Vec<u8> = Vec::new();
    let mut i: usize = 0;
    proof {
        assert(out@.map_values(|p: Vec<u8>| p@) + commas_from(s@, 0, cur@) =~= commas_from(
            s@,
            0,
            Seq::empty(),
        ));
    }
    while i < s.len()
        invariant
            0 <= i <= s@.len(),
            commas_from(s@, 0, Seq::empty()) == out@.map_values(|p: Vec<u8>| p@) + commas_from(
                s@,
                i as int,
                cur@,
            ),
        decreases s@.len() - i,
    {
        let ghost out0 = out@.map_values(|p: Vec<u8>| p@);
        let ghost cur0 = cur@;
        if s[i] == 44 {
            out.push(cur);
            cur = Vec::new();
            proof {
                assert(out@.map_values(|p: Vec<u8>| p@) =~= out0.push(cur0));
                assert(out0.push(cur0) + commas_from(s@, i + 1, cur@) =~= out0 + (seq![cur0]
                    + commas_from(s@, i + 1, Seq::empty())));
            }
        } else {
            cur.push(s[i]);
        }
        i += 1;
    }
    let ghost out0 = out@.map_values(|p: Vec<u8>| p@);
    let ghost cur0 = cur@;
    out.push(cur);
    proof {
        assert(out@.map_values(|p: Vec<u8>| p@) =~= out0.push(cur0));
        assert(out0.push(cur0) =~= out0 + seq![cur0]);
    }
    out
}

/// The elements of a flow array body, as `arr_items` says.
fn arr_items_exec(inner: &[u8]) -> (r: Vec<Vec<u8>>)
    ensures
        r@.map_values(|p: Vec<u8>| p@) == arr_items(inner@),
{
    let mut out: Vec<Vec<u8>> = Vec::new();
    if blank_exec(inner) {
        proof {
            assert(out@.map_values(|p: Vec<u8>| p@) =~= arr_items(inner@));
        }
        return out;
    }
    let parts = split_commas_exec(inner);
    let ghost pv = parts@.map_values(|p: Vec<u8>| p@);
    let n = parts.len();
    let mut i: usize = 0;
    while i < n
        invariant
            0 <= i <= n,
            pv == parts@.map_values(|p: Vec<u8>| p@),
            n == pv.len(),
            n == parts@.len(),
            out@.len() == i,
            forall|j: int| 0 <= j < i ==> out@.map_values(|p: Vec<u8>| p@)[j] == unquote(trim(
                pv[j],
            )),
        decreases n - i,
    {
        let t = trim_exec(parts[i].as_slice());
        let u = unquote_exec(t.as_slice());
        out.push(u);
        i += 1;
    }
    proof {
        assert(out@.map_values(|p: Vec<u8>| p@) =~= pv.map_values(|p: Seq<u8>| unquote(trim(p))));
    }
    out
}

/// Decodes one trimmed value, as `decode_value` says.
fn decode_value_exec(v: &[u8]) -> (r: Option<Value>)
    ensures
        match r {
            Some(val) => decode_value(v@) == Some(val@),
            None => decode_value(v@) is None,
        },
{
    let n = v.len();
    if n == 0 {
        return None;
    }
    if v[0] == 91 {
        if n >= 2 && v[n - 1] == 93 {
            let items = arr_items_exec(&v[1..n - 1]);
            Some(Value::Arr(items))
        } else {
            None
        }
    } else {
        Some(Value::Str(unquote_exec(v)))
    }
}

/// Decodes a header block into a document, as `parse_spec` says; a
/// decoded document is well formed.
pub fn parse_document(header: &[u8]) -> (r: Result<Doc, ParseError>)
    ensures
        match r {
            Ok(d) => parse_spec(header@) == Ok::<DocV, ParseError>(d@) && d.wf(),
            Err(e) => parse_spec(header@) == Err::<DocV, ParseError>(e),
        },
{
    let lines = split_lines_exec(header);
    let ghost lv = lines@.map_values(|l: Vec<u8>| l@);
    let n = lines.len();
    let mut doc = Doc::new();
    let mut i: usize = 0;
    let ghost empty_doc: DocV = Seq::empty();
    while i < n
        invariant
            0 <= i <= n,
            lv == lines@.map_values(|l: Vec<u8>| l@),
            lv == split_lines(header@),
            n == lv.len(),
            n == lines@.len(),
            empty_doc == Seq::<(Seq<u8>, ValueV)>::empty(),
            parse_from(lv, 0, empty_doc) == parse_from(lv, i as int, doc@),
            wf_doc(doc@),
        decreases n - i,
    {
        let line = &lines[i];
        if !blank_exec(line.as_slice()) {
            let c = find_byte(line.as_slice(), 58);
            if c >= line.len() {
                return Err(ParseError::MissingColon);
            }
            let key = trim_exec(&line.as_slice()[0..c]);
            if key.len() == 0 {
                return Err(ParseError::EmptyKey);
            }
            proof {
                lemma_key_index(doc@, key@);
            }
            if doc.find(key.as_slice()).is_some() {
                return Err(ParseError::DuplicateKey);
            }
            let rawv = trim_exec(&line.as_slice()[c + 1..line.len()]);
            match decode_value_exec(rawv.as_slice()) {
                Some(v) => {
                    proof {
                        lemma_push_key(doc@, key@, v@);
                    }
                    doc.push_kv(key, v);
                },
                None => {
                    return Err(ParseError::BadValue);
                },
            }
        }
        i += 1;
    }
    Ok(doc)
}

} // verus!
