//! The serializer: renders the transformed document as a `+++`-fenced
//! block followed by the body text, verbatim, with a trailing newline.
//! Strings are double-quoted with `"` and `\` escaped; arrays are
//! bracketed, comma-separated; a nested mapping becomes a `[name]`
//! section of array entries. Entries appear in document order.

use vstd::prelude::*;

use crate::bytes::push_all;
use crate::keys::{spec_toml_delim, toml_delim};
use crate::value::{Doc, DocV, Entry, MapEntry, Value, ValueV};

verus! {

/// One byte of a quoted string: `"` and `\` get a backslash before
/// them, every other byte stands as it is.
pub open spec fn esc_byte(b: u8) -> Seq<u8> {
    if b == 34 || b == 92 {
        seq![92u8, b]
    } else {
        seq![b]
    }
}

/// The escaped form of `s[i..]`.
pub open spec fn escape_from(s: Seq<u8>, i: int) -> Seq<u8>
    decreases s.len() - i,
{
    if i < 0 || i >= s.len() {
        Seq::empty()
    } else {
        esc_byte(s[i]) + escape_from(s, i + 1)
    }
}

/// The quoted form of a string value.
pub open spec fn quoted(s: Seq<u8>) -> Seq<u8> {
    seq![34u8] + escape_from(s, 0) + seq![34u8]
}

/// The quoted elements of `a[i..]`, comma-separated.
pub open spec fn arr_body_from(a: Seq<Seq<u8>>, i: int) -> Seq<u8>
    decreases a.len() - i,
{
    if i < 0 || i >= a.len() {
        Seq::empty()
    } else if i == a.len() - 1 {
        quoted(a[i])
    } else {
        quoted(a[i]) + seq![44u8, 32u8] + arr_body_from(a, i + 1)
    }
}

/// The rendered form of an array value.
pub open spec fn rendered_arr(a: Seq<Seq<u8>>) -> Seq<u8> {
    seq![91u8] + arr_body_from(a, 0) + seq![93u8]
}

/// The lines of a nested mapping from `i` on: `name = [...]`, one per
/// entry.
pub open spec fn table_body_from(m: Seq<(Seq<u8>, Seq<Seq<u8>>)>, i: int) -> Seq<u8>
    decreases m.len() - i,
{
    if i < 0 || i >= m.len() {
        Seq::empty()
    } else {
        m[i].0 + seq![32u8, 61u8, 32u8] + rendered_arr(m[i].1) + seq![10u8] + table_body_from(
            m,
            i + 1,
        )
    }
}

/// The rendered form of one entry: `key = value` for scalars and
/// arrays, a `[key]` section for a nested mapping.
pub open spec fn rendered_entry(k: Seq<u8>, v: ValueV) -> Seq<u8> {
    match v {
        ValueV::Str(s) => k + seq![32u8, 61u8, 32u8] + quoted(s) + seq![10u8],
        ValueV::Arr(a) => k + seq![32u8, 61u8, 32u8] + rendered_arr(a) + seq![10u8],
        ValueV::Table(m) => seq![91u8] + k + seq![93u8, 10u8] + table_body_from(m, 0),
    }
}

/// The rendered entries of `d` from `i` on, in document order.
pub open spec fn rendered_doc_from(d: DocV, i: int) -> Seq<u8>
    decreases d.len() - i,
{
    if i < 0 || i >= d.len() {
        Seq::empty()
    } else {
        rendered_entry(d[i].0, d[i].1) + rendered_doc_from(d, i + 1)
    }
}

/// The whole output: the fenced metadata block, then the body verbatim,
/// then one final newline.
pub open spec fn rendered_document(d: DocV, body: Seq<u8>) -> Seq<u8> {
    spec_toml_delim() + seq![10u8] + rendered_doc_from(d, 0) + spec_toml_delim() + seq![10u8] + body
        + seq![10u8]
}

/// Appends the escaped bytes of `s`.
fn escape_into(out: &mut Vec<u8>, s: &[u8])
    ensures
        final(out)@ == old(out)@ + escape_from(s@, 0),
{
    let n = s.len();
    let mut i: usize = 0;
    proof {
        assert(out@ + escape_from(s@, 0) == old(out)@ + escape_from(s@, 0));
    }
    while i < n
        invariant
            0 <= i <= n,
            n == s@.len(),
            out@ + escape_from(s@, i as int) == old(out)@ + escape_from(s@, 0),
        decreases n - i,
    {
        let ghost o0 = out@;
        let b = s[i];
        if b == 34 || b == 92 {
            out.push(92);
            out.push(b);
            proof {
                assert(out@ =~= o0 + esc_byte(b));
            }
        } else {
            out.push(b);
            proof {
                assert(out@ =~= o0 + esc_byte(b));
            }
        }
        proof {
            assert(o0 + esc_byte(b) + escape_from(s@, i + 1) =~= o0 + (esc_byte(b) + escape_from(
                s@,
                i + 1,
            )));
        }
        i += 1;
    }
    proof {
        assert(out@ + escape_from(s@, i as int) =~= out@);
    }
}

/// Appends the quoted form of `s`.
fn quote_into(out: &mut Vec<u8>, s: &[u8])
    ensures
        final(out)@ == old(out)@ + quoted(s@),
{
    let ghost o0 = out@;
    out.push(34);
    escape_into(out, s);
    out.push(34);
    proof {
        assert(out@ =~= o0 + quoted(s@));
    }
}

/// Appends the rendered form of an array value.
fn render_arr_into(out: &mut Vec<u8>, a: &Vec<Vec<u8>>)
    ensures
        final(out)@ == old(out)@ + rendered_arr(a@.map_values(|x: Vec<u8>| x@)),
{
    let ghost av = a@.map_values(|x: Vec<u8>| x@);
    let ghost o0 = out@;
    out.push(91);
    let n = a.len();
    let mut i: usize = 0;
    while i < n
        invariant
            0 <= i <= n,
            av == a@.map_values(|x: Vec<u8>| x@),
            n == av.len(),
            n == a@.len(),
            out@ + arr_body_from(av, i as int) == o0 + seq![91u8] + arr_body_from(av, 0),
        decreases n - i,
    {
        let ghost oi = out@;
        quote_into(out, a[i].as_slice());
        if i + 1 < n {
            out.push(44);
            out.push(32);
            proof {
                assert(out@ =~= oi + (quoted(av[i as int]) + seq![44u8, 32u8]));
                assert(oi + (quoted(av[i as int]) + seq![44u8, 32u8]) + arr_body_from(av, i + 1)
                    =~= oi + (quoted(av[i as int]) + seq![44u8, 32u8] + arr_body_from(av, i + 1)));
            }
        } else {
            proof {
                assert(arr_body_from(av, i as int) == quoted(av[i as int]));
                assert(oi + quoted(av[i as int]) + arr_body_from(av, i + 1) =~= oi + quoted(
                    av[i as int],
                ));
            }
        }
        i += 1;
    }
    proof {
        if n == 0 {
            assert(out@ + arr_body_from(av, 0) =~= out@);
        } else {
            assert(out@ + arr_body_from(av, i as int) =~= out@);
        }
    }
    out.push(93);
    proof {
        assert(out@ =~= o0 + rendered_arr(av));
    }
}

/// Appends the rendered form of one entry.
fn render_entry_into(out: &mut Vec<u8>, e: &Entry)
    ensures
        final(out)@ == old(out)@ + rendered_entry(e.key@, e.value@),
{
    let ghost o0 = out@;
    match &e.value {
        Value::Str(s) => {
            push_all(out, e.key.as_slice());
            out.push(32);
            out.push(61);
            out.push(32);
            quote_into(out, s.as_slice());
            out.push(10);
            proof {
                assert(out@ =~= o0 + rendered_entry(e.key@, e.value@));
            }
        },
        Value::Arr(a) => {
            push_all(out, e.key.as_slice());
            out.push(32);
            out.push(61);
            out.push(32);
            render_arr_into(out, a);
            out.push(10);
            proof {
                assert(out@ =~= o0 + rendered_entry(e.key@, e.value@));
            }
        },
        Value::Table(m) => {
            let ghost mv = m@.map_values(|me: MapEntry| me@);
            out.push(91);
            push_all(out, e.key.as_slice());
            out.push(93);
            out.push(10);
            let ghost o1 = out@;
            proof {
                assert(o1 =~= o0 + (seq![91u8] + e.key@ + seq![93u8, 10u8]));
            }
            let n = m.len();
            let mut i: usize = 0;
            while i < n
                invariant
                    0 <= i <= n,
                    mv == m@.map_values(|me: MapEntry| me@),
                    n == mv.len(),
                    n == m@.len(),
                    out@ + table_body_from(mv, i as int) == o1 + table_body_from(mv, 0),
                decreases n - i,
            {
                let ghost oi = out@;
                push_all(out, m[i].key.as_slice());
                out.push(32);
                out.push(61);
                out.push(32);
                render_arr_into(out, &m[i].items);
                out.push(10);
                proof {
                    assert(out@ =~= oi + (mv[i as int].0 + seq![32u8, 61u8, 32u8] + rendered_arr(
                        mv[i as int].1,
                    ) + seq![10u8]));
                    assert(oi + (mv[i as int].0 + seq![32u8, 61u8, 32u8] + rendered_arr(
                        mv[i as int].1,
                    ) + seq![10u8]) + table_body_from(mv, i + 1) =~= oi + table_body_from(
                        mv,
                        i as int,
                    ));
                }
                i += 1;
            }
            proof {
                assert(out@ + table_body_from(mv, i as int) =~= out@);
                assert(out@ =~= o0 + rendered_entry(e.key@, e.value@));
            }
        },
    }
}

/// Renders the whole output document, as `rendered_document` says: the
/// fenced metadata block in document order, then the body verbatim,
/// then one final newline.
pub fn render_document(doc: &Doc, body: &[u8]) -> (r: Vec<u8>)
    ensures
        r@ == rendered_document(doc@, body@),
{
    let ghost dv = doc@;
    let mut out: Vec<u8> = toml_delim();
    out.push(10);
    let ghost o0 = out@;
    let n = doc.entries.len();
    let mut i: usize = 0;
    while i < n
        invariant
            0 <= i <= n,
            dv == doc@,
            n == dv.len(),
            n == doc.entries@.len(),
            out@ + rendered_doc_from(dv, i as int) == o0 + rendered_doc_from(dv, 0),
        decreases n - i,
    {
        let ghost oi = out@;
        render_entry_into(&mut out, &doc.entries[i]);
        proof {
            assert(dv[i as int] == (doc.entries@[i as int].key@, doc.entries@[i as int].value@));
            assert(oi + rendered_entry(dv[i as int].0, dv[i as int].1) + rendered_doc_from(
                dv,
                i + 1,
            ) =~= oi + rendered_doc_from(dv, i as int));
        }
        i += 1;
    }
    proof {
        assert(out@ + rendered_doc_from(dv, i as int) =~= out@);
    }
    let closing = toml_delim();
    push_all(&mut out, closing.as_slice());
    out.push(10);
    push_all(&mut out, body);
    out.push(10);
    proof {
        assert(out@ =~= rendered_document(dv, body@));
    }
    out
}

} // verus!
