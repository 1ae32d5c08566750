//! The laws of the transformer and the serializer, stated over the spec
//! pipeline and proved once for all inputs.

use vstd::prelude::*;

use crate::keys::{spec_key_author, spec_key_categories, spec_key_category, spec_key_date,
    spec_key_path, spec_key_slug, spec_key_taxonomies, spec_key_title, spec_key_updated};
use crate::render::rendered_document;
use crate::transform::{date_pattern, first_unrec_from, insert_auth, is_recognized,
    lemma_first_unrec, lemma_keys_distinct, tax_one, transform_spec, Mode, TransformErrorV};
use crate::value::{has_key, lemma_push_key, lemma_remove_key, lemma_set_key, remove_key, value_of,
    wf_doc, DocV, ValueV};

verus! {

/// A value a grouping field may carry: a string or an array.
pub open spec fn taxonomy_ok(v: ValueV) -> bool {
    v is Str || v is Arr
}

/// What a grouping value becomes in the taxonomy: a string becomes a
/// one-element array, an array passes through.
pub open spec fn coerce(v: ValueV) -> Seq<Seq<u8>> {
    match v {
        ValueV::Str(s) => seq![s],
        ValueV::Arr(a) => a,
        ValueV::Table(m) => arbitrary(),
    }
}

/// A document whose fields are all recognized and correctly typed for
/// the given mode.
pub open spec fn well_typed_input(d: DocV, mode: Mode) -> bool {
    &&& wf_doc(d)
    &&& (forall|i: int| 0 <= i < d.len() ==> is_recognized(mode, #[trigger] d[i].0))
    &&& (has_key(d, spec_key_date()) ==> value_of(d, spec_key_date()) is Str)
    &&& (mode == Mode::PathDeriving ==> has_key(d, spec_key_date()) && date_pattern(
        value_of(d, spec_key_date())->Str_0,
    ))
    &&& (has_key(d, spec_key_slug()) ==> value_of(d, spec_key_slug()) is Str)
    &&& (mode == Mode::PathDeriving && !has_key(d, spec_key_slug()) ==> has_key(
        d,
        spec_key_title(),
    ) && value_of(d, spec_key_title()) is Str)
    &&& (has_key(d, spec_key_author()) ==> taxonomy_ok(value_of(d, spec_key_author())))
    &&& (has_key(d, spec_key_categories()) ==> taxonomy_ok(value_of(d, spec_key_categories())))
}

/// A key the transformed document may carry: the kept input field
/// `title`, the rewritten `date`, and the computed `updated`,
/// `taxonomies` and, in path-deriving mode, `path`.
pub open spec fn computed_or_kept(mode: Mode, k: Seq<u8>) -> bool {
    k == spec_key_title() || k == spec_key_date() || k == spec_key_updated() || k
        == spec_key_taxonomies() || (mode == Mode::PathDeriving && k == spec_key_path())
}

/// What writing the authoritative timestamps does to a document's keys
/// and values.
proof fn lemma_insert_auth(d: DocV, mm: bool, cnorm: Seq<u8>, unorm: Option<Seq<u8>>)
    requires
        wf_doc(d),
        !has_key(d, spec_key_date()),
        !has_key(d, spec_key_updated()),
    ensures
        wf_doc(insert_auth(d, mm, cnorm, unorm)),
        forall|k2: Seq<u8>|
            k2 != spec_key_date() && k2 != spec_key_updated() ==> has_key(
                insert_auth(d, mm, cnorm, unorm),
                k2,
            ) == has_key(d, k2),
        forall|k2: Seq<u8>|
            k2 != spec_key_date() && k2 != spec_key_updated() && has_key(d, k2) ==> value_of(
                insert_auth(d, mm, cnorm, unorm),
                k2,
            ) == value_of(d, k2),
        forall|k2: Seq<u8>|
            has_key(insert_auth(d, mm, cnorm, unorm), k2) ==> k2 == spec_key_date() || k2
                == spec_key_updated() || has_key(d, k2),
        !mm ==> has_key(insert_auth(d, mm, cnorm, unorm), spec_key_date()) && value_of(
            insert_auth(d, mm, cnorm, unorm),
            spec_key_date(),
        ) == ValueV::Str(cnorm),
        !mm && unorm is Some ==> has_key(insert_auth(d, mm, cnorm, unorm), spec_key_updated())
            && value_of(insert_auth(d, mm, cnorm, unorm), spec_key_updated()) == ValueV::Str(
            unorm->Some_0,
        ),
        mm ==> insert_auth(d, mm, cnorm, unorm) == d,
{
    lemma_keys_distinct();
    if !mm {
        let d1 = d.push((spec_key_date(), ValueV::Str(cnorm)));
        lemma_push_key(d, spec_key_date(), ValueV::Str(cnorm));
        match unorm {
            Some(u) => {
                lemma_push_key(d1, spec_key_updated(), ValueV::Str(u));
            },
            None => {},
        }
    }
}

/// What folding one grouping field into `taxonomies` does: it always
/// succeeds on a string or array value, removes the source field, and
/// appends the coerced array at the end of the taxonomy table.
proof fn lemma_tax_one(d: DocV, src: Seq<u8>, dst: Seq<u8>)
    requires
        wf_doc(d),
        src != spec_key_taxonomies(),
        has_key(d, src) ==> taxonomy_ok(value_of(d, src)),
        has_key(d, spec_key_taxonomies()) ==> value_of(d, spec_key_taxonomies()) is Table,
    ensures
        tax_one(d, src, dst) is Ok,
        wf_doc(tax_one(d, src, dst)->Ok_0),
        !has_key(tax_one(d, src, dst)->Ok_0, src),
        has_key(tax_one(d, src, dst)->Ok_0, spec_key_taxonomies()) == (has_key(
            d,
            spec_key_taxonomies(),
        ) || has_key(d, src)),
        has_key(tax_one(d, src, dst)->Ok_0, spec_key_taxonomies()) ==> value_of(
            tax_one(d, src, dst)->Ok_0,
            spec_key_taxonomies(),
        ) is Table,
        has_key(d, src) ==> value_of(tax_one(d, src, dst)->Ok_0, spec_key_taxonomies())
            == ValueV::Table(
            (if has_key(d, spec_key_taxonomies()) {
                value_of(d, spec_key_taxonomies())->Table_0
            } else {
                Seq::empty()
            }).push((dst, coerce(value_of(d, src)))),
        ),
        forall|k2: Seq<u8>|
            k2 != src && k2 != spec_key_taxonomies() ==> has_key(tax_one(d, src, dst)->Ok_0, k2)
                == has_key(d, k2),
        forall|k2: Seq<u8>|
            k2 != src && k2 != spec_key_taxonomies() && has_key(d, k2) ==> value_of(
                tax_one(d, src, dst)->Ok_0,
                k2,
            ) == value_of(d, k2),
        forall|k2: Seq<u8>|
            has_key(tax_one(d, src, dst)->Ok_0, k2) ==> k2 == spec_key_taxonomies() || has_key(
                d,
                k2,
            ),
{
    if has_key(d, src) {
        let a = coerce(value_of(d, src));
        let d1 = remove_key(d, src);
        lemma_remove_key(d, src);
        if has_key(d1, spec_key_taxonomies()) {
            let m = value_of(d1, spec_key_taxonomies())->Table_0;
            lemma_set_key(d1, spec_key_taxonomies(), ValueV::Table(m.push((dst, a))));
        } else {
            lemma_push_key(d1, spec_key_taxonomies(), ValueV::Table(seq![(dst, a)]));
            assert(Seq::<(Seq<u8>, Seq<Seq<u8>>)>::empty().push((dst, a)) =~= seq![(dst, a)]);
        }
    }
}

/// Every document with only recognized, correctly typed fields is
/// transformed successfully, and the result carries no field outside
/// the kept and computed ones; when a grouping field was present the
/// result groups it under `taxonomies`, a `categories` value (a string
/// coerced to a one-element array, an array kept in order) landing
/// under `category` as the table's last entry. A mismatch is reported
/// exactly when the declared date is not a prefix of the authoritative
/// created timestamp; without one the normalized timestamps are
/// written as `date` and `updated`, with one both are suppressed.
pub proof fn lemma_transform_well_typed(
    d: DocV,
    mode: Mode,
    craw: Seq<u8>,
    cnorm: Seq<u8>,
    unorm: Option<Seq<u8>>,
)
    requires
        well_typed_input(d, mode),
    ensures
        transform_spec(d, mode, craw, cnorm, unorm) is Ok,
        wf_doc(transform_spec(d, mode, craw, cnorm, unorm)->Ok_0.doc),
        forall|k: Seq<u8>|
            has_key(transform_spec(d, mode, craw, cnorm, unorm)->Ok_0.doc, k) ==> computed_or_kept(
                mode,
                k,
            ),
        has_key(transform_spec(d, mode, craw, cnorm, unorm)->Ok_0.doc, spec_key_taxonomies()) == (
        has_key(d, spec_key_author()) || has_key(d, spec_key_categories())),
        has_key(d, spec_key_categories()) ==> {
            let tv = value_of(
                transform_spec(d, mode, craw, cnorm, unorm)->Ok_0.doc,
                spec_key_taxonomies(),
            );
            tv is Table && tv->Table_0.len() >= 1 && tv->Table_0.last() == (
                spec_key_category(),
                coerce(value_of(d, spec_key_categories())),
            )
        },
        (transform_spec(d, mode, craw, cnorm, unorm)->Ok_0.path_parts is Some) <==> mode
            == Mode::PathDeriving,
        transform_spec(d, mode, craw, cnorm, unorm)->Ok_0.date_mismatch == (has_key(
            d,
            spec_key_date(),
        ) && !crate::transform::is_prefix(value_of(d, spec_key_date())->Str_0, craw)),
        !transform_spec(d, mode, craw, cnorm, unorm)->Ok_0.date_mismatch ==> {
            let out = transform_spec(d, mode, craw, cnorm, unorm)->Ok_0.doc;
            has_key(out, spec_key_date()) && value_of(out, spec_key_date()) == ValueV::Str(cnorm)
                && (unorm matches Some(u) ==> has_key(out, spec_key_updated()) && value_of(
                out,
                spec_key_updated(),
            ) == ValueV::Str(u))
        },
        transform_spec(d, mode, craw, cnorm, unorm)->Ok_0.date_mismatch ==> {
            let out = transform_spec(d, mode, craw, cnorm, unorm)->Ok_0.doc;
            !has_key(out, spec_key_date()) && !has_key(out, spec_key_updated())
        },
{
    lemma_keys_distinct();
    lemma_first_unrec(d, mode, 0);
    match first_unrec_from(d, mode, 0) {
        Some(k) => {
            let j = choose|j: int| 0 <= j < d.len() && d[j].0 == k;
            assert(is_recognized(mode, d[j].0));
            assert(false);
        },
        None => {},
    }
    assert(!has_key(d, spec_key_updated())) by {
        if has_key(d, spec_key_updated()) {
            let j = choose|j: int| 0 <= j < d.len() && d[j].0 == spec_key_updated();
            assert(is_recognized(mode, spec_key_updated()));
        }
    }
    assert(!has_key(d, spec_key_path())) by {
        if has_key(d, spec_key_path()) {
            let j = choose|j: int| 0 <= j < d.len() && d[j].0 == spec_key_path();
            assert(is_recognized(mode, spec_key_path()));
        }
    }
    assert(!has_key(d, spec_key_taxonomies())) by {
        if has_key(d, spec_key_taxonomies()) {
            let j = choose|j: int| 0 <= j < d.len() && d[j].0 == spec_key_taxonomies();
            assert(is_recognized(mode, spec_key_taxonomies()));
        }
    }
    if mode == Mode::Generic {
        assert(!has_key(d, spec_key_slug())) by {
            if has_key(d, spec_key_slug()) {
                let j = choose|j: int| 0 <= j < d.len() && d[j].0 == spec_key_slug();
                assert(is_recognized(mode, spec_key_slug()));
            }
        }
    }

    // the date step
    let dated = has_key(d, spec_key_date());
    let d1 = if dated {
        remove_key(d, spec_key_date())
    } else {
        d
    };
    if dated {
        lemma_remove_key(d, spec_key_date());
    }
    let mm = if dated {
        !crate::transform::is_prefix(value_of(d, spec_key_date())->Str_0, craw)
    } else {
        false
    };
    let d2 = insert_auth(d1, mm, cnorm, unorm);
    lemma_insert_auth(d1, mm, cnorm, unorm);

    // the slug and path step
    let d4 = if mode == Mode::PathDeriving {
        let d3 = if has_key(d2, spec_key_slug()) {
            lemma_remove_key(d2, spec_key_slug());
            remove_key(d2, spec_key_slug())
        } else {
            d2
        };
        let s = value_of(d, spec_key_date())->Str_0;
        let slug = if has_key(d2, spec_key_slug()) {
            value_of(d2, spec_key_slug())->Str_0
        } else {
            crate::transform::kebab_of(value_of(d2, spec_key_title())->Str_0)
        };
        lemma_push_key(
            d3,
            spec_key_path(),
            ValueV::Str(
                crate::transform::path_of(
                    s.subrange(0, 4),
                    s.subrange(5, 7),
                    s.subrange(8, 10),
                    slug,
                ),
            ),
        );
        d3.push(
            (
                spec_key_path(),
                ValueV::Str(
                    crate::transform::path_of(
                        s.subrange(0, 4),
                        s.subrange(5, 7),
                        s.subrange(8, 10),
                        slug,
                    ),
                ),
            ),
        )
    } else {
        d2
    };

    // the taxonomy step
    lemma_tax_one(d4, spec_key_author(), spec_key_author());
    let d5 = tax_one(d4, spec_key_author(), spec_key_author())->Ok_0;
    lemma_tax_one(d5, spec_key_categories(), spec_key_category());
    let d6 = tax_one(d5, spec_key_categories(), spec_key_category())->Ok_0;

    let r = transform_spec(d, mode, craw, cnorm, unorm);
    assert(r is Ok && r->Ok_0.doc == d6);
    assert forall|k: Seq<u8>| has_key(d6, k) implies computed_or_kept(mode, k) by {
        if k != spec_key_taxonomies() {
            assert(has_key(d4, k));
            if mode == Mode::PathDeriving && k != spec_key_path() {
                assert(has_key(d2, k));
            }
            if k != spec_key_date() && k != spec_key_updated() && k != spec_key_path() {
                assert(has_key(d, k));
                let j = choose|j: int| 0 <= j < d.len() && d[j].0 == k;
                assert(is_recognized(mode, d[j].0));
            }
        }
    }
}

/// Every document holding an unrecognized top-level field is rejected
/// with the error naming such a field.
pub proof fn lemma_unrecognized_rejected(
    d: DocV,
    mode: Mode,
    craw: Seq<u8>,
    cnorm: Seq<u8>,
    unorm: Option<Seq<u8>>,
)
    requires
        exists|i: int| 0 <= i < d.len() && !is_recognized(mode, #[trigger] d[i].0),
    ensures
        transform_spec(d, mode, craw, cnorm, unorm) matches Err(
            TransformErrorV::UnexpectedField(k),
        ) && !is_recognized(mode, k) && has_key(d, k),
{
    lemma_first_unrec(d, mode, 0);
    match first_unrec_from(d, mode, 0) {
        Some(k) => {},
        None => {
            let i = choose|i: int| 0 <= i < d.len() && !is_recognized(mode, d[i].0);
            assert(is_recognized(mode, d[i].0));
        },
    }
}

/// Applying the transformation to its own output is rejected whenever a
/// grouping field was folded: the computed `taxonomies` field is not a
/// recognized input.
pub proof fn lemma_retransform_rejected(
    d: DocV,
    mode: Mode,
    craw: Seq<u8>,
    cnorm: Seq<u8>,
    unorm: Option<Seq<u8>>,
    craw2: Seq<u8>,
    cnorm2: Seq<u8>,
    unorm2: Option<Seq<u8>>,
    mode2: Mode,
)
    requires
        well_typed_input(d, mode),
        has_key(d, spec_key_author()) || has_key(d, spec_key_categories()),
    ensures
        transform_spec(
            transform_spec(d, mode, craw, cnorm, unorm)->Ok_0.doc,
            mode2,
            craw2,
            cnorm2,
            unorm2,
        ) matches Err(TransformErrorV::UnexpectedField(_)),
{
    lemma_keys_distinct();
    lemma_transform_well_typed(d, mode, craw, cnorm, unorm);
    let out = transform_spec(d, mode, craw, cnorm, unorm)->Ok_0.doc;
    assert(has_key(out, spec_key_taxonomies()));
    let i = choose|i: int| 0 <= i < out.len() && out[i].0 == spec_key_taxonomies();
    assert(!is_recognized(mode2, out[i].0));
    lemma_unrecognized_rejected(out, mode2, craw2, cnorm2, unorm2);
}

/// The body text stands verbatim in the rendered output, just before
/// the final newline: only the header framing around it changes.
pub proof fn lemma_body_preserved(d: DocV, body: Seq<u8>)
    ensures
        rendered_document(d, body).len() >= body.len() + 1,
        rendered_document(d, body).subrange(
            rendered_document(d, body).len() - body.len() - 1,
            rendered_document(d, body).len() - 1,
        ) == body,
{
    let out = rendered_document(d, body);
    assert(out.subrange(out.len() - body.len() - 1, out.len() - 1) =~= body);
}

} // verus!
