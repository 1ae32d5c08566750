//! The metadata transformer: enforces the recognized field schema,
//! reconciles the declared date against the authoritative timestamps,
//! derives the slug and publication path, and restructures the grouping
//! fields into the `taxonomies` shape.

use vstd::prelude::*;

use crate::bytes::{bytes_eq, push_all, starts_with};
use crate::keys::{key_author, key_categories, key_category, key_date, key_path, key_slug,
    key_taxonomies, key_title, key_updated, spec_blog_prefix, spec_key_author, spec_key_categories,
    spec_key_category, spec_key_date, spec_key_path, spec_key_slug, spec_key_taxonomies,
    spec_key_title, spec_key_updated};
use crate::value::{has_key, lemma_key_index, lemma_push_key, lemma_remove_key, lemma_set_key,
    remove_key, set_key, value_of, Doc, DocV, MapEntry, Value, ValueV};

verus! {

/// The two operating modes of the pipeline.
#[derive(Debug, Clone, Copy, PartialEq, Eq, Structural)]
pub enum Mode {
    /// `date` optional; no slug or path derivation.
    Generic,
    /// `date` required in `YYYY-MM-DD` form; slug and path derived.
    PathDeriving,
}

/// Why a document was rejected by the transformer.
#[derive(Debug, Clone, PartialEq, Eq)]
pub enum TransformError {
    /// A top-level field is not in the recognized set; carries the key.
    UnexpectedField(Vec<u8>),
    /// The named field must be a plain string but is not.
    NotAString(Vec<u8>),
    /// Path-deriving mode requires a `date` field.
    MissingDate,
    /// The `date` value is not of the exact `YYYY-MM-DD` form.
    BadDatePattern,
    /// Path-deriving mode with no `slug` needs a string `title`.
    MissingTitle,
    /// The named grouping field is neither a string nor an array.
    TaxonomyShape(Vec<u8>),
}

/// The mathematical form of a transformer error.
#[verifier::ext_equal]
pub enum TransformErrorV {
    UnexpectedField(Seq<u8>),
    NotAString(Seq<u8>),
    MissingDate,
    BadDatePattern,
    MissingTitle,
    TaxonomyShape(Seq<u8>),
}

impl View for TransformError {
    type V = TransformErrorV;

    open spec fn view(&self) -> TransformErrorV {
        match self {
            TransformError::UnexpectedField(k) => TransformErrorV::UnexpectedField(k@),
            TransformError::NotAString(k) => TransformErrorV::NotAString(k@),
            TransformError::MissingDate => TransformErrorV::MissingDate,
            TransformError::BadDatePattern => TransformErrorV::BadDatePattern,
            TransformError::MissingTitle => TransformErrorV::MissingTitle,
            TransformError::TaxonomyShape(k) => TransformErrorV::TaxonomyShape(k@),
        }
    }
}

/// The components of the derived publication path.
#[derive(Debug, Clone, PartialEq, Eq)]
pub struct PathParts {
    pub year: Vec<u8>,
    pub month: Vec<u8>,
    pub day: Vec<u8>,
    pub slug: Vec<u8>,
}

/// The mathematical form of the path components.
#[verifier::ext_equal]
pub struct PathPartsV {
    pub year: Seq<u8>,
    pub month: Seq<u8>,
    pub day: Seq<u8>,
    pub slug: Seq<u8>,
}

impl View for PathParts {
    type V = PathPartsV;

    open spec fn view(&self) -> PathPartsV {
        PathPartsV { year: self.year@, month: self.month@, day: self.day@, slug: self.slug@ }
    }
}

/// What a successful transformation yields: the rewritten document,
/// whether the declared date disagreed with the authoritative one, and,
/// in path-deriving mode, the path components.
#[derive(Debug, Clone, PartialEq, Eq)]
pub struct Outcome {
    pub doc: Doc,
    pub date_mismatch: bool,
    pub path_parts: Option<PathParts>,
}

/// The mathematical form of an outcome.
#[verifier::ext_equal]
pub struct OutcomeV {
    pub doc: DocV,
    pub date_mismatch: bool,
    pub path_parts: Option<PathPartsV>,
}

impl View for Outcome {
    type V = OutcomeV;

    open spec fn view(&self) -> OutcomeV {
        OutcomeV {
            doc: self.doc@,
            date_mismatch: self.date_mismatch,
            path_parts: match self.path_parts {
                Some(p) => Some(p@),
                None => None,
            },
        }
    }
}

/// The view of an optional byte string.
pub open spec fn opt_view(o: Option<Vec<u8>>) -> Option<Seq<u8>> {
    match o {
        Some(u) => Some(u@),
        None => None,
    }
}

/// The view of optional path components.
pub open spec fn parts_view(o: Option<PathParts>) -> Option<PathPartsV> {
    match o {
        Some(p) => Some(p@),
        None => None,
    }
}

/// What `heck`'s kebab-case conversion returns for the given bytes.
pub uninterp spec fn kebab_of(s: Seq<u8>) -> Seq<u8>;

/// Relies on heck's `ToKebabCase::to_kebab_case`: a lower-cased,
/// hyphen-separated form of the input, a function of the input
/// characters alone.
#[verifier::external_body]
fn kebab_exec(s: &[u8]) -> (r: Vec<u8>)
    ensures
        r@ == kebab_of(s@),
{
    let text = String::from_utf8_lossy(s);
    heck::ToKebabCase::to_kebab_case(text.as_ref()).into_bytes()
}

/// The recognized input fields: `date`, `title`, `author`, `categories`,
/// and, in path-deriving mode only, `slug`.
pub open spec fn is_recognized(mode: Mode, k: Seq<u8>) -> bool {
    k == spec_key_date() || k == spec_key_title() || k == spec_key_author() || k
        == spec_key_categories() || (mode == Mode::PathDeriving && k == spec_key_slug())
}

/// The key of the first entry at or after `i` that is not recognized.
pub open spec fn first_unrec_from(d: DocV, mode: Mode, i: int) -> Option<Seq<u8>>
    decreases d.len() - i,
{
    if i < 0 || i >= d.len() {
        None
    } else if !is_recognized(mode, d[i].0) {
        Some(d[i].0)
    } else {
        first_unrec_from(d, mode, i + 1)
    }
}

/// What `first_unrec_from` returns: the key of some unrecognized entry,
/// or none when every entry from `i` on is recognized.
pub proof fn lemma_first_unrec(d: DocV, mode: Mode, i: int)
    requires
        0 <= i <= d.len(),
    ensures
        match first_unrec_from(d, mode, i) {
            Some(k) => !is_recognized(mode, k) && exists|j: int|
                i <= j < d.len() && d[j].0 == k,
            None => forall|j: int| i <= j < d.len() ==> is_recognized(mode, d[j].0),
        },
    decreases d.len() - i,
{
    if i < d.len() && is_recognized(mode, d[i].0) {
        lemma_first_unrec(d, mode, i + 1);
    }
}

/// An ASCII decimal digit.
pub open spec fn is_digit(b: u8) -> bool {
    48 <= b <= 57
}

/// The exact `YYYY-MM-DD` shape: digits with hyphens after the year and
/// the month.
pub open spec fn date_pattern(s: Seq<u8>) -> bool {
    s.len() == 10 && is_digit(s[0]) && is_digit(s[1]) && is_digit(s[2]) && is_digit(s[3]) && s[4]
        == 45 && is_digit(s[5]) && is_digit(s[6]) && s[7] == 45 && is_digit(s[8]) && is_digit(s[9])
}

/// Whether `p` is a prefix of `s`.
pub open spec fn is_prefix(p: Seq<u8>, s: Seq<u8>) -> bool {
    p.len() <= s.len() && s.subrange(0, p.len() as int) == p
}

/// The publication path `/blog/{year}/{month}/{day}/{slug}`.
pub open spec fn path_of(y: Seq<u8>, m: Seq<u8>, d: Seq<u8>, slug: Seq<u8>) -> Seq<u8> {
    spec_blog_prefix() + y + seq![47u8] + m + seq![47u8] + d + seq![47u8] + slug
}

/// The storage location `{year}/{month}/{year}-{month}-{day}-{slug}`.
pub open spec fn storage_of(y: Seq<u8>, m: Seq<u8>, d: Seq<u8>, slug: Seq<u8>) -> Seq<u8> {
    y + seq![47u8] + m + seq![47u8] + y + seq![45u8] + m + seq![45u8] + d + seq![45u8] + slug
}

/// The authoritative timestamps written into the document: nothing on a
/// mismatch; otherwise `date` from the created timestamp and, when one
/// is known, `updated`.
pub open spec fn insert_auth(d: DocV, mismatch: bool, cnorm: Seq<u8>, unorm: Option<Seq<u8>>) -> DocV {
    if mismatch {
        d
    } else {
        let d1 = d.push((spec_key_date(), ValueV::Str(cnorm)));
        match unorm {
            Some(u) => d1.push((spec_key_updated(), ValueV::Str(u))),
            None => d1,
        }
    }
}

/// One grouping field folded into `taxonomies`: a string becomes a
/// one-element array, an array passes through, anything else is
/// rejected; the result lands under `dst` in the nested mapping.
pub open spec fn tax_one(d: DocV, src: Seq<u8>, dst: Seq<u8>) -> Result<DocV, TransformErrorV> {
    if !has_key(d, src) {
        Ok(d)
    } else {
        let coerced = match value_of(d, src) {
            ValueV::Str(s) => Some(seq![s]),
            ValueV::Arr(a) => Some(a),
            ValueV::Table(m) => None::<Seq<Seq<u8>>>,
        };
        match coerced {
            None => Err(TransformErrorV::TaxonomyShape(src)),
            Some(a) => {
                let d1 = remove_key(d, src);
                if has_key(d1, spec_key_taxonomies()) {
                    match value_of(d1, spec_key_taxonomies()) {
                        ValueV::Table(m) => Ok(
                            set_key(d1, spec_key_taxonomies(), ValueV::Table(m.push((dst, a)))),
                        ),
                        _ => Err(TransformErrorV::TaxonomyShape(spec_key_taxonomies())),
                    }
                } else {
                    Ok(d1.push((spec_key_taxonomies(), ValueV::Table(seq![(dst, a)]))))
                }
            },
        }
    }
}

/// The taxonomy step over both grouping fields, and the final outcome.
pub open spec fn tax_step(d: DocV, mismatch: bool, parts: Option<PathPartsV>) -> Result<
    OutcomeV,
    TransformErrorV,
> {
    match tax_one(d, spec_key_author(), spec_key_author()) {
        Err(e) => Err(e),
        Ok(d1) => match tax_one(d1, spec_key_categories(), spec_key_category()) {
            Err(e) => Err(e),
            Ok(d2) => Ok(OutcomeV { doc: d2, date_mismatch: mismatch, path_parts: parts }),
        },
    }
}

/// The path step: `path` appended, then the taxonomy step.
pub open spec fn path_step(
    d: DocV,
    mismatch: bool,
    y: Seq<u8>,
    m: Seq<u8>,
    dy: Seq<u8>,
    slug: Seq<u8>,
) -> Result<OutcomeV, TransformErrorV> {
    tax_step(
        d.push((spec_key_path(), ValueV::Str(path_of(y, m, dy, slug)))),
        mismatch,
        Some(PathPartsV { year: y, month: m, day: dy, slug: slug }),
    )
}

/// The slug step: a present `slug` must be a string and is taken out and
/// used verbatim; otherwise the slug is the kebab-cased string `title`.
pub open spec fn slug_step(d: DocV, mismatch: bool, y: Seq<u8>, m: Seq<u8>, dy: Seq<u8>) -> Result<
    OutcomeV,
    TransformErrorV,
> {
    if has_key(d, spec_key_slug()) {
        match value_of(d, spec_key_slug()) {
            ValueV::Str(s) => path_step(remove_key(d, spec_key_slug()), mismatch, y, m, dy, s),
            _ => Err(TransformErrorV::NotAString(spec_key_slug())),
        }
    } else if has_key(d, spec_key_title()) {
        match value_of(d, spec_key_title()) {
            ValueV::Str(t) => path_step(d, mismatch, y, m, dy, kebab_of(t)),
            _ => Err(TransformErrorV::NotAString(spec_key_title())),
        }
    } else {
        Err(TransformErrorV::MissingTitle)
    }
}

/// The date step. Path-deriving mode: `date` is required, must be a
/// string of the exact `YYYY-MM-DD` shape, is always taken out, and its
/// components drive the path; generic mode: a present `date` must be a
/// string and is taken out. In both modes the declared date must be a
/// prefix of the authoritative created timestamp; on a mismatch the
/// authoritative timestamps are suppressed.
pub open spec fn date_step(
    d: DocV,
    mode: Mode,
    craw: Seq<u8>,
    cnorm: Seq<u8>,
    unorm: Option<Seq<u8>>,
) -> Result<OutcomeV, TransformErrorV> {
    if mode == Mode::PathDeriving {
        if !has_key(d, spec_key_date()) {
            Err(TransformErrorV::MissingDate)
        } else {
            match value_of(d, spec_key_date()) {
                ValueV::Str(s) => if !date_pattern(s) {
                    Err(TransformErrorV::BadDatePattern)
                } else {
                    let mm = !is_prefix(s, craw);
                    slug_step(
                        insert_auth(remove_key(d, spec_key_date()), mm, cnorm, unorm),
                        mm,
                        s.subrange(0, 4),
                        s.subrange(5, 7),
                        s.subrange(8, 10),
                    )
                },
                _ => Err(TransformErrorV::NotAString(spec_key_date())),
            }
        }
    } else {
        if has_key(d, spec_key_date()) {
            match value_of(d, spec_key_date()) {
                ValueV::Str(s) => {
                    let mm = !is_prefix(s, craw);
                    tax_step(insert_auth(remove_key(d, spec_key_date()), mm, cnorm, unorm), mm, None)
                },
                _ => Err(TransformErrorV::NotAString(spec_key_date())),
            }
        } else {
            tax_step(insert_auth(d, false, cnorm, unorm), false, None)
        }
    }
}

/// What transforming a document yields: the first unrecognized field is
/// rejected; otherwise the date, slug/path and taxonomy steps run in
/// order.
pub open spec fn transform_spec(
    d: DocV,
    mode: Mode,
    craw: Seq<u8>,
    cnorm: Seq<u8>,
    unorm: Option<Seq<u8>>,
) -> Result<OutcomeV, TransformErrorV> {
    match first_unrec_from(d, mode, 0) {
        Some(k) => Err(TransformErrorV::UnexpectedField(k)),
        None => date_step(d, mode, craw, cnorm, unorm),
    }
}

/// The field names, pairwise distinct.
pub proof fn lemma_keys_distinct()
    ensures
        spec_key_date() != spec_key_updated(),
        spec_key_date() != spec_key_title(),
        spec_key_date() != spec_key_author(),
        spec_key_date() != spec_key_categories(),
        spec_key_date() != spec_key_slug(),
        spec_key_date() != spec_key_path(),
        spec_key_date() != spec_key_taxonomies(),
        spec_key_updated() != spec_key_title(),
        spec_key_updated() != spec_key_author(),
        spec_key_updated() != spec_key_categories(),
        spec_key_updated() != spec_key_slug(),
        spec_key_updated() != spec_key_path(),
        spec_key_updated() != spec_key_taxonomies(),
        spec_key_title() != spec_key_author(),
        spec_key_title() != spec_key_categories(),
        spec_key_title() != spec_key_slug(),
        spec_key_title() != spec_key_path(),
        spec_key_title() != spec_key_taxonomies(),
        spec_key_author() != spec_key_categories(),
        spec_key_author() != spec_key_slug(),
        spec_key_author() != spec_key_path(),
        spec_key_author() != spec_key_taxonomies(),
        spec_key_categories() != spec_key_slug(),
        spec_key_categories() != spec_key_path(),
        spec_key_categories() != spec_key_taxonomies(),
        spec_key_slug() != spec_key_path(),
        spec_key_slug() != spec_key_taxonomies(),
        spec_key_path() != spec_key_taxonomies(),
{
    assert(spec_key_date().len() == 4);
    assert(spec_key_updated().len() == 7);
    assert(spec_key_title().len() == 5);
    assert(spec_key_author().len() == 6);
    assert(spec_key_categories().len() == 10);
    assert(spec_key_slug().len() == 4);
    assert(spec_key_path().len() == 4);
    assert(spec_key_taxonomies().len() == 10);
    assert(spec_key_date()[0] == 100);
    assert(spec_key_slug()[0] == 115);
    assert(spec_key_path()[0] == 112);
    assert(spec_key_categories()[0] == 99);
    assert(spec_key_taxonomies()[0] == 116);
}

/// An ASCII decimal digit.
fn is_digit_exec(b: u8) -> (r: bool)
    ensures
        r == is_digit(b),
{
    48 <= b && b <= 57
}

/// Whether `k` is recognized in the given mode.
fn is_recognized_exec(mode: Mode, k: &[u8]) -> (r: bool)
    ensures
        r == is_recognized(mode, k@),
{
    if bytes_eq(k, key_date().as_slice()) {
        return true;
    }
    if bytes_eq(k, key_title().as_slice()) {
        return true;
    }
    if bytes_eq(k, key_author().as_slice()) {
        return true;
    }
    if bytes_eq(k, key_categories().as_slice()) {
        return true;
    }
    if matches!(mode, Mode::PathDeriving) && bytes_eq(k, key_slug().as_slice()) {
        return true;
    }
    false
}

/// A copy of a byte slice.
fn copy_bytes(s: &[u8]) -> (r: Vec<u8>)
    ensures
        r@ == s@,
{
    let mut r: Vec<u8> = Vec::new();
    push_all(&mut r, s);
    r
}

/// A copy of `s[a..b]`.
fn subvec(s: &[u8], a: usize, b: usize) -> (r: Vec<u8>)
    requires
        a <= b <= s@.len(),
    ensures
        r@ == s@.subrange(a as int, b as int),
{
    copy_bytes(&s[a..b])
}

/// A copy of an array of byte strings.
fn copy_strings(v: &Vec<Vec<u8>>) -> (r: Vec<Vec<u8>>)
    ensures
        r@.map_values(|x: Vec<u8>| x@) == v@.map_values(|x: Vec<u8>| x@),
{
    let n = v.len();
    let mut out: Vec<Vec<u8>> = Vec::new();
    let mut i: usize = 0;
    while i < n
        invariant
            0 <= i <= n,
            n == v@.len(),
            out@.len() == i,
            forall|j: int| 0 <= j < i ==> out@[j]@ == v@[j]@,
        decreases n - i,
    {
        out.push(copy_bytes(v[i].as_slice()));
        i += 1;
    }
    proof {
        assert(out@.map_values(|x: Vec<u8>| x@) =~= v@.map_values(|x: Vec<u8>| x@));
    }
    out
}

/// A copy of a nested mapping's entries.
fn copy_table(m: &Vec<MapEntry>) -> (r: Vec<MapEntry>)
    ensures
        r@.map_values(|e: MapEntry| e@) == m@.map_values(|e: MapEntry| e@),
{
    let n = m.len();
    let mut out: Vec<MapEntry> = Vec::new();
    let mut i: usize = 0;
    while i < n
        invariant
            0 <= i <= n,
            n == m@.len(),
            out@.len() == i,
            forall|j: int| 0 <= j < i ==> out@[j]@ == m@[j]@,
        decreases n - i,
    {
        let key = copy_bytes(m[i].key.as_slice());
        let items = copy_strings(&m[i].items);
        out.push(MapEntry { key, items });
        i += 1;
    }
    proof {
        assert(out@.map_values(|e: MapEntry| e@) =~= m@.map_values(|e: MapEntry| e@));
    }
    out
}

/// Folds one grouping field into `taxonomies`, as `tax_one` says.
fn convert_taxonomy(doc: &mut Doc, src: &[u8], dst: &[u8]) -> (r: Result<(), TransformError>)
    requires
        old(doc).wf(),
    ensures
        match r {
            Ok(()) => tax_one(old(doc)@, src@, dst@) == Ok::<DocV, TransformErrorV>(final(doc)@)
                && final(doc).wf(),
            Err(e) => tax_one(old(doc)@, src@, dst@) == Err::<DocV, TransformErrorV>(e@),
        },
{
    let removed = doc.remove(src);
    proof {
        lemma_remove_key(old(doc)@, src@);
    }
    let arr: Vec<Vec<u8>> = match removed {
        None => {
            return Ok(());
        },
        Some(Value::Table(_)) => {
            return Err(TransformError::TaxonomyShape(copy_bytes(src)));
        },
        Some(Value::Str(s)) => {
            let mut a: Vec<Vec<u8>> = Vec::new();
            a.push(s);
            proof {
                assert(a@.map_values(|x: Vec<u8>| x@) =~= seq![value_of(old(doc)@, src@)->Str_0]);
            }
            a
        },
        Some(Value::Arr(a)) => a,
    };
    let ghost coerced = arr@.map_values(|x: Vec<u8>| x@);
    let ghost d1 = doc@;
    let ktax = key_taxonomies();
    let tax_current = doc.get(ktax.as_slice());
    match tax_current {
        Some(Value::Table(m)) => {
            let mut m2 = copy_table(m);
            m2.push(MapEntry { key: copy_bytes(dst), items: arr });
            let ghost mv = value_of(d1, spec_key_taxonomies())->Table_0;
            proof {
                assert(m2@.map_values(|e: MapEntry| e@) =~= mv.push((dst@, coerced)));
                lemma_set_key(d1, spec_key_taxonomies(), ValueV::Table(mv.push((dst@, coerced))));
            }
            doc.set_value(ktax.as_slice(), Value::Table(m2));
            Ok(())
        },
        Some(_) => Err(TransformError::TaxonomyShape(key_taxonomies())),
        None => {
            let mut table: Vec<MapEntry> = Vec::new();
            table.push(MapEntry { key: copy_bytes(dst), items: arr });
            proof {
                assert(table@.map_values(|e: MapEntry| e@) =~= seq![(dst@, coerced)]);
                lemma_push_key(d1, spec_key_taxonomies(), ValueV::Table(seq![(dst@, coerced)]));
            }
            doc.push_kv(key_taxonomies(), Value::Table(table));
            Ok(())
        },
    }
}

/// Writes the authoritative timestamps, as `insert_auth` says.
fn insert_authoritative(doc: &mut Doc, mismatch: bool, cnorm: Vec<u8>, unorm: Option<Vec<u8>>)
    requires
        old(doc).wf(),
        !has_key(old(doc)@, spec_key_date()),
        !has_key(old(doc)@, spec_key_updated()),
    ensures
        final(doc)@ == insert_auth(old(doc)@, mismatch, cnorm@, opt_view(unorm)),
        final(doc).wf(),
        forall|k2: Seq<u8>|
            k2 != spec_key_date() && k2 != spec_key_updated() ==> has_key(final(doc)@, k2)
                == has_key(old(doc)@, k2),
{
    proof {
        lemma_keys_distinct();
    }
    if mismatch {
        return ;
    }
    proof {
        lemma_push_key(doc@, spec_key_date(), ValueV::Str(cnorm@));
    }
    doc.push_kv(key_date(), Value::Str(cnorm));
    match unorm {
        Some(u) => {
            proof {
                lemma_push_key(doc@, spec_key_updated(), ValueV::Str(u@));
            }
            doc.push_kv(key_updated(), Value::Str(u));
        },
        None => {},
    }
}

/// Transforms one parsed document, as `transform_spec` says, against the
/// authoritative created timestamp `created_raw`, its normalized form
/// `created_norm`, and the optional normalized updated timestamp.
pub fn transform(
    doc: Doc,
    mode: Mode,
    created_raw: &Vec<u8>,
    created_norm: Vec<u8>,
    updated_norm: Option<Vec<u8>>,
) -> (r: Result<Outcome, TransformError>)
    requires
        doc.wf(),
    ensures
        match r {
            Ok(o) => transform_spec(doc@, mode, created_raw@, created_norm@, opt_view(updated_norm))
                == Ok::<OutcomeV, TransformErrorV>(o@) && o.doc.wf(),
            Err(e) => transform_spec(
                doc@,
                mode,
                created_raw@,
                created_norm@,
                opt_view(updated_norm),
            ) == Err::<OutcomeV, TransformErrorV>(e@),
        },
{
    let ghost d0 = doc@;
    let ghost unv = opt_view(updated_norm);
    proof {
        lemma_keys_distinct();
    }
    let mut cur = doc;

    // step 1: reject the first unrecognized field
    let n = cur.entries.len();
    let mut i: usize = 0;
    while i < n
        invariant
            0 <= i <= n,
            d0 == doc@,
            unv == opt_view(updated_norm),
            cur@ == d0,
            n == cur.entries@.len(),
            n == d0.len(),
            first_unrec_from(d0, mode, 0) == first_unrec_from(d0, mode, i as int),
        decreases n - i,
    {
        let k = &cur.entries[i].key;
        if !is_recognized_exec(mode, k.as_slice()) {
            proof {
                assert(d0[i as int].0 == k@);
            }
            return Err(TransformError::UnexpectedField(copy_bytes(k.as_slice())));
        }
        proof {
            assert(d0[i as int].0 == k@);
        }
        i += 1;
    }
    proof {
        lemma_first_unrec(d0, mode, 0);
        assert(first_unrec_from(d0, mode, 0) is None);
        assert(!has_key(d0, spec_key_updated())) by {
            if has_key(d0, spec_key_updated()) {
                let j = choose|j: int| 0 <= j < d0.len() && d0[j].0 == spec_key_updated();
                assert(is_recognized(mode, spec_key_updated()));
            }
        }
        assert(!has_key(d0, spec_key_path())) by {
            if has_key(d0, spec_key_path()) {
                let j = choose|j: int| 0 <= j < d0.len() && d0[j].0 == spec_key_path();
                assert(is_recognized(mode, spec_key_path()));
            }
        }
        assert(!has_key(d0, spec_key_taxonomies())) by {
            if has_key(d0, spec_key_taxonomies()) {
                let j = choose|j: int| 0 <= j < d0.len() && d0[j].0 == spec_key_taxonomies();
                assert(is_recognized(mode, spec_key_taxonomies()));
            }
        }
    }

    // step 2: the date step
    let kdate = key_date();
    let mut mismatch: bool = false;
    let mut parts: Option<PathParts> = None;
    if matches!(mode, Mode::PathDeriving) {
        let ds = match cur.remove(kdate.as_slice()) {
            None => {
                return Err(TransformError::MissingDate);
            },
            Some(Value::Str(s)) => s,
            Some(_) => {
                return Err(TransformError::NotAString(key_date()));
            },
        };
        proof {
            lemma_remove_key(d0, spec_key_date());
        }
        if !(ds.len() == 10 && is_digit_exec(ds[0]) && is_digit_exec(ds[1]) && is_digit_exec(ds[2])
            && is_digit_exec(ds[3]) && ds[4] == 45 && is_digit_exec(ds[5]) && is_digit_exec(ds[6])
            && ds[7] == 45 && is_digit_exec(ds[8]) && is_digit_exec(ds[9])) {
            return Err(TransformError::BadDatePattern);
        }
        mismatch = !starts_with(created_raw.as_slice(), ds.as_slice());
        insert_authoritative(&mut cur, mismatch, created_norm, updated_norm);
        let ghost d2 = cur@;
        let year = subvec(ds.as_slice(), 0, 4);
        let month = subvec(ds.as_slice(), 5, 7);
        let day = subvec(ds.as_slice(), 8, 10);

        // step 3: the slug and path step
        let kslug = key_slug();
        let slug: Vec<u8> = match cur.remove(kslug.as_slice()) {
            Some(Value::Str(s)) => {
                proof {
                    lemma_remove_key(d2, spec_key_slug());
                }
                s
            },
            Some(_) => {
                return Err(TransformError::NotAString(key_slug()));
            },
            None => {
                proof {
                    lemma_key_index(d2, spec_key_slug());
                    assert(cur@ == d2);
                    assert(transform_spec(d0, mode, created_raw@, created_norm@, unv) == slug_step(
                        d2,
                        mismatch,
                        ds@.subrange(0, 4),
                        ds@.subrange(5, 7),
                        ds@.subrange(8, 10),
                    ));
                }
                match cur.get(key_title().as_slice()) {
                    Some(Value::Str(t)) => kebab_exec(t.as_slice()),
                    Some(_) => {
                        return Err(TransformError::NotAString(key_title()));
                    },
                    None => {
                        return Err(TransformError::MissingTitle);
                    },
                }
            },
        };
        let ghost d3 = cur@;
        let mut path_bytes: Vec<u8> = crate::keys::blog_prefix();
        push_all(&mut path_bytes, year.as_slice());
        path_bytes.push(47);
        push_all(&mut path_bytes, month.as_slice());
        path_bytes.push(47);
        push_all(&mut path_bytes, day.as_slice());
        path_bytes.push(47);
        push_all(&mut path_bytes, slug.as_slice());
        let ghost yv = year@;
        let ghost mv = month@;
        let ghost dv = day@;
        let ghost sv = slug@;
        proof {
            lemma_keys_distinct();
            assert(path_bytes@ =~= path_of(year@, month@, day@, slug@));
            assert(!has_key(d3, spec_key_path()));
            lemma_push_key(d3, spec_key_path(), ValueV::Str(path_bytes@));
        }
        cur.push_kv(key_path(), Value::Str(path_bytes));
        parts = Some(PathParts { year, month, day, slug });
        proof {
            assert(date_step(d0, mode, created_raw@, created_norm@, unv) == slug_step(
                d2,
                mismatch,
                yv,
                mv,
                dv,
            ));
            assert(slug_step(d2, mismatch, yv, mv, dv) == path_step(d3, mismatch, yv, mv, dv, sv));
            assert(parts_view(parts) =~~= Some(PathPartsV { year: yv, month: mv, day: dv, slug: sv }));
            assert(transform_spec(d0, mode, created_raw@, created_norm@, unv) == tax_step(
                cur@,
                mismatch,
                parts_view(parts),
            ));
        }
    } else {
        match cur.remove(kdate.as_slice()) {
            None => {
                proof {
                    lemma_key_index(d0, spec_key_date());
                    assert(cur@ == d0);
                }
                insert_authoritative(&mut cur, false, created_norm, updated_norm);
            },
            Some(Value::Str(ds)) => {
                proof {
                    lemma_remove_key(d0, spec_key_date());
                }
                mismatch = !starts_with(created_raw.as_slice(), ds.as_slice());
                insert_authoritative(&mut cur, mismatch, created_norm, updated_norm);
            },
            Some(_) => {
                return Err(TransformError::NotAString(key_date()));
            },
        }
        proof {
            assert(transform_spec(d0, mode, created_raw@, created_norm@, unv) == tax_step(
                cur@,
                mismatch,
                parts_view(parts),
            ));
        }
    }

    // step 4: the taxonomy step
    let ghost d4 = cur@;
    let kauthor = key_author();
    match convert_taxonomy(&mut cur, kauthor.as_slice(), kauthor.as_slice()) {
        Ok(()) => {},
        Err(e) => {
            return Err(e);
        },
    }
    let kcat = key_categories();
    let kcategory = key_category();
    match convert_taxonomy(&mut cur, kcat.as_slice(), kcategory.as_slice()) {
        Ok(()) => {},
        Err(e) => {
            return Err(e);
        },
    }
    let outcome = Outcome { doc: cur, date_mismatch: mismatch, path_parts: parts };
    proof {
        assert(outcome@ =~~= OutcomeV {
            doc: cur@,
            date_mismatch: mismatch,
            path_parts: parts_view(parts),
        });
        assert(transform_spec(d0, mode, created_raw@, created_norm@, unv) == Ok::<
            OutcomeV,
            TransformErrorV,
        >(outcome@));
    }
    Ok(outcome)
}

/// The storage location of the output artifact, as `storage_of` says.
pub fn storage_path(p: &PathParts) -> (r: Vec<u8>)
    ensures
        r@ == storage_of(p.year@, p.month@, p.day@, p.slug@),
{
    let mut r: Vec<u8> = Vec::new();
    push_all(&mut r, p.year.as_slice());
    r.push(47);
    push_all(&mut r, p.month.as_slice());
    r.push(47);
    push_all(&mut r, p.year.as_slice());
    r.push(45);
    push_all(&mut r, p.month.as_slice());
    r.push(45);
    push_all(&mut r, p.day.as_slice());
    r.push(45);
    push_all(&mut r, p.slug.as_slice());
    proof {
        assert(r@ =~= storage_of(p.year@, p.month@, p.day@, p.slug@));
    }
    r
}

} // verus!
