use frontmatter::parse::{parse_document, ParseError};
use frontmatter::pipeline::{process_document, PipelineError};
use frontmatter::render::render_document;
use frontmatter::split::{split_document, SplitError};
use frontmatter::timestamps::select_timestamps;
use frontmatter::transform::{storage_path, transform, Mode, TransformError};
use frontmatter::value::{Doc, Entry, MapEntry, Value};

fn b(s: &str) -> Vec<u8> {
    s.as_bytes().to_vec()
}

fn doc_of(pairs: Vec<(&str, Value)>) -> Doc {
    let mut entries = Vec::new();
    for (k, v) in pairs {
        entries.push(Entry { key: b(k), value: v });
    }
    Doc { entries }
}

fn get<'a>(doc: &'a Doc, k: &str) -> Option<&'a Value> {
    doc.get(k.as_bytes())
}

fn keys(doc: &Doc) -> Vec<String> {
    doc.entries.iter().map(|e| String::from_utf8(e.key.clone()).unwrap()).collect()
}

// --- header splitter ---

#[test]
fn split_basic() {
    let input = b("---\ntitle: Hi\n---\nbody line\nsecond");
    let rd = split_document(&input).unwrap();
    assert_eq!(rd.header, b("title: Hi\n"));
    assert_eq!(rd.body, b("body line\nsecond"));
}

#[test]
fn split_missing_delimiter() {
    assert_eq!(split_document(&b("no header")), Err(SplitError::MissingDelimiter));
    assert_eq!(split_document(&b("")), Err(SplitError::MissingDelimiter));
}

#[test]
fn split_unterminated() {
    assert_eq!(split_document(&b("---\nx: y\n")), Err(SplitError::UnterminatedHeader));
}

#[test]
fn split_body_verbatim() {
    // no trimming, no reflow: odd spacing and markdown pass through
    let input = b("---\nt: v\n---\n  indented\n\n* item  \ttab");
    let rd = split_document(&input).unwrap();
    assert_eq!(rd.body, b("  indented\n\n* item  \ttab"));
}

// --- metadata parser ---

#[test]
fn parse_scalars_and_quotes() {
    let d = parse_document(&b("title: Hello\na: \"Qd\"\nc: 'Qs'\n")).unwrap();
    assert_eq!(get(&d, "title"), Some(&Value::Str(b("Hello"))));
    assert_eq!(get(&d, "a"), Some(&Value::Str(b("Qd"))));
    assert_eq!(get(&d, "c"), Some(&Value::Str(b("Qs"))));
}

#[test]
fn parse_flow_array() {
    let d = parse_document(&b("categories: [foo, \"bar\"]\nempty: []\n")).unwrap();
    assert_eq!(get(&d, "categories"), Some(&Value::Arr(vec![b("foo"), b("bar")])));
    assert_eq!(get(&d, "empty"), Some(&Value::Arr(vec![])));
}

#[test]
fn parse_skips_blank_lines() {
    let d = parse_document(&b("a: 1\n\n   \nb: 2\n")).unwrap();
    assert_eq!(d.entries.len(), 2);
}

#[test]
fn parse_missing_colon() {
    assert_eq!(parse_document(&b("just text\n")), Err(ParseError::MissingColon));
}

#[test]
fn parse_empty_key() {
    assert_eq!(parse_document(&b(": x\n")), Err(ParseError::EmptyKey));
}

#[test]
fn parse_bad_value() {
    assert_eq!(parse_document(&b("a:\n")), Err(ParseError::BadValue));
    assert_eq!(parse_document(&b("a: [x\n")), Err(ParseError::BadValue));
}

#[test]
fn parse_duplicate_key() {
    assert_eq!(parse_document(&b("a: 1\na: 2\n")), Err(ParseError::DuplicateKey));
}

// --- transformer, generic mode ---

fn ts_raw() -> Vec<u8> {
    b("2024-01-05T10:00:00+00:00")
}

fn ts_norm() -> Vec<u8> {
    b("2024-01-05T10:00:00Z")
}

#[test]
fn well_typed_generic_succeeds() {
    let d = doc_of(vec![
        ("date", Value::Str(b("2024-01-05"))),
        ("title", Value::Str(b("Hi"))),
        ("author", Value::Str(b("ana"))),
        ("categories", Value::Arr(vec![b("foo"), b("bar")])),
    ]);
    let o = transform(d, Mode::Generic, &ts_raw(), ts_norm(), Some(b("2024-02-01T00:00:00Z")))
        .unwrap();
    assert!(!o.date_mismatch);
    assert!(o.path_parts.is_none());
    // only kept and computed fields remain, in document-then-insertion order
    assert_eq!(keys(&o.doc), vec!["title", "date", "updated", "taxonomies"]);
    assert_eq!(get(&o.doc, "date"), Some(&Value::Str(ts_norm())));
    assert_eq!(get(&o.doc, "updated"), Some(&Value::Str(b("2024-02-01T00:00:00Z"))));
}

#[test]
fn unexpected_field_rejected() {
    let d = doc_of(vec![("title", Value::Str(b("Hi"))), ("weird", Value::Str(b("x")))]);
    let e = transform(d, Mode::Generic, &ts_raw(), ts_norm(), None).unwrap_err();
    assert_eq!(e, TransformError::UnexpectedField(b("weird")));
}

#[test]
fn slug_unrecognized_in_generic_mode() {
    let d = doc_of(vec![("slug", Value::Str(b("s")))]);
    let e = transform(d, Mode::Generic, &ts_raw(), ts_norm(), None).unwrap_err();
    assert_eq!(e, TransformError::UnexpectedField(b("slug")));
}

#[test]
fn taxonomies_field_rejected_as_input() {
    let d = doc_of(vec![("taxonomies", Value::Table(vec![]))]);
    let e = transform(d, Mode::Generic, &ts_raw(), ts_norm(), None).unwrap_err();
    assert_eq!(e, TransformError::UnexpectedField(b("taxonomies")));
}

#[test]
fn categories_string_coerced() {
    let d = doc_of(vec![("categories", Value::Str(b("foo")))]);
    let o = transform(d, Mode::Generic, &ts_raw(), ts_norm(), None).unwrap();
    let tax = get(&o.doc, "taxonomies").unwrap();
    match tax {
        Value::Table(m) => {
            assert_eq!(m.len(), 1);
            assert_eq!(m[0], MapEntry { key: b("category"), items: vec![b("foo")] });
        },
        _ => panic!("taxonomies must be a nested mapping"),
    }
    assert!(get(&o.doc, "categories").is_none());
}

#[test]
fn categories_array_passes_through_in_order() {
    let d = doc_of(vec![("categories", Value::Arr(vec![b("foo"), b("bar")]))]);
    let o = transform(d, Mode::Generic, &ts_raw(), ts_norm(), None).unwrap();
    match get(&o.doc, "taxonomies").unwrap() {
        Value::Table(m) => {
            assert_eq!(m[0], MapEntry { key: b("category"), items: vec![b("foo"), b("bar")] });
        },
        _ => panic!("taxonomies must be a nested mapping"),
    }
}

#[test]
fn author_and_categories_grouped_together() {
    let d = doc_of(vec![
        ("author", Value::Str(b("ana"))),
        ("categories", Value::Str(b("foo"))),
    ]);
    let o = transform(d, Mode::Generic, &ts_raw(), ts_norm(), None).unwrap();
    match get(&o.doc, "taxonomies").unwrap() {
        Value::Table(m) => {
            assert_eq!(m.len(), 2);
            assert_eq!(m[0], MapEntry { key: b("author"), items: vec![b("ana")] });
            assert_eq!(m[1], MapEntry { key: b("category"), items: vec![b("foo")] });
        },
        _ => panic!("taxonomies must be a nested mapping"),
    }
}

#[test]
fn taxonomy_wrong_shape_rejected() {
    let d = doc_of(vec![("author", Value::Table(vec![]))]);
    let e = transform(d, Mode::Generic, &ts_raw(), ts_norm(), None).unwrap_err();
    assert_eq!(e, TransformError::TaxonomyShape(b("author")));
}

#[test]
fn date_prefix_match_inserts_normalized() {
    // created 2024-01-05T10:00:00+00:00 and declared 2024-01-05: a match
    let d = doc_of(vec![("date", Value::Str(b("2024-01-05")))]);
    let o = transform(d, Mode::Generic, &ts_raw(), ts_norm(), None).unwrap();
    assert!(!o.date_mismatch);
    assert_eq!(get(&o.doc, "date"), Some(&Value::Str(b("2024-01-05T10:00:00Z"))));
}

#[test]
fn date_mismatch_generic_removes_date() {
    // created 2024-01-05T... and declared 2024-01-06: a mismatch; generic
    // mode drops the date and suppresses both authoritative timestamps
    let d = doc_of(vec![("date", Value::Str(b("2024-01-06"))), ("title", Value::Str(b("Hi")))]);
    let o = transform(d, Mode::Generic, &ts_raw(), ts_norm(), Some(b("2024-02-01T00:00:00Z")))
        .unwrap();
    assert!(o.date_mismatch);
    assert!(get(&o.doc, "date").is_none());
    assert!(get(&o.doc, "updated").is_none());
    assert_eq!(keys(&o.doc), vec!["title"]);
}

#[test]
fn date_absent_generic_inserts_unconditionally() {
    let d = doc_of(vec![("title", Value::Str(b("Hi")))]);
    let o = transform(d, Mode::Generic, &ts_raw(), ts_norm(), Some(b("2024-02-01T00:00:00Z")))
        .unwrap();
    assert!(!o.date_mismatch);
    assert_eq!(get(&o.doc, "date"), Some(&Value::Str(ts_norm())));
    assert_eq!(get(&o.doc, "updated"), Some(&Value::Str(b("2024-02-01T00:00:00Z"))));
}

#[test]
fn date_not_a_string_rejected() {
    let d = doc_of(vec![("date", Value::Arr(vec![b("2024-01-05")]))]);
    let e = transform(d, Mode::Generic, &ts_raw(), ts_norm(), None).unwrap_err();
    assert_eq!(e, TransformError::NotAString(b("date")));
}

// --- transformer, path-deriving mode ---

#[test]
fn slug_derived_from_title() {
    // "Hello, World!" kebab-cases to hello-world
    let d = doc_of(vec![
        ("date", Value::Str(b("2024-03-07"))),
        ("title", Value::Str(b("Hello, World!"))),
    ]);
    let o = transform(d, Mode::PathDeriving, &b("2024-03-07T08:00:00+00:00"), b(
        "2024-03-07T08:00:00Z",
    ), None)
        .unwrap();
    let parts = o.path_parts.unwrap();
    assert_eq!(parts.slug, b("hello-world"));
    assert_eq!(parts.year, b("2024"));
    assert_eq!(parts.month, b("03"));
    assert_eq!(parts.day, b("07"));
    assert_eq!(get(&o.doc, "path"), Some(&Value::Str(b("/blog/2024/03/07/hello-world"))));
}

#[test]
fn slug_field_used_verbatim() {
    let d = doc_of(vec![
        ("date", Value::Str(b("2024-03-07"))),
        ("title", Value::Str(b("Hello, World!"))),
        ("slug", Value::Str(b("my-own-slug"))),
    ]);
    let o = transform(d, Mode::PathDeriving, &b("2024-03-07T08:00:00+00:00"), b(
        "2024-03-07T08:00:00Z",
    ), None)
        .unwrap();
    assert_eq!(o.path_parts.unwrap().slug, b("my-own-slug"));
    assert!(get(&o.doc, "slug").is_none());
}

#[test]
fn missing_date_rejected_in_path_mode() {
    let d = doc_of(vec![("title", Value::Str(b("Hi")))]);
    let e = transform(d, Mode::PathDeriving, &ts_raw(), ts_norm(), None).unwrap_err();
    assert_eq!(e, TransformError::MissingDate);
}

#[test]
fn bad_date_pattern_rejected() {
    for bad in ["2024-1-05", "2024/01/05", "24-01-055", "2024-01-0x"] {
        let d = doc_of(vec![("date", Value::Str(b(bad))), ("title", Value::Str(b("Hi")))]);
        let e = transform(d, Mode::PathDeriving, &ts_raw(), ts_norm(), None).unwrap_err();
        assert_eq!(e, TransformError::BadDatePattern, "{bad}");
    }
}

#[test]
fn missing_title_rejected_in_path_mode() {
    let d = doc_of(vec![("date", Value::Str(b("2024-03-07")))]);
    let e = transform(d, Mode::PathDeriving, &ts_raw(), ts_norm(), None).unwrap_err();
    assert_eq!(e, TransformError::MissingTitle);
}

#[test]
fn slug_not_a_string_rejected() {
    let d = doc_of(vec![
        ("date", Value::Str(b("2024-03-07"))),
        ("slug", Value::Arr(vec![])),
    ]);
    let e = transform(d, Mode::PathDeriving, &ts_raw(), ts_norm(), None).unwrap_err();
    assert_eq!(e, TransformError::NotAString(b("slug")));
}

#[test]
fn date_mismatch_path_mode_keeps_declared_path() {
    // mismatch suppresses the authoritative timestamps but the path is
    // still derived from the declared date
    let d = doc_of(vec![
        ("date", Value::Str(b("2024-01-06"))),
        ("title", Value::Str(b("Hi"))),
    ]);
    let o = transform(d, Mode::PathDeriving, &ts_raw(), ts_norm(), Some(b(
        "2024-02-01T00:00:00Z",
    )))
        .unwrap();
    assert!(o.date_mismatch);
    assert!(get(&o.doc, "date").is_none());
    assert!(get(&o.doc, "updated").is_none());
    assert_eq!(get(&o.doc, "path"), Some(&Value::Str(b("/blog/2024/01/06/hi"))));
}

#[test]
fn retransform_of_output_fails() {
    // folding the same source field twice is not supported: the computed
    // taxonomies field is rejected on a second pass
    let d = doc_of(vec![("categories", Value::Str(b("foo")))]);
    let o = transform(d, Mode::Generic, &ts_raw(), ts_norm(), None).unwrap();
    let e = transform(o.doc, Mode::Generic, &ts_raw(), ts_norm(), None).unwrap_err();
    assert!(matches!(e, TransformError::UnexpectedField(_)));
}

#[test]
fn storage_path_formula() {
    let d = doc_of(vec![
        ("date", Value::Str(b("2024-03-07"))),
        ("title", Value::Str(b("Hello, World!"))),
    ]);
    let o = transform(d, Mode::PathDeriving, &b("2024-03-07T08:00:00+00:00"), b(
        "2024-03-07T08:00:00Z",
    ), None)
        .unwrap();
    let parts = o.path_parts.unwrap();
    assert_eq!(storage_path(&parts), b("2024/03/2024-03-07-hello-world"));
}

// --- serializer ---

#[test]
fn render_exact_output() {
    let d = doc_of(vec![
        ("title", Value::Str(b("Hi"))),
        ("categories", Value::Arr(vec![b("foo"), b("bar")])),
        (
            "taxonomies",
            Value::Table(vec![MapEntry { key: b("category"), items: vec![b("foo")] }]),
        ),
    ]);
    let out = render_document(&d, b("Body").as_slice());
    let expected = "+++\ntitle = \"Hi\"\ncategories = [\"foo\", \"bar\"]\n[taxonomies]\ncategory = [\"foo\"]\n+++\nBody\n";
    assert_eq!(String::from_utf8(out).unwrap(), expected);
}

#[test]
fn render_escapes_quotes_and_backslashes() {
    let d = doc_of(vec![("title", Value::Str(b("a\"b\\c")))]);
    let out = render_document(&d, b("").as_slice());
    assert_eq!(String::from_utf8(out).unwrap(), "+++\ntitle = \"a\\\"b\\\\c\"\n+++\n\n");
}

// --- timestamp selection ---

#[test]
fn timestamps_empty_history() {
    assert_eq!(select_timestamps(&vec![]), None);
}

#[test]
fn timestamps_single_entry() {
    let r = select_timestamps(&vec![b("2024-01-05T10:00:00+00:00")]).unwrap();
    assert_eq!(r.created, b("2024-01-05T10:00:00+00:00"));
    assert_eq!(r.updated, None);
}

#[test]
fn timestamps_newest_first_distinct() {
    let r = select_timestamps(&vec![b("2024-02-01"), b("2024-01-15"), b("2024-01-01")]).unwrap();
    assert_eq!(r.created, b("2024-02-01"));
    assert_eq!(r.updated, Some(b("2024-01-01")));
}

#[test]
fn timestamps_equal_entries_collapse() {
    let r = select_timestamps(&vec![b("2024-01-01"), b("2024-01-01")]).unwrap();
    assert_eq!(r.updated, None);
}

// --- the whole pipeline ---

#[test]
fn process_end_to_end_generic() {
    let input = b("---\ndate: 2024-01-05\ntitle: Hi\ncategories: \"foo\"\n---\nHello *world*\n");
    let o = process_document(&input, Mode::Generic, &ts_raw(), ts_norm(), None).unwrap();
    assert!(!o.date_mismatch);
    let expected = "+++\ntitle = \"Hi\"\ndate = \"2024-01-05T10:00:00Z\"\n[taxonomies]\ncategory = [\"foo\"]\n+++\nHello *world*\n";
    assert_eq!(String::from_utf8(o.rendered).unwrap(), expected);
}

#[test]
fn process_body_round_trip() {
    // the body is passed through byte for byte; only the framing changes
    let body = "line one\n\n  code  block\nlast";
    let input = format!("---\ntitle: T\n---\n{body}");
    let o = process_document(input.as_bytes(), Mode::Generic, &ts_raw(), ts_norm(), None).unwrap();
    let rendered = String::from_utf8(o.rendered).unwrap();
    assert!(rendered.ends_with(&format!("+++\n{body}\n")));
}

#[test]
fn process_reports_stage_errors() {
    let e = process_document(&b("x"), Mode::Generic, &ts_raw(), ts_norm(), None).unwrap_err();
    assert_eq!(e, PipelineError::Split(SplitError::MissingDelimiter));
    let e = process_document(&b("---\nbad\n---\n"), Mode::Generic, &ts_raw(), ts_norm(), None)
        .unwrap_err();
    assert_eq!(e, PipelineError::Parse(ParseError::MissingColon));
    let e = process_document(&b("---\nzz: 1\n---\n"), Mode::Generic, &ts_raw(), ts_norm(), None)
        .unwrap_err();
    assert_eq!(e, PipelineError::Transform(TransformError::UnexpectedField(b("zz"))));
}
