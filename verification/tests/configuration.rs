use bytes::Bytes;
use pymulter::{ChunkStream, ConstraintWrapper, SizeLimitWrapper};

fn text(s: &str) -> String {
    s.to_string()
}

fn sorted(mut entries: Vec<(String, u64)>) -> Vec<(String, u64)> {
    entries.sort();
    entries
}

#[test]
fn test_size_limit_wrapper_to_size_limit() {
    let fields = vec![(Some("file".to_string()), Some(500u64))];
    let wrapper = SizeLimitWrapper::new(Some(1000), Some(100), Some(fields));
    let sl = wrapper.to_size_limit();
    let debug = format!("{:?}", sl);
    assert!(debug.contains("whole_stream: 1000"));
    assert!(debug.contains("per_field: 100"));
    assert!(debug.contains("field_map: {\"file\": 500}"));
}

#[test]
fn test_constraint_wrapper_to_constraints() {
    let size_limit = SizeLimitWrapper::new(Some(1000), Some(100), None);
    let wrapper = ConstraintWrapper::new(
        Some(size_limit.clone()),
        Some(vec![Some("file".to_string()), Some("desc".to_string())]),
    )
    .unwrap();
    let cons = wrapper.to_constraints();
    let debug = format!("{:?}", cons);
    assert!(debug.contains("whole_stream: 1000"));
    assert!(debug.contains("per_field: 100"));
    assert!(debug.contains("allowed_fields: Some([\"file\", \"desc\"])"));
}

#[test]
fn limits_that_are_not_given_are_the_largest_number() {
    let limits = SizeLimitWrapper::new(None, None, None);
    assert_eq!(limits.whole_stream(), None);
    assert_eq!(limits.per_field(), None);
    assert!(limits.fields().is_empty());
    assert_eq!(
        format!("{:?}", limits.to_size_limit()),
        "SizeLimit { whole_stream: 18446744073709551615, per_field: 18446744073709551615, field_map: {} }"
    );
}

#[test]
fn general_limits_are_independent_of_each_other() {
    let whole = SizeLimitWrapper::new(Some(7), None, None);
    assert_eq!(whole.whole_stream(), Some(7));
    assert_eq!(whole.per_field(), None);
    assert_eq!(
        format!("{:?}", whole.to_size_limit()),
        "SizeLimit { whole_stream: 7, per_field: 18446744073709551615, field_map: {} }"
    );
    let field = SizeLimitWrapper::new(None, Some(0), None);
    assert_eq!(field.whole_stream(), None);
    assert_eq!(field.per_field(), Some(0));
    assert_eq!(
        format!("{:?}", field.to_size_limit()),
        "SizeLimit { whole_stream: 18446744073709551615, per_field: 0, field_map: {} }"
    );
}

#[test]
fn items_without_a_string_or_a_number_are_passed_over() {
    let items = vec![
        (Some(text("a")), Some(1)),
        (None, Some(2)),
        (Some(text("b")), None),
        (None, None),
        (Some(text("c")), Some(3)),
    ];
    let limits = SizeLimitWrapper::new(None, None, Some(items));
    assert_eq!(sorted(limits.fields()), vec![(text("a"), 1), (text("c"), 3)]);
}

#[test]
fn the_last_limit_for_a_name_counts_and_the_name_occurs_once() {
    let items = vec![
        (Some(text("a")), Some(1)),
        (Some(text("b")), Some(2)),
        (Some(text("a")), Some(3)),
        (Some(text("a")), None),
    ];
    let limits = SizeLimitWrapper::new(None, None, Some(items));
    assert_eq!(sorted(limits.fields()), vec![(text("a"), 3), (text("b"), 2)]);
    let debug = format!("{:?}", limits.to_size_limit());
    assert!(debug.contains("\"a\": 3"));
    assert!(debug.contains("\"b\": 2"));
    assert!(!debug.contains("\"a\": 1"));
}

#[test]
fn limits_made_from_their_own_entries_are_the_same() {
    let items = vec![(Some(text("a")), Some(1)), (Some(text("b")), Some(2))];
    let limits = SizeLimitWrapper::new(Some(5), Some(4), Some(items));
    let entries = limits.fields();
    let again = entries.into_iter().map(|(k, v)| (Some(k), Some(v))).collect();
    let rebuilt = SizeLimitWrapper::new(limits.whole_stream(), limits.per_field(), Some(again));
    assert_eq!(rebuilt.whole_stream(), Some(5));
    assert_eq!(rebuilt.per_field(), Some(4));
    assert_eq!(sorted(rebuilt.fields()), sorted(limits.fields()));
    assert_eq!(sorted(limits.clone().fields()), sorted(limits.fields()));
}

#[test]
fn names_that_are_no_strings_are_passed_over_in_order() {
    let items = vec![Some(text("b")), None, Some(text("a")), Some(text("b"))];
    let constraint = ConstraintWrapper::new(None, Some(items)).unwrap();
    assert_eq!(constraint.allowed_fields(), vec![text("b"), text("a"), text("b")]);
    assert!(constraint.size_limit().is_none());
    let debug = format!("{:?}", constraint.to_constraints());
    assert!(debug.contains("allowed_fields: Some([\"b\", \"a\", \"b\"])"));
}

#[test]
fn an_empty_list_of_names_allows_every_field() {
    let absent = ConstraintWrapper::new(None, None).unwrap();
    let empty = ConstraintWrapper::new(None, Some(vec![])).unwrap();
    let ignored = ConstraintWrapper::new(None, Some(vec![None, None])).unwrap();
    for constraint in [absent, empty, ignored] {
        assert!(constraint.allowed_fields().is_empty());
        let debug = format!("{:?}", constraint.to_constraints());
        assert!(debug.contains("allowed_fields: None"));
    }
}

#[test]
fn absent_limits_are_the_limits_that_limit_nothing() {
    let absent = ConstraintWrapper::new(None, None).unwrap();
    let nothing = SizeLimitWrapper::new(None, None, None);
    let explicit = ConstraintWrapper::new(Some(nothing), None).unwrap();
    assert_eq!(
        format!("{:?}", absent.to_constraints()),
        format!("{:?}", explicit.to_constraints())
    );
}

#[test]
fn a_constraint_gives_its_parts_back() {
    let limits = SizeLimitWrapper::new(Some(9), None, Some(vec![(Some(text("x")), Some(8))]));
    let constraint = ConstraintWrapper::new(Some(limits), Some(vec![Some(text("x"))])).unwrap();
    let copy = constraint.clone();
    for c in [constraint, copy] {
        let got = c.size_limit().unwrap();
        assert_eq!(got.whole_stream(), Some(9));
        assert_eq!(got.per_field(), None);
        assert_eq!(got.fields(), vec![(text("x"), 8)]);
        assert_eq!(c.allowed_fields(), vec![text("x")]);
    }
}

#[test]
fn a_chunk_becomes_an_item_without_error() {
    let item = ChunkStream::item(Bytes::from_static(b"abc"));
    assert_eq!(item.unwrap(), Bytes::from_static(b"abc"));
}

#[test]
fn a_list_made_from_its_own_names_is_the_same() {
    let items = vec![Some(text("b")), None, Some(text("a"))];
    let constraint = ConstraintWrapper::new(None, Some(items)).unwrap();
    let again = constraint.allowed_fields().into_iter().map(Some).collect();
    let rebuilt = ConstraintWrapper::new(None, Some(again)).unwrap();
    assert_eq!(rebuilt.allowed_fields(), vec![text("b"), text("a")]);
}
