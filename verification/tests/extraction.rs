use youtube::error::{Boundary, ExtractError};
use youtube::extract::{begin_boundary, end_boundary, get_json, payload_range, BEGIN_PATTERN};
use youtube::json::{parse_json, Json};
use youtube::pattern::{cut, find_group, slice, Span};

const FIXTURE: &str = r#"ntents":[{"itemSectionRenderer":{"contents":[{"#;

fn page(items: &str) -> String {
    format!(
        r#"<script>var data = {{"sectionListRenderer":{{"contents":[{{"itemSectionRenderer":{{"contents":[{}],"trackingParams":"CBQQ7VAiEwj-x_8="}}}},{{"continuationItemRenderer":{{"trigger":"x"}}}}]}}}};</script>"#,
        items
    )
}

/// This function checks is the regex used to retrieve the starting point
/// for data in raw response is still valid.
#[test]
fn regex_extraction() {
    let pattern = r#"itemSectionRenderer[\S|\s]*(\{\s*"contents)"#;
    let text = r#"ntents":[{"itemSectionRenderer":{"contents":[{"#;
    let group = find_group(pattern, text, 1).unwrap();

    assert_eq!(
        group.text,
        r#"{"contents"#,
        "Testing for the content of the matched group"
    );
    assert_eq!(
        (group.span.start, group.span.end),
        (32, 42),
        "Testing for the range of the matched group"
    );
}

#[test]
fn begin_boundary_on_fixture() {
    let found = begin_boundary(FIXTURE).unwrap();
    assert_eq!(found.text, r#"{"contents"#);
    assert_eq!((found.span.start, found.span.end), (32, 42));
}

#[test]
fn begin_pattern_finds_the_first_landmark() {
    let text = r#"a"itemSectionRenderer":{"contents":1}b"itemSectionRenderer":{"contents":2}"#;
    let found = find_group(BEGIN_PATTERN, text, 1).unwrap();
    assert_eq!(found.span.start, 23);
    assert_eq!(found.text, r#"{"contents"#);
}

#[test]
fn end_boundary_on_page() {
    let text = page("");
    let found = end_boundary(&text).unwrap();
    assert_eq!(found.text, "}");
    assert_eq!(&text[found.span.end..found.span.end + 2], "},");
}

#[test]
fn find_group_whole_match_and_missing_group() {
    let whole = find_group("b+", "aabbbcc", 0).unwrap();
    assert_eq!((whole.span.start, whole.span.end, whole.text), (2, 5, "bbb"));
    assert!(find_group("b+", "aabbbcc", 1).is_none());
    assert!(find_group("a(x)?", "a", 1).is_none());
    assert!(find_group("z", "aabbbcc", 0).is_none());
}

#[test]
fn find_group_rejects_bad_pattern() {
    assert!(find_group("foo(bar", "foo(bar", 0).is_none());
}

#[test]
fn find_group_counts_bytes() {
    let found = find_group("(b)", "\u{e9}\u{e9}b", 1).unwrap();
    assert_eq!((found.span.start, found.span.end), (4, 5));
    assert_eq!(found.text, "b");
}

#[test]
fn cut_respects_character_boundaries() {
    let text = "h\u{e9}llo";
    assert_eq!(cut(text, Span { start: 1, end: 3 }), Some("\u{e9}"));
    assert_eq!(cut(text, Span { start: 0, end: 6 }), Some(text));
    assert_eq!(cut(text, Span { start: 3, end: 3 }), Some(""));
    assert_eq!(cut(text, Span { start: 1, end: 2 }), None);
    assert_eq!(cut(text, Span { start: 2, end: 4 }), None);
    assert_eq!(cut(text, Span { start: 4, end: 3 }), None);
    assert_eq!(cut(text, Span { start: 0, end: 7 }), None);
}

#[test]
fn slice_gives_the_covered_text() {
    assert_eq!(slice("abcdef", Span { start: 2, end: 4 }), "cd");
    assert_eq!(slice("\u{4e16}\u{754c}!", Span { start: 3, end: 6 }), "\u{754c}");
}

#[test]
fn payload_range_decides() {
    let a = Span { start: 10, end: 20 };
    let b = Span { start: 40, end: 41 };
    assert_eq!(payload_range(Some(a), Some(b)), Ok(Span { start: 10, end: 41 }));
    assert_eq!(
        payload_range(None, Some(b)),
        Err(ExtractError::BoundaryNotFound(Boundary::Begin))
    );
    assert_eq!(
        payload_range(None, None),
        Err(ExtractError::BoundaryNotFound(Boundary::Begin))
    );
    assert_eq!(
        payload_range(Some(a), None),
        Err(ExtractError::BoundaryNotFound(Boundary::End))
    );
    assert_eq!(payload_range(Some(b), Some(a)), Err(ExtractError::InvalidRange));
    assert_eq!(
        payload_range(Some(Span { start: 41, end: 50 }), Some(b)),
        Err(ExtractError::InvalidRange)
    );
    assert_eq!(
        payload_range(Some(Span { start: 40, end: 50 }), Some(b)),
        Ok(Span { start: 40, end: 41 })
    );
}

#[test]
fn get_json_reads_the_payload() {
    let text = page(r#"{"a":1},{"b":"two"}"#);
    let json = get_json(&text).unwrap();
    let expected =
        parse_json(r#"{"contents":[{"a":1},{"b":"two"}],"trackingParams":"CBQQ7VAiEwj-x_8="}"#)
            .unwrap();
    assert_eq!(format!("{:?}", json), format!("{:?}", expected));
    match json {
        Json::Object(members) => {
            assert_eq!(members.len(), 2);
            assert_eq!(members[0].0, "contents");
            assert_eq!(members[1].0, "trackingParams");
        }
        other => panic!("not an object: {:?}", other),
    }
}

#[test]
fn get_json_missing_begin_boundary() {
    let text = page("").replace("itemSectionRenderer", "itemSectionRenderes");
    assert_eq!(
        get_json(&text).err(),
        Some(ExtractError::BoundaryNotFound(Boundary::Begin))
    );
}

#[test]
fn get_json_missing_end_boundary() {
    let text = page(r#"{"a":1}"#).replace("continuationItemRenderer", "somethingElse");
    assert_eq!(
        get_json(&text).err(),
        Some(ExtractError::BoundaryNotFound(Boundary::End))
    );
}

#[test]
fn get_json_fixture_without_end_boundary() {
    assert_eq!(
        get_json(FIXTURE).err(),
        Some(ExtractError::BoundaryNotFound(Boundary::End))
    );
}

#[test]
fn get_json_nothing_to_find() {
    assert_eq!(
        get_json("").err(),
        Some(ExtractError::BoundaryNotFound(Boundary::Begin))
    );
}

#[test]
fn get_json_inverted_range() {
    let text = r#"],"trackingParams":"abc"}},{"continuationItemRenderer":{}} then "itemSectionRenderer":{"contents":[]"#;
    assert_eq!(get_json(text).err(), Some(ExtractError::InvalidRange));
}

#[test]
fn get_json_malformed_payload() {
    let text = page(r#"{"a":}"#);
    assert_eq!(get_json(&text).err(), Some(ExtractError::MalformedPayload));
}

#[test]
fn parse_json_builds_the_tree() {
    let json = parse_json(r#"{"s":"x","n":12,"f":-1.5,"b":true,"z":null,"l":[1,"a",[]],"o":{}}"#)
        .unwrap();
    let members = match json {
        Json::Object(members) => members,
        other => panic!("not an object: {:?}", other),
    };
    let find = |name: &str| {
        members
            .iter()
            .find(|member| member.0 == name)
            .map(|member| format!("{:?}", member.1))
            .unwrap()
    };
    assert_eq!(members.len(), 7);
    assert_eq!(find("s"), r#"Text("x")"#);
    assert_eq!(find("n"), r#"Number("12")"#);
    assert_eq!(find("f"), r#"Number("-1.5")"#);
    assert_eq!(find("b"), "Bool(true)");
    assert_eq!(find("z"), "Null");
    assert_eq!(find("l"), r#"Array([Number("1"), Text("a"), Array([])])"#);
    assert_eq!(find("o"), "Object([])");
}

#[test]
fn parse_json_rejects_what_is_not_json() {
    assert!(parse_json("").is_none());
    assert!(parse_json("{").is_none());
    assert!(parse_json(r#"{"a":1} trailing"#).is_none());
    assert!(parse_json("'single'").is_none());
}

#[test]
fn parse_json_keeps_the_last_of_equal_names() {
    let json = parse_json(r#"{"a":1,"a":2}"#).unwrap();
    assert_eq!(format!("{:?}", json.read("a").unwrap()), r#"Number("2")"#);
}
