use case_client::case::{persist_file_name, render_document_pretty, CourtCase};
use case_client::codec::parse_json_data;
use case_client::error::CaseError;
use case_client::json::JsonValue;
use case_client::render::{object_pretty, to_json_text};
use case_client::strip::strip_tags;
use case_client::web::build_request_url;

fn entry(k: &str, v: JsonValue) -> (String, JsonValue) {
    (k.to_string(), v)
}

fn jstr(s: &str) -> JsonValue {
    JsonValue::Str(s.to_string())
}

fn jnum(s: &str) -> JsonValue {
    JsonValue::Num(s.to_string())
}

#[test]
fn build_object_root_succeeds() {
    let doc = JsonValue::Obj(vec![entry("ID", jnum("1"))]);
    let c = CourtCase::build("2023".to_string(), "22-429".to_string(), doc).unwrap();
    assert_eq!(c.year, "2023");
    assert_eq!(c.docket_num, "22-429");
    assert_eq!(c.json, vec![entry("ID", jnum("1"))]);
}

#[test]
fn build_array_root_fails() {
    let doc = JsonValue::Arr(vec![jstr("anything"), jnum("3")]);
    let r = CourtCase::build("2023".to_string(), "22-429".to_string(), doc);
    assert_eq!(r.err(), Some(CaseError::InvalidShape));
}

#[test]
fn build_empty_array_root_fails() {
    let doc = JsonValue::Arr(vec![]);
    let r = CourtCase::build("2023".to_string(), "22-429".to_string(), doc);
    assert_eq!(r.err(), Some(CaseError::InvalidShape));
}

#[test]
fn build_string_root_fails() {
    let doc = jstr("just text");
    let r = CourtCase::build("2023".to_string(), "22-429".to_string(), doc);
    assert_eq!(r.err(), Some(CaseError::InvalidShape));
}

#[test]
fn parse_decodes_every_kind_of_value() {
    let text = "{\"a\":[1,true,null,-2.5],\"b\":{\"c\":\"x\"}}";
    let v = parse_json_data(text).unwrap();
    assert_eq!(
        v,
        JsonValue::Obj(vec![
            entry(
                "a",
                JsonValue::Arr(vec![
                    jnum("1"),
                    JsonValue::Bool(true),
                    JsonValue::Null,
                    jnum("-2.5"),
                ])
            ),
            entry("b", JsonValue::Obj(vec![entry("c", jstr("x"))])),
        ])
    );
}

#[test]
fn parse_failure_carries_position() {
    let r = parse_json_data("{\"a\": }");
    match r {
        Err(CaseError::Parse { line, column }) => {
            assert_eq!(line, 1);
            assert_eq!(column, 7);
        }
        other => panic!("expected a parse error, got {:?}", other),
    }
}

#[test]
fn parse_rejects_plain_garbage() {
    assert!(matches!(
        parse_json_data("not json"),
        Err(CaseError::Parse { .. })
    ));
}

#[test]
fn compact_text_is_exact() {
    let v = JsonValue::Obj(vec![
        entry(
            "a",
            JsonValue::Arr(vec![jnum("1"), JsonValue::Bool(true), JsonValue::Null]),
        ),
        entry("b", jstr("x")),
    ]);
    assert_eq!(to_json_text(&v), "{\"a\":[1,true,null],\"b\":\"x\"}");
}

#[test]
fn compact_text_escapes_strings() {
    let v = jstr("a\"b\\c\nd\u{1}");
    assert_eq!(to_json_text(&v), "\"a\\\"b\\\\c\\nd\\u0001\"");
}

#[test]
fn pretty_text_is_exact() {
    let entries = vec![
        entry("a", JsonValue::Arr(vec![jnum("1"), jnum("2")])),
        entry("b", JsonValue::Obj(vec![])),
    ];
    let expected = "{\n  \"a\": [\n    1,\n    2\n  ],\n  \"b\": {}\n}";
    assert_eq!(object_pretty(&entries), expected);
}

fn round_trip_entries() -> Vec<(String, JsonValue)> {
    vec![
        entry(
            "decisions",
            JsonValue::Arr(vec![JsonValue::Obj(vec![
                entry("majority_vote", jnum("6")),
                entry("winning_party", jstr("P")),
            ])]),
        ),
        entry("facts_of_the_case", jstr("<p>He said \"hi\"\u{9}</p>")),
        entry("name", jstr("A v B")),
    ]
}

#[test]
fn persisted_document_parses_back_equal() {
    let doc = JsonValue::Obj(round_trip_entries());
    let c = CourtCase::build("2020".to_string(), "19-123".to_string(), doc).unwrap();
    let text = render_document_pretty(&c);
    let reparsed = parse_json_data(&text).unwrap();
    assert_eq!(reparsed, JsonValue::Obj(round_trip_entries()));
}

#[test]
fn compact_document_parses_back_equal() {
    let v = JsonValue::Obj(vec![
        entry("a", JsonValue::Arr(vec![jnum("-2.5"), JsonValue::Bool(false)])),
        entry("b", jstr("line\nbreak")),
    ]);
    let text = to_json_text(&v);
    assert_eq!(parse_json_data(&text).unwrap(), v);
}

#[test]
fn strip_tags_removes_simple_tags() {
    assert_eq!(strip_tags("<p>Hello <b>world</b></p>"), "Hello world");
}

#[test]
fn strip_tags_keeps_unclosed_open() {
    assert_eq!(strip_tags("<a<b>"), "<a");
}

#[test]
fn strip_tags_keeps_lone_angles() {
    assert_eq!(strip_tags("a < b > c"), "a  c");
    assert_eq!(strip_tags("a < b"), "a < b");
}

#[test]
fn strip_tags_needs_content_before_close() {
    assert_eq!(strip_tags("<>"), "<>");
    assert_eq!(strip_tags("x<>>y"), "xy");
}

#[test]
fn strip_tags_empty_input() {
    assert_eq!(strip_tags(""), "");
}

#[test]
fn strip_tags_agrees_with_reference_pattern() {
    let re = regex::Regex::new("<[^<]+?>").unwrap();
    let inputs = [
        "<p>Hello <b>world</b></p>",
        "<a<b>",
        "a < b > c",
        "a < b",
        "<>",
        "x<>>y",
        "<<x>>",
        "plain text",
        "",
    ];
    for s in inputs {
        assert_eq!(strip_tags(s), re.replace_all(s, "").to_string(), "on {:?}", s);
    }
}

#[test]
fn pretty_form_agrees_with_decoder_pretty_printer() {
    let entries = vec![
        entry("a", JsonValue::Arr(vec![jnum("1"), jnum("-2.5"), JsonValue::Bool(true)])),
        entry("b", JsonValue::Obj(vec![])),
        entry("c", jstr("line\nbreak \"q\"")),
    ];
    let text = object_pretty(&entries);
    let decoded: serde_json::Value = serde_json::from_str(&text).unwrap();
    assert_eq!(serde_json::to_string_pretty(&decoded).unwrap(), text);
}

#[test]
fn request_url_is_verbatim_interpolation() {
    let u = build_request_url("2023", "22-429").unwrap();
    assert_eq!(u, "https://api.oyez.org/cases/2023/22-429");
}

#[test]
fn request_url_keeps_segments_unencoded() {
    let u = build_request_url("20 23", "22-429").unwrap();
    assert_eq!(u, "https://api.oyez.org/cases/20 23/22-429");
}

#[test]
fn persist_file_name_joins_docket_and_year() {
    let c = CourtCase::build(
        "2023".to_string(),
        "22-429".to_string(),
        JsonValue::Obj(vec![]),
    )
    .unwrap();
    assert_eq!(persist_file_name(&c), "22-429_2023.json");
}

#[test]
fn parsed_document_feeds_accessors() {
    let text = "{\"heard_by\":[{\"members\":[{\"name\":\"A\"},{\"name\":\"B\"}]}]}";
    let doc = parse_json_data(text).unwrap();
    let c = CourtCase::build("2023".to_string(), "22-429".to_string(), doc).unwrap();
    assert_eq!(
        case_client::case::get_case_judges(&c).unwrap(),
        vec!["A".to_string(), "B".to_string()]
    );
}
