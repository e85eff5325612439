use case_client::case::{
    get_audio_links, get_basic_information, get_case_facts, get_case_judges, get_conclusion,
    get_decision, get_lower_court, CourtCase,
};
use case_client::error::CaseError;
use case_client::json::JsonValue;

fn entry(k: &str, v: JsonValue) -> (String, JsonValue) {
    (k.to_string(), v)
}

fn jstr(s: &str) -> JsonValue {
    JsonValue::Str(s.to_string())
}

fn jnum(s: &str) -> JsonValue {
    JsonValue::Num(s.to_string())
}

fn case_of(entries: Vec<(String, JsonValue)>) -> CourtCase {
    match CourtCase::build(
        "2023".to_string(),
        "22-429".to_string(),
        JsonValue::Obj(entries),
    ) {
        Ok(c) => c,
        Err(_) => panic!("an object root must build"),
    }
}

#[test]
fn lower_court_present() {
    let c = case_of(vec![entry(
        "lower_court",
        JsonValue::Obj(vec![entry("name", jstr("X"))]),
    )]);
    assert_eq!(get_lower_court(&c), "X");
}

#[test]
fn lower_court_absent() {
    let c = case_of(vec![entry("name", jstr("Some Case"))]);
    assert_eq!(get_lower_court(&c), "Lower Court Not Found");
}

#[test]
fn lower_court_name_not_string() {
    let c = case_of(vec![entry(
        "lower_court",
        JsonValue::Obj(vec![entry("name", jnum("5"))]),
    )]);
    assert_eq!(get_lower_court(&c), "Lower Court Not Found");
}

#[test]
fn case_facts_strips_tags() {
    let c = case_of(vec![entry(
        "facts_of_the_case",
        jstr("<p>Hello <b>world</b></p>"),
    )]);
    assert_eq!(get_case_facts(&c, true).unwrap(), "Hello world");
}

#[test]
fn case_facts_keeps_tags() {
    let c = case_of(vec![entry(
        "facts_of_the_case",
        jstr("<p>Hello <b>world</b></p>"),
    )]);
    assert_eq!(get_case_facts(&c, false).unwrap(), "<p>Hello <b>world</b></p>");
}

#[test]
fn case_facts_missing_fails() {
    let c = case_of(vec![]);
    assert_eq!(get_case_facts(&c, true), Err(CaseError::FieldAccess));
}

#[test]
fn case_facts_not_string_fails() {
    let c = case_of(vec![entry("facts_of_the_case", JsonValue::Null)]);
    assert_eq!(get_case_facts(&c, false), Err(CaseError::FieldAccess));
}

#[test]
fn conclusion_strips_tags() {
    let c = case_of(vec![entry("conclusion", jstr("It <i>ends</i>."))]);
    assert_eq!(get_conclusion(&c, true).unwrap(), "It ends.");
    assert_eq!(get_conclusion(&c, false).unwrap(), "It <i>ends</i>.");
}

#[test]
fn conclusion_missing_fails() {
    let c = case_of(vec![]);
    assert_eq!(get_conclusion(&c, true), Err(CaseError::FieldAccess));
}

fn heard_by_with_members(members: Vec<JsonValue>) -> (String, JsonValue) {
    entry(
        "heard_by",
        JsonValue::Arr(vec![JsonValue::Obj(vec![entry(
            "members",
            JsonValue::Arr(members),
        )])]),
    )
}

#[test]
fn judges_in_document_order() {
    let c = case_of(vec![heard_by_with_members(vec![
        JsonValue::Obj(vec![entry("name", jstr("A"))]),
        JsonValue::Obj(vec![entry("name", jstr("B"))]),
    ])]);
    assert_eq!(
        get_case_judges(&c).unwrap(),
        vec!["A".to_string(), "B".to_string()]
    );
}

#[test]
fn judges_empty_heard_by_fails() {
    let c = case_of(vec![entry("heard_by", JsonValue::Arr(vec![]))]);
    assert_eq!(get_case_judges(&c), Err(CaseError::FieldAccess));
}

#[test]
fn judges_missing_heard_by_fails() {
    let c = case_of(vec![]);
    assert_eq!(get_case_judges(&c), Err(CaseError::FieldAccess));
}

#[test]
fn judges_member_without_name_fails() {
    let c = case_of(vec![heard_by_with_members(vec![
        JsonValue::Obj(vec![entry("name", jstr("A"))]),
        JsonValue::Obj(vec![]),
    ])]);
    assert_eq!(get_case_judges(&c), Err(CaseError::FieldAccess));
}

#[test]
fn decision_copies_all_four_fields() {
    let c = case_of(vec![entry(
        "decisions",
        JsonValue::Arr(vec![JsonValue::Obj(vec![
            entry("majority_vote", jnum("6")),
            entry("minority_vote", jnum("3")),
            entry("winning_party", jstr("P")),
            entry("decision_type", jstr("majority opinion")),
        ])]),
    )]);
    let d = get_decision(&c);
    assert_eq!(
        d,
        vec![
            entry("majority_vote", jnum("6")),
            entry("minority_vote", jnum("3")),
            entry("winning_party", jstr("P")),
            entry("decision_type", jstr("majority opinion")),
        ]
    );
}

#[test]
fn decision_of_empty_record_is_all_null() {
    let c = case_of(vec![entry(
        "decisions",
        JsonValue::Arr(vec![JsonValue::Obj(vec![])]),
    )]);
    let d = get_decision(&c);
    assert_eq!(
        d,
        vec![
            entry("majority_vote", JsonValue::Null),
            entry("minority_vote", JsonValue::Null),
            entry("winning_party", JsonValue::Null),
            entry("decision_type", JsonValue::Null),
        ]
    );
}

#[test]
fn decision_without_decisions_is_all_null() {
    let c = case_of(vec![]);
    let d = get_decision(&c);
    assert_eq!(d.len(), 4);
    for (_, v) in d {
        assert_eq!(v, JsonValue::Null);
    }
}

#[test]
fn audio_empty_list_gives_placeholder() {
    let c = case_of(vec![entry("oral_argument_audio", JsonValue::Arr(vec![]))]);
    assert_eq!(get_audio_links(&c).unwrap(), "http://api.oyez.org");
}

#[test]
fn audio_absent_gives_placeholder() {
    let c = case_of(vec![]);
    assert_eq!(get_audio_links(&c).unwrap(), "http://api.oyez.org");
}

#[test]
fn audio_href_returned_verbatim() {
    let c = case_of(vec![entry(
        "oral_argument_audio",
        JsonValue::Arr(vec![JsonValue::Obj(vec![entry(
            "href",
            jstr("https://api.oyez.org/case_media/oral_argument_audio/25000"),
        )])]),
    )]);
    assert_eq!(
        get_audio_links(&c).unwrap(),
        "https://api.oyez.org/case_media/oral_argument_audio/25000"
    );
}

#[test]
fn audio_href_invalid_url_fails() {
    let c = case_of(vec![entry(
        "oral_argument_audio",
        JsonValue::Arr(vec![JsonValue::Obj(vec![entry(
            "href",
            jstr("not a url"),
        )])]),
    )]);
    assert_eq!(get_audio_links(&c), Err(CaseError::InvalidUrl));
}

#[test]
fn audio_href_not_string_fails() {
    let c = case_of(vec![entry(
        "oral_argument_audio",
        JsonValue::Arr(vec![JsonValue::Obj(vec![entry("href", jnum("7"))])]),
    )]);
    assert_eq!(get_audio_links(&c), Err(CaseError::InvalidUrl));
}

#[test]
fn basic_information_shows_json_representations() {
    let c = case_of(vec![
        entry("name", jstr("Roe v Wade")),
        entry("first_party", jstr("Roe")),
        entry("second_party", jstr("Wade")),
    ]);
    assert_eq!(
        get_basic_information(&c),
        "\"Roe v Wade\": \"Roe\" vs \"Wade\""
    );
}

#[test]
fn basic_information_missing_fields_show_null() {
    let c = case_of(vec![entry("name", jstr("N"))]);
    assert_eq!(get_basic_information(&c), "\"N\": null vs null");
}
