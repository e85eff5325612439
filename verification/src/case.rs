//! One court case: the year and docket number it was asked for under, and
//! the decoded document, whose root is an object. Every extraction is a pure
//! read over the document along a fixed path; a missing or wrong-typed node
//! is a per-field condition, never a whole-document failure — except the
//! object root, which `build` alone enforces.

use vstd::prelude::*;

use vstd::string::StringExecFns;

use crate::error::CaseError;
use crate::json::{
    entries_rep, get_item, get_member, lookup_key, rep_seq_from, lemma_rep_seq_from,
    JsonRep, JsonValue,
};
use crate::render::render;
use crate::strip::strip_tags_rep;
use crate::web::url_ok;

verus! {

/// A case: its identifier and its document, the latter known to come from an
/// object root.
pub struct CourtCase {
    pub year: String,
    pub docket_num: String,
    pub json: Vec<(String, JsonValue)>,
}

impl CourtCase {
    /// The document: the root object over the held entries.
    pub open spec fn doc(self) -> JsonRep {
        JsonRep::Obj(entries_rep(self.json@))
    }

    /// Pair an identifier with a decoded document. Succeeds exactly when the
    /// root of `document` is an object; anything else is `InvalidShape`,
    /// whatever it holds.
    pub fn build(year: String, docket_num: String, document: JsonValue) -> (r: Result<
        CourtCase,
        CaseError,
    >)
        ensures
            match r {
                Ok(c) => document.rep() is Obj && c.doc() == document.rep() && c.year@ == year@
                    && c.docket_num@ == docket_num@,
                Err(e) => !(document.rep() is Obj) && e == CaseError::InvalidShape,
            },
    {
        match document {
            JsonValue::Obj(entries) => Ok(CourtCase { year, docket_num, json: entries }),
            _ => Err(CaseError::InvalidShape),
        }
    }
}

/// A document whose root is an array is no object, whatever the array holds:
/// building from it must fail.
pub proof fn lemma_array_root_never_builds(a: Seq<JsonRep>)
    ensures
        !(JsonRep::Arr(a) is Obj),
{
}

/// The sentinel a missing lower court reads as.
pub open spec fn lower_court_default() -> Seq<char> {
    "Lower Court Not Found"@
}

/// The lower court's name: `lower_court.name` where that is a string, and
/// the sentinel wherever the path breaks off.
pub open spec fn lower_court_rep(d: JsonRep) -> Seq<char> {
    match d.get("lower_court"@) {
        Some(lc) => match lc.get("name"@) {
            Some(n) => match n {
                JsonRep::Str(s) => s,
                _ => lower_court_default(),
            },
            None => lower_court_default(),
        },
        None => lower_court_default(),
    }
}

/// The lower court's name, or the sentinel.
pub fn get_lower_court(case: &CourtCase) -> (r: String)
    ensures
        r@ == lower_court_rep(case.doc()),
{
    match lookup_key(&case.json, "lower_court") {
        Some(lc) => match get_member(lc, "name") {
            Some(n) => match n {
                JsonValue::Str(s) => s.clone(),
                _ => String::from_str("Lower Court Not Found"),
            },
            None => String::from_str("Lower Court Not Found"),
        },
        None => String::from_str("Lower Court Not Found"),
    }
}

/// Any document with `lower_court.name` the string `x` reads as `x`.
pub proof fn lemma_lower_court_found(d: JsonRep, x: Seq<char>)
    requires
        d.get("lower_court"@) matches Some(lc) && lc.get("name"@) == Some(JsonRep::Str(x)),
    ensures
        lower_court_rep(d) == x,
{
}

/// Any document without a `lower_court` member reads as the sentinel.
pub proof fn lemma_lower_court_absent(d: JsonRep)
    requires
        d.get("lower_court"@) is None,
    ensures
        lower_court_rep(d) == lower_court_default(),
{
}

/// The names of the members `ms[i..]`, each the string under `name`; `None`
/// as soon as one member lacks a string name.
pub open spec fn members_names(ms: Seq<JsonRep>, i: int) -> Option<Seq<Seq<char>>>
    decreases ms.len() - i,
{
    if i < 0 || i >= ms.len() {
        Some(Seq::empty())
    } else {
        match ms[i].get("name"@) {
            Some(n) => match n {
                JsonRep::Str(s) => match members_names(ms, i + 1) {
                    Some(rest) => Some(seq![s] + rest),
                    None => None,
                },
                _ => None,
            },
            None => None,
        }
    }
}

/// The judges: the names under `heard_by[0].members[*].name`, in document
/// order; `None` wherever the path or one name breaks off.
pub open spec fn judges_rep(d: JsonRep) -> Option<Seq<Seq<char>>> {
    match d.get("heard_by"@) {
        Some(hb) => match hb.at(0) {
            Some(h0) => match h0.get("members"@) {
                Some(m) => match m {
                    JsonRep::Arr(ms) => members_names(ms, 0),
                    _ => None,
                },
                None => None,
            },
            None => None,
        },
        None => None,
    }
}

/// Collect the names of the members `a[i..]` into `out`; false as soon as a
/// member lacks a string name.
fn collect_names(a: &Vec<JsonValue>, i: usize, out: &mut Vec<String>) -> (ok: bool)
    requires
        i <= a.len(),
    ensures
        match members_names(rep_seq_from(a@, 0), i as int) {
            Some(names) => ok && final(out).deep_view() == old(out).deep_view() + names,
            None => !ok,
        },
    decreases a.len() - i,
{
    proof {
        lemma_rep_seq_from(a@, 0);
    }
    if i == a.len() {
        proof {
            assert(out.deep_view() =~= old(out).deep_view() + Seq::<Seq<char>>::empty());
        }
        true
    } else {
        match get_member(&a[i], "name") {
            Some(n) => match n {
                JsonValue::Str(s) => {
                    out.push(s.clone());
                    let r = collect_names(a, i + 1, out);
                    proof {
                        match members_names(rep_seq_from(a@, 0), i as int) {
                            Some(names) => {
                                assert(out.deep_view() =~= old(out).deep_view() + names);
                            },
                            None => {},
                        }
                    }
                    r
                },
                _ => false,
            },
            None => false,
        }
    }
}

/// The judges of the case, in document order; `FieldAccess` wherever the
/// path or one member's name breaks off.
pub fn get_case_judges(case: &CourtCase) -> (r: Result<Vec<String>, CaseError>)
    ensures
        match r {
            Ok(names) => judges_rep(case.doc()) == Some(names.deep_view()),
            Err(e) => judges_rep(case.doc()) is None && e == CaseError::FieldAccess,
        },
{
    let hb = match lookup_key(&case.json, "heard_by") {
        Some(v) => v,
        None => {
            return Err(CaseError::FieldAccess);
        },
    };
    let h0 = match get_item(hb, 0) {
        Some(v) => v,
        None => {
            return Err(CaseError::FieldAccess);
        },
    };
    let ms = match get_member(h0, "members") {
        Some(v) => v,
        None => {
            return Err(CaseError::FieldAccess);
        },
    };
    match ms {
        JsonValue::Arr(a) => {
            let mut out: Vec<String> = Vec::new();
            if collect_names(a, 0, &mut out) {
                Ok(out)
            } else {
                Err(CaseError::FieldAccess)
            }
        },
        _ => Err(CaseError::FieldAccess),
    }
}

/// A string field of the document, tag-stripped on request: `None` where the
/// field is absent or no string.
pub open spec fn stripped_string_field(d: JsonRep, key: Seq<char>, html: bool) -> Option<
    Seq<char>,
> {
    match d.get(key) {
        Some(v) => match v {
            JsonRep::Str(s) => Some(
                if html {
                    strip_tags_rep(s)
                } else {
                    s
                },
            ),
            _ => None,
        },
        None => None,
    }
}

/// Read a string field, tag-stripped on request.
fn stripped_string_fetch(case: &CourtCase, key: &str, html: bool) -> (r: Result<
    String,
    CaseError,
>)
    ensures
        match r {
            Ok(s) => stripped_string_field(case.doc(), key@, html) == Some(s@),
            Err(e) => stripped_string_field(case.doc(), key@, html) is None && e
                == CaseError::FieldAccess,
        },
{
    match lookup_key(&case.json, key) {
        Some(v) => match v {
            JsonValue::Str(s) => if html {
                Ok(crate::strip::strip_tags(s.as_str()))
            } else {
                Ok(s.clone())
            },
            _ => Err(CaseError::FieldAccess),
        },
        None => Err(CaseError::FieldAccess),
    }
}

/// The facts of the case: the string under `facts_of_the_case`, tag-stripped
/// when `html` is set; `FieldAccess` where absent or no string.
pub fn get_case_facts(case: &CourtCase, html: bool) -> (r: Result<String, CaseError>)
    ensures
        match r {
            Ok(s) => stripped_string_field(case.doc(), "facts_of_the_case"@, html) == Some(s@),
            Err(e) => stripped_string_field(case.doc(), "facts_of_the_case"@, html) is None && e
                == CaseError::FieldAccess,
        },
{
    stripped_string_fetch(case, "facts_of_the_case", html)
}

/// The conclusion: the string under `conclusion`, tag-stripped when `html`
/// is set; `FieldAccess` where absent or no string.
pub fn get_conclusion(case: &CourtCase, html: bool) -> (r: Result<String, CaseError>)
    ensures
        match r {
            Ok(s) => stripped_string_field(case.doc(), "conclusion"@, html) == Some(s@),
            Err(e) => stripped_string_field(case.doc(), "conclusion"@, html) is None && e
                == CaseError::FieldAccess,
        },
{
    stripped_string_fetch(case, "conclusion", html)
}

/// One field of the first decision: `decisions[0].key`, and JSON null
/// wherever the path or the field is absent.
pub open spec fn decision_field(d: JsonRep, key: Seq<char>) -> JsonRep {
    match d.get("decisions"@) {
        Some(ds) => match ds.at(0) {
            Some(d0) => match d0.get(key) {
                Some(v) => v,
                None => JsonRep::Null,
            },
            None => JsonRep::Null,
        },
        None => JsonRep::Null,
    }
}

/// Read one field of the first decision, copying it out.
fn decision_value(case: &CourtCase, key: &str) -> (r: JsonValue)
    ensures
        r.rep() == decision_field(case.doc(), key@),
{
    match lookup_key(&case.json, "decisions") {
        Some(ds) => match get_item(ds, 0) {
            Some(d0) => match get_member(d0, key) {
                Some(v) => v.deep_clone(),
                None => JsonValue::Null,
            },
            None => JsonValue::Null,
        },
        None => JsonValue::Null,
    }
}

/// The decision: a mapping of exactly the four decision fields, each copied
/// as it stands in the document, JSON null where absent. It never fails.
pub fn get_decision(case: &CourtCase) -> (r: Vec<(String, JsonValue)>)
    ensures
        r@.len() == 4,
        r@[0].0@ == "majority_vote"@ && r@[0].1.rep() == decision_field(
            case.doc(),
            "majority_vote"@,
        ),
        r@[1].0@ == "minority_vote"@ && r@[1].1.rep() == decision_field(
            case.doc(),
            "minority_vote"@,
        ),
        r@[2].0@ == "winning_party"@ && r@[2].1.rep() == decision_field(
            case.doc(),
            "winning_party"@,
        ),
        r@[3].0@ == "decision_type"@ && r@[3].1.rep() == decision_field(
            case.doc(),
            "decision_type"@,
        ),
{
    let mut out: Vec<(String, JsonValue)> = Vec::new();
    let v0 = decision_value(case, "majority_vote");
    out.push((String::from_str("majority_vote"), v0));
    let v1 = decision_value(case, "minority_vote");
    out.push((String::from_str("minority_vote"), v1));
    let v2 = decision_value(case, "winning_party");
    out.push((String::from_str("winning_party"), v2));
    let v3 = decision_value(case, "decision_type");
    out.push((String::from_str("decision_type"), v3));
    out
}

/// The placeholder returned when a case has no oral argument audio: the
/// API's base origin.
pub open spec fn audio_placeholder() -> Seq<char> {
    "http://api.oyez.org"@
}

/// The audio link: `oral_argument_audio[0].href` where the audio list is a
/// non-empty array — `InvalidUrl` if that is no well-formed URL string — and
/// the placeholder where the list is absent, empty, or no array at all.
pub open spec fn audio_link_rep(d: JsonRep) -> Result<Seq<char>, CaseError> {
    match d.get("oral_argument_audio"@) {
        Some(v) => match v {
            JsonRep::Arr(a) => if a.len() == 0 {
                Ok(audio_placeholder())
            } else {
                match a[0].get("href"@) {
                    Some(h) => match h {
                        JsonRep::Str(s) => if url_ok(s) {
                            Ok(s)
                        } else {
                            Err(CaseError::InvalidUrl)
                        },
                        _ => Err(CaseError::InvalidUrl),
                    },
                    None => Err(CaseError::InvalidUrl),
                }
            },
            _ => Ok(audio_placeholder()),
        },
        None => Ok(audio_placeholder()),
    }
}

/// The URL of the first oral argument audio, or the placeholder where there
/// is none.
pub fn get_audio_links(case: &CourtCase) -> (r: Result<String, CaseError>)
    ensures
        match r {
            Ok(u) => audio_link_rep(case.doc()) == Ok::<Seq<char>, CaseError>(u@),
            Err(e) => audio_link_rep(case.doc()) == Err::<Seq<char>, CaseError>(e),
        },
{
    let audio = match lookup_key(&case.json, "oral_argument_audio") {
        Some(v) => v,
        None => {
            return Ok(String::from_str("http://api.oyez.org"));
        },
    };
    match audio {
        JsonValue::Arr(a) => {
            if a.len() == 0 {
                Ok(String::from_str("http://api.oyez.org"))
            } else {
                let first = match get_item(audio, 0) {
                    Some(e0) => e0,
                    None => {
                        proof {
                            assert(false);
                        }
                        return Err(CaseError::InvalidUrl);
                    },
                };
                match get_member(first, "href") {
                    Some(h) => match h {
                        JsonValue::Str(s) => if crate::web::url_parses(s.as_str()) {
                            Ok(s.clone())
                        } else {
                            Err(CaseError::InvalidUrl)
                        },
                        _ => Err(CaseError::InvalidUrl),
                    },
                    None => Err(CaseError::InvalidUrl),
                }
            }
        },
        _ => Ok(String::from_str("http://api.oyez.org")),
    }
}

/// A field of the document, or JSON null where absent.
pub open spec fn field_or_null(d: JsonRep, key: Seq<char>) -> JsonRep {
    match d.get(key) {
        Some(v) => v,
        None => JsonRep::Null,
    }
}

/// The one-line summary: name, then the two parties, each shown as the JSON
/// text of its value.
pub open spec fn basic_information_rep(d: JsonRep) -> Seq<char> {
    render(field_or_null(d, "name"@)) + ": "@ + render(field_or_null(d, "first_party"@))
        + " vs "@ + render(field_or_null(d, "second_party"@))
}

/// Render a field of the document as compact JSON text, null where absent.
fn render_field(case: &CourtCase, key: &str) -> (r: String)
    ensures
        r@ == render(field_or_null(case.doc(), key@)),
{
    match lookup_key(&case.json, key) {
        Some(v) => crate::render::to_json_text(v),
        None => {
            let null = JsonValue::Null;
            crate::render::to_json_text(&null)
        },
    }
}

/// The summary line `name: first_party vs second_party`, each value as its
/// JSON text.
pub fn get_basic_information(case: &CourtCase) -> (r: String)
    ensures
        r@ == basic_information_rep(case.doc()),
{
    let mut out = render_field(case, "name");
    out.append(": ");
    let fp = render_field(case, "first_party");
    out.append(fp.as_str());
    out.append(" vs ");
    let sp = render_field(case, "second_party");
    out.append(sp.as_str());
    out
}

/// The pretty JSON text of the whole document: what the persister writes.
pub fn render_document_pretty(case: &CourtCase) -> (r: String)
    ensures
        r@ == crate::render::pretty_rep(case.doc()),
{
    crate::render::object_pretty(&case.json)
}

/// The file the document is persisted to: `docket_num` and `year` joined by
/// an underscore, with the `.json` suffix.
pub fn persist_file_name(case: &CourtCase) -> (r: String)
    ensures
        r@ == case.docket_num@ + "_"@ + case.year@ + ".json"@,
{
    let mut f = case.docket_num.clone();
    f.append("_");
    f.append(case.year.as_str());
    f.append(".json");
    f
}

} // verus!
