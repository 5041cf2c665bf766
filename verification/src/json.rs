//! Structured-query extraction: measurements from the value that a query
//! produced.

use crate::finding::{bare, Finding, FindingView, Label};
use crate::text::same_text;
use vstd::prelude::*;

verus! {

/// A JSON value, as far as extraction reads it.
#[derive(Debug, PartialEq, Eq)]
pub enum Json {
    Null,
    Bool(bool),
    /// A number, as the text that JSON writes for it.
    Number(String),
    /// A string, as its characters.
    Text(String),
    Array(Vec<Json>),
    /// The fields of an object, in the order in which the object yields
    /// them.
    Object(Vec<(String, Json)>),
}

impl Json {
    /// Whether the value is a number, a string or a boolean.
    pub open spec fn is_scalar(&self) -> bool {
        self is Bool || self is Number || self is Text
    }

    /// What a scalar gives as the value of a label: `true` or `false` for
    /// a boolean, the text of a number, the characters of a string.
    pub open spec fn label_text(&self) -> Seq<char> {
        match self {
            Json::Bool(b) => if *b {
                "true"@
            } else {
                "false"@
            },
            Json::Number(t) => t@,
            Json::Text(t) => t@,
            _ => Seq::empty(),
        }
    }

    /// What a scalar gives as the value of a label; `None` for `null`, an
    /// array and an object.
    pub fn label_value(&self) -> (text: Option<String>)
        ensures
            text is Some <==> self.is_scalar(),
            text matches Some(t) ==> t@ == self.label_text(),
    {
        match self {
            Json::Bool(b) => if *b {
                Some("true".to_owned())
            } else {
                Some("false".to_owned())
            },
            Json::Number(t) => Some(t.clone()),
            Json::Text(t) => Some(t.clone()),
            _ => None,
        }
    }
}

/// The index of the first field at or after `from` whose key is `key`.
pub open spec fn field_at(fields: Seq<(String, Json)>, key: Seq<char>, from: int) -> Option<int>
    decreases fields.len() - from,
{
    if from < 0 || from >= fields.len() {
        None
    } else if fields[from].0@ == key {
        Some(from)
    } else {
        field_at(fields, key, from + 1)
    }
}

/// The labels that the first `upto` fields of an array element give: one
/// for each scalar field other than `value`, the field's key as the key.
pub open spec fn field_labels(fields: Seq<(String, Json)>, upto: int) -> Seq<(Seq<char>, Seq<char>)>
    decreases upto,
{
    if upto <= 0 {
        Seq::empty()
    } else {
        let before = field_labels(fields, upto - 1);
        let i = upto - 1;
        if i < fields.len() && fields[i].1.is_scalar() && fields[i].0@ != "value"@ {
            before.push((fields[i].0@, fields[i].1.label_text()))
        } else {
            before
        }
    }
}

/// What one element of an array gives: a finding if it is an object whose
/// field `value` is a number, and nothing otherwise.
pub open spec fn element_finding(item: Json) -> Option<FindingView> {
    match item {
        Json::Object(fields) => match field_at(fields@, "value"@, 0) {
            Some(i) => match fields@[i].1 {
                Json::Number(t) => Some(
                    FindingView {
                        reading: t@,
                        labels: field_labels(fields@, fields@.len() as int),
                    },
                ),
                _ => None,
            },
            None => None,
        },
        _ => None,
    }
}

/// The findings of the first `upto` elements of an array, in their order.
pub open spec fn array_findings(items: Seq<Json>, upto: int) -> Seq<FindingView>
    decreases upto,
{
    if upto <= 0 {
        Seq::empty()
    } else {
        let before = array_findings(items, upto - 1);
        let i = upto - 1;
        if i < items.len() && element_finding(items[i]) is Some {
            before.push(element_finding(items[i])->0)
        } else {
            before
        }
    }
}

/// The findings of the first `upto` fields of an object, in their order:
/// one for each field that holds a number, labelled `key` with the field's
/// key.
pub open spec fn object_findings(fields: Seq<(String, Json)>, upto: int) -> Seq<FindingView>
    decreases upto,
{
    if upto <= 0 {
        Seq::empty()
    } else {
        let before = object_findings(fields, upto - 1);
        let i = upto - 1;
        if i < fields.len() && fields[i].1 is Number {
            before.push(
                FindingView {
                    reading: fields[i].1->Number_0@,
                    labels: seq![("key"@, fields[i].0@)],
                },
            )
        } else {
            before
        }
    }
}

/// What the result of a query gives.
///
/// - An object gives one finding for each field that holds a number.
/// - An array gives one finding for each element that is an object with a
///   numeric field `value`.
/// - A number gives one finding without labels.
/// - Anything else gives nothing.
pub open spec fn json_findings(value: Json) -> Seq<FindingView> {
    match value {
        Json::Object(fields) => object_findings(fields@, fields@.len() as int),
        Json::Array(items) => array_findings(items@, items@.len() as int),
        Json::Number(t) => seq![bare(t@)],
        _ => Seq::empty(),
    }
}

fn find_field(fields: &Vec<(String, Json)>, key: &str) -> (at: Option<usize>)
    ensures
        match at {
            Some(i) => field_at(fields@, key@, 0) == Some(i as int) && i < fields.len(),
            None => field_at(fields@, key@, 0) is None,
        },
{
    let mut i: usize = 0;
    while i < fields.len()
        invariant
            i <= fields.len(),
            field_at(fields@, key@, 0) == field_at(fields@, key@, i as int),
        decreases fields.len() - i,
    {
        if same_text(fields[i].0.as_str(), key) {
            return Some(i);
        }
        i += 1;
    }
    None
}

fn labels_of_fields(fields: &Vec<(String, Json)>) -> (labels: Vec<Label>)
    ensures
        labels.deep_view() == field_labels(fields@, fields.len() as int),
{
    let mut labels: Vec<Label> = Vec::new();
    assert(labels.deep_view() =~= Seq::empty());
    let mut i: usize = 0;
    while i < fields.len()
        invariant
            i <= fields.len(),
            labels.deep_view() == field_labels(fields@, i as int),
        decreases fields.len() - i,
    {
        let ghost before = labels.deep_view();
        if !same_text(fields[i].0.as_str(), "value") {
            match fields[i].1.label_value() {
                Some(text) => {
                    labels.push(Label { key: fields[i].0.clone(), value: text });
                    assert(labels.deep_view() =~= before.push(
                        (fields@[i as int].0@, fields@[i as int].1.label_text()),
                    ));
                },
                None => {},
            }
        }
        i += 1;
    }
    labels
}

fn finding_of_element(item: &Json) -> (found: Option<Finding>)
    ensures
        found.deep_view() == element_finding(*item),
{
    match item {
        Json::Object(fields) => match find_field(fields, "value") {
            Some(i) => match &fields[i].1 {
                Json::Number(t) => Some(
                    Finding { reading: t.clone(), labels: labels_of_fields(fields) },
                ),
                _ => None,
            },
            None => None,
        },
        _ => None,
    }
}

/// Decides what the result of a query gives.
pub fn findings_of_json(value: &Json) -> (found: Vec<Finding>)
    ensures
        found.deep_view() == json_findings(*value),
{
    let mut found: Vec<Finding> = Vec::new();
    assert(found.deep_view() =~= Seq::empty());
    match value {
        Json::Object(fields) => {
            let mut i: usize = 0;
            while i < fields.len()
                invariant
                    i <= fields.len(),
                    found.deep_view() == object_findings(fields@, i as int),
                decreases fields.len() - i,
            {
                let ghost before = found.deep_view();
                match &fields[i].1 {
                    Json::Number(t) => {
                        let mut labels: Vec<Label> = Vec::new();
                        labels.push(Label { key: "key".to_owned(), value: fields[i].0.clone() });
                        assert(labels.deep_view() =~= seq![("key"@, fields@[i as int].0@)]);
                        found.push(Finding { reading: t.clone(), labels });
                        assert(found.deep_view() =~= before.push(
                            FindingView {
                                reading: t@,
                                labels: seq![("key"@, fields@[i as int].0@)],
                            },
                        ));
                    },
                    _ => {},
                }
                i += 1;
            }
        },
        Json::Array(items) => {
            let mut i: usize = 0;
            while i < items.len()
                invariant
                    i <= items.len(),
                    found.deep_view() == array_findings(items@, i as int),
                decreases items.len() - i,
            {
                let ghost before = found.deep_view();
                match finding_of_element(&items[i]) {
                    Some(f) => {
                        found.push(f);
                        assert(found.deep_view() =~= before.push(f.deep_view()));
                    },
                    None => {},
                }
                i += 1;
            }
        },
        Json::Number(t) => {
            found.push(Finding::plain(t.clone()));
            assert(found.deep_view() =~= seq![bare(t@)]);
        },
        _ => {},
    }
    found
}

} // verus!
