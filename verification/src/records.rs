//! Labelled records of an evaluation file.
use vstd::prelude::*;

use crate::json::{
    field_trees, fields_without, law_other_fields_keep_their_order, law_taken_field_is_gone,
    lemma_tree_of_parts, parse_json, parsed_json, remove_field, take_field, trees, JsonTree,
    JsonValue,
};
use crate::text::{
    decimal, decimal_text, equals_lowered, join, joined, lines_of, lowered, split_lines, trim,
    trimmed, views,
};

verus! {

/// Where a record states what is expected of it.
#[derive(Clone, Copy, Debug, PartialEq, Eq, Structural)]
pub enum ExpectedFormat {
    /// In a truth value, or else in a label.
    Auto,
    /// In a truth value.
    Approved,
    /// In a label.
    Label,
}

/// A record split into the request and the expected answer.
#[derive(Debug)]
pub struct ExtractedCase {
    pub expected_approved: bool,
    pub request: JsonValue,
}

/// A record that states nowhere what is expected of it.
#[derive(Clone, Copy, Debug, PartialEq, Eq, Structural)]
pub struct MissingLabel;

/// A top-level field that may hold the records.
#[derive(Clone, Copy, Debug, PartialEq, Eq, Structural)]
pub enum RecordField {
    Entries,
    Data,
    Requests,
    TestData,
}

/// Why a file holds no records.
#[derive(Debug, PartialEq, Eq)]
pub enum RecordsError {
    /// The document is neither an array nor an object.
    NotArrayOrObject,
    /// The field of the records holds something else than an array.
    FieldNotAnArray { field: RecordField },
    /// The object has none of the fields; these are its fields.
    NoRecordField { keys: Vec<String> },
    /// The file is no document, nor is the line with this number.
    NotJson { json_error: String, line: usize, line_error: String },
}

/// What a [`RecordsError`] holds.
pub enum RecordsErrorView {
    NotArrayOrObject,
    FieldNotAnArray { field: RecordField },
    NoRecordField { keys: Seq<Seq<char>> },
    NotJson { json_error: Seq<char>, line: nat, line_error: Seq<char> },
}

impl View for RecordsError {
    type V = RecordsErrorView;

    open spec fn view(&self) -> RecordsErrorView {
        match self {
            RecordsError::NotArrayOrObject => RecordsErrorView::NotArrayOrObject,
            RecordsError::FieldNotAnArray { field } => RecordsErrorView::FieldNotAnArray {
                field: *field,
            },
            RecordsError::NoRecordField { keys } => RecordsErrorView::NoRecordField {
                keys: views(keys@),
            },
            RecordsError::NotJson { json_error, line, line_error } => RecordsErrorView::NotJson {
                json_error: json_error@,
                line: *line as nat,
                line_error: line_error@,
            },
        }
    }
}

impl RecordField {
    /// The name of the field.
    pub open spec fn name_spec(self) -> Seq<char> {
        match self {
            RecordField::Entries => "entries"@,
            RecordField::Data => "data"@,
            RecordField::Requests => "requests"@,
            RecordField::TestData => "test_data"@,
        }
    }

    /// The name of the field.
    pub fn name(self) -> (name: &'static str)
        ensures
            name@ == self.name_spec(),
    {
        match self {
            RecordField::Entries => "entries",
            RecordField::Data => "data",
            RecordField::Requests => "requests",
            RecordField::TestData => "test_data",
        }
    }
}

impl RecordsErrorView {
    /// The error in words.
    pub open spec fn message(self) -> Seq<char> {
        match self {
            RecordsErrorView::NotArrayOrObject => "top-level JSON must be an array or object"@,
            RecordsErrorView::FieldNotAnArray { field } => "top-level "@ + field.name_spec()
                + " field is not an array"@,
            RecordsErrorView::NoRecordField { keys } =>
                "top-level object does not contain a supported record array field (expected one of entries, data, requests, test_data; keys: "@
                + joined(keys, ", "@) + ")"@,
            RecordsErrorView::NotJson { json_error, .. } => "normal JSON parse failed ("@
                + json_error + "); JSON lines parse also failed"@,
        }
    }
}

impl RecordsError {
    /// The error in words.
    pub fn message(&self) -> (text: String)
        ensures
            text@ == self@.message(),
    {
        let mut text = String::new();
        match self {
            RecordsError::NotArrayOrObject => {
                text.append("top-level JSON must be an array or object");
            },
            RecordsError::FieldNotAnArray { field } => {
                text.append("top-level ");
                text.append(field.name());
                text.append(" field is not an array");
            },
            RecordsError::NoRecordField { keys } => {
                text.append(
                    "top-level object does not contain a supported record array field (expected one of entries, data, requests, test_data; keys: ",
                );
                text.append(join(keys, ", ").as_str());
                text.append(")");
            },
            RecordsError::NotJson { json_error, .. } => {
                text.append("normal JSON parse failed (");
                text.append(json_error.as_str());
                text.append("); JSON lines parse also failed");
            },
        }
        assert(text@ =~= self@.message());
        text
    }
}

/// What is said of a line that is no JSON document.
pub fn line_message(line: usize) -> (text: String)
    ensures
        text@ == "invalid JSON on line "@ + decimal(line as nat),
{
    let mut text = "invalid JSON on line ".to_owned();
    text.append(decimal_text(line).as_str());
    text
}

impl MissingLabel {
    /// The error in words.
    pub fn message(&self) -> (text: String)
        ensures
            text@ == "record does not contain a supported expected label field"@,
    {
        "record does not contain a supported expected label field".to_owned()
    }
}

/// The first of two readings that says something.
pub open spec fn first_of(first: Option<bool>, second: Option<bool>) -> Option<bool> {
    match first {
        Some(_) => first,
        None => second,
    }
}

/// The truth value of a field.
pub open spec fn truth_of_field(record: JsonTree, name: Seq<char>) -> Option<bool> {
    match record.field(name) {
        Some(value) => value.truth(),
        None => None,
    }
}

/// What the truth values of a record say: `expected_approved`, or else
/// `approved`, or else `approved` within `expected`.
pub open spec fn approved_fields(record: JsonTree) -> Option<bool> {
    first_of(
        truth_of_field(record, "expected_approved"@),
        first_of(
            truth_of_field(record, "approved"@),
            match record.field("expected"@) {
                Some(expected) => truth_of_field(expected, "approved"@),
                None => None,
            },
        ),
    )
}

/// What a label says: `legit` is approved and `fraud` is not, in upper or lower
/// case.
pub open spec fn label_approved(value: JsonTree) -> Option<bool> {
    match value {
        JsonTree::Text(label) => if lowered(label) == "legit"@ {
            Some(true)
        } else if lowered(label) == "fraud"@ {
            Some(false)
        } else {
            None
        },
        _ => None,
    }
}

/// What the labels of a record say: `expected`, or else `label`.
pub open spec fn label_fields(record: JsonTree) -> Option<bool> {
    first_of(
        match record.field("expected"@) {
            Some(value) => label_approved(value),
            None => None,
        },
        match record.field("label"@) {
            Some(value) => label_approved(value),
            None => None,
        },
    )
}

/// What is expected of a record, read in the given format.
pub open spec fn expected_approved(record: JsonTree, format: ExpectedFormat) -> Option<bool> {
    match format {
        ExpectedFormat::Auto => first_of(approved_fields(record), label_fields(record)),
        ExpectedFormat::Approved => approved_fields(record),
        ExpectedFormat::Label => label_fields(record),
    }
}

fn truth_of(record: &JsonValue, name: &str) -> (result: Option<bool>)
    ensures
        result == truth_of_field(record@, name@),
{
    match record.get(name) {
        Some(value) => value.as_bool(),
        None => None,
    }
}

/// Reads the truth values of a record.
pub fn extract_approved_fields(record: &JsonValue) -> (result: Option<bool>)
    ensures
        result == approved_fields(record@),
{
    let first: Option<bool> = truth_of(record, "expected_approved");
    if first.is_some() {
        return first;
    }
    let second: Option<bool> = truth_of(record, "approved");
    if second.is_some() {
        return second;
    }
    match record.get("expected") {
        Some(expected) => truth_of(expected, "approved"),
        None => None,
    }
}

/// Reads a label.
pub fn parse_label_approved(value: &JsonValue) -> (result: Option<bool>)
    ensures
        result == label_approved(value@),
{
    match value {
        JsonValue::Text(label) => {
            if equals_lowered(label.as_str(), "legit") {
                Some(true)
            } else if equals_lowered(label.as_str(), "fraud") {
                Some(false)
            } else {
                None
            }
        },
        _ => None,
    }
}

/// Reads the labels of a record.
pub fn extract_label_fields(record: &JsonValue) -> (result: Option<bool>)
    ensures
        result == label_fields(record@),
{
    if let Some(value) = record.get("expected") {
        let first: Option<bool> = parse_label_approved(value);
        if first.is_some() {
            return first;
        }
    }
    match record.get("label") {
        Some(value) => parse_label_approved(value),
        None => None,
    }
}

/// Reads what is expected of a record.
pub fn extract_expected_approved(record: &JsonValue, format: ExpectedFormat) -> (result: Option<
    bool,
>)
    ensures
        result == expected_approved(record@, format),
{
    match format {
        ExpectedFormat::Auto => {
            let first: Option<bool> = extract_approved_fields(record);
            if first.is_some() {
                first
            } else {
                extract_label_fields(record)
            }
        },
        ExpectedFormat::Approved => extract_approved_fields(record),
        ExpectedFormat::Label => extract_label_fields(record),
    }
}

/// A flat record without the fields that state what is expected.
pub open spec fn flat_request(record: JsonTree) -> JsonTree {
    match record {
        JsonTree::Object(fields) => JsonTree::Object(
            fields_without(
                fields_without(
                    fields_without(fields_without(fields, "expected"@), "label"@),
                    "expected_approved"@,
                ),
                "approved"@,
            ),
        ),
        _ => record,
    }
}

/// Takes the fields away that state what is expected.
pub fn request_from_flat_record(record: JsonValue) -> (request: JsonValue)
    ensures
        request@ == flat_request(record@),
{
    proof {
        lemma_tree_of_parts(record);
    }
    match record {
        JsonValue::Object(fields) => {
            let fields = remove_field(fields, "expected");
            let fields = remove_field(fields, "label");
            let fields = remove_field(fields, "expected_approved");
            let fields = remove_field(fields, "approved");
            let request = JsonValue::Object(fields);
            proof {
                lemma_tree_of_parts(request);
            }
            request
        },
        other => other,
    }
}

/// The request of a record: its field `request`, or else the record itself
/// without what is expected.
pub open spec fn request_of(record: JsonTree) -> JsonTree {
    match record.field("request"@) {
        Some(request) => request,
        None => flat_request(record),
    }
}

/// Splits a record into the request and the expected answer.
pub fn extract_case(record: JsonValue, expected_format: ExpectedFormat) -> (result: Result<
    ExtractedCase,
    MissingLabel,
>)
    ensures
        match result {
            Ok(case) => {
                &&& expected_approved(record@, expected_format) == Some(case.expected_approved)
                &&& case.request@ == request_of(record@)
            },
            Err(_) => expected_approved(record@, expected_format) is None,
        },
{
    let expected_approved: bool = match extract_expected_approved(&record, expected_format) {
        Some(expected_approved) => expected_approved,
        None => return Err(MissingLabel),
    };
    let request: JsonValue = match take_field(record, "request") {
        Ok(request) => request,
        Err(record) => request_from_flat_record(record),
    };
    Ok(ExtractedCase { expected_approved, request })
}

/// The request of a flat record has none of the fields that state what is
/// expected, and every other field as the record has it.
pub proof fn law_flat_request_is_unlabelled(record: JsonTree, name: Seq<char>)
    requires
        record is Object,
    ensures
        flat_request(record).field("expected"@) is None,
        flat_request(record).field("label"@) is None,
        flat_request(record).field("expected_approved"@) is None,
        flat_request(record).field("approved"@) is None,
        name != "expected"@ && name != "label"@ && name != "expected_approved"@ && name
            != "approved"@ ==> flat_request(record).field(name) == record.field(name),
{
    let first = record->Object_0;
    let second = fields_without(first, "expected"@);
    let third = fields_without(second, "label"@);
    let fourth = fields_without(third, "expected_approved"@);
    lemma_labels_differ();
    law_taken_field_is_gone(first, "expected"@, name);
    law_taken_field_is_gone(second, "label"@, name);
    law_taken_field_is_gone(second, "label"@, "expected"@);
    law_taken_field_is_gone(third, "expected_approved"@, name);
    law_taken_field_is_gone(third, "expected_approved"@, "expected"@);
    law_taken_field_is_gone(third, "expected_approved"@, "label"@);
    law_taken_field_is_gone(fourth, "approved"@, name);
    law_taken_field_is_gone(fourth, "approved"@, "expected"@);
    law_taken_field_is_gone(fourth, "approved"@, "label"@);
    law_taken_field_is_gone(fourth, "approved"@, "expected_approved"@);
}

proof fn lemma_labels_differ()
    ensures
        "expected"@ != "label"@,
        "expected"@ != "expected_approved"@,
        "expected"@ != "approved"@,
        "label"@ != "expected_approved"@,
        "label"@ != "approved"@,
        "expected_approved"@ != "approved"@,
{
    reveal_strlit("expected");
    reveal_strlit("label");
    reveal_strlit("expected_approved");
    reveal_strlit("approved");
    assert("expected"@.len() == 8);
    assert("label"@.len() == 5);
    assert("expected_approved"@.len() == 17);
    assert("expected"@[0] != "approved"@[0]);
}

/// The fields that may hold the records, in the order in which they are tried.
pub open spec fn record_fields() -> Seq<RecordField> {
    seq![RecordField::Entries, RecordField::Data, RecordField::Requests, RecordField::TestData]
}

/// The first field, from position `tried` on, that the document has.
pub open spec fn record_field_of(document: JsonTree, tried: nat) -> Option<RecordField>
    decreases record_fields().len() - tried,
{
    if tried >= record_fields().len() {
        None
    } else if document.field(record_fields()[tried as int].name_spec()) is Some {
        Some(record_fields()[tried as int])
    } else {
        record_field_of(document, tried + 1)
    }
}

/// The names of some fields.
pub open spec fn field_names(fields: Seq<(Seq<char>, JsonTree)>) -> Seq<Seq<char>> {
    fields.map_values(|field: (Seq<char>, JsonTree)| field.0)
}

/// The records of a document: its items, or those of the first of its fields that
/// may hold records.
pub open spec fn records_in(document: JsonTree) -> Result<Seq<JsonTree>, RecordsErrorView> {
    match document {
        JsonTree::Array(records) => Ok(records),
        JsonTree::Object(fields) => match record_field_of(document, 0) {
            Some(field) => match document.field(field.name_spec()) {
                Some(JsonTree::Array(records)) => Ok(records),
                _ => Err(RecordsErrorView::FieldNotAnArray { field }),
            },
            None => Err(RecordsErrorView::NoRecordField { keys: field_names(fields) }),
        },
        _ => Err(RecordsErrorView::NotArrayOrObject),
    }
}

/// The records that a field holds.
fn records_of_field(value: JsonValue, field: RecordField) -> (result: Result<
    Vec<JsonValue>,
    RecordsError,
>)
    ensures
        match result {
            Ok(records) => value@ == JsonTree::Array(trees(records@)),
            Err(error) => !(value@ is Array) && error@ == (RecordsErrorView::FieldNotAnArray {
                field,
            }),
        },
{
    proof {
        lemma_tree_of_parts(value);
    }
    match value {
        JsonValue::Array(records) => Ok(records),
        _ => Err(RecordsError::FieldNotAnArray { field }),
    }
}

/// The names of an object's fields.
fn keys_of(fields: Vec<(String, JsonValue)>) -> (keys: Vec<String>)
    ensures
        views(keys@) == field_names(field_trees(fields@)),
{
    let ghost all = fields@;
    let mut keys: Vec<String> = Vec::new();
    for field in iter: fields
        invariant
            iter.seq() == all,
            keys@.len() == iter.index(),
            forall|i: int| 0 <= i < keys@.len() ==> (#[trigger] keys@[i])@ == all[i].0@,
    {
        let (key, _) = field;
        keys.push(key);
    }
    assert(views(keys@) =~= field_names(field_trees(fields@)));
    keys
}

/// Finds the records of a document.
pub fn unwrap_records(value: JsonValue) -> (result: Result<Vec<JsonValue>, RecordsError>)
    ensures
        match result {
            Ok(records) => records_in(value@) == Ok::<Seq<JsonTree>, RecordsErrorView>(
                trees(records@),
            ),
            Err(error) => records_in(value@) == Err::<Seq<JsonTree>, RecordsErrorView>(error@),
        },
{
    proof {
        lemma_tree_of_parts(value);
        reveal_with_fuel(record_field_of, 5);
    }
    if let JsonValue::Array(records) = value {
        return Ok(records);
    }
    let object: bool = match &value {
        JsonValue::Object(_) => true,
        _ => false,
    };
    if !object {
        return Err(RecordsError::NotArrayOrObject);
    }
    let value = match take_field(value, RecordField::Entries.name()) {
        Ok(records) => return records_of_field(records, RecordField::Entries),
        Err(value) => value,
    };
    let value = match take_field(value, RecordField::Data.name()) {
        Ok(records) => return records_of_field(records, RecordField::Data),
        Err(value) => value,
    };
    let value = match take_field(value, RecordField::Requests.name()) {
        Ok(records) => return records_of_field(records, RecordField::Requests),
        Err(value) => value,
    };
    let value = match take_field(value, RecordField::TestData.name()) {
        Ok(records) => return records_of_field(records, RecordField::TestData),
        Err(value) => value,
    };
    match value {
        JsonValue::Object(fields) => Err(RecordsError::NoRecordField { keys: keys_of(fields) }),
        _ => Err(RecordsError::NotArrayOrObject),
    }
}

/// The lines that are not blank, without white space at their ends, each with its
/// number; the first line has number one.
pub open spec fn filled_lines(lines: Seq<Seq<char>>) -> Seq<(nat, Seq<char>)>
    decreases lines.len(),
{
    if lines.len() == 0 {
        Seq::empty()
    } else {
        let line = trimmed(lines.last());
        let before = filled_lines(lines.drop_last());
        if line.len() == 0 {
            before
        } else {
            before.push((lines.len(), line))
        }
    }
}

/// The views of some numbered lines.
pub open spec fn line_views(lines: Seq<(usize, &str)>) -> Seq<(nat, Seq<char>)> {
    lines.map_values(|line: (usize, &str)| (line.0 as nat, line.1@))
}

/// Splits a file into the lines that are not blank.
pub fn json_lines(raw: &str) -> (result: Vec<(usize, &str)>)
    ensures
        line_views(result@) == filled_lines(lines_of(raw@)),
{
    let lines: Vec<&str> = split_lines(raw);
    let ghost all = lines_of(raw@);
    let mut filled: Vec<(usize, &str)> = Vec::new();
    assert(line_views(filled@) =~= Seq::empty());
    for line_index in 0..lines.len()
        invariant
            all == lines_of(raw@),
            lines@.len() == all.len(),
            forall|i: int| 0 <= i < lines@.len() ==> #[trigger] lines@[i]@ == all[i],
            line_views(filled@) == filled_lines(all.take(line_index as int)),
    {
        let ghost before = filled@;
        assert(all.take(line_index + 1).drop_last() =~= all.take(line_index as int));
        let line: &str = trim(lines[line_index]);
        if !line.is_empty() {
            filled.push((line_index + 1, line));
            assert(line_views(filled@) =~= line_views(before).push(
                ((line_index + 1) as nat, line@),
            ));
        }
    }
    assert(all.take(all.len() as int) =~= all);
    filled
}

/// What became of one line: the document that it is, or why it is none.
pub open spec fn outcome(parsed: Result<JsonValue, String>) -> Result<JsonTree, Seq<char>> {
    match parsed {
        Ok(record) => Ok(record@),
        Err(error) => Err(error@),
    }
}

/// What became of some numbered lines.
pub open spec fn outcomes(parsed: Seq<(usize, Result<JsonValue, String>)>) -> Seq<
    (nat, Result<JsonTree, Seq<char>>),
> {
    parsed.map_values(
        |line: (usize, Result<JsonValue, String>)| (line.0 as nat, outcome(line.1)),
    )
}

/// The documents of numbered lines, or the number of the first line that is none
/// and what is wrong with it.
pub open spec fn collected(lines: Seq<(nat, Result<JsonTree, Seq<char>>)>) -> Result<
    Seq<JsonTree>,
    (nat, Seq<char>),
>
    decreases lines.len(),
{
    if lines.len() == 0 {
        Ok(Seq::empty())
    } else {
        match collected(lines.drop_last()) {
            Ok(before) => match lines.last().1 {
                Ok(record) => Ok(before.push(record)),
                Err(error) => Err((lines.last().0, error)),
            },
            Err(error) => Err(error),
        }
    }
}

/// A line that is no document decides, whatever follows it.
proof fn lemma_first_bad_line(lines: Seq<(nat, Result<JsonTree, Seq<char>>)>, count: int)
    requires
        0 <= count <= lines.len(),
        collected(lines.take(count)) is Err,
    ensures
        collected(lines) == collected(lines.take(count)),
    decreases lines.len(),
{
    if count < lines.len() {
        assert(lines.drop_last().take(count) =~= lines.take(count));
        lemma_first_bad_line(lines.drop_last(), count);
    } else {
        assert(lines.take(count) =~= lines);
    }
}

/// Collects the documents of numbered lines.
pub fn collect_records(parsed: Vec<(usize, Result<JsonValue, String>)>) -> (result: Result<
    Vec<JsonValue>,
    (usize, String),
>)
    ensures
        match result {
            Ok(records) => collected(outcomes(parsed@)) == Ok::<Seq<JsonTree>, (nat, Seq<char>)>(
                trees(records@),
            ),
            Err(error) => collected(outcomes(parsed@)) == Err::<Seq<JsonTree>, (nat, Seq<char>)>(
                (error.0 as nat, error.1@),
            ),
        },
{
    let ghost lines = parsed@;
    let ghost all = outcomes(lines);
    let mut records: Vec<JsonValue> = Vec::new();
    assert(trees(records@) =~= Seq::empty());
    for line in iter: parsed
        invariant
            iter.seq() == lines,
            all == outcomes(lines),
            collected(all.take(iter.index() as int)) == Ok::<Seq<JsonTree>, (nat, Seq<char>)>(
                trees(records@),
            ),
    {
        let ghost before = records@;
        let ghost next = all.take(iter.index() + 1);
        assert(next.drop_last() =~= all.take(iter.index() as int));
        assert(next.last() == (line.0 as nat, outcome(line.1)));
        let (number, outcome) = line;
        match outcome {
            Ok(record) => {
                records.push(record);
                assert(trees(records@) =~= trees(before).push(record@));
            },
            Err(error) => {
                proof {
                    lemma_first_bad_line(all, iter.index() + 1);
                }
                return Err((number, error));
            },
        }
    }
    assert(all.take(all.len() as int) =~= all);
    Ok(records)
}

/// What becomes of numbered lines when each is read as a document.
pub open spec fn parsed_lines(lines: Seq<(nat, Seq<char>)>) -> Seq<
    (nat, Result<JsonTree, Seq<char>>),
> {
    lines.map_values(|line: (nat, Seq<char>)| (line.0, parsed_json(line.1)))
}

/// The records of a file that has one document per line.
pub open spec fn records_in_lines(raw: Seq<char>) -> Result<Seq<JsonTree>, (nat, Seq<char>)> {
    collected(parsed_lines(filled_lines(lines_of(raw))))
}

/// Reads a file that has one document per line.
pub fn parse_json_lines(raw: &str) -> (result: Result<Vec<JsonValue>, (usize, String)>)
    ensures
        match result {
            Ok(records) => records_in_lines(raw@) == Ok::<Seq<JsonTree>, (nat, Seq<char>)>(
                trees(records@),
            ),
            Err(error) => records_in_lines(raw@) == Err::<Seq<JsonTree>, (nat, Seq<char>)>(
                (error.0 as nat, error.1@),
            ),
        },
{
    let lines: Vec<(usize, &str)> = json_lines(raw);
    let ghost all = line_views(lines@);
    let mut parsed: Vec<(usize, Result<JsonValue, String>)> = Vec::new();
    for idx in 0..lines.len()
        invariant
            all == line_views(lines@),
            parsed@.len() == idx,
            forall|i: int|
                0 <= i < idx ==> (#[trigger] parsed@[i]).0 == all[i].0 && outcome(parsed@[i].1)
                    == parsed_json(all[i].1),
    {
        let (number, line) = lines[idx];
        assert(all[idx as int] == (number as nat, line@));
        parsed.push((number, parse_json(line)));
    }
    assert(outcomes(parsed@) =~= parsed_lines(all));
    collect_records(parsed)
}

/// The records of a file: of the document that it is, or else of the documents
/// that its lines are.
pub open spec fn records_of_file(raw: Seq<char>) -> Result<Seq<JsonTree>, RecordsErrorView> {
    match parsed_json(raw) {
        Ok(document) => records_in(document),
        Err(json_error) => match records_in_lines(raw) {
            Ok(records) => Ok(records),
            Err((line, line_error)) => Err(
                RecordsErrorView::NotJson { json_error, line, line_error },
            ),
        },
    }
}

/// Reads the records of a file.
pub fn parse_records(raw: &str) -> (result: Result<Vec<JsonValue>, RecordsError>)
    ensures
        match result {
            Ok(records) => records_of_file(raw@) == Ok::<Seq<JsonTree>, RecordsErrorView>(
                trees(records@),
            ),
            Err(error) => records_of_file(raw@) == Err::<Seq<JsonTree>, RecordsErrorView>(error@),
        },
{
    match parse_json(raw) {
        Ok(value) => unwrap_records(value),
        Err(json_error) => match parse_json_lines(raw) {
            Ok(records) => Ok(records),
            Err((line, line_error)) => Err(
                RecordsError::NotJson { json_error, line, line_error },
            ),
        },
    }
}

/// A truth value in `expected_approved` is what is expected, whatever the other fields are;
/// else one in `approved` is, and else one in `approved` within `expected`. Without any of
/// them a record read for truth values states nothing, and one read in either way is read
/// for labels.
pub proof fn law_truth_values_are_expected(record: JsonTree, truth: bool)
    ensures
        ({
            let read = |format: ExpectedFormat| expected_approved(record, format);
            let direct = record.field("expected_approved"@);
            let plain = record.field("approved"@);
            let expected = record.field("expected"@);
            let inner = match expected {
                Some(value) => value.field("approved"@),
                None => None,
            };
            let said = |value: Option<JsonTree>| value matches Some(JsonTree::Bool(_));
            &&& direct == Some(JsonTree::Bool(truth)) ==> read(ExpectedFormat::Auto) == Some(truth)
                && read(ExpectedFormat::Approved) == Some(truth)
            &&& !said(direct) && plain == Some(JsonTree::Bool(truth)) ==> read(
                ExpectedFormat::Auto,
            ) == Some(truth) && read(ExpectedFormat::Approved) == Some(truth)
            &&& !said(direct) && !said(plain) && inner == Some(JsonTree::Bool(truth)) ==> read(
                ExpectedFormat::Auto,
            ) == Some(truth) && read(ExpectedFormat::Approved) == Some(truth)
            &&& !said(direct) && !said(plain) && !said(inner) ==> read(ExpectedFormat::Approved)
                is None && read(ExpectedFormat::Auto) == read(ExpectedFormat::Label)
        }),
{
}

/// A label `legit` in `expected`, or else in `label`, expects approval, and a label `fraud`
/// expects refusal, in capitals or not. Any other text is no label.
pub proof fn law_labels_are_expected(record: JsonTree, label: Seq<char>)
    ensures
        ({
            let read = expected_approved(record, ExpectedFormat::Label);
            let first = record.field("expected"@);
            let second = record.field("label"@);
            let is_label = |value: Option<JsonTree>|
                value matches Some(JsonTree::Text(text)) && (lowered(text) == "legit"@ || lowered(
                    text,
                ) == "fraud"@);
            &&& first == Some(JsonTree::Text(label)) && lowered(label) == "legit"@ ==> read == Some(
                true,
            )
            &&& first == Some(JsonTree::Text(label)) && lowered(label) == "fraud"@ ==> read == Some(
                false,
            )
            &&& !is_label(first) && second == Some(JsonTree::Text(label)) && lowered(label)
                == "legit"@ ==> read == Some(true)
            &&& !is_label(first) && second == Some(JsonTree::Text(label)) && lowered(label)
                == "fraud"@ ==> read == Some(false)
            &&& !is_label(first) && !is_label(second) ==> read is None
        }),
{
    reveal_strlit("legit");
    reveal_strlit("fraud");
    assert("legit"@[0] != "fraud"@[0]);
}

/// The request of a record is its field `request`; a record without that is its own request,
/// with the four fields that state what is expected taken away and every other one kept, or
/// unchanged if it is no object.
pub proof fn law_request_of_a_record(record: JsonTree, request: JsonTree, name: Seq<char>)
    ensures
        record.field("request"@) == Some(request) ==> request_of(record) == request,
        record.field("request"@) is None && !(record is Object) ==> request_of(record) == record,
        record.field("request"@) is None && record is Object ==> {
            &&& request_of(record) is Object
            &&& request_of(record).field("expected"@) is None
            &&& request_of(record).field("label"@) is None
            &&& request_of(record).field("expected_approved"@) is None
            &&& request_of(record).field("approved"@) is None
            &&& name != "expected"@ && name != "label"@ && name != "expected_approved"@ && name
                != "approved"@ ==> request_of(record).field(name) == record.field(name)
        },
        record matches JsonTree::Object(fields) ==> flat_request(record) == JsonTree::Object(
            fields.filter(
                |field: (Seq<char>, JsonTree)|
                    field.0 != "expected"@ && field.0 != "label"@ && field.0
                        != "expected_approved"@ && field.0 != "approved"@,
            ),
        ),
{
    if let JsonTree::Object(fields) = record {
        law_flat_request_is_unlabelled(record, name);
        lemma_flat_fields(fields);
    }
}

proof fn lemma_flat_fields(fields: Seq<(Seq<char>, JsonTree)>)
    ensures
        fields_without(
            fields_without(
                fields_without(fields_without(fields, "expected"@), "label"@),
                "expected_approved"@,
            ),
            "approved"@,
        ) == fields.filter(
            |field: (Seq<char>, JsonTree)|
                field.0 != "expected"@ && field.0 != "label"@ && field.0 != "expected_approved"@
                    && field.0 != "approved"@,
        ),
    decreases fields.len(),
{
    reveal(Seq::filter);
    if fields.len() > 0 {
        let front = fields.drop_last();
        let last = fields.last();
        lemma_flat_fields(front);
        assert(front.push(last) =~= fields);
        let first = fields_without(front, "expected"@);
        let second = fields_without(first, "label"@);
        let third = fields_without(second, "expected_approved"@);
        law_other_fields_keep_their_order(front, last, "expected"@);
        law_other_fields_keep_their_order(first, last, "label"@);
        law_other_fields_keep_their_order(second, last, "expected_approved"@);
        law_other_fields_keep_their_order(third, last, "approved"@);
    }
}

/// The records of an array are its items. Those of an object are the items of its field
/// `entries`, or without that of `data`, or without both of `requests`, or else of `test_data`;
/// it is an error if that field is no array, and another, with all names, if there is none.
/// Nothing else has records.
pub proof fn law_where_records_stand(document: JsonTree, records: Seq<JsonTree>)
    ensures
        ({
            let entries = document.field("entries"@);
            let data = document.field("data"@);
            let requests = document.field("requests"@);
            let test_data = document.field("test_data"@);
            let found = records_in(document);
            let outcome = |value: Option<JsonTree>, field: RecordField|
                {
                    &&& value == Some(JsonTree::Array(records)) ==> found == Ok::<
                        Seq<JsonTree>,
                        RecordsErrorView,
                    >(records)
                    &&& !(value->0 is Array) ==> found == Err::<Seq<JsonTree>, RecordsErrorView>(
                        RecordsErrorView::FieldNotAnArray { field },
                    )
                };
            &&& document == JsonTree::Array(records) ==> found == Ok::<
                Seq<JsonTree>,
                RecordsErrorView,
            >(records)
            &&& !(document is Array) && !(document is Object) ==> found == Err::<
                Seq<JsonTree>,
                RecordsErrorView,
            >(RecordsErrorView::NotArrayOrObject)
            &&& entries is Some ==> outcome(entries, RecordField::Entries)
            &&& entries is None && data is Some ==> outcome(data, RecordField::Data)
            &&& entries is None && data is None && requests is Some ==> outcome(
                requests,
                RecordField::Requests,
            )
            &&& entries is None && data is None && requests is None && test_data is Some ==> outcome(
                test_data,
                RecordField::TestData,
            )
            &&& document is Object && entries is None && data is None && requests is None
                && test_data is None ==> {
                &&& found matches Err(RecordsErrorView::NoRecordField { keys })
                &&& keys.len() == document->Object_0.len()
                &&& forall|i: int|
                    0 <= i < keys.len() ==> #[trigger] keys[i] == document->Object_0[i].0
            }
        }),
{
    reveal_with_fuel(record_field_of, 5);
}

/// Every line that is not blank stands once among the filled lines, in order, under its own
/// number and without white space at its ends, and nothing else stands there.
pub proof fn law_filled_lines_keep_their_numbers(lines: Seq<Seq<char>>)
    ensures
        forall|k: int|
            0 <= k < filled_lines(lines).len() ==> {
                let (number, text) = #[trigger] filled_lines(lines)[k];
                &&& 1 <= number <= lines.len()
                &&& text == trimmed(lines[number - 1])
                &&& text.len() > 0
            },
        forall|j: int, k: int|
            #![trigger filled_lines(lines)[j], filled_lines(lines)[k]]
            0 <= j < k < filled_lines(lines).len() ==> filled_lines(lines)[j].0 < filled_lines(
                lines,
            )[k].0,
        forall|i: int|
            0 <= i < lines.len() && trimmed(#[trigger] lines[i]).len() > 0 ==> filled_lines(
                lines,
            ).contains(((i + 1) as nat, trimmed(lines[i]))),
    decreases lines.len(),
{
    if lines.len() > 0 {
        let front = lines.drop_last();
        let before = filled_lines(front);
        let all = filled_lines(lines);
        law_filled_lines_keep_their_numbers(front);
        assert forall|k: int| 0 <= k < all.len() implies {
            let (number, text) = #[trigger] all[k];
            &&& 1 <= number <= lines.len()
            &&& text == trimmed(lines[number - 1])
            &&& text.len() > 0
        } by {
            if k < before.len() {
                assert(all[k] == before[k]);
                assert(front[before[k].0 - 1] == lines[before[k].0 - 1]);
            }
        }
        assert forall|j: int, k: int|
            #![trigger all[j], all[k]]
            0 <= j < k < all.len() implies all[j].0 < all[k].0 by {
            assert(all[j] == before[j]);
            if k < before.len() {
                assert(all[k] == before[k]);
            }
        }
        assert forall|i: int|
            0 <= i < lines.len() && trimmed(#[trigger] lines[i]).len() > 0 implies all.contains(
            ((i + 1) as nat, trimmed(lines[i])),
        ) by {
            let wanted = ((i + 1) as nat, trimmed(lines[i]));
            if i < front.len() {
                assert(front[i] == lines[i]);
                assert(before.contains(wanted));
                let k = choose|k: int| 0 <= k < before.len() && before[k] == wanted;
                assert(all[k] == wanted);
            } else {
                assert(all[before.len() as int] == wanted);
            }
        }
    }
}

/// Records are collected if every line is a document, all of them in order; otherwise the
/// first line that is none is told, with its number and what is wrong with it.
pub proof fn law_first_bad_line_is_told(
    lines: Seq<(nat, Result<JsonTree, Seq<char>>)>,
    bad: int,
)
    ensures
        (forall|i: int| 0 <= i < lines.len() ==> (#[trigger] lines[i]).1 is Ok) ==> {
            &&& collected(lines) is Ok
            &&& collected(lines)->Ok_0.len() == lines.len()
            &&& forall|i: int|
                0 <= i < lines.len() ==> #[trigger] collected(lines)->Ok_0[i] == lines[i].1->Ok_0
        },
        0 <= bad < lines.len() && lines[bad].1 is Err && (forall|i: int|
            0 <= i < bad ==> (#[trigger] lines[i]).1 is Ok) ==> collected(lines) == Err::<
            Seq<JsonTree>,
            (nat, Seq<char>),
        >((lines[bad].0, lines[bad].1->Err_0)),
    decreases lines.len(),
{
    if lines.len() > 0 {
        let front = lines.drop_last();
        law_first_bad_line_is_told(front, bad);
        assert forall|i: int| 0 <= i < front.len() implies front[i] == lines[i] by {}
        if 0 <= bad < lines.len() && lines[bad].1 is Err && (forall|i: int|
            0 <= i < bad ==> (#[trigger] lines[i]).1 is Ok) {
            assert forall|i: int| 0 <= i < bad implies (#[trigger] front[i]).1 is Ok by {
                assert(lines[i].1 is Ok);
            }
        }
        if forall|i: int| 0 <= i < lines.len() ==> (#[trigger] lines[i]).1 is Ok {
            assert forall|i: int| 0 <= i < front.len() implies (#[trigger] front[i]).1 is Ok by {
                assert(lines[i].1 is Ok);
            }
            assert(lines[lines.len() - 1].1 is Ok);
        }
    }
}

/// A file is read as one document, and only if it is none as one document per line that is
/// not blank; if a line is none either, both errors are told.
pub proof fn law_how_a_file_is_read(raw: Seq<char>, i: int)
    ensures
        ({
            let lines = filled_lines(lines_of(raw));
            let parsed = parsed_lines(lines);
            &&& parsed_json(raw) matches Ok(document) ==> records_of_file(raw) == records_in(document)
            &&& parsed_json(raw) is Err && collected(parsed) is Ok ==> records_of_file(raw) == Ok::<
                Seq<JsonTree>,
                RecordsErrorView,
            >(collected(parsed)->Ok_0)
            &&& parsed_json(raw) is Err && collected(parsed) is Err ==> records_of_file(raw)
                == Err::<Seq<JsonTree>, RecordsErrorView>(
                RecordsErrorView::NotJson {
                    json_error: parsed_json(raw)->Err_0,
                    line: collected(parsed)->Err_0.0,
                    line_error: collected(parsed)->Err_0.1,
                },
            )
            &&& records_in_lines(raw) == collected(parsed)
            &&& parsed.len() == lines.len()
            &&& 0 <= i < lines.len() ==> parsed[i].0 == lines[i].0 && parsed[i].1 == parsed_json(
                lines[i].1,
            )
        }),
{
}

/// Views of lines and of what became of them keep their numbers and contents.
pub proof fn law_views_of_lines(
    lines: Seq<(usize, &str)>,
    parsed: Seq<(usize, Result<JsonValue, String>)>,
    i: int,
)
    ensures
        line_views(lines).len() == lines.len(),
        0 <= i < lines.len() ==> line_views(lines)[i].0 == lines[i].0 && line_views(lines)[i].1
            == lines[i].1@,
        outcomes(parsed).len() == parsed.len(),
        0 <= i < parsed.len() ==> {
            &&& outcomes(parsed)[i].0 == parsed[i].0
            &&& parsed[i].1 matches Ok(value) ==> outcomes(parsed)[i].1 == Ok::<
                JsonTree,
                Seq<char>,
            >(value@)
            &&& parsed[i].1 matches Err(error) ==> outcomes(parsed)[i].1 == Err::<
                JsonTree,
                Seq<char>,
            >(error@)
        },
{
}

/// An error tells all that it holds: every name of a field, and the whole error of the parser.
pub proof fn law_record_errors_are_told_in_full(keys: Seq<Seq<char>>, json_error: Seq<char>)
    ensures
        (RecordsErrorView::NoRecordField { keys }).message()
            == "top-level object does not contain a supported record array field (expected one of entries, data, requests, test_data; keys: "@
            + joined(keys, ", "@) + ")"@,
        forall|line: nat, line_error: Seq<char>|
            #[trigger] (RecordsErrorView::NotJson { json_error, line, line_error }).message()
                == "normal JSON parse failed ("@ + json_error
                + "); JSON lines parse also failed"@,
{
}

/// Reading truth values and reading labels are the two readings of a record, and a single
/// label expects approval exactly if it is `legit`, refusal exactly if it is `fraud`.
pub proof fn law_readings_agree(record: JsonTree, value: JsonTree)
    ensures
        approved_fields(record) == expected_approved(record, ExpectedFormat::Approved),
        label_fields(record) == expected_approved(record, ExpectedFormat::Label),
        label_approved(value) == Some(true) <==> (value matches JsonTree::Text(label) && lowered(
            label,
        ) == "legit"@),
        label_approved(value) == Some(false) <==> (value matches JsonTree::Text(label) && lowered(
            label,
        ) == "fraud"@),
        !(record is Object) ==> flat_request(record) == record,
{
    reveal_strlit("legit");
    reveal_strlit("fraud");
    assert("legit"@[0] != "fraud"@[0]);
}

/// The view of an error keeps what the error holds.
pub proof fn law_views_of_record_errors(error: RecordsError)
    ensures
        error is NotArrayOrObject ==> error@ is NotArrayOrObject,
        error matches RecordsError::FieldNotAnArray { field } ==> error@
            == (RecordsErrorView::FieldNotAnArray { field }),
        error matches RecordsError::NoRecordField { keys } ==> error@
            == (RecordsErrorView::NoRecordField { keys: views(keys@) }),
        error matches RecordsError::NotJson { json_error, line, line_error } ==> error@
            == (RecordsErrorView::NotJson {
            json_error: json_error@,
            line: line as nat,
            line_error: line_error@,
        }),
        RecordField::Entries.name_spec() == "entries"@,
        RecordField::Data.name_spec() == "data"@,
        RecordField::Requests.name_spec() == "requests"@,
        RecordField::TestData.name_spec() == "test_data"@,
{
}

} // verus!
