//! JSON documents as plain values.
use vstd::prelude::*;

use crate::text::same_text;

verus! {

/// A number as it stands in a document; the library only passes it on.
#[verifier::external_type_specification]
#[verifier::external_body]
pub struct ExNumber(serde_json::Number);

/// A JSON value. An object lists its fields in the order of its map.
#[derive(Debug, PartialEq, Eq)]
pub enum JsonValue {
    Null,
    Bool(bool),
    Number(serde_json::Number),
    Text(String),
    Array(Vec<JsonValue>),
    Object(Vec<(String, JsonValue)>),
}

/// What a [`JsonValue`] holds.
pub enum JsonTree {
    Null,
    Bool(bool),
    Number(serde_json::Number),
    Text(Seq<char>),
    Array(Seq<JsonTree>),
    Object(Seq<(Seq<char>, JsonTree)>),
}

impl View for JsonValue {
    type V = JsonTree;

    open spec fn view(&self) -> JsonTree {
        self.tree()
    }
}

impl JsonValue {
    /// What the value holds.
    pub open spec fn tree(&self) -> JsonTree
        decreases self,
    {
        match self {
            JsonValue::Null => JsonTree::Null,
            JsonValue::Bool(value) => JsonTree::Bool(*value),
            JsonValue::Number(value) => JsonTree::Number(*value),
            JsonValue::Text(value) => JsonTree::Text(value@),
            JsonValue::Array(items) => JsonTree::Array(
                Seq::new(
                    items@.len(),
                    |i: int|
                        if 0 <= i < items@.len() {
                            items@[i].tree()
                        } else {
                            arbitrary()
                        },
                ),
            ),
            JsonValue::Object(fields) => JsonTree::Object(
                Seq::new(
                    fields@.len(),
                    |i: int|
                        if 0 <= i < fields@.len() {
                            (fields@[i].0@, fields@[i].1.tree())
                        } else {
                            arbitrary()
                        },
                ),
            ),
        }
    }
}

/// What the items of an array hold.
pub open spec fn trees(items: Seq<JsonValue>) -> Seq<JsonTree> {
    Seq::new(items.len(), |i: int| items[i].tree())
}

/// What the fields of an object hold.
pub open spec fn field_trees(fields: Seq<(String, JsonValue)>) -> Seq<(Seq<char>, JsonTree)> {
    Seq::new(fields.len(), |i: int| (fields[i].0@, fields[i].1.tree()))
}

/// The position of the first field with this name.
pub open spec fn field_index(fields: Seq<(Seq<char>, JsonTree)>, name: Seq<char>) -> Option<int>
    decreases fields.len(),
{
    if fields.len() == 0 {
        None
    } else {
        match field_index(fields.drop_last(), name) {
            Some(index) => Some(index),
            None => if fields.last().0 == name {
                Some(fields.len() - 1)
            } else {
                None
            },
        }
    }
}

/// The fields with another name.
pub open spec fn fields_without(
    fields: Seq<(Seq<char>, JsonTree)>,
    name: Seq<char>,
) -> Seq<(Seq<char>, JsonTree)> {
    fields.filter(|field: (Seq<char>, JsonTree)| field.0 != name)
}

impl JsonTree {
    /// The value of a field of an object.
    pub open spec fn field(self, name: Seq<char>) -> Option<JsonTree> {
        match self {
            JsonTree::Object(fields) => match field_index(fields, name) {
                Some(index) => Some(fields[index].1),
                None => None,
            },
            _ => None,
        }
    }

    /// The truth value, if the value is one.
    pub open spec fn truth(self) -> Option<bool> {
        match self {
            JsonTree::Bool(value) => Some(value),
            _ => None,
        }
    }
}

/// The contents of an array are those of its items, and the contents of an object
/// are those of its fields.
pub proof fn lemma_tree_of_parts(value: JsonValue)
    ensures
        value matches JsonValue::Array(items) ==> value@ == JsonTree::Array(trees(items@)),
        value matches JsonValue::Object(fields) ==> value@ == JsonTree::Object(
            field_trees(fields@),
        ),
{
    match value {
        JsonValue::Array(items) => {
            assert(value.tree()->Array_0 =~= trees(items@));
        },
        JsonValue::Object(fields) => {
            assert(value.tree()->Object_0 =~= field_trees(fields@));
        },
        _ => {},
    }
}

/// The position found is one of a field with this name, and the first one.
pub proof fn lemma_field_index(fields: Seq<(Seq<char>, JsonTree)>, name: Seq<char>)
    ensures
        match field_index(fields, name) {
            Some(index) => {
                &&& 0 <= index < fields.len()
                &&& fields[index].0 == name
                &&& forall|i: int| 0 <= i < index ==> (#[trigger] fields[i]).0 != name
            },
            None => forall|i: int| 0 <= i < fields.len() ==> (#[trigger] fields[i]).0 != name,
        },
    decreases fields.len(),
{
    if fields.len() > 0 {
        let front = fields.drop_last();
        lemma_field_index(front, name);
        assert forall|i: int| 0 <= i < front.len() implies front[i] == fields[i] by {}
        match field_index(front, name) {
            Some(index) => {
                assert forall|i: int| 0 <= i < index implies (#[trigger] fields[i]).0 != name by {
                    assert(front[i].0 != name);
                }
            },
            None => {
                assert forall|i: int| 0 <= i < front.len() implies (#[trigger] fields[i]).0
                    != name by {
                    assert(front[i].0 != name);
                }
            },
        }
    }
}

/// Taking a field away leaves no field of that name and every other one as it is.
pub proof fn law_taken_field_is_gone(
    fields: Seq<(Seq<char>, JsonTree)>,
    name: Seq<char>,
    other: Seq<char>,
)
    ensures
        JsonTree::Object(fields_without(fields, name)).field(name) is None,
        other != name ==> JsonTree::Object(fields_without(fields, name)).field(other)
            == JsonTree::Object(fields).field(other),
    decreases fields.len(),
{
    reveal(Seq::filter);
    let kept = fields_without(fields, name);
    if fields.len() > 0 {
        let front = fields.drop_last();
        let kept_front = fields_without(front, name);
        law_taken_field_is_gone(front, name, other);
        lemma_field_index(front, other);
        lemma_field_index(kept_front, other);
        lemma_field_index(kept_front, name);
        if fields.last().0 != name {
            assert(kept =~= kept_front.push(fields.last()));
            assert(kept.drop_last() =~= kept_front);
        } else {
            assert(kept =~= kept_front);
        }
    }
}

impl JsonValue {
    /// The value of a field, if this is an object that has it.
    pub fn get(&self, name: &str) -> (result: Option<&JsonValue>)
        ensures
            match result {
                Some(value) => self@.field(name@) == Some(value@),
                None => self@.field(name@) is None,
            },
    {
        proof {
            lemma_tree_of_parts(*self);
        }
        match self {
            JsonValue::Object(fields) => {
                let ghost all = field_trees(fields@);
                for idx in 0..fields.len()
                    invariant
                        all == field_trees(fields@),
                        self@ == JsonTree::Object(all),
                        forall|i: int| 0 <= i < idx ==> (#[trigger] all[i]).0 != name@,
                {
                    assert(all[idx as int].0 == fields@[idx as int].0@);
                    if same_text(fields[idx].0.as_str(), name) {
                        proof {
                            lemma_field_index(all, name@);
                        }
                        return Some(&fields[idx].1);
                    }
                }
                proof {
                    lemma_field_index(all, name@);
                }
                None
            },
            _ => None,
        }
    }

    /// The truth value, if this is one.
    pub fn as_bool(&self) -> (result: Option<bool>)
        ensures
            result == self@.truth(),
    {
        match self {
            JsonValue::Bool(value) => Some(*value),
            _ => None,
        }
    }
}

/// Takes the value of a field out of an object, or hands the value back if it has
/// no such field.
pub fn take_field(value: JsonValue, name: &str) -> (result: Result<JsonValue, JsonValue>)
    ensures
        match result {
            Ok(field) => value@.field(name@) == Some(field@),
            Err(same) => value@.field(name@) is None && same == value,
        },
{
    proof {
        lemma_tree_of_parts(value);
    }
    match value {
        JsonValue::Object(fields) => {
            let ghost all = field_trees(fields@);
            let mut fields = fields;
            let count: usize = fields.len();
            for idx in 0..count
                invariant
                    count == fields.len(),
                    value == JsonValue::Object(fields),
                    all == field_trees(fields@),
                    value@ == JsonTree::Object(all),
                    forall|i: int| 0 <= i < idx ==> (#[trigger] all[i]).0 != name@,
            {
                assert(all[idx as int].0 == fields@[idx as int].0@);
                if same_text(fields[idx].0.as_str(), name) {
                    proof {
                        lemma_field_index(all, name@);
                    }
                    let (_, field) = fields.swap_remove(idx);
                    return Ok(field);
                }
            }
            proof {
                lemma_field_index(all, name@);
            }
            Err(JsonValue::Object(fields))
        },
        other => Err(other),
    }
}

/// Takes the fields of a name away.
pub fn remove_field(fields: Vec<(String, JsonValue)>, name: &str) -> (result: Vec<
    (String, JsonValue),
>)
    ensures
        field_trees(result@) == fields_without(field_trees(fields@), name@),
{
    let ghost all = fields@;
    let ghost other = |field: (Seq<char>, JsonTree)| field.0 != name@;
    let mut kept: Vec<(String, JsonValue)> = Vec::new();
    for field in iter: fields
        invariant
            iter.seq() == all,
            other == (|field: (Seq<char>, JsonTree)| field.0 != name@),
            field_trees(kept@) == field_trees(all.take(iter.index() as int)).filter(other),
    {
        let ghost before = kept@;
        let ghost seen = field_trees(all.take(iter.index() as int));
        let ghost next = field_trees(all.take(iter.index() + 1));
        proof {
            reveal(Seq::filter);
            assert(next.drop_last() =~= seen);
        }
        if !same_text(field.0.as_str(), name) {
            kept.push(field);
            assert(field_trees(kept@) =~= field_trees(before).push((field.0@, field.1.tree())));
        }
        assert(field_trees(kept@) == next.filter(other));
    }
    assert(all.take(all.len() as int) =~= all);
    kept
}

/// A document as `serde_json` holds it.
#[verifier::external_type_specification]
#[verifier::external_body]
pub struct ExValue(serde_json::Value);

/// A document taken apart by one level.
enum Shape {
    Null,
    Bool(bool),
    Number(serde_json::Number),
    Text(String),
    Array(Vec<serde_json::Value>),
    Object(Vec<(String, serde_json::Value)>),
}

/// The contents of a document that `serde_json` holds.
pub uninterp spec fn contents(value: serde_json::Value) -> JsonTree;

/// What `serde_json::from_str` makes of a text: the contents of the document that
/// it reads, or the text of its error.
pub uninterp spec fn parsed_json(text: Seq<char>) -> Result<JsonTree, Seq<char>>;

impl Shape {
    /// The contents of a document that has this shape.
    spec fn tree(self) -> JsonTree {
        match self {
            Shape::Null => JsonTree::Null,
            Shape::Bool(value) => JsonTree::Bool(value),
            Shape::Number(value) => JsonTree::Number(value),
            Shape::Text(value) => JsonTree::Text(value@),
            Shape::Array(items) => JsonTree::Array(
                Seq::new(items@.len(), |i: int| contents(items@[i])),
            ),
            Shape::Object(fields) => JsonTree::Object(
                Seq::new(fields@.len(), |i: int| (fields@[i].0@, contents(fields@[i].1))),
            ),
        }
    }
}

/// Tells the variants of `serde_json::Value` apart. What is claimed of it: the
/// result has the variant of the document and, in the same order, its items or
/// fields.
#[verifier::external_body]
fn shape_of(value: serde_json::Value) -> (shape: Shape)
    ensures
        shape.tree() == contents(value),
{
    match value {
        serde_json::Value::Null => Shape::Null,
        serde_json::Value::Bool(value) => Shape::Bool(value),
        serde_json::Value::Number(value) => Shape::Number(value),
        serde_json::Value::String(value) => Shape::Text(value),
        serde_json::Value::Array(items) => Shape::Array(items),
        serde_json::Value::Object(fields) => Shape::Object(fields.into_iter().collect()),
    }
}

/// Reads a document with `serde_json::from_str`. What is claimed of it: the text
/// alone decides whether it is read, what it holds, and what the error says.
#[verifier::external_body]
fn read_document(text: &str) -> (result: Result<serde_json::Value, String>)
    ensures
        match result {
            Ok(value) => parsed_json(text@) == Ok::<JsonTree, Seq<char>>(contents(value)),
            Err(error) => parsed_json(text@) == Err::<JsonTree, Seq<char>>(error@),
        },
{
    serde_json::from_str(text).map_err(|error| error.to_string())
}

/// Takes a document apart, down to its last value.
fn plain_value(value: serde_json::Value) -> (result: JsonValue)
    ensures
        result@ == contents(value),
    decreases contents(value),
{
    match shape_of(value) {
        Shape::Null => JsonValue::Null,
        Shape::Bool(value) => JsonValue::Bool(value),
        Shape::Number(value) => JsonValue::Number(value),
        Shape::Text(value) => JsonValue::Text(value),
        Shape::Array(items) => {
            let ghost all = items@;
            let mut plain: Vec<JsonValue> = Vec::new();
            for item in iter: items
                invariant
                    iter.seq() == all,
                    contents(value) == JsonTree::Array(
                        Seq::new(all.len(), |i: int| contents(all[i])),
                    ),
                    plain@.len() == iter.index(),
                    forall|i: int|
                        0 <= i < plain@.len() ==> (#[trigger] plain@[i]).tree() == contents(all[i]),
            {
                assert(contents(value)->Array_0[plain@.len() as int] == contents(item));
                plain.push(plain_value(item));
            }
            let result = JsonValue::Array(plain);
            assert(result.tree()->Array_0 =~= contents(value)->Array_0);
            result
        },
        Shape::Object(fields) => {
            let ghost all = fields@;
            let mut plain: Vec<(String, JsonValue)> = Vec::new();
            for field in iter: fields
                invariant
                    iter.seq() == all,
                    contents(value) == JsonTree::Object(
                        Seq::new(all.len(), |i: int| (all[i].0@, contents(all[i].1))),
                    ),
                    plain@.len() == iter.index(),
                    forall|i: int|
                        0 <= i < plain@.len() ==> (#[trigger] plain@[i]).0@ == all[i].0@
                            && plain@[i].1.tree() == contents(all[i].1),
            {
                let (key, item) = field;
                assert(contents(value)->Object_0[plain@.len() as int].1 == contents(item));
                plain.push((key, plain_value(item)));
            }
            let result = JsonValue::Object(plain);
            assert(result.tree()->Object_0 =~= contents(value)->Object_0);
            result
        },
    }
}

/// Parses a JSON document.
pub fn parse_json(text: &str) -> (result: Result<JsonValue, String>)
    ensures
        match result {
            Ok(value) => parsed_json(text@) == Ok::<JsonTree, Seq<char>>(value@),
            Err(error) => parsed_json(text@) == Err::<JsonTree, Seq<char>>(error@),
        },
{
    match read_document(text) {
        Ok(value) => Ok(plain_value(value)),
        Err(error) => Err(error),
    }
}

/// A value holds what it is made of: an array as many items as it has, each what that item
/// holds, and an object its fields with their names, in order.
pub proof fn law_values_hold_their_parts(value: JsonValue, i: int)
    ensures
        value is Null <==> value@ is Null,
        value matches JsonValue::Bool(truth) ==> value@ == JsonTree::Bool(truth),
        value matches JsonValue::Number(number) ==> value@ == JsonTree::Number(number),
        value matches JsonValue::Text(text) ==> value@ == JsonTree::Text(text@),
        value matches JsonValue::Array(items) ==> {
            &&& value@ is Array
            &&& value@->Array_0.len() == items@.len()
            &&& 0 <= i < items@.len() ==> value@->Array_0[i] == items@[i]@
            &&& trees(items@) == value@->Array_0
        },
        value matches JsonValue::Object(fields) ==> {
            &&& value@ is Object
            &&& value@->Object_0.len() == fields@.len()
            &&& 0 <= i < fields@.len() ==> value@->Object_0[i].0 == fields@[i].0@
                && value@->Object_0[i].1 == fields@[i].1@
            &&& field_trees(fields@) == value@->Object_0
        },
{
    lemma_tree_of_parts(value);
}

/// A field has the value of the first field of its name; without one, and outside of
/// objects, there is none.
pub proof fn law_first_field_of_a_name_counts(
    fields: Seq<(Seq<char>, JsonTree)>,
    name: Seq<char>,
    i: int,
)
    ensures
        0 <= i < fields.len() && fields[i].0 == name && (forall|j: int|
            0 <= j < i ==> (#[trigger] fields[j]).0 != name) ==> JsonTree::Object(fields).field(
            name,
        ) == Some(fields[i].1),
        (forall|j: int| 0 <= j < fields.len() ==> (#[trigger] fields[j]).0 != name)
            ==> JsonTree::Object(fields).field(name) is None,
{
    lemma_field_index(fields, name);
    if 0 <= i < fields.len() && fields[i].0 == name {
        match field_index(fields, name) {
            Some(index) => {
                assert(fields[index].0 == name);
            },
            None => {},
        }
    }
}

/// Only objects have fields, and only truth values are true or false.
pub proof fn law_kinds_of_values(value: JsonTree, name: Seq<char>, truth: bool)
    ensures
        !(value is Object) ==> value.field(name) is None,
        value.truth() == Some(truth) <==> value == JsonTree::Bool(truth),
{
}

/// Taking the fields of a name away keeps all others, in order.
pub proof fn law_other_fields_keep_their_order(
    fields: Seq<(Seq<char>, JsonTree)>,
    next: (Seq<char>, JsonTree),
    name: Seq<char>,
)
    ensures
        fields_without(Seq::empty(), name) == Seq::<(Seq<char>, JsonTree)>::empty(),
        next.0 == name ==> fields_without(fields.push(next), name) == fields_without(fields, name),
        next.0 != name ==> fields_without(fields.push(next), name) == fields_without(
            fields,
            name,
        ).push(next),
{
    reveal(Seq::filter);
    assert(fields.push(next).drop_last() =~= fields);
}

/// A document taken apart holds what its parts hold.
proof fn lemma_shape_holds_its_parts(shape: Shape, i: int)
    ensures
        shape is Null <==> shape.tree() is Null,
        shape matches Shape::Bool(truth) ==> shape.tree() == JsonTree::Bool(truth),
        shape matches Shape::Number(number) ==> shape.tree() == JsonTree::Number(number),
        shape matches Shape::Text(text) ==> shape.tree() == JsonTree::Text(text@),
        shape matches Shape::Array(items) ==> {
            &&& shape.tree() is Array
            &&& shape.tree()->Array_0.len() == items@.len()
            &&& 0 <= i < items@.len() ==> shape.tree()->Array_0[i] == contents(items@[i])
        },
        shape matches Shape::Object(fields) ==> {
            &&& shape.tree() is Object
            &&& shape.tree()->Object_0.len() == fields@.len()
            &&& 0 <= i < fields@.len() ==> shape.tree()->Object_0[i] == (
                fields@[i].0@,
                contents(fields@[i].1),
            )
        },
{
}

} // verus!
