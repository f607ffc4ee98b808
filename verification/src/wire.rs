//! JSON text: the calls into `serde_json` that read a document and write one.

use vstd::prelude::*;

use crate::json::{first_member, has_member, meaning, Json, JsonNumber, JsonView};

verus! {

/// `serde_json::Value`, a document.
#[verifier::external_type_specification]
#[verifier::external_body]
pub struct ExternalValue(serde_json::Value);

/// `serde_json::Map`, the members of an object.
#[verifier::external_type_specification]
#[verifier::external_body]
#[verifier::reject_recursive_types(K)]
#[verifier::reject_recursive_types(V)]
pub struct ExternalMap<K, V>(serde_json::Map<K, V>);

/// `serde_json::Error`, why a text is no document or a document has no text.
#[verifier::external_type_specification]
#[verifier::external_body]
pub struct ExternalError(serde_json::Error);

/// What a `serde_json::Value` holds.
pub uninterp spec fn value_contents(value: serde_json::Value) -> JsonView;

/// What a `serde_json::Map` holds.
pub uninterp spec fn object_contents(
    object: serde_json::Map<String, serde_json::Value>,
) -> Map<Seq<char>, JsonView>;

/// What a `serde_json::Error` displays.
pub uninterp spec fn error_contents(error: serde_json::Error) -> Seq<char>;

/// What `serde_json::from_str` makes of a text: the document, or the message
/// of the error.
pub uninterp spec fn parsed(text: Seq<char>) -> Result<JsonView, Seq<char>>;

/// What `serde_json::to_vec` makes of a document: its text, or the message of
/// the error.
pub uninterp spec fn serialized(json: JsonView) -> Result<Seq<u8>, Seq<char>>;

/// `serde_json::from_str`, for a document of any shape. Whether it gives a value
/// or an error, what the value holds and what the error displays depend on the
/// text alone.
#[verifier::external_body]
fn value_from_text(text: &str) -> (r: Result<serde_json::Value, serde_json::Error>)
    ensures
        match r {
            Ok(value) => parsed(text@) == Ok::<JsonView, Seq<char>>(value_contents(value)),
            Err(error) => parsed(text@) == Err::<JsonView, Seq<char>>(error_contents(error)),
        },
{
    serde_json::from_str::<serde_json::Value>(text)
}

/// `serde_json::to_vec`, for a document of any shape. Whether it gives a text or
/// an error, the text and what the error displays depend on what the value holds
/// alone: the members of an object are written in the order of their keys. The
/// text has no line feed: it is compact, and control characters are escaped.
#[verifier::external_body]
fn text_from_value(value: &serde_json::Value) -> (r: Result<Vec<u8>, serde_json::Error>)
    ensures
        match r {
            Ok(text) => serialized(value_contents(*value)) == Ok::<Seq<u8>, Seq<char>>(text@),
            Err(error) => serialized(value_contents(*value)) == Err::<Seq<u8>, Seq<char>>(
                error_contents(error),
            ),
        },
        r matches Ok(text) ==> !text@.contains(10u8),
{
    serde_json::to_vec(value)
}

/// `ToString::to_string` of a `serde_json::Error`: the text that it displays.
#[verifier::external_body]
fn error_text(error: &serde_json::Error) -> (r: String)
    ensures
        r@ == error_contents(*error),
{
    error.to_string()
}

/// `Value::as_bool` gives the truth value of a boolean and nothing otherwise.
pub assume_specification[ serde_json::Value::as_bool ](value: &serde_json::Value) -> (r: Option<
    bool,
>)
    ensures
        r == value_contents(*value).flag(),
;

/// `Value::as_u64` gives the number where it is an integer of 64 unsigned bits.
pub assume_specification[ serde_json::Value::as_u64 ](value: &serde_json::Value) -> (r: Option<u64>)
    ensures
        r == value_contents(*value).unsigned(),
;

/// `Value::as_i64` gives the number where it is an integer of 64 signed bits.
pub assume_specification[ serde_json::Value::as_i64 ](value: &serde_json::Value) -> (r: Option<i64>)
    ensures
        r == value_contents(*value).signed(),
;

/// `Value::as_f64` gives every number as a double, here by its bit pattern. Of
/// an integer, which double it is converted to is not said.
#[verifier::external_body]
fn double_bits(value: &serde_json::Value) -> (r: Option<u64>)
    ensures
        r is Some <==> value_contents(*value) is Number,
        value_contents(*value) matches JsonView::Number(JsonNumber::Float(bits)) ==> r == Some(
            bits,
        ),
{
    value.as_f64().map(|number| number.to_bits())
}

/// `Value::as_str` gives the characters of a text and nothing otherwise.
pub assume_specification[ serde_json::Value::as_str ](value: &serde_json::Value) -> (r: Option<
    &str,
>)
    ensures
        match r {
            Some(text) => value_contents(*value) == JsonView::Text(text@),
            None => !(value_contents(*value) is Text),
        },
;

/// `Value::as_array` gives the items of an array and nothing otherwise.
pub assume_specification[ serde_json::Value::as_array ](value: &serde_json::Value) -> (r: Option<
    &Vec<serde_json::Value>,
>)
    ensures
        match r {
            Some(items) => value_contents(*value) == JsonView::Array(
                items@.map_values(|item: serde_json::Value| value_contents(item)),
            ),
            None => !(value_contents(*value) is Array),
        },
;

/// `Value::as_object` gives the members of an object and nothing otherwise.
pub assume_specification[ serde_json::Value::as_object ](value: &serde_json::Value) -> (r: Option<
    &serde_json::Map<String, serde_json::Value>,
>)
    ensures
        match r {
            Some(object) => value_contents(*value) == JsonView::Object(object_contents(*object)),
            None => !(value_contents(*value) is Object),
        },
;

/// `Map::iter` gives every member of an object once.
#[verifier::external_body]
fn object_members(object: &serde_json::Map<String, serde_json::Value>) -> (r: Vec<
    (&String, &serde_json::Value),
>)
    ensures
        forall|i: int, j: int|
            0 <= i < j < r.len() ==> (#[trigger] r@[i]).0@ != (#[trigger] r@[j]).0@,
        forall|i: int|
            0 <= i < r.len() ==> object_contents(*object).contains_key((#[trigger] r@[i]).0@)
                && object_contents(*object)[r@[i].0@] == value_contents(*r@[i].1),
        forall|key: Seq<char>| #[trigger]
            object_contents(*object).contains_key(key) ==> exists|i: int|
                0 <= i < r.len() && (#[trigger] r@[i]).0@ == key,
{
    object.iter().collect()
}

/// The library's document for a `serde_json::Value`.
fn document(value: &serde_json::Value) -> (r: Json)
    ensures
        r@ == value_contents(*value),
    decreases value_contents(*value),
{
    if let Some(flag) = value.as_bool() {
        return Json::Bool(flag);
    }
    if let Some(number) = value.as_u64() {
        return Json::Number(JsonNumber::PosInt(number));
    }
    if let Some(number) = value.as_i64() {
        return Json::Number(JsonNumber::NegInt(number));
    }
    if let Some(bits) = double_bits(value) {
        return Json::Number(JsonNumber::Float(bits));
    }
    if let Some(text) = value.as_str() {
        return Json::Text(text.to_owned());
    }
    if let Some(items) = value.as_array() {
        let mut out: Vec<Json> = Vec::new();
        let mut i: usize = 0;
        let ghost all = value_contents(*value)->Array_0;
        while i < items.len()
            invariant
                i <= items.len(),
                value_contents(*value) == JsonView::Array(all),
                all == items@.map_values(|item: serde_json::Value| value_contents(item)),
                out.len() == i,
                forall|k: int| 0 <= k < i ==> (#[trigger] out@[k])@ == all[k],
            decreases items.len() - i,
        {
            proof {
                assert(value_contents(items@[i as int]) == all[i as int]);
                assert(decreases_to!(value_contents(*value) => value_contents(*value)->Array_0));
                assert(decreases_to!(all => all[i as int]));
            }
            out.push(document(&items[i]));
            i = i + 1;
        }
        let r = Json::Array(out);
        proof {
            assert(r@->Array_0 =~= all);
        }
        return r;
    }
    if let Some(object) = value.as_object() {
        let members = object_members(object);
        let mut out: Vec<(String, Json)> = Vec::new();
        let mut i: usize = 0;
        let ghost all = object_contents(*object);
        proof {
            let keys = members@.map_values(|m: (&String, &serde_json::Value)| m.0@);
            assert forall|key: Seq<char>| all.dom().contains(key) implies keys.to_set().contains(
                key,
            ) by {
                assert(all.contains_key(key));
                let k = choose|k: int| 0 <= k < members.len() && (#[trigger] members@[k]).0@ == key;
                assert(keys[k] == key);
            }
            vstd::seq_lib::seq_to_set_is_finite(keys);
            vstd::set_lib::lemma_set_subset_finite(keys.to_set(), all.dom());
        }
        while i < members.len()
            invariant
                i <= members.len(),
                value_contents(*value) == JsonView::Object(all),
                all.dom().finite(),
                forall|k: int|
                    0 <= k < members.len() ==> all.contains_key((#[trigger] members@[k]).0@)
                        && all[members@[k].0@] == value_contents(*members@[k].1),
                out.len() == i,
                forall|k: int|
                    0 <= k < i ==> (#[trigger] out@[k]).0@ == members@[k].0@ && out@[k].1@
                        == value_contents(*members@[k].1),
            decreases members.len() - i,
        {
            let (key, member) = members[i];
            proof {
                assert(all.contains_key(members@[i as int].0@));
                assert(decreases_to!(value_contents(*value) => value_contents(*value)->Object_0));
                assert(decreases_to!(all => all[members@[i as int].0@]));
            }
            out.push((key.clone(), document(member)));
            i = i + 1;
        }
        let r = Json::Object(out);
        proof {
            let mine = meaning(r)->Object_0;
            assert forall|key: Seq<char>| mine.contains_key(key) == all.contains_key(key) by {
                if all.contains_key(key) {
                    let k = choose|k: int| 0 <= k < members.len() && (#[trigger] members@[k]).0@
                        == key;
                    assert(out@[k].0@ == key);
                }
                if has_member(out@, key) {
                    let k = choose|k: int| 0 <= k < out.len() && (#[trigger] out@[k]).0@ == key;
                    assert(members@[k].0@ == key);
                }
            }
            assert forall|key: Seq<char>| mine.contains_key(key) implies mine[key] == all[key] by {
                let k = first_member(out@, key);
                assert(members@[k].0@ == key);
            }
            assert(mine =~= all);
        }
        return r;
    }
    Json::Null
}

/// Reads a JSON document.
pub fn parse_json(text: &str) -> (r: Result<Json, String>)
    ensures
        match r {
            Ok(json) => parsed(text@) == Ok::<JsonView, Seq<char>>(json@),
            Err(message) => parsed(text@) == Err::<JsonView, Seq<char>>(message@),
        },
{
    match value_from_text(text) {
        Ok(value) => Ok(document(&value)),
        Err(error) => Err(error_text(&error)),
    }
}

/// The value of one parameter of a request.
#[derive(Debug)]
pub enum Param {
    Null,
    Flag(bool),
    Count(u64),
    Text(String),
    Texts(Vec<String>),
}

impl View for Param {
    type V = JsonView;

    open spec fn view(&self) -> JsonView {
        match self {
            Param::Null => JsonView::Null,
            Param::Flag(flag) => JsonView::Bool(*flag),
            Param::Count(count) => JsonView::Number(JsonNumber::PosInt(*count)),
            Param::Text(text) => JsonView::Text(text@),
            Param::Texts(items) => JsonView::Array(
                items@.map_values(|item: String| JsonView::Text(item@)),
            ),
        }
    }
}

/// The object that parameters make up; a later one takes the place of an
/// earlier one with the same name.
pub open spec fn params_object(params: Seq<(String, Param)>) -> Map<Seq<char>, JsonView>
    decreases params.len(),
{
    if params.len() == 0 {
        Map::empty()
    } else {
        params_object(params.drop_last()).insert(params.last().0@, params.last().1@)
    }
}

/// `Value::Null`.
#[verifier::external_body]
fn null_value() -> (r: serde_json::Value)
    ensures
        value_contents(r) == JsonView::Null,
{
    serde_json::Value::Null
}

/// `Value::from` of a truth value.
#[verifier::external_body]
fn flag_value(flag: bool) -> (r: serde_json::Value)
    ensures
        value_contents(r) == JsonView::Bool(flag),
{
    serde_json::Value::from(flag)
}

/// `Value::from` of an unsigned number.
#[verifier::external_body]
fn count_value(count: u64) -> (r: serde_json::Value)
    ensures
        value_contents(r) == JsonView::Number(JsonNumber::PosInt(count)),
{
    serde_json::Value::from(count)
}

/// `Value::from` of a text.
#[verifier::external_body]
fn text_value(text: String) -> (r: serde_json::Value)
    ensures
        value_contents(r) == JsonView::Text(text@),
{
    serde_json::Value::from(text)
}

/// `Value::Array` of the given items.
#[verifier::external_body]
fn array_value(items: Vec<serde_json::Value>) -> (r: serde_json::Value)
    ensures
        value_contents(r) == JsonView::Array(
            items@.map_values(|item: serde_json::Value| value_contents(item)),
        ),
{
    serde_json::Value::Array(items)
}

/// `Value::from` of an object.
#[verifier::external_body]
fn object_value(object: serde_json::Map<String, serde_json::Value>) -> (r: serde_json::Value)
    ensures
        value_contents(r) == JsonView::Object(object_contents(object)),
{
    serde_json::Value::from(object)
}

/// The members of an empty object.
pub open spec fn no_members() -> Map<Seq<char>, JsonView> {
    Map::empty()
}

/// `Map::new` gives an object without members.
#[verifier::external_body]
fn empty_object() -> (r: serde_json::Map<String, serde_json::Value>)
    ensures
        object_contents(r) == no_members(),
{
    serde_json::Map::new()
}

/// `Map::insert` puts a value under a key, in place of the one that was there.
#[verifier::external_body]
fn put_member(
    object: &mut serde_json::Map<String, serde_json::Value>,
    key: String,
    value: serde_json::Value,
)
    ensures
        object_contents(*final(object)) == object_contents(*old(object)).insert(
            key@,
            value_contents(value),
        ),
{
    object.insert(key, value);
}

fn param_value(param: &Param) -> (r: serde_json::Value)
    ensures
        value_contents(r) == param@,
{
    match param {
        Param::Null => null_value(),
        Param::Flag(flag) => flag_value(*flag),
        Param::Count(count) => count_value(*count),
        Param::Text(text) => text_value(text.clone()),
        Param::Texts(items) => {
            let mut out: Vec<serde_json::Value> = Vec::new();
            let mut i: usize = 0;
            while i < items.len()
                invariant
                    i <= items.len(),
                    out.len() == i,
                    forall|k: int|
                        0 <= k < i ==> value_contents(#[trigger] out@[k]) == JsonView::Text(
                            items@[k]@,
                        ),
                decreases items.len() - i,
            {
                out.push(text_value(items[i].clone()));
                i = i + 1;
            }
            proof {
                assert(out@.map_values(|item: serde_json::Value| value_contents(item))
                    =~= items@.map_values(|item: String| JsonView::Text(item@)));
            }
            array_value(out)
        },
    }
}

fn params_value(params: &Vec<(String, Param)>) -> (r: serde_json::Value)
    ensures
        value_contents(r) == JsonView::Object(params_object(params@)),
{
    let mut object = empty_object();
    let mut i: usize = 0;
    while i < params.len()
        invariant
            i <= params.len(),
            object_contents(object) == params_object(params@.take(i as int)),
        decreases params.len() - i,
    {
        put_member(&mut object, params[i].0.clone(), param_value(&params[i].1));
        proof {
            assert(params@.take(i + 1).drop_last() =~= params@.take(i as int));
        }
        i = i + 1;
    }
    proof {
        assert(params@.take(i as int) =~= params@);
    }
    object_value(object)
}

/// The document of a request: its id, its method and its parameters.
pub open spec fn request_document(
    id: Seq<char>,
    method: Seq<char>,
    params: Map<Seq<char>, JsonView>,
) -> JsonView {
    JsonView::Object(
        Map::<Seq<char>, JsonView>::empty().insert("id"@, JsonView::Text(id)).insert(
            "method"@,
            JsonView::Text(method),
        ).insert("params"@, JsonView::Object(params)),
    )
}

/// Writes the document of a request.
pub fn request_text(id: String, method: &str, params: &Vec<(String, Param)>) -> (r: Result<
    Vec<u8>,
    String,
>)
    ensures
        match r {
            Ok(text) => serialized(request_document(id@, method@, params_object(params@))) == Ok::<
                Seq<u8>,
                Seq<char>,
            >(text@),
            Err(message) => serialized(request_document(id@, method@, params_object(params@)))
                == Err::<Seq<u8>, Seq<char>>(message@),
        },
        r matches Ok(text) ==> !text@.contains(10u8),
{
    let mut object = empty_object();
    put_member(&mut object, "id".to_owned(), text_value(id));
    put_member(&mut object, "method".to_owned(), text_value(method.to_owned()));
    put_member(&mut object, "params".to_owned(), params_value(params));
    let value = object_value(object);
    match text_from_value(&value) {
        Ok(text) => Ok(text),
        Err(error) => Err(error_text(&error)),
    }
}

} // verus!
