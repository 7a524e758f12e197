use vstd::prelude::*;
use vstd::string::StringExecFns;

use json::JsonValue;

verus! {

broadcast use {vstd::std_specs::vec::axiom_vec_index_decreases, vstd::seq::axiom_seq_index_decreases};

/// A JSON value held as plain data.
#[derive(Debug)]
pub enum Json {
    Null,
    Bool(bool),
    /// A number as sign (true unless negative), decimal mantissa and decimal
    /// exponent.
    Number(bool, u64, i16),
    Str(String),
    Array(Vec<Json>),
    /// Members as key and value, in document order.
    Object(Vec<(String, Json)>),
}

/// The mathematical view of a JSON value.
pub enum JsonView {
    Null,
    Bool(bool),
    Number(bool, u64, i16),
    Str(Seq<char>),
    Array(Seq<JsonView>),
    Object(Seq<(Seq<char>, JsonView)>),
}

pub open spec fn json_view(d: Json) -> JsonView
    decreases d,
{
    match d {
        Json::Null => JsonView::Null,
        Json::Bool(b) => JsonView::Bool(b),
        Json::Number(p, m, e) => JsonView::Number(p, m, e),
        Json::Str(s) => JsonView::Str(s@),
        Json::Array(a) => JsonView::Array(Seq::new(a.len() as nat, |i: int|
            if 0 <= i < a.len() {
                json_view(a[i])
            } else {
                JsonView::Null
            }
        )),
        Json::Object(o) => JsonView::Object(Seq::new(o.len() as nat, |i: int|
            if 0 <= i < o.len() {
                (o[i].0@, json_view(o[i].1))
            } else {
                (Seq::empty(), JsonView::Null)
            }
        )),
    }
}


/// Deepest nesting of arrays and objects that the pretty printer is handed.
pub const JSON_MAX_DEPTH: u16 = 64;

/// Widest indentation step that the pretty printer is handed.
pub const JSON_MAX_INDENT: u16 = 1000;

/// `v` nests arrays and objects at most `depth` deep and holds only whole
/// numbers written without exponent.
pub open spec fn printable(v: JsonView, depth: int) -> bool
    decreases v,
{
    match v {
        JsonView::Number(_, _, e) => e == 0,
        JsonView::Array(items) => depth >= 1 && forall|i: int|
            0 <= i < items.len() ==> printable(#[trigger] items[i], depth - 1),
        JsonView::Object(ms) => depth >= 1 && forall|i: int|
            0 <= i < ms.len() ==> printable(#[trigger] ms[i].1, depth - 1),
        _ => true,
    }
}

/// The document that json::parse reads from a text, or `None` when the text
/// is not JSON.
pub uninterp spec fn parsed_json(text: Seq<char>) -> Option<JsonView>;

/// The text that json::stringify_pretty writes for a document, indenting by
/// `spaces` per level.
pub uninterp spec fn pretty_of(doc: JsonView, spaces: u16) -> Seq<char>;

/// Hands a json value over as plain data, one value for one.
#[verifier::external_body]
fn json_model(v: &JsonValue) -> Json {
    match v {
        JsonValue::Null => Json::Null,
        JsonValue::Short(s) => Json::Str(s.as_str().to_string()),
        JsonValue::String(s) => Json::Str(s.clone()),
        JsonValue::Number(n) => {
            let (p, m, e) = n.as_parts();
            Json::Number(p, m, e)
        },
        JsonValue::Boolean(b) => Json::Bool(*b),
        JsonValue::Object(o) => Json::Object(o.iter().map(|(k, x)| (k.to_string(), json_model(x))).collect()),
        JsonValue::Array(a) => Json::Array(a.iter().map(json_model).collect()),
    }
}

/// Builds the json value of plain data, one value for one.
#[verifier::external_body]
fn json_value(d: &Json) -> JsonValue {
    match d {
        Json::Null => JsonValue::Null,
        Json::Bool(b) => JsonValue::Boolean(*b),
        Json::Number(p, m, e) => JsonValue::Number(json::number::Number::from_parts(*p, *m, *e)),
        Json::Str(s) => JsonValue::from(s.as_str()),
        Json::Array(a) => JsonValue::Array(a.iter().map(json_value).collect()),
        Json::Object(o) => JsonValue::Object(o.iter().map(|(k, x)| (k.as_str(), json_value(x))).collect()),
    }
}

/// Relies on json::parse: the document read from the text, which depends on
/// the text alone.
#[verifier::external_body]
pub(crate) fn json_parse(text: &str) -> (r: Result<Json, json::Error>)
    ensures
        r is Ok <==> parsed_json(text@) is Some,
        r matches Ok(d) ==> parsed_json(text@) == Some(json_view(d)),
{
    json::parse(text).map(|v| json_model(&v))
}

/// Relies on json::stringify_pretty. Its printer counts nesting and
/// indentation in 16 bits and prints numbers with an exponent through
/// unchecked code, hence the bounds.
#[verifier::external_body]
pub(crate) fn json_stringify_pretty(doc: &Json, spaces: u16) -> (r: String)
    requires
        printable(json_view(*doc), JSON_MAX_DEPTH as int),
        spaces <= JSON_MAX_INDENT,
    ensures
        r@ == pretty_of(json_view(*doc), spaces),
{
    json::stringify_pretty(json_value(doc), spaces)
}

/// The member under `key` among the members of an object, the first if
/// several; null when absent, as json's indexing gives it.
pub open spec fn member_in(ms: Seq<(Seq<char>, JsonView)>, key: Seq<char>) -> JsonView
    decreases ms.len(),
{
    if ms.len() == 0 {
        JsonView::Null
    } else if ms[0].0 == key {
        ms[0].1
    } else {
        member_in(ms.drop_first(), key)
    }
}

/// The member of `v` under `key`; null when `v` is no object.
pub open spec fn member_of(v: JsonView, key: Seq<char>) -> JsonView {
    match v {
        JsonView::Object(ms) => member_in(ms, key),
        _ => JsonView::Null,
    }
}

/// The text of a string value.
pub open spec fn str_of(v: JsonView) -> Option<Seq<char>> {
    match v {
        JsonView::Str(s) => Some(s),
        _ => None,
    }
}

/// The value of a number written without exponent that fits in `i64`.
pub open spec fn i64_of(v: JsonView) -> Option<i64> {
    match v {
        JsonView::Number(p, m, e) => if e != 0 {
            None
        } else if p && m <= i64::MAX {
            Some(m as i64)
        } else if !p && m <= i64::MAX + 1 {
            Some((0 - m) as i64)
        } else {
            None
        },
        _ => None,
    }
}

/// The document of an integer.
pub open spec fn int_view(i: int) -> JsonView {
    if i >= 0 {
        JsonView::Number(true, i as u64, 0)
    } else {
        JsonView::Number(false, (0 - i) as u64, 0)
    }
}

/// `a` and `b` hold the same text.
pub fn str_eq(a: &str, b: &str) -> (r: bool)
    ensures
        r == (a@ == b@),
{
    a.to_owned() == b.to_owned()
}

/// The document that an optional member stands for: null when absent.
pub open spec fn opt_view(v: Option<&Json>) -> JsonView {
    match v {
        Some(x) => json_view(*x),
        None => JsonView::Null,
    }
}

/// Finds the member of an object under `key`; `None` stands for null.
pub fn find_member<'a>(v: &'a Json, key: &str) -> (r: Option<&'a Json>)
    ensures
        opt_view(r) == member_of(json_view(*v), key@),
{
    match v {
        Json::Object(o) => {
            let ghost ms = match json_view(*v) {
                JsonView::Object(ms) => ms,
                _ => Seq::empty(),
            };
            let mut i: usize = 0;
            assert(ms.skip(0) =~= ms);
            while i < o.len()
                invariant
                    i <= o@.len() == ms.len(),
                    json_view(*v) == JsonView::Object(ms),
                    forall|j: int| 0 <= j < o@.len() ==> #[trigger] ms[j] == (o@[j].0@, json_view(o@[j].1)),
                    member_in(ms, key@) == member_in(ms.skip(i as int), key@),
                decreases o@.len() - i,
            {
                assert(ms.skip(i as int)[0] == ms[i as int]);
                assert(ms.skip(i as int).drop_first() =~= ms.skip(i as int + 1));
                if str_eq(o[i].0.as_str(), key) {
                    return Some(&o[i].1);
                }
                i += 1;
            }
            assert(ms.skip(i as int) =~= Seq::<(Seq<char>, JsonView)>::empty());
            None
        },
        _ => None,
    }
}

/// The text of a string value; `None` for any other value.
pub fn text_of(v: Option<&Json>) -> (r: Option<String>)
    ensures
        match r {
            Some(s) => str_of(opt_view(v)) == Some(s@),
            None => str_of(opt_view(v)) is None,
        },
{
    match v {
        Some(Json::Str(s)) => Some(s.clone()),
        _ => None,
    }
}

/// The value of a whole number that fits in `i64`; `None` for any other
/// value.
pub fn integer_of(v: Option<&Json>) -> (r: Option<i64>)
    ensures
        r == i64_of(opt_view(v)),
{
    match v {
        Some(Json::Number(p, m, e)) => {
            if *e != 0 {
                None
            } else if *p {
                if *m <= i64::MAX as u64 {
                    Some(*m as i64)
                } else {
                    None
                }
            } else if *m <= i64::MAX as u64 {
                Some(0 - (*m as i64))
            } else if *m == i64::MAX as u64 + 1 {
                Some(i64::MIN)
            } else {
                None
            }
        },
        _ => None,
    }
}

/// The document of an integer.
pub fn integer_json(i: i64) -> (r: Json)
    ensures
        json_view(r) == int_view(i as int),
{
    if i >= 0 {
        Json::Number(true, i as u64, 0)
    } else {
        Json::Number(false, (0 - (i as i128)) as u64, 0)
    }
}

/// The document of a text.
pub fn string_json(s: &str) -> (r: Json)
    ensures
        json_view(r) == JsonView::Str(s@),
{
    Json::Str(String::from_str(s))
}

} // verus!
