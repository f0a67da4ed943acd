//! JSON values, and their compact text.

pub mod laws;

use vstd::prelude::*;
use crate::digest::hex;
use crate::numeral::{decimal, to_decimal};
use crate::strmap::StrMap;
use crate::text::join3;

verus! {

/// A JSON value. Object members keep the order in which they are listed.
#[derive(Debug)]
pub enum Json {
    /// The null value.
    Null,
    /// A truth value.
    Bool(bool),
    /// A number, by the text that denotes it.
    Number(String),
    /// A string.
    String(String),
    /// A list of values.
    Array(Vec<Json>),
    /// Named values.
    Object(Vec<(String, Json)>),
}

/// A JSON value as contracts speak of it.
pub enum JsonView {
    /// The null value.
    Null,
    /// A truth value.
    Bool(bool),
    /// A number, by the text that denotes it.
    Number(Seq<char>),
    /// A string.
    String(Seq<char>),
    /// A list of values.
    Array(Seq<JsonView>),
    /// Named values.
    Object(Seq<(Seq<char>, JsonView)>),
}

impl Json {
    /// The value that this denotes.
    pub open spec fn view(&self) -> JsonView
        decreases self,
    {
        match self {
            Json::Null => JsonView::Null,
            Json::Bool(b) => JsonView::Bool(*b),
            Json::Number(n) => JsonView::Number(n@),
            Json::String(s) => JsonView::String(s@),
            Json::Array(items) => JsonView::Array(
                Seq::new(
                    items@.len(),
                    |i: int|
                        if 0 <= i < items.len() {
                            items[i].view()
                        } else {
                            JsonView::Null
                        },
                ),
            ),
            Json::Object(fields) => JsonView::Object(
                Seq::new(
                    fields@.len(),
                    |i: int|
                        if 0 <= i < fields.len() {
                            (fields[i].0@, fields[i].1.view())
                        } else {
                            (Seq::empty(), JsonView::Null)
                        },
                ),
            ),
        }
    }
}

/// The values of a list.
pub open spec fn item_views(items: Seq<Json>) -> Seq<JsonView> {
    Seq::new(items.len(), |i: int| items[i]@)
}

/// The names and values of a list of members.
pub open spec fn field_views(fields: Seq<(String, Json)>) -> Seq<(Seq<char>, JsonView)> {
    Seq::new(fields.len(), |i: int| (fields[i].0@, fields[i].1@))
}

/// The names and values of a map.
pub open spec fn map_views(entries: Seq<(Seq<char>, Json)>) -> Seq<(Seq<char>, JsonView)> {
    Seq::new(entries.len(), |i: int| (entries[i].0, entries[i].1@))
}

/// A list denotes its values, and an object its members.
pub proof fn lemma_json_view(value: Json)
    ensures
        value matches Json::Array(items) ==> value@ == JsonView::Array(item_views(items@)),
        value matches Json::Object(fields) ==> value@ == JsonView::Object(field_views(fields@)),
{
    match value {
        Json::Array(items) => {
            assert(value@->Array_0 =~= item_views(items@));
        },
        Json::Object(fields) => {
            assert(value@->Object_0 =~= field_views(fields@));
        },
        _ => {},
    }
}

// ---------------------------------------------------------------
// Construction
// ---------------------------------------------------------------

/// An optional text: a string, or null.
pub open spec fn optional_view(text: Option<Seq<char>>) -> JsonView {
    match text {
        Some(t) => JsonView::String(t),
        None => JsonView::Null,
    }
}

impl Json {
    /// A string value.
    pub fn text(s: &str) -> (r: Json)
        ensures
            r@ == JsonView::String(s@),
    {
        Json::String(s.to_owned())
    }

    /// A number value.
    pub fn number(n: u64) -> (r: Json)
        ensures
            r@ == JsonView::Number(decimal(n as nat)),
    {
        Json::Number(to_decimal(n))
    }

    /// A string value, or null.
    pub fn optional(s: Option<&str>) -> (r: Json)
        ensures
            r@ == optional_view(crate::text::opt_str(s)),
    {
        match s {
            Some(t) => Json::String(t.to_owned()),
            None => Json::Null,
        }
    }

    /// A list value.
    pub fn list(items: Vec<Json>) -> (r: Json)
        ensures
            r@ == JsonView::Array(item_views(items@)),
    {
        let r = Json::Array(items);
        proof {
            lemma_json_view(r);
        }
        r
    }

    /// A list of strings.
    pub fn texts(items: &Vec<String>) -> (r: Json)
        ensures
            r@ == JsonView::Array(Seq::new(items@.len(), |i: int| JsonView::String(items@[i]@))),
    {
        let mut list: Vec<Json> = Vec::new();
        let mut i: usize = 0;
        while i < items.len()
            invariant
                i <= items@.len(),
                item_views(list@) == Seq::new(i as nat, |k: int| JsonView::String(items@[k]@)),
            decreases items.len() - i,
        {
            let ghost before = list@;
            list.push(Json::text(&items[i]));
            assert(item_views(list@) =~= item_views(before).push(JsonView::String(items@[i as int]@)));
            i += 1;
            assert(item_views(list@) =~= Seq::new(i as nat, |k: int| JsonView::String(items@[k]@)));
        }
        Json::list(list)
    }

    /// A copy of this value.
    pub fn duplicate(&self) -> (r: Json)
        ensures
            r@ == self@,
        decreases self,
    {
        match self {
            Json::Null => Json::Null,
            Json::Bool(b) => Json::Bool(*b),
            Json::Number(n) => Json::Number(n.clone()),
            Json::String(s) => Json::String(s.clone()),
            Json::Array(items) => {
                proof {
                    lemma_json_view(*self);
                }
                Json::list(duplicate_items(items))
            },
            Json::Object(fields) => {
                proof {
                    lemma_json_view(*self);
                }
                let copy = Json::Object(duplicate_fields(fields));
                proof {
                    lemma_json_view(copy);
                }
                copy
            },
        }
    }
}

fn duplicate_items(items: &Vec<Json>) -> (r: Vec<Json>)
    ensures
        item_views(r@) == item_views(items@),
    decreases items,
{
    let mut r: Vec<Json> = Vec::new();
    let mut i: usize = 0;
    while i < items.len()
        invariant
            i <= items@.len(),
            r@.len() == i,
            forall|k: int| 0 <= k < i ==> (#[trigger] r@[k])@ == items@[k]@,
        decreases items.len() - i,
    {
        r.push(items[i].duplicate());
        i += 1;
    }
    assert(item_views(r@) =~= item_views(items@));
    r
}

fn duplicate_fields(fields: &Vec<(String, Json)>) -> (r: Vec<(String, Json)>)
    ensures
        field_views(r@) == field_views(fields@),
    decreases fields,
{
    let mut r: Vec<(String, Json)> = Vec::new();
    let mut i: usize = 0;
    while i < fields.len()
        invariant
            i <= fields@.len(),
            r@.len() == i,
            forall|k: int|
                0 <= k < i ==> (#[trigger] r@[k]).0@ == fields@[k].0@ && r@[k].1@ == fields@[k].1@,
        decreases fields.len() - i,
    {
        r.push((fields[i].0.clone(), fields[i].1.duplicate()));
        i += 1;
    }
    assert(field_views(r@) =~= field_views(fields@));
    r
}

/// The object that holds the entries of a map.
pub fn object_of_map(map: &StrMap<Json>) -> (r: Json)
    ensures
        r@ == JsonView::Object(map_views(map@)),
{
    let mut object = ObjectBuilder::new();
    let mut i: usize = 0;
    assert(object@ =~= map_views(map@).take(0));
    while i < map.len()
        invariant
            i <= map@.len(),
            object@ == map_views(map@).take(i as int),
        decreases map@.len() - i,
    {
        object.put(map.key_at(i), map.value_at(i).duplicate());
        i += 1;
        assert(object@ =~= map_views(map@).take(i as int));
    }
    assert(map_views(map@).take(i as int) =~= map_views(map@));
    object.finish()
}

/// The members of an object whose values are strings.
pub open spec fn text_map_views(entries: Seq<(Seq<char>, String)>) -> Seq<(Seq<char>, JsonView)> {
    Seq::new(entries.len(), |i: int| (entries[i].0, JsonView::String(entries[i].1@)))
}

/// The object that holds the entries of a map of texts.
pub fn object_of_texts(map: &StrMap<String>) -> (r: Json)
    ensures
        r@ == JsonView::Object(text_map_views(map@)),
{
    let mut object = ObjectBuilder::new();
    let mut i: usize = 0;
    assert(object@ =~= text_map_views(map@).take(0));
    while i < map.len()
        invariant
            i <= map@.len(),
            object@ == text_map_views(map@).take(i as int),
        decreases map@.len() - i,
    {
        object.put(map.key_at(i), Json::text(map.value_at(i)));
        i += 1;
        assert(object@ =~= text_map_views(map@).take(i as int));
    }
    assert(text_map_views(map@).take(i as int) =~= text_map_views(map@));
    object.finish()
}

/// An object under construction.
#[derive(Debug)]
pub struct ObjectBuilder {
    fields: Vec<(String, Json)>,
}

impl ObjectBuilder {
    /// The members so far.
    pub closed spec fn view(&self) -> Seq<(Seq<char>, JsonView)> {
        field_views(self.fields@)
    }

    /// An object without members.
    pub fn new() -> (r: Self)
        ensures
            r@ == Seq::<(Seq<char>, JsonView)>::empty(),
    {
        let r = ObjectBuilder { fields: Vec::new() };
        assert(r@ =~= Seq::empty());
        r
    }

    /// Appends a member.
    pub fn put(&mut self, key: &str, value: Json)
        ensures
            final(self)@ == old(self)@.push((key@, value@)),
    {
        self.fields.push((key.to_owned(), value));
        assert(self@ =~= old(self)@.push((key@, value@)));
    }

    /// The object with the members so far.
    pub fn finish(self) -> (r: Json)
        ensures
            r@ == JsonView::Object(self@),
    {
        let r = Json::Object(self.fields);
        proof {
            lemma_json_view(r);
        }
        r
    }
}

// ---------------------------------------------------------------
// Text
// ---------------------------------------------------------------

/// The JSON form of a character: control characters, double quotes and
/// backslashes are escaped.
pub open spec fn char_form(c: char) -> Seq<char> {
    if c == '"' {
        seq!['\\', '"']
    } else if c == '\\' {
        seq!['\\', '\\']
    } else if c == '\u{8}' {
        seq!['\\', 'b']
    } else if c == '\t' {
        seq!['\\', 't']
    } else if c == '\n' {
        seq!['\\', 'n']
    } else if c == '\u{c}' {
        seq!['\\', 'f']
    } else if c == '\r' {
        seq!['\\', 'r']
    } else if !(' ' <= c) {
        seq!['\\', 'u', '0', '0'] + hex(seq![c as u8])
    } else {
        seq![c]
    }
}

/// The JSON forms of the characters of a text, one after the other.
pub open spec fn escaped(s: Seq<char>) -> Seq<char>
    decreases s.len(),
{
    if s.len() == 0 {
        Seq::empty()
    } else {
        escaped(s.drop_last()) + char_form(s.last())
    }
}

/// The JSON form of a string.
pub open spec fn string_form(s: Seq<char>) -> Seq<char> {
    seq!['"'] + escaped(s) + seq!['"']
}

/// Renders a string value with the `Display` of `serde_json::Value`.
///
/// Trusted: the characters stand between double quotes, each as it is, but
/// for double quotes and backslashes, which a backslash precedes, and control
/// characters, which are written with a letter behind a backslash or by their
/// code in four hexadecimal digits.
#[verifier::external_body]
fn json_string(s: &str) -> (r: String)
    ensures
        r@ == string_form(s@),
{
    serde_json::Value::from(s).to_string()
}

/// The compact text of a value.
pub open spec fn compact(value: JsonView) -> Seq<char>
    decreases value, 0int,
{
    match value {
        JsonView::Null => "null"@,
        JsonView::Bool(b) => if b {
            "true"@
        } else {
            "false"@
        },
        JsonView::Number(n) => n,
        JsonView::String(s) => string_form(s),
        JsonView::Array(items) => "["@ + compact_items(items, items.len() as int) + "]"@,
        JsonView::Object(fields) => "{"@ + compact_fields(fields, fields.len() as int) + "}"@,
    }
}

/// The texts of the first `n` values, separated by commas.
pub open spec fn compact_items(items: Seq<JsonView>, n: int) -> Seq<char>
    decreases items, n,
{
    if n <= 0 || n > items.len() {
        Seq::empty()
    } else if n == 1 {
        compact(items[0])
    } else {
        compact_items(items, n - 1) + ","@ + compact(items[n - 1])
    }
}

/// The text of a member.
pub open spec fn compact_field(field: (Seq<char>, JsonView)) -> Seq<char>
    decreases field, 1int,
{
    string_form(field.0) + ":"@ + compact(field.1)
}

/// The texts of the first `n` members, separated by commas.
pub open spec fn compact_fields(fields: Seq<(Seq<char>, JsonView)>, n: int) -> Seq<char>
    decreases fields, n,
{
    if n <= 0 || n > fields.len() {
        Seq::empty()
    } else if n == 1 {
        compact_field(fields[0])
    } else {
        compact_fields(fields, n - 1) + ","@ + compact_field(fields[n - 1])
    }
}

/// Writes a value as compact JSON.
pub fn to_text(value: &Json) -> (r: String)
    ensures
        r@ == compact(value@),
    decreases value,
{
    match value {
        Json::Null => "null".to_owned(),
        Json::Bool(b) => if *b {
            "true".to_owned()
        } else {
            "false".to_owned()
        },
        Json::Number(n) => n.clone(),
        Json::String(s) => json_string(s),
        Json::Array(items) => {
            proof {
                lemma_json_view(*value);
            }
            join3("[", &items_to_text(items), "]")
        },
        Json::Object(fields) => {
            proof {
                lemma_json_view(*value);
            }
            join3("{", &fields_to_text(fields), "}")
        },
    }
}

fn items_to_text(items: &Vec<Json>) -> (r: String)
    ensures
        r@ == compact_items(item_views(items@), items@.len() as int),
    decreases items,
{
    let ghost views = item_views(items@);
    let mut r = String::new();
    let mut i: usize = 0;
    while i < items.len()
        invariant
            i <= items@.len(),
            views == item_views(items@),
            r@ == compact_items(views, i as int),
        decreases items.len() - i,
    {
        let item = to_text(&items[i]);
        assert(views[i as int] == items@[i as int]@);
        if i == 0 {
            r = item;
        } else {
            r = join3(&r, ",", &item);
        }
        i += 1;
    }
    r
}

fn fields_to_text(fields: &Vec<(String, Json)>) -> (r: String)
    ensures
        r@ == compact_fields(field_views(fields@), fields@.len() as int),
    decreases fields,
{
    let ghost views = field_views(fields@);
    let mut r = String::new();
    let mut i: usize = 0;
    while i < fields.len()
        invariant
            i <= fields@.len(),
            views == field_views(fields@),
            r@ == compact_fields(views, i as int),
        decreases fields.len() - i,
    {
        let field = join3(&json_string(&fields[i].0), ":", &to_text(&fields[i].1));
        assert(views[i as int] == (fields@[i as int].0@, fields@[i as int].1@));
        assert(field@ == compact_field(views[i as int]));
        if i == 0 {
            r = field;
        } else {
            r = join3(&r, ",", &field);
        }
        i += 1;
    }
    r
}

} // verus!
