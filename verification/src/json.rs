//! JSON: a document value of the library's own, and what it asks of the `serde_json` crate.

use crate::ident::{format_uuid, hyphenated, Uuid};
use crate::text;
use vstd::prelude::*;
use vstd::slice::slice_to_vec;

verus! {

/// A JSON value.
pub enum Json {
    Null,
    Bool(bool),
    /// A whole number.
    Number(i128),
    /// Any other number: the bit pattern of an IEEE 754 double.
    Real(u64),
    Text(String),
    /// A moment in nanoseconds since the Unix epoch, which is written as RFC 3339 text in UTC.
    Moment(i128),
    /// A document as it was encoded.
    Document(Vec<u8>),
    Array(Vec<Json>),
    Object(Vec<(String, Json)>),
}

/// A JSON value, as values.
pub enum JsonView {
    Null,
    Bool(bool),
    Number(int),
    Real(u64),
    Text(Seq<char>),
    Moment(i128),
    Document(Seq<u8>),
    Array(Seq<JsonView>),
    Object(Seq<(Seq<char>, JsonView)>),
}

impl Json {
    /// What the value says.
    pub open spec fn view(&self) -> JsonView
        decreases self,
    {
        match self {
            Json::Null => JsonView::Null,
            Json::Bool(b) => JsonView::Bool(*b),
            Json::Number(n) => JsonView::Number(*n as int),
            Json::Real(bits) => JsonView::Real(*bits),
            Json::Text(text) => JsonView::Text(text@),
            Json::Moment(moment) => JsonView::Moment(*moment),
            Json::Document(document) => JsonView::Document(document@),
            Json::Array(items) => JsonView::Array(
                Seq::new(
                    items@.len(),
                    |i: int|
                        if 0 <= i < items@.len() {
                            items@[i].view()
                        } else {
                            JsonView::Null
                        },
                ),
            ),
            Json::Object(fields) => JsonView::Object(
                Seq::new(
                    fields@.len(),
                    |i: int|
                        if 0 <= i < fields@.len() {
                            (fields@[i].0@, fields@[i].1.view())
                        } else {
                            (Seq::empty(), JsonView::Null)
                        },
                ),
            ),
        }
    }
}

impl Json {
    /// The same value once more.
    pub fn copy(&self) -> (r: Json)
        ensures
            r@ == self@,
        decreases self,
    {
        match self {
            Json::Null => Json::Null,
            Json::Bool(b) => Json::Bool(*b),
            Json::Number(n) => Json::Number(*n),
            Json::Real(bits) => Json::Real(*bits),
            Json::Text(text) => Json::Text(text::owned(text.as_str())),
            Json::Moment(moment) => Json::Moment(*moment),
            Json::Document(document) => Json::Document(slice_to_vec(document.as_slice())),
            Json::Array(items) => {
                let mut copies: Vec<Json> = Vec::new();
                let mut i: usize = 0;
                while i < items.len()
                    invariant
                        i <= items@.len(),
                        copies@.len() == i,
                        decreases_to!(self => items@),
                        forall|j: int| 0 <= j < i ==> (#[trigger] copies@[j])@ == items@[j]@,
                    decreases items@.len() - i,
                {
                    assert(decreases_to!(items@ => items@[i as int]));
                    copies.push(items[i].copy());
                    i += 1;
                }
                let r = Json::Array(copies);
                assert(r@->Array_0 =~= self@->Array_0);
                r
            },
            Json::Object(fields) => {
                let mut copies: Vec<(String, Json)> = Vec::new();
                let mut i: usize = 0;
                while i < fields.len()
                    invariant
                        i <= fields@.len(),
                        copies@.len() == i,
                        decreases_to!(self => fields@),
                        forall|j: int|
                            0 <= j < i ==> (#[trigger] copies@[j]).0@ == fields@[j].0@
                                && copies@[j].1@ == fields@[j].1@,
                    decreases fields@.len() - i,
                {
                    assert(decreases_to!(fields@ => fields@[i as int]));
                    assert(decreases_to!(fields@[i as int] => fields@[i as int].1));
                    let name = text::owned(fields[i].0.as_str());
                    copies.push((name, fields[i].1.copy()));
                    i += 1;
                }
                let r = Json::Object(copies);
                assert(r@->Object_0 =~= self@->Object_0);
                r
            },
        }
    }
}

/// What a list of values says.
pub open spec fn item_views(items: Seq<Json>) -> Seq<JsonView> {
    Seq::new(items.len(), |i: int| items[i]@)
}

/// What the fields of an object say.
pub open spec fn field_views(fields: Seq<(String, Json)>) -> Seq<(Seq<char>, JsonView)> {
    Seq::new(fields.len(), |i: int| (fields[i].0@, fields[i].1@))
}

/// The text of a UUID, as a JSON string.
pub open spec fn id_json(id: Uuid) -> JsonView {
    JsonView::Text(hyphenated(id))
}

/// An optional UUID: a JSON string or null.
pub open spec fn optional_id_json(id: Option<Uuid>) -> JsonView {
    match id {
        Some(id) => id_json(id),
        None => JsonView::Null,
    }
}

/// An optional text: a JSON string or null.
pub open spec fn optional_text_json(text: Option<String>) -> JsonView {
    match text {
        Some(text) => JsonView::Text(text@),
        None => JsonView::Null,
    }
}

/// A named value.
pub type FieldView = (Seq<char>, JsonView);

/// One field.
pub open spec fn fields1(a: FieldView) -> Seq<FieldView> {
    Seq::empty().push(a)
}

/// Two fields in a row.
pub open spec fn fields2(a: FieldView, b: FieldView) -> Seq<FieldView> {
    Seq::empty().push(a).push(b)
}

/// Three fields in a row.
pub open spec fn fields3(a: FieldView, b: FieldView, c: FieldView) -> Seq<FieldView> {
    Seq::empty().push(a).push(b).push(c)
}

/// Four fields in a row.
pub open spec fn fields4(a: FieldView, b: FieldView, c: FieldView, d: FieldView) -> Seq<FieldView> {
    Seq::empty().push(a).push(b).push(c).push(d)
}

/// Five fields in a row.
pub open spec fn fields5(a: FieldView, b: FieldView, c: FieldView, d: FieldView, e: FieldView) -> Seq<FieldView> {
    Seq::empty().push(a).push(b).push(c).push(d).push(e)
}

/// Six fields in a row.
pub open spec fn fields6(a: FieldView, b: FieldView, c: FieldView, d: FieldView, e: FieldView, f: FieldView) -> Seq<FieldView> {
    Seq::empty().push(a).push(b).push(c).push(d).push(e).push(f)
}

/// Seven fields in a row.
pub open spec fn fields7(a: FieldView, b: FieldView, c: FieldView, d: FieldView, e: FieldView, f: FieldView, g: FieldView) -> Seq<FieldView> {
    Seq::empty().push(a).push(b).push(c).push(d).push(e).push(f).push(g)
}

/// Eight fields in a row.
pub open spec fn fields8(a: FieldView, b: FieldView, c: FieldView, d: FieldView, e: FieldView, f: FieldView, g: FieldView, h: FieldView) -> Seq<FieldView> {
    Seq::empty().push(a).push(b).push(c).push(d).push(e).push(f).push(g).push(h)
}

/// The fields of an object that is being put together.
pub struct Fields {
    fields: Vec<(String, Json)>,
}

impl Fields {
    pub closed spec fn view(&self) -> Seq<(Seq<char>, JsonView)> {
        field_views(self.fields@)
    }

    /// No fields yet.
    pub fn new() -> (r: Fields)
        ensures
            r@ == Seq::<(Seq<char>, JsonView)>::empty(),
    {
        Fields { fields: Vec::new() }
    }

    /// One more field.
    pub fn with(self, name: &str, value: Json) -> (r: Fields)
        ensures
            r@ == self@.push((name@, value@)),
    {
        let mut fields = self.fields;
        fields.push((text::owned(name), value));
        let r = Fields { fields };
        assert(r@ =~= self@.push((name@, value@)));
        r
    }

    /// One more field, whose value is a string.
    pub fn text(self, name: &str, value: &str) -> (r: Fields)
        ensures
            r@ == self@.push((name@, JsonView::Text(value@))),
    {
        self.with(name, Json::Text(text::owned(value)))
    }

    /// One more field, whose value is a UUID.
    pub fn id(self, name: &str, value: Uuid) -> (r: Fields)
        ensures
            r@ == self@.push((name@, id_json(value))),
    {
        self.with(name, Json::Text(format_uuid(value)))
    }

    /// One more field, whose value is a UUID or null.
    pub fn optional_id(self, name: &str, value: Option<Uuid>) -> (r: Fields)
        ensures
            r@ == self@.push((name@, optional_id_json(value))),
    {
        match value {
            Some(id) => self.id(name, id),
            None => self.with(name, Json::Null),
        }
    }

    /// One more field, whose value is a whole number.
    pub fn number(self, name: &str, value: i128) -> (r: Fields)
        ensures
            r@ == self@.push((name@, JsonView::Number(value as int))),
    {
        self.with(name, Json::Number(value))
    }

    /// One more field, whose value is a moment.
    pub fn moment(self, name: &str, value: i128) -> (r: Fields)
        ensures
            r@ == self@.push((name@, JsonView::Moment(value))),
    {
        self.with(name, Json::Moment(value))
    }

    /// One more field, whose value is true or false.
    pub fn flag(self, name: &str, value: bool) -> (r: Fields)
        ensures
            r@ == self@.push((name@, JsonView::Bool(value))),
    {
        self.with(name, Json::Bool(value))
    }

    /// One more field, whose value is a string or null.
    pub fn optional_string(self, name: &str, value: &Option<String>) -> (r: Fields)
        ensures
            r@ == self@.push((name@, optional_text_json(*value))),
    {
        match value {
            Some(value) => self.text(name, value.as_str()),
            None => self.with(name, Json::Null),
        }
    }

    /// One more field, whose value is a document as it was encoded.
    pub fn document(self, name: &str, value: Vec<u8>) -> (r: Fields)
        ensures
            r@ == self@.push((name@, JsonView::Document(value@))),
    {
        self.with(name, Json::Document(value))
    }

    /// The object.
    pub fn object(self) -> (r: Json)
        ensures
            r@ == JsonView::Object(self@),
    {
        let r = Json::Object(self.fields);
        assert(r@->Object_0 =~= self@);
        r
    }
}

/// A list of one value.
pub open spec fn array1(item: JsonView) -> JsonView {
    JsonView::Array(Seq::empty().push(item))
}

/// A list of one value.
pub fn single(item: Json) -> (r: Json)
    ensures
        r@ == array1(item@),
{
    let mut items: Vec<Json> = Vec::new();
    items.push(item);
    let r = Json::Array(items);
    assert(r@->Array_0 =~= Seq::empty().push(item@));
    r
}

/// A list without values.
pub fn empty_list() -> (r: Json)
    ensures
        r@ == JsonView::Array(Seq::empty()),
{
    let items: Vec<Json> = Vec::new();
    let r = Json::Array(items);
    assert(r@->Array_0 =~= Seq::empty());
    r
}

/// A list of UUIDs, as a JSON array of strings.
pub open spec fn ids_json(ids: Seq<Uuid>) -> JsonView {
    JsonView::Array(ids.map_values(|id: Uuid| id_json(id)))
}

/// A list of UUIDs, as a JSON array of strings.
pub fn id_list(ids: &[Uuid]) -> (r: Json)
    ensures
        r@ == ids_json(ids@),
{
    let mut items: Vec<Json> = Vec::new();
    let mut i: usize = 0;
    while i < ids.len()
        invariant
            i <= ids@.len(),
            items@.len() == i,
            forall|j: int| 0 <= j < i ==> (#[trigger] items@[j])@ == id_json(ids@[j]),
        decreases ids@.len() - i,
    {
        items.push(Json::Text(format_uuid(ids[i])));
        i += 1;
    }
    let r = Json::Array(items);
    assert(r@->Array_0 =~= ids@.map_values(|id: Uuid| id_json(id)));
    r
}

/// A list of texts, as a JSON array of strings.
pub open spec fn texts_json(texts: Seq<String>) -> JsonView {
    JsonView::Array(texts.map_values(|text: String| JsonView::Text(text@)))
}

/// A list of texts, as a JSON array of strings.
pub fn text_list(texts: Vec<String>) -> (r: Json)
    ensures
        r@ == texts_json(texts@),
{
    let mut items: Vec<Json> = Vec::new();
    let mut i: usize = 0;
    while i < texts.len()
        invariant
            i <= texts@.len(),
            items@.len() == i,
            forall|j: int| 0 <= j < i ==> (#[trigger] items@[j])@ == JsonView::Text(texts@[j]@),
        decreases texts@.len() - i,
    {
        items.push(Json::Text(crate::text::owned(texts[i].as_str())));
        i += 1;
    }
    let r = Json::Array(items);
    assert(r@->Array_0 =~= texts@.map_values(|text: String| JsonView::Text(text@)));
    r
}

/// Whether `serde_json` accepts the bytes as one JSON document.
pub uninterp spec fn json_document(document: Seq<u8>) -> bool;

/// Whether a JSON pointer names anything in a document, as `serde_json` finds it.
pub uninterp spec fn json_has_at(document: Seq<u8>, pointer: Seq<char>) -> bool;

/// The string that a JSON pointer names in a document, as `serde_json` finds it.
pub uninterp spec fn json_text_at(document: Seq<u8>, pointer: Seq<char>) -> Option<Seq<char>>;

/// The unsigned number that a JSON pointer names in a document, as `serde_json` finds it.
pub uninterp spec fn json_number_at(document: Seq<u8>, pointer: Seq<char>) -> Option<u64>;

/// The items of the array that a JSON pointer names in a document, each with its text where it is a
/// string, as `serde_json` finds them.
pub uninterp spec fn json_texts_at(document: Seq<u8>, pointer: Seq<char>) -> Option<
    Seq<Option<Seq<char>>>,
>;

/// The encoding of the value that a JSON pointer names in a document, as `serde_json` writes it.
pub uninterp spec fn json_value_at(document: Seq<u8>, pointer: Seq<char>) -> Option<Seq<u8>>;

/// `serde_json::from_slice` to a `Value`: whether the bytes are one JSON document.
#[verifier::external_body]
pub(crate) fn is_json(document: &[u8]) -> (r: bool)
    ensures
        r == json_document(document@),
{
    serde_json::from_slice::<serde_json::Value>(document).is_ok()
}

/// `Value::pointer` on the document that `serde_json::from_slice` reads: whether it finds anything, a
/// function of the bytes and the pointer.
#[verifier::external_body]
pub(crate) fn has_at(document: &[u8], pointer: &str) -> (r: bool)
    ensures
        r == json_has_at(document@, pointer@),
        r ==> json_document(document@),
{
    let value: Option<serde_json::Value> = serde_json::from_slice(document).ok();
    value.is_some_and(|value| value.pointer(pointer).is_some())
}

/// `Value::pointer` and `Value::as_str` on the document that `serde_json::from_slice` reads: a
/// function of the bytes and the pointer, which finds nothing in what is no document.
#[verifier::external_body]
pub(crate) fn text_at(document: &[u8], pointer: &str) -> (text: Option<String>)
    ensures
        text is Some == json_text_at(document@, pointer@) is Some,
        text matches Some(t) ==> json_text_at(document@, pointer@) == Some(t@),
        text is Some ==> json_document(document@),
{
    let value: serde_json::Value = serde_json::from_slice(document).ok()?;
    value.pointer(pointer)?.as_str().map(str::to_owned)
}

/// `Value::pointer` and `Value::as_u64` on the document that `serde_json::from_slice` reads: a
/// function of the bytes and the pointer, which finds nothing in what is no document.
#[verifier::external_body]
pub(crate) fn number_at(document: &[u8], pointer: &str) -> (number: Option<u64>)
    ensures
        number == json_number_at(document@, pointer@),
        number is Some ==> json_document(document@),
{
    let value: serde_json::Value = serde_json::from_slice(document).ok()?;
    value.pointer(pointer)?.as_u64()
}

/// `Value::pointer` and `serde_json::to_vec` on the document that `serde_json::from_slice` reads: a
/// function of the bytes and the pointer, which finds nothing in what is no document.
#[verifier::external_body]
pub(crate) fn value_at(document: &[u8], pointer: &str) -> (encoded: Option<Vec<u8>>)
    ensures
        encoded is Some == json_value_at(document@, pointer@) is Some,
        encoded matches Some(e) ==> json_value_at(document@, pointer@) == Some(e@),
        encoded is Some ==> json_has_at(document@, pointer@),
{
    let value: serde_json::Value = serde_json::from_slice(document).ok()?;
    serde_json::to_vec(value.pointer(pointer)?).ok()
}

/// What the strings of a list view as.
pub open spec fn optional_views(texts: Seq<Option<String>>) -> Seq<Option<Seq<char>>> {
    texts.map_values(
        |text: Option<String>|
            match text {
                Some(t) => Some(t@),
                None => None,
            },
    )
}

/// `Value::pointer`, `Value::as_array` and `Value::as_str` on the document that
/// `serde_json::from_slice` reads: a function of the bytes and the pointer.
#[verifier::external_body]
pub(crate) fn texts_at(document: &[u8], pointer: &str) -> (texts: Option<Vec<Option<String>>>)
    ensures
        texts is Some == json_texts_at(document@, pointer@) is Some,
        texts matches Some(t) ==> json_texts_at(document@, pointer@) == Some(optional_views(t@)),
        texts is Some ==> json_document(document@),
{
    let value: serde_json::Value = serde_json::from_slice(document).ok()?;
    let items = value.pointer(pointer)?.as_array()?;
    Some(items.iter().map(|item| item.as_str().map(str::to_owned)).collect())
}

/// The value of a field, where fields hold one of that name; of several the last counts.
pub open spec fn lookup(fields: Seq<FieldView>, name: Seq<char>) -> Option<JsonView>
    decreases fields.len(),
{
    if fields.len() == 0 {
        None
    } else if fields.last().0 == name {
        Some(fields.last().1)
    } else {
        lookup(fields.drop_last(), name)
    }
}

/// The value of a field of an object.
pub open spec fn field_of(value: JsonView, name: Seq<char>) -> Option<JsonView> {
    match value {
        JsonView::Object(fields) => lookup(fields, name),
        _ => None,
    }
}

/// The value that is found below a value under one name and then another.
pub open spec fn field_below(value: JsonView, name: Seq<char>, below: Seq<char>) -> Option<JsonView> {
    match field_of(value, name) {
        Some(inner) => field_of(inner, below),
        None => None,
    }
}

/// The only item of a list of one.
pub open spec fn only_item(value: JsonView) -> Option<JsonView> {
    match value {
        JsonView::Array(items) if items.len() == 1 => Some(items[0]),
        _ => None,
    }
}

pub proof fn lemma_lookup_push(fields: Seq<FieldView>, field: FieldView, name: Seq<char>)
    ensures
        lookup(fields.push(field), name) == (if field.0 == name {
            Some(field.1)
        } else {
            lookup(fields, name)
        }),
{
    assert(fields.push(field).drop_last() =~= fields);
}

pub proof fn lemma_fields1(a: FieldView, name: Seq<char>)
    ensures
        lookup(fields1(a), name) == (if a.0 == name { Some(a.1) } else { None }),
{
    lemma_lookup_push(Seq::empty(), a, name);
}

pub proof fn lemma_fields2(a: FieldView, b: FieldView, name: Seq<char>)
    ensures
        lookup(fields2(a, b), name) == (if b.0 == name { Some(b.1) } else { if a.0 == name { Some(a.1) } else { None } }),
{
    lemma_lookup_push(Seq::empty(), a, name);
    lemma_lookup_push(Seq::empty().push(a), b, name);
}

pub proof fn lemma_fields3(a: FieldView, b: FieldView, c: FieldView, name: Seq<char>)
    ensures
        lookup(fields3(a, b, c), name) == (if c.0 == name { Some(c.1) } else { if b.0 == name { Some(b.1) } else { if a.0 == name { Some(a.1) } else { None } } }),
{
    lemma_lookup_push(Seq::empty(), a, name);
    lemma_lookup_push(Seq::empty().push(a), b, name);
    lemma_lookup_push(Seq::empty().push(a).push(b), c, name);
}

pub proof fn lemma_fields4(a: FieldView, b: FieldView, c: FieldView, d: FieldView, name: Seq<char>)
    ensures
        lookup(fields4(a, b, c, d), name) == (if d.0 == name { Some(d.1) } else { if c.0 == name { Some(c.1) } else { if b.0 == name { Some(b.1) } else { if a.0 == name { Some(a.1) } else { None } } } }),
{
    lemma_lookup_push(Seq::empty(), a, name);
    lemma_lookup_push(Seq::empty().push(a), b, name);
    lemma_lookup_push(Seq::empty().push(a).push(b), c, name);
    lemma_lookup_push(Seq::empty().push(a).push(b).push(c), d, name);
}

pub proof fn lemma_fields5(a: FieldView, b: FieldView, c: FieldView, d: FieldView, e: FieldView, name: Seq<char>)
    ensures
        lookup(fields5(a, b, c, d, e), name) == (if e.0 == name { Some(e.1) } else { if d.0 == name { Some(d.1) } else { if c.0 == name { Some(c.1) } else { if b.0 == name { Some(b.1) } else { if a.0 == name { Some(a.1) } else { None } } } } }),
{
    lemma_lookup_push(Seq::empty(), a, name);
    lemma_lookup_push(Seq::empty().push(a), b, name);
    lemma_lookup_push(Seq::empty().push(a).push(b), c, name);
    lemma_lookup_push(Seq::empty().push(a).push(b).push(c), d, name);
    lemma_lookup_push(Seq::empty().push(a).push(b).push(c).push(d), e, name);
}

pub proof fn lemma_fields6(a: FieldView, b: FieldView, c: FieldView, d: FieldView, e: FieldView, f: FieldView, name: Seq<char>)
    ensures
        lookup(fields6(a, b, c, d, e, f), name) == (if f.0 == name { Some(f.1) } else { if e.0 == name { Some(e.1) } else { if d.0 == name { Some(d.1) } else { if c.0 == name { Some(c.1) } else { if b.0 == name { Some(b.1) } else { if a.0 == name { Some(a.1) } else { None } } } } } }),
{
    lemma_lookup_push(Seq::empty(), a, name);
    lemma_lookup_push(Seq::empty().push(a), b, name);
    lemma_lookup_push(Seq::empty().push(a).push(b), c, name);
    lemma_lookup_push(Seq::empty().push(a).push(b).push(c), d, name);
    lemma_lookup_push(Seq::empty().push(a).push(b).push(c).push(d), e, name);
    lemma_lookup_push(Seq::empty().push(a).push(b).push(c).push(d).push(e), f, name);
}

pub proof fn lemma_fields7(a: FieldView, b: FieldView, c: FieldView, d: FieldView, e: FieldView, f: FieldView, g: FieldView, name: Seq<char>)
    ensures
        lookup(fields7(a, b, c, d, e, f, g), name) == (if g.0 == name { Some(g.1) } else { if f.0 == name { Some(f.1) } else { if e.0 == name { Some(e.1) } else { if d.0 == name { Some(d.1) } else { if c.0 == name { Some(c.1) } else { if b.0 == name { Some(b.1) } else { if a.0 == name { Some(a.1) } else { None } } } } } } }),
{
    lemma_lookup_push(Seq::empty(), a, name);
    lemma_lookup_push(Seq::empty().push(a), b, name);
    lemma_lookup_push(Seq::empty().push(a).push(b), c, name);
    lemma_lookup_push(Seq::empty().push(a).push(b).push(c), d, name);
    lemma_lookup_push(Seq::empty().push(a).push(b).push(c).push(d), e, name);
    lemma_lookup_push(Seq::empty().push(a).push(b).push(c).push(d).push(e), f, name);
    lemma_lookup_push(Seq::empty().push(a).push(b).push(c).push(d).push(e).push(f), g, name);
}

pub proof fn lemma_fields8(a: FieldView, b: FieldView, c: FieldView, d: FieldView, e: FieldView, f: FieldView, g: FieldView, h: FieldView, name: Seq<char>)
    ensures
        lookup(fields8(a, b, c, d, e, f, g, h), name) == (if h.0 == name { Some(h.1) } else { if g.0 == name { Some(g.1) } else { if f.0 == name { Some(f.1) } else { if e.0 == name { Some(e.1) } else { if d.0 == name { Some(d.1) } else { if c.0 == name { Some(c.1) } else { if b.0 == name { Some(b.1) } else { if a.0 == name { Some(a.1) } else { None } } } } } } } }),
{
    lemma_lookup_push(Seq::empty(), a, name);
    lemma_lookup_push(Seq::empty().push(a), b, name);
    lemma_lookup_push(Seq::empty().push(a).push(b), c, name);
    lemma_lookup_push(Seq::empty().push(a).push(b).push(c), d, name);
    lemma_lookup_push(Seq::empty().push(a).push(b).push(c).push(d), e, name);
    lemma_lookup_push(Seq::empty().push(a).push(b).push(c).push(d).push(e), f, name);
    lemma_lookup_push(Seq::empty().push(a).push(b).push(c).push(d).push(e).push(f), g, name);
    lemma_lookup_push(Seq::empty().push(a).push(b).push(c).push(d).push(e).push(f).push(g), h, name);
}

} // verus!
