//! JSON values as the library holds them, the reading of typed fields out
//! of JSON objects, and the passage between values and JSON text.

use vstd::prelude::*;
use serde_json::{Number, Value};
use crate::octets::utf8;
pub use crate::text::{
    as_opt_str, borrowed_list, opt_string, opt_strs, opt_text, opt_texts, owned, owned_list,
    same_text, strs, texts,
};

verus! {

/// A JSON value. An object keeps its members in order, and may hold a key
/// more than once.
#[derive(Debug)]
pub enum Json {
    Null,
    Bool(bool),
    /// A whole number that is not negative.
    UInt(u64),
    /// A whole number below zero.
    Int(i64),
    /// Any other number, as it is written in JSON.
    Float(String),
    Str(String),
    Array(Vec<Json>),
    Object(Vec<(String, Json)>),
}

/// What a JSON value holds.
pub enum JsonView {
    Null,
    Bool(bool),
    UInt(u64),
    Int(i64),
    Float(Seq<char>),
    Str(Seq<char>),
    Array(Seq<JsonView>),
    Object(Seq<(Seq<char>, JsonView)>),
}

/// The members of a JSON object: keys and values in order.
pub type Members = Seq<(Seq<char>, JsonView)>;

/// What a list of values holds.
pub open spec fn items_view(a: Seq<Json>) -> Seq<JsonView>
    decreases a,
{
    Seq::new(
        a.len(),
        |i: int|
            if 0 <= i < a.len() {
                a[i].view()
            } else {
                JsonView::Null
            },
    )
}

/// What a list of members holds.
pub open spec fn members_view(o: Seq<(String, Json)>) -> Members
    decreases o,
{
    Seq::new(
        o.len(),
        |i: int|
            if 0 <= i < o.len() {
                (o[i].0@, o[i].1.view())
            } else {
                (Seq::empty(), JsonView::Null)
            },
    )
}

impl View for Json {
    type V = JsonView;

    open spec fn view(&self) -> JsonView
        decreases self,
    {
        match self {
            Json::Null => JsonView::Null,
            Json::Bool(b) => JsonView::Bool(*b),
            Json::UInt(n) => JsonView::UInt(*n),
            Json::Int(n) => JsonView::Int(*n),
            Json::Float(t) => JsonView::Float(t@),
            Json::Str(s) => JsonView::Str(s@),
            Json::Array(a) => JsonView::Array(items_view(a@)),
            Json::Object(o) => JsonView::Object(members_view(o@)),
        }
    }
}

// ------------------------------------------------------- members of objects --

/// The value of the first member of `o` under `key`.
pub open spec fn find_key(o: Members, key: Seq<char>) -> Option<JsonView>
    decreases o.len(),
{
    if o.len() == 0 {
        None
    } else if o.first().0 == key {
        Some(o.first().1)
    } else {
        find_key(o.drop_first(), key)
    }
}

/// How many members of `o` stand under `key`.
pub open spec fn key_count(o: Members, key: Seq<char>) -> nat
    decreases o.len(),
{
    if o.len() == 0 {
        0
    } else {
        (if o.first().0 == key {
            1nat
        } else {
            0nat
        }) + key_count(o.drop_first(), key)
    }
}

/// Why an object is not what was expected.
#[derive(Debug, PartialEq, Eq, Structural, Clone, Copy)]
pub enum DeError {
    /// The text is not JSON.
    Syntax,
    /// A value is of another type than its place asks for.
    Mismatch,
    /// A known key stands in an object twice. Only an object that was
    /// built member by member can hold a key twice; one that was read
    /// from text never does.
    Duplicate,
    /// A key that must be there is not.
    Missing,
}

/// The types that the fields of the known objects have.
#[derive(Debug, PartialEq, Eq, Structural, Clone, Copy)]
pub enum Kind {
    Bool,
    Text,
    /// A whole number from 0 to 255.
    U8,
    /// A whole number from 0 to 4294967295.
    U32,
    /// A list of texts.
    Texts,
    /// A list of any values.
    List,
    Object,
}

/// Whether every value of a list is a text.
pub open spec fn all_texts(a: Seq<JsonView>) -> bool {
    forall|i: int| 0 <= i < a.len() ==> #[trigger] a[i] is Str
}

/// Whether a value is of a type.
pub open spec fn has_kind(v: JsonView, kind: Kind) -> bool {
    match kind {
        Kind::Bool => v is Bool,
        Kind::Text => v is Str,
        Kind::U8 => v matches JsonView::UInt(n) && n <= u8::MAX,
        Kind::U32 => v matches JsonView::UInt(n) && n <= u32::MAX,
        Kind::Texts => v matches JsonView::Array(a) && all_texts(a),
        Kind::List => v is Array,
        Kind::Object => v is Object,
    }
}

/// The field `key` of the object `o`, which is to be of type `kind`.
///
/// The first member under the key counts. It is refused where it is of
/// another type, and then where the key stands in the object once more.
/// Members under other keys are passed over.
pub open spec fn field(o: Members, key: Seq<char>, kind: Kind) -> Result<Option<JsonView>, DeError> {
    match find_key(o, key) {
        None => Ok(None),
        Some(v) => if !has_kind(v, kind) {
            Err(DeError::Mismatch)
        } else if key_count(o, key) > 1 {
            Err(DeError::Duplicate)
        } else {
            Ok(Some(v))
        },
    }
}

/// A field that must be there.
pub open spec fn required<T>(r: Result<Option<T>, DeError>) -> Result<T, DeError> {
    match r {
        Ok(Some(v)) => Ok(v),
        Ok(None) => Err(DeError::Missing),
        Err(e) => Err(e),
    }
}

/// A field of type bool.
pub open spec fn bool_field(o: Members, key: Seq<char>) -> Result<Option<bool>, DeError> {
    match field(o, key, Kind::Bool) {
        Ok(Some(JsonView::Bool(b))) => Ok(Some(b)),
        Ok(_) => Ok(None),
        Err(e) => Err(e),
    }
}

/// A field of type text.
pub open spec fn text_field(o: Members, key: Seq<char>) -> Result<Option<Seq<char>>, DeError> {
    match field(o, key, Kind::Text) {
        Ok(Some(JsonView::Str(s))) => Ok(Some(s)),
        Ok(_) => Ok(None),
        Err(e) => Err(e),
    }
}

/// A field that holds a whole number from 0 to 255.
pub open spec fn u8_field(o: Members, key: Seq<char>) -> Result<Option<u8>, DeError> {
    match field(o, key, Kind::U8) {
        Ok(Some(JsonView::UInt(n))) => Ok(Some(n as u8)),
        Ok(_) => Ok(None),
        Err(e) => Err(e),
    }
}

/// A field that holds a whole number from 0 to 4294967295.
pub open spec fn u32_field(o: Members, key: Seq<char>) -> Result<Option<u32>, DeError> {
    match field(o, key, Kind::U32) {
        Ok(Some(JsonView::UInt(n))) => Ok(Some(n as u32)),
        Ok(_) => Ok(None),
        Err(e) => Err(e),
    }
}

/// The texts that a list of text values holds.
pub open spec fn texts_of(a: Seq<JsonView>) -> Seq<Seq<char>> {
    Seq::new(
        a.len(),
        |i: int|
            match a[i] {
                JsonView::Str(s) => s,
                _ => Seq::empty(),
            },
    )
}

/// A field that holds a list of texts.
pub open spec fn texts_field(o: Members, key: Seq<char>) -> Result<Option<Seq<Seq<char>>>, DeError> {
    match field(o, key, Kind::Texts) {
        Ok(Some(JsonView::Array(a))) => Ok(Some(texts_of(a))),
        Ok(_) => Ok(None),
        Err(e) => Err(e),
    }
}

/// A field that holds an object.
pub open spec fn object_field(o: Members, key: Seq<char>) -> Result<Option<Members>, DeError> {
    match field(o, key, Kind::Object) {
        Ok(Some(JsonView::Object(m))) => Ok(Some(m)),
        Ok(_) => Ok(None),
        Err(e) => Err(e),
    }
}

/// An optional value as what it holds.
pub open spec fn opt_json(r: Option<&Json>) -> Option<JsonView> {
    match r {
        Some(j) => Some(j@),
        None => None,
    }
}

/// The members of an object, borrowed.
pub type Entries = Vec<(String, Json)>;

/// The value of the first member of `o` under `key`.
pub fn member<'a>(o: &'a Entries, key: &str) -> (r: Option<&'a Json>)
    ensures
        opt_json(r) == find_key(members_view(o@), key@),
{
    let ghost mv = members_view(o@);
    let mut i: usize = 0;
    assert(mv.skip(0) =~= mv);
    while i < o.len()
        invariant
            0 <= i <= o@.len(),
            mv == members_view(o@),
            find_key(mv, key@) == find_key(mv.skip(i as int), key@),
        decreases o@.len() - i,
    {
        proof {
            assert(mv.skip(i as int).first() == (o@[i as int].0@, o@[i as int].1@));
            assert(mv.skip(i as int).drop_first() =~= mv.skip(i + 1));
        }
        if same_text(o[i].0.as_str(), key) {
            return Some(&o[i].1);
        }
        i = i + 1;
    }
    None
}

/// Whether more than one member of `o` stands under `key`.
pub fn repeated(o: &Entries, key: &str) -> (r: bool)
    ensures
        r == (key_count(members_view(o@), key@) > 1),
{
    let ghost mv = members_view(o@);
    let mut seen: usize = 0;
    let mut i: usize = 0;
    assert(mv.skip(0) =~= mv);
    while i < o.len()
        invariant
            0 <= i <= o@.len(),
            mv == members_view(o@),
            seen <= 1,
            key_count(mv, key@) == seen + key_count(mv.skip(i as int), key@),
        decreases o@.len() - i,
    {
        proof {
            assert(mv.skip(i as int).first() == (o@[i as int].0@, o@[i as int].1@));
            assert(mv.skip(i as int).drop_first() =~= mv.skip(i + 1));
        }
        if same_text(o[i].0.as_str(), key) {
            if seen == 1 {
                return true;
            }
            seen = 1;
        }
        i = i + 1;
    }
    false
}

fn is_texts(a: &Vec<Json>) -> (r: bool)
    ensures
        r == all_texts(items_view(a@)),
{
    let mut i: usize = 0;
    while i < a.len()
        invariant
            0 <= i <= a@.len(),
            forall|k: int| 0 <= k < i ==> #[trigger] items_view(a@)[k] is Str,
        decreases a@.len() - i,
    {
        match &a[i] {
            Json::Str(_) => {},
            _ => {
                assert(!(items_view(a@)[i as int] is Str));
                return false;
            },
        }
        i = i + 1;
    }
    true
}

/// Whether a value is of a type.
pub fn is_kind(v: &Json, kind: Kind) -> (r: bool)
    ensures
        r == has_kind(v@, kind),
{
    match kind {
        Kind::Bool => match v {
            Json::Bool(_) => true,
            _ => false,
        },
        Kind::Text => match v {
            Json::Str(_) => true,
            _ => false,
        },
        Kind::U8 => match v {
            Json::UInt(n) => *n <= 255,
            _ => false,
        },
        Kind::U32 => match v {
            Json::UInt(n) => *n <= 4294967295,
            _ => false,
        },
        Kind::Texts => match v {
            Json::Array(a) => is_texts(a),
            _ => false,
        },
        Kind::List => match v {
            Json::Array(_) => true,
            _ => false,
        },
        Kind::Object => match v {
            Json::Object(_) => true,
            _ => false,
        },
    }
}

/// A read field as what it holds.
pub open spec fn read_view(r: Result<Option<&Json>, DeError>) -> Result<Option<JsonView>, DeError> {
    match r {
        Ok(v) => Ok(opt_json(v)),
        Err(e) => Err(e),
    }
}

/// Reads the field `key` of the object `o`, which is to be of type `kind`.
pub fn read_field<'a>(o: &'a Entries, key: &str, kind: Kind) -> (r: Result<Option<&'a Json>, DeError>)
    ensures
        read_view(r) == field(members_view(o@), key@, kind),
{
    match member(o, key) {
        None => Ok(None),
        Some(v) => {
            if !is_kind(v, kind) {
                Err(DeError::Mismatch)
            } else if repeated(o, key) {
                Err(DeError::Duplicate)
            } else {
                Ok(Some(v))
            }
        },
    }
}

/// Reads a field of type bool.
pub fn read_bool(o: &Entries, key: &str) -> (r: Result<Option<bool>, DeError>)
    ensures
        r == bool_field(members_view(o@), key@),
{
    match read_field(o, key, Kind::Bool) {
        Ok(Some(Json::Bool(b))) => Ok(Some(*b)),
        Ok(_) => Ok(None),
        Err(e) => Err(e),
    }
}

/// A read text as the characters it holds.
pub open spec fn text_view(r: Result<Option<&str>, DeError>) -> Result<Option<Seq<char>>, DeError> {
    match r {
        Ok(v) => Ok(opt_text(v)),
        Err(e) => Err(e),
    }
}

/// Reads a field of type text.
pub fn read_text<'a>(o: &'a Entries, key: &str) -> (r: Result<Option<&'a str>, DeError>)
    ensures
        text_view(r) == text_field(members_view(o@), key@),
{
    match read_field(o, key, Kind::Text) {
        Ok(Some(Json::Str(s))) => Ok(Some(s.as_str())),
        Ok(_) => Ok(None),
        Err(e) => Err(e),
    }
}

/// Reads a field that holds a whole number from 0 to 255.
pub fn read_u8(o: &Entries, key: &str) -> (r: Result<Option<u8>, DeError>)
    ensures
        r == u8_field(members_view(o@), key@),
{
    match read_field(o, key, Kind::U8) {
        Ok(Some(Json::UInt(n))) => Ok(Some(*n as u8)),
        Ok(_) => Ok(None),
        Err(e) => Err(e),
    }
}

/// Reads a field that holds a whole number from 0 to 4294967295.
pub fn read_u32(o: &Entries, key: &str) -> (r: Result<Option<u32>, DeError>)
    ensures
        r == u32_field(members_view(o@), key@),
{
    match read_field(o, key, Kind::U32) {
        Ok(Some(Json::UInt(n))) => Ok(Some(*n as u32)),
        Ok(_) => Ok(None),
        Err(e) => Err(e),
    }
}

/// A read list of texts as the characters they hold.
pub open spec fn texts_view(r: Result<Option<Vec<String>>, DeError>) -> Result<
    Option<Seq<Seq<char>>>,
    DeError,
> {
    match r {
        Ok(v) => Ok(opt_texts(v)),
        Err(e) => Err(e),
    }
}

fn copy_texts(a: &Vec<Json>) -> (r: Vec<String>)
    requires
        all_texts(items_view(a@)),
    ensures
        texts(r@) == texts_of(items_view(a@)),
{
    let mut out: Vec<String> = Vec::new();
    let mut i: usize = 0;
    while i < a.len()
        invariant
            0 <= i <= a@.len(),
            out@.len() == i,
            all_texts(items_view(a@)),
            forall|k: int| 0 <= k < i ==> out@[k]@ == #[trigger] texts_of(items_view(a@))[k],
        decreases a@.len() - i,
    {
        assert(items_view(a@)[i as int] is Str);
        match &a[i] {
            Json::Str(s) => {
                out.push(owned(s.as_str()));
            },
            _ => {},
        }
        i = i + 1;
    }
    assert(texts(out@) =~= texts_of(items_view(a@)));
    out
}

/// Reads a field that holds a list of texts.
pub fn read_texts(o: &Entries, key: &str) -> (r: Result<Option<Vec<String>>, DeError>)
    ensures
        texts_view(r) == texts_field(members_view(o@), key@),
{
    match read_field(o, key, Kind::Texts) {
        Ok(Some(Json::Array(a))) => Ok(Some(copy_texts(a))),
        Ok(_) => Ok(None),
        Err(e) => Err(e),
    }
}

/// A read object as the members it holds.
pub open spec fn object_view(r: Result<Option<&Entries>, DeError>) -> Result<Option<Members>, DeError> {
    match r {
        Ok(Some(m)) => Ok(Some(members_view(m@))),
        Ok(None) => Ok(None),
        Err(e) => Err(e),
    }
}

/// Reads a field that holds an object.
pub fn read_object<'a>(o: &'a Entries, key: &str) -> (r: Result<Option<&'a Entries>, DeError>)
    ensures
        object_view(r) == object_field(members_view(o@), key@),
{
    match read_field(o, key, Kind::Object) {
        Ok(Some(Json::Object(m))) => Ok(Some(m)),
        Ok(_) => Ok(None),
        Err(e) => Err(e),
    }
}

/// A field that holds a list.
pub open spec fn list_field(o: Members, key: Seq<char>) -> Result<Option<Seq<JsonView>>, DeError> {
    match field(o, key, Kind::List) {
        Ok(Some(JsonView::Array(a))) => Ok(Some(a)),
        Ok(_) => Ok(None),
        Err(e) => Err(e),
    }
}

/// A read list as the values it holds.
pub open spec fn list_view(r: Result<Option<&Vec<Json>>, DeError>) -> Result<
    Option<Seq<JsonView>>,
    DeError,
> {
    match r {
        Ok(Some(a)) => Ok(Some(items_view(a@))),
        Ok(None) => Ok(None),
        Err(e) => Err(e),
    }
}

/// Reads a field that holds a list.
pub fn read_list<'a>(o: &'a Entries, key: &str) -> (r: Result<Option<&'a Vec<Json>>, DeError>)
    ensures
        list_view(r) == list_field(members_view(o@), key@),
{
    match read_field(o, key, Kind::List) {
        Ok(Some(Json::Array(a))) => Ok(Some(a)),
        Ok(_) => Ok(None),
        Err(e) => Err(e),
    }
}

/// Insists on a field that was read.
pub fn need<T>(r: Result<Option<T>, DeError>) -> (out: Result<T, DeError>)
    ensures
        out == required(r),
{
    match r {
        Ok(Some(v)) => Ok(v),
        Ok(None) => Err(DeError::Missing),
        Err(e) => Err(e),
    }
}

// ------------------------------------------------------- building of values --

/// One member.
pub open spec fn entry(key: Seq<char>, v: JsonView) -> Members {
    seq![(key, v)]
}

/// One member, or none where there is no value.
pub open spec fn opt_entry(key: Seq<char>, v: Option<JsonView>) -> Members {
    match v {
        Some(j) => seq![(key, j)],
        None => Seq::empty(),
    }
}

/// A text as a value, or no value where there is no text.
pub open spec fn opt_str_json(s: Option<Seq<char>>) -> Option<JsonView> {
    match s {
        Some(t) => Some(JsonView::Str(t)),
        None => None,
    }
}

/// A bool as a value, or no value where there is no bool.
pub open spec fn opt_bool_json(b: Option<bool>) -> Option<JsonView> {
    match b {
        Some(t) => Some(JsonView::Bool(t)),
        None => None,
    }
}

/// A text as a value, or no value where the text is empty.
pub open spec fn filled_str_json(s: Seq<char>) -> Option<JsonView> {
    if s.len() != 0 {
        Some(JsonView::Str(s))
    } else {
        None
    }
}

/// A list of texts as a value.
pub open spec fn texts_json(l: Seq<Seq<char>>) -> JsonView {
    JsonView::Array(Seq::new(l.len(), |i: int| JsonView::Str(l[i])))
}

/// A list of texts as a value, or no value where there is no list.
pub open spec fn opt_texts_json(l: Option<Seq<Seq<char>>>) -> Option<JsonView> {
    match l {
        Some(t) => Some(texts_json(t)),
        None => None,
    }
}

/// An optional value as what it holds.
pub open spec fn held_json(r: Option<Json>) -> Option<JsonView> {
    match r {
        Some(j) => Some(j@),
        None => None,
    }
}

/// Adds a member to the members of an object.
pub fn put(out: &mut Entries, key: &str, value: Json)
    ensures
        members_view(final(out)@) == members_view(old(out)@) + entry(key@, value@),
{
    out.push((owned(key), value));
    assert(members_view(final(out)@) =~= members_view(old(out)@) + entry(key@, value@));
}

/// Adds a member to the members of an object, where there is a value.
pub fn put_opt(out: &mut Entries, key: &str, value: Option<Json>)
    ensures
        members_view(final(out)@) == members_view(old(out)@) + opt_entry(key@, held_json(value)),
{
    match value {
        Some(j) => {
            put(out, key, j);
        },
        None => {
            assert(members_view(old(out)@) + Seq::<(Seq<char>, JsonView)>::empty() =~= members_view(old(out)@));
        },
    }
}

/// A text as a value.
pub fn json_str(s: &str) -> (r: Json)
    ensures
        r@ == JsonView::Str(s@),
{
    Json::Str(owned(s))
}

/// A text as a value, where there is one.
pub fn json_opt_str(s: Option<&str>) -> (r: Option<Json>)
    ensures
        held_json(r) == opt_str_json(opt_text(s)),
{
    match s {
        Some(t) => Some(json_str(t)),
        None => None,
    }
}

/// A bool as a value, where there is one.
pub fn json_opt_bool(b: Option<bool>) -> (r: Option<Json>)
    ensures
        held_json(r) == opt_bool_json(b),
{
    match b {
        Some(t) => Some(Json::Bool(t)),
        None => None,
    }
}

/// A text as a value, where it is not empty.
pub fn json_filled_str(s: &str) -> (r: Option<Json>)
    ensures
        held_json(r) == filled_str_json(s@),
{
    if s.unicode_len() != 0 {
        Some(json_str(s))
    } else {
        None
    }
}

/// A list of texts as a value.
pub fn json_texts(v: &Vec<String>) -> (r: Json)
    ensures
        r@ == texts_json(texts(v@)),
{
    let mut out: Vec<Json> = Vec::new();
    let mut i: usize = 0;
    while i < v.len()
        invariant
            0 <= i <= v@.len(),
            out@.len() == i,
            forall|k: int| 0 <= k < i ==> out@[k]@ == JsonView::Str(v@[k]@),
        decreases v@.len() - i,
    {
        out.push(json_str(v[i].as_str()));
        i = i + 1;
    }
    assert(items_view(out@) =~= Seq::new(texts(v@).len(), |i: int| JsonView::Str(texts(v@)[i])));
    Json::Array(out)
}

/// A list of texts as a value, where there is one.
pub fn json_opt_texts(v: &Option<Vec<String>>) -> (r: Option<Json>)
    ensures
        held_json(r) == opt_texts_json(opt_texts(*v)),
{
    match v {
        Some(t) => Some(json_texts(t)),
        None => None,
    }
}

// ------------------------------------------------------------------ JSON text --

/// `serde_json::Value`, which is carried between the calls into
/// `serde_json` and never looked into.
#[verifier::external_type_specification]
#[verifier::external_body]
pub struct ExValue(Value);

/// `serde_json::Error`, of which nothing is read but that it occurred.
#[verifier::external_type_specification]
#[verifier::external_body]
pub struct ExError(serde_json::Error);

/// The compact JSON text that `serde_json` writes for a value, where it
/// writes one.
pub uninterp spec fn json_written(j: JsonView) -> Option<Seq<char>>;

/// The compact JSON text of a value; the empty text stands for a value
/// that is not written.
pub open spec fn json_text(j: JsonView) -> Seq<char> {
    match json_written(j) {
        Some(t) => t,
        None => Seq::empty(),
    }
}

/// The bytes of the compact JSON text of a value, where it is written.
pub open spec fn json_bytes(j: JsonView) -> Option<Seq<u8>> {
    match json_written(j) {
        Some(t) => Some(utf8(t)),
        None => None,
    }
}

/// Optional bytes as a sequence.
pub open spec fn held_bytes(r: Option<Vec<u8>>) -> Option<Seq<u8>> {
    match r {
        Some(b) => Some(b@),
        None => None,
    }
}

/// The value that `serde_json` reads from a text, where it reads one.
/// An object of the text that holds a key twice is read as an object that
/// holds it once, with the later of the two values: the value does not
/// show that the key was repeated.
pub uninterp spec fn json_parsed(bytes: Seq<u8>) -> Option<JsonView>;

/// Turns a value into a `serde_json::Value`, variant by variant, with
/// `Value::from` and the variants of `Value`. A number that is not whole
/// goes through `serde_json::from_str`, which reads its text as a
/// `Number`, and becomes `null` where no number is read. Nothing is
/// claimed of the result; `encode` alone uses it.
#[verifier::external_body]
fn to_outside(j: &Json) -> Value {
    match j {
        Json::Null => Value::Null,
        Json::Bool(b) => Value::from(*b),
        Json::UInt(n) => Value::from(*n),
        Json::Int(n) => Value::from(*n),
        Json::Float(t) => serde_json::from_str::<Number>(t).map_or(Value::Null, Value::Number),
        Json::Str(s) => Value::from(s.as_str()),
        Json::Array(a) => Value::Array(a.iter().map(to_outside).collect()),
        Json::Object(o) => Value::Object(o.iter().map(|kv| (kv.0.clone(), to_outside(&kv.1))).collect()),
    }
}

/// Turns a `serde_json::Value` into a value, variant by variant. Of the
/// numbers, `Number::as_u64` and `Number::as_i64` tell the whole ones
/// apart, and any other is kept as `Number`'s `to_string` writes it.
/// Nothing is claimed of the result; `decode` alone uses it.
#[verifier::external_body]
fn from_outside(v: &Value) -> Json {
    match v {
        Value::Null => Json::Null,
        Value::Bool(b) => Json::Bool(*b),
        Value::Number(n) => match (n.as_u64(), n.as_i64()) {
            (Some(u), _) => Json::UInt(u),
            (_, Some(i)) => Json::Int(i),
            _ => Json::Float(n.to_string()),
        },
        Value::String(s) => Json::Str(s.clone()),
        Value::Array(a) => Json::Array(a.iter().map(from_outside).collect()),
        Value::Object(o) => Json::Object(o.iter().map(|kv| (kv.0.clone(), from_outside(kv.1))).collect()),
    }
}

/// `serde_json::to_string` on the value, turned into a `serde_json::Value`
/// first. The claim: whether the call succeeds, and the text that it
/// writes, depend on nothing but what the value holds, so that the
/// outcome can go by the name `json_written`. That it succeeds is not
/// claimed.
#[verifier::external_body]
fn encode(j: &Json) -> (r: Result<String, serde_json::Error>)
    ensures
        match r {
            Ok(s) => json_written(j@) == Some(s@),
            Err(_) => json_written(j@).is_none(),
        },
{
    serde_json::to_string(&to_outside(j))
}

/// `serde_json::from_slice` on the bytes, read as a `serde_json::Value`.
/// The claim: whether the call succeeds, and the value that it reads,
/// depend on nothing but the bytes, so that the outcome can go by the
/// name `json_parsed`. A `serde_json::Value` keeps one member for each
/// key, so a key that the text repeats comes out once.
#[verifier::external_body]
fn decode(bytes: &[u8]) -> (r: Result<Json, serde_json::Error>)
    ensures
        match r {
            Ok(j) => json_parsed(bytes@) == Some(j@),
            Err(_) => json_parsed(bytes@).is_none(),
        },
{
    match serde_json::from_slice::<Value>(bytes) {
        Ok(v) => Ok(from_outside(&v)),
        Err(e) => Err(e),
    }
}

impl Json {
    /// The value as the compact JSON text that `serde_json` writes for
    /// it, or nothing where `serde_json` writes none.
    pub fn to_text(&self) -> (r: Option<String>)
        ensures
            opt_string(r) == json_written(self@),
    {
        match encode(self) {
            Ok(s) => Some(s),
            Err(_) => None,
        }
    }

    /// The bytes of the compact JSON text that `serde_json` writes for the
    /// value, or nothing where `serde_json` writes none.
    pub fn to_bytes(&self) -> (r: Option<Vec<u8>>)
        ensures
            held_bytes(r) == json_bytes(self@),
    {
        match encode(self) {
            Ok(s) => Some(vstd::slice::slice_to_vec(s.as_str().as_bytes())),
            Err(_) => None,
        }
    }

    /// Reads a value from JSON text. A key that the text repeats within
    /// one object is not refused: the value holds it once, with the later
    /// of its values. So `DeError::Duplicate` never comes of a value that
    /// was read from text, only of one that was built member by member.
    pub fn parse(bytes: &[u8]) -> (r: Result<Json, DeError>)
        ensures
            match r {
                Ok(j) => json_parsed(bytes@) == Some(j@),
                Err(e) => json_parsed(bytes@).is_none() && e == DeError::Syntax,
            },
    {
        match decode(bytes) {
            Ok(j) => Ok(j),
            Err(_) => Err(DeError::Syntax),
        }
    }

    /// The members of the value, where it is an object.
    pub fn members(&self) -> (r: Result<&Entries, DeError>)
        ensures
            match r {
                Ok(m) => self@ == JsonView::Object(members_view(m@)),
                Err(e) => !(self@ is Object) && e == DeError::Mismatch,
            },
    {
        match self {
            Json::Object(m) => Ok(m),
            _ => Err(DeError::Mismatch),
        }
    }
}

} // verus!
