//! The command "Find Element": the filter that is sent, and the answers.

use vstd::prelude::*;
use crate::json::{
    borrowed_list, entry, items_view, json_parsed, json_str, members_view, need, object_field,
    owned, put, read_list, read_object, read_text, required, list_field, strs, text_field, texts,
    DeError, Entries, Json, JsonView, Members,
};

verus! {

/// The filter by which elements are found.
#[derive(Debug)]
pub struct FindElemFilter {
    using: String,
    value: String,
}

impl Default for FindElemFilter {
    fn default() -> (r: Self)
        ensures
            r.using_view() == Seq::<char>::empty(),
            r.value_view() == Seq::<char>::empty(),
    {
        FindElemFilter { using: String::new(), value: String::new() }
    }
}

/// Setters for the filter by which elements are found.
pub trait FindElemFilterSetter {
    /// The strategy of location.
    spec fn using_view(&self) -> Seq<char>;

    /// The selector.
    spec fn value_view(&self) -> Seq<char>;

    fn set_using(&mut self, arg: &str)
        ensures
            final(self).using_view() == arg@,
            final(self).value_view() == old(self).value_view(),
    ;

    fn set_value(&mut self, arg: &str)
        ensures
            final(self).value_view() == arg@,
            final(self).using_view() == old(self).using_view(),
    ;
}

impl FindElemFilterSetter for FindElemFilter {
    closed spec fn using_view(&self) -> Seq<char> {
        self.using@
    }

    closed spec fn value_view(&self) -> Seq<char> {
        self.value@
    }

    fn set_using(&mut self, arg: &str) {
        self.using = owned(arg);
    }

    fn set_value(&mut self, arg: &str) {
        self.value = owned(arg);
    }
}

/// The filter as it is written.
pub open spec fn filter_json(using: Seq<char>, value: Seq<char>) -> JsonView {
    JsonView::Object(
        entry("using"@, JsonView::Str(using)) + entry("value"@, JsonView::Str(value)),
    )
}

impl FindElemFilter {
    /// The filter as the JSON object that is sent.
    pub fn to_json(&self) -> (r: Json)
        ensures
            r@ == filter_json(self.using_view(), self.value_view()),
    {
        let mut m: Entries = Vec::new();
        assert(members_view(m@) =~= Seq::<(Seq<char>, JsonView)>::empty());
        put(&mut m, "using", json_str(self.using.as_str()));
        put(&mut m, "value", json_str(self.value.as_str()));
        assert(members_view(m@) =~= entry("using"@, JsonView::Str(self.using@)) + entry(
            "value"@,
            JsonView::Str(self.value@),
        ));
        Json::Object(m)
    }
}

/// Getters for the answer to the command "Find Element".
pub trait FindElemResultGetter {
    /// The id of the element.
    spec fn eleid_view(&self) -> Seq<char>;

    fn eleid(&self) -> (r: &str)
        ensures
            r@ == self.eleid_view(),
    ;
}

/// Getters for the answer to the command "Find Elements".
pub trait FindElemsResultGetter {
    /// The ids of the elements, in order.
    spec fn eleids_view(&self) -> Seq<Seq<char>>;

    fn eleids(&self) -> (r: Vec<&str>)
        ensures
            strs(r@) == self.eleids_view(),
    ;
}

/// The answer to the command "Find Element".
#[derive(Debug)]
pub struct FindElemResult {
    value: String,
}

/// The answer to the command "Find Elements".
#[derive(Debug)]
pub struct FindElemsResult {
    value: Vec<String>,
}

impl FindElemResultGetter for FindElemResult {
    closed spec fn eleid_view(&self) -> Seq<char> {
        self.value@
    }

    fn eleid(&self) -> (r: &str) {
        self.value.as_str()
    }
}

impl FindElemsResultGetter for FindElemsResult {
    closed spec fn eleids_view(&self) -> Seq<Seq<char>> {
        texts(self.value@)
    }

    fn eleids(&self) -> (r: Vec<&str>) {
        borrowed_list(&self.value)
    }
}

/// The id of the element that an object denotes: the text under the key
/// of web elements, which must be there.
pub open spec fn element_parsed(m: Members) -> Result<Seq<char>, DeError> {
    required(text_field(m, "element-6066-11e4-a52e-4f735466cecf"@))
}

/// What the answer to "Find Element" denotes: the element under `value`,
/// which must be there.
pub open spec fn find_parsed(j: JsonView) -> Result<Seq<char>, DeError> {
    match j {
        JsonView::Object(top) => match required(object_field(top, "value"@)) {
            Err(e) => Err(e),
            Ok(v) => element_parsed(v),
        },
        _ => Err(DeError::Mismatch),
    }
}

/// The ids of the elements that the first `n` values of a list denote, or
/// the fault of the first value that denotes none.
pub open spec fn elements_parsed(a: Seq<JsonView>, n: int) -> Result<Seq<Seq<char>>, DeError>
    decreases n,
{
    if n <= 0 {
        Ok(Seq::empty())
    } else {
        match elements_parsed(a, n - 1) {
            Err(e) => Err(e),
            Ok(ids) => match a[n - 1] {
                JsonView::Object(m) => match element_parsed(m) {
                    Ok(id) => Ok(ids.push(id)),
                    Err(e) => Err(e),
                },
                _ => Err(DeError::Mismatch),
            },
        }
    }
}

/// What the answer to "Find Elements" denotes: the elements of the list
/// under `value`, which must be there.
pub open spec fn finds_parsed(j: JsonView) -> Result<Seq<Seq<char>>, DeError> {
    match j {
        JsonView::Object(top) => match required(list_field(top, "value"@)) {
            Err(e) => Err(e),
            Ok(a) => elements_parsed(a, a.len() as int),
        },
        _ => Err(DeError::Mismatch),
    }
}

/// A parsed answer as what it holds.
pub open spec fn parsed_find(r: Result<FindElemResult, DeError>) -> Result<Seq<char>, DeError> {
    match r {
        Ok(s) => Ok(s.eleid_view()),
        Err(e) => Err(e),
    }
}

/// A parsed answer as what it holds.
pub open spec fn parsed_finds(r: Result<FindElemsResult, DeError>) -> Result<
    Seq<Seq<char>>,
    DeError,
> {
    match r {
        Ok(s) => Ok(s.eleids_view()),
        Err(e) => Err(e),
    }
}

impl FindElemResult {
    /// Reads the answer to "Find Element".
    pub fn from_json(j: &Json) -> (r: Result<FindElemResult, DeError>)
        ensures
            parsed_find(r) == find_parsed(j@),
    {
        let top = match j.members() {
            Ok(m) => m,
            Err(e) => {
                return Err(e);
            },
        };
        let v = match need(read_object(top, "value")) {
            Ok(v) => v,
            Err(e) => {
                return Err(e);
            },
        };
        match need(read_text(v, "element-6066-11e4-a52e-4f735466cecf")) {
            Ok(id) => Ok(FindElemResult { value: owned(id) }),
            Err(e) => Err(e),
        }
    }

    /// Reads the answer to "Find Element" from the body of the answer.
    ///
    /// A key that the text repeats is not refused: the later of its values
    /// is read. The reader that starts from a value refuses a repeated key.
    pub fn from_bytes(body: &[u8]) -> (r: Result<FindElemResult, DeError>)
        ensures
            parsed_find(r) == match json_parsed(body@) {
                Some(j) => find_parsed(j),
                None => Err(DeError::Syntax),
            },
    {
        match Json::parse(body) {
            Ok(j) => Self::from_json(&j),
            Err(e) => Err(e),
        }
    }
}

impl FindElemsResult {
    /// Reads the answer to "Find Elements".
    pub fn from_json(j: &Json) -> (r: Result<FindElemsResult, DeError>)
        ensures
            parsed_finds(r) == finds_parsed(j@),
    {
        let top = match j.members() {
            Ok(m) => m,
            Err(e) => {
                return Err(e);
            },
        };
        let a = match need(read_list(top, "value")) {
            Ok(v) => v,
            Err(e) => {
                return Err(e);
            },
        };
        let mut ids: Vec<String> = Vec::new();
        let mut i: usize = 0;
        assert(texts(ids@) =~= Seq::<Seq<char>>::empty());
        while i < a.len()
            invariant
                0 <= i <= a@.len(),
                finds_parsed(j@) == elements_parsed(items_view(a@), a@.len() as int),
                elements_parsed(items_view(a@), i as int) == Ok::<Seq<Seq<char>>, DeError>(
                    texts(ids@),
                ),
            decreases a@.len() - i,
        {
            assert(items_view(a@)[i as int] == a@[i as int]@);
            let m = match a[i].members() {
                Ok(m) => m,
                Err(e) => {
                    proof {
                        assert(elements_parsed(items_view(a@), i + 1) == Err::<
                            Seq<Seq<char>>,
                            DeError,
                        >(e));
                        lemma_elements_fault(items_view(a@), i + 1, a@.len() as int);
                    }
                    return Err(e);
                },
            };
            match need(read_text(m, "element-6066-11e4-a52e-4f735466cecf")) {
                Ok(id) => {
                    let ghost before = texts(ids@);
                    ids.push(owned(id));
                    assert(texts(ids@) =~= before.push(id@));
                },
                Err(e) => {
                    proof {
                        assert(elements_parsed(items_view(a@), i + 1) == Err::<
                            Seq<Seq<char>>,
                            DeError,
                        >(e));
                        lemma_elements_fault(items_view(a@), i + 1, a@.len() as int);
                    }
                    return Err(e);
                },
            }
            i = i + 1;
        }
        Ok(FindElemsResult { value: ids })
    }

    /// Reads the answer to "Find Elements" from the body of the answer.
    ///
    /// A key that the text repeats is not refused: the later of its values
    /// is read. The reader that starts from a value refuses a repeated key.
    pub fn from_bytes(body: &[u8]) -> (r: Result<FindElemsResult, DeError>)
        ensures
            parsed_finds(r) == match json_parsed(body@) {
                Some(j) => finds_parsed(j),
                None => Err(DeError::Syntax),
            },
    {
        match Json::parse(body) {
            Ok(j) => Self::from_json(&j),
            Err(e) => Err(e),
        }
    }
}

proof fn lemma_elements_fault(a: Seq<JsonView>, k: int, n: int)
    requires
        0 <= k <= n,
        elements_parsed(a, k) is Err,
    ensures
        elements_parsed(a, n) == elements_parsed(a, k),
    decreases n - k,
{
    if k < n {
        lemma_elements_fault(a, k, n - 1);
    }
}

} // verus!
