//! The answer to the command "Get Current URL".

use vstd::prelude::*;
use crate::json::{
    json_parsed, need, owned, read_text, required, text_field, DeError, Json, JsonView,
};

verus! {

/// Getters for the answer to the command "Get Current URL".
pub trait GetUrlResultGetter {
    /// The URL that the answer holds.
    spec fn url_view(&self) -> Seq<char>;

    fn url(&self) -> (r: &str)
        ensures
            r@ == self.url_view(),
    ;
}

/// The answer to the command "Get Current URL".
#[derive(Debug)]
pub struct GetUrlResult {
    value: String,
}

impl GetUrlResultGetter for GetUrlResult {
    closed spec fn url_view(&self) -> Seq<char> {
        self.value@
    }

    fn url(&self) -> (r: &str) {
        self.value.as_str()
    }
}

/// What the answer denotes: the text under `value`, which must be there.
pub open spec fn url_parsed(j: JsonView) -> Result<Seq<char>, DeError> {
    match j {
        JsonView::Object(top) => required(text_field(top, "value"@)),
        _ => Err(DeError::Mismatch),
    }
}

/// A parsed answer as what it holds.
pub open spec fn parsed_url(r: Result<GetUrlResult, DeError>) -> Result<Seq<char>, DeError> {
    match r {
        Ok(s) => Ok(s.url_view()),
        Err(e) => Err(e),
    }
}

impl GetUrlResult {
    /// Reads the answer to "Get Current URL".
    pub fn from_json(j: &Json) -> (r: Result<GetUrlResult, DeError>)
        ensures
            parsed_url(r) == url_parsed(j@),
    {
        let top = match j.members() {
            Ok(m) => m,
            Err(e) => {
                return Err(e);
            },
        };
        match need(read_text(top, "value")) {
            Ok(v) => Ok(GetUrlResult { value: owned(v) }),
            Err(e) => Err(e),
        }
    }

    /// Reads the answer to "Get Current URL" from the body of the answer.
    ///
    /// A key that the text repeats is not refused: the later of its values
    /// is read. The reader that starts from a value refuses a repeated key.
    pub fn from_bytes(body: &[u8]) -> (r: Result<GetUrlResult, DeError>)
        ensures
            parsed_url(r) == match json_parsed(body@) {
                Some(j) => url_parsed(j),
                None => Err(DeError::Syntax),
            },
    {
        match Json::parse(body) {
            Ok(j) => Self::from_json(&j),
            Err(e) => Err(e),
        }
    }
}

} // verus!
