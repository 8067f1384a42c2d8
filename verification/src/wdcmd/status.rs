//! The answer to the command "Status".

use vstd::prelude::*;
use crate::json::{
    bool_field, json_parsed, need, object_field, owned, read_bool, read_object, read_text,
    required, text_field, DeError, Json, JsonView,
};

verus! {

/// Getters for the answer to the command "Status".
pub trait DrvStatResultGetter {
    /// Whether the driver is ready for a session, and its message.
    spec fn status(&self) -> (bool, Seq<char>);

    fn ready(&self) -> (r: bool)
        ensures
            r == self.status().0,
    ;

    fn msg(&self) -> (r: &str)
        ensures
            r@ == self.status().1,
    ;
}

/// The answer to the command "Status".
#[derive(Debug)]
pub struct DrvStatResult {
    value: DrvStatus,
}

#[derive(Debug)]
struct DrvStatus {
    ready: bool,
    message: String,
}

impl DrvStatResultGetter for DrvStatResult {
    closed spec fn status(&self) -> (bool, Seq<char>) {
        (self.value.ready, self.value.message@)
    }

    fn ready(&self) -> (r: bool) {
        self.value.ready
    }

    fn msg(&self) -> (r: &str) {
        self.value.message.as_str()
    }
}

/// What the answer to "Status" denotes: the object under `value` holds
/// the bool `ready` and the text `message`; all three must be there.
pub open spec fn status_parsed(j: JsonView) -> Result<(bool, Seq<char>), DeError> {
    match j {
        JsonView::Object(top) => match required(object_field(top, "value"@)) {
            Err(e) => Err(e),
            Ok(v) => {
                let ready = required(bool_field(v, "ready"@));
                let message = required(text_field(v, "message"@));
                if ready is Err {
                    Err(ready->Err_0)
                } else if message is Err {
                    Err(message->Err_0)
                } else {
                    Ok((ready->Ok_0, message->Ok_0))
                }
            },
        },
        _ => Err(DeError::Mismatch),
    }
}

/// A parsed answer as what it holds.
pub open spec fn parsed_status(r: Result<DrvStatResult, DeError>) -> Result<
    (bool, Seq<char>),
    DeError,
> {
    match r {
        Ok(s) => Ok(s.status()),
        Err(e) => Err(e),
    }
}

impl DrvStatResult {
    /// Reads the answer to "Status".
    pub fn from_json(j: &Json) -> (r: Result<DrvStatResult, DeError>)
        ensures
            parsed_status(r) == status_parsed(j@),
    {
        let top = match j.members() {
            Ok(m) => m,
            Err(e) => {
                return Err(e);
            },
        };
        let v = match need(read_object(top, "value")) {
            Ok(v) => v,
            Err(e) => {
                return Err(e);
            },
        };
        let ready = match need(read_bool(v, "ready")) {
            Ok(v) => v,
            Err(e) => {
                return Err(e);
            },
        };
        let message = match need(read_text(v, "message")) {
            Ok(v) => v,
            Err(e) => {
                return Err(e);
            },
        };
        Ok(DrvStatResult { value: DrvStatus { ready, message: owned(message) } })
    }

    /// Reads the answer to "Status" from the body of the answer.
    ///
    /// A key that the text repeats is not refused: the later of its values
    /// is read. The reader that starts from a value refuses a repeated key.
    pub fn from_bytes(body: &[u8]) -> (r: Result<DrvStatResult, DeError>)
        ensures
            parsed_status(r) == match json_parsed(body@) {
                Some(j) => status_parsed(j),
                None => Err(DeError::Syntax),
            },
    {
        match Json::parse(body) {
            Ok(j) => Self::from_json(&j),
            Err(e) => Err(e),
        }
    }
}

} // verus!
