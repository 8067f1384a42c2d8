//! The answer of a driver to a command that failed.

use vstd::prelude::*;
use crate::json::{
    json_parsed, need, object_field, owned, read_object, read_text, required,
    same_text, text_field, DeError, Json, JsonView, };
use crate::WdcError;

verus! {

/// The answer of a driver to a command that failed.
#[derive(Debug)]
pub struct BadCmdResp {
    value: BadCmdRespDetail,
}

/// The detail of a failure: the kind of error, a message, and the stack
/// trace where the driver gave one.
#[derive(Debug)]
pub struct BadCmdRespDetail {
    error: String,
    message: String,
    stacktrace: String,
}

/// What the answer to a failed command holds.
pub struct BadCmdView {
    pub error: Seq<char>,
    pub message: Seq<char>,
    /// The stack trace, empty where the driver gave none.
    pub stacktrace: Seq<char>,
}

impl View for BadCmdResp {
    type V = BadCmdView;

    closed spec fn view(&self) -> BadCmdView {
        BadCmdView {
            error: self.value.error@,
            message: self.value.message@,
            stacktrace: self.value.stacktrace@,
        }
    }
}

/// What the answer to a failed command denotes: the object under `value`
/// holds the texts `error` and `message`, which must be there, and may
/// hold the text `stacktrace`.
pub open spec fn bad_cmd_parsed(j: JsonView) -> Result<BadCmdView, DeError> {
    match j {
        JsonView::Object(top) => match required(object_field(top, "value"@)) {
            Err(e) => Err(e),
            Ok(v) => {
                let error = required(text_field(v, "error"@));
                let message = required(text_field(v, "message"@));
                let stacktrace = text_field(v, "stacktrace"@);
                if error is Err {
                    Err(error->Err_0)
                } else if message is Err {
                    Err(message->Err_0)
                } else if stacktrace is Err {
                    Err(stacktrace->Err_0)
                } else {
                    Ok(
                        BadCmdView {
                            error: error->Ok_0,
                            message: message->Ok_0,
                            stacktrace: match stacktrace {
                                Ok(Some(s)) => s,
                                _ => Seq::empty(),
                            },
                        },
                    )
                }
            },
        },
        _ => Err(DeError::Mismatch),
    }
}

/// A parsed answer as what it holds.
pub open spec fn parsed_bad_cmd(r: Result<BadCmdResp, DeError>) -> Result<BadCmdView, DeError> {
    match r {
        Ok(b) => Ok(b@),
        Err(e) => Err(e),
    }
}

impl BadCmdResp {
    /// The kind of error.
    pub fn err(&self) -> (r: &str)
        ensures
            r@ == self@.error,
    {
        self.value.error.as_str()
    }

    /// The message that came with the error.
    pub fn msg(&self) -> (r: &str)
        ensures
            r@ == self@.message,
    {
        self.value.message.as_str()
    }

    /// The stack trace, empty where the driver gave none.
    pub fn strace(&self) -> (r: &str)
        ensures
            r@ == self@.stacktrace,
    {
        self.value.stacktrace.as_str()
    }

    /// Reads the answer to a failed command.
    pub fn from_json(j: &Json) -> (r: Result<BadCmdResp, DeError>)
        ensures
            parsed_bad_cmd(r) == bad_cmd_parsed(j@),
    {
        let top = match j.members() {
            Ok(m) => m,
            Err(e) => {
                return Err(e);
            },
        };
        let v = match need(read_object(top, "value")) {
            Ok(v) => v,
            Err(e) => {
                return Err(e);
            },
        };
        let error = match need(read_text(v, "error")) {
            Ok(v) => v,
            Err(e) => {
                return Err(e);
            },
        };
        let message = match need(read_text(v, "message")) {
            Ok(v) => v,
            Err(e) => {
                return Err(e);
            },
        };
        let stacktrace = match read_text(v, "stacktrace") {
            Ok(v) => v,
            Err(e) => {
                return Err(e);
            },
        };
        Ok(
            BadCmdResp {
                value: BadCmdRespDetail {
                    error: owned(error),
                    message: owned(message),
                    stacktrace: match stacktrace {
                        Some(s) => owned(s),
                        None => String::new(),
                    },
                },
            },
        )
    }

    /// Reads the answer to a failed command from the body of the answer.
    ///
    /// A key that the text repeats is not refused: the later of its values
    /// is read. The reader that starts from a value refuses a repeated key.
    pub fn from_bytes(body: &[u8]) -> (r: Result<BadCmdResp, DeError>)
        ensures
            parsed_bad_cmd(r) == match json_parsed(body@) {
                Some(j) => bad_cmd_parsed(j),
                None => Err(DeError::Syntax),
            },
    {
        match Json::parse(body) {
            Ok(j) => Self::from_json(&j),
            Err(e) => Err(e),
        }
    }
}

/// An error at the client's boundary as what it holds.
pub enum WdcErrorView {
    Buggy,
    BusyCreateSession,
    DriverNotReadyBusySession,
    NotReadyForNewSession,
    UnsupportedOperation,
    WebDriverNotReady,
    WebDriverRemoteConnectionFailed,
    BadDrvCmd(Seq<char>, Seq<char>),
}

impl View for WdcError {
    type V = WdcErrorView;

    open spec fn view(&self) -> WdcErrorView {
        match self {
            WdcError::Buggy => WdcErrorView::Buggy,
            WdcError::BusyCreateSession => WdcErrorView::BusyCreateSession,
            WdcError::DriverNotReadyBusySession => WdcErrorView::DriverNotReadyBusySession,
            WdcError::NotReadyForNewSession => WdcErrorView::NotReadyForNewSession,
            WdcError::UnsupportedOperation => WdcErrorView::UnsupportedOperation,
            WdcError::WebDriverNotReady => WdcErrorView::WebDriverNotReady,
            WdcError::WebDriverRemoteConnectionFailed => WdcErrorView::WebDriverRemoteConnectionFailed,
            WdcError::BadDrvCmd(e, m) => WdcErrorView::BadDrvCmd(e@, m@),
        }
    }
}

/// The error that the body of an answer to a failed command stands for.
///
/// A driver that is busy creating a session says `session not created`
/// with the message `Session is already started`. Any other error of the
/// driver is handed on with its kind and message. A body that is no
/// answer of a driver is a fault of its own.
pub open spec fn failure_of(parsed: Result<BadCmdView, DeError>) -> WdcErrorView {
    match parsed {
        Ok(b) => if b.error == "session not created"@ && b.message
            == "Session is already started"@ {
            WdcErrorView::BusyCreateSession
        } else {
            WdcErrorView::BadDrvCmd(b.error, b.message)
        },
        Err(_) => WdcErrorView::Buggy,
    }
}

/// The error that a read answer to a failed command stands for.
pub fn failure(parsed: Result<BadCmdResp, DeError>) -> (r: WdcError)
    ensures
        r@ == failure_of(parsed_bad_cmd(parsed)),
{
    match parsed {
        Ok(eobj) => {
            if same_text(eobj.err(), "session not created") && same_text(
                eobj.msg(),
                "Session is already started",
            ) {
                WdcError::BusyCreateSession
            } else {
                WdcError::BadDrvCmd(owned(eobj.err()), owned(eobj.msg()))
            }
        },
        Err(_) => WdcError::Buggy,
    }
}

/// Turns the body of an answer to a failed command into the error that it
/// stands for.
pub fn check_fail_drvcmd(s: &[u8]) -> (r: Result<(), WdcError>)
    ensures
        r matches Err(e) && e@ == failure_of(
            match json_parsed(s@) {
                Some(j) => bad_cmd_parsed(j),
                None => Err(DeError::Syntax),
            },
        ),
{
    Err(failure(BadCmdResp::from_bytes(s)))
}

} // verus!
