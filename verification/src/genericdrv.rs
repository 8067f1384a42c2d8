//! The client of a WebDriver server, without its connection: what it
//! knows of the server and of its sessions, the request that each command
//! sends, and what it makes of the answer.

use vstd::prelude::*;
use vstd::string::StringExecFns;
use crate::httpp::{HttpRequestParts, HttpResponseParts, RequestView, ResponseView};
use crate::json::{
    json_parsed, json_text, json_written, opt_string, same_text, strs, texts, DeError, Json,
    JsonView,
};
use crate::octets::{append, dec_digits, utf8};
use crate::wdcmd::actions::{group_json, unmarked, ActionGroup};
use crate::wdcmd::err::{bad_cmd_parsed, failure, failure_of, BadCmdResp, WdcErrorView};
use crate::wdcmd::find_elem::{
    filter_json, finds_parsed, FindElemFilter, FindElemFilterSetter, FindElemsResult,
    FindElemsResultGetter,
};
use crate::wdcmd::session::w3c::{W3cCapaGetter, W3cView};
use crate::wdcmd::status::{status_parsed, DrvStatResult, DrvStatResultGetter};
use crate::WdcError;

verus! {

/// The vendor of a driver.
#[derive(Debug, PartialEq, Eq, Structural, Clone, Copy)]
pub enum RendVendor {
    Mozilla,
    Google,
}

/// What a client keeps of a session: its id, and the profile that it
/// runs on where that is known.
#[derive(Debug)]
pub struct SessionMeta {
    pub ssid: String,
    pub profile: Option<String>,
}

/// A session that was created: its id, and its WebSocket URL where it has
/// one.
pub struct SessionView {
    pub session_id: Seq<char>,
    pub wsurl: Option<Seq<char>>,
}

/// A created session as it was read from an answer.
#[derive(Debug)]
pub struct CreatedSession {
    pub session_id: String,
    pub wsurl: Option<String>,
}

impl View for CreatedSession {
    type V = SessionView;

    open spec fn view(&self) -> SessionView {
        SessionView { session_id: self.session_id@, wsurl: opt_string(self.wsurl) }
    }
}

/// A read session as what it holds.
pub open spec fn read_session_view(r: Result<CreatedSession, DeError>) -> Result<
    SessionView,
    DeError,
> {
    match r {
        Ok(s) => Ok(s@),
        Err(e) => Err(e),
    }
}

/// What a vendor's driver contributes to the creation of a session: the
/// capabilities that are asked for, as they are written, and the reading
/// of the answer.
pub trait CreateW3cSession: Sized {
    /// The request for a session with any capabilities, as it is written.
    spec fn default_json() -> JsonView;

    /// The request for a session whose standard capabilities must match
    /// `w`, as it is written.
    spec fn singl_json(w: W3cView) -> JsonView;

    /// The session that an answer to the creation of a session denotes.
    spec fn session_of(j: JsonView) -> Result<SessionView, DeError>;

    /// The request for a session with any capabilities.
    fn session_default() -> (r: Json)
        ensures
            r@ == Self::default_json(),
    ;

    /// The request for a session whose standard capabilities must match
    /// those of `capa`.
    fn session_singl<G: W3cCapaGetter>(capa: &G) -> (r: Json)
        ensures
            r@ == Self::singl_json(capa.w3c()),
    ;

    /// Reads the session from the body of the answer to its creation.
    fn read_session(body: &[u8]) -> (r: Result<CreatedSession, DeError>)
        ensures
            read_session_view(r) == match json_parsed(body@) {
                Some(j) => Self::session_of(j),
                None => Err(DeError::Syntax),
            },
    ;
}

/// A kind of driver of which a client can be made.
pub trait CreateWebDrvClient: Sized {
    /// A client of the driver at `rhost` and `rport`, with no session yet.
    fn new(rhost: &str, rport: u16) -> (r: WebDrvClient<Self>)
        ensures
            r.rhost@ == rhost@,
            r.rport == rport,
            r.ssmetas@.len() == 0,
    ;

    fn rend_vendor() -> RendVendor;
}

/// A client of a WebDriver server: where the server is, and the sessions
/// that the client has created there.
#[derive(Debug)]
pub struct WebDrvClient<D> {
    pub kind: D,
    pub rhost: String,
    pub rport: u16,
    pub ssmetas: Vec<SessionMeta>,
}

/// The commands that a client sends.
#[derive(Debug, PartialEq, Eq, Structural, Clone, Copy)]
pub enum Command {
    Status,
    NewSession,
    DeleteSession,
    NaviTo,
    GetUrl,
    FindElem,
    FindElems,
    SendKeys,
    Screenshot,
    ScreenshotElem,
    PrintPage,
    PageSrc,
    ExecSync,
    ExecAsync,
    PerformActions,
}

/// How many bytes are left off the start and the end of the body of a
/// successful answer, so that what is kept is the value alone and not the
/// object and the quotes around it.
pub open spec fn insig(c: Command) -> (usize, usize) {
    match c {
        Command::GetUrl | Command::Screenshot | Command::ScreenshotElem | Command::PrintPage
        | Command::PageSrc => (10, 2),
        Command::FindElem => (49, 3),
        Command::ExecSync | Command::ExecAsync | Command::PerformActions => (9, 1),
        _ => (0, 0),
    }
}

impl Command {
    /// How many bytes are left off the start and the end of the body of a
    /// successful answer to the command.
    pub fn trims(&self) -> (r: (usize, usize))
        ensures
            r == insig(*self),
    {
        match self {
            Command::GetUrl | Command::Screenshot | Command::ScreenshotElem | Command::PrintPage
            | Command::PageSrc => (10, 2),
            Command::FindElem => (49, 3),
            Command::ExecSync | Command::ExecAsync | Command::PerformActions => (9, 1),
            _ => (0, 0),
        }
    }
}

/// The characters of the decimal notation of a number.
pub open spec fn decimal_text(n: nat) -> Seq<char> {
    Seq::new(dec_digits(n).len(), |i: int| dec_digits(n)[i] as char)
}

/// `format!` with `{}` on a port number. The claim: the text is the
/// shortest decimal notation of the number.
#[verifier::external_body]
fn port_text(port: u16) -> (r: String)
    ensures
        r@ == decimal_text(port as nat),
{
    format!("{}", port)
}

/// The address of a server: host, colon, port.
pub open spec fn address(rhost: Seq<char>, rport: u16) -> Seq<char> {
    rhost + ":"@ + decimal_text(rport as nat)
}

/// The path of a session, with `tail` behind it.
pub open spec fn session_path(ssid: Seq<char>, tail: Seq<char>) -> Seq<char> {
    "/session/"@ + ssid + tail
}

/// The path of an element of a session, with `tail` behind it.
pub open spec fn element_path(ssid: Seq<char>, eleid: Seq<char>, tail: Seq<char>) -> Seq<char> {
    "/session/"@ + ssid + "/element/"@ + eleid + tail
}

fn make_session_path(ssid: &str, tail: &str) -> (r: String)
    ensures
        r@ == session_path(ssid@, tail@),
{
    let mut s = String::from_str("/session/");
    s.append(ssid);
    s.append(tail);
    s
}

fn make_element_path(ssid: &str, eleid: &str, tail: &str) -> (r: String)
    ensures
        r@ == element_path(ssid@, eleid@, tail@),
{
    let mut s = String::from_str("/session/");
    s.append(ssid);
    s.append("/element/");
    s.append(eleid);
    s.append(tail);
    s
}

/// A request without body: version, method and path, and the host.
pub open spec fn plain_request(method: Seq<char>, path: Seq<char>, host: Seq<char>) -> RequestView {
    RequestView::empty().versioned().with_target(method, path).with_header("Host"@, utf8(host))
}

/// A request with the host before the body.
pub open spec fn host_body_request(path: Seq<char>, host: Seq<char>, body: Seq<u8>) -> RequestView {
    RequestView::empty().versioned().with_target("POST"@, path).with_header(
        "Host"@,
        utf8(host),
    ).with_body(body)
}

/// A request with the body before the host.
pub open spec fn body_host_request(path: Seq<char>, host: Seq<char>, body: Seq<u8>) -> RequestView {
    RequestView::empty().versioned().with_target("POST"@, path).with_body(body).with_header(
        "Host"@,
        utf8(host),
    )
}

/// The body that asks to go to a URL.
pub open spec fn url_body(url: Seq<char>) -> Seq<u8> {
    utf8("{\"url\":\""@) + utf8(url) + utf8("\"}"@)
}

/// The body that sends keys to an element.
pub open spec fn text_body(keys: Seq<char>) -> Seq<u8> {
    utf8("{\"text\":\""@) + utf8(keys) + utf8("\"}"@)
}

/// The body that asks for a page to be printed.
pub open spec fn print_body() -> Seq<u8> {
    utf8("{\"background\":true,\"orientation\":\"portrait\"}"@)
}

/// The arguments of a script in a row, with a comma between two.
pub open spec fn joined_args(args: Seq<Seq<char>>) -> Seq<u8>
    decreases args.len(),
{
    if args.len() == 0 {
        Seq::empty()
    } else if args.len() == 1 {
        utf8(args[0])
    } else {
        joined_args(args.drop_last()) + seq![44u8] + utf8(args.last())
    }
}

/// The body that asks for a script to be run with arguments.
pub open spec fn script_body(script: Seq<char>, args: Seq<Seq<char>>) -> Seq<u8> {
    utf8("{\"script\":\""@) + utf8(script) + utf8("\",\"args\":["@) + joined_args(args) + utf8(
        "]}"@,
    )
}

/// The body that asks for a session with the capabilities `caps`.
pub open spec fn capabilities_body(caps: JsonView) -> Seq<u8> {
    utf8("{\"capabilities\":"@) + utf8(json_text(caps)) + utf8("}"@)
}

/// The request for a session with the capabilities `caps`.
pub open spec fn new_session_request(host: Seq<char>, caps: JsonView) -> RequestView {
    host_body_request("/session"@, host, capabilities_body(caps)).with_header(
        "Content-Type"@,
        utf8("application/json"@),
    )
}

/// Whether `r` is what a request for a session with the capabilities
/// `caps` comes to: the request, where the capabilities can be written; a
/// fault where they cannot.
pub open spec fn asks_for_session(
    r: Result<HttpRequestParts, WdcError>,
    host: Seq<char>,
    caps: JsonView,
) -> bool {
    match r {
        Ok(req) => json_written(caps).is_some() && req@ == new_session_request(host, caps),
        Err(e) => json_written(caps).is_none() && e == WdcError::Buggy,
    }
}

/// Whether an answer reports success: its status starts with 200.
pub open spec fn succeeded(resp: ResponseView) -> bool {
    resp.status.len() >= 3 && resp.status.take(3) == utf8("200"@)
}

/// The error that an answer without success stands for.
pub open spec fn refusal_of(resp: ResponseView) -> WdcErrorView {
    failure_of(
        match json_parsed(resp.msgbody) {
            Some(j) => bad_cmd_parsed(j),
            None => Err(DeError::Syntax),
        },
    )
}

/// The ids of the elements that the body of an answer denotes.
pub open spec fn elements_of(body: Seq<u8>) -> Result<Seq<Seq<char>>, DeError> {
    match json_parsed(body) {
        Some(j) => finds_parsed(j),
        None => Err(DeError::Syntax),
    }
}

/// The session that the body of an answer denotes.
pub open spec fn session_in<D: CreateW3cSession>(body: Seq<u8>) -> Result<SessionView, DeError> {
    match json_parsed(body) {
        Some(j) => D::session_of(j),
        None => Err(DeError::Syntax),
    }
}

/// What a command without a result makes of its answer.
pub open spec fn plain_outcome(resp: ResponseView, r: Result<(), WdcError>) -> bool {
    match r {
        Ok(_) => succeeded(resp),
        Err(e) => !succeeded(resp) && e@ == refusal_of(resp),
    }
}

/// What a command whose result is the body of its answer makes of the
/// answer.
pub open spec fn body_outcome(resp: ResponseView, r: Result<Vec<u8>, WdcError>) -> bool {
    match r {
        Ok(b) => succeeded(resp) && b@ == resp.msgbody,
        Err(e) => !succeeded(resp) && e@ == refusal_of(resp),
    }
}

/// What the command "Status" makes of its answer: the driver is ready, or
/// busy with a session that has started, or not ready; an answer that
/// cannot be read is a fault.
pub open spec fn status_outcome_of(resp: ResponseView) -> Result<(), WdcErrorView> {
    if !succeeded(resp) {
        Err(refusal_of(resp))
    } else {
        match json_parsed(resp.msgbody) {
            None => Err(WdcErrorView::Buggy),
            Some(j) => match status_parsed(j) {
                Err(_) => Err(WdcErrorView::Buggy),
                Ok(s) => if s.0 {
                    Ok(())
                } else if s.1 == "Session already started"@ {
                    Err(WdcErrorView::DriverNotReadyBusySession)
                } else {
                    Err(WdcErrorView::WebDriverNotReady)
                },
            },
        }
    }
}

/// A result without value, with the error as what it holds.
pub open spec fn unit_view(r: Result<(), WdcError>) -> Result<(), WdcErrorView> {
    match r {
        Ok(_) => Ok(()),
        Err(e) => Err(e@),
    }
}

fn refusal(resp: &HttpResponseParts) -> (e: WdcError)
    ensures
        e@ == refusal_of(resp@),
{
    failure(BadCmdResp::from_bytes(resp.msgbody().as_slice()))
}

fn join_args(args: &Vec<&str>) -> (r: Vec<u8>)
    ensures
        r@ == joined_args(strs(args@)),
{
    let mut out: Vec<u8> = Vec::new();
    let mut i: usize = 0;
    let ghost l = strs(args@);
    assert(l.take(0) =~= Seq::<Seq<char>>::empty());
    while i < args.len()
        invariant
            0 <= i <= args@.len(),
            l == strs(args@),
            out@ == joined_args(l.take(i as int)),
        decreases args@.len() - i,
    {
        proof {
            assert(l.take(i + 1).drop_last() =~= l.take(i as int));
            assert(l.take(i + 1).last() == args@[i as int]@);
            if i == 0 {
                assert(l.take(1)[0] == args@[0]@);
                assert(Seq::<u8>::empty() + utf8(args@[0]@) =~= utf8(args@[0]@));
            }
        }
        if i > 0 {
            out.push(44);
        }
        append(&mut out, args[i].as_bytes());
        i = i + 1;
    }
    assert(l.take(i as int) =~= l);
    out
}

fn wrap(before: &str, middle: &[u8], after: &str) -> (r: Vec<u8>)
    ensures
        r@ == utf8(before@) + middle@ + utf8(after@),
{
    let mut mb: Vec<u8> = Vec::new();
    append(&mut mb, before.as_bytes());
    append(&mut mb, middle);
    append(&mut mb, after.as_bytes());
    assert(mb@ =~= utf8(before@) + middle@ + utf8(after@));
    mb
}

/// The address of a server: host, colon, port.
pub fn make_address(rhost: &str, rport: u16) -> (r: String)
    ensures
        r@ == address(rhost@, rport),
{
    let mut s = String::from_str(rhost);
    s.append(":");
    let p = port_text(rport);
    s.append(p.as_str());
    s
}

/// The request of the command "Status", for the server at `host`.
pub fn status_request(host: &str) -> (r: HttpRequestParts)
    ensures
        r@ == plain_request("GET"@, "/status"@, host@),
{
    let mut req = HttpRequestParts::from_scratch();
    req.http1p1().get("/status").host(host);
    req
}

/// The request that deletes the session `ssid` at the server at `host`.
pub fn delete_request(host: &str, ssid: &str) -> (r: HttpRequestParts)
    ensures
        r@ == plain_request("DELETE"@, session_path(ssid@, Seq::empty()), host@),
{
    let path = make_session_path(ssid, "");
    proof {
        reveal_strlit("");
        assert(session_path(ssid@, ""@) =~= session_path(ssid@, Seq::empty()));
    }
    let mut req = HttpRequestParts::from_scratch();
    req.http1p1().delete(path.as_str()).host(host);
    req
}

/// The request that asks the server at `host` for a session with the
/// capabilities `caps`. Capabilities that cannot be written are a fault.
pub fn session_request(host: &str, caps: &Json) -> (r: Result<HttpRequestParts, WdcError>)
    ensures
        asks_for_session(r, host@, caps@),
{
    let text = match caps.to_bytes() {
        Some(t) => t,
        None => {
            return Err(WdcError::Buggy);
        },
    };
    let mb = wrap("{\"capabilities\":", text.as_slice(), "}");
    let mut req = HttpRequestParts::from_scratch();
    req.http1p1().post("/session").host(host).msgbody_from_slice(mb.as_slice()).content_type(
        "application/json",
    );
    Ok(req)
}

impl<D> WebDrvClient<D> {
    /// The address of the server: host, colon, port.
    pub fn raddr(&self) -> (r: String)
        ensures
            r@ == address(self.rhost@, self.rport),
    {
        make_address(self.rhost.as_str(), self.rport)
    }

    /// Takes note of a session.
    pub fn add_ssmeta(&mut self, ssid: String, profile: Option<String>)
        ensures
            final(self).ssmetas@ == old(self).ssmetas@.push(SessionMeta { ssid, profile }),
            final(self).rhost == old(self).rhost,
            final(self).rport == old(self).rport,
            final(self).kind == old(self).kind,
    {
        self.ssmetas.push(SessionMeta { ssid, profile });
    }

    /// The id of the session that commands go to: the first that was
    /// created. Without a session there is none, which is a fault.
    pub fn current_session(&self) -> (r: Result<&str, WdcError>)
        ensures
            match r {
                Ok(s) => self.ssmetas@.len() > 0 && s@ == self.ssmetas@[0].ssid@,
                Err(e) => self.ssmetas@.len() == 0 && e == WdcError::Buggy,
            },
    {
        if self.ssmetas.len() == 0 {
            Err(WdcError::Buggy)
        } else {
            Ok(self.ssmetas[0].ssid.as_str())
        }
    }

    fn plain(&self, method_get: bool, path: &str) -> (r: HttpRequestParts)
        ensures
            r@ == plain_request(
                if method_get {
                    "GET"@
                } else {
                    "DELETE"@
                },
                path@,
                address(self.rhost@, self.rport),
            ),
    {
        let mut req = HttpRequestParts::from_scratch();
        let host = self.raddr();
        req.http1p1();
        if method_get {
            req.get(path);
        } else {
            req.delete(path);
        }
        req.host(host.as_str());
        req
    }

    fn host_body(&self, path: &str, body: &[u8]) -> (r: HttpRequestParts)
        ensures
            r@ == host_body_request(path@, address(self.rhost@, self.rport), body@),
    {
        let mut req = HttpRequestParts::from_scratch();
        let host = self.raddr();
        req.http1p1().post(path).host(host.as_str()).msgbody_from_slice(body);
        req
    }

    fn body_host(&self, path: &str, body: &[u8]) -> (r: HttpRequestParts)
        ensures
            r@ == body_host_request(path@, address(self.rhost@, self.rport), body@),
    {
        let mut req = HttpRequestParts::from_scratch();
        let host = self.raddr();
        req.http1p1().post(path).msgbody_from_slice(body).host(host.as_str());
        req
    }

    /// The request of the command "Status".
    pub fn is_ready_request(&self) -> (r: HttpRequestParts)
        ensures
            r@ == plain_request("GET"@, "/status"@, address(self.rhost@, self.rport)),
    {
        let host = self.raddr();
        status_request(host.as_str())
    }

    /// What the command "Status" makes of its answer.
    pub fn is_ready_outcome(resp: &HttpResponseParts) -> (r: Result<(), WdcError>)
        ensures
            unit_view(r) == status_outcome_of(resp@),
    {
        if resp.is_ok() {
            match DrvStatResult::from_bytes(resp.msgbody().as_slice()) {
                Ok(res) => {
                    if res.ready() {
                        Ok(())
                    } else if same_text(res.msg(), "Session already started") {
                        Err(WdcError::DriverNotReadyBusySession)
                    } else {
                        Err(WdcError::WebDriverNotReady)
                    }
                },
                Err(_) => Err(WdcError::Buggy),
            }
        } else {
            Err(refusal(resp))
        }
    }

    /// The request that asks for a session with the capabilities `caps`.
    /// Capabilities that cannot be written are a fault.
    pub fn new_session_request(&self, caps: &Json) -> (r: Result<HttpRequestParts, WdcError>)
        ensures
            asks_for_session(r, address(self.rhost@, self.rport), caps@),
    {
        let host = self.raddr();
        session_request(host.as_str(), caps)
    }

    /// The request that deletes the session `ssid`.
    pub fn del_session_request(&self, ssid: &str) -> (r: HttpRequestParts)
        ensures
            r@ == plain_request(
                "DELETE"@,
                session_path(ssid@, Seq::empty()),
                address(self.rhost@, self.rport),
            ),
    {
        let host = self.raddr();
        delete_request(host.as_str(), ssid)
    }

    /// What the deletion of a session makes of its answer: any answer
    /// without success is a fault.
    pub fn del_session_outcome(resp: &HttpResponseParts) -> (r: Result<(), WdcError>)
        ensures
            r == if succeeded(resp@) {
                Ok::<(), WdcError>(())
            } else {
                Err(WdcError::Buggy)
            },
    {
        if resp.is_ok() {
            Ok(())
        } else {
            Err(WdcError::Buggy)
        }
    }

    /// What a command without a result makes of its answer: success, or
    /// the error that the driver reports.
    pub fn plain_outcome(resp: &HttpResponseParts) -> (r: Result<(), WdcError>)
        ensures
            plain_outcome(resp@, r),
    {
        if resp.is_ok() {
            Ok(())
        } else {
            Err(refusal(resp))
        }
    }

    /// What a command whose result is the body of its answer makes of
    /// the answer.
    pub fn body_outcome(resp: HttpResponseParts) -> (r: Result<Vec<u8>, WdcError>)
        ensures
            body_outcome(resp@, r),
    {
        if resp.is_ok() {
            Ok(resp.into_msgbody())
        } else {
            Err(refusal(&resp))
        }
    }

    /// What a command whose result goes to disk makes of its answer: a
    /// successful answer whose body is nowhere on disk is a fault.
    pub fn persisted_outcome(resp: &HttpResponseParts) -> (r: Result<(), WdcError>)
        ensures
            match r {
                Ok(_) => succeeded(resp@) && resp@.msgbody_persist.is_some(),
                Err(e) => if succeeded(resp@) {
                    resp@.msgbody_persist.is_none() && e == WdcError::Buggy
                } else {
                    e@ == refusal_of(resp@)
                },
            },
    {
        if resp.is_ok() {
            if resp.msgbody_persist().is_some() {
                Ok(())
            } else {
                Err(WdcError::Buggy)
            }
        } else {
            Err(refusal(resp))
        }
    }

    /// The request of the command "Navigate To".
    pub fn navi_to_request(&self, url: &str) -> (r: Result<HttpRequestParts, WdcError>)
        ensures
            match r {
                Ok(req) => self.ssmetas@.len() > 0 && req@ == host_body_request(
                    session_path(self.ssmetas@[0].ssid@, "/url"@),
                    address(self.rhost@, self.rport),
                    url_body(url@),
                ),
                Err(e) => self.ssmetas@.len() == 0 && e == WdcError::Buggy,
            },
    {
        let ssid = match self.current_session() {
            Ok(s) => s,
            Err(e) => {
                return Err(e);
            },
        };
        let mb = wrap("{\"url\":\"", url.as_bytes(), "\"}");
        let path = make_session_path(ssid, "/url");
        Ok(self.host_body(path.as_str(), mb.as_slice()))
    }

    /// The request of the command "Get Current URL".
    pub fn get_url_request(&self) -> (r: Result<HttpRequestParts, WdcError>)
        ensures
            match r {
                Ok(req) => self.ssmetas@.len() > 0 && req@ == plain_request(
                    "GET"@,
                    session_path(self.ssmetas@[0].ssid@, "/url"@),
                    address(self.rhost@, self.rport),
                ),
                Err(e) => self.ssmetas@.len() == 0 && e == WdcError::Buggy,
            },
    {
        let ssid = match self.current_session() {
            Ok(s) => s,
            Err(e) => {
                return Err(e);
            },
        };
        let path = make_session_path(ssid, "/url");
        Ok(self.plain(true, path.as_str()))
    }

    fn find_request(&self, v: &str, tail: &str) -> (r: Result<HttpRequestParts, WdcError>)
        ensures
            match r {
                Ok(req) => self.ssmetas@.len() > 0 && json_written(
                    filter_json("css selector"@, v@),
                ).is_some() && req@ == host_body_request(
                    session_path(self.ssmetas@[0].ssid@, tail@),
                    address(self.rhost@, self.rport),
                    utf8(json_text(filter_json("css selector"@, v@))),
                ),
                Err(e) => e == WdcError::Buggy && (self.ssmetas@.len() == 0 || json_written(
                    filter_json("css selector"@, v@),
                ).is_none()),
            },
    {
        let ssid = match self.current_session() {
            Ok(s) => s,
            Err(e) => {
                return Err(e);
            },
        };
        let mut conf = FindElemFilter::default();
        conf.set_using("css selector");
        conf.set_value(v);
        let mb = match conf.to_json().to_bytes() {
            Some(b) => b,
            None => {
                return Err(WdcError::Buggy);
            },
        };
        let path = make_session_path(ssid, tail);
        Ok(self.host_body(path.as_str(), mb.as_slice()))
    }

    /// The request of the command "Find Element", by a CSS selector. A
    /// client without session, and a filter that cannot be written, are
    /// faults.
    pub fn find_elem_css_request(&self, v: &str) -> (r: Result<HttpRequestParts, WdcError>)
        ensures
            match r {
                Ok(req) => self.ssmetas@.len() > 0 && json_written(
                    filter_json("css selector"@, v@),
                ).is_some() && req@ == host_body_request(
                    session_path(self.ssmetas@[0].ssid@, "/element"@),
                    address(self.rhost@, self.rport),
                    utf8(json_text(filter_json("css selector"@, v@))),
                ),
                Err(e) => e == WdcError::Buggy && (self.ssmetas@.len() == 0 || json_written(
                    filter_json("css selector"@, v@),
                ).is_none()),
            },
    {
        self.find_request(v, "/element")
    }

    /// The request of the command "Find Elements", by a CSS selector.
    pub fn find_elems_css_request(&self, v: &str) -> (r: Result<HttpRequestParts, WdcError>)
        ensures
            match r {
                Ok(req) => self.ssmetas@.len() > 0 && json_written(
                    filter_json("css selector"@, v@),
                ).is_some() && req@ == host_body_request(
                    session_path(self.ssmetas@[0].ssid@, "/elements"@),
                    address(self.rhost@, self.rport),
                    utf8(json_text(filter_json("css selector"@, v@))),
                ),
                Err(e) => e == WdcError::Buggy && (self.ssmetas@.len() == 0 || json_written(
                    filter_json("css selector"@, v@),
                ).is_none()),
            },
    {
        self.find_request(v, "/elements")
    }

    /// What the command "Find Elements" makes of its answer: the ids of
    /// the elements; an answer that cannot be read is a fault.
    pub fn find_elems_css_outcome(resp: &HttpResponseParts) -> (r: Result<Vec<String>, WdcError>)
        ensures
            match r {
                Ok(ids) => succeeded(resp@) && elements_of(resp@.msgbody) == Ok::<
                    Seq<Seq<char>>,
                    DeError,
                >(texts(ids@)),
                Err(e) => if succeeded(resp@) {
                    e == WdcError::Buggy && elements_of(resp@.msgbody) is Err
                } else {
                    e@ == refusal_of(resp@)
                },
            },
    {
        if resp.is_ok() {
            match FindElemsResult::from_bytes(resp.msgbody().as_slice()) {
                Ok(found) => {
                    let ids = found.eleids();
                    Ok(crate::json::owned_list(&ids))
                },
                Err(_) => Err(WdcError::Buggy),
            }
        } else {
            Err(refusal(resp))
        }
    }

    /// The request of the command "Element Send Keys".
    pub fn elem_send_keys_request(&self, eleid: &str, keys: &str) -> (r: Result<
        HttpRequestParts,
        WdcError,
    >)
        ensures
            match r {
                Ok(req) => self.ssmetas@.len() > 0 && req@ == RequestView::empty().versioned().with_target(
                    "POST"@,
                    element_path(self.ssmetas@[0].ssid@, eleid@, "/value"@),
                ).with_header("Host"@, utf8(address(self.rhost@, self.rport))).with_header(
                    "Content-Type"@,
                    utf8("application/json"@),
                ).with_body(text_body(keys@)),
                Err(e) => self.ssmetas@.len() == 0 && e == WdcError::Buggy,
            },
    {
        let ssid = match self.current_session() {
            Ok(s) => s,
            Err(e) => {
                return Err(e);
            },
        };
        let mb = wrap("{\"text\":\"", keys.as_bytes(), "\"}");
        let path = make_element_path(ssid, eleid, "/value");
        let host = self.raddr();
        let mut req = HttpRequestParts::from_scratch();
        req.http1p1().post(path.as_str()).host(host.as_str()).content_type(
            "application/json",
        ).msgbody_from_slice(mb.as_slice());
        Ok(req)
    }

    /// The request of the command "Take Screenshot".
    pub fn screenshot_request(&self) -> (r: Result<HttpRequestParts, WdcError>)
        ensures
            match r {
                Ok(req) => self.ssmetas@.len() > 0 && req@ == plain_request(
                    "GET"@,
                    session_path(self.ssmetas@[0].ssid@, "/screenshot"@),
                    address(self.rhost@, self.rport),
                ),
                Err(e) => self.ssmetas@.len() == 0 && e == WdcError::Buggy,
            },
    {
        let ssid = match self.current_session() {
            Ok(s) => s,
            Err(e) => {
                return Err(e);
            },
        };
        let path = make_session_path(ssid, "/screenshot");
        Ok(self.plain(true, path.as_str()))
    }

    /// The request of the command "Take Element Screenshot".
    pub fn screenshot_elem_request(&self, eleid: &str) -> (r: Result<HttpRequestParts, WdcError>)
        ensures
            match r {
                Ok(req) => self.ssmetas@.len() > 0 && req@ == plain_request(
                    "GET"@,
                    element_path(self.ssmetas@[0].ssid@, eleid@, "/screenshot"@),
                    address(self.rhost@, self.rport),
                ),
                Err(e) => self.ssmetas@.len() == 0 && e == WdcError::Buggy,
            },
    {
        let ssid = match self.current_session() {
            Ok(s) => s,
            Err(e) => {
                return Err(e);
            },
        };
        let path = make_element_path(ssid, eleid, "/screenshot");
        Ok(self.plain(true, path.as_str()))
    }

    /// The request of the command "Print Page".
    pub fn print_page_request(&self) -> (r: Result<HttpRequestParts, WdcError>)
        ensures
            match r {
                Ok(req) => self.ssmetas@.len() > 0 && req@ == body_host_request(
                    session_path(self.ssmetas@[0].ssid@, "/print"@),
                    address(self.rhost@, self.rport),
                    print_body(),
                ),
                Err(e) => self.ssmetas@.len() == 0 && e == WdcError::Buggy,
            },
    {
        let ssid = match self.current_session() {
            Ok(s) => s,
            Err(e) => {
                return Err(e);
            },
        };
        let path = make_session_path(ssid, "/print");
        Ok(
            self.body_host(
                path.as_str(),
                "{\"background\":true,\"orientation\":\"portrait\"}".as_bytes(),
            ),
        )
    }

    /// The request of the command "Get Page Source".
    pub fn page_src_request(&self) -> (r: Result<HttpRequestParts, WdcError>)
        ensures
            match r {
                Ok(req) => self.ssmetas@.len() > 0 && req@ == plain_request(
                    "GET"@,
                    session_path(self.ssmetas@[0].ssid@, "/source"@),
                    address(self.rhost@, self.rport),
                ),
                Err(e) => self.ssmetas@.len() == 0 && e == WdcError::Buggy,
            },
    {
        let ssid = match self.current_session() {
            Ok(s) => s,
            Err(e) => {
                return Err(e);
            },
        };
        let path = make_session_path(ssid, "/source");
        Ok(self.plain(true, path.as_str()))
    }

    /// What the command "Get Page Source" makes of its answer: nothing
    /// where the source went to disk, else the source, which must not be
    /// empty.
    pub fn page_src_outcome(resp: HttpResponseParts) -> (r: Result<Option<Vec<u8>>, WdcError>)
        ensures
            match r {
                Ok(None) => succeeded(resp@) && resp@.msgbody_persist.is_some(),
                Ok(Some(b)) => succeeded(resp@) && resp@.msgbody_persist.is_none() && b@
                    == resp@.msgbody && b@.len() > 0,
                Err(e) => if succeeded(resp@) {
                    resp@.msgbody_persist.is_none() && resp@.msgbody.len() == 0 && e
                        == WdcError::Buggy
                } else {
                    e@ == refusal_of(resp@)
                },
            },
    {
        if resp.is_ok() {
            if resp.msgbody_persist().is_some() {
                Ok(None)
            } else if resp.msgbody().len() > 0 {
                Ok(Some(resp.into_msgbody()))
            } else {
                Err(WdcError::Buggy)
            }
        } else {
            Err(refusal(&resp))
        }
    }

    fn exec_request(&self, script: &str, args: &Vec<&str>, tail: &str) -> (r: Result<
        HttpRequestParts,
        WdcError,
    >)
        ensures
            match r {
                Ok(req) => self.ssmetas@.len() > 0 && req@ == body_host_request(
                    session_path(self.ssmetas@[0].ssid@, tail@),
                    address(self.rhost@, self.rport),
                    script_body(script@, strs(args@)),
                ),
                Err(e) => self.ssmetas@.len() == 0 && e == WdcError::Buggy,
            },
    {
        let ssid = match self.current_session() {
            Ok(s) => s,
            Err(e) => {
                return Err(e);
            },
        };
        let mut mb: Vec<u8> = Vec::new();
        append(&mut mb, "{\"script\":\"".as_bytes());
        append(&mut mb, script.as_bytes());
        append(&mut mb, "\",\"args\":[".as_bytes());
        let joined = join_args(args);
        append(&mut mb, joined.as_slice());
        append(&mut mb, "]}".as_bytes());
        assert(mb@ =~= script_body(script@, strs(args@)));
        let path = make_session_path(ssid, tail);
        Ok(self.body_host(path.as_str(), mb.as_slice()))
    }

    /// The request of the command "Execute Script".
    pub fn exec_sync_request(&self, script: &str, args: Vec<&str>) -> (r: Result<
        HttpRequestParts,
        WdcError,
    >)
        ensures
            match r {
                Ok(req) => self.ssmetas@.len() > 0 && req@ == body_host_request(
                    session_path(self.ssmetas@[0].ssid@, "/execute/sync"@),
                    address(self.rhost@, self.rport),
                    script_body(script@, strs(args@)),
                ),
                Err(e) => self.ssmetas@.len() == 0 && e == WdcError::Buggy,
            },
    {
        self.exec_request(script, &args, "/execute/sync")
    }

    /// The request of the command "Execute Async Script".
    pub fn exec_async_request(&self, script: &str, args: Vec<&str>) -> (r: Result<
        HttpRequestParts,
        WdcError,
    >)
        ensures
            match r {
                Ok(req) => self.ssmetas@.len() > 0 && req@ == body_host_request(
                    session_path(self.ssmetas@[0].ssid@, "/execute/async"@),
                    address(self.rhost@, self.rport),
                    script_body(script@, strs(args@)),
                ),
                Err(e) => self.ssmetas@.len() == 0 && e == WdcError::Buggy,
            },
    {
        self.exec_request(script, &args, "/execute/async")
    }

    /// The request of the command "Perform Actions". A client without
    /// session, and actions that cannot be written, are faults.
    pub fn perform_actions_request(&self, actg: &ActionGroup) -> (r: Result<
        HttpRequestParts,
        WdcError,
    >)
        ensures
            match r {
                Ok(req) => self.ssmetas@.len() > 0 && json_written(
                    group_json(actg.actions@),
                ).is_some() && req@ == body_host_request(
                    session_path(self.ssmetas@[0].ssid@, "/actions"@),
                    address(self.rhost@, self.rport),
                    unmarked(utf8(json_text(group_json(actg.actions@)))),
                ),
                Err(e) => e == WdcError::Buggy && (self.ssmetas@.len() == 0 || json_written(
                    group_json(actg.actions@),
                ).is_none()),
            },
    {
        let ssid = match self.current_session() {
            Ok(s) => s,
            Err(e) => {
                return Err(e);
            },
        };
        let mb = match actg.to_body() {
            Some(b) => b,
            None => {
                return Err(WdcError::Buggy);
            },
        };
        let path = make_session_path(ssid, "/actions");
        Ok(self.body_host(path.as_str(), mb.as_slice()))
    }
}

impl<D: CreateW3cSession> WebDrvClient<D> {
    /// The request that asks for a session with any capabilities.
    pub fn w3c_session_default_request(&self) -> (r: Result<HttpRequestParts, WdcError>)
        ensures
            asks_for_session(r, address(self.rhost@, self.rport), D::default_json()),
    {
        let caps = D::session_default();
        self.new_session_request(&caps)
    }

    /// The request that asks for a session whose standard capabilities
    /// match those of `capa`.
    pub fn w3c_session_singl_request<G: W3cCapaGetter>(&self, capa: &G) -> (r: Result<
        HttpRequestParts,
        WdcError,
    >)
        ensures
            asks_for_session(r, address(self.rhost@, self.rport), D::singl_json(capa.w3c())),
    {
        let caps = D::session_singl(capa);
        self.new_session_request(&caps)
    }

    /// What the creation of a session makes of its answer. On success the
    /// client takes note of the session, whose WebSocket URL is handed out
    /// where it has one. A successful answer that cannot be read is a
    /// fault.
    pub fn new_session_outcome(&mut self, resp: &HttpResponseParts) -> (r: Result<
        Option<String>,
        WdcError,
    >)
        ensures
            final(self).rhost == old(self).rhost,
            final(self).rport == old(self).rport,
            final(self).kind == old(self).kind,
            match r {
                Ok(url) => {
                    &&& succeeded(resp@)
                    &&& session_in::<D>(resp@.msgbody) == Ok::<SessionView, DeError>(
                        SessionView {
                            session_id: final(self).ssmetas@.last().ssid@,
                            wsurl: opt_string(url),
                        },
                    )
                    &&& final(self).ssmetas@.len() == old(self).ssmetas@.len() + 1
                    &&& final(self).ssmetas@.drop_last() == old(self).ssmetas@
                    &&& final(self).ssmetas@.last().profile.is_none()
                },
                Err(e) => final(self).ssmetas == old(self).ssmetas && if succeeded(resp@) {
                    e == WdcError::Buggy && session_in::<D>(resp@.msgbody) is Err
                } else {
                    e@ == refusal_of(resp@)
                },
            },
    {
        if resp.is_ok() {
            match D::read_session(resp.msgbody().as_slice()) {
                Ok(sess) => {
                    let ghost before = self.ssmetas@;
                    self.add_ssmeta(sess.session_id, None);
                    assert(self.ssmetas@.drop_last() =~= before);
                    Ok(sess.wsurl)
                },
                Err(_) => Err(WdcError::Buggy),
            }
        } else {
            Err(refusal(resp))
        }
    }
}


// ----------------------------------------------------------- initialization --

/// How long the client waits before it asks a busy driver again, in
/// microseconds.
pub const WAIT_EACH_ROUND: u64 = 100;

/// Where the initialization of a client stands.
#[derive(Debug, PartialEq, Eq, Structural, Clone, Copy)]
pub enum InitPhase {
    /// The driver is asked for its status.
    Probing,
    /// The driver is asked for a session.
    Creating,
    /// A session was created.
    Ready,
    /// No session was created, and none will be asked for any more.
    GaveUp,
}

/// What the client does next to get initialized.
#[derive(Debug, PartialEq, Eq, Structural, Clone, Copy)]
pub enum InitAction {
    /// Send the command "Status" and report the outcome.
    Probe,
    /// Send the command "New Session" and report the outcome.
    Create,
    /// Stop: the result is settled.
    Finish,
}

/// The course of an initialization: the driver is asked for its status
/// and then for a session, again and again while it is busy, until the
/// time that was waited reaches the budget.
#[derive(Debug)]
pub struct InitPlan {
    phase: InitPhase,
    waited: u64,
    budget: u64,
    keep_error: bool,
    error: Option<WdcError>,
}

/// What the course of an initialization holds.
pub struct PlanView {
    pub phase: InitPhase,
    /// The time that was waited so far, in microseconds.
    pub waited: u64,
    /// The time that may be waited in all, in microseconds.
    pub budget: u64,
    /// Whether the error that ended the creation of a session is the
    /// result; else the result of a failure says no more than that the
    /// driver is not ready.
    pub keep_error: bool,
    pub error: Option<WdcErrorView>,
}

/// How a phase is kept up: a phase of asking ends where the time that was
/// waited has reached the budget.
pub open spec fn settled(phase: InitPhase, waited: u64, budget: u64) -> InitPhase {
    if (phase == InitPhase::Probing || phase == InitPhase::Creating) && waited >= budget {
        InitPhase::GaveUp
    } else {
        phase
    }
}

/// The time that was waited, after one more round.
pub open spec fn one_more(waited: u64) -> u64 {
    if waited <= u64::MAX - WAIT_EACH_ROUND {
        (waited + WAIT_EACH_ROUND) as u64
    } else {
        u64::MAX
    }
}

impl PlanView {
    /// The course at its start.
    pub open spec fn start(ready_timeout: u32, keep_error: bool) -> PlanView {
        let budget = (ready_timeout * 1000000) as u64;
        PlanView {
            phase: settled(InitPhase::Probing, 0, budget),
            waited: 0,
            budget,
            keep_error,
            error: None,
        }
    }

    /// The course after the driver was asked for its status. A driver
    /// that is busy with a session is asked again after a round of
    /// waiting; after any other answer the driver is asked for a session.
    pub open spec fn after_probe(self, outcome: Result<(), WdcErrorView>) -> PlanView {
        if self.phase != InitPhase::Probing {
            self
        } else {
            match outcome {
                Err(WdcErrorView::DriverNotReadyBusySession) => PlanView {
                    phase: settled(InitPhase::Probing, one_more(self.waited), self.budget),
                    waited: one_more(self.waited),
                    ..self
                },
                _ => PlanView { phase: InitPhase::Creating, ..self },
            }
        }
    }

    /// The course after the driver was asked for a session. A driver that
    /// is busy creating a session is asked again after a round of waiting;
    /// any other error ends the course.
    pub open spec fn after_create(self, outcome: Result<(), WdcErrorView>) -> PlanView {
        if self.phase != InitPhase::Creating {
            self
        } else {
            match outcome {
                Ok(_) => PlanView { phase: InitPhase::Ready, ..self },
                Err(WdcErrorView::BusyCreateSession) => PlanView {
                    phase: settled(InitPhase::Creating, one_more(self.waited), self.budget),
                    waited: one_more(self.waited),
                    ..self
                },
                Err(e) => PlanView {
                    phase: InitPhase::GaveUp,
                    error: if self.keep_error {
                        Some(e)
                    } else {
                        self.error
                    },
                    ..self
                },
            }
        }
    }

    /// How long to wait before the next action, after an outcome that
    /// was reported in the phase `phase`: one round where the driver was
    /// busy, else not at all.
    pub open spec fn pause(self, asked: InitPhase, outcome: Result<(), WdcErrorView>) -> u64 {
        if self.phase == asked && ((asked == InitPhase::Probing && outcome == Err::<
            (),
            WdcErrorView,
        >(WdcErrorView::DriverNotReadyBusySession)) || (asked == InitPhase::Creating && outcome
            == Err::<(), WdcErrorView>(WdcErrorView::BusyCreateSession))) {
            WAIT_EACH_ROUND
        } else {
            0
        }
    }

    /// The result of the course, once it has ended.
    pub open spec fn result(self) -> Result<(), WdcErrorView> {
        if self.phase == InitPhase::Ready {
            Ok(())
        } else {
            match self.error {
                Some(e) => Err(e),
                None => Err(WdcErrorView::WebDriverNotReady),
            }
        }
    }

    /// A bound on the outcomes that can still be reported before the
    /// course ends.
    pub open spec fn rank(self) -> nat {
        let rounds: nat = if self.waited < self.budget {
            ((self.budget - self.waited + WAIT_EACH_ROUND - 1) / (WAIT_EACH_ROUND as int)) as nat
        } else {
            0
        };
        match self.phase {
            InitPhase::Probing => 2 * rounds + 2,
            InitPhase::Creating => 2 * rounds + 1,
            _ => 0,
        }
    }
}

/// Initialization ends: every outcome that is reported in the phase that
/// asked for it brings the course nearer to its end, so that the driver is
/// asked no more often than the rank at the start says.
pub proof fn lemma_init_ends(p: PlanView, outcome: Result<(), WdcErrorView>)
    requires
        p.phase == settled(p.phase, p.waited, p.budget),
    ensures
        p.phase == InitPhase::Probing ==> p.after_probe(outcome).rank() < p.rank(),
        p.phase == InitPhase::Creating ==> p.after_create(outcome).rank() < p.rank(),
        p.after_probe(outcome).phase == settled(
            p.after_probe(outcome).phase,
            p.after_probe(outcome).waited,
            p.after_probe(outcome).budget,
        ),
        p.after_create(outcome).phase == settled(
            p.after_create(outcome).phase,
            p.after_create(outcome).waited,
            p.after_create(outcome).budget,
        ),
{
    if p.phase == InitPhase::Probing || p.phase == InitPhase::Creating {
        let w = p.waited as int;
        let b = p.budget as int;
        let w2 = one_more(p.waited) as int;
        assert(w < b);
        assert(w2 > w);
        if w2 < b {
            assert(w2 == w + 100);
            assert((b - w2 + 99) / 100 < (b - w + 99) / 100) by (nonlinear_arith)
                requires
                    w2 == w + 100,
                    w2 < b,
            ;
        }
        assert((b - w + 99) / 100 >= 1) by (nonlinear_arith)
            requires
                w < b,
        ;
    }
}

impl View for InitPlan {
    type V = PlanView;

    closed spec fn view(&self) -> PlanView {
        PlanView {
            phase: self.phase,
            waited: self.waited,
            budget: self.budget,
            keep_error: self.keep_error,
            error: match self.error {
                Some(e) => Some(e@),
                None => None,
            },
        }
    }
}

fn settle(phase: InitPhase, waited: u64, budget: u64) -> (r: InitPhase)
    ensures
        r == settled(phase, waited, budget),
{
    match phase {
        InitPhase::Probing | InitPhase::Creating => {
            if waited >= budget {
                InitPhase::GaveUp
            } else {
                phase
            }
        },
        _ => phase,
    }
}

impl InitPlan {
    /// The course of an initialization that may wait `ready_timeout`
    /// seconds in all.
    pub fn new(ready_timeout: u32, keep_error: bool) -> (r: Self)
        ensures
            r@ == PlanView::start(ready_timeout, keep_error),
    {
        let budget: u64 = (ready_timeout as u64) * 1000000;
        InitPlan {
            phase: settle(InitPhase::Probing, 0, budget),
            waited: 0,
            budget,
            keep_error,
            error: None,
        }
    }

    /// What to do next.
    pub fn next(&self) -> (r: InitAction)
        ensures
            r == match self@.phase {
                InitPhase::Probing => InitAction::Probe,
                InitPhase::Creating => InitAction::Create,
                _ => InitAction::Finish,
            },
    {
        match self.phase {
            InitPhase::Probing => InitAction::Probe,
            InitPhase::Creating => InitAction::Create,
            _ => InitAction::Finish,
        }
    }

    /// Takes note of the outcome of the command "Status", and says how
    /// many microseconds to wait before the next action.
    pub fn probed(&mut self, outcome: Result<(), WdcError>) -> (pause: u64)
        ensures
            final(self)@ == old(self)@.after_probe(unit_view(outcome)),
            pause == old(self)@.pause(InitPhase::Probing, unit_view(outcome)),
    {
        match self.phase {
            InitPhase::Probing => {},
            _ => {
                return 0;
            },
        }
        match outcome {
            Err(WdcError::DriverNotReadyBusySession) => {
                self.waited = if self.waited <= u64::MAX - WAIT_EACH_ROUND {
                    self.waited + WAIT_EACH_ROUND
                } else {
                    u64::MAX
                };
                self.phase = settle(InitPhase::Probing, self.waited, self.budget);
                WAIT_EACH_ROUND
            },
            _ => {
                self.phase = InitPhase::Creating;
                0
            },
        }
    }

    /// Takes note of the outcome of the command "New Session", and says
    /// how many microseconds to wait before the next action.
    pub fn created(&mut self, outcome: Result<(), WdcError>) -> (pause: u64)
        ensures
            final(self)@ == old(self)@.after_create(unit_view(outcome)),
            pause == old(self)@.pause(InitPhase::Creating, unit_view(outcome)),
    {
        match self.phase {
            InitPhase::Creating => {},
            _ => {
                return 0;
            },
        }
        match outcome {
            Ok(_) => {
                self.phase = InitPhase::Ready;
                0
            },
            Err(WdcError::BusyCreateSession) => {
                self.waited = if self.waited <= u64::MAX - WAIT_EACH_ROUND {
                    self.waited + WAIT_EACH_ROUND
                } else {
                    u64::MAX
                };
                self.phase = settle(InitPhase::Creating, self.waited, self.budget);
                WAIT_EACH_ROUND
            },
            Err(e) => {
                self.phase = InitPhase::GaveUp;
                if self.keep_error {
                    self.error = Some(e);
                }
                0
            },
        }
    }

    /// The result of the initialization: success where a session was
    /// created; else the error that was kept, or that the driver is not
    /// ready.
    pub fn result(self) -> (r: Result<(), WdcError>)
        ensures
            unit_view(r) == self@.result(),
    {
        match self.phase {
            InitPhase::Ready => Ok(()),
            _ => match self.error {
                Some(e) => Err(e),
                None => Err(WdcError::WebDriverNotReady),
            },
        }
    }
}

} // verus!
