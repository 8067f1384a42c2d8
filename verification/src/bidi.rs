//! The client of WebDriver BiDi, without its connections: the session
//! that opens the WebSocket, and the commands on browsing contexts as
//! WebSocket messages.

use vstd::prelude::*;
use vstd::string::StringExecFns;
use crate::genericdrv::{
    address, asks_for_session, delete_request, make_address, plain_request, refusal_of,
    session_in, session_path, session_request, status_request, succeeded, CreateW3cSession,
    SessionMeta,
};
use crate::httpp::{HttpRequestParts, HttpResponseParts};
use crate::json::{
    borrowed_list, json_parsed, need, object_field, owned, read_object, read_text,
    read_u32, required, strs, text_field, texts, u32_field, DeError, Json, JsonView,
};
use crate::octets::{append, same_bytes, utf8};
use crate::wdcmd::err::{failure, BadCmdResp};
use crate::wdcmd::session::comm::W3cCapa;
use crate::wdcmd::session::w3c::{W3cCapaGetter, W3cCapaSetter, W3cView};
use crate::wsp::{
    default_max_flen, framed, plan_of, refusal, MessageView, WebSocketMessage, WspSett,
};
use crate::WdcError;

verus! {

/// A kind of driver of which a BiDi client can be made.
pub trait CreateBidiClient: Sized {
    /// A client of the driver at `rhost` and `rport`, with no session and
    /// no browsing context yet.
    fn new_bdc(rhost: &str, rport: u16) -> (r: BidiClient<Self>)
        ensures
            r.rhost@ == rhost@,
            r.rport == rport,
            r.ssmetas@.len() == 0,
            r.ctxlist@.len() == 0,
    ;
}

/// A client of WebDriver BiDi: where the server is, the sessions that the
/// client has created there, and the browsing contexts that it has made.
#[derive(Debug)]
pub struct BidiClient<D> {
    pub kind: D,
    pub rhost: String,
    pub rport: u16,
    pub ssmetas: Vec<SessionMeta>,
    pub ctxlist: Vec<String>,
}

/// Where the WebSocket of a session is: the address to connect to, and
/// the URI to ask for in the handshake.
#[derive(Debug)]
pub struct WsEndpoint {
    pub raddr: String,
    pub uri: String,
}

/// What the first two groups of a pattern capture in a text: nothing
/// where the pattern is not a valid one, where it matches nowhere in the
/// text, or where one of the two groups takes no part in the leftmost
/// match.
pub uninterp spec fn captured_pair(pattern: Seq<char>, text: Seq<char>) -> Option<
    (Seq<char>, Seq<char>),
>;

/// The pattern of the WebSocket URL of a session. Its first group is the
/// address, its second the id of the session.
pub open spec fn ws_url_pattern() -> Seq<char> {
    "ws://(.*)/session/(.*)"@
}

/// What the pattern of a WebSocket URL captures in a text.
pub open spec fn ws_url_groups(url: Seq<char>) -> Option<(Seq<char>, Seq<char>)> {
    captured_pair(ws_url_pattern(), url)
}

/// Captured groups as the characters they hold.
pub open spec fn groups_view(r: Option<(String, String)>) -> Option<(Seq<char>, Seq<char>)> {
    match r {
        Some(g) => Some((g.0@, g.1@)),
        None => None,
    }
}

/// `regex::Regex::new` on the pattern, and `regex::Regex::captures` on
/// the text, of which `Captures::get` and `Match::as_str` hand out the
/// groups one and two. The claim: whether the pattern compiles and
/// matches, and the texts of its groups, depend on nothing but the pattern
/// and the text, so that the outcome can go by the name `captured_pair`.
#[verifier::external_body]
fn first_two_groups(pattern: &str, text: &str) -> (r: Option<(String, String)>)
    ensures
        groups_view(r) == captured_pair(pattern@, text@),
{
    let re = regex::Regex::new(pattern).ok()?;
    let cap = re.captures(text)?;
    Some((cap.get(1)?.as_str().to_string(), cap.get(2)?.as_str().to_string()))
}

/// The endpoint that the captured groups of a WebSocket URL give: the
/// first is the address, the second the id of the session.
pub open spec fn endpoint_of(groups: Option<(Seq<char>, Seq<char>)>) -> Option<
    (Seq<char>, Seq<char>),
> {
    match groups {
        Some(g) => Some((g.0, "/session/"@ + g.1)),
        None => None,
    }
}

/// An endpoint as the characters it holds.
pub open spec fn endpoint_view(r: Option<WsEndpoint>) -> Option<(Seq<char>, Seq<char>)> {
    match r {
        Some(e) => Some((e.raddr@, e.uri@)),
        None => None,
    }
}

impl WsEndpoint {
    /// The endpoint that captured groups give.
    pub fn from_groups(groups: Option<(String, String)>) -> (r: Option<WsEndpoint>)
        ensures
            endpoint_view(r) == endpoint_of(groups_view(groups)),
    {
        match groups {
            Some(g) => {
                let mut uri = String::from_str("/session/");
                uri.append(g.1.as_str());
                Some(WsEndpoint { raddr: g.0, uri })
            },
            None => None,
        }
    }

    /// The endpoint of the WebSocket URL of a session, which has the form
    /// `ws://` address `/session/` id.
    pub fn parse(url: &str) -> (r: Option<WsEndpoint>)
        ensures
            endpoint_view(r) == endpoint_of(ws_url_groups(url@)),
    {
        Self::from_groups(first_two_groups("ws://(.*)/session/(.*)", url))
    }
}

/// The payload that asks for a new browsing context: a tab where
/// `ctx_type` is 1, else a window.
pub open spec fn create_payload(ctx_type: u8) -> Seq<u8> {
    if ctx_type == 1 {
        utf8("{\"id\":123,\"method\":\"browsingContext.create\",\"params\":{\"type\":\"tab\"}}"@)
    } else {
        utf8(
            "{\"id\":123,\"method\":\"browsingContext.create\",\"params\":{\"type\":\"window\"}}"@,
        )
    }
}

/// The payload that asks a browsing context to go to a URL.
pub open spec fn navigate_payload(ctx_id: Seq<char>, url: Seq<char>) -> Seq<u8> {
    utf8("{\"id\":123,\"method\":\"browsingContext.navigate\",\"params\":{\"url\":\""@) + utf8(
        url,
    ) + utf8("\",\"context\":\""@) + utf8(ctx_id) + utf8("\"}}"@)
}

/// The payload that asks for the tree of browsing contexts.
pub open spec fn tree_payload() -> Seq<u8> {
    utf8("{\"id\":123,\"method\":\"browsingContext.getTree\",\"params\":{}}"@)
}

/// The settings of every message that the client sends: a masked text
/// message.
pub open spec fn command_setts() -> Seq<WspSett> {
    seq![WspSett::TextMsg, WspSett::Mask]
}

/// What holds of the message that carries a payload: it is a masked text
/// message in frames of every size class, and a payload that cannot be
/// framed is a fault.
pub open spec fn carries(payload: Seq<u8>, r: Result<WebSocketMessage, WdcError>) -> bool {
    let kinds = [true, true, true];
    let p = plan_of(command_setts(), default_max_flen(kinds));
    match refusal(payload.len() as int, p, kinds) {
        Some(_) => r == Err::<WebSocketMessage, WdcError>(WdcError::Buggy),
        None => r matches Ok(m) && m@ == (MessageView {
            size_kinds: kinds,
            frames: framed(payload, p, kinds, true),
        }),
    }
}

/// The message that carries `payload`.
pub fn command_message(payload: &[u8]) -> (r: Result<WebSocketMessage, WdcError>)
    ensures
        carries(payload@, r),
{
    let mut wsmsg = WebSocketMessage::new();
    wsmsg.allow_small().allow_medium().allow_large();
    let mut setts: Vec<WspSett> = Vec::new();
    setts.push(WspSett::TextMsg);
    setts.push(WspSett::Mask);
    assert(setts@ =~= command_setts());
    assert(wsmsg@.size_kinds =~= [true, true, true]);
    match wsmsg.set_message_data(payload, setts) {
        Ok(_) => {
            assert(Seq::<crate::wsp::FrameView>::empty() + framed(
                payload@,
                plan_of(command_setts(), default_max_flen([true, true, true])),
                [true, true, true],
                true,
            ) =~= framed(
                payload@,
                plan_of(command_setts(), default_max_flen([true, true, true])),
                [true, true, true],
                true,
            ));
            Ok(wsmsg)
        },
        Err(_) => Err(WdcError::Buggy),
    }
}

/// Whether `needle` stands in `hay` at `i`.
pub open spec fn stands_at(hay: Seq<u8>, needle: Seq<u8>, i: int) -> bool {
    0 <= i && i + needle.len() <= hay.len() && hay.subrange(i, i + needle.len()) == needle
}

/// Whether `needle` stands somewhere in `hay`.
pub open spec fn contains_bytes(hay: Seq<u8>, needle: Seq<u8>) -> bool {
    exists|i: int| stands_at(hay, needle, i)
}

/// Whether `needle` stands somewhere in `hay`.
pub fn find_bytes(hay: &[u8], needle: &[u8]) -> (r: bool)
    ensures
        r == contains_bytes(hay@, needle@),
{
    let n = needle.len();
    let len = hay.len();
    if n > len {
        return false;
    }
    if n == 0 {
        assert(hay@.subrange(0, 0) =~= needle@);
        assert(stands_at(hay@, needle@, 0));
        return true;
    }
    let mut i: usize = 0;
    while i <= len - n
        invariant
            0 <= i <= len - n + 1,
            n == needle@.len(),
            len == hay@.len(),
            0 < n <= len,
            forall|k: int| 0 <= k < i ==> !stands_at(hay@, needle@, k),
        decreases len - n + 1 - i,
    {
        if same_bytes(vstd::slice::slice_subrange(hay, i, i + n), needle) {
            assert(stands_at(hay@, needle@, i as int));
            return true;
        }
        i = i + 1;
    }
    false
}

/// The browsing context that the answer to its creation denotes: the
/// number `id` and the object `result`, which holds the text `context`;
/// all three must be there.
pub open spec fn context_parsed(j: JsonView) -> Result<Seq<char>, DeError> {
    match j {
        JsonView::Object(top) => {
            let id = required(u32_field(top, "id"@));
            let result = required(object_field(top, "result"@));
            if id is Err {
                Err(id->Err_0)
            } else if result is Err {
                Err(result->Err_0)
            } else {
                required(text_field(result->Ok_0, "context"@))
            }
        },
        _ => Err(DeError::Mismatch),
    }
}

/// The browsing context that the data of an answer denote.
pub open spec fn context_in(data: Seq<u8>) -> Result<Seq<char>, DeError> {
    match json_parsed(data) {
        Some(j) => context_parsed(j),
        None => Err(DeError::Syntax),
    }
}

/// A read context as the characters it holds.
pub open spec fn context_view(r: Result<String, DeError>) -> Result<Seq<char>, DeError> {
    match r {
        Ok(s) => Ok(s@),
        Err(e) => Err(e),
    }
}

fn read_context(data: &[u8]) -> (r: Result<String, DeError>)
    ensures
        context_view(r) == context_in(data@),
{
    let j = match Json::parse(data) {
        Ok(j) => j,
        Err(e) => {
            return Err(e);
        },
    };
    let top = match j.members() {
        Ok(m) => m,
        Err(e) => {
            return Err(e);
        },
    };
    if let Err(e) = need(read_u32(top, "id")) {
        return Err(e);
    }
    let result = match need(read_object(top, "result")) {
        Ok(v) => v,
        Err(e) => {
            return Err(e);
        },
    };
    match need(read_text(result, "context")) {
        Ok(c) => Ok(owned(c)),
        Err(e) => Err(e),
    }
}

impl<D> BidiClient<D> {
    /// The address of the server: host, colon, port.
    pub fn raddr(&self) -> (r: String)
        ensures
            r@ == address(self.rhost@, self.rport),
    {
        make_address(self.rhost.as_str(), self.rport)
    }

    /// The request of the command "Status".
    pub fn is_ready_request(&self) -> (r: HttpRequestParts)
        ensures
            r@ == plain_request("GET"@, "/status"@, address(self.rhost@, self.rport)),
    {
        let host = self.raddr();
        status_request(host.as_str())
    }

    /// The request that deletes the session `ssid`.
    pub fn del_session_request(&self, ssid: &str) -> (r: HttpRequestParts)
        ensures
            r@ == plain_request(
                "DELETE"@,
                session_path(ssid@, Seq::empty()),
                address(self.rhost@, self.rport),
            ),
    {
        let host = self.raddr();
        delete_request(host.as_str(), ssid)
    }

    /// Takes note of a session.
    pub fn add_ssmeta(&mut self, ssid: String, profile: Option<String>)
        ensures
            final(self).ssmetas@ == old(self).ssmetas@.push(SessionMeta { ssid, profile }),
            final(self).ctxlist == old(self).ctxlist,
            final(self).rhost == old(self).rhost,
            final(self).rport == old(self).rport,
            final(self).kind == old(self).kind,
    {
        self.ssmetas.push(SessionMeta { ssid, profile });
    }

    /// The browsing contexts that the client has made, in order.
    pub fn ctxlist(&self) -> (r: Vec<&str>)
        ensures
            strs(r@) == texts(self.ctxlist@),
    {
        borrowed_list(&self.ctxlist)
    }

    /// The message of the command `browsingContext.create`.
    pub fn gen_ctx_message(ctx_type: u8) -> (r: Result<WebSocketMessage, WdcError>)
        ensures
            carries(create_payload(ctx_type), r),
    {
        if ctx_type == 1 {
            command_message(
                "{\"id\":123,\"method\":\"browsingContext.create\",\"params\":{\"type\":\"tab\"}}".as_bytes(),
            )
        } else {
            command_message(
                "{\"id\":123,\"method\":\"browsingContext.create\",\"params\":{\"type\":\"window\"}}".as_bytes(),
            )
        }
    }

    /// What the command `browsingContext.create` makes of the data of its
    /// answer: the client takes note of the new context; an answer that
    /// names none is a fault.
    pub fn gen_ctx_outcome(&mut self, data: &[u8]) -> (r: Result<(), WdcError>)
        ensures
            final(self).ssmetas == old(self).ssmetas,
            final(self).rhost == old(self).rhost,
            final(self).rport == old(self).rport,
            final(self).kind == old(self).kind,
            match r {
                Ok(_) => {
                    &&& context_in(data@) == Ok::<Seq<char>, DeError>(final(self).ctxlist@.last()@)
                    &&& final(self).ctxlist@.len() == old(self).ctxlist@.len() + 1
                    &&& final(self).ctxlist@.drop_last() == old(self).ctxlist@
                },
                Err(e) => context_in(data@) is Err && e == WdcError::Buggy && final(self).ctxlist
                    == old(self).ctxlist,
            },
    {
        match read_context(data) {
            Ok(c) => {
                let ghost before = self.ctxlist@;
                self.ctxlist.push(c);
                assert(self.ctxlist@.drop_last() =~= before);
                Ok(())
            },
            Err(_) => Err(WdcError::Buggy),
        }
    }

    /// The message of the command `browsingContext.navigate`.
    pub fn navi_message(ctx_id: &str, url: &str) -> (r: Result<WebSocketMessage, WdcError>)
        ensures
            carries(navigate_payload(ctx_id@, url@), r),
    {
        let mut mb: Vec<u8> = Vec::new();
        append(
            &mut mb,
            "{\"id\":123,\"method\":\"browsingContext.navigate\",\"params\":{\"url\":\"".as_bytes(),
        );
        append(&mut mb, url.as_bytes());
        append(&mut mb, "\",\"context\":\"".as_bytes());
        append(&mut mb, ctx_id.as_bytes());
        append(&mut mb, "\"}}".as_bytes());
        assert(mb@ =~= navigate_payload(ctx_id@, url@));
        command_message(mb.as_slice())
    }

    /// The message of the command `browsingContext.getTree`.
    pub fn ctx_tree_message() -> (r: Result<WebSocketMessage, WdcError>)
        ensures
            carries(tree_payload(), r),
    {
        command_message(
            "{\"id\":123,\"method\":\"browsingContext.getTree\",\"params\":{}}".as_bytes(),
        )
    }

    /// What a command without a result makes of the data of its answer:
    /// success where the data speak of a result, else a fault.
    pub fn result_outcome(data: &[u8]) -> (r: Result<(), WdcError>)
        ensures
            r == if contains_bytes(data@, utf8("result"@)) {
                Ok::<(), WdcError>(())
            } else {
                Err(WdcError::Buggy)
            },
    {
        if find_bytes(data, "result".as_bytes()) {
            Ok(())
        } else {
            Err(WdcError::Buggy)
        }
    }
}

/// The standard capabilities that ask for a WebSocket URL and for
/// nothing else.
pub open spec fn bidi_w3c() -> W3cView {
    W3cView { wsurl: Some(Seq::empty()), ..W3cView::empty() }
}

/// What the creation of a BiDi session makes of an answer.
pub open spec fn bidi_session_of<D: CreateW3cSession>(resp: crate::httpp::ResponseView) -> Result<
    (Seq<char>, Seq<char>, Seq<char>),
    WdcErrorLike,
> {
    if !succeeded(resp) {
        Err(WdcErrorLike::Refused)
    } else {
        match session_in::<D>(resp.msgbody) {
            Err(_) => Err(WdcErrorLike::Fault),
            Ok(s) => match s.wsurl {
                None => Err(WdcErrorLike::Fault),
                Some(u) => match endpoint_of(ws_url_groups(u)) {
                    None => Err(WdcErrorLike::Fault),
                    Some(e) => Ok((s.session_id, e.0, e.1)),
                },
            },
        }
    }
}

/// Why the creation of a BiDi session failed.
pub enum WdcErrorLike {
    /// The driver reported an error, which its answer holds.
    Refused,
    /// The answer cannot be read, or names no WebSocket of the expected form.
    Fault,
}

impl<D: CreateW3cSession> BidiClient<D> {
    /// The request that asks for a session with a WebSocket URL.
    pub fn wstd_session_default_request(&self) -> (r: Result<HttpRequestParts, WdcError>)
        ensures
            asks_for_session(r, address(self.rhost@, self.rport), D::singl_json(bidi_w3c())),
    {
        let mut ws_capa = W3cCapa::default();
        ws_capa.enable_bidi();
        let caps = D::session_singl(&ws_capa);
        let host = self.raddr();
        session_request(host.as_str(), &caps)
    }

    /// What the creation of a BiDi session makes of its answer. On
    /// success the client takes note of the session, and the result says
    /// where its WebSocket is. A session without a WebSocket URL of the
    /// expected form is a fault, as is an answer that cannot be read.
    pub fn wstd_session_default_outcome(&mut self, resp: &HttpResponseParts) -> (r: Result<
        WsEndpoint,
        WdcError,
    >)
        ensures
            final(self).ctxlist == old(self).ctxlist,
            final(self).rhost == old(self).rhost,
            final(self).rport == old(self).rport,
            final(self).kind == old(self).kind,
            match r {
                Ok(e) => {
                    &&& bidi_session_of::<D>(resp@) == Ok::<
                        (Seq<char>, Seq<char>, Seq<char>),
                        WdcErrorLike,
                    >((final(self).ssmetas@.last().ssid@, e.raddr@, e.uri@))
                    &&& final(self).ssmetas@.len() == old(self).ssmetas@.len() + 1
                    &&& final(self).ssmetas@.drop_last() == old(self).ssmetas@
                    &&& final(self).ssmetas@.last().profile.is_none()
                },
                Err(e) => final(self).ssmetas == old(self).ssmetas && match bidi_session_of::<D>(
                    resp@,
                ) {
                    Ok(_) => false,
                    Err(WdcErrorLike::Refused) => e@ == refusal_of(resp@),
                    Err(WdcErrorLike::Fault) => e == WdcError::Buggy,
                },
            },
    {
        if !resp.is_ok() {
            return Err(failure(BadCmdResp::from_bytes(resp.msgbody().as_slice())));
        }
        let sess = match D::read_session(resp.msgbody().as_slice()) {
            Ok(s) => s,
            Err(_) => {
                return Err(WdcError::Buggy);
            },
        };
        let url = match &sess.wsurl {
            Some(u) => u,
            None => {
                return Err(WdcError::Buggy);
            },
        };
        match WsEndpoint::parse(url.as_str()) {
            Some(e) => {
                let ghost before = self.ssmetas@;
                self.add_ssmeta(sess.session_id, None);
                assert(self.ssmetas@.drop_last() =~= before);
                Ok(e)
            },
            None => Err(WdcError::Buggy),
        }
    }
}

impl CreateBidiClient for crate::geckodrv::GeckoDriver {
    fn new_bdc(rhost: &str, rport: u16) -> (r: BidiClient<Self>) {
        BidiClient {
            kind: crate::geckodrv::GeckoDriver,
            rhost: owned(rhost),
            rport,
            ssmetas: Vec::new(),
            ctxlist: Vec::new(),
        }
    }
}

impl CreateBidiClient for crate::chromedrv::ChromeDriver {
    fn new_bdc(rhost: &str, rport: u16) -> (r: BidiClient<Self>) {
        BidiClient {
            kind: crate::chromedrv::ChromeDriver,
            rhost: owned(rhost),
            rport,
            ssmetas: Vec::new(),
            ctxlist: Vec::new(),
        }
    }
}

} // verus!
