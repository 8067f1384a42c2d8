//! GeckoDriver, the driver of Firefox.

use vstd::prelude::*;
use crate::genericdrv::{
    address, asks_for_session, CreateW3cSession, CreateWebDrvClient, CreatedSession,
    RendVendor, SessionView, WebDrvClient,
};
use crate::httpp::HttpRequestParts;
use crate::json::{entry, owned, DeError, Json, JsonView};
use crate::wdcmd::session::gec::{
    firefox_json, firefox_members, gecko_session_parsed, purged_firefox,
    FirefoxCapa, FirefoxCapaGetter, FirefoxExtView, GeckoCapRequ, GeckoCapRequSetter,
    GeckoSessResult,
};
use crate::wdcmd::session::w3c::{
    lemma_purged, purged, W3cCapRequSetter, W3cCapaGetter, W3cSessResultGetter, W3cView,
};
use crate::WdcError;

verus! {

/// GeckoDriver, the driver of Firefox.
#[derive(Debug)]
pub struct GeckoDriver;

impl Default for GeckoDriver {
    fn default() -> (r: Self) {
        GeckoDriver
    }
}

/// The request for a Firefox session that must match the capabilities
/// `w` and `f`, with one alternative that any browser meets.
pub open spec fn gecko_tolerant_json(w: W3cView, f: FirefoxExtView) -> JsonView {
    JsonView::Object(
        entry("alwaysMatch"@, JsonView::Object(firefox_members(w, f))) + entry(
            "firstMatch"@,
            JsonView::Array(
                seq![
                    JsonView::Object(firefox_members(W3cView::empty(), FirefoxExtView::empty())),
                ],
            ),
        ),
    )
}

/// The session that GeckoDriver's answer denotes.
pub open spec fn gecko_session_of(j: JsonView) -> Result<SessionView, DeError> {
    match gecko_session_parsed(j) {
        Ok(s) => Ok(SessionView { session_id: s.0, wsurl: s.1.wsurl }),
        Err(e) => Err(e),
    }
}

fn tolerant_request() -> (r: GeckoCapRequ)
    ensures
        r.always_match.w3c() == W3cView::empty(),
        r.always_match.firefox() == FirefoxExtView::empty(),
        r.first_match@.len() == 1,
        r.first_match@[0].w3c() == W3cView::empty(),
        r.first_match@[0].firefox() == FirefoxExtView::empty(),
{
    let anycapa = FirefoxCapa::default();
    let mut requ = GeckoCapRequ::default();
    requ.allow_as_w3c(&anycapa);
    requ
}

fn written(requ: &GeckoCapRequ) -> (r: Json)
    requires
        requ.first_match@.len() == 1,
        requ.first_match@[0].w3c() == W3cView::empty(),
        requ.first_match@[0].firefox() == FirefoxExtView::empty(),
    ensures
        r@ == gecko_tolerant_json(requ.always_match.w3c(), requ.always_match.firefox()),
{
    let j = requ.to_json();
    proof {
        assert(Seq::new(
            requ.first_match@.len(),
            |i: int| firefox_json(requ.first_match@[i]),
        ) =~= seq![
            JsonView::Object(firefox_members(W3cView::empty(), FirefoxExtView::empty())),
        ]);
    }
    j
}

proof fn lemma_tolerant_stays(first: Seq<FirefoxCapa>, w: W3cView, f: FirefoxExtView)
    requires
        first.len() == 1,
        first[0].w3c() == W3cView::empty(),
        first[0].firefox() == FirefoxExtView::empty(),
    ensures
        purged(first, w) == first,
        purged_firefox(first, w, f) == first,
{
    lemma_purged(first, w);
    assert(first.drop_first() =~= Seq::<FirefoxCapa>::empty());
    assert(purged_firefox(first.drop_first(), w, f) =~= Seq::<FirefoxCapa>::empty());
    assert(seq![first.first()] + Seq::<FirefoxCapa>::empty() =~= first);
}

impl CreateWebDrvClient for GeckoDriver {
    fn new(rhost: &str, rport: u16) -> (r: WebDrvClient<Self>) {
        WebDrvClient { kind: GeckoDriver, rhost: owned(rhost), rport, ssmetas: Vec::new() }
    }

    fn rend_vendor() -> (r: RendVendor)
        ensures
            r == RendVendor::Mozilla,
    {
        RendVendor::Mozilla
    }
}

impl CreateW3cSession for GeckoDriver {
    open spec fn default_json() -> JsonView {
        gecko_tolerant_json(W3cView::empty(), FirefoxExtView::empty())
    }

    open spec fn singl_json(w: W3cView) -> JsonView {
        gecko_tolerant_json(w, FirefoxExtView::empty())
    }

    open spec fn session_of(j: JsonView) -> Result<SessionView, DeError> {
        gecko_session_of(j)
    }

    fn session_default() -> (r: Json) {
        let requ = tolerant_request();
        written(&requ)
    }

    fn session_singl<G: W3cCapaGetter>(capa: &G) -> (r: Json) {
        let mut requ = tolerant_request();
        proof {
            lemma_tolerant_stays(requ.first_match@, capa.w3c(), FirefoxExtView::empty());
        }
        requ.mandate_as_w3c(capa);
        written(&requ)
    }

    fn read_session(body: &[u8]) -> (r: Result<CreatedSession, DeError>) {
        match GeckoSessResult::from_bytes(body) {
            Ok(sess) => Ok(
                CreatedSession {
                    session_id: owned(sess.session_id()),
                    wsurl: match sess.wsurl() {
                        Some(u) => Some(owned(u)),
                        None => None,
                    },
                },
            ),
            Err(e) => Err(e),
        }
    }
}

impl WebDrvClient<GeckoDriver> {
    /// The request that asks for a session whose capabilities, the
    /// standard ones and Firefox's own, match those of `capa`.
    pub fn ff_session_singl_request(&self, capa: &(impl W3cCapaGetter + FirefoxCapaGetter)) -> (r:
        Result<HttpRequestParts, WdcError>)
        ensures
            asks_for_session(
                r,
                address(self.rhost@, self.rport),
                gecko_tolerant_json(capa.w3c(), capa.firefox().ordered()),
            ),
    {
        let mut requ = tolerant_request();
        proof {
            lemma_tolerant_stays(requ.first_match@, capa.w3c(), capa.firefox());
        }
        requ.mandate(capa);
        let caps = written(&requ);
        self.new_session_request(&caps)
    }
}

} // verus!
