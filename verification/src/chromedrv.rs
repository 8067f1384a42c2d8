//! ChromeDriver, the driver of Chromium.

use vstd::prelude::*;
use crate::genericdrv::{
    address, asks_for_session, CreateW3cSession, CreateWebDrvClient, CreatedSession,
    RendVendor, SessionView, WebDrvClient,
};
use crate::httpp::HttpRequestParts;
use crate::json::{entry, owned, DeError, Json, JsonView};
use crate::wdcmd::session::chr::{
    chromium_json, chromium_members, chrom_session_parsed, purged_chromium,
    ChromiumCapa, ChromiumCapaGetter, ChromiumExtView, ChromCapRequ, ChromCapRequSetter,
    ChromSessResult,
};
use crate::wdcmd::session::w3c::{
    lemma_purged, purged, W3cCapRequSetter, W3cCapaGetter, W3cSessResultGetter, W3cView,
};
use crate::WdcError;

verus! {

/// ChromeDriver, the driver of Chromium.
#[derive(Debug)]
pub struct ChromeDriver;

impl Default for ChromeDriver {
    fn default() -> (r: Self) {
        ChromeDriver
    }
}

/// The request for a Chromium session that must match the capabilities
/// `w` and `f`, with one alternative that any browser meets.
pub open spec fn chrom_tolerant_json(w: W3cView, f: ChromiumExtView) -> JsonView {
    JsonView::Object(
        entry("alwaysMatch"@, JsonView::Object(chromium_members(w, f))) + entry(
            "firstMatch"@,
            JsonView::Array(
                seq![
                    JsonView::Object(chromium_members(W3cView::empty(), ChromiumExtView::empty())),
                ],
            ),
        ),
    )
}

/// The session that ChromeDriver's answer denotes.
pub open spec fn chrom_session_of(j: JsonView) -> Result<SessionView, DeError> {
    match chrom_session_parsed(j) {
        Ok(s) => Ok(SessionView { session_id: s.0, wsurl: s.1.wsurl }),
        Err(e) => Err(e),
    }
}

fn tolerant_request() -> (r: ChromCapRequ)
    ensures
        r.always_match.w3c() == W3cView::empty(),
        r.always_match.chromium() == ChromiumExtView::empty(),
        r.first_match@.len() == 1,
        r.first_match@[0].w3c() == W3cView::empty(),
        r.first_match@[0].chromium() == ChromiumExtView::empty(),
{
    let anycapa = ChromiumCapa::default();
    let mut requ = ChromCapRequ::default();
    requ.allow_as_w3c(&anycapa);
    requ
}

fn written(requ: &ChromCapRequ) -> (r: Json)
    requires
        requ.first_match@.len() == 1,
        requ.first_match@[0].w3c() == W3cView::empty(),
        requ.first_match@[0].chromium() == ChromiumExtView::empty(),
    ensures
        r@ == chrom_tolerant_json(requ.always_match.w3c(), requ.always_match.chromium()),
{
    let j = requ.to_json();
    proof {
        assert(Seq::new(
            requ.first_match@.len(),
            |i: int| chromium_json(requ.first_match@[i]),
        ) =~= seq![
            JsonView::Object(chromium_members(W3cView::empty(), ChromiumExtView::empty())),
        ]);
    }
    j
}

proof fn lemma_tolerant_stays(first: Seq<ChromiumCapa>, w: W3cView, f: ChromiumExtView)
    requires
        first.len() == 1,
        first[0].w3c() == W3cView::empty(),
        first[0].chromium() == ChromiumExtView::empty(),
    ensures
        purged(first, w) == first,
        purged_chromium(first, w, f) == first,
{
    lemma_purged(first, w);
    assert(first.drop_first() =~= Seq::<ChromiumCapa>::empty());
    assert(purged_chromium(first.drop_first(), w, f) =~= Seq::<ChromiumCapa>::empty());
    assert(seq![first.first()] + Seq::<ChromiumCapa>::empty() =~= first);
}

impl CreateWebDrvClient for ChromeDriver {
    fn new(rhost: &str, rport: u16) -> (r: WebDrvClient<Self>) {
        WebDrvClient { kind: ChromeDriver, rhost: owned(rhost), rport, ssmetas: Vec::new() }
    }

    fn rend_vendor() -> (r: RendVendor)
        ensures
            r == RendVendor::Google,
    {
        RendVendor::Google
    }
}

impl CreateW3cSession for ChromeDriver {
    open spec fn default_json() -> JsonView {
        chrom_tolerant_json(W3cView::empty(), ChromiumExtView::empty())
    }

    open spec fn singl_json(w: W3cView) -> JsonView {
        chrom_tolerant_json(w, ChromiumExtView::empty())
    }

    open spec fn session_of(j: JsonView) -> Result<SessionView, DeError> {
        chrom_session_of(j)
    }

    fn session_default() -> (r: Json) {
        let requ = tolerant_request();
        written(&requ)
    }

    fn session_singl<G: W3cCapaGetter>(capa: &G) -> (r: Json) {
        let mut requ = tolerant_request();
        proof {
            lemma_tolerant_stays(requ.first_match@, capa.w3c(), ChromiumExtView::empty());
        }
        requ.mandate_as_w3c(capa);
        written(&requ)
    }

    fn read_session(body: &[u8]) -> (r: Result<CreatedSession, DeError>) {
        match ChromSessResult::from_bytes(body) {
            Ok(sess) => Ok(
                CreatedSession {
                    session_id: owned(sess.session_id()),
                    wsurl: match sess.wsurl() {
                        Some(u) => Some(owned(u)),
                        None => None,
                    },
                },
            ),
            Err(e) => Err(e),
        }
    }
}

impl WebDrvClient<ChromeDriver> {
    /// The request that asks for a session whose capabilities, the
    /// standard ones and Chromium's own, match those of `capa`.
    pub fn ch_session_singl_request(&self, capa: &(impl W3cCapaGetter + ChromiumCapaGetter)) -> (r:
        Result<HttpRequestParts, WdcError>)
        ensures
            asks_for_session(
                r,
                address(self.rhost@, self.rport),
                chrom_tolerant_json(capa.w3c(), capa.chromium().ordered()),
            ),
    {
        let mut requ = tolerant_request();
        proof {
            lemma_tolerant_stays(requ.first_match@, capa.w3c(), capa.chromium());
        }
        requ.mandate(capa);
        let caps = written(&requ);
        self.new_session_request(&caps)
    }
}

} // verus!
