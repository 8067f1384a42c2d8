//! The standard capabilities: what they hold, when two sets of them
//! conflict, and the traits through which they are read and set.

use vstd::prelude::*;
use crate::json::{opt_strs, opt_text, strs};

verus! {

/// The three timeouts of a session, in milliseconds.
#[derive(Debug, Clone, Copy, PartialEq, Eq, Structural)]
pub struct Timeouts {
    pub script: u32,
    pub page_load: u32,
    pub implicit: u32,
}

/// The timeouts that a session starts from.
pub open spec fn default_timeouts() -> Timeouts {
    Timeouts { script: 30000, page_load: 300000, implicit: 0 }
}

impl Default for Timeouts {
    fn default() -> (r: Self)
        ensures
            r == default_timeouts(),
    {
        Timeouts { script: 30000, page_load: 300000, implicit: 0 }
    }
}

/// What a proxy record holds. An empty text or list, and the version 0,
/// stand for a field that is not set.
pub struct ProxyView {
    pub proxy_type: Seq<char>,
    pub proxy_autoconfig_url: Seq<char>,
    pub ftp_proxy: Seq<char>,
    pub http_proxy: Seq<char>,
    pub no_proxy: Seq<Seq<char>>,
    pub ssl_proxy: Seq<char>,
    pub socks_proxy: Seq<char>,
    pub socks_version: u8,
}

impl ProxyView {
    /// The proxy record with no field set.
    pub open spec fn empty() -> ProxyView {
        ProxyView {
            proxy_type: Seq::empty(),
            proxy_autoconfig_url: Seq::empty(),
            ftp_proxy: Seq::empty(),
            http_proxy: Seq::empty(),
            no_proxy: Seq::empty(),
            ssl_proxy: Seq::empty(),
            socks_proxy: Seq::empty(),
            socks_version: 0,
        }
    }
}

/// The standard capabilities that a record holds. `None` is a capability
/// that is absent.
pub struct W3cView {
    pub browser_name: Option<Seq<char>>,
    pub browser_version: Option<Seq<char>>,
    pub platform_name: Option<Seq<char>>,
    pub accept_insecure_certs: Option<bool>,
    pub page_load_strategy: Option<Seq<char>>,
    pub proxy: Option<ProxyView>,
    pub window_rect: Option<bool>,
    pub timeouts: Option<Timeouts>,
    pub strict_file_interactability: Option<bool>,
    pub unhandled_prompt_behavior: Option<Seq<char>>,
    /// The WebSocket URL of a session; in a request, any value asks for one.
    pub wsurl: Option<Seq<char>>,
}

impl W3cView {
    /// The record with every capability absent.
    pub open spec fn empty() -> W3cView {
        W3cView {
            browser_name: None,
            browser_version: None,
            platform_name: None,
            accept_insecure_certs: None,
            page_load_strategy: None,
            proxy: None,
            window_rect: None,
            timeouts: None,
            strict_file_interactability: None,
            unhandled_prompt_behavior: None,
            wsurl: None,
        }
    }

    /// Whether every standard capability is absent.
    pub open spec fn is_insig(self) -> bool {
        self == W3cView::empty()
    }

    /// The proxy record, or the empty one where there is none.
    pub open spec fn proxy_or_empty(self) -> ProxyView {
        match self.proxy {
            Some(p) => p,
            None => ProxyView::empty(),
        }
    }

    /// The timeouts, or those a session starts from where there are none.
    pub open spec fn timeouts_or_default(self) -> Timeouts {
        match self.timeouts {
            Some(t) => t,
            None => default_timeouts(),
        }
    }

    pub open spec fn proxy_type(self) -> Option<Seq<char>> {
        match self.proxy {
            Some(p) => Some(p.proxy_type),
            None => None,
        }
    }

    pub open spec fn proxy_autoconfig_url(self) -> Option<Seq<char>> {
        match self.proxy {
            Some(p) => Some(p.proxy_autoconfig_url),
            None => None,
        }
    }

    pub open spec fn ftp_proxy(self) -> Option<Seq<char>> {
        match self.proxy {
            Some(p) => Some(p.ftp_proxy),
            None => None,
        }
    }

    pub open spec fn http_proxy(self) -> Option<Seq<char>> {
        match self.proxy {
            Some(p) => Some(p.http_proxy),
            None => None,
        }
    }

    pub open spec fn ssl_proxy(self) -> Option<Seq<char>> {
        match self.proxy {
            Some(p) => Some(p.ssl_proxy),
            None => None,
        }
    }

    pub open spec fn socks_proxy(self) -> Option<Seq<char>> {
        match self.proxy {
            Some(p) => Some(p.socks_proxy),
            None => None,
        }
    }

    pub open spec fn no_proxy(self) -> Option<Seq<Seq<char>>> {
        match self.proxy {
            Some(p) => Some(p.no_proxy),
            None => None,
        }
    }

    pub open spec fn socks_version(self) -> Option<u8> {
        match self.proxy {
            Some(p) => Some(p.socks_version),
            None => None,
        }
    }

    pub open spec fn timeouts_script(self) -> Option<u32> {
        match self.timeouts {
            Some(t) => Some(t.script),
            None => None,
        }
    }

    pub open spec fn timeouts_page_load(self) -> Option<u32> {
        match self.timeouts {
            Some(t) => Some(t.page_load),
            None => None,
        }
    }

    pub open spec fn timeouts_implicit(self) -> Option<u32> {
        match self.timeouts {
            Some(t) => Some(t.implicit),
            None => None,
        }
    }
}

/// Whether two records conflict: both specify a browser name, a browser
/// version, a platform name, the acceptance of insecure certificates, a
/// page load strategy, a proxy, the window rect, timeouts, the strictness of
/// file interactability, or the behaviour at unhandled prompts.
pub open spec fn conflict_w3c(a: W3cView, b: W3cView) -> bool {
    ||| a.browser_name.is_some() && b.browser_name.is_some()
    ||| a.browser_version.is_some() && b.browser_version.is_some()
    ||| a.platform_name.is_some() && b.platform_name.is_some()
    ||| a.accept_insecure_certs.is_some() && b.accept_insecure_certs.is_some()
    ||| a.page_load_strategy.is_some() && b.page_load_strategy.is_some()
    ||| a.proxy.is_some() && b.proxy.is_some()
    ||| a.window_rect.is_some() && b.window_rect.is_some()
    ||| a.timeouts.is_some() && b.timeouts.is_some()
    ||| a.strict_file_interactability.is_some() && b.strict_file_interactability.is_some()
    ||| a.unhandled_prompt_behavior.is_some() && b.unhandled_prompt_behavior.is_some()
}

/// Getters for the standard capabilities.
pub trait W3cCapaGetter {
    /// The standard capabilities that the value holds.
    spec fn w3c(&self) -> W3cView;

    fn browser_name(&self) -> (r: Option<&str>)
        ensures
            opt_text(r) == self.w3c().browser_name,
    ;

    fn browser_version(&self) -> (r: Option<&str>)
        ensures
            opt_text(r) == self.w3c().browser_version,
    ;

    fn platform_name(&self) -> (r: Option<&str>)
        ensures
            opt_text(r) == self.w3c().platform_name,
    ;

    fn page_load_strategy(&self) -> (r: Option<&str>)
        ensures
            opt_text(r) == self.w3c().page_load_strategy,
    ;

    fn unhandled_prompt_behavior(&self) -> (r: Option<&str>)
        ensures
            opt_text(r) == self.w3c().unhandled_prompt_behavior,
    ;

    fn wsurl(&self) -> (r: Option<&str>)
        ensures
            opt_text(r) == self.w3c().wsurl,
    ;

    fn accept_insecure_certs(&self) -> (r: Option<bool>)
        ensures
            r == self.w3c().accept_insecure_certs,
    ;

    fn window_rect(&self) -> (r: Option<bool>)
        ensures
            r == self.w3c().window_rect,
    ;

    fn strict_file_interactability(&self) -> (r: Option<bool>)
        ensures
            r == self.w3c().strict_file_interactability,
    ;

    fn proxy_type(&self) -> (r: Option<&str>)
        ensures
            opt_text(r) == self.w3c().proxy_type(),
    ;

    fn proxy_autoconfig_url(&self) -> (r: Option<&str>)
        ensures
            opt_text(r) == self.w3c().proxy_autoconfig_url(),
    ;

    fn ftp_proxy(&self) -> (r: Option<&str>)
        ensures
            opt_text(r) == self.w3c().ftp_proxy(),
    ;

    fn http_proxy(&self) -> (r: Option<&str>)
        ensures
            opt_text(r) == self.w3c().http_proxy(),
    ;

    fn ssl_proxy(&self) -> (r: Option<&str>)
        ensures
            opt_text(r) == self.w3c().ssl_proxy(),
    ;

    fn socks_proxy(&self) -> (r: Option<&str>)
        ensures
            opt_text(r) == self.w3c().socks_proxy(),
    ;

    fn no_proxy(&self) -> (r: Option<Vec<&str>>)
        ensures
            opt_strs(r) == self.w3c().no_proxy(),
    ;

    fn socks_version(&self) -> (r: Option<u8>)
        ensures
            r == self.w3c().socks_version(),
    ;

    fn timeouts_script(&self) -> (r: Option<u32>)
        ensures
            r == self.w3c().timeouts_script(),
    ;

    fn timeouts_page_load(&self) -> (r: Option<u32>)
        ensures
            r == self.w3c().timeouts_page_load(),
    ;

    fn timeouts_implicit(&self) -> (r: Option<u32>)
        ensures
            r == self.w3c().timeouts_implicit(),
    ;

    /// Whether every standard capability is absent, so that nothing of
    /// them needs to be written.
    fn is_insig_as_w3c(&self) -> (r: bool)
        ensures
            r == self.w3c().is_insig(),
    ;
}

/// Setters for the standard capabilities. Each sets one capability and
/// leaves the others as they are.
pub trait W3cCapaSetter: W3cCapaGetter {

    fn set_browser_name(&mut self, arg: &str)
        ensures
            final(self).w3c() == (W3cView { browser_name: Some(arg@), ..old(self).w3c() }),
    ;

    fn set_browser_name_take(&mut self, arg: String)
        ensures
            final(self).w3c() == (W3cView { browser_name: Some(arg@), ..old(self).w3c() }),
    ;

    fn set_browser_name_owned(&mut self, arg: &str)
        ensures
            final(self).w3c() == (W3cView { browser_name: Some(arg@), ..old(self).w3c() }),
    ;

    fn set_browser_version(&mut self, arg: &str)
        ensures
            final(self).w3c() == (W3cView { browser_version: Some(arg@), ..old(self).w3c() }),
    ;

    fn set_browser_version_take(&mut self, arg: String)
        ensures
            final(self).w3c() == (W3cView { browser_version: Some(arg@), ..old(self).w3c() }),
    ;

    fn set_browser_version_owned(&mut self, arg: &str)
        ensures
            final(self).w3c() == (W3cView { browser_version: Some(arg@), ..old(self).w3c() }),
    ;

    fn set_platform_name(&mut self, arg: &str)
        ensures
            final(self).w3c() == (W3cView { platform_name: Some(arg@), ..old(self).w3c() }),
    ;

    fn set_platform_name_take(&mut self, arg: String)
        ensures
            final(self).w3c() == (W3cView { platform_name: Some(arg@), ..old(self).w3c() }),
    ;

    fn set_platform_name_owned(&mut self, arg: &str)
        ensures
            final(self).w3c() == (W3cView { platform_name: Some(arg@), ..old(self).w3c() }),
    ;

    fn set_page_load_strategy(&mut self, arg: &str)
        ensures
            final(self).w3c() == (W3cView { page_load_strategy: Some(arg@), ..old(self).w3c() }),
    ;

    fn set_page_load_strategy_take(&mut self, arg: String)
        ensures
            final(self).w3c() == (W3cView { page_load_strategy: Some(arg@), ..old(self).w3c() }),
    ;

    fn set_page_load_strategy_owned(&mut self, arg: &str)
        ensures
            final(self).w3c() == (W3cView { page_load_strategy: Some(arg@), ..old(self).w3c() }),
    ;

    fn set_unhandled_prompt_behavior(&mut self, arg: &str)
        ensures
            final(self).w3c() == (W3cView { unhandled_prompt_behavior: Some(arg@), ..old(self).w3c() }),
    ;

    fn set_unhandled_prompt_behavior_take(&mut self, arg: String)
        ensures
            final(self).w3c() == (W3cView { unhandled_prompt_behavior: Some(arg@), ..old(self).w3c() }),
    ;

    fn set_unhandled_prompt_behavior_owned(&mut self, arg: &str)
        ensures
            final(self).w3c() == (W3cView { unhandled_prompt_behavior: Some(arg@), ..old(self).w3c() }),
    ;

    fn set_wsurl(&mut self, arg: &str)
        ensures
            final(self).w3c() == (W3cView { wsurl: Some(arg@), ..old(self).w3c() }),
    ;

    fn set_wsurl_take(&mut self, arg: String)
        ensures
            final(self).w3c() == (W3cView { wsurl: Some(arg@), ..old(self).w3c() }),
    ;

    /// Asks for a session with a WebSocket URL.
    fn enable_bidi(&mut self)
        ensures
            final(self).w3c() == (W3cView { wsurl: Some(Seq::empty()), ..old(self).w3c() }),
    ;

    fn set_accept_insecure_certs(&mut self, arg: bool)
        ensures
            final(self).w3c() == (W3cView { accept_insecure_certs: Some(arg), ..old(self).w3c() }),
    ;

    fn set_window_rect(&mut self, arg: bool)
        ensures
            final(self).w3c() == (W3cView { window_rect: Some(arg), ..old(self).w3c() }),
    ;

    fn set_strict_file_interactability(&mut self, arg: bool)
        ensures
            final(self).w3c() == (W3cView { strict_file_interactability: Some(arg), ..old(self).w3c() }),
    ;

    fn set_proxy_type(&mut self, arg: &str)
        ensures
            final(self).w3c() == (W3cView {
                proxy: Some(ProxyView { proxy_type: arg@, ..old(self).w3c().proxy_or_empty() }),
                ..old(self).w3c()
            }),
    ;

    fn set_proxy_autoconfig_url(&mut self, arg: &str)
        ensures
            final(self).w3c() == (W3cView {
                proxy: Some(ProxyView { proxy_autoconfig_url: arg@, ..old(self).w3c().proxy_or_empty() }),
                ..old(self).w3c()
            }),
    ;

    fn set_ftp_proxy(&mut self, arg: &str)
        ensures
            final(self).w3c() == (W3cView {
                proxy: Some(ProxyView { ftp_proxy: arg@, ..old(self).w3c().proxy_or_empty() }),
                ..old(self).w3c()
            }),
    ;

    fn set_http_proxy(&mut self, arg: &str)
        ensures
            final(self).w3c() == (W3cView {
                proxy: Some(ProxyView { http_proxy: arg@, ..old(self).w3c().proxy_or_empty() }),
                ..old(self).w3c()
            }),
    ;

    fn set_ssl_proxy(&mut self, arg: &str)
        ensures
            final(self).w3c() == (W3cView {
                proxy: Some(ProxyView { ssl_proxy: arg@, ..old(self).w3c().proxy_or_empty() }),
                ..old(self).w3c()
            }),
    ;

    fn set_socks_proxy(&mut self, arg: &str)
        ensures
            final(self).w3c() == (W3cView {
                proxy: Some(ProxyView { socks_proxy: arg@, ..old(self).w3c().proxy_or_empty() }),
                ..old(self).w3c()
            }),
    ;

    fn set_socks_proxy_owned(&mut self, arg: &str)
        ensures
            final(self).w3c() == (W3cView {
                proxy: Some(ProxyView { socks_proxy: arg@, ..old(self).w3c().proxy_or_empty() }),
                ..old(self).w3c()
            }),
    ;

    fn set_socks_proxy_take(&mut self, arg: String)
        ensures
            final(self).w3c() == (W3cView {
                proxy: Some(ProxyView { socks_proxy: arg@, ..old(self).w3c().proxy_or_empty() }),
                ..old(self).w3c()
            }),
    ;

    fn set_no_proxy(&mut self, arg: Vec<&str>)
        ensures
            final(self).w3c() == (W3cView {
                proxy: Some(ProxyView { no_proxy: strs(arg@), ..old(self).w3c().proxy_or_empty() }),
                ..old(self).w3c()
            }),
    ;

    fn add_no_proxy(&mut self, arg: &str)
        ensures
            final(self).w3c() == (W3cView {
                proxy: Some(
                    ProxyView {
                        no_proxy: old(self).w3c().proxy_or_empty().no_proxy.push(arg@),
                        ..old(self).w3c().proxy_or_empty()
                    },
                ),
                ..old(self).w3c()
            }),
    ;

    fn set_socks_version(&mut self, arg: u8)
        ensures
            final(self).w3c() == (W3cView {
                proxy: Some(ProxyView { socks_version: arg, ..old(self).w3c().proxy_or_empty() }),
                ..old(self).w3c()
            }),
    ;

    /// Sets the timeout for the evaluation of scripts, in milliseconds.
    fn set_timeouts_script(&mut self, arg: u32)
        ensures
            final(self).w3c() == (W3cView {
                timeouts: Some(Timeouts { script: arg, ..old(self).w3c().timeouts_or_default() }),
                ..old(self).w3c()
            }),
    ;

    /// Sets the timeout for the loading of pages, in milliseconds.
    fn set_timeouts_page_load(&mut self, arg: u32)
        ensures
            final(self).w3c() == (W3cView {
                timeouts: Some(Timeouts { page_load: arg, ..old(self).w3c().timeouts_or_default() }),
                ..old(self).w3c()
            }),
    ;

    /// Sets the timeout for the location of elements, in milliseconds.
    fn set_timeouts_implicit(&mut self, arg: u32)
        ensures
            final(self).w3c() == (W3cView {
                timeouts: Some(Timeouts { implicit: arg, ..old(self).w3c().timeouts_or_default() }),
                ..old(self).w3c()
            }),
    ;
}

/// Setters for a request of standard capabilities.
pub trait W3cCapRequSetter: Sized {
    /// The records of capabilities that the request is made of.
    type Capa: W3cCapaGetter;

    /// The capabilities that must match.
    spec fn always(&self) -> Self::Capa;

    /// The capabilities of which one set must match, in order.
    spec fn first(&self) -> Seq<Self::Capa>;

    /// Makes the standard capabilities of `other` those that must match,
    /// and removes every alternative that conflicts with them.
    fn mandate_as_w3c<G: W3cCapaGetter>(&mut self, other: &G)
        ensures
            final(self).always().w3c() == other.w3c(),
            final(self).first() == purged(old(self).first(), other.w3c()),
    ;

    /// Adds the standard capabilities of `other` to the alternatives,
    /// unless they conflict with those that must match.
    fn allow_as_w3c<G: W3cCapaGetter>(&mut self, other: &G) -> (ret: &mut Self)
        ensures
            ret.always() == old(self).always(),
            conflict_w3c(old(self).always().w3c(), other.w3c()) ==> ret.first() == old(
                self,
            ).first(),
            !conflict_w3c(old(self).always().w3c(), other.w3c()) ==> ret.first().len() == old(
                self,
            ).first().len() + 1 && ret.first().drop_last() == old(self).first()
                && ret.first().last().w3c() == other.w3c(),
            *final(self) == *final(ret),
    ;
}

/// The alternatives without those that conflict with `always` in their
/// standard capabilities.
pub open spec fn purged<C: W3cCapaGetter>(first: Seq<C>, always: W3cView) -> Seq<C>
    decreases first.len(),
{
    if first.len() == 0 {
        Seq::empty()
    } else if conflict_w3c(always, first.first().w3c()) {
        purged(first.drop_first(), always)
    } else {
        seq![first.first()] + purged(first.drop_first(), always)
    }
}

/// Whether no alternative conflicts with what must match.
pub open spec fn no_conflict<C: W3cCapaGetter>(always: W3cView, first: Seq<C>) -> bool {
    forall|i: int| 0 <= i < first.len() ==> !conflict_w3c(always, (#[trigger] first[i]).w3c())
}

/// What is left after a purge is a part of what there was, and none of it
/// conflicts with what must match; a purge of alternatives of which none
/// conflicts leaves them as they are.
pub proof fn lemma_purged<C: W3cCapaGetter>(first: Seq<C>, always: W3cView)
    ensures
        no_conflict(always, purged(first, always)),
        purged(first, always).len() <= first.len(),
        forall|i: int|
            0 <= i < purged(first, always).len() ==> first.contains(
                #[trigger] purged(first, always)[i],
            ),
        no_conflict(always, first) ==> purged(first, always) == first,
    decreases first.len(),
{
    if first.len() > 0 {
        let rest = first.drop_first();
        lemma_purged(rest, always);
        let p = purged(first, always);
        assert forall|i: int| 0 <= i < p.len() implies first.contains(#[trigger] p[i]) by {
            if conflict_w3c(always, first.first().w3c()) {
                let j = choose|j: int| 0 <= j < rest.len() && rest[j] == p[i];
                assert(first[j + 1] == p[i]);
            } else if i == 0 {
                assert(first[0] == p[i]);
            } else {
                let j = choose|j: int| 0 <= j < rest.len() && rest[j] == purged(rest, always)[i - 1];
                assert(first[j + 1] == p[i]);
            }
        }
        if no_conflict(always, first) {
            assert(!conflict_w3c(always, first[0].w3c()));
            assert forall|i: int| 0 <= i < rest.len() implies !conflict_w3c(
                always,
                (#[trigger] rest[i]).w3c(),
            ) by {
                assert(rest[i] == first[i + 1]);
            }
            assert(seq![first.first()] + rest =~= first);
        }
    }
}

/// An alternative that does not conflict with what must match, added to
/// alternatives of which none conflicts, leaves none that conflicts.
pub proof fn lemma_allowed_keeps_free<C: W3cCapaGetter>(always: W3cView, first: Seq<C>, other: C)
    requires
        no_conflict(always, first),
        !conflict_w3c(always, other.w3c()),
    ensures
        no_conflict(always, first.push(other)),
{
    assert forall|i: int| 0 <= i < first.push(other).len() implies !conflict_w3c(
        always,
        (#[trigger] first.push(other)[i]).w3c(),
    ) by {
        if i < first.len() {
            assert(first.push(other)[i] == first[i]);
        }
    }
}

/// Capability conflict: where what must match and an alternative both
/// specify a browser name, they conflict, so that a purge removes the
/// alternative.
pub proof fn lemma_browser_names_conflict<C: W3cCapaGetter>(always: W3cView, other: C)
    requires
        always.browser_name.is_some(),
        other.w3c().browser_name.is_some(),
    ensures
        conflict_w3c(always, other.w3c()),
        purged(seq![other], always) == Seq::<C>::empty(),
{
    let s = seq![other];
    assert(s.len() == 1 && s.first() == other);
    assert(s.drop_first() =~= Seq::<C>::empty());
    assert(purged(s.drop_first(), always) =~= Seq::<C>::empty());
}

/// Removes from `first` every record that conflicts with `always` in its
/// standard capabilities.
pub fn purge_as_w3c<C: W3cCapaGetter>(first: &mut Vec<C>, always: &impl W3cCapaGetter)
    ensures
        final(first)@ == purged(old(first)@, always.w3c()),
{
    let ghost before = first@;
    let ghost goal = purged(before, always.w3c());
    let ghost mut k: int = 0;
    let mut i: usize = 0;
    proof {
        assert(before.skip(0) =~= before);
        assert(first@.take(0) + goal =~= goal);
    }
    while i < first.len()
        invariant
            0 <= i <= first@.len(),
            0 <= k <= before.len(),
            first@.len() - i == before.len() - k,
            first@.skip(i as int) == before.skip(k),
            goal == first@.take(i as int) + purged(before.skip(k), always.w3c()),
        decreases first@.len() - i,
    {
        proof {
            assert(before.skip(k).first() == first@[i as int]);
            assert(before.skip(k).drop_first() =~= before.skip(k + 1));
        }
        if conflict_getters(always, &first[i]) {
            let ghost prev = first@;
            first.remove(i);
            proof {
                assert(first@.take(i as int) =~= prev.take(i as int));
                assert(first@.skip(i as int) =~= prev.skip(i + 1));
                assert(prev.skip(i + 1) =~= prev.skip(i as int).drop_first());
            }
        } else {
            proof {
                assert(first@.take(i + 1) =~= first@.take(i as int) + seq![first@[i as int]]);
                assert(first@.skip(i + 1) =~= first@.skip(i as int).drop_first());
                assert(first@.take(i as int) + (seq![first@[i as int]] + purged(
                    before.skip(k + 1),
                    always.w3c(),
                )) =~= first@.take(i + 1) + purged(before.skip(k + 1), always.w3c()));
            }
            i = i + 1;
        }
        proof {
            k = k + 1;
        }
    }
    proof {
        assert(before.skip(k) =~= Seq::<C>::empty());
        assert(first@.take(i as int) =~= first@);
        assert(first@ + Seq::<C>::empty() =~= first@);
    }
}

/// Whether two records conflict in their standard capabilities.
pub fn conflict_getters(a: &impl W3cCapaGetter, b: &impl W3cCapaGetter) -> (r: bool)
    ensures
        r == conflict_w3c(a.w3c(), b.w3c()),
{
    (a.browser_name().is_some() && b.browser_name().is_some()) || (a.browser_version().is_some()
        && b.browser_version().is_some()) || (a.platform_name().is_some()
        && b.platform_name().is_some()) || (a.accept_insecure_certs().is_some()
        && b.accept_insecure_certs().is_some()) || (a.page_load_strategy().is_some()
        && b.page_load_strategy().is_some()) || (a.proxy_type().is_some()
        && b.proxy_type().is_some()) || (a.window_rect().is_some() && b.window_rect().is_some())
        || (a.timeouts_script().is_some() && b.timeouts_script().is_some()) || (
    a.strict_file_interactability().is_some() && b.strict_file_interactability().is_some()) || (
    a.unhandled_prompt_behavior().is_some() && b.unhandled_prompt_behavior().is_some())
}

/// Getters for the result of the creation of a session.
pub trait W3cSessResultGetter {
    /// The id of the session.
    spec fn session_id_view(&self) -> Seq<char>;

    /// The WebSocket URL of the session, where it has one.
    spec fn wsurl_view(&self) -> Option<Seq<char>>;

    fn session_id(&self) -> (r: &str)
        ensures
            r@ == self.session_id_view(),
    ;

    fn wsurl(&self) -> (r: Option<&str>)
        ensures
            opt_text(r) == self.wsurl_view(),
    ;
}

} // verus!
