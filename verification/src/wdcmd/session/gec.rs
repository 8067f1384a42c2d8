//! Firefox and GeckoDriver: the capabilities that are Firefox's own, the
//! request for them, and the result of creating a session.

use vstd::prelude::*;
use crate::json::{
    as_opt_str, bool_field, borrowed_list, entry, json_opt_str, json_opt_texts,
    members_view, need, opt_entry, opt_str_json, opt_string, opt_strs, opt_text, opt_texts,
    opt_texts_json, owned, owned_list, put, put_opt, read_bool, read_text, read_u32, required,
    strs, text_field, texts, u32_field, DeError, Entries, Json, JsonView, Members, json_parsed,
};
use super::comm::{
    bidi_entry, collected, copy_w3c, inserted, pairs_view, prefs_members, proxy_entry, read_session_parts,
    read_w3c, session_parts, timeouts_entry, w3c_lead, w3c_parsed, CommCapRequ, CommCapa,
    CommSessResult, CommSessResultVal, NoAlien, PrefsView, VarValTypeMap,
};
use super::w3c::{
    conflict_getters, conflict_w3c, purge_as_w3c, W3cCapRequSetter, W3cCapaGetter,
    W3cCapaSetter, W3cView,
};

verus! {

/// The extension capabilities of Firefox.
#[derive(Debug)]
pub struct FirefoxSesExtCap {
    pub binary: Option<String>,
    pub args: Option<Vec<String>>,
    pub profile: Option<String>,
    pub prefs: Option<VarValTypeMap>,
}

/// What the extension capabilities of Firefox hold.
pub struct FirefoxExtView {
    pub binary: Option<Seq<char>>,
    pub args: Option<Seq<Seq<char>>>,
    pub profile: Option<Seq<char>>,
    pub prefs: Option<PrefsView>,
}

impl FirefoxExtView {
    /// The extension capabilities with every one absent.
    pub open spec fn empty() -> FirefoxExtView {
        FirefoxExtView { binary: None, args: None, profile: None, prefs: None }
    }

    /// Whether every extension capability is absent.
    pub open spec fn is_insig(self) -> bool {
        self == FirefoxExtView::empty()
    }

    /// The extension capabilities with the preferences put in one by one,
    /// which brings them into the order of their names.
    pub open spec fn ordered(self) -> FirefoxExtView {
        FirefoxExtView {
            prefs: match self.prefs {
                Some(m) => Some(collected(m)),
                None => None,
            },
            ..self
        }
    }
}

impl View for FirefoxSesExtCap {
    type V = FirefoxExtView;

    open spec fn view(&self) -> FirefoxExtView {
        FirefoxExtView {
            binary: opt_string(self.binary),
            args: opt_texts(self.args),
            profile: opt_string(self.profile),
            prefs: match self.prefs {
                Some(p) => Some(p@),
                None => None,
            },
        }
    }
}

impl Default for FirefoxSesExtCap {
    fn default() -> (r: Self)
        ensures
            r@ == FirefoxExtView::empty(),
    {
        FirefoxSesExtCap { binary: None, args: None, profile: None, prefs: None }
    }
}

/// The additional capabilities of Firefox: none so far.
#[derive(Debug)]
pub struct FirefoxSesAddCap {}

impl Default for FirefoxSesAddCap {
    fn default() -> (r: Self) {
        FirefoxSesAddCap {  }
    }
}

/// The capabilities of a Firefox session.
pub type FirefoxCapa = CommCapa<FirefoxSesExtCap, FirefoxSesAddCap>;

/// The request for the capabilities of a Firefox session.
pub type GeckoCapRequ = CommCapRequ<FirefoxCapa>;

/// The result of creating a session with GeckoDriver.
pub type GeckoSessResult = CommSessResult<FirefoxCapa>;

/// Optional names and values, borrowed, as the characters they hold.
pub open spec fn opt_pairs(r: Option<Vec<(&str, &str)>>) -> Option<PrefsView> {
    match r {
        Some(v) => Some(pairs_view(v@)),
        None => None,
    }
}

/// Whether two records conflict: in their standard capabilities, or in
/// that both specify a binary, arguments, or a profile.
pub open spec fn conflict_firefox(
    aw: W3cView,
    af: FirefoxExtView,
    bw: W3cView,
    bf: FirefoxExtView,
) -> bool {
    ||| conflict_w3c(aw, bw)
    ||| af.binary.is_some() && bf.binary.is_some()
    ||| af.args.is_some() && bf.args.is_some()
    ||| af.profile.is_some() && bf.profile.is_some()
}

/// Getters for the capabilities that are Firefox's own.
pub trait FirefoxCapaGetter {
    /// The extension capabilities that the value holds.
    spec fn firefox(&self) -> FirefoxExtView;

    fn binary(&self) -> (r: Option<&str>)
        ensures
            opt_text(r) == self.firefox().binary,
    ;

    fn args(&self) -> (r: Option<Vec<&str>>)
        ensures
            opt_strs(r) == self.firefox().args,
    ;

    fn profile(&self) -> (r: Option<&str>)
        ensures
            opt_text(r) == self.firefox().profile,
    ;

    /// The preferences: names and values, in the order of the names.
    fn prefs(&self) -> (r: Option<Vec<(&str, &str)>>)
        ensures
            opt_pairs(r) == self.firefox().prefs,
    ;

    /// The Android package, which no record holds so far.
    fn android_package(&self) -> (r: Option<&str>)
        ensures
            r.is_none(),
    ;

    /// Whether every extension capability is absent.
    fn is_insig(&self) -> (r: bool)
        ensures
            r == self.firefox().is_insig(),
    ;
}

/// Setters for the capabilities that are Firefox's own. Each leaves the
/// others as they are.
pub trait FirefoxCapaSetter: FirefoxCapaGetter {
    fn set_binary(&mut self, arg: &str)
        ensures
            final(self).firefox() == (FirefoxExtView { binary: Some(arg@), ..old(self).firefox() }),
    ;

    fn set_args(&mut self, arg: Vec<&str>)
        ensures
            final(self).firefox() == (FirefoxExtView {
                args: Some(strs(arg@)),
                ..old(self).firefox()
            }),
    ;

    /// Adds an argument behind those that are there.
    fn add_args(&mut self, arg: &str)
        ensures
            final(self).firefox() == (FirefoxExtView {
                args: Some(
                    match old(self).firefox().args {
                        Some(l) => l.push(arg@),
                        None => seq![arg@],
                    },
                ),
                ..old(self).firefox()
            }),
    ;

    fn set_profile(&mut self, arg: &str)
        ensures
            final(self).firefox() == (FirefoxExtView {
                profile: Some(arg@),
                ..old(self).firefox()
            }),
    ;

    fn set_profile_take(&mut self, arg: String)
        ensures
            final(self).firefox() == (FirefoxExtView {
                profile: Some(arg@),
                ..old(self).firefox()
            }),
    ;

    /// Sets the preferences to the names and values of `arg`, of which a
    /// later one takes the place of an earlier one with its name.
    fn set_prefs(&mut self, arg: Vec<(&str, &str)>)
        ensures
            final(self).firefox() == (FirefoxExtView {
                prefs: Some(collected(pairs_view(arg@))),
                ..old(self).firefox()
            }),
    ;

    /// Puts one preference among those that are there.
    fn add_prefs(&mut self, key: &str, value: &str)
        ensures
            final(self).firefox() == (FirefoxExtView {
                prefs: Some(
                    inserted(
                        match old(self).firefox().prefs {
                            Some(m) => m,
                            None => Seq::empty(),
                        },
                        key@,
                        value@,
                    ),
                ),
                ..old(self).firefox()
            }),
    ;

    /// Sets the Android package, which no record holds so far.
    fn set_android_package(&mut self, arg: &str)
        ensures
            final(self).firefox() == old(self).firefox(),
    ;
}

impl FirefoxCapaGetter for FirefoxCapa {
    open spec fn firefox(&self) -> FirefoxExtView {
        self.ext@
    }

    fn binary(&self) -> (r: Option<&str>) {
        as_opt_str(&self.ext.binary)
    }

    fn args(&self) -> (r: Option<Vec<&str>>) {
        match &self.ext.args {
            None => None,
            Some(v) => Some(borrowed_list(v)),
        }
    }

    fn profile(&self) -> (r: Option<&str>) {
        as_opt_str(&self.ext.profile)
    }

    fn prefs(&self) -> (r: Option<Vec<(&str, &str)>>) {
        match &self.ext.prefs {
            None => None,
            Some(v) => Some(v.pairs()),
        }
    }

    fn android_package(&self) -> (r: Option<&str>) {
        None
    }

    fn is_insig(&self) -> (r: bool) {
        self.ext.binary.is_none() && self.ext.args.is_none() && self.ext.profile.is_none()
            && self.ext.prefs.is_none()
    }
}

impl FirefoxCapaSetter for FirefoxCapa {
    fn set_binary(&mut self, arg: &str)
        ensures
            final(self).w3c() == old(self).w3c(),
    {
        self.ext.binary = Some(owned(arg));
    }

    fn set_args(&mut self, arg: Vec<&str>)
        ensures
            final(self).w3c() == old(self).w3c(),
    {
        self.ext.args = Some(owned_list(&arg));
    }

    fn add_args(&mut self, arg: &str)
        ensures
            final(self).w3c() == old(self).w3c(),
    {
        let mut l = match self.ext.args.take() {
            Some(l) => l,
            None => Vec::new(),
        };
        let ghost before = texts(l@);
        l.push(owned(arg));
        assert(texts(l@) =~= before.push(arg@));
        assert(old(self).ext.args.is_none() ==> before.push(arg@) =~= seq![arg@]);
        self.ext.args = Some(l);
    }

    fn set_profile(&mut self, arg: &str)
        ensures
            final(self).w3c() == old(self).w3c(),
    {
        self.ext.profile = Some(owned(arg));
    }

    fn set_profile_take(&mut self, arg: String)
        ensures
            final(self).w3c() == old(self).w3c(),
    {
        self.ext.profile = Some(arg);
    }

    fn set_prefs(&mut self, arg: Vec<(&str, &str)>)
        ensures
            final(self).w3c() == old(self).w3c(),
    {
        self.ext.prefs = Some(VarValTypeMap::from_pairs(&arg));
    }

    fn add_prefs(&mut self, key: &str, value: &str)
        ensures
            final(self).w3c() == old(self).w3c(),
    {
        let mut m = match self.ext.prefs.take() {
            Some(m) => m,
            None => VarValTypeMap::new(),
        };
        m.insert(key, value);
        self.ext.prefs = Some(m);
    }

    fn set_android_package(&mut self, arg: &str)
        ensures
            *final(self) == *old(self),
    {
    }
}

impl FirefoxCapa {
    /// A record with the standard capabilities of `other`, and none that
    /// are Firefox's own.
    pub fn from_other_as_w3c(other: &impl W3cCapaGetter) -> (r: Self)
        ensures
            r.w3c() == other.w3c(),
            r.firefox() == FirefoxExtView::empty(),
    {
        let mut newme = Self::default();
        copy_w3c(&mut newme, other);
        newme
    }

    /// A record with the capabilities of `other`, the standard ones and
    /// Firefox's own, the preferences put in the order of their names.
    pub fn from_other(other: &(impl W3cCapaGetter + FirefoxCapaGetter)) -> (r: Self)
        ensures
            r.w3c() == other.w3c(),
            r.firefox() == other.firefox().ordered(),
    {
        let mut newme = Self::default();
        copy_w3c(&mut newme, other);
        if let Some(v) = other.binary() {
            newme.set_binary(v);
        }
        if let Some(v) = other.args() {
            newme.set_args(v);
        }
        if let Some(v) = other.profile() {
            newme.set_profile(v);
        }
        if let Some(v) = other.prefs() {
            newme.set_prefs(v);
        }
        newme
    }

    /// Whether the record conflicts with `other`: in the standard
    /// capabilities, or in that both specify a binary, arguments, or a
    /// profile.
    pub fn is_conflict_with(&self, other: &(impl W3cCapaGetter + FirefoxCapaGetter)) -> (r: bool)
        ensures
            r == conflict_firefox(self.w3c(), self.firefox(), other.w3c(), other.firefox()),
    {
        conflict_getters(self, other) || (self.binary().is_some() && other.binary().is_some()) || (
        self.args().is_some() && other.args().is_some()) || (self.profile().is_some()
            && other.profile().is_some())
    }

    /// Whether the record conflicts with `other` in the standard
    /// capabilities.
    pub fn is_conflict_with_as_w3c(&self, other: &impl W3cCapaGetter) -> (r: bool)
        ensures
            r == conflict_w3c(self.w3c(), other.w3c()),
    {
        conflict_getters(self, other)
    }
}


// ---------------------------------------------------------------- requests --

/// The alternatives without those that conflict with what must match, in
/// the standard capabilities or in Firefox's own.
pub open spec fn purged_firefox(first: Seq<FirefoxCapa>, aw: W3cView, af: FirefoxExtView) -> Seq<
    FirefoxCapa,
>
    decreases first.len(),
{
    if first.len() == 0 {
        Seq::empty()
    } else if conflict_firefox(aw, af, first.first().w3c(), first.first().firefox()) {
        purged_firefox(first.drop_first(), aw, af)
    } else {
        seq![first.first()] + purged_firefox(first.drop_first(), aw, af)
    }
}

fn purge_firefox(first: &mut Vec<FirefoxCapa>, always: &FirefoxCapa)
    ensures
        final(first)@ == purged_firefox(old(first)@, always.w3c(), always.firefox()),
{
    let ghost before = first@;
    let ghost goal = purged_firefox(before, always.w3c(), always.firefox());
    let ghost mut k: int = 0;
    let mut i: usize = 0;
    proof {
        assert(before.skip(0) =~= before);
        assert(first@.take(0) + goal =~= goal);
    }
    while i < first.len()
        invariant
            0 <= i <= first@.len(),
            0 <= k <= before.len(),
            first@.len() - i == before.len() - k,
            first@.skip(i as int) == before.skip(k),
            goal == first@.take(i as int) + purged_firefox(
                before.skip(k),
                always.w3c(),
                always.firefox(),
            ),
        decreases first@.len() - i,
    {
        proof {
            assert(before.skip(k).first() == first@[i as int]);
            assert(before.skip(k).drop_first() =~= before.skip(k + 1));
        }
        if always.is_conflict_with(&first[i]) {
            let ghost prev = first@;
            first.remove(i);
            proof {
                assert(first@.take(i as int) =~= prev.take(i as int));
                assert(first@.skip(i as int) =~= prev.skip(i + 1));
                assert(prev.skip(i + 1) =~= prev.skip(i as int).drop_first());
            }
        } else {
            proof {
                assert(first@.take(i + 1) =~= first@.take(i as int) + seq![first@[i as int]]);
                assert(first@.skip(i + 1) =~= first@.skip(i as int).drop_first());
                assert(first@.take(i as int) + (seq![first@[i as int]] + purged_firefox(
                    before.skip(k + 1),
                    always.w3c(),
                    always.firefox(),
                )) =~= first@.take(i + 1) + purged_firefox(
                    before.skip(k + 1),
                    always.w3c(),
                    always.firefox(),
                ));
            }
            i = i + 1;
        }
        proof {
            k = k + 1;
        }
    }
    proof {
        assert(before.skip(k) =~= Seq::<FirefoxCapa>::empty());
        assert(first@.take(i as int) =~= first@);
        assert(first@ + Seq::<FirefoxCapa>::empty() =~= first@);
    }
}

impl W3cCapRequSetter for GeckoCapRequ {
    type Capa = FirefoxCapa;

    open spec fn always(&self) -> FirefoxCapa {
        self.always_match
    }

    open spec fn first(&self) -> Seq<FirefoxCapa> {
        self.first_match@
    }

    fn mandate_as_w3c<G: W3cCapaGetter>(&mut self, other: &G)
        ensures
            final(self).always_match.firefox() == FirefoxExtView::empty(),
    {
        self.always_match = FirefoxCapa::from_other_as_w3c(other);
        purge_as_w3c(&mut self.first_match, other);
    }

    fn allow_as_w3c<G: W3cCapaGetter>(&mut self, other: &G) -> (ret: &mut Self)
        ensures
            !conflict_w3c(old(self).always_match.w3c(), other.w3c()) ==> ret.first_match@.last().firefox()
                == FirefoxExtView::empty(),
    {
        if !self.always_match.is_conflict_with_as_w3c(other) {
            let newone = FirefoxCapa::from_other_as_w3c(other);
            let ghost before = self.first_match@;
            self.first_match.push(newone);
            assert(self.first_match@.drop_last() =~= before);
        }
        self
    }
}

/// Setters for a request of the capabilities of a Firefox session.
pub trait GeckoCapRequSetter: Sized {
    /// The capabilities that must match.
    spec fn gecko_always(&self) -> FirefoxCapa;

    /// The capabilities of which one set must match, in order.
    spec fn gecko_first(&self) -> Seq<FirefoxCapa>;

    /// Makes the capabilities of `other` those that must match, and
    /// removes every alternative that conflicts with them.
    fn mandate<G: FirefoxCapaGetter + W3cCapaGetter>(&mut self, other: &G)
        ensures
            final(self).gecko_always().w3c() == other.w3c(),
            final(self).gecko_always().firefox() == other.firefox().ordered(),
            final(self).gecko_first() == purged_firefox(
                old(self).gecko_first(),
                other.w3c(),
                other.firefox(),
            ),
    ;

    /// Adds the capabilities of `other` to the alternatives, unless they
    /// conflict with those that must match.
    fn allow<G: FirefoxCapaGetter + W3cCapaGetter>(&mut self, other: &G) -> (ret: &mut Self)
        ensures
            ret.gecko_always() == old(self).gecko_always(),
            conflict_firefox(
                old(self).gecko_always().w3c(),
                old(self).gecko_always().firefox(),
                other.w3c(),
                other.firefox(),
            ) ==> ret.gecko_first() == old(self).gecko_first(),
            !conflict_firefox(
                old(self).gecko_always().w3c(),
                old(self).gecko_always().firefox(),
                other.w3c(),
                other.firefox(),
            ) ==> ret.gecko_first().len() == old(self).gecko_first().len() + 1
                && ret.gecko_first().drop_last() == old(self).gecko_first()
                && ret.gecko_first().last().w3c() == other.w3c()
                && ret.gecko_first().last().firefox() == other.firefox().ordered(),
            *final(self) == *final(ret),
    ;
}

proof fn lemma_purged_firefox_same(first: Seq<FirefoxCapa>, aw: W3cView, a: FirefoxExtView, b: FirefoxExtView)
    requires
        a.binary.is_some() == b.binary.is_some(),
        a.args.is_some() == b.args.is_some(),
        a.profile.is_some() == b.profile.is_some(),
    ensures
        purged_firefox(first, aw, a) == purged_firefox(first, aw, b),
    decreases first.len(),
{
    if first.len() > 0 {
        lemma_purged_firefox_same(first.drop_first(), aw, a, b);
    }
}

impl GeckoCapRequSetter for GeckoCapRequ {
    open spec fn gecko_always(&self) -> FirefoxCapa {
        self.always_match
    }

    open spec fn gecko_first(&self) -> Seq<FirefoxCapa> {
        self.first_match@
    }

    fn mandate<G: FirefoxCapaGetter + W3cCapaGetter>(&mut self, other: &G) {
        self.always_match = FirefoxCapa::from_other(other);
        proof {
            lemma_purged_firefox_same(
                self.first_match@,
                other.w3c(),
                other.firefox().ordered(),
                other.firefox(),
            );
        }
        purge_firefox(&mut self.first_match, &self.always_match);
    }

    fn allow<G: FirefoxCapaGetter + W3cCapaGetter>(&mut self, other: &G) -> (ret: &mut Self) {
        if !self.always_match.is_conflict_with(other) {
            let newone = FirefoxCapa::from_other(other);
            let ghost before = self.first_match@;
            self.first_match.push(newone);
            assert(self.first_match@.drop_last() =~= before);
        }
        self
    }
}

// ----------------------------------------------------- capabilities as JSON --

/// The members that the extension capabilities of Firefox are written
/// with: each that is specified, under its wire key.
pub open spec fn firefox_ext_members(f: FirefoxExtView) -> Members {
    opt_entry("args"@, opt_texts_json(f.args)) + opt_entry("binary"@, opt_str_json(f.binary))
        + opt_entry("profile"@, opt_str_json(f.profile)) + opt_entry(
        "prefs"@,
        match f.prefs {
            Some(m) => Some(JsonView::Object(prefs_members(m))),
            None => None,
        },
    )
}

/// The members that the capabilities of a Firefox session are written
/// with in a request: the standard ones that a request carries, and the
/// extension capabilities under `moz:firefoxOptions` where any is
/// specified.
pub open spec fn firefox_members(w: W3cView, f: FirefoxExtView) -> Members {
    w3c_lead(w) + proxy_entry(w) + timeouts_entry(w) + bidi_entry(w) + opt_entry(
        "moz:firefoxOptions"@,
        if f.is_insig() {
            None
        } else {
            Some(JsonView::Object(firefox_ext_members(f)))
        },
    )
}

/// The capabilities of a Firefox session as they are written in a request.
pub open spec fn firefox_json(c: FirefoxCapa) -> JsonView {
    JsonView::Object(firefox_members(c.w3c(), c.firefox()))
}

/// A request for the capabilities of a Firefox session as it is written.
pub open spec fn gecko_request_json(always: FirefoxCapa, first: Seq<FirefoxCapa>) -> JsonView {
    JsonView::Object(
        entry("alwaysMatch"@, firefox_json(always)) + entry(
            "firstMatch"@,
            JsonView::Array(Seq::new(first.len(), |i: int| firefox_json(first[i]))),
        ),
    )
}

impl FirefoxSesExtCap {
    /// The extension capabilities as a JSON object.
    pub fn to_json(&self) -> (r: Json)
        ensures
            r@ == JsonView::Object(firefox_ext_members(self@)),
    {
        let mut m: Entries = Vec::new();
        assert(members_view(m@) =~= Seq::<(Seq<char>, JsonView)>::empty());
        put_opt(&mut m, "args", json_opt_texts(&self.args));
        put_opt(&mut m, "binary", json_opt_str(as_opt_str(&self.binary)));
        put_opt(&mut m, "profile", json_opt_str(as_opt_str(&self.profile)));
        put_opt(
            &mut m,
            "prefs",
            match &self.prefs {
                Some(p) => Some(p.to_json()),
                None => None,
            },
        );
        assert(members_view(m@) =~= firefox_ext_members(self@));
        Json::Object(m)
    }
}

impl FirefoxCapa {
    /// The capabilities as the JSON object that a request carries.
    pub fn to_json(&self) -> (r: Json)
        ensures
            r@ == firefox_json(*self),
    {
        let mut m: Entries = Vec::new();
        assert(members_view(m@) =~= Seq::<(Seq<char>, JsonView)>::empty());
        self.put_lead(&mut m);
        self.put_proxy(&mut m);
        self.put_timeouts(&mut m);
        self.put_bidi(&mut m);
        put_opt(
            &mut m,
            "moz:firefoxOptions",
            if self.is_insig() {
                None
            } else {
                Some(self.ext.to_json())
            },
        );
        assert(members_view(m@) =~= firefox_members(self.w3c(), self.firefox()));
        Json::Object(m)
    }
}

impl GeckoCapRequ {
    /// The request as the JSON object that is sent.
    pub fn to_json(&self) -> (r: Json)
        ensures
            r@ == gecko_request_json(self.always_match, self.first_match@),
    {
        let mut list: Vec<Json> = Vec::new();
        let mut i: usize = 0;
        while i < self.first_match.len()
            invariant
                0 <= i <= self.first_match@.len(),
                list@.len() == i,
                forall|k: int| 0 <= k < i ==> list@[k]@ == firefox_json(self.first_match@[k]),
            decreases self.first_match@.len() - i,
        {
            list.push(self.first_match[i].to_json());
            i = i + 1;
        }
        let arr = Json::Array(list);
        assert(arr@ == JsonView::Array(
            Seq::new(self.first_match@.len(), |i: int| firefox_json(self.first_match@[i])),
        )) by {
            assert(crate::json::items_view(list@) =~= Seq::new(
                self.first_match@.len(),
                |i: int| firefox_json(self.first_match@[i]),
            ));
        }
        let mut m: Entries = Vec::new();
        assert(members_view(m@) =~= Seq::<(Seq<char>, JsonView)>::empty());
        put(&mut m, "alwaysMatch", self.always_match.to_json());
        put(&mut m, "firstMatch", arr);
        assert(members_view(m@) =~= entry("alwaysMatch"@, firefox_json(self.always_match)) + entry(
            "firstMatch"@,
            JsonView::Array(
                Seq::new(self.first_match@.len(), |i: int| firefox_json(self.first_match@[i])),
            ),
        ));
        Json::Object(m)
    }
}

// -------------------------------------------------- capabilities of answers --

/// The capabilities that the members of GeckoDriver's answer denote.
///
/// The standard capabilities come first, the proxy record being free to be
/// missing. Of what is GeckoDriver's own, the record keeps the profile,
/// which must be there; the other known members must be of their types.
/// Members under unknown keys are passed over.
pub open spec fn firefox_parsed(m: Members) -> Result<(W3cView, FirefoxExtView), DeError> {
    let std = w3c_parsed(m, false);
    let checks = bool_field(m, "moz:accessibilityChecks"@);
    let build = text_field(m, "moz:buildID"@);
    let driver = text_field(m, "moz:geckodriverVersion"@);
    let headless = bool_field(m, "moz:headless"@);
    let pid = u32_field(m, "moz:processID"@);
    let profile = required(text_field(m, "moz:profile"@));
    let shutdown = u32_field(m, "moz:shutdownTimeout"@);
    let origin = bool_field(m, "moz:useNonSpecCompliantPointerOrigin"@);
    let click = bool_field(m, "moz:webdriverClick"@);
    let windowless = bool_field(m, "moz:windowless"@);
    if std is Err {
        Err(std->Err_0)
    } else if checks is Err {
        Err(checks->Err_0)
    } else if build is Err {
        Err(build->Err_0)
    } else if driver is Err {
        Err(driver->Err_0)
    } else if headless is Err {
        Err(headless->Err_0)
    } else if pid is Err {
        Err(pid->Err_0)
    } else if profile is Err {
        Err(profile->Err_0)
    } else if shutdown is Err {
        Err(shutdown->Err_0)
    } else if origin is Err {
        Err(origin->Err_0)
    } else if click is Err {
        Err(click->Err_0)
    } else if windowless is Err {
        Err(windowless->Err_0)
    } else {
        Ok((std->Ok_0, FirefoxExtView { profile: Some(profile->Ok_0), ..FirefoxExtView::empty() }))
    }
}

/// What GeckoDriver's answer to the creation of a session denotes: the id
/// of the session and the capabilities that were agreed on.
pub open spec fn gecko_session_parsed(j: JsonView) -> Result<
    (Seq<char>, W3cView, FirefoxExtView),
    DeError,
> {
    match j {
        JsonView::Object(top) => match session_parts(top) {
            Err(e) => Err(e),
            Ok(parts) => match firefox_parsed(parts.1) {
                Err(e) => Err(e),
                Ok(c) => Ok((parts.0, c.0, c.1)),
            },
        },
        _ => Err(DeError::Mismatch),
    }
}

/// Parsed capabilities as what they hold.
pub open spec fn parsed_firefox(r: Result<FirefoxCapa, DeError>) -> Result<
    (W3cView, FirefoxExtView),
    DeError,
> {
    match r {
        Ok(c) => Ok((c.w3c(), c.firefox())),
        Err(e) => Err(e),
    }
}

/// A parsed session result as what it holds.
pub open spec fn parsed_gecko_session(r: Result<GeckoSessResult, DeError>) -> Result<
    (Seq<char>, W3cView, FirefoxExtView),
    DeError,
> {
    match r {
        Ok(s) => Ok(
            (s.value.session_id@, s.value.capabilities.w3c(), s.value.capabilities.firefox()),
        ),
        Err(e) => Err(e),
    }
}

impl FirefoxCapa {
    /// Reads the capabilities from the members of GeckoDriver's answer.
    pub fn from_json(o: &Entries) -> (r: Result<FirefoxCapa, DeError>)
        ensures
            parsed_firefox(r) == firefox_parsed(members_view(o@)),
    {
        let std = match read_w3c(o, false) {
            Ok(v) => v,
            Err(e) => {
                return Err(e);
            },
        };
        if let Err(e) = read_bool(o, "moz:accessibilityChecks") {
            return Err(e);
        }
        if let Err(e) = read_text(o, "moz:buildID") {
            return Err(e);
        }
        if let Err(e) = read_text(o, "moz:geckodriverVersion") {
            return Err(e);
        }
        if let Err(e) = read_bool(o, "moz:headless") {
            return Err(e);
        }
        if let Err(e) = read_u32(o, "moz:processID") {
            return Err(e);
        }
        let profile = match need(read_text(o, "moz:profile")) {
            Ok(v) => v,
            Err(e) => {
                return Err(e);
            },
        };
        if let Err(e) = read_u32(o, "moz:shutdownTimeout") {
            return Err(e);
        }
        if let Err(e) = read_bool(o, "moz:useNonSpecCompliantPointerOrigin") {
            return Err(e);
        }
        if let Err(e) = read_bool(o, "moz:webdriverClick") {
            return Err(e);
        }
        if let Err(e) = read_bool(o, "moz:windowless") {
            return Err(e);
        }
        let ext = FirefoxSesExtCap {
            binary: None,
            args: None,
            profile: Some(owned(profile)),
            prefs: None,
        };
        Ok(CommCapa::with_parts(std, ext, FirefoxSesAddCap {  }, NoAlien))
    }
}

impl GeckoSessResult {
    /// Reads the result of creating a session from GeckoDriver's answer.
    pub fn from_json(j: &Json) -> (r: Result<GeckoSessResult, DeError>)
        ensures
            parsed_gecko_session(r) == gecko_session_parsed(j@),
    {
        let top = match j.members() {
            Ok(m) => m,
            Err(e) => {
                return Err(e);
            },
        };
        let (sid, caps) = match read_session_parts(top) {
            Ok(p) => p,
            Err(e) => {
                return Err(e);
            },
        };
        match FirefoxCapa::from_json(caps) {
            Ok(c) => Ok(
                CommSessResult {
                    value: CommSessResultVal { session_id: owned(sid), capabilities: c },
                },
            ),
            Err(e) => Err(e),
        }
    }

    /// Reads the result of creating a session from the body of
    /// GeckoDriver's answer.
    ///
    /// A key that the text repeats is not refused: the later of its values
    /// is read. The reader that starts from a value refuses a repeated key.
    pub fn from_bytes(body: &[u8]) -> (r: Result<GeckoSessResult, DeError>)
        ensures
            parsed_gecko_session(r) == match json_parsed(body@) {
                Some(j) => gecko_session_parsed(j),
                None => Err(DeError::Syntax),
            },
    {
        match Json::parse(body) {
            Ok(j) => Self::from_json(&j),
            Err(e) => Err(e),
        }
    }
}

} // verus!
