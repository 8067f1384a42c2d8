//! What every vendor's capabilities have in common: the record of
//! standard capabilities with room for a vendor's own, the proxy record,
//! the request for capabilities, and the result of creating a session.

use vstd::prelude::*;
use crate::json::{
    as_opt_str, bool_field, borrowed_list, entry, filled_str_json, json_filled_str, json_opt_bool,
    json_opt_str, json_str, json_texts, members_view, need, object_field, opt_bool_json, opt_entry,
    opt_str_json, opt_string, owned, owned_list, put, put_opt, read_bool, read_object,
    read_text, read_texts, read_u32, read_u8, required, same_text, text_field, texts, texts_field,
    texts_json, u32_field, u8_field, DeError, Entries, Json, JsonView, Members,
};
use crate::octets::{all_digits, dec_value, parse_decimal, utf8};
use super::w3c::{
    ProxyView, Timeouts, W3cCapaGetter, W3cCapaSetter, W3cSessResultGetter, W3cView,
};

verus! {

// ------------------------------------------------------------------- proxy --

/// A proxy record. An empty text or list, and the version 0, stand for a
/// field that is not set.
#[derive(Debug)]
pub struct Proxy {
    pub proxy_type: String,
    pub proxy_autoconfig_url: String,
    pub ftp_proxy: String,
    pub http_proxy: String,
    pub no_proxy: Vec<String>,
    pub ssl_proxy: String,
    pub socks_proxy: String,
    pub socks_version: u8,
}

impl View for Proxy {
    type V = ProxyView;

    open spec fn view(&self) -> ProxyView {
        ProxyView {
            proxy_type: self.proxy_type@,
            proxy_autoconfig_url: self.proxy_autoconfig_url@,
            ftp_proxy: self.ftp_proxy@,
            http_proxy: self.http_proxy@,
            no_proxy: texts(self.no_proxy@),
            ssl_proxy: self.ssl_proxy@,
            socks_proxy: self.socks_proxy@,
            socks_version: self.socks_version,
        }
    }
}

/// The members that a proxy record is written with: each field that is
/// set, under its wire key.
pub open spec fn proxy_members(p: ProxyView) -> Members {
    opt_entry("proxyType"@, filled_str_json(p.proxy_type)) + opt_entry(
        "proxyAutoconfigUrl"@,
        filled_str_json(p.proxy_autoconfig_url),
    ) + opt_entry("ftpProxy"@, filled_str_json(p.ftp_proxy)) + opt_entry(
        "httpProxy"@,
        filled_str_json(p.http_proxy),
    ) + opt_entry(
        "noProxy"@,
        if p.no_proxy.len() != 0 {
            Some(texts_json(p.no_proxy))
        } else {
            None
        },
    ) + opt_entry("sslProxy"@, filled_str_json(p.ssl_proxy)) + opt_entry(
        "socksProxy"@,
        filled_str_json(p.socks_proxy),
    ) + opt_entry(
        "socksVersion"@,
        if p.socks_version != 0 {
            Some(JsonView::UInt(p.socks_version as u64))
        } else {
            None
        },
    )
}

/// A text that was read, or the empty text where there was none.
pub open spec fn text_or_empty(r: Result<Option<Seq<char>>, DeError>) -> Seq<char> {
    match r {
        Ok(Some(s)) => s,
        _ => Seq::empty(),
    }
}

/// The proxy record that the members of an object denote. Each field may
/// be missing, and is then not set.
pub open spec fn proxy_parsed(m: Members) -> Result<ProxyView, DeError> {
    let ptype = text_field(m, "proxyType"@);
    let pauto = text_field(m, "proxyAutoconfigUrl"@);
    let ftpp = text_field(m, "ftpProxy"@);
    let httpp = text_field(m, "httpProxy"@);
    let npxy = texts_field(m, "noProxy"@);
    let sslp = text_field(m, "sslProxy"@);
    let socksp = text_field(m, "socksProxy"@);
    let socksv = u8_field(m, "socksVersion"@);
    if ptype is Err {
        Err(ptype->Err_0)
    } else if pauto is Err {
        Err(pauto->Err_0)
    } else if ftpp is Err {
        Err(ftpp->Err_0)
    } else if httpp is Err {
        Err(httpp->Err_0)
    } else if npxy is Err {
        Err(npxy->Err_0)
    } else if sslp is Err {
        Err(sslp->Err_0)
    } else if socksp is Err {
        Err(socksp->Err_0)
    } else if socksv is Err {
        Err(socksv->Err_0)
    } else {
        Ok(
            ProxyView {
                proxy_type: text_or_empty(ptype),
                proxy_autoconfig_url: text_or_empty(pauto),
                ftp_proxy: text_or_empty(ftpp),
                http_proxy: text_or_empty(httpp),
                no_proxy: match npxy {
                    Ok(Some(l)) => l,
                    _ => Seq::empty(),
                },
                ssl_proxy: text_or_empty(sslp),
                socks_proxy: text_or_empty(socksp),
                socks_version: match socksv {
                    Ok(Some(v)) => v,
                    _ => 0,
                },
            },
        )
    }
}

/// A parsed record as what it holds.
pub open spec fn parsed_proxy(r: Result<Proxy, DeError>) -> Result<ProxyView, DeError> {
    match r {
        Ok(p) => Ok(p@),
        Err(e) => Err(e),
    }
}

fn text_or_new(t: Option<&str>) -> (r: String)
    ensures
        r@ == match t {
            Some(s) => s@,
            None => Seq::<char>::empty(),
        },
{
    match t {
        Some(s) => owned(s),
        None => String::new(),
    }
}

impl Proxy {
    /// The proxy record with no field set.
    pub fn empty() -> (r: Self)
        ensures
            r@ == ProxyView::empty(),
    {
        let r = Proxy {
            proxy_type: String::new(),
            proxy_autoconfig_url: String::new(),
            ftp_proxy: String::new(),
            http_proxy: String::new(),
            no_proxy: Vec::new(),
            ssl_proxy: String::new(),
            socks_proxy: String::new(),
            socks_version: 0,
        };
        assert(texts(r.no_proxy@) =~= Seq::<Seq<char>>::empty());
        r
    }

    /// The record as a JSON object: each field that is set, under its
    /// wire key.
    pub fn to_json(&self) -> (r: Json)
        ensures
            r@ == JsonView::Object(proxy_members(self@)),
    {
        let mut m: Entries = Vec::new();
        assert(members_view(m@) =~= Seq::<(Seq<char>, JsonView)>::empty());
        put_opt(&mut m, "proxyType", json_filled_str(self.proxy_type.as_str()));
        put_opt(&mut m, "proxyAutoconfigUrl", json_filled_str(self.proxy_autoconfig_url.as_str()));
        put_opt(&mut m, "ftpProxy", json_filled_str(self.ftp_proxy.as_str()));
        put_opt(&mut m, "httpProxy", json_filled_str(self.http_proxy.as_str()));
        put_opt(
            &mut m,
            "noProxy",
            if self.no_proxy.len() != 0 {
                Some(json_texts(&self.no_proxy))
            } else {
                None
            },
        );
        put_opt(&mut m, "sslProxy", json_filled_str(self.ssl_proxy.as_str()));
        put_opt(&mut m, "socksProxy", json_filled_str(self.socks_proxy.as_str()));
        put_opt(
            &mut m,
            "socksVersion",
            if self.socks_version != 0 {
                Some(Json::UInt(self.socks_version as u64))
            } else {
                None
            },
        );
        assert(members_view(m@) =~= proxy_members(self@));
        Json::Object(m)
    }

    /// Reads a proxy record from the members of an object.
    pub fn from_json(o: &Entries) -> (r: Result<Proxy, DeError>)
        ensures
            parsed_proxy(r) == proxy_parsed(members_view(o@)),
    {
        let ptype = match read_text(o, "proxyType") {
            Ok(v) => v,
            Err(e) => {
                return Err(e);
            },
        };
        let pauto = match read_text(o, "proxyAutoconfigUrl") {
            Ok(v) => v,
            Err(e) => {
                return Err(e);
            },
        };
        let ftpp = match read_text(o, "ftpProxy") {
            Ok(v) => v,
            Err(e) => {
                return Err(e);
            },
        };
        let httpp = match read_text(o, "httpProxy") {
            Ok(v) => v,
            Err(e) => {
                return Err(e);
            },
        };
        let npxy = match read_texts(o, "noProxy") {
            Ok(v) => v,
            Err(e) => {
                return Err(e);
            },
        };
        let sslp = match read_text(o, "sslProxy") {
            Ok(v) => v,
            Err(e) => {
                return Err(e);
            },
        };
        let socksp = match read_text(o, "socksProxy") {
            Ok(v) => v,
            Err(e) => {
                return Err(e);
            },
        };
        let socksv = match read_u8(o, "socksVersion") {
            Ok(v) => v,
            Err(e) => {
                return Err(e);
            },
        };
        let no_proxy = match npxy {
            Some(l) => l,
            None => Vec::new(),
        };
        assert(npxy.is_none() ==> texts(no_proxy@) =~= Seq::<Seq<char>>::empty());
        Ok(
            Proxy {
                proxy_type: text_or_new(ptype),
                proxy_autoconfig_url: text_or_new(pauto),
                ftp_proxy: text_or_new(ftpp),
                http_proxy: text_or_new(httpp),
                no_proxy,
                ssl_proxy: text_or_new(sslp),
                socks_proxy: text_or_new(socksp),
                socks_version: match socksv {
                    Some(v) => v,
                    None => 0,
                },
            },
        )
    }
}

// ---------------------------------------------------------------- timeouts --

/// The members that timeouts are written with.
pub open spec fn timeouts_members(t: Timeouts) -> Members {
    entry("script"@, JsonView::UInt(t.script as u64)) + entry(
        "pageLoad"@,
        JsonView::UInt(t.page_load as u64),
    ) + entry("implicit"@, JsonView::UInt(t.implicit as u64))
}

/// A number that was read, or 0 where there was none.
pub open spec fn u32_or_zero(r: Result<Option<u32>, DeError>) -> u32 {
    match r {
        Ok(Some(v)) => v,
        _ => 0,
    }
}

/// The timeouts that the members of an object denote. Each may be
/// missing, and is then 0.
pub open spec fn timeouts_parsed(m: Members) -> Result<Timeouts, DeError> {
    let script = u32_field(m, "script"@);
    let page_load = u32_field(m, "pageLoad"@);
    let implicit = u32_field(m, "implicit"@);
    if script is Err {
        Err(script->Err_0)
    } else if page_load is Err {
        Err(page_load->Err_0)
    } else if implicit is Err {
        Err(implicit->Err_0)
    } else {
        Ok(
            Timeouts {
                script: u32_or_zero(script),
                page_load: u32_or_zero(page_load),
                implicit: u32_or_zero(implicit),
            },
        )
    }
}

impl Timeouts {
    /// The timeouts as a JSON object.
    pub fn to_json(&self) -> (r: Json)
        ensures
            r@ == JsonView::Object(timeouts_members(*self)),
    {
        let mut m: Entries = Vec::new();
        assert(members_view(m@) =~= Seq::<(Seq<char>, JsonView)>::empty());
        put(&mut m, "script", Json::UInt(self.script as u64));
        put(&mut m, "pageLoad", Json::UInt(self.page_load as u64));
        put(&mut m, "implicit", Json::UInt(self.implicit as u64));
        assert(members_view(m@) =~= timeouts_members(*self));
        Json::Object(m)
    }

    /// Reads timeouts from the members of an object.
    pub fn from_json(o: &Entries) -> (r: Result<Timeouts, DeError>)
        ensures
            r == timeouts_parsed(members_view(o@)),
    {
        let script = match read_u32(o, "script") {
            Ok(v) => v,
            Err(e) => {
                return Err(e);
            },
        };
        let page_load = match read_u32(o, "pageLoad") {
            Ok(v) => v,
            Err(e) => {
                return Err(e);
            },
        };
        let implicit = match read_u32(o, "implicit") {
            Ok(v) => v,
            Err(e) => {
                return Err(e);
            },
        };
        Ok(
            Timeouts {
                script: match script {
                    Some(v) => v,
                    None => 0,
                },
                page_load: match page_load {
                    Some(v) => v,
                    None => 0,
                },
                implicit: match implicit {
                    Some(v) => v,
                    None => 0,
                },
            },
        )
    }
}

// ------------------------------------------------------------ capabilities --

/// The vendor's part of a record where the vendor has none.
#[derive(Debug)]
pub struct NoAlien;

impl Default for NoAlien {
    fn default() -> (r: Self) {
        NoAlien
    }
}

/// The capabilities of a session: the standard ones, and three parts that
/// a vendor fills: its extension capabilities `ext`, its additional
/// capabilities `add`, and `alien`, what only its answers hold.
#[derive(Debug)]
pub struct CommCapa<X, A, L = NoAlien> {
    pub browser_name: Option<String>,
    pub browser_version: Option<String>,
    pub platform_name: Option<String>,
    pub accept_insecure_certs: Option<bool>,
    pub page_load_strategy: Option<String>,
    pub proxy: Option<Proxy>,
    pub window_rect: Option<bool>,
    pub timeouts: Option<Timeouts>,
    pub strict_file_interactability: Option<bool>,
    pub unhandled_prompt_behavior: Option<String>,
    pub wsurl: Option<String>,
    pub ext: X,
    pub add: A,
    pub alien: L,
}

impl<X: Default, A: Default, L: Default> Default for CommCapa<X, A, L> {
    fn default() -> (r: Self)
        ensures
            r.w3c() == W3cView::empty(),
            call_ensures(X::default, (), r.ext),
            call_ensures(A::default, (), r.add),
            call_ensures(L::default, (), r.alien),
    {
        CommCapa {
            browser_name: None,
            browser_version: None,
            platform_name: None,
            accept_insecure_certs: None,
            page_load_strategy: None,
            proxy: None,
            window_rect: None,
            timeouts: None,
            strict_file_interactability: None,
            unhandled_prompt_behavior: None,
            wsurl: None,
            ext: X::default(),
            add: A::default(),
            alien: L::default(),
        }
    }
}

impl<X, A, L> CommCapa<X, A, L> {
    fn proxy_mut(&mut self) -> (ret: &mut Proxy)
        ensures
            ret@ == old(self).w3c().proxy_or_empty(),
            final(self).w3c() == (W3cView { proxy: Some(final(ret)@), ..old(self).w3c() }),
            final(self).ext == old(self).ext,
            final(self).add == old(self).add,
            final(self).alien == old(self).alien,
    {
        if self.proxy.is_none() {
            self.proxy = Some(Proxy::empty());
        }
        match &mut self.proxy {
            Some(p) => p,
            None => vstd::pervasive::unreached(),
        }
    }
}

impl<X, A, L> W3cCapaGetter for CommCapa<X, A, L> {
    open spec fn w3c(&self) -> W3cView {
        W3cView {
            browser_name: opt_string(self.browser_name),
            browser_version: opt_string(self.browser_version),
            platform_name: opt_string(self.platform_name),
            accept_insecure_certs: self.accept_insecure_certs,
            page_load_strategy: opt_string(self.page_load_strategy),
            proxy: match self.proxy {
                Some(p) => Some(p@),
                None => None,
            },
            window_rect: self.window_rect,
            timeouts: self.timeouts,
            strict_file_interactability: self.strict_file_interactability,
            unhandled_prompt_behavior: opt_string(self.unhandled_prompt_behavior),
            wsurl: opt_string(self.wsurl),
        }
    }

    fn browser_name(&self) -> (r: Option<&str>) {
        as_opt_str(&self.browser_name)
    }

    fn browser_version(&self) -> (r: Option<&str>) {
        as_opt_str(&self.browser_version)
    }

    fn platform_name(&self) -> (r: Option<&str>) {
        as_opt_str(&self.platform_name)
    }

    fn page_load_strategy(&self) -> (r: Option<&str>) {
        as_opt_str(&self.page_load_strategy)
    }

    fn unhandled_prompt_behavior(&self) -> (r: Option<&str>) {
        as_opt_str(&self.unhandled_prompt_behavior)
    }

    fn wsurl(&self) -> (r: Option<&str>) {
        as_opt_str(&self.wsurl)
    }

    fn accept_insecure_certs(&self) -> (r: Option<bool>) {
        self.accept_insecure_certs
    }

    fn window_rect(&self) -> (r: Option<bool>) {
        self.window_rect
    }

    fn strict_file_interactability(&self) -> (r: Option<bool>) {
        self.strict_file_interactability
    }

    fn proxy_type(&self) -> (r: Option<&str>) {
        match &self.proxy {
            None => None,
            Some(v) => Some(v.proxy_type.as_str()),
        }
    }

    fn proxy_autoconfig_url(&self) -> (r: Option<&str>) {
        match &self.proxy {
            None => None,
            Some(v) => Some(v.proxy_autoconfig_url.as_str()),
        }
    }

    fn ftp_proxy(&self) -> (r: Option<&str>) {
        match &self.proxy {
            None => None,
            Some(v) => Some(v.ftp_proxy.as_str()),
        }
    }

    fn http_proxy(&self) -> (r: Option<&str>) {
        match &self.proxy {
            None => None,
            Some(v) => Some(v.http_proxy.as_str()),
        }
    }

    fn ssl_proxy(&self) -> (r: Option<&str>) {
        match &self.proxy {
            None => None,
            Some(v) => Some(v.ssl_proxy.as_str()),
        }
    }

    fn socks_proxy(&self) -> (r: Option<&str>) {
        match &self.proxy {
            None => None,
            Some(v) => Some(v.socks_proxy.as_str()),
        }
    }

    fn no_proxy(&self) -> (r: Option<Vec<&str>>) {
        match &self.proxy {
            None => None,
            Some(v) => Some(borrowed_list(&v.no_proxy)),
        }
    }

    fn socks_version(&self) -> (r: Option<u8>) {
        match &self.proxy {
            None => None,
            Some(v) => Some(v.socks_version),
        }
    }

    fn timeouts_script(&self) -> (r: Option<u32>) {
        match &self.timeouts {
            None => None,
            Some(v) => Some(v.script),
        }
    }

    fn timeouts_page_load(&self) -> (r: Option<u32>) {
        match &self.timeouts {
            None => None,
            Some(v) => Some(v.page_load),
        }
    }

    fn timeouts_implicit(&self) -> (r: Option<u32>) {
        match &self.timeouts {
            None => None,
            Some(v) => Some(v.implicit),
        }
    }

    fn is_insig_as_w3c(&self) -> (r: bool) {
        self.browser_name.is_none() && self.browser_version.is_none()
            && self.platform_name.is_none() && self.accept_insecure_certs.is_none()
            && self.page_load_strategy.is_none() && self.proxy.is_none()
            && self.window_rect.is_none() && self.timeouts.is_none()
            && self.strict_file_interactability.is_none()
            && self.unhandled_prompt_behavior.is_none() && self.wsurl.is_none()
    }
}

impl<X, A, L> W3cCapaSetter for CommCapa<X, A, L> {

    fn set_browser_name(&mut self, arg: &str)
        ensures
            final(self).ext == old(self).ext,
            final(self).add == old(self).add,
            final(self).alien == old(self).alien,
    {
        self.browser_name = Some(owned(arg));
    }

    fn set_browser_name_take(&mut self, arg: String)
        ensures
            final(self).ext == old(self).ext,
            final(self).add == old(self).add,
            final(self).alien == old(self).alien,
    {
        self.browser_name = Some(arg);
    }

    fn set_browser_name_owned(&mut self, arg: &str)
        ensures
            final(self).ext == old(self).ext,
            final(self).add == old(self).add,
            final(self).alien == old(self).alien,
    {
        self.browser_name = Some(owned(arg));
    }

    fn set_browser_version(&mut self, arg: &str)
        ensures
            final(self).ext == old(self).ext,
            final(self).add == old(self).add,
            final(self).alien == old(self).alien,
    {
        self.browser_version = Some(owned(arg));
    }

    fn set_browser_version_take(&mut self, arg: String)
        ensures
            final(self).ext == old(self).ext,
            final(self).add == old(self).add,
            final(self).alien == old(self).alien,
    {
        self.browser_version = Some(arg);
    }

    fn set_browser_version_owned(&mut self, arg: &str)
        ensures
            final(self).ext == old(self).ext,
            final(self).add == old(self).add,
            final(self).alien == old(self).alien,
    {
        self.browser_version = Some(owned(arg));
    }

    fn set_platform_name(&mut self, arg: &str)
        ensures
            final(self).ext == old(self).ext,
            final(self).add == old(self).add,
            final(self).alien == old(self).alien,
    {
        self.platform_name = Some(owned(arg));
    }

    fn set_platform_name_take(&mut self, arg: String)
        ensures
            final(self).ext == old(self).ext,
            final(self).add == old(self).add,
            final(self).alien == old(self).alien,
    {
        self.platform_name = Some(arg);
    }

    fn set_platform_name_owned(&mut self, arg: &str)
        ensures
            final(self).ext == old(self).ext,
            final(self).add == old(self).add,
            final(self).alien == old(self).alien,
    {
        self.platform_name = Some(owned(arg));
    }

    fn set_page_load_strategy(&mut self, arg: &str)
        ensures
            final(self).ext == old(self).ext,
            final(self).add == old(self).add,
            final(self).alien == old(self).alien,
    {
        self.page_load_strategy = Some(owned(arg));
    }

    fn set_page_load_strategy_take(&mut self, arg: String)
        ensures
            final(self).ext == old(self).ext,
            final(self).add == old(self).add,
            final(self).alien == old(self).alien,
    {
        self.page_load_strategy = Some(arg);
    }

    fn set_page_load_strategy_owned(&mut self, arg: &str)
        ensures
            final(self).ext == old(self).ext,
            final(self).add == old(self).add,
            final(self).alien == old(self).alien,
    {
        self.page_load_strategy = Some(owned(arg));
    }

    fn set_unhandled_prompt_behavior(&mut self, arg: &str)
        ensures
            final(self).ext == old(self).ext,
            final(self).add == old(self).add,
            final(self).alien == old(self).alien,
    {
        self.unhandled_prompt_behavior = Some(owned(arg));
    }

    fn set_unhandled_prompt_behavior_take(&mut self, arg: String)
        ensures
            final(self).ext == old(self).ext,
            final(self).add == old(self).add,
            final(self).alien == old(self).alien,
    {
        self.unhandled_prompt_behavior = Some(arg);
    }

    fn set_unhandled_prompt_behavior_owned(&mut self, arg: &str)
        ensures
            final(self).ext == old(self).ext,
            final(self).add == old(self).add,
            final(self).alien == old(self).alien,
    {
        self.unhandled_prompt_behavior = Some(owned(arg));
    }

    fn set_wsurl(&mut self, arg: &str)
        ensures
            final(self).ext == old(self).ext,
            final(self).add == old(self).add,
            final(self).alien == old(self).alien,
    {
        self.wsurl = Some(owned(arg));
    }

    fn set_wsurl_take(&mut self, arg: String)
        ensures
            final(self).ext == old(self).ext,
            final(self).add == old(self).add,
            final(self).alien == old(self).alien,
    {
        self.wsurl = Some(arg);
    }

    fn enable_bidi(&mut self)
        ensures
            final(self).ext == old(self).ext,
            final(self).add == old(self).add,
            final(self).alien == old(self).alien,
    {
        self.wsurl = Some(String::new());
    }

    fn set_accept_insecure_certs(&mut self, arg: bool)
        ensures
            final(self).ext == old(self).ext,
            final(self).add == old(self).add,
            final(self).alien == old(self).alien,
    {
        self.accept_insecure_certs = Some(arg);
    }

    fn set_window_rect(&mut self, arg: bool)
        ensures
            final(self).ext == old(self).ext,
            final(self).add == old(self).add,
            final(self).alien == old(self).alien,
    {
        self.window_rect = Some(arg);
    }

    fn set_strict_file_interactability(&mut self, arg: bool)
        ensures
            final(self).ext == old(self).ext,
            final(self).add == old(self).add,
            final(self).alien == old(self).alien,
    {
        self.strict_file_interactability = Some(arg);
    }

    fn set_proxy_type(&mut self, arg: &str)
        ensures
            final(self).ext == old(self).ext,
            final(self).add == old(self).add,
            final(self).alien == old(self).alien,
    {
        let p = self.proxy_mut();
        p.proxy_type = owned(arg);
    }

    fn set_proxy_autoconfig_url(&mut self, arg: &str)
        ensures
            final(self).ext == old(self).ext,
            final(self).add == old(self).add,
            final(self).alien == old(self).alien,
    {
        let p = self.proxy_mut();
        p.proxy_autoconfig_url = owned(arg);
    }

    fn set_ftp_proxy(&mut self, arg: &str)
        ensures
            final(self).ext == old(self).ext,
            final(self).add == old(self).add,
            final(self).alien == old(self).alien,
    {
        let p = self.proxy_mut();
        p.ftp_proxy = owned(arg);
    }

    fn set_http_proxy(&mut self, arg: &str)
        ensures
            final(self).ext == old(self).ext,
            final(self).add == old(self).add,
            final(self).alien == old(self).alien,
    {
        let p = self.proxy_mut();
        p.http_proxy = owned(arg);
    }

    fn set_ssl_proxy(&mut self, arg: &str)
        ensures
            final(self).ext == old(self).ext,
            final(self).add == old(self).add,
            final(self).alien == old(self).alien,
    {
        let p = self.proxy_mut();
        p.ssl_proxy = owned(arg);
    }

    fn set_socks_proxy(&mut self, arg: &str)
        ensures
            final(self).ext == old(self).ext,
            final(self).add == old(self).add,
            final(self).alien == old(self).alien,
    {
        let p = self.proxy_mut();
        p.socks_proxy = owned(arg);
    }

    fn set_socks_proxy_owned(&mut self, arg: &str)
        ensures
            final(self).ext == old(self).ext,
            final(self).add == old(self).add,
            final(self).alien == old(self).alien,
    {
        let p = self.proxy_mut();
        p.socks_proxy = owned(arg);
    }

    fn set_socks_proxy_take(&mut self, arg: String)
        ensures
            final(self).ext == old(self).ext,
            final(self).add == old(self).add,
            final(self).alien == old(self).alien,
    {
        let p = self.proxy_mut();
        p.socks_proxy = arg;
    }

    fn set_no_proxy(&mut self, arg: Vec<&str>)
        ensures
            final(self).ext == old(self).ext,
            final(self).add == old(self).add,
            final(self).alien == old(self).alien,
    {
        let p = self.proxy_mut();
        p.no_proxy = owned_list(&arg);
    }

    fn add_no_proxy(&mut self, arg: &str)
        ensures
            final(self).ext == old(self).ext,
            final(self).add == old(self).add,
            final(self).alien == old(self).alien,
    {
        let p = self.proxy_mut();
        let ghost before = texts(p.no_proxy@);
        p.no_proxy.push(owned(arg));
        assert(texts(p.no_proxy@) =~= before.push(arg@));
    }

    fn set_socks_version(&mut self, arg: u8)
        ensures
            final(self).ext == old(self).ext,
            final(self).add == old(self).add,
            final(self).alien == old(self).alien,
    {
        let p = self.proxy_mut();
        p.socks_version = arg;
    }

    fn set_timeouts_script(&mut self, arg: u32)
        ensures
            final(self).ext == old(self).ext,
            final(self).add == old(self).add,
            final(self).alien == old(self).alien,
    {
        let mut t = match self.timeouts {
            Some(t) => t,
            None => Timeouts::default(),
        };
        t.script = arg;
        self.timeouts = Some(t);
    }

    fn set_timeouts_page_load(&mut self, arg: u32)
        ensures
            final(self).ext == old(self).ext,
            final(self).add == old(self).add,
            final(self).alien == old(self).alien,
    {
        let mut t = match self.timeouts {
            Some(t) => t,
            None => Timeouts::default(),
        };
        t.page_load = arg;
        self.timeouts = Some(t);
    }

    fn set_timeouts_implicit(&mut self, arg: u32)
        ensures
            final(self).ext == old(self).ext,
            final(self).add == old(self).add,
            final(self).alien == old(self).alien,
    {
        let mut t = match self.timeouts {
            Some(t) => t,
            None => Timeouts::default(),
        };
        t.implicit = arg;
        self.timeouts = Some(t);
    }
}

/// Copies the standard capabilities of `other` into `to`, one by one.
pub(crate) fn copy_w3c<X, A, L>(to: &mut CommCapa<X, A, L>, other: &impl W3cCapaGetter)
    requires
        old(to).w3c() == W3cView::empty(),
    ensures
        final(to).w3c() == other.w3c(),
        final(to).ext == old(to).ext,
        final(to).add == old(to).add,
        final(to).alien == old(to).alien,
{
    if let Some(v) = other.browser_name() {
        to.set_browser_name(v);
    }
    if let Some(v) = other.browser_version() {
        to.set_browser_version(v);
    }
    if let Some(v) = other.platform_name() {
        to.set_platform_name(v);
    }
    if let Some(v) = other.accept_insecure_certs() {
        to.set_accept_insecure_certs(v);
    }
    if let Some(v) = other.page_load_strategy() {
        to.set_page_load_strategy(v);
    }
    if let Some(v) = other.proxy_type() {
        to.set_proxy_type(v);
    }
    if let Some(v) = other.proxy_autoconfig_url() {
        to.set_proxy_autoconfig_url(v);
    }
    if let Some(v) = other.ftp_proxy() {
        to.set_ftp_proxy(v);
    }
    if let Some(v) = other.http_proxy() {
        to.set_http_proxy(v);
    }
    if let Some(v) = other.no_proxy() {
        to.set_no_proxy(v);
    }
    if let Some(v) = other.ssl_proxy() {
        to.set_ssl_proxy(v);
    }
    if let Some(v) = other.socks_proxy() {
        to.set_socks_proxy(v);
    }
    if let Some(v) = other.socks_version() {
        to.set_socks_version(v);
    }
    if let Some(v) = other.window_rect() {
        to.set_window_rect(v);
    }
    if let Some(v) = other.timeouts_script() {
        to.set_timeouts_script(v);
    }
    if let Some(v) = other.timeouts_page_load() {
        to.set_timeouts_page_load(v);
    }
    if let Some(v) = other.timeouts_implicit() {
        to.set_timeouts_implicit(v);
    }
    if let Some(v) = other.strict_file_interactability() {
        to.set_strict_file_interactability(v);
    }
    if let Some(v) = other.unhandled_prompt_behavior() {
        to.set_unhandled_prompt_behavior(v);
    }
    if let Some(v) = other.wsurl() {
        to.set_wsurl(v);
    }
    proof {
        let a = final(to).w3c();
        let b = other.w3c();
        if b.proxy.is_some() {
            assert(a.proxy.unwrap().no_proxy =~= b.proxy.unwrap().no_proxy);
            assert(a.proxy == b.proxy);
        }
        assert(a == b);
    }
}


// --------------------------------------------- standard capabilities as JSON --

/// The members that come first where capabilities are written: name and
/// version of the browser, name of the platform, acceptance of insecure
/// certificates, page load strategy, resizing of windows, strictness of
/// file interactability, and behaviour on unhandled prompts, each where
/// it is specified.
pub open spec fn w3c_lead(v: W3cView) -> Members {
    opt_entry("browserName"@, opt_str_json(v.browser_name)) + opt_entry(
        "browserVersion"@,
        opt_str_json(v.browser_version),
    ) + opt_entry("platformName"@, opt_str_json(v.platform_name)) + opt_entry(
        "acceptInsecureCerts"@,
        opt_bool_json(v.accept_insecure_certs),
    ) + opt_entry("pageLoadStrategy"@, opt_str_json(v.page_load_strategy)) + opt_entry(
        "setWindowRect"@,
        opt_bool_json(v.window_rect),
    ) + opt_entry("strictFileInteractability"@, opt_bool_json(v.strict_file_interactability))
        + opt_entry("unhandledPromptBehavior"@, opt_str_json(v.unhandled_prompt_behavior))
}

/// The member that the proxy record is written as, where there is one.
pub open spec fn proxy_entry(v: W3cView) -> Members {
    opt_entry(
        "proxy"@,
        match v.proxy {
            Some(p) => Some(JsonView::Object(proxy_members(p))),
            None => None,
        },
    )
}

/// The member that the timeouts are written as, where there are any.
pub open spec fn timeouts_entry(v: W3cView) -> Members {
    opt_entry(
        "timeouts"@,
        match v.timeouts {
            Some(t) => Some(JsonView::Object(timeouts_members(t))),
            None => None,
        },
    )
}

/// The member that asks for a WebSocket URL: `true`, where the record
/// holds any URL.
pub open spec fn bidi_entry(v: W3cView) -> Members {
    opt_entry(
        "webSocketUrl"@,
        if v.wsurl.is_some() {
            Some(JsonView::Bool(true))
        } else {
            None
        },
    )
}

impl<X, A, L> CommCapa<X, A, L> {
    /// Adds the members that come first to the members of an object.
    pub fn put_lead(&self, out: &mut Entries)
        ensures
            members_view(final(out)@) == members_view(old(out)@) + w3c_lead(self.w3c()),
    {
        put_opt(out, "browserName", json_opt_str(self.browser_name()));
        put_opt(out, "browserVersion", json_opt_str(self.browser_version()));
        put_opt(out, "platformName", json_opt_str(self.platform_name()));
        put_opt(out, "acceptInsecureCerts", json_opt_bool(self.accept_insecure_certs()));
        put_opt(out, "pageLoadStrategy", json_opt_str(self.page_load_strategy()));
        put_opt(out, "setWindowRect", json_opt_bool(self.window_rect()));
        put_opt(
            out,
            "strictFileInteractability",
            json_opt_bool(self.strict_file_interactability()),
        );
        put_opt(out, "unhandledPromptBehavior", json_opt_str(self.unhandled_prompt_behavior()));
        assert(members_view(final(out)@) =~= members_view(old(out)@) + w3c_lead(self.w3c()));
    }

    /// Adds the proxy record, where there is one, to the members of an object.
    pub fn put_proxy(&self, out: &mut Entries)
        ensures
            members_view(final(out)@) == members_view(old(out)@) + proxy_entry(self.w3c()),
    {
        put_opt(
            out,
            "proxy",
            match &self.proxy {
                Some(p) => Some(p.to_json()),
                None => None,
            },
        );
    }

    /// Adds the timeouts, where there are any, to the members of an object.
    pub fn put_timeouts(&self, out: &mut Entries)
        ensures
            members_view(final(out)@) == members_view(old(out)@) + timeouts_entry(self.w3c()),
    {
        put_opt(
            out,
            "timeouts",
            match &self.timeouts {
                Some(t) => Some(t.to_json()),
                None => None,
            },
        );
    }

    /// Adds the request for a WebSocket URL, where the record holds a URL,
    /// to the members of an object.
    pub fn put_bidi(&self, out: &mut Entries)
        ensures
            members_view(final(out)@) == members_view(old(out)@) + bidi_entry(self.w3c()),
    {
        put_opt(
            out,
            "webSocketUrl",
            if self.wsurl.is_some() {
                Some(Json::Bool(true))
            } else {
                None
            },
        );
    }
}

/// The proxy record under the key `proxy`, which must be there where
/// `needed` says so.
pub open spec fn proxy_field(m: Members, needed: bool) -> Result<Option<ProxyView>, DeError> {
    match object_field(m, "proxy"@) {
        Err(e) => Err(e),
        Ok(None) => if needed {
            Err(DeError::Missing)
        } else {
            Ok(None)
        },
        Ok(Some(pm)) => match proxy_parsed(pm) {
            Ok(p) => Ok(Some(p)),
            Err(e) => Err(e),
        },
    }
}

/// The timeouts under the key `timeouts`, which must be there.
pub open spec fn timeouts_field(m: Members) -> Result<Timeouts, DeError> {
    match required(object_field(m, "timeouts"@)) {
        Err(e) => Err(e),
        Ok(tm) => timeouts_parsed(tm),
    }
}

/// The standard capabilities that the members of an answer denote.
///
/// Name and version of the browser, name of the platform, acceptance of
/// insecure certificates, page load strategy, window rect, timeouts,
/// strictness of file interactability and behaviour at unhandled prompts
/// must be there; the proxy record where `proxy_needed` says so; the
/// WebSocket URL may be missing. The fields are read in this order, and
/// the first at fault gives the error.
pub open spec fn w3c_parsed(m: Members, proxy_needed: bool) -> Result<W3cView, DeError> {
    let name = required(text_field(m, "browserName"@));
    let version = required(text_field(m, "browserVersion"@));
    let platform = required(text_field(m, "platformName"@));
    let insecure = required(bool_field(m, "acceptInsecureCerts"@));
    let strategy = required(text_field(m, "pageLoadStrategy"@));
    let proxy = proxy_field(m, proxy_needed);
    let rect = required(bool_field(m, "setWindowRect"@));
    let timeouts = timeouts_field(m);
    let strict = required(bool_field(m, "strictFileInteractability"@));
    let prompt = required(text_field(m, "unhandledPromptBehavior"@));
    let wsurl = text_field(m, "webSocketUrl"@);
    if name is Err {
        Err(name->Err_0)
    } else if version is Err {
        Err(version->Err_0)
    } else if platform is Err {
        Err(platform->Err_0)
    } else if insecure is Err {
        Err(insecure->Err_0)
    } else if strategy is Err {
        Err(strategy->Err_0)
    } else if proxy is Err {
        Err(proxy->Err_0)
    } else if rect is Err {
        Err(rect->Err_0)
    } else if timeouts is Err {
        Err(timeouts->Err_0)
    } else if strict is Err {
        Err(strict->Err_0)
    } else if prompt is Err {
        Err(prompt->Err_0)
    } else if wsurl is Err {
        Err(wsurl->Err_0)
    } else {
        Ok(
            W3cView {
                browser_name: Some(name->Ok_0),
                browser_version: Some(version->Ok_0),
                platform_name: Some(platform->Ok_0),
                accept_insecure_certs: Some(insecure->Ok_0),
                page_load_strategy: Some(strategy->Ok_0),
                proxy: proxy->Ok_0,
                window_rect: Some(rect->Ok_0),
                timeouts: Some(timeouts->Ok_0),
                strict_file_interactability: Some(strict->Ok_0),
                unhandled_prompt_behavior: Some(prompt->Ok_0),
                wsurl: wsurl->Ok_0,
            },
        )
    }
}

/// A record of standard capabilities alone.
pub type W3cCapa = CommCapa<NoAlien, NoAlien, NoAlien>;

/// Parsed standard capabilities as what they hold.
pub open spec fn parsed_w3c(r: Result<W3cCapa, DeError>) -> Result<W3cView, DeError> {
    match r {
        Ok(c) => Ok(c.w3c()),
        Err(e) => Err(e),
    }
}

/// Reads the standard capabilities from the members of an answer.
pub fn read_w3c(o: &Entries, proxy_needed: bool) -> (r: Result<W3cCapa, DeError>)
    ensures
        parsed_w3c(r) == w3c_parsed(members_view(o@), proxy_needed),
{
    let name = match need(read_text(o, "browserName")) {
        Ok(v) => v,
        Err(e) => {
            return Err(e);
        },
    };
    let version = match need(read_text(o, "browserVersion")) {
        Ok(v) => v,
        Err(e) => {
            return Err(e);
        },
    };
    let platform = match need(read_text(o, "platformName")) {
        Ok(v) => v,
        Err(e) => {
            return Err(e);
        },
    };
    let insecure = match need(read_bool(o, "acceptInsecureCerts")) {
        Ok(v) => v,
        Err(e) => {
            return Err(e);
        },
    };
    let strategy = match need(read_text(o, "pageLoadStrategy")) {
        Ok(v) => v,
        Err(e) => {
            return Err(e);
        },
    };
    let proxy = match read_object(o, "proxy") {
        Err(e) => {
            return Err(e);
        },
        Ok(None) => {
            if proxy_needed {
                return Err(DeError::Missing);
            }
            None
        },
        Ok(Some(pm)) => match Proxy::from_json(pm) {
            Ok(p) => Some(p),
            Err(e) => {
                return Err(e);
            },
        },
    };
    let rect = match need(read_bool(o, "setWindowRect")) {
        Ok(v) => v,
        Err(e) => {
            return Err(e);
        },
    };
    let timeouts = match need(read_object(o, "timeouts")) {
        Err(e) => {
            return Err(e);
        },
        Ok(tm) => match Timeouts::from_json(tm) {
            Ok(t) => t,
            Err(e) => {
                return Err(e);
            },
        },
    };
    let strict = match need(read_bool(o, "strictFileInteractability")) {
        Ok(v) => v,
        Err(e) => {
            return Err(e);
        },
    };
    let prompt = match need(read_text(o, "unhandledPromptBehavior")) {
        Ok(v) => v,
        Err(e) => {
            return Err(e);
        },
    };
    let wsurl = match read_text(o, "webSocketUrl") {
        Ok(v) => v,
        Err(e) => {
            return Err(e);
        },
    };
    Ok(
        CommCapa {
            browser_name: Some(owned(name)),
            browser_version: Some(owned(version)),
            platform_name: Some(owned(platform)),
            accept_insecure_certs: Some(insecure),
            page_load_strategy: Some(owned(strategy)),
            proxy,
            window_rect: Some(rect),
            timeouts: Some(timeouts),
            strict_file_interactability: Some(strict),
            unhandled_prompt_behavior: Some(owned(prompt)),
            wsurl: match wsurl {
                Some(u) => Some(owned(u)),
                None => None,
            },
            ext: NoAlien,
            add: NoAlien,
            alien: NoAlien,
        },
    )
}

impl<X, A, L> CommCapa<X, A, L> {
    /// A record made of standard capabilities and a vendor's three parts.
    pub fn with_parts(std: W3cCapa, ext: X, add: A, alien: L) -> (r: Self)
        ensures
            r.w3c() == std.w3c(),
            r.ext == ext,
            r.add == add,
            r.alien == alien,
    {
        CommCapa {
            browser_name: std.browser_name,
            browser_version: std.browser_version,
            platform_name: std.platform_name,
            accept_insecure_certs: std.accept_insecure_certs,
            page_load_strategy: std.page_load_strategy,
            proxy: std.proxy,
            window_rect: std.window_rect,
            timeouts: std.timeouts,
            strict_file_interactability: std.strict_file_interactability,
            unhandled_prompt_behavior: std.unhandled_prompt_behavior,
            wsurl: std.wsurl,
            ext,
            add,
            alien,
        }
    }
}

// ---------------------------------------------------- requests and results --

/// A request for capabilities: those that must match, and alternatives of
/// which the first that matches is taken.
#[derive(Debug)]
pub struct CommCapRequ<C> {
    pub always_match: C,
    pub first_match: Vec<C>,
}

impl<C: Default> Default for CommCapRequ<C> {
    fn default() -> (r: Self)
        ensures
            call_ensures(C::default, (), r.always_match),
            r.first_match@.len() == 0,
    {
        CommCapRequ { always_match: C::default(), first_match: Vec::new() }
    }
}

/// The result of creating a session.
#[derive(Debug)]
pub struct CommSessResult<C> {
    pub value: CommSessResultVal<C>,
}

/// What the result of creating a session holds: the id of the session and
/// the capabilities that were agreed on.
#[derive(Debug)]
pub struct CommSessResultVal<C> {
    pub session_id: String,
    pub capabilities: C,
}

impl<C: W3cCapaGetter> W3cSessResultGetter for CommSessResult<C> {
    open spec fn session_id_view(&self) -> Seq<char> {
        self.value.session_id@
    }

    open spec fn wsurl_view(&self) -> Option<Seq<char>> {
        self.value.capabilities.w3c().wsurl
    }

    fn session_id(&self) -> (r: &str) {
        self.value.session_id.as_str()
    }

    fn wsurl(&self) -> (r: Option<&str>) {
        self.value.capabilities.wsurl()
    }
}

/// The id of the session and the members of the capabilities in the
/// members of an answer: both stand in the object under `value`, and both
/// must be there.
pub open spec fn session_parts(top: Members) -> Result<(Seq<char>, Members), DeError> {
    match required(object_field(top, "value"@)) {
        Err(e) => Err(e),
        Ok(value) => {
            let caps = required(object_field(value, "capabilities"@));
            let sid = required(text_field(value, "sessionId"@));
            if caps is Err {
                Err(caps->Err_0)
            } else if sid is Err {
                Err(sid->Err_0)
            } else {
                Ok((sid->Ok_0, caps->Ok_0))
            }
        },
    }
}

/// Read parts of a session result as what they hold.
pub open spec fn parts_view(r: Result<(&str, &Entries), DeError>) -> Result<
    (Seq<char>, Members),
    DeError,
> {
    match r {
        Ok(p) => Ok((p.0@, members_view(p.1@))),
        Err(e) => Err(e),
    }
}

/// Reads the id of the session and the members of the capabilities from
/// the members of an answer.
pub fn read_session_parts<'a>(top: &'a Entries) -> (r: Result<(&'a str, &'a Entries), DeError>)
    ensures
        parts_view(r) == session_parts(members_view(top@)),
{
    let value = match need(read_object(top, "value")) {
        Ok(v) => v,
        Err(e) => {
            return Err(e);
        },
    };
    let caps = match need(read_object(value, "capabilities")) {
        Ok(v) => v,
        Err(e) => {
            return Err(e);
        },
    };
    let sid = match need(read_text(value, "sessionId")) {
        Ok(v) => v,
        Err(e) => {
            return Err(e);
        },
    };
    Ok((sid, caps))
}


// ------------------------------------------------------------- preferences --

/// What a map of preferences holds: names and values, in order.
pub type PrefsView = Seq<(Seq<char>, Seq<char>)>;

/// Whether `a` comes before `b` in the order of texts: byte by byte.
pub open spec fn lex_lt(a: Seq<u8>, b: Seq<u8>) -> bool
    decreases a.len(),
{
    if b.len() == 0 {
        false
    } else if a.len() == 0 {
        true
    } else if a.first() != b.first() {
        a.first() < b.first()
    } else {
        lex_lt(a.drop_first(), b.drop_first())
    }
}

/// The map with `value` under `key`: in the place of the value that `key`
/// had, or else before the first name that comes behind `key`.
pub open spec fn inserted(m: PrefsView, key: Seq<char>, value: Seq<char>) -> PrefsView
    decreases m.len(),
{
    if m.len() == 0 {
        seq![(key, value)]
    } else if m.first().0 == key {
        seq![(key, value)] + m.drop_first()
    } else if lex_lt(utf8(key), utf8(m.first().0)) {
        seq![(key, value)] + m
    } else {
        seq![m.first()] + inserted(m.drop_first(), key, value)
    }
}

/// Whether the name `a` comes before the name `b`.
pub open spec fn key_lt(a: Seq<char>, b: Seq<char>) -> bool {
    lex_lt(utf8(a), utf8(b))
}

/// Whether the names of a map stand in their order, each once.
pub open spec fn ordered(m: PrefsView) -> bool {
    forall|i: int, j: int| 0 <= i < j < m.len() ==> key_lt(#[trigger] m[i].0, #[trigger] m[j].0)
}

/// Whether a map holds `e`.
pub open spec fn holds(m: PrefsView, e: (Seq<char>, Seq<char>)) -> bool {
    exists|j: int| 0 <= j < m.len() && m[j] == e
}

proof fn lemma_lex_irreflexive(a: Seq<u8>)
    ensures
        !lex_lt(a, a),
    decreases a.len(),
{
    if a.len() > 0 {
        lemma_lex_irreflexive(a.drop_first());
    }
}

proof fn lemma_lex_transitive(a: Seq<u8>, b: Seq<u8>, c: Seq<u8>)
    requires
        lex_lt(a, b),
        lex_lt(b, c),
    ensures
        lex_lt(a, c),
    decreases a.len(),
{
    if a.len() > 0 && b.len() > 0 && c.len() > 0 {
        if a.first() == b.first() && b.first() == c.first() {
            lemma_lex_transitive(a.drop_first(), b.drop_first(), c.drop_first());
        }
    }
}

proof fn lemma_lex_total(a: Seq<u8>, b: Seq<u8>)
    requires
        a != b,
    ensures
        lex_lt(a, b) || lex_lt(b, a),
    decreases a.len(),
{
    if a.len() == 0 {
        if b.len() == 0 {
            assert(a =~= b);
        }
    } else if b.len() == 0 {
    } else if a.first() == b.first() {
        if a.drop_first() == b.drop_first() {
            assert(a =~= seq![a.first()] + a.drop_first());
            assert(b =~= seq![b.first()] + b.drop_first());
        } else {
            lemma_lex_total(a.drop_first(), b.drop_first());
        }
    }
}

/// The order of names is a strict total order: no name comes before
/// itself, of two different names one comes before the other, and what
/// comes before a name comes before all that come behind it.
pub proof fn lemma_key_order(a: Seq<char>, b: Seq<char>, c: Seq<char>)
    ensures
        !key_lt(a, a),
        a != b ==> key_lt(a, b) || key_lt(b, a),
        key_lt(a, b) && key_lt(b, c) ==> key_lt(a, c),
{
    lemma_lex_irreflexive(utf8(a));
    if a != b {
        vstd::utf8::encode_utf8_decode_utf8(a);
        vstd::utf8::encode_utf8_decode_utf8(b);
        lemma_lex_total(utf8(a), utf8(b));
    }
    if key_lt(a, b) && key_lt(b, c) {
        lemma_lex_transitive(utf8(a), utf8(b), utf8(c));
    }
}

proof fn lemma_inserted_holds(m: PrefsView, key: Seq<char>, value: Seq<char>, i: int)
    requires
        0 <= i < inserted(m, key, value).len(),
    ensures
        inserted(m, key, value)[i] == (key, value) || holds(m, inserted(m, key, value)[i]),
        holds(inserted(m, key, value), (key, value)),
    decreases m.len(),
{
    let r = inserted(m, key, value);
    if m.len() == 0 {
        assert(r[0] == (key, value));
    } else if m.first().0 == key {
        assert(r[0] == (key, value));
        if i > 0 {
            assert(r[i] == m[i]);
        }
    } else if lex_lt(utf8(key), utf8(m.first().0)) {
        assert(r[0] == (key, value));
        if i > 0 {
            assert(r[i] == m[i - 1]);
        }
    } else {
        let rest = m.drop_first();
        let rr = inserted(rest, key, value);
        assert(r =~= seq![m.first()] + rr);
        lemma_inserted_holds(rest, key, value, 0);
        let w = choose|j: int| 0 <= j < rr.len() && rr[j] == (key, value);
        assert(r[w + 1] == (key, value));
        if i == 0 {
            assert(m[0] == r[0]);
        } else {
            lemma_inserted_holds(rest, key, value, i - 1);
            assert(r[i] == rr[i - 1]);
            if rr[i - 1] != (key, value) {
                let j = choose|j: int| 0 <= j < rest.len() && rest[j] == rr[i - 1];
                assert(m[j + 1] == r[i]);
            }
        }
    }
}

/// Putting a preference into a map whose names stand in their order
/// gives a map whose names stand in their order, which holds the
/// preference, and apart from it only what the map held under other
/// names.
pub proof fn lemma_inserted_ordered(m: PrefsView, key: Seq<char>, value: Seq<char>)
    requires
        ordered(m),
    ensures
        ordered(inserted(m, key, value)),
        holds(inserted(m, key, value), (key, value)),
        forall|i: int|
            0 <= i < inserted(m, key, value).len() ==> #[trigger] inserted(m, key, value)[i] == (
                key,
                value,
            ) || holds(m, inserted(m, key, value)[i]),
    decreases m.len(),
{
    let r = inserted(m, key, value);
    assert forall|i: int| 0 <= i < r.len() implies #[trigger] r[i] == (key, value) || holds(
        m,
        r[i],
    ) by {
        lemma_inserted_holds(m, key, value, i);
    }
    if m.len() == 0 {
        assert(r[0] == (key, value));
    } else {
        lemma_inserted_holds(m, key, value, 0);
        let rest = m.drop_first();
        assert(ordered(rest)) by {
            assert forall|i: int, j: int| 0 <= i < j < rest.len() implies key_lt(
                #[trigger] rest[i].0,
                #[trigger] rest[j].0,
            ) by {
                assert(rest[i] == m[i + 1] && rest[j] == m[j + 1]);
            }
        }
        if m.first().0 == key {
            assert forall|i: int, j: int| 0 <= i < j < r.len() implies key_lt(
                #[trigger] r[i].0,
                #[trigger] r[j].0,
            ) by {
                assert(r[i].0 == m[i].0 && r[j].0 == m[j].0);
            }
        } else if lex_lt(utf8(key), utf8(m.first().0)) {
            assert forall|i: int, j: int| 0 <= i < j < r.len() implies key_lt(
                #[trigger] r[i].0,
                #[trigger] r[j].0,
            ) by {
                assert(r[j] == m[j - 1]);
                if i == 0 {
                    if j > 1 {
                        assert(key_lt(m[0].0, m[j - 1].0));
                        lemma_key_order(key, m[0].0, m[j - 1].0);
                    }
                } else {
                    assert(r[i] == m[i - 1]);
                }
            }
        } else {
            lemma_inserted_ordered(rest, key, value);
            let rr = inserted(rest, key, value);
            assert(r =~= seq![m.first()] + rr);
            lemma_key_order(m.first().0, key, key);
            assert(key_lt(m.first().0, key));
            assert forall|i: int, j: int| 0 <= i < j < r.len() implies key_lt(
                #[trigger] r[i].0,
                #[trigger] r[j].0,
            ) by {
                assert(r[j] == rr[j - 1]);
                if i == 0 {
                    lemma_inserted_holds(rest, key, value, j - 1);
                    if rr[j - 1] != (key, value) {
                        let w = choose|w: int| 0 <= w < rest.len() && rest[w] == rr[j - 1];
                        assert(m[w + 1] == rest[w]);
                        assert(key_lt(m[0].0, m[w + 1].0));
                    }
                } else {
                    assert(r[i] == rr[i - 1]);
                }
            }
        }
    }
}

proof fn lemma_inserted_behind(m: PrefsView, key: Seq<char>, value: Seq<char>)
    requires
        forall|i: int| 0 <= i < m.len() ==> key_lt((#[trigger] m[i]).0, key),
    ensures
        inserted(m, key, value) == m.push((key, value)),
    decreases m.len(),
{
    if m.len() == 0 {
        assert(inserted(m, key, value) =~= m.push((key, value)));
    } else {
        let rest = m.drop_first();
        assert(key_lt(m[0].0, key));
        lemma_key_order(key, m[0].0, key);
        assert forall|i: int| 0 <= i < rest.len() implies key_lt((#[trigger] rest[i]).0, key) by {
            assert(rest[i] == m[i + 1]);
        }
        lemma_inserted_behind(rest, key, value);
        assert(seq![m.first()] + rest.push((key, value)) =~= m.push((key, value)));
    }
}

/// Names and values that stand in the order of the names are collected as
/// they are.
pub proof fn lemma_collected_of_ordered(m: PrefsView)
    requires
        ordered(m),
    ensures
        collected(m) == m,
    decreases m.len(),
{
    if m.len() > 0 {
        let front = m.drop_last();
        assert forall|i: int, j: int| 0 <= i < j < front.len() implies key_lt(
            #[trigger] front[i].0,
            #[trigger] front[j].0,
        ) by {
            assert(front[i] == m[i] && front[j] == m[j]);
        }
        lemma_collected_of_ordered(front);
        assert forall|i: int| 0 <= i < front.len() implies key_lt(
            (#[trigger] front[i]).0,
            m.last().0,
        ) by {
            assert(front[i] == m[i]);
            assert(key_lt(m[i].0, m[m.len() - 1].0));
        }
        lemma_inserted_behind(front, m.last().0, m.last().1);
        assert(front.push(m.last()) =~= m);
    } else {
        assert(collected(m) =~= m);
    }
}

/// What is collected from names and values stands in the order of the
/// names.
pub proof fn lemma_collected_ordered(pairs: PrefsView)
    ensures
        ordered(collected(pairs)),
    decreases pairs.len(),
{
    if pairs.len() > 0 {
        lemma_collected_ordered(pairs.drop_last());
        lemma_inserted_ordered(collected(pairs.drop_last()), pairs.last().0, pairs.last().1);
    }
}

/// The number that a text denotes: decimal digits, with or without a plus
/// sign before them, that denote no more than 4294967295.
pub open spec fn u32_of_text(t: Seq<char>) -> Option<u32> {
    let b = utf8(t);
    let digits = if b.len() > 0 && b.first() == 43 {
        b.drop_first()
    } else {
        b
    };
    if digits.len() > 0 && all_digits(digits) && dec_value(digits) <= u32::MAX {
        Some(dec_value(digits) as u32)
    } else {
        None
    }
}

/// The value that a preference is written as: `true` and `false` as
/// bools, what denotes a number as that number, and anything else as text.
pub open spec fn pref_json(value: Seq<char>) -> JsonView {
    if value == "true"@ {
        JsonView::Bool(true)
    } else if value == "false"@ {
        JsonView::Bool(false)
    } else {
        match u32_of_text(value) {
            Some(n) => JsonView::UInt(n as u64),
            None => JsonView::Str(value),
        }
    }
}

/// The members that a map of preferences is written with.
pub open spec fn prefs_members(m: PrefsView) -> Members {
    Seq::new(m.len(), |i: int| (m[i].0, pref_json(m[i].1)))
}

fn bytes_lt(a: &[u8], b: &[u8]) -> (r: bool)
    ensures
        r == lex_lt(a@, b@),
{
    let mut i: usize = 0;
    assert(a@.skip(0) =~= a@);
    assert(b@.skip(0) =~= b@);
    loop
        invariant
            0 <= i <= a@.len(),
            i <= b@.len(),
            lex_lt(a@, b@) == lex_lt(a@.skip(i as int), b@.skip(i as int)),
        decreases a@.len() - i,
    {
        if i >= b.len() {
            return false;
        }
        if i >= a.len() {
            return true;
        }
        proof {
            assert(a@.skip(i as int).first() == a@[i as int]);
            assert(b@.skip(i as int).first() == b@[i as int]);
            assert(a@.skip(i as int).drop_first() =~= a@.skip(i + 1));
            assert(b@.skip(i as int).drop_first() =~= b@.skip(i + 1));
        }
        if a[i] != b[i] {
            return a[i] < b[i];
        }
        i = i + 1;
    }
}

fn parse_u32(t: &str) -> (r: Option<u32>)
    ensures
        r == u32_of_text(t@),
{
    let b = t.as_bytes();
    let digits = if b.len() > 0 && b[0] == 43 {
        proof {
            assert(b@.subrange(1, b@.len() as int) =~= b@.drop_first());
        }
        vstd::slice::slice_subrange(b, 1, b.len())
    } else {
        b
    };
    match parse_decimal(digits) {
        Some(n) => {
            if n <= 4294967295 {
                Some(n as u32)
            } else {
                None
            }
        },
        None => None,
    }
}

/// A map from the names of preferences to their values, both texts. It
/// holds each name once, and the names in their order.
#[derive(Debug)]
pub struct VarValTypeMap {
    entries: Vec<(String, String)>,
}

/// What a list of names and values holds.
pub open spec fn entries_view(e: Seq<(String, String)>) -> PrefsView {
    Seq::new(e.len(), |i: int| (e[i].0@, e[i].1@))
}

impl View for VarValTypeMap {
    type V = PrefsView;

    closed spec fn view(&self) -> PrefsView {
        entries_view(self.entries@)
    }
}

/// Borrowed names and values as the characters they hold.
pub open spec fn pairs_view(v: Seq<(&str, &str)>) -> PrefsView {
    Seq::new(v.len(), |i: int| (v[i].0@, v[i].1@))
}

impl VarValTypeMap {
    #[verifier::type_invariant]
    spec fn names_in_order(self) -> bool {
        ordered(entries_view(self.entries@))
    }

    /// The map with nothing in it.
    pub fn new() -> (r: Self)
        ensures
            r@ == Seq::<(Seq<char>, Seq<char>)>::empty(),
    {
        let entries: Vec<(String, String)> = Vec::new();
        assert(entries_view(entries@) =~= Seq::<(Seq<char>, Seq<char>)>::empty());
        VarValTypeMap { entries }
    }

    /// Puts `value` under `key`, in the place of the value that `key` had
    /// if it had one.
    pub fn insert(&mut self, key: &str, value: &str)
        ensures
            final(self)@ == inserted(old(self)@, key@, value@),
    {
        let ghost m = self@;
        proof {
            use_type_invariant(&*self);
            lemma_inserted_ordered(m, key@, value@);
        }
        let mut taken = VarValTypeMap::new();
        core::mem::swap(self, &mut taken);
        let mut entries = taken.entries;
        let n = entries.len();
        let mut i: usize = 0;
        let mut placed = false;
        assert(m.skip(0) =~= m);
        assert(m.take(0) + inserted(m, key@, value@) =~= inserted(m, key@, value@));
        while !placed && i < n
            invariant
                0 <= i <= n,
                !placed ==> n == entries@.len() && m == entries_view(entries@),
                !placed ==> inserted(m, key@, value@) == m.take(i as int) + inserted(
                    m.skip(i as int),
                    key@,
                    value@,
                ),
                placed ==> entries_view(entries@) == inserted(m, key@, value@),
            decreases n - i + (if placed { 0int } else { 1int }),
        {
            proof {
                assert(m.skip(i as int).first() == m[i as int]);
                assert(m.skip(i as int).drop_first() =~= m.skip(i + 1));
            }
            if same_text(entries[i].0.as_str(), key) {
                entries.remove(i);
                entries.insert(i, (owned(key), owned(value)));
                assert(entries_view(entries@) =~= m.take(i as int) + (seq![(key@, value@)]
                    + m.skip(i + 1)));
                placed = true;
            } else if bytes_lt(key.as_bytes(), entries[i].0.as_str().as_bytes()) {
                entries.insert(i, (owned(key), owned(value)));
                assert(entries_view(entries@) =~= m.take(i as int) + (seq![(key@, value@)]
                    + m.skip(i as int)));
                placed = true;
            } else {
                proof {
                    assert(m.take(i + 1) =~= m.take(i as int) + seq![m[i as int]]);
                    assert(m.take(i as int) + (seq![m[i as int]] + inserted(
                        m.skip(i + 1),
                        key@,
                        value@,
                    )) =~= m.take(i + 1) + inserted(m.skip(i + 1), key@, value@));
                }
                i = i + 1;
            }
        }
        if !placed {
            entries.push((owned(key), owned(value)));
            assert(entries_view(entries@) =~= m.take(n as int) + seq![(key@, value@)]);
        }
        *self = VarValTypeMap { entries };
    }

    /// How many preferences the map holds.
    pub fn len(&self) -> (r: usize)
        ensures
            r == self@.len(),
    {
        self.entries.len()
    }

    /// The names and values, in the order of the names.
    pub fn pairs(&self) -> (r: Vec<(&str, &str)>)
        ensures
            pairs_view(r@) == self@,
            ordered(self@),
    {
        proof {
            use_type_invariant(self);
        }
        let mut out: Vec<(&str, &str)> = Vec::new();
        let mut i: usize = 0;
        while i < self.entries.len()
            invariant
                0 <= i <= self.entries@.len(),
                out@.len() == i,
                forall|k: int|
                    0 <= k < i ==> out@[k].0@ == self.entries@[k].0@ && out@[k].1@
                        == self.entries@[k].1@,
            decreases self.entries@.len() - i,
        {
            out.push((self.entries[i].0.as_str(), self.entries[i].1.as_str()));
            i = i + 1;
        }
        assert(pairs_view(out@) =~= self@);
        out
    }

    /// A map with the names and values of `pairs`, of which a later one
    /// takes the place of an earlier one with its name.
    pub fn from_pairs(pairs: &Vec<(&str, &str)>) -> (r: Self)
        ensures
            r@ == collected(pairs_view(pairs@)),
    {
        let mut out = VarValTypeMap::new();
        let mut i: usize = 0;
        let ghost pv = pairs_view(pairs@);
        assert(pv.take(0) =~= Seq::<(Seq<char>, Seq<char>)>::empty());
        while i < pairs.len()
            invariant
                0 <= i <= pairs@.len(),
                pv == pairs_view(pairs@),
                out@ == collected(pv.take(i as int)),
            decreases pairs@.len() - i,
        {
            proof {
                assert(pv.take(i + 1).drop_last() =~= pv.take(i as int));
                assert(pv.take(i + 1).last() == (pairs@[i as int].0@, pairs@[i as int].1@));
            }
            out.insert(pairs[i].0, pairs[i].1);
            i = i + 1;
        }
        assert(pv.take(i as int) =~= pv);
        out
    }

    /// The map as a JSON object, each value written as what it denotes.
    pub fn to_json(&self) -> (r: Json)
        ensures
            r@ == JsonView::Object(prefs_members(self@)),
    {
        let mut m: Entries = Vec::new();
        let mut i: usize = 0;
        while i < self.entries.len()
            invariant
                0 <= i <= self.entries@.len(),
                m@.len() == i,
                forall|k: int|
                    0 <= k < i ==> m@[k].0@ == self.entries@[k].0@ && m@[k].1@ == pref_json(
                        self.entries@[k].1@,
                    ),
            decreases self.entries@.len() - i,
        {
            let value = self.entries[i].1.as_str();
            let j = if same_text(value, "true") {
                Json::Bool(true)
            } else if same_text(value, "false") {
                Json::Bool(false)
            } else {
                match parse_u32(value) {
                    Some(n) => Json::UInt(n as u64),
                    None => json_str(value),
                }
            };
            m.push((owned(self.entries[i].0.as_str()), j));
            i = i + 1;
        }
        assert(members_view(m@) =~= prefs_members(self@));
        Json::Object(m)
    }
}

/// The map that holds the names and values of `pairs`, put in one by one.
pub open spec fn collected(pairs: PrefsView) -> PrefsView
    decreases pairs.len(),
{
    if pairs.len() == 0 {
        Seq::empty()
    } else {
        inserted(collected(pairs.drop_last()), pairs.last().0, pairs.last().1)
    }
}

} // verus!
