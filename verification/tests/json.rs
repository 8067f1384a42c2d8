use wdc::json::{
    member, read_bool, read_field, read_list, read_object, read_text, read_texts, read_u32,
    read_u8, repeated, same_text, DeError, Json, Kind,
};
use wdc::wdcmd::session::comm::{Proxy, VarValTypeMap};
use wdc::wdcmd::session::w3c::Timeouts;
use wdc::wdcmd::session::{
    ChromSessResult, ChromiumCapa, ChromiumCapaGetter, ChromiumCapaSetter, FirefoxCapa,
    FirefoxCapaGetter, FirefoxCapaSetter, GeckoSessResult,
};
use wdc::wdcmd::session::chr::ChromiumSesAlnCap;
use wdc::wdcmd::session::{W3cCapaGetter, W3cCapaSetter, W3cSessResultGetter};

fn object(text: &str) -> Json {
    Json::parse(text.as_bytes()).unwrap()
}

fn text(j: &Json) -> String {
    j.to_text().unwrap()
}

#[test]
fn text_to_value_and_back() {
    for t in [
        "null",
        "true",
        "false",
        "0",
        "18446744073709551615",
        "-1",
        "-9223372036854775808",
        "1.5",
        "\"\"",
        "\"a\\\"b\\\\c\\nd\\u0001\"",
        "[]",
        "{}",
        "[1,[2,[3,{\"a\":null}]],\"x\"]",
        "{\"b\":1,\"a\":{\"z\":[],\"y\":{}},\"c\":\"\\u20ac\"}",
    ] {
        assert_eq!(text(&object(t)), t.replace("\\u20ac", "\u{20ac}"));
    }
    assert_eq!(text(&object(" { \"a\" : [ 1 , 2 ] } ")), "{\"a\":[1,2]}");
    assert_eq!(text(&object("1e2")), "100.0");
    for bad in ["", "{", "[1,]", "{\"a\"}", "nul", "\"a", "1 2", "{\"a\":1,}"] {
        assert_eq!(Json::parse(bad.as_bytes()).err(), Some(DeError::Syntax));
    }
    assert_eq!(Json::UInt(7).to_bytes().unwrap(), b"7".to_vec());
    assert_eq!(text(&Json::Float("0.25".to_string())), "0.25");
    assert_eq!(text(&Json::Float("not a number".to_string())), "null");
    assert_eq!(text(&Json::Int(-3)), "-3");
    assert!(matches!(object("3"), Json::UInt(3)));
    assert!(matches!(object("-3"), Json::Int(-3)));
    assert!(matches!(object("3.0"), Json::Float(_)));
    assert!(object("[]").members().is_err());
}

#[test]
fn fields_of_objects() {
    let j = object(r#"{"t":"x","b":true,"n":7,"big":4294967296,"neg":-1,"l":["a","b"],"mixed":["a",1],"o":{"k":"v"},"list":[1,{}]}"#);
    let o = j.members().unwrap();
    assert_eq!(read_text(o, "t"), Ok(Some("x")));
    assert_eq!(read_text(o, "b"), Err(DeError::Mismatch));
    assert_eq!(read_text(o, "zz"), Ok(None));
    assert_eq!(read_bool(o, "b"), Ok(Some(true)));
    assert_eq!(read_bool(o, "t"), Err(DeError::Mismatch));
    assert_eq!(read_u32(o, "n"), Ok(Some(7)));
    assert_eq!(read_u8(o, "n"), Ok(Some(7)));
    assert_eq!(read_u32(o, "big"), Err(DeError::Mismatch));
    assert_eq!(read_u32(o, "neg"), Err(DeError::Mismatch));
    assert_eq!(read_u32(o, "t"), Err(DeError::Mismatch));
    assert_eq!(read_texts(o, "l"), Ok(Some(vec!["a".to_string(), "b".to_string()])));
    assert_eq!(read_texts(o, "mixed"), Err(DeError::Mismatch));
    assert_eq!(read_list(o, "list").unwrap().unwrap().len(), 2);
    assert_eq!(read_list(o, "o").err(), Some(DeError::Mismatch));
    assert_eq!(read_object(o, "o").unwrap().unwrap().len(), 1);
    assert_eq!(read_object(o, "l").err(), Some(DeError::Mismatch));
    assert!(member(o, "o").is_some());
    assert!(member(o, "O").is_none());
    assert!(!repeated(o, "t"));
    assert!(same_text("a\u{20ac}", "a\u{20ac}"));
    assert!(!same_text("a", "b"));
    assert!(!same_text("a", "ab"));

    let twice = vec![
        ("k".to_string(), Json::Bool(true)),
        ("other".to_string(), Json::Null),
        ("k".to_string(), Json::Str("again".to_string())),
    ];
    assert!(repeated(&twice, "k"));
    assert!(!repeated(&twice, "other"));
    assert_eq!(read_bool(&twice, "k"), Err(DeError::Duplicate));
    assert_eq!(read_text(&twice, "k"), Err(DeError::Mismatch));
    assert!(matches!(read_field(&twice, "other", Kind::Bool), Err(DeError::Mismatch)));
    assert!(matches!(read_field(&twice, "none", Kind::Bool), Ok(None)));
}

#[test]
fn proxy_and_timeouts() {
    let j = object(r#"{"proxyType":"manual","noProxy":["a","b"],"socksProxy":"h:1","socksVersion":5,"x":1}"#);
    let p = Proxy::from_json(j.members().unwrap()).unwrap();
    assert_eq!(p.proxy_type, "manual");
    assert_eq!(p.no_proxy, vec!["a", "b"]);
    assert_eq!(p.socks_version, 5);
    assert_eq!(p.http_proxy, "");
    assert_eq!(
        text(&p.to_json()),
        r#"{"proxyType":"manual","noProxy":["a","b"],"socksProxy":"h:1","socksVersion":5}"#
    );
    assert_eq!(text(&Proxy::empty().to_json()), "{}");
    let all = object(r#"{"proxyType":"pac","proxyAutoconfigUrl":"u","ftpProxy":"f","httpProxy":"h","sslProxy":"s"}"#);
    assert_eq!(
        text(&Proxy::from_json(all.members().unwrap()).unwrap().to_json()),
        r#"{"proxyType":"pac","proxyAutoconfigUrl":"u","ftpProxy":"f","httpProxy":"h","sslProxy":"s"}"#
    );
    assert_eq!(
        Proxy::from_json(object(r#"{"socksVersion":256}"#).members().unwrap()).err(),
        Some(DeError::Mismatch)
    );
    assert_eq!(
        Proxy::from_json(object(r#"{"noProxy":"a"}"#).members().unwrap()).err(),
        Some(DeError::Mismatch)
    );
    let t = Timeouts::from_json(object(r#"{"implicit":0,"pageLoad":300000,"script":30000}"#).members().unwrap()).unwrap();
    assert_eq!(t, Timeouts { script: 30000, page_load: 300000, implicit: 0 });
    assert_eq!(t, Timeouts::default());
    assert_eq!(text(&t.to_json()), r#"{"script":30000,"pageLoad":300000,"implicit":0}"#);
    let t = Timeouts::from_json(object(r#"{"script":5}"#).members().unwrap()).unwrap();
    assert_eq!(t, Timeouts { script: 5, page_load: 0, implicit: 0 });
    assert!(Timeouts::from_json(object(r#"{"script":null}"#).members().unwrap()).is_err());
    assert!(Timeouts::from_json(object(r#"{"script":4294967296}"#).members().unwrap()).is_err());
}

#[test]
fn preferences_are_written_as_what_they_denote() {
    let mut m = VarValTypeMap::new();
    m.insert("profile.name", "A Real Human");
    m.insert("profile.avatar_index", "16");
    m.insert("dns_prefetching.enabled", "true");
    m.insert("browser.check_default_browser", "false");
    m.insert("plus", "+7");
    m.insert("zeros", "007");
    m.insert("big", "4294967295");
    m.insert("bigger", "4294967296");
    m.insert("neg", "-1");
    m.insert("empty", "");
    m.insert("sign", "+");
    m.insert("True", "True");
    assert_eq!(
        text(&m.to_json()),
        r#"{"True":"True","big":4294967295,"bigger":"4294967296","browser.check_default_browser":false,"dns_prefetching.enabled":true,"empty":"","neg":"-1","plus":7,"profile.avatar_index":16,"profile.name":"A Real Human","sign":"+","zeros":7}"#
    );
    assert_eq!(m.len(), 12);
    m.insert("plus", "one");
    m.insert("a", "1");
    m.insert("zz", "2");
    assert_eq!(m.len(), 14);
    let pairs = m.pairs();
    assert_eq!(pairs[0], ("True", "True"));
    assert_eq!(pairs[1], ("a", "1"));
    assert_eq!(pairs[13], ("zz", "2"));
    assert!(pairs.contains(&("plus", "one")));
    let names: Vec<&str> = pairs.iter().map(|p| p.0).collect();
    let mut sorted = names.clone();
    sorted.sort();
    assert_eq!(names, sorted);
    let again = VarValTypeMap::from_pairs(&vec![("b", "1"), ("a", "2"), ("b", "3"), ("ab", "4"), ("", "5")]);
    assert_eq!(again.pairs(), vec![("", "5"), ("a", "2"), ("ab", "4"), ("b", "3")]);
}

#[test]
fn chromium_answer() {
    let resp_str = r#"{"value":{"capabilities":{"acceptInsecureCerts":false,"browserName":"chrome","browserVersion":"107.0.5304.0","chrome":{"chromedriverVersion":"107.0.5304.0 (5d7b1fc9cb7103d9c82eed647cf4be38cf09738b-refs/heads/main@{#1047731})","userDataDir":"/tmp/.org.chromium.Chromium.TS0afe"},"goog:chromeOptions":{"debuggerAddress":"localhost:43515"},"networkConnectionEnabled":false,"pageLoadStrategy":"normal","platformName":"linux","proxy":{},"setWindowRect":true,"strictFileInteractability":false,"timeouts":{"implicit":0,"pageLoad":300000,"script":30000},"unhandledPromptBehavior":"dismiss and notify","webauthn:extension:credBlob":true,"webauthn:extension:largeBlob":true,"webauthn:virtualAuthenticators":true},"sessionId":"61314ad6a23266bdd381cfb7b584e8d3"}}"#;
    let obj = ChromSessResult::from_bytes(resp_str.as_bytes()).unwrap();
    assert_eq!(obj.session_id(), "61314ad6a23266bdd381cfb7b584e8d3");
    assert!(obj.wsurl().is_none());
    let c = &obj.value.capabilities;
    assert_eq!(c.browser_name(), Some("chrome"));
    assert_eq!(c.browser_version(), Some("107.0.5304.0"));
    assert_eq!(c.platform_name(), Some("linux"));
    assert_eq!(c.accept_insecure_certs(), Some(false));
    assert_eq!(c.page_load_strategy(), Some("normal"));
    assert_eq!(c.proxy_type(), Some(""));
    assert_eq!(c.no_proxy(), Some(vec![]));
    assert_eq!(c.socks_version(), Some(0));
    assert_eq!(c.window_rect(), Some(true));
    assert_eq!(c.timeouts_script(), Some(30000));
    assert_eq!(c.timeouts_page_load(), Some(300000));
    assert_eq!(c.timeouts_implicit(), Some(0));
    assert_eq!(c.strict_file_interactability(), Some(false));
    assert_eq!(c.unhandled_prompt_behavior(), Some("dismiss and notify"));
    assert_eq!(c.debugger_address(), Some("localhost:43515"));
    assert!(c.binary().is_none() && c.args().is_none() && c.prefs().is_none());
    assert!(!c.is_insig() && !c.is_insig_as_w3c());
    assert_eq!(c.user_data_dir_as_alien(), Some("/tmp/.org.chromium.Chromium.TS0afe"));
    assert!(c.chromedriver_version_as_alien().unwrap().starts_with("107.0.5304.0 ("));
    assert_eq!(c.network_connection_enabled_as_alien(), Some(false));
    assert_eq!(c.webauthn_extension_cred_blob_as_alien(), Some(true));
    assert_eq!(c.webauthn_extension_large_blob_as_alien(), Some(true));
    assert_eq!(c.webauthn_virtual_authenticators_as_alien(), Some(true));
    assert_eq!(c.webauthn_extension_prf_as_alien(), None);
    assert_eq!(c.webauthn_extension_min_pin_length_as_alien(), None);

    for (from, to, err) in [
        ("\"browserName\":\"chrome\",", "", DeError::Missing),
        ("\"proxy\":{},", "", DeError::Missing),
        ("\"networkConnectionEnabled\":false,", "", DeError::Missing),
        ("\"userDataDir\":", "\"userData\":", DeError::Missing),
        ("\"setWindowRect\":true", "\"setWindowRect\":1", DeError::Mismatch),
        ("\"script\":30000", "\"script\":\"x\"", DeError::Mismatch),
        ("\"sessionId\":\"61314ad6a23266bdd381cfb7b584e8d3\"", "\"sessionId\":7", DeError::Mismatch),
        ("\"goog:chromeOptions\":{", "\"goog:chromeOptions\":{\"args\":\"--x\",", DeError::Mismatch),
        ("\"}}", "\"}", DeError::Syntax),
    ] {
        assert!(resp_str.contains(from));
        let changed = resp_str.replacen(from, to, 1);
        assert_eq!(ChromSessResult::from_bytes(changed.as_bytes()).err(), Some(err));
    }
    assert!(GeckoSessResult::from_bytes(resp_str.as_bytes()).is_err());
}

#[test]
fn gecko_answer() {
    let resp_str = r#"{"value":{"sessionId":"s1","capabilities":{"acceptInsecureCerts":false,"browserName":"firefox","browserVersion":"102.9.0","moz:profile":"/tmp/p","pageLoadStrategy":"normal","platformName":"linux","setWindowRect":true,"strictFileInteractability":false,"timeouts":{"implicit":0,"pageLoad":300000,"script":30000},"unhandledPromptBehavior":"dismiss and notify","unknown":{"a":[1,2,3]}}}}"#;
    let obj = GeckoSessResult::from_bytes(resp_str.as_bytes()).unwrap();
    let c = &obj.value.capabilities;
    assert_eq!(c.profile(), Some("/tmp/p"));
    assert!(c.binary().is_none());
    assert!(c.proxy_type().is_none());
    assert!(c.android_package().is_none());
    assert_eq!(c.browser_name(), Some("firefox"));
    for (from, to, err) in [
        ("\"moz:profile\":\"/tmp/p\",", "", DeError::Missing),
        ("\"moz:profile\":\"/tmp/p\"", "\"moz:profile\":\"/tmp/p\",\"moz:headless\":\"no\"", DeError::Mismatch),
        ("\"moz:profile\":\"/tmp/p\"", "\"moz:profile\":\"/tmp/p\",\"moz:processID\":-4", DeError::Mismatch),
        ("\"platformName\":\"linux\"", "\"platformName\":null", DeError::Mismatch),
        ("\"value\":", "\"values\":", DeError::Missing),
    ] {
        let changed = resp_str.replacen(from, to, 1);
        assert_eq!(GeckoSessResult::from_bytes(changed.as_bytes()).err(), Some(err));
    }
    let twice = vec![
        ("browserName".to_string(), Json::Str("a".to_string())),
        ("browserName".to_string(), Json::Str("b".to_string())),
    ];
    assert_eq!(FirefoxCapa::from_json(&twice).err(), Some(DeError::Duplicate));
    assert_eq!(ChromiumCapa::from_json(&twice).err(), Some(DeError::Duplicate));
}

#[test]
fn setters_and_getters() {
    let mut c = ChromiumCapa::default();
    assert!(c.is_insig() && c.is_insig_as_w3c());
    c.set_browser_name_owned("b");
    c.set_browser_version_take("1".to_string());
    c.set_platform_name_owned("p");
    c.set_accept_insecure_certs(true);
    c.set_page_load_strategy("eager");
    c.set_page_load_strategy_take("none".to_string());
    c.set_unhandled_prompt_behavior_owned("accept");
    c.set_strict_file_interactability(true);
    c.set_window_rect(false);
    c.set_timeouts_implicit(3);
    c.set_timeouts_page_load(4);
    c.set_proxy_autoconfig_url("pac");
    c.set_ftp_proxy("f");
    c.set_http_proxy("h");
    c.set_ssl_proxy("s");
    c.set_socks_proxy_owned("o");
    c.set_socks_proxy_take("t".to_string());
    c.set_no_proxy(vec!["a"]);
    c.add_no_proxy("b");
    c.set_wsurl("ws://x");
    assert_eq!(c.browser_name(), Some("b"));
    assert_eq!(c.browser_version(), Some("1"));
    assert_eq!(c.platform_name(), Some("p"));
    assert_eq!(c.page_load_strategy(), Some("none"));
    assert_eq!(c.unhandled_prompt_behavior(), Some("accept"));
    assert_eq!(c.window_rect(), Some(false));
    assert_eq!(c.timeouts_script(), Some(30000));
    assert_eq!(c.timeouts_page_load(), Some(4));
    assert_eq!(c.timeouts_implicit(), Some(3));
    assert_eq!(c.proxy_type(), Some(""));
    assert_eq!(c.proxy_autoconfig_url(), Some("pac"));
    assert_eq!(c.ftp_proxy(), Some("f"));
    assert_eq!(c.http_proxy(), Some("h"));
    assert_eq!(c.ssl_proxy(), Some("s"));
    assert_eq!(c.socks_proxy(), Some("t"));
    assert_eq!(c.no_proxy(), Some(vec!["a", "b"]));
    assert_eq!(c.wsurl(), Some("ws://x"));
    c.enable_bidi();
    assert_eq!(c.wsurl(), Some(""));
    c.set_wsurl_take("u".to_string());
    assert_eq!(c.wsurl(), Some("u"));
    assert!(c.is_insig() && !c.is_insig_as_w3c());
    assert_eq!(
        text(&c.to_json()),
        r#"{"browserName":"b","browserVersion":"1","platformName":"p","acceptInsecureCerts":true,"pageLoadStrategy":"none","setWindowRect":false,"strictFileInteractability":true,"unhandledPromptBehavior":"accept","timeouts":{"script":30000,"pageLoad":4,"implicit":3},"proxy":{"proxyAutoconfigUrl":"pac","ftpProxy":"f","httpProxy":"h","noProxy":["a","b"],"sslProxy":"s","socksProxy":"t"},"webSocketUrl":true}"#
    );

    c.set_extensions(vec!["e1"]);
    c.add_extensions("e2");
    c.set_detach(true);
    c.set_debugger_address("d");
    c.set_debugger_address_take("d2".to_string());
    c.set_exclude_switches(vec![]);
    c.add_exclude_switches("x");
    c.set_minidump_path("m");
    c.add_window_types("w1");
    c.set_window_types(vec!["w2"]);
    c.set_prefs(vec![("k", "v"), ("a", "true")]);
    c.add_prefs("k", "2");
    c.set_args(vec![]);
    assert_eq!(c.extensions(), Some(vec!["e1", "e2"]));
    assert_eq!(c.detach(), Some(true));
    assert_eq!(c.debugger_address(), Some("d2"));
    assert_eq!(c.exclude_switches(), Some(vec!["x"]));
    assert_eq!(c.minidump_path(), Some("m"));
    assert_eq!(c.window_types(), Some(vec!["w2"]));
    assert_eq!(c.prefs(), Some(vec![("a", "true"), ("k", "2")]));
    assert_eq!(c.args(), Some(vec![]));
    assert_eq!(
        text(&c.ext.to_json()),
        r#"{"args":[],"extensions":["e1","e2"],"prefs":{"a":true,"k":2},"detach":true,"debuggerAddress":"d2","excludeSwitches":["x"],"minidumpPath":"m","windowTypes":["w2"]}"#
    );
    c.set_chromedriver_version_as_alien("v");
    c.set_chromedriver_version_take_as_alien("v2".to_string());
    c.set_user_data_dir_as_alien("u");
    c.set_user_data_dir_take_as_alien("u2".to_string());
    c.set_network_connection_enabled_as_alien(true);
    c.set_webauthn_extension_cred_blob_as_alien(true);
    c.set_webauthn_extension_large_blob_as_alien(false);
    c.set_webauthn_virtual_authenticators_as_alien(true);
    c.set_webauthn_extension_prf_as_alien(true);
    c.set_webauthn_extension_min_pin_length_as_alien(true);
    assert_eq!(c.chromedriver_version_as_alien(), Some("v2"));
    assert_eq!(c.user_data_dir_as_alien(), Some("u2"));
    assert_eq!(c.webauthn_extension_large_blob_as_alien(), Some(false));
    assert_eq!(c.webauthn_extension_prf_as_alien(), None);

    let mut f = FirefoxCapa::default();
    f.set_profile("p");
    assert_eq!(f.profile(), Some("p"));
    assert!(f.binary().is_none());
    f.set_profile_take("q".to_string());
    f.set_android_package("org.mozilla");
    assert!(f.android_package().is_none());
    f.set_prefs(vec![("b", "2"), ("a", "1")]);
    f.set_args(vec!["-headless"]);
    assert_eq!(f.prefs(), Some(vec![("a", "1"), ("b", "2")]));
    assert_eq!(
        text(&f.to_json()),
        r#"{"moz:firefoxOptions":{"args":["-headless"],"profile":"q","prefs":{"a":1,"b":2}}}"#
    );
    let copy = FirefoxCapa::from_other(&f);
    assert_eq!(text(&copy.to_json()), text(&f.to_json()));
    assert!(copy.is_conflict_with(&f));
    assert!(!copy.is_conflict_with_as_w3c(&f));
    let plain = FirefoxCapa::from_other_as_w3c(&f);
    assert_eq!(text(&plain.to_json()), "{}");
    let copy = ChromiumCapa::from_other(&c);
    assert_eq!(text(&copy.to_json()), text(&c.to_json()));
    assert!(copy.is_conflict_with(&c) && copy.is_conflict_with_as_w3c(&c));
    assert!(copy.user_data_dir_as_alien().is_none());
}

#[test]
fn chromium_session_id_is_thirty_two_hex_digits() {
    let resp_str = r#"{"value":{"capabilities":{"acceptInsecureCerts":false,"browserName":"chrome","browserVersion":"107.0.5304.0","chrome":{"chromedriverVersion":"107.0.5304.0 (5d7b1fc9cb7103d9c82eed647cf4be38cf09738b-refs/heads/main@{#1047731})","userDataDir":"/tmp/.org.chromium.Chromium.TS0afe"},"goog:chromeOptions":{"debuggerAddress":"localhost:43515"},"networkConnectionEnabled":false,"pageLoadStrategy":"normal","platformName":"linux","proxy":{},"setWindowRect":true,"strictFileInteractability":false,"timeouts":{"implicit":0,"pageLoad":300000,"script":30000},"unhandledPromptBehavior":"dismiss and notify","webauthn:extension:credBlob":true,"webauthn:extension:largeBlob":true,"webauthn:virtualAuthenticators":true},"sessionId":"61314ad6a23266bdd381cfb7b584e8d3"}}"#;
    let obj = ChromSessResult::from_bytes(resp_str.as_bytes()).unwrap();
    let id = obj.session_id();
    assert_eq!(id.len(), 32);
    assert!(id.chars().all(|c| c.is_ascii_hexdigit() && !c.is_ascii_uppercase()));
}

#[test]
fn every_specified_standard_capability_is_written() {
    let mut f = FirefoxCapa::default();
    f.set_page_load_strategy("eager");
    assert!(!f.is_insig_as_w3c());
    assert_eq!(text(&f.to_json()), r#"{"pageLoadStrategy":"eager"}"#);
    f.set_window_rect(true);
    f.set_unhandled_prompt_behavior("dismiss");
    f.set_platform_name("linux");
    f.set_strict_file_interactability(false);
    assert_eq!(
        text(&f.to_json()),
        r#"{"platformName":"linux","pageLoadStrategy":"eager","setWindowRect":true,"strictFileInteractability":false,"unhandledPromptBehavior":"dismiss"}"#
    );

    let mut c = ChromiumCapa::default();
    c.set_unhandled_prompt_behavior("accept");
    assert_eq!(text(&c.to_json()), r#"{"unhandledPromptBehavior":"accept"}"#);
    c.set_window_rect(false);
    assert_eq!(
        text(&c.to_json()),
        r#"{"setWindowRect":false,"unhandledPromptBehavior":"accept"}"#
    );
}
