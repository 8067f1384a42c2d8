use wdc::wdcmd::session::{
    FirefoxCapa, FirefoxCapaGetter, FirefoxCapaSetter, GeckoCapRequ, GeckoCapRequSetter,
    GeckoSessResult, W3cCapRequSetter, W3cCapaGetter, W3cCapaSetter, W3cSessResultGetter,
};

#[test]
fn gec__0() {
    // no user intention present. this results in a invalid session,
    // #3-3 on https://w3c.github.io/webdriver/#dfn-matching-capabilities
    // will not make sure the final matched capabilities not null. And
    // this is prevented in advance per by #7.2-3-2.
    let requ = GeckoCapRequ::default();

    assert_eq!(requ.always_match.browser_name().is_none(), true);
    assert_eq!(requ.always_match.platform_name().is_none(), true);
    assert_eq!(requ.always_match.is_insig_as_w3c(), true);
    assert_eq!(requ.first_match.len(), 0);
}

#[test]
fn gec_w3c_compl__1() {
    // a tolerant match, this is the least condition for a
    // valid session, see #7.2-3-2.

    let mut requ = GeckoCapRequ::default();
    {
        let capa = FirefoxCapa::default();

        requ.allow_as_w3c(&capa);

        assert_eq!(requ.always_match.browser_name().is_none(), true);
        assert_eq!(requ.always_match.platform_name().is_none(), true);
        assert_eq!(requ.always_match.is_insig_as_w3c(), true);
        assert_eq!(requ.first_match.len(), 1);
    }
}

#[test]
fn gec__2() {
    let mut requ = GeckoCapRequ::default();
    let capa = FirefoxCapa::default();

    requ.allow_as_w3c(&capa);
    requ.allow_as_w3c(&capa);

    assert_eq!(requ.always_match.browser_name().is_none(), true);
    assert_eq!(requ.always_match.platform_name().is_none(), true);
    assert_eq!(requ.always_match.is_insig_as_w3c(), true);
    assert_eq!(requ.first_match.len(), 2);
}

#[test]
fn gec__3() {
    // exact one platform
    let mut requ = GeckoCapRequ::default();
    let mut capa = FirefoxCapa::default();

    capa.set_platform_name("linux");
    requ.mandate_as_w3c(&capa);

    assert_eq!(requ.always_match.browser_name().is_none(), true);
    assert_eq!(requ.always_match.platform_name().is_some(), true);
    assert_eq!(requ.always_match.platform_name().unwrap(), "linux");
    assert_eq!(requ.always_match.is_insig_as_w3c(), false);
    assert_eq!(requ.first_match.len(), 0);
}

#[test]
fn gec__4() {
    // exact one platform
    let mut requ = GeckoCapRequ::default();
    let mut capa = FirefoxCapa::default();

    capa.set_platform_name("linux");
    requ.allow_as_w3c(&capa);

    assert_eq!(requ.always_match.platform_name().is_none(), true);
    assert_eq!(requ.first_match.len(), 1);
    assert_eq!(
        requ.first_match.get(0).unwrap().platform_name().unwrap(),
        "linux"
    );
}

#[test]
fn gec__5() {
    // any browser, exact one of two platforms
    let mut requ = GeckoCapRequ::default();
    let mut capa = FirefoxCapa::default();

    capa.set_platform_name("linux");
    requ.allow_as_w3c(&capa);
    let mut capa = FirefoxCapa::default();
    capa.set_platform_name("win");
    requ.allow_as_w3c(&capa);

    assert_eq!(requ.first_match.len(), 2);
    assert_eq!(
        requ.first_match.get(0).unwrap().platform_name().unwrap(),
        "linux"
    );
    assert_eq!(
        requ.first_match.get(1).unwrap().platform_name().unwrap(),
        "win"
    );
}

#[test]
fn gec__6() {
    // exact one browser, exact one of three platforms
    let mut requ = GeckoCapRequ::default();
    let mut capa = FirefoxCapa::default();

    capa.set_browser_name("firefox");
    requ.mandate_as_w3c(&capa);

    let mut capa1 = FirefoxCapa::default();
    let mut capa2 = FirefoxCapa::default();
    let mut capa3 = FirefoxCapa::default();
    capa1.set_platform_name("linux");
    capa2.set_platform_name("mac");
    capa3.set_platform_name("win");

    requ.allow_as_w3c(&capa1)
        .allow_as_w3c(&capa2)
        .allow_as_w3c(&capa3);

    assert_eq!(requ.always_match.browser_name().is_some(), true);
    assert_eq!(requ.always_match.browser_name().unwrap(), "firefox");
    assert_eq!(requ.first_match.len(), 3);
    assert_eq!(
        requ.first_match.get(0).unwrap().platform_name().unwrap(),
        "linux"
    );
    assert_eq!(
        requ.first_match.get(1).unwrap().platform_name().unwrap(),
        "mac"
    );
    assert_eq!(
        requ.first_match.get(2).unwrap().platform_name().unwrap(),
        "win"
    );
}

#[test]
fn gec__7() {
    // capa conflicts
    let mut requ = GeckoCapRequ::default();
    let mut capa = FirefoxCapa::default();

    capa.set_browser_name("firefox");
    requ.mandate_as_w3c(&capa);
    let mut capa = FirefoxCapa::default();
    capa.set_browser_name("edge");
    capa.set_platform_name("linux");
    requ.allow_as_w3c(&capa);
    assert_eq!(requ.always_match.browser_name().is_some(), true);
    assert_eq!(requ.always_match.browser_name().unwrap(), "firefox");
    assert_eq!(requ.first_match.len(), 0);
}

#[test]
fn gec__8() {
    // mandate() override allow()
    let mut requ = GeckoCapRequ::default();

    let mut capa = FirefoxCapa::default();
    capa.set_browser_name("edge");
    capa.set_platform_name("linux");
    requ.allow_as_w3c(&capa);

    let mut capa = FirefoxCapa::default();
    capa.set_browser_name("edge");
    capa.set_platform_name("win");
    requ.allow_as_w3c(&capa);

    assert_eq!(requ.always_match.browser_name().is_none(), true);
    assert_eq!(requ.first_match.len(), 2);

    let mut capa = FirefoxCapa::default();
    capa.set_browser_name("firefox");
    requ.mandate_as_w3c(&capa);

    assert_eq!(requ.always_match.browser_name().is_some(), true);
    assert_eq!(requ.always_match.browser_name().unwrap(), "firefox");
    assert_eq!(requ.first_match.len(), 0);
}

#[test]
fn _9() {
    let mut requ = GeckoCapRequ::default();
    let mut capa = FirefoxCapa::default();

    capa.set_timeouts_script(1234);
    requ.mandate_as_w3c(&capa);

    assert_eq!(requ.always_match.timeouts_script().is_some(), true);
    assert_eq!(requ.always_match.is_insig_as_w3c(), false);
    assert_eq!(requ.first_match.len(), 0);
}

#[test]
fn _10() {
    let mut requ = GeckoCapRequ::default();
    let mut capa = FirefoxCapa::default();

    capa.set_proxy_type("manual");
    capa.set_socks_version(5);
    capa.set_socks_proxy("127.0.0.1:10801");

    requ.mandate_as_w3c(&capa);

    assert_eq!(requ.always_match.proxy_type().is_some(), true);
    assert_eq!(requ.always_match.socks_version().is_some(), true);
    assert_eq!(requ.always_match.socks_proxy().is_some(), true);
    assert_eq!(requ.always_match.is_insig_as_w3c(), false);
    assert_eq!(requ.first_match.len(), 0);
}

#[test]
fn gec__1() {
    // bare initialization

    let requ = GeckoCapRequ::default();

    assert_eq!(requ.always_match.binary().is_none(), true);
    assert_eq!(requ.always_match.is_insig(), true);
    assert_eq!(requ.first_match.len(), 0);
}

#[test]
fn gec_gecko_compl__2() {
    let mut requ = GeckoCapRequ::default();
    let capa = FirefoxCapa::default();

    requ.allow(&capa);

    assert_eq!(requ.first_match.len(), 1);
}

#[test]
fn gec_gecko_compl__3() {
    let mut requ = GeckoCapRequ::default();
    let capa = FirefoxCapa::default();
    ();

    requ.allow(&capa);
    requ.allow(&capa);

    assert_eq!(requ.first_match.len(), 2);
}

#[test]
fn gec_gecko_compl__4() {
    // `binary` field
    // exact one binary
    let mut requ = GeckoCapRequ::default();
    let mut capa = FirefoxCapa::default();

    capa.set_binary("/path/to/binary");
    requ.mandate(&capa);

    assert_eq!(requ.always_match.binary().is_none(), false);
    assert_eq!(requ.always_match.binary().unwrap(), "/path/to/binary");
    assert_eq!(requ.always_match.is_insig(), false);
    assert_eq!(requ.first_match.len(), 0);
}

#[test]
fn gec_gecko_compl__5() {
    // `binary` `args` field
    // exact one of two binaries
    let mut requ = GeckoCapRequ::default();
    let mut capa1 = FirefoxCapa::default();
    let mut capa2 = FirefoxCapa::default();

    capa1.set_binary("/path/to/binary");
    capa1.add_args("--compact-dump");
    capa2.set_binary("/path/to/binary-beta");
    capa2.add_args("--verbose-dump");
    capa2.add_args("--headless");
    requ.allow(&capa1).allow(&capa2);

    assert_eq!(requ.always_match.binary().is_none(), true);
    assert_eq!(requ.first_match.len(), 2);
    assert_eq!(
        requ.first_match.get(0).unwrap().binary().unwrap(),
        "/path/to/binary"
    );
    assert_eq!(
        requ.first_match.get(0).unwrap().args().unwrap(),
        vec!["--compact-dump"]
    );
    assert_eq!(
        requ.first_match.get(1).unwrap().binary().unwrap(),
        "/path/to/binary-beta"
    );
    assert_eq!(
        requ.first_match.get(1).unwrap().args().unwrap(),
        vec!["--verbose-dump", "--headless"]
    );
}

#[test]
fn gec_gecko_compl__6() {
    // `binary` `args` field
    // exact one args, exact one of two binaries
    let mut requ = GeckoCapRequ::default();
    let mut capa1 = FirefoxCapa::default();
    let mut capa2 = FirefoxCapa::default();
    let mut capa3 = FirefoxCapa::default();

    capa1.add_args("--headless");
    capa1.add_args("--no-proxy-server");
    requ.mandate(&capa1);
    capa2.set_binary("/path/to/binary");
    capa3.set_binary("/path/to/binary-beta");
    requ.allow(&capa2).allow(&capa3);

    assert_eq!(requ.always_match.args().is_some(), true);
    assert_eq!(requ.always_match.args().unwrap().len(), 2);
    assert_eq!(
        requ.always_match.args().unwrap().get(0).unwrap(),
        &"--headless"
    );
    assert_eq!(
        requ.always_match.args().unwrap().get(1).unwrap(),
        &"--no-proxy-server"
    );
    assert_eq!(requ.first_match.len(), 2);
    assert_eq!(
        requ.first_match.get(0).unwrap().binary().unwrap(),
        "/path/to/binary"
    );
    assert_eq!(
        requ.first_match.get(1).unwrap().binary().unwrap(),
        "/path/to/binary-beta"
    );
}

#[test]
fn gec_gecko_compl__7() {
    // `binary` field
    // mandate() override allow()
    let mut requ = GeckoCapRequ::default();

    let mut capa = FirefoxCapa::default();
    capa.set_binary("/path/to/binary_v1.0");
    requ.allow(&capa);

    let mut capa = FirefoxCapa::default();
    capa.set_binary("/path/to/binary_v2.0");
    requ.allow(&capa);

    assert_eq!(requ.always_match.binary().is_none(), true);
    assert_eq!(requ.first_match.len(), 2);

    let mut capa = FirefoxCapa::default();
    capa.set_binary("/path/to/binary_v3.0");
    requ.mandate(&capa);

    assert_eq!(requ.always_match.binary().is_some(), true);
    assert_eq!(requ.first_match.len(), 0);
}

#[test]
fn gec_gecko_compl__8() {
    // `prefs` field

    let mut requ = GeckoCapRequ::default();
    let mut capa = FirefoxCapa::default();

    capa.set_binary("/path/to/firefox");
    capa.add_prefs("browser.urlbar.placeholderName", "My Search Engine");
    capa.add_prefs("javascript.enabled", "false");

    requ.mandate(&capa);

    assert_eq!(requ.always_match.binary().is_some(), true);
    assert_eq!(requ.always_match.prefs().is_some(), true);
    assert_eq!(requ.always_match.prefs().unwrap().len(), 2);
    assert_eq!(requ.first_match.len(), 0);
}

#[test]
fn gec_together_compl__0() {
    // use as w3c conf works just partly

    let mut requ = GeckoCapRequ::default();
    let mut capa = FirefoxCapa::default();

    capa.set_browser_name("firefox");
    capa.set_browser_version("106.0.0");
    capa.set_binary("/path/to/firefox");
    capa.add_args("--headless");

    requ.mandate_as_w3c(&capa);

    assert_eq!(requ.always_match.is_insig_as_w3c(), false);
    // all gecko-* are insig:
    assert_eq!(requ.always_match.is_insig(), true);
    //  no bin:
    assert_eq!(requ.always_match.binary().is_none(), true);
    assert_eq!(requ.first_match.len(), 0);
}

#[test]
fn gec_together_compl__1() {
    // use as gecko conf works fine

    let mut requ = GeckoCapRequ::default();
    let mut capa = FirefoxCapa::default();

    capa.set_browser_name("firefox");
    capa.set_browser_version("106.0.0");
    capa.set_binary("/path/to/firefox");
    capa.add_args("--headless");

    requ.mandate(&capa); // use gecko own impl mandate

    assert_eq!(requ.always_match.is_insig_as_w3c(), false);
    // not all gecko-* are insig:
    assert_eq!(requ.always_match.is_insig(), false);
    // there is bin
    assert_eq!(requ.always_match.binary().is_some(), true);
    assert_eq!(requ.first_match.len(), 0);
}

#[test]
fn gec_together_compl__2() {
    // use as gecko conf works fine

    let mut requ = GeckoCapRequ::default();
    let mut capa1 = FirefoxCapa::default();
    let mut capa2 = FirefoxCapa::default();
    let mut capa3 = FirefoxCapa::default();

    capa1.set_browser_name("firefox");
    requ.mandate(&capa1);

    capa2.set_platform_name("linux");
    capa2.add_args("--headless");
    capa3.set_platform_name("win");
    capa3.add_args("--headless");
    requ.allow(&capa2).allow(&capa3);

    assert_eq!(requ.always_match.browser_name().is_some(), true);
    assert_eq!(requ.always_match.browser_name().unwrap(), "firefox");
    assert_eq!(requ.first_match.len(), 2);
    assert_eq!(
        requ.first_match.get(0).unwrap().platform_name().unwrap(),
        "linux"
    );
    assert_eq!(
        requ.first_match.get(0).unwrap().args().unwrap(),
        vec!["--headless"]
    );
    assert_eq!(
        requ.first_match.get(1).unwrap().platform_name().unwrap(),
        "win"
    );
    assert_eq!(
        requ.first_match.get(0).unwrap().args().unwrap(),
        vec!["--headless"]
    );
}

#[test]
fn gec_ser__1() {
    let requ = GeckoCapRequ::default();


    // json str is correct?
    let actual = requ.to_json().to_text().unwrap();
    let expect = r#"{"alwaysMatch":{},"firstMatch":[]}"#;
    assert_eq!(actual, expect);
}

#[test]
fn gec_ser__2() {
    let mut requ = GeckoCapRequ::default();
    let capa = FirefoxCapa::default();

    requ.allow(&capa);


    // json str is correct?
    let actual = requ.to_json().to_text().unwrap();
    let expect = r#"{"alwaysMatch":{},"firstMatch":[{}]}"#;
    assert_eq!(actual, expect);
}

#[test]
fn gec_ser__3() {
    // currently, multiple empty ele inside am is valid,

    let mut requ = GeckoCapRequ::default();
    let capa = FirefoxCapa::default();

    requ.allow(&capa);
    requ.allow(&capa);


    // json str is correct?.
    let actual = requ.to_json().to_text().unwrap();
    let expect = r#"{"alwaysMatch":{},"firstMatch":[{},{}]}"#;
    assert_eq!(actual, expect);
}

#[test]
fn gec_ser__4() {
    // set 1 field

    let mut requ = GeckoCapRequ::default();
    let mut capa = FirefoxCapa::default();

    capa.set_platform_name("linux");

    requ.mandate_as_w3c(&capa);


    // json str is correct?
    let actual = requ.to_json().to_text().unwrap();
    let expect = r#"{"alwaysMatch":{"platformName":"linux"},"firstMatch":[]}"#;
    assert_eq!(actual, expect);
}

#[test]
fn gec_ser__44() {
    // set 1 field

    let mut requ = GeckoCapRequ::default();
    let mut capa = FirefoxCapa::default();

    capa.set_timeouts_script(1234);

    requ.mandate_as_w3c(&capa);


    // json str is correct?
    let actual = requ.to_json().to_text().unwrap();
    let expect = r#"{"alwaysMatch":{"timeouts":{"script":1234,"pageLoad":300000,"implicit":0}},"firstMatch":[]}"#;
    assert_eq!(actual, expect);
}

#[test]
fn gec_ser__444() {
    // set proxy field

    let mut requ = GeckoCapRequ::default();
    let mut capa = FirefoxCapa::default();

    capa.set_proxy_type("manual");
    capa.set_socks_version(5);
    capa.set_socks_proxy("127.0.0.1:1080");
    capa.add_no_proxy("192.168.1.0/24");

    requ.mandate_as_w3c(&capa);


    // json str is correct ?
    let actual = requ.to_json().to_text().unwrap();
    let expect = r#"{"alwaysMatch":{"proxy":{"proxyType":"manual","noProxy":["192.168.1.0/24"],"socksProxy":"127.0.0.1:1080","socksVersion":5}},"firstMatch":[]}"#;
    assert_eq!(actual, expect);
}

#[test]
fn _4444() {
    // set 1 field

    let mut requ = GeckoCapRequ::default();
    let mut capa = FirefoxCapa::default();

    capa.enable_bidi();

    requ.mandate_as_w3c(&capa);


    // json str is correct?
    let actual = requ.to_json().to_text().unwrap();
    let expect = r#"{"alwaysMatch":{"webSocketUrl":true},"firstMatch":[]}"#;
    assert_eq!(actual, expect);
}

#[test]
fn gec_ser__5() {
    // set two fields

    let mut requ = GeckoCapRequ::default();
    let mut capa = FirefoxCapa::default();

    capa.set_platform_name("linux");
    capa.set_browser_name("firefox");
    // NOTE that here setting order has no effect on final tokens,
    // final token stream will be compliant to the order specified
    // on https://w3c.github.io/webdriver/#dfn-table-of-standard-capabilities

    requ.mandate_as_w3c(&capa);


    // json str is correct?
    let actual = requ.to_json().to_text().unwrap();
    let expect = r#"{"alwaysMatch":{"browserName":"firefox","platformName":"linux"},"firstMatch":[]}"#;
    assert_eq!(actual, expect);
}

#[test]
fn gec_ser__6() {
    //  mandate 1, allow 2

    let mut requ = GeckoCapRequ::default();

    let mut capa = FirefoxCapa::default();
    capa.set_browser_name("firefox");
    requ.mandate_as_w3c(&capa);

    let mut capa = FirefoxCapa::default();
    capa.set_platform_name("linux");
    requ.allow_as_w3c(&capa);

    let mut capa = FirefoxCapa::default();
    capa.set_platform_name("win");
    requ.allow_as_w3c(&capa);


    // json str is correct?
    let actual = requ.to_json().to_text().unwrap();
    let expect = r#"{"alwaysMatch":{"browserName":"firefox"},"firstMatch":[{"platformName":"linux"},{"platformName":"win"}]}"#;
    assert_eq!(actual, expect);
}

#[test]
fn gec_ser__7() {
    // allow two platforms, mandate one args

    let mut requ = GeckoCapRequ::default();

    let mut capa = FirefoxCapa::default();

    capa.set_browser_name("firefox");
    capa.add_args("--headless");
    requ.mandate(&capa);

    let mut capa = FirefoxCapa::default();
    capa.set_platform_name("linux");
    capa.set_binary("/usr/bin/firefox");
    requ.allow(&capa);

    let mut capa = FirefoxCapa::default();
    capa.set_platform_name("win");
    capa.set_binary("/c/program/firefox");
    requ.allow(&capa);


    // json str is correct?
    let actual = requ.to_json().to_text().unwrap();
    let expect = r#"{"alwaysMatch":{"browserName":"firefox","moz:firefoxOptions":{"args":["--headless"]}},"firstMatch":[{"platformName":"linux","moz:firefoxOptions":{"binary":"/usr/bin/firefox"}},{"platformName":"win","moz:firefoxOptions":{"binary":"/c/program/firefox"}}]}"#;
    assert_eq!(actual, expect);
}

#[test]
fn gec_ser__8() {
    // `prefs` field

    let mut requ = GeckoCapRequ::default();
    let mut capa = FirefoxCapa::default();

    capa.set_browser_name("firefox-nightly");
    capa.set_binary("/path/to/firefox");
    capa.add_prefs("browser.urlbar.placeholderName", "My Search Engine");
    capa.add_prefs("javascript.enabled", "false");

    requ.mandate(&capa);


    // json str is correct?
    let actual = requ.to_json().to_text().unwrap();
    let expect = r#"{"alwaysMatch":{"browserName":"firefox-nightly","moz:firefoxOptions":{"binary":"/path/to/firefox","prefs":{"browser.urlbar.placeholderName":"My Search Engine","javascript.enabled":false}}},"firstMatch":[]}"#;
    assert_eq!(actual, expect);
}

#[test]
fn gec_ser__88() {
    // `prefs` field, use non-std way

    let mut requ = GeckoCapRequ::default();

    let mut capa = FirefoxCapa::default();
    capa.set_proxy_type("manual");
    capa.set_socks_version(5);
    capa.set_socks_proxy("127.0.0.1:1080");
    capa.add_prefs("network.proxy.socks_remote_dns", "true");
    requ.mandate(&capa);


    // json str is correct?
    let actual = requ.to_json().to_text().unwrap();
    let expect = r#"{"alwaysMatch":{"proxy":{"proxyType":"manual","socksProxy":"127.0.0.1:1080","socksVersion":5},"moz:firefoxOptions":{"prefs":{"network.proxy.socks_remote_dns":true}}},"firstMatch":[]}"#;
    assert_eq!(actual, expect);
}

#[test]
fn gec_deser__1() {
    let resp_str = r#"{"value":{"sessionId":"314a5046-3bd1-4f4b-bb5b-811166386d0e","capabilities":{"acceptInsecureCerts":false,"browserName":"firefox","browserVersion":"102.9.0","moz:accessibilityChecks":false,"moz:buildID":"20230309232621","moz:geckodriverVersion":"0.32.2","moz:headless":false,"moz:processID":149672,"moz:profile":"/tmp/rust_mozprofilebDGEzq","moz:shutdownTimeout":60000,"moz:useNonSpecCompliantPointerOrigin":false,"moz:webdriverClick":true,"moz:windowless":false,"pageLoadStrategy":"normal","platformName":"linux","platformVersion":"6.1.0-6-amd64","proxy":{},"setWindowRect":true,"strictFileInteractability":false,"timeouts":{"implicit":0,"pageLoad":300000,"script":30000},"unhandledPromptBehavior":"dismiss and notify"}}}"#;

    let obj = GeckoSessResult::from_bytes(resp_str.as_bytes()).unwrap();

    assert_eq!(obj.session_id(), "314a5046-3bd1-4f4b-bb5b-811166386d0e");
}

#[test]
fn gec_deser__11() {
    let resp_str = r#"{"value":{"sessionId":"f1425a03-0245-43f6-8cdc-541af79a7720","capabilities":{"acceptInsecureCerts":false,"browserName":"firefox","browserVersion":"102.9.0","moz:accessibilityChecks":false,"moz:buildID":"20230309232621","moz:debuggerAddress":"localhost:9222","moz:geckodriverVersion":"0.33.0","moz:headless":false,"moz:processID":457134,"moz:profile":"/tmp/rust_mozprofilezTTjQ9","moz:shutdownTimeout":60000,"moz:useNonSpecCompliantPointerOrigin":false,"moz:webdriverClick":true,"moz:windowless":false,"pageLoadStrategy":"normal","platformName":"linux","platformVersion":"6.1.0-7-amd64","proxy":{},"setWindowRect":true,"strictFileInteractability":false,"timeouts":{"implicit":0,"pageLoad":300000,"script":30000},"unhandledPromptBehavior":"dismiss and notify","webSocketUrl":"ws://localhost:9222/session/f1425a03-0245-43f6-8cdc-541af79a7720"}}}"#;

    let obj = GeckoSessResult::from_bytes(resp_str.as_bytes()).unwrap();

    assert_eq!(obj.session_id(), "f1425a03-0245-43f6-8cdc-541af79a7720");
    assert_eq!(
        obj.wsurl().unwrap(),
        "ws://localhost:9222/session/f1425a03-0245-43f6-8cdc-541af79a7720"
    );
}

#[test]
fn gecko_conflicting_alternative_is_dropped() {
    let mut requ = GeckoCapRequ::default();

    let mut capa = FirefoxCapa::default();
    capa.set_platform_name("linux");
    requ.mandate_as_w3c(&capa);

    let mut capa = FirefoxCapa::default();
    capa.set_platform_name("win");
    requ.allow_as_w3c(&capa);

    assert_eq!(
        requ.to_json().to_text().unwrap(),
        r#"{"alwaysMatch":{"platformName":"linux"},"firstMatch":[]}"#
    );
}

#[test]
fn gecko_mandate_purges_by_profile() {
    let mut requ = GeckoCapRequ::default();
    let mut with_profile = FirefoxCapa::default();
    with_profile.set_profile("p1");
    let mut with_args = FirefoxCapa::default();
    with_args.add_args("-headless");
    requ.allow(&with_profile).allow(&with_args);
    assert_eq!(requ.first_match.len(), 2);

    let mut capa = FirefoxCapa::default();
    capa.set_profile("p2");
    requ.mandate(&capa);
    assert_eq!(
        requ.to_json().to_text().unwrap(),
        r#"{"alwaysMatch":{"moz:firefoxOptions":{"profile":"p2"}},"firstMatch":[{"moz:firefoxOptions":{"args":["-headless"]}}]}"#
    );
    requ.allow(&with_profile);
    assert_eq!(requ.first_match.len(), 1);
}
