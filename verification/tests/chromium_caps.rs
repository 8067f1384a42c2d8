use wdc::wdcmd::session::{
    ChromCapRequ, ChromCapRequSetter, ChromSessResult, ChromiumCapa, ChromiumCapaGetter,
    ChromiumCapaSetter, W3cCapRequSetter, W3cCapaGetter, W3cCapaSetter, W3cSessResultGetter,
};

#[test]
fn chr__0() {
    // no user intention present. this results in a invalid session,
    // #3-3 on https://w3c.github.io/webdriver/#dfn-matching-capabilities
    // will not make sure the final matched capabilities not null. And
    // this is prevented in advance per by #7.2-3-2.
    let requ = ChromCapRequ::default();

    assert_eq!(requ.always_match.browser_name().is_none(), true);
    assert_eq!(requ.always_match.platform_name().is_none(), true);
    assert_eq!(requ.always_match.is_insig_as_w3c(), true);
    assert_eq!(requ.first_match.len(), 0);
}

#[test]
fn chr__1() {
    // a tolerant match, this is the least condition for a
    // valid session, see #7.2-3-2.

    let mut requ = ChromCapRequ::default();
    let capa = ChromiumCapa::default();

    requ.allow_as_w3c(&capa);

    assert_eq!(requ.always_match.browser_name().is_none(), true);
    assert_eq!(requ.always_match.platform_name().is_none(), true);
    assert_eq!(requ.always_match.is_insig_as_w3c(), true);
    assert_eq!(requ.first_match.len(), 1);
}

#[test]
fn chr__11() {
    // a tolerant match, this is the least condition for a
    // valid session, see #7.2-3-2.

    let mut requ = ChromCapRequ::default();
    let capa = ChromiumCapa::default();

    requ.allow_as_w3c(&capa);

    let capa = ChromiumCapa::default();

    requ.mandate_as_w3c(&capa);

    assert_eq!(requ.always_match.browser_name().is_none(), true);
    assert_eq!(requ.always_match.platform_name().is_none(), true);
    assert_eq!(requ.always_match.is_insig_as_w3c(), true);
    assert_eq!(requ.first_match.len(), 1);
}

#[test]
fn chr__2() {
    let mut requ = ChromCapRequ::default();
    let capa = ChromiumCapa::default();

    requ.allow_as_w3c(&capa);
    requ.allow_as_w3c(&capa);

    assert_eq!(requ.always_match.browser_name().is_none(), true);
    assert_eq!(requ.always_match.platform_name().is_none(), true);
    assert_eq!(requ.always_match.is_insig_as_w3c(), true);
    assert_eq!(requ.first_match.len(), 2);
}

#[test]
fn chr__3() {
    // exact one platform
    let mut requ = ChromCapRequ::default();
    let mut capa = ChromiumCapa::default();

    capa.set_platform_name("linux");
    requ.mandate_as_w3c(&capa);

    assert_eq!(requ.always_match.browser_name().is_none(), true);
    assert_eq!(requ.always_match.platform_name().is_some(), true);
    assert_eq!(requ.always_match.platform_name().unwrap(), "linux");
    assert_eq!(requ.always_match.is_insig_as_w3c(), false);
    assert_eq!(requ.first_match.len(), 0);
}

#[test]
fn chr__4() {
    // exact one platform
    let mut requ = ChromCapRequ::default();
    let mut capa = ChromiumCapa::default();

    capa.set_platform_name("linux");
    requ.allow_as_w3c(&capa);

    assert_eq!(requ.always_match.platform_name().is_none(), true);
    assert_eq!(requ.first_match.len(), 1);
    assert_eq!(
        requ.first_match.get(0).unwrap().platform_name().unwrap(),
        "linux"
    );
}

#[test]
fn chr__5() {
    // any browser, exact one of two platforms
    let mut requ = ChromCapRequ::default();
    let mut capa = ChromiumCapa::default();

    capa.set_platform_name("linux");
    requ.allow_as_w3c(&capa);

    let mut capa = ChromiumCapa::default();
    capa.set_platform_name("win");
    requ.allow_as_w3c(&capa);

    assert_eq!(requ.first_match.len(), 2);
    assert_eq!(
        requ.first_match.get(0).unwrap().platform_name().unwrap(),
        "linux"
    );
    assert_eq!(
        requ.first_match.get(1).unwrap().platform_name().unwrap(),
        "win"
    );
}

#[test]
fn chr__6() {
    // exact one browser, exact one of three platforms
    let mut requ = ChromCapRequ::default();
    let mut capa = ChromiumCapa::default();

    capa.set_browser_name("firefox");
    requ.mandate_as_w3c(&capa);

    let mut capa1 = ChromiumCapa::default();
    let mut capa2 = ChromiumCapa::default();
    let mut capa3 = ChromiumCapa::default();
    capa1.set_platform_name("linux");
    capa2.set_platform_name("mac");
    capa3.set_platform_name("win");

    requ.allow_as_w3c(&capa1)
        .allow_as_w3c(&capa2)
        .allow_as_w3c(&capa3);

    assert_eq!(requ.always_match.browser_name().is_some(), true);
    assert_eq!(requ.always_match.browser_name().unwrap(), "firefox");
    assert_eq!(requ.first_match.len(), 3);
    assert_eq!(
        requ.first_match.get(0).unwrap().platform_name().unwrap(),
        "linux"
    );
    assert_eq!(
        requ.first_match.get(1).unwrap().platform_name().unwrap(),
        "mac"
    );
    assert_eq!(
        requ.first_match.get(2).unwrap().platform_name().unwrap(),
        "win"
    );
}

#[test]
fn chr__7() {
    // capa conflicts
    let mut requ = ChromCapRequ::default();
    let mut capa = ChromiumCapa::default();

    capa.set_browser_name("firefox");
    requ.mandate_as_w3c(&capa);
    let mut capa = ChromiumCapa::default();
    capa.set_browser_name("edge");
    capa.set_platform_name("linux");
    requ.allow_as_w3c(&capa);
    assert_eq!(requ.always_match.browser_name().is_some(), true);
    assert_eq!(requ.always_match.browser_name().unwrap(), "firefox");
    assert_eq!(requ.first_match.len(), 0);
}

#[test]
fn chr__8() {
    // mandate() override allow()
    let mut requ = ChromCapRequ::default();

    let mut capa = ChromiumCapa::default();
    capa.set_browser_name("edge");
    capa.set_platform_name("linux");
    requ.allow_as_w3c(&capa);

    let mut capa = ChromiumCapa::default();
    capa.set_browser_name("edge");
    capa.set_platform_name("win");
    requ.allow_as_w3c(&capa);

    assert_eq!(requ.always_match.browser_name().is_none(), true);
    assert_eq!(requ.first_match.len(), 2);

    let mut capa = ChromiumCapa::default();
    capa.set_browser_name("firefox");
    requ.mandate_as_w3c(&capa);

    assert_eq!(requ.always_match.browser_name().is_some(), true);
    assert_eq!(requ.always_match.browser_name().unwrap(), "firefox");
    assert_eq!(requ.first_match.len(), 0);
}

#[test]
fn chr_chrom_compl__1() {
    // bare initialization

    let requ = ChromCapRequ::default();

    assert_eq!(requ.always_match.binary().is_none(), true);
    assert_eq!(requ.always_match.is_insig(), true);
    assert_eq!(requ.first_match.len(), 0);
}

#[test]
fn chr_chrom_compl__2() {
    let mut requ = ChromCapRequ::default();
    let capa = ChromiumCapa::default();

    requ.allow(&capa);

    assert_eq!(requ.first_match.len(), 1);
}

#[test]
fn chr_chrom_compl__3() {
    let mut requ = ChromCapRequ::default();
    let capa = ChromiumCapa::default();

    requ.allow(&capa);
    requ.allow(&capa);

    assert_eq!(requ.first_match.len(), 2);
}

#[test]
fn chr_chrom_compl__4() {
    // `binary` field
    // exact one binary
    let mut requ = ChromCapRequ::default();
    let mut capa = ChromiumCapa::default();

    capa.set_binary("/path/to/binary");
    requ.mandate(&capa);

    assert_eq!(requ.always_match.binary().is_none(), false);
    assert_eq!(requ.always_match.binary().unwrap(), "/path/to/binary");
    assert_eq!(requ.always_match.is_insig(), false);
    assert_eq!(requ.first_match.len(), 0);
}

#[test]
fn chr_chrom_compl__5() {
    // `binary` `args` field
    // exact one of two binaries
    let mut requ = ChromCapRequ::default();
    let mut capa1 = ChromiumCapa::default();
    let mut capa2 = ChromiumCapa::default();

    capa1.set_binary("/path/to/binary");
    capa1.add_args("--compact-dump");
    capa2.set_binary("/path/to/binary-beta");
    capa2.add_args("--verbose-dump");
    capa2.add_args("--headless");
    requ.allow(&capa1).allow(&capa2);

    assert_eq!(requ.always_match.binary().is_none(), true);
    assert_eq!(requ.first_match.len(), 2);
    assert_eq!(
        requ.first_match.get(0).unwrap().binary().unwrap(),
        "/path/to/binary"
    );
    assert_eq!(
        requ.first_match.get(0).unwrap().args().unwrap(),
        vec!["--compact-dump"]
    );
    assert_eq!(
        requ.first_match.get(1).unwrap().binary().unwrap(),
        "/path/to/binary-beta"
    );
    assert_eq!(
        requ.first_match.get(1).unwrap().args().unwrap(),
        vec!["--verbose-dump", "--headless"]
    );
}

#[test]
fn chr_chrom_compl__6() {
    // `binary` `args` field
    // exact one args, exact one of two binaries
    let mut requ = ChromCapRequ::default();
    let mut capa1 = ChromiumCapa::default();
    let mut capa2 = ChromiumCapa::default();
    let mut capa3 = ChromiumCapa::default();

    capa1.add_args("--headless");
    capa1.add_args("--no-proxy-server");
    requ.mandate(&capa1);
    capa2.set_binary("/path/to/binary");
    capa3.set_binary("/path/to/binary-beta");
    requ.allow(&capa2).allow(&capa3);

    assert_eq!(requ.always_match.args().is_some(), true);
    assert_eq!(requ.always_match.args().unwrap().len(), 2);
    assert_eq!(
        requ.always_match.args().unwrap().get(0).unwrap(),
        &"--headless"
    );
    assert_eq!(
        requ.always_match.args().unwrap().get(1).unwrap(),
        &"--no-proxy-server"
    );
    assert_eq!(requ.first_match.len(), 2);
    assert_eq!(
        requ.first_match.get(0).unwrap().binary().unwrap(),
        "/path/to/binary"
    );
    assert_eq!(
        requ.first_match.get(1).unwrap().binary().unwrap(),
        "/path/to/binary-beta"
    );
}

#[test]
fn chr_chrom_compl__7() {
    // `binary` field
    // mandate() override allow()
    let mut requ = ChromCapRequ::default();

    let mut capa = ChromiumCapa::default();
    capa.set_binary("/path/to/binary_v1.0");
    requ.allow(&capa);

    let mut capa = ChromiumCapa::default();
    capa.set_binary("/path/to/binary_v2.0");
    requ.allow(&capa);

    assert_eq!(requ.always_match.binary().is_none(), true);
    assert_eq!(requ.first_match.len(), 2);

    let mut capa = ChromiumCapa::default();
    capa.set_binary("/path/to/binary_v3.0");
    requ.mandate(&capa);

    assert_eq!(requ.always_match.binary().is_some(), true);
    assert_eq!(requ.first_match.len(), 0);
}

#[test]
fn chr_together_compl__0() {
    // use as w3c conf works just partly

    let mut requ = ChromCapRequ::default();
    let mut capa = ChromiumCapa::default();

    capa.set_browser_name("firefox");
    capa.set_browser_version("106.0.0");
    capa.set_binary("/path/to/firefox");
    capa.add_args("--headless");

    requ.mandate_as_w3c(&capa);

    assert_eq!(requ.always_match.is_insig_as_w3c(), false);
    // all chrom-* are insig:
    assert_eq!(requ.always_match.is_insig(), true);
    //  no bin:
    assert_eq!(requ.always_match.binary().is_none(), true);
    assert_eq!(requ.first_match.len(), 0);
}

#[test]
fn chr_together_compl__1() {
    // use as chrom conf works fine

    let mut requ = ChromCapRequ::default();
    let mut capa = ChromiumCapa::default();

    capa.set_browser_name("firefox");
    capa.set_browser_version("106.0.0");
    capa.set_binary("/path/to/firefox");
    capa.add_args("--headless");

    requ.mandate(&capa); // use chrom own impl mandate

    assert_eq!(requ.always_match.is_insig_as_w3c(), false);
    // not all chrom-* are insig:
    assert_eq!(requ.always_match.is_insig(), false);
    // there is bin
    assert_eq!(requ.always_match.binary().is_some(), true);
    assert_eq!(requ.first_match.len(), 0);
}

#[test]
fn chr_together_compl__2() {
    // use as chrom conf works fine

    let mut requ = ChromCapRequ::default();
    let mut capa1 = ChromiumCapa::default();
    let mut capa2 = ChromiumCapa::default();
    let mut capa3 = ChromiumCapa::default();

    capa1.set_browser_name("firefox");
    requ.mandate(&capa1);

    capa2.set_platform_name("linux");
    capa2.add_args("--headless");
    capa3.set_platform_name("win");
    capa3.add_args("--headless");
    requ.allow(&capa2).allow(&capa3);

    assert_eq!(requ.always_match.browser_name().is_some(), true);
    assert_eq!(requ.always_match.browser_name().unwrap(), "firefox");
    assert_eq!(requ.first_match.len(), 2);
    assert_eq!(
        requ.first_match.get(0).unwrap().platform_name().unwrap(),
        "linux"
    );
    assert_eq!(
        requ.first_match.get(0).unwrap().args().unwrap(),
        vec!["--headless"]
    );
    assert_eq!(
        requ.first_match.get(1).unwrap().platform_name().unwrap(),
        "win"
    );
    assert_eq!(
        requ.first_match.get(0).unwrap().args().unwrap(),
        vec!["--headless"]
    );
}

#[test]
fn chr_ser__1() {
    let requ = ChromCapRequ::default();


    // json str is correct?
    let actual = requ.to_json().to_text().unwrap();
    let expect = r#"{"alwaysMatch":{},"firstMatch":[]}"#;
    assert_eq!(actual, expect);
}

#[test]
fn chr_ser__2() {
    let mut requ = ChromCapRequ::default();
    let capa = ChromiumCapa::default();

    requ.allow(&capa);


    // json str is correct?
    let actual = requ.to_json().to_text().unwrap();
    let expect = r#"{"alwaysMatch":{},"firstMatch":[{}]}"#;
    assert_eq!(actual, expect);
}

#[test]
fn chr_ser__3() {
    // currently, multiple empty ele inside am is valid,

    let mut requ = ChromCapRequ::default();
    let capa = ChromiumCapa::default();

    requ.allow(&capa);
    requ.allow(&capa);


    // json str is correct?.
    let actual = requ.to_json().to_text().unwrap();
    let expect = r#"{"alwaysMatch":{},"firstMatch":[{},{}]}"#;
    assert_eq!(actual, expect);
}

#[test]
fn chr_ser__4() {
    // set 1 field

    let mut requ = ChromCapRequ::default();
    let mut capa = ChromiumCapa::default();

    capa.set_platform_name("linux");

    requ.mandate_as_w3c(&capa);


    // json str is correct?
    let actual = requ.to_json().to_text().unwrap();
    let expect = r#"{"alwaysMatch":{"platformName":"linux"},"firstMatch":[]}"#;
    assert_eq!(actual, expect);
}

#[test]
fn chr_ser__44() {
    // set 1 field

    let mut requ = ChromCapRequ::default();
    let mut capa = ChromiumCapa::default();

    capa.set_timeouts_script(1234);

    requ.mandate_as_w3c(&capa);


    // json str is correct?
    let actual = requ.to_json().to_text().unwrap();
    let expect = r#"{"alwaysMatch":{"timeouts":{"script":1234,"pageLoad":300000,"implicit":0}},"firstMatch":[]}"#;
    assert_eq!(actual, expect);
}

#[test]
fn _44_2() {
    // set 1 field

    let mut requ = ChromCapRequ::default();
    let capa = ChromiumCapa::default();

    requ.allow_as_w3c(&capa);

    let mut capa = ChromiumCapa::default();

    capa.set_timeouts_script(1234);

    requ.mandate_as_w3c(&capa);


    // json str is correct?
    let actual = requ.to_json().to_text().unwrap();
    let expect = r#"{"alwaysMatch":{"timeouts":{"script":1234,"pageLoad":300000,"implicit":0}},"firstMatch":[{}]}"#;
    assert_eq!(actual, expect);
}

#[test]
fn chr_ser__444() {
    // set proxy field

    let mut requ = ChromCapRequ::default();
    let mut capa = ChromiumCapa::default();

    capa.set_proxy_type("manual");
    capa.set_socks_version(5);
    capa.set_socks_proxy("127.0.0.1:1080");
    capa.add_no_proxy("192.168.1.0/24");

    requ.mandate_as_w3c(&capa);


    // json str is correct ?
    let actual = requ.to_json().to_text().unwrap();
    let expect = r#"{"alwaysMatch":{"proxy":{"proxyType":"manual","noProxy":["192.168.1.0/24"],"socksProxy":"127.0.0.1:1080","socksVersion":5}},"firstMatch":[]}"#;
    assert_eq!(actual, expect);
}

#[test]
fn chr_ser__5() {
    // set two fields

    let mut requ = ChromCapRequ::default();
    let mut capa = ChromiumCapa::default();

    capa.set_platform_name("linux");
    capa.set_browser_name("firefox");
    // NOTE that here setting order has no effect on final tokens,
    // final token stream will be compliant to the order specified
    // on https://w3c.github.io/webdriver/#dfn-table-of-standard-capabilities

    requ.mandate_as_w3c(&capa);


    // json str is correct?
    let actual = requ.to_json().to_text().unwrap();
    let expect = r#"{"alwaysMatch":{"browserName":"firefox","platformName":"linux"},"firstMatch":[]}"#;
    assert_eq!(actual, expect);
}

#[test]
fn chr_ser__6() {
    //  mandate 1, allow 2

    let mut requ = ChromCapRequ::default();

    let mut capa = ChromiumCapa::default();
    capa.set_browser_name("firefox");
    requ.mandate_as_w3c(&capa);

    let mut capa = ChromiumCapa::default();
    capa.set_platform_name("linux");
    requ.allow_as_w3c(&capa);

    let mut capa = ChromiumCapa::default();
    capa.set_platform_name("win");
    requ.allow_as_w3c(&capa);


    // json str is correct?
    let actual = requ.to_json().to_text().unwrap();
    let expect = r#"{"alwaysMatch":{"browserName":"firefox"},"firstMatch":[{"platformName":"linux"},{"platformName":"win"}]}"#;
    assert_eq!(actual, expect);
}

#[test]
fn chr_ser__7() {
    // allow two platforms, mandate one args

    let mut requ = ChromCapRequ::default();

    let mut capa = ChromiumCapa::default();
    capa.set_browser_name("firefox");
    capa.add_args("--headless");
    requ.mandate(&capa);

    let mut capa = ChromiumCapa::default();
    capa.set_platform_name("linux");
    capa.set_binary("/usr/bin/firefox");
    requ.allow(&capa);

    let mut capa = ChromiumCapa::default();
    capa.set_platform_name("win");
    capa.set_binary("/c/program/firefox");
    requ.allow(&capa);


    // json str is correct?
    let actual = requ.to_json().to_text().unwrap();
    let expect = r#"{"alwaysMatch":{"browserName":"firefox","goog:chromeOptions":{"args":["--headless"]}},"firstMatch":[{"platformName":"linux","goog:chromeOptions":{"binary":"/usr/bin/firefox"}},{"platformName":"win","goog:chromeOptions":{"binary":"/c/program/firefox"}}]}"#;
    assert_eq!(actual, expect);
}

#[test]
fn chr_ser__8() {
    // `prefs` field

    let mut requ = ChromCapRequ::default();
    let mut capa = ChromiumCapa::default();

    capa.set_browser_name("chrome");
    capa.set_binary("/path/to/chrome");
    capa.add_prefs("profile.name", "A Real Human");
    capa.add_prefs("profile.avatar_index", "16");

    requ.mandate(&capa);


    // json str is correct?
    let actual = requ.to_json().to_text().unwrap();
    let expect = r#"{"alwaysMatch":{"browserName":"chrome","goog:chromeOptions":{"binary":"/path/to/chrome","prefs":{"profile.avatar_index":16,"profile.name":"A Real Human"}}},"firstMatch":[]}"#;
    assert_eq!(actual, expect);
}

#[test]
fn chr_ser__88() {
    // `prefs` field, use non-std way

    let mut requ = ChromCapRequ::default();

    let mut capa = ChromiumCapa::default();
    capa.set_proxy_type("manual");
    capa.set_socks_version(5);
    capa.set_socks_proxy("127.0.0.1:1080");
    capa.add_prefs("browser.check_default_browser", "false");
    capa.add_prefs("dns_prefetching.enabled", "true");
    capa.add_prefs("profile.default_content_settings.geolocation", "0");
    requ.mandate(&capa);


    // json str is correct?
    let actual = requ.to_json().to_text().unwrap();
    let expect = r#"{"alwaysMatch":{"proxy":{"proxyType":"manual","socksProxy":"127.0.0.1:1080","socksVersion":5},"goog:chromeOptions":{"prefs":{"browser.check_default_browser":false,"dns_prefetching.enabled":true,"profile.default_content_settings.geolocation":0}}},"firstMatch":[]}"#;
    assert_eq!(actual, expect);
}

#[test]
fn chr_deser__0() {
    // a response to default NewSession command, from chrome 106
    let resp_str = r#"{"value":{"capabilities":{"acceptInsecureCerts":false,"browserName":"chrome","browserVersion":"107.0.5304.0","chrome":{"chromedriverVersion":"107.0.5304.0 (5d7b1fc9cb7103d9c82eed647cf4be38cf09738b-refs/heads/main@{#1047731})","userDataDir":"/tmp/.org.chromium.Chromium.TS0afe"},"goog:chromeOptions":{"debuggerAddress":"localhost:43515"},"networkConnectionEnabled":false,"pageLoadStrategy":"normal","platformName":"linux","proxy":{},"setWindowRect":true,"strictFileInteractability":false,"timeouts":{"implicit":0,"pageLoad":300000,"script":30000},"unhandledPromptBehavior":"dismiss and notify","webauthn:extension:credBlob":true,"webauthn:extension:largeBlob":true,"webauthn:virtualAuthenticators":true},"sessionId":"61314ad6a23266bdd381cfb7b584e8d3"}}"#;

    let obj = ChromSessResult::from_bytes(resp_str.as_bytes()).unwrap();

    assert_eq!(obj.session_id(), "61314ad6a23266bdd381cfb7b584e8d3");
}

#[test]
fn conflicting_alternative_is_dropped() {
    let mut requ = ChromCapRequ::default();

    let mut capa = ChromiumCapa::default();
    capa.set_platform_name("linux");
    requ.mandate_as_w3c(&capa);

    let mut capa = ChromiumCapa::default();
    capa.set_platform_name("win");
    requ.allow_as_w3c(&capa);

    assert_eq!(
        requ.to_json().to_text().unwrap(),
        r#"{"alwaysMatch":{"platformName":"linux"},"firstMatch":[]}"#
    );
}

#[test]
fn mandate_purges_what_conflicts_and_keeps_the_rest() {
    let mut requ = ChromCapRequ::default();
    for (browser, platform) in [(Some("edge"), None), (None, Some("linux")), (Some("chrome"), Some("win")), (None, None)] {
        let mut capa = ChromiumCapa::default();
        if let Some(b) = browser {
            capa.set_browser_name(b);
        }
        if let Some(p) = platform {
            capa.set_platform_name(p);
        }
        requ.allow_as_w3c(&capa);
    }
    assert_eq!(requ.first_match.len(), 4);

    let mut capa = ChromiumCapa::default();
    capa.set_browser_name("firefox");
    requ.mandate_as_w3c(&capa);

    assert_eq!(
        requ.to_json().to_text().unwrap(),
        r#"{"alwaysMatch":{"browserName":"firefox"},"firstMatch":[{"platformName":"linux"},{}]}"#
    );

    let mut capa = ChromiumCapa::default();
    capa.set_browser_name("safari");
    requ.allow_as_w3c(&capa);
    requ.allow(&capa);
    assert_eq!(requ.first_match.len(), 2);

    let mut capa = ChromiumCapa::default();
    capa.set_binary("/b");
    requ.allow(&capa);
    capa.add_args("-a");
    requ.mandate(&capa);
    assert_eq!(
        requ.to_json().to_text().unwrap(),
        r#"{"alwaysMatch":{"goog:chromeOptions":{"args":["-a"],"binary":"/b"}},"firstMatch":[{"platformName":"linux"},{}]}"#
    );
}
