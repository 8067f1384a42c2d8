use wdc::wdcmd::actions::{
    unmark, ActionGroup, ActionKind, KbdValue, KeySubActType, KeySubAction, SubAction,
};
use wdc::{CreateWebDrvClient, GeckoDriver};

fn post_process_into_string(bs: &[u8]) -> String {
    String::from_utf8_lossy(bs).to_string()
}

#[test]
fn actions__1() {
    let mut actg = ActionGroup::default();
    {
        let act1 = actg.add_key_act("key-act-id");

        act1.add_subact().keydown().tab();
        act1.add_subact().keyup().tab();
        act1.add_subact().keydown().tab();

        act1.add_subact().keydown().unicode("X");
        act1.add_subact().keydown().enter();
    }

    assert_eq!(actg.actions.len(), 1);

    if let Some(ActionKind::Key(r)) = actg.actions.last() {
        assert_eq!(r.id, "key-act-id");
        assert_eq!(r.sub_acts.len(), 5);
        assert_eq!(r.sub_acts[0].subtype, KeySubActType::KeyDown);
        assert_eq!(r.sub_acts[0].value, KbdValue::Tab);
        assert_eq!(r.sub_acts[1].subtype, KeySubActType::KeyUp);
        assert_eq!(r.sub_acts[1].value, KbdValue::Tab);
        assert_eq!(r.sub_acts[2].subtype, KeySubActType::KeyDown);
        assert_eq!(r.sub_acts[2].value, KbdValue::Tab);
        assert_eq!(r.sub_acts[3].subtype, KeySubActType::KeyDown);
        assert_eq!(r.sub_acts[3].value, KbdValue::Unicode("X"));
        assert_eq!(r.sub_acts[4].subtype, KeySubActType::KeyDown);
        assert_eq!(r.sub_acts[4].value, KbdValue::Enter);
    } else {
        assert!(false);
    }

    // ser

    assert_eq!(
        actg.to_json().to_text().unwrap(),
        r#"{"actions":[{"type":"key","id":"key-act-id","actions":[{"type":"keyDown","value":"__U__E004"},{"type":"keyUp","value":"__U__E004"},{"type":"keyDown","value":"__U__E004"},{"type":"keyDown","value":"X"},{"type":"keyDown","value":"__U__E007"}]}]}"#
    );

    let bs = actg.to_body().unwrap();

    assert_eq!(
        post_process_into_string(&bs),
        r#"{"actions":[{"type":"key","id":"key-act-id","actions":[{"type":"keyDown","value":"\uE004"},{"type":"keyUp","value":"\uE004"},{"type":"keyDown","value":"\uE004"},{"type":"keyDown","value":"X"},{"type":"keyDown","value":"\uE007"}]}]}"#
    );
}

#[test]
fn actions__2() {
    let mut actg = ActionGroup::default();
    {
        let act1 = actg.add_pointer_act("ptr-act-id");

        act1.add_subact()
            .ptr_down()
            .back_button()
            .width(123)
            .height(456)
            .pressure("0.99")
            .azimuth_angle("180.123");
    }

    // ser

    let s = actg.to_json().to_text().unwrap();

    assert_eq!(
        &s,
        r#"{"actions":[{"type":"pointer","id":"ptr-act-id","actions":[{"type":"pointerDown","button":3,"width":123,"height":456,"pressure":0.99,"azimuthAngle":180.123}]}]}"#
    );
}

#[test]
fn actions__3() {
    let mut actg = ActionGroup::default();
    {
        let act1 = actg.add_wheel_act("whl-act-id");
        act1.add_subact()
            .duration(11)
            .start_at(12, 13)
            .scroll_amt(14, 15)
            .origin_viewport();
    }

    // ser

    let s = actg.to_json().to_text().unwrap();

    assert_eq!(
        &s,
        r#"{"actions":[{"type":"wheel","id":"whl-act-id","actions":[{"type":"scroll","duration":11,"origin":"viewport","x":12,"y":13,"deltaX":14,"deltaY":15}]}]}"#
    );
}

#[test]
fn actions__4() {
    let mut actg = ActionGroup::default();
    {
        let act1 = actg.add_pointer_act("back-to-index");
        act1.add_subact().ptr_down().back_button();
        let act2 = actg.add_wheel_act("scroll-down-to-somewhere");
        act2.add_subact().scroll_amt(14, 15);
        let act3 = actg.add_key_act("focus-ele-and-enter");
        act3.add_subact().keydown().tab();
        act3.add_subact().keydown().enter();
    }

    // ser

    let s = post_process_into_string(&actg.to_body().unwrap());

    assert_eq!(
        &s,
        r#"{"actions":[{"type":"pointer","id":"back-to-index","actions":[{"type":"pointerDown","button":3}]},{"type":"wheel","id":"scroll-down-to-somewhere","actions":[{"type":"scroll","x":0,"y":0,"deltaX":14,"deltaY":15}]},{"type":"key","id":"focus-ele-and-enter","actions":[{"type":"keyDown","value":"\uE004"},{"type":"keyDown","value":"\uE007"}]}]}"#
    );
}

#[test]
fn key_steps() {
    let mut k = KeySubAction::default();
    assert_eq!(k.to_json().to_text().unwrap(), r#"{"type":"pause","value":""}"#);
    k.keyup().backspace();
    assert_eq!(k.to_json().to_text().unwrap(), r#"{"type":"keyUp","value":"__U__E003"}"#);
    k.keydown().left_shift();
    assert_eq!(k.to_json().to_text().unwrap(), r#"{"type":"keyDown","value":"__U__E008"}"#);
    k.pause().left_ctrl();
    assert_eq!(k.to_json().to_text().unwrap(), r#"{"type":"pause","value":"__U__E009"}"#);
    k.left_alt();
    assert_eq!(k.to_json().to_text().unwrap(), r#"{"type":"pause","value":"__U__E00A"}"#);
    k.right_shift();
    assert_eq!(k.to_json().to_text().unwrap(), r#"{"type":"pause","value":"__U__E050"}"#);
    k.right_ctrl();
    assert_eq!(k.to_json().to_text().unwrap(), r#"{"type":"pause","value":"__U__E051"}"#);
    k.keyup().right_alt();
    assert_eq!(k.to_json().to_text().unwrap(), r#"{"type":"keyUp","value":"__U__E052"}"#);
    k.unicode("ab");
    assert_eq!(k.done().value, KbdValue::Unicode("ab"));
    k.unicode("abcd");
    assert_eq!(k.value, KbdValue::Unicode("abcd"));
    k.unicode("\u{20ac}");
    assert_eq!(k.value, KbdValue::Unicode("\u{20ac}"));
    k.unicode("\u{1F600}");
    assert_eq!(k.value, KbdValue::Unicode("\u{1F600}"));
    k.keydown();
    assert_eq!(
        k.to_json().to_text().unwrap(),
        "{\"type\":\"keyDown\",\"value\":\"\u{1F600}\"}"
    );
    k.unicode("");
    assert_eq!(k.value, KbdValue::Unicode(""));
}

#[test]
fn other_steps_and_actions() {
    let mut actg = ActionGroup::default();
    actg.add_act(ActionKind::NoInput);
    {
        let p = actg.add_pointer_act("p");
        p.add_subact().ptr_up().left_button();
        p.add_subact().ptr_move().middle_button();
        p.add_subact().ptr_cancel().right_button();
        p.add_subact().pause().forward_button().done();
        p.set_id_take("p2".to_string());
        p.done();
        let w = actg.add_wheel_act("w");
        w.add_subact().origin_pointer();
    }
    assert_eq!(
        actg.to_json().to_text().unwrap(),
        r#"{"actions":[{"type":"none"},{"type":"pointer","id":"p2","actions":[{"type":"pointerUp","button":0},{"type":"pointerMove","button":1},{"type":"pointerCancel","button":2},{"type":"pause","button":4}]},{"type":"wheel","id":"w","actions":[{"type":"scroll","origin":"pointer","x":0,"y":0,"deltaX":0,"deltaY":0}]}]}"#
    );
}

#[test]
fn marks_become_escapes() {
    assert_eq!(unmark(b"__U__E004"), b"\\uE004".to_vec());
    assert_eq!(unmark(b"a__U__b__U__"), b"a\\ub\\u".to_vec());
    assert_eq!(unmark(b"___U__"), b"_\\u".to_vec());
    assert_eq!(unmark(b"__U_"), b"__U_".to_vec());
    assert_eq!(unmark(b"__U__U__"), b"\\uU__".to_vec());
    assert_eq!(unmark(b""), b"".to_vec());
}

#[test]
fn perform_actions_request() {
    let mut wdc = GeckoDriver::new("127.0.0.1", 4444);
    wdc.add_ssmeta("s1".to_string(), None);
    let mut actg = ActionGroup::default();
    actg.add_key_act("k").add_subact().keydown().enter();
    let req = wdc.perform_actions_request(&actg).unwrap();
    assert_eq!(
        req.to_vec(),
        b"POST /session/s1/actions HTTP/1.1\r\nContent-Length: 85\r\nHost: 127.0.0.1:4444\r\n\r\n{\"actions\":[{\"type\":\"key\",\"id\":\"k\",\"actions\":[{\"type\":\"keyDown\",\"value\":\"\\uE007\"}]}]}".to_vec()
    );
}
