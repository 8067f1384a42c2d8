//! The command "Perform Actions": groups of key, pointer and wheel
//! actions, and how they are written.

use vstd::prelude::*;
use crate::json::{
    entry, held_bytes, held_json, items_view, json_bytes, json_str, members_view, opt_entry,
    owned, put,
    put_opt, Entries, Json, JsonView, Members,
};
use crate::octets::{append, same_bytes, utf8};

verus! {

// ------------------------------------------------------------- sub-actions --

/// One step of an action, which can be written as a JSON object.
pub trait SubAction: Sized {
    /// The step as it is written.
    spec fn json(&self) -> JsonView;

    /// The step as the JSON object that is sent.
    fn to_json(&self) -> (r: Json)
        ensures
            r@ == self.json(),
    ;
}

#[derive(Debug, PartialEq, Eq, Clone, Copy)]
pub enum KbdValue {
    Backspace,
    Tab,
    Enter,
    LeftShift,
    RightShift,
    LeftControl,
    RightControl,
    LeftAlt,
    RightAlt,
    Unicode(&'static str),
}

#[derive(Debug, PartialEq, Eq, Structural, Clone, Copy)]
pub enum KeySubActType {
    KeyUp,
    KeyDown,
    Pause,
}

/// One step of a key action.
#[derive(Debug)]
pub struct KeySubAction {
    pub subtype: KeySubActType,
    pub value: KbdValue,
}

impl Default for KeySubAction {
    fn default() -> (r: Self)
        ensures
            r.subtype == KeySubActType::Pause,
            r.value matches KbdValue::Unicode(s) && s@ == Seq::<char>::empty(),
    {
        let empty = "";
        proof {
            reveal_strlit("");
        }
        KeySubAction { subtype: KeySubActType::Pause, value: KbdValue::Unicode(empty) }
    }
}

/// The name that a kind of key step is written with.
pub open spec fn key_type_name(t: KeySubActType) -> Seq<char> {
    match t {
        KeySubActType::KeyDown => "keyDown"@,
        KeySubActType::KeyUp => "keyUp"@,
        KeySubActType::Pause => "pause"@,
    }
}

/// The text that a key is written with: a named key as a mark and the
/// four hex digits of its code point, a character as itself. The marks
/// become `\u` just before the text is sent.
pub open spec fn key_value_text(v: KbdValue) -> Seq<char> {
    match v {
        KbdValue::Backspace => "__U__E003"@,
        KbdValue::Tab => "__U__E004"@,
        KbdValue::Enter => "__U__E007"@,
        KbdValue::LeftShift => "__U__E008"@,
        KbdValue::LeftControl => "__U__E009"@,
        KbdValue::LeftAlt => "__U__E00A"@,
        KbdValue::RightShift => "__U__E050"@,
        KbdValue::RightControl => "__U__E051"@,
        KbdValue::RightAlt => "__U__E052"@,
        KbdValue::Unicode(s) => s@,
    }
}

impl KeySubAction {
    pub fn keydown(&mut self) -> (ret: &mut Self)
        ensures
            ret.subtype == KeySubActType::KeyDown,
            ret.value == old(self).value,
            *final(self) == *final(ret),
    {
        self.subtype = KeySubActType::KeyDown;
        self
    }

    pub fn keyup(&mut self) -> (ret: &mut Self)
        ensures
            ret.subtype == KeySubActType::KeyUp,
            ret.value == old(self).value,
            *final(self) == *final(ret),
    {
        self.subtype = KeySubActType::KeyUp;
        self
    }

    pub fn pause(&mut self) -> (ret: &mut Self)
        ensures
            ret.subtype == KeySubActType::Pause,
            ret.value == old(self).value,
            *final(self) == *final(ret),
    {
        self.subtype = KeySubActType::Pause;
        self
    }

    pub fn backspace(&mut self) -> (ret: &mut Self)
        ensures
            ret.value == KbdValue::Backspace,
            ret.subtype == old(self).subtype,
            *final(self) == *final(ret),
    {
        self.value = KbdValue::Backspace;
        self
    }

    pub fn tab(&mut self) -> (ret: &mut Self)
        ensures
            ret.value == KbdValue::Tab,
            ret.subtype == old(self).subtype,
            *final(self) == *final(ret),
    {
        self.value = KbdValue::Tab;
        self
    }

    pub fn enter(&mut self) -> (ret: &mut Self)
        ensures
            ret.value == KbdValue::Enter,
            ret.subtype == old(self).subtype,
            *final(self) == *final(ret),
    {
        self.value = KbdValue::Enter;
        self
    }

    pub fn left_ctrl(&mut self) -> (ret: &mut Self)
        ensures
            ret.value == KbdValue::LeftControl,
            ret.subtype == old(self).subtype,
            *final(self) == *final(ret),
    {
        self.value = KbdValue::LeftControl;
        self
    }

    pub fn right_ctrl(&mut self) -> (ret: &mut Self)
        ensures
            ret.value == KbdValue::RightControl,
            ret.subtype == old(self).subtype,
            *final(self) == *final(ret),
    {
        self.value = KbdValue::RightControl;
        self
    }

    pub fn left_shift(&mut self) -> (ret: &mut Self)
        ensures
            ret.value == KbdValue::LeftShift,
            ret.subtype == old(self).subtype,
            *final(self) == *final(ret),
    {
        self.value = KbdValue::LeftShift;
        self
    }

    pub fn right_shift(&mut self) -> (ret: &mut Self)
        ensures
            ret.value == KbdValue::RightShift,
            ret.subtype == old(self).subtype,
            *final(self) == *final(ret),
    {
        self.value = KbdValue::RightShift;
        self
    }

    pub fn left_alt(&mut self) -> (ret: &mut Self)
        ensures
            ret.value == KbdValue::LeftAlt,
            ret.subtype == old(self).subtype,
            *final(self) == *final(ret),
    {
        self.value = KbdValue::LeftAlt;
        self
    }

    pub fn right_alt(&mut self) -> (ret: &mut Self)
        ensures
            ret.value == KbdValue::RightAlt,
            ret.subtype == old(self).subtype,
            *final(self) == *final(ret),
    {
        self.value = KbdValue::RightAlt;
        self
    }

    /// Sets the key to a character, which is written as it is.
    pub fn unicode(&mut self, c: &'static str) -> (ret: &mut Self)
        ensures
            ret.value == KbdValue::Unicode(c),
            ret.subtype == old(self).subtype,
            *final(self) == *final(ret),
    {
        self.value = KbdValue::Unicode(c);
        self
    }

    pub fn done(&mut self) -> (ret: &Self)
        ensures
            *ret == *old(self),
            *final(self) == *old(self),
    {
        self
    }
}

impl SubAction for KeySubAction {
    open spec fn json(&self) -> JsonView {
        JsonView::Object(
            entry("type"@, JsonView::Str(key_type_name(self.subtype))) + entry(
                "value"@,
                JsonView::Str(key_value_text(self.value)),
            ),
        )
    }

    fn to_json(&self) -> (r: Json) {
        let mut m: Entries = Vec::new();
        assert(members_view(m@) =~= Seq::<(Seq<char>, JsonView)>::empty());
        put(
            &mut m,
            "type",
            json_str(
                match self.subtype {
                    KeySubActType::KeyDown => "keyDown",
                    KeySubActType::KeyUp => "keyUp",
                    KeySubActType::Pause => "pause",
                },
            ),
        );
        let value: &str = match self.value {
            KbdValue::Backspace => "__U__E003",
            KbdValue::Tab => "__U__E004",
            KbdValue::Enter => "__U__E007",
            KbdValue::LeftShift => "__U__E008",
            KbdValue::LeftControl => "__U__E009",
            KbdValue::LeftAlt => "__U__E00A",
            KbdValue::RightShift => "__U__E050",
            KbdValue::RightControl => "__U__E051",
            KbdValue::RightAlt => "__U__E052",
            KbdValue::Unicode(s) => s,
        };
        put(&mut m, "value", json_str(value));
        assert(members_view(m@) =~= entry("type"@, JsonView::Str(key_type_name(self.subtype)))
            + entry("value"@, JsonView::Str(key_value_text(self.value))));
        Json::Object(m)
    }
}

#[derive(Debug, PartialEq, Eq, Structural, Clone, Copy)]
pub enum PointerSubActType {
    PointerUp,
    PointerDown,
    PointerMove,
    PointerCancel,
    Pause,
}

/// One step of a pointer action. The four measures that are no whole
/// numbers are held as they are written in JSON.
#[derive(Debug)]
pub struct PointerSubAction {
    pub subtype: PointerSubActType,
    pub button: u8,
    pub width: Option<u32>,
    pub height: Option<u32>,
    pub pressure: Option<String>,
    pub tan_pressure: Option<String>,
    pub twist: Option<u32>,
    pub tiltx: Option<u32>,
    pub tilty: Option<u32>,
    pub altitude_angle: Option<String>,
    pub azimuth_angle: Option<String>,
}

/// What a step of a pointer action holds.
pub struct PointerView {
    pub subtype: PointerSubActType,
    pub button: u8,
    pub width: Option<u32>,
    pub height: Option<u32>,
    pub pressure: Option<Seq<char>>,
    pub tan_pressure: Option<Seq<char>>,
    pub twist: Option<u32>,
    pub tiltx: Option<u32>,
    pub tilty: Option<u32>,
    pub altitude_angle: Option<Seq<char>>,
    pub azimuth_angle: Option<Seq<char>>,
}

impl PointerView {
    /// The step that every pointer step starts from: a pause, with the
    /// left button and no measure.
    pub open spec fn blank() -> PointerView {
        PointerView {
            subtype: PointerSubActType::Pause,
            button: 0,
            width: None,
            height: None,
            pressure: None,
            tan_pressure: None,
            twist: None,
            tiltx: None,
            tilty: None,
            altitude_angle: None,
            azimuth_angle: None,
        }
    }
}

impl View for PointerSubAction {
    type V = PointerView;

    open spec fn view(&self) -> PointerView {
        PointerView {
            subtype: self.subtype,
            button: self.button,
            width: self.width,
            height: self.height,
            pressure: crate::json::opt_string(self.pressure),
            tan_pressure: crate::json::opt_string(self.tan_pressure),
            twist: self.twist,
            tiltx: self.tiltx,
            tilty: self.tilty,
            altitude_angle: crate::json::opt_string(self.altitude_angle),
            azimuth_angle: crate::json::opt_string(self.azimuth_angle),
        }
    }
}

impl Default for PointerSubAction {
    fn default() -> (r: Self)
        ensures
            r@ == PointerView::blank(),
    {
        PointerSubAction {
            subtype: PointerSubActType::Pause,
            button: 0,
            width: None,
            height: None,
            pressure: None,
            tan_pressure: None,
            twist: None,
            tiltx: None,
            tilty: None,
            altitude_angle: None,
            azimuth_angle: None,
        }
    }
}

impl PointerSubAction {
    pub fn ptr_up(&mut self) -> (ret: &mut Self)
        ensures
            ret@ == (PointerView { subtype: PointerSubActType::PointerUp, ..old(self)@ }),
            *final(self) == *final(ret),
    {
        self.subtype = PointerSubActType::PointerUp;
        self
    }

    pub fn ptr_down(&mut self) -> (ret: &mut Self)
        ensures
            ret@ == (PointerView { subtype: PointerSubActType::PointerDown, ..old(self)@ }),
            *final(self) == *final(ret),
    {
        self.subtype = PointerSubActType::PointerDown;
        self
    }

    pub fn ptr_move(&mut self) -> (ret: &mut Self)
        ensures
            ret@ == (PointerView { subtype: PointerSubActType::PointerMove, ..old(self)@ }),
            *final(self) == *final(ret),
    {
        self.subtype = PointerSubActType::PointerMove;
        self
    }

    pub fn ptr_cancel(&mut self) -> (ret: &mut Self)
        ensures
            ret@ == (PointerView { subtype: PointerSubActType::PointerCancel, ..old(self)@ }),
            *final(self) == *final(ret),
    {
        self.subtype = PointerSubActType::PointerCancel;
        self
    }

    pub fn pause(&mut self) -> (ret: &mut Self)
        ensures
            ret@ == (PointerView { subtype: PointerSubActType::Pause, ..old(self)@ }),
            *final(self) == *final(ret),
    {
        self.subtype = PointerSubActType::Pause;
        self
    }

    pub fn left_button(&mut self) -> (ret: &mut Self)
        ensures
            ret@ == (PointerView { button: 0, ..old(self)@ }),
            *final(self) == *final(ret),
    {
        self.button = 0;
        self
    }

    pub fn middle_button(&mut self) -> (ret: &mut Self)
        ensures
            ret@ == (PointerView { button: 1, ..old(self)@ }),
            *final(self) == *final(ret),
    {
        self.button = 1;
        self
    }

    pub fn right_button(&mut self) -> (ret: &mut Self)
        ensures
            ret@ == (PointerView { button: 2, ..old(self)@ }),
            *final(self) == *final(ret),
    {
        self.button = 2;
        self
    }

    pub fn back_button(&mut self) -> (ret: &mut Self)
        ensures
            ret@ == (PointerView { button: 3, ..old(self)@ }),
            *final(self) == *final(ret),
    {
        self.button = 3;
        self
    }

    pub fn forward_button(&mut self) -> (ret: &mut Self)
        ensures
            ret@ == (PointerView { button: 4, ..old(self)@ }),
            *final(self) == *final(ret),
    {
        self.button = 4;
        self
    }

    pub fn width(&mut self, arg: u32) -> (ret: &mut Self)
        ensures
            ret@ == (PointerView { width: Some(arg), ..old(self)@ }),
            *final(self) == *final(ret),
    {
        self.width = Some(arg);
        self
    }

    pub fn height(&mut self, arg: u32) -> (ret: &mut Self)
        ensures
            ret@ == (PointerView { height: Some(arg), ..old(self)@ }),
            *final(self) == *final(ret),
    {
        self.height = Some(arg);
        self
    }

    /// Sets the pressure, a number from 0 to 1 as it is written in JSON.
    pub fn pressure(&mut self, arg: &str) -> (ret: &mut Self)
        ensures
            ret@ == (PointerView { pressure: Some(arg@), ..old(self)@ }),
            *final(self) == *final(ret),
    {
        self.pressure = Some(owned(arg));
        self
    }

    /// Sets the azimuth angle, a number as it is written in JSON.
    pub fn azimuth_angle(&mut self, arg: &str) -> (ret: &mut Self)
        ensures
            ret@ == (PointerView { azimuth_angle: Some(arg@), ..old(self)@ }),
            *final(self) == *final(ret),
    {
        self.azimuth_angle = Some(owned(arg));
        self
    }

    pub fn done(&mut self)
        ensures
            *final(self) == *old(self),
    {
    }
}

/// The name that a kind of pointer step is written with.
pub open spec fn pointer_type_name(t: PointerSubActType) -> Seq<char> {
    match t {
        PointerSubActType::PointerUp => "pointerUp"@,
        PointerSubActType::PointerDown => "pointerDown"@,
        PointerSubActType::PointerMove => "pointerMove"@,
        PointerSubActType::PointerCancel => "pointerCancel"@,
        PointerSubActType::Pause => "pause"@,
    }
}

/// A whole number as a value, or no value where there is no number.
pub open spec fn opt_u32_json(n: Option<u32>) -> Option<JsonView> {
    match n {
        Some(v) => Some(JsonView::UInt(v as u64)),
        None => None,
    }
}

/// A number that is written out as a value, or no value where there is
/// no number.
pub open spec fn opt_float_json(t: Option<Seq<char>>) -> Option<JsonView> {
    match t {
        Some(v) => Some(JsonView::Float(v)),
        None => None,
    }
}

fn json_opt_u32(n: Option<u32>) -> (r: Option<Json>)
    ensures
        held_json(r) == opt_u32_json(n),
{
    match n {
        Some(v) => Some(Json::UInt(v as u64)),
        None => None,
    }
}

fn json_opt_float(t: &Option<String>) -> (r: Option<Json>)
    ensures
        held_json(r) == opt_float_json(crate::json::opt_string(*t)),
{
    match t {
        Some(v) => Some(Json::Float(owned(v.as_str()))),
        None => None,
    }
}

/// The members that a step of a pointer action is written with.
pub open spec fn pointer_members(p: PointerView) -> Members {
    entry("type"@, JsonView::Str(pointer_type_name(p.subtype))) + entry(
        "button"@,
        JsonView::UInt(p.button as u64),
    ) + opt_entry("width"@, opt_u32_json(p.width)) + opt_entry("height"@, opt_u32_json(p.height))
        + opt_entry("pressure"@, opt_float_json(p.pressure)) + opt_entry(
        "tangentialPressure"@,
        opt_float_json(p.tan_pressure),
    ) + opt_entry("twist"@, opt_u32_json(p.twist)) + opt_entry("tiltX"@, opt_u32_json(p.tiltx))
        + opt_entry("tiltY"@, opt_u32_json(p.tilty)) + opt_entry(
        "altitudeAngle"@,
        opt_float_json(p.altitude_angle),
    ) + opt_entry("azimuthAngle"@, opt_float_json(p.azimuth_angle))
}

impl SubAction for PointerSubAction {
    open spec fn json(&self) -> JsonView {
        JsonView::Object(pointer_members(self@))
    }

    fn to_json(&self) -> (r: Json) {
        let mut m: Entries = Vec::new();
        assert(members_view(m@) =~= Seq::<(Seq<char>, JsonView)>::empty());
        put(
            &mut m,
            "type",
            json_str(
                match self.subtype {
                    PointerSubActType::PointerUp => "pointerUp",
                    PointerSubActType::PointerDown => "pointerDown",
                    PointerSubActType::PointerMove => "pointerMove",
                    PointerSubActType::PointerCancel => "pointerCancel",
                    PointerSubActType::Pause => "pause",
                },
            ),
        );
        put(&mut m, "button", Json::UInt(self.button as u64));
        put_opt(&mut m, "width", json_opt_u32(self.width));
        put_opt(&mut m, "height", json_opt_u32(self.height));
        put_opt(&mut m, "pressure", json_opt_float(&self.pressure));
        put_opt(&mut m, "tangentialPressure", json_opt_float(&self.tan_pressure));
        put_opt(&mut m, "twist", json_opt_u32(self.twist));
        put_opt(&mut m, "tiltX", json_opt_u32(self.tiltx));
        put_opt(&mut m, "tiltY", json_opt_u32(self.tilty));
        put_opt(&mut m, "altitudeAngle", json_opt_float(&self.altitude_angle));
        put_opt(&mut m, "azimuthAngle", json_opt_float(&self.azimuth_angle));
        assert(members_view(m@) =~= pointer_members(self@));
        Json::Object(m)
    }
}

#[derive(Debug, PartialEq, Eq, Structural, Clone, Copy)]
pub enum WheelSubActType {
    Scroll,
    Pause,
}

/// One step of a wheel action.
#[derive(Debug)]
pub struct WheelSubAction {
    pub subtype: WheelSubActType,
    pub start_at: (u32, u32),
    pub scroll_amt: (u32, u32),
    pub duration: Option<u32>,
    /// 1 for the viewport, 2 for the pointer.
    pub origin: Option<u8>,
}

impl Default for WheelSubAction {
    fn default() -> (r: Self)
        ensures
            r.subtype == WheelSubActType::Scroll,
            r.start_at == (0u32, 0u32),
            r.scroll_amt == (0u32, 0u32),
            r.duration.is_none(),
            r.origin.is_none(),
    {
        WheelSubAction {
            subtype: WheelSubActType::Scroll,
            start_at: (0, 0),
            scroll_amt: (0, 0),
            duration: None,
            origin: None,
        }
    }
}

impl WheelSubAction {
    pub fn duration(&mut self, t: u32) -> (ret: &mut Self)
        ensures
            *ret == (WheelSubAction { duration: Some(t), ..*old(self) }),
            *final(self) == *final(ret),
    {
        self.duration = Some(t);
        self
    }

    pub fn origin_viewport(&mut self) -> (ret: &mut Self)
        ensures
            *ret == (WheelSubAction { origin: Some(1), ..*old(self) }),
            *final(self) == *final(ret),
    {
        self.origin = Some(1);
        self
    }

    pub fn origin_pointer(&mut self) -> (ret: &mut Self)
        ensures
            *ret == (WheelSubAction { origin: Some(2), ..*old(self) }),
            *final(self) == *final(ret),
    {
        self.origin = Some(2);
        self
    }

    pub fn start_at(&mut self, x: u32, y: u32) -> (ret: &mut Self)
        ensures
            *ret == (WheelSubAction { start_at: (x, y), ..*old(self) }),
            *final(self) == *final(ret),
    {
        self.start_at = (x, y);
        self
    }

    pub fn scroll_amt(&mut self, x: u32, y: u32) -> (ret: &mut Self)
        ensures
            *ret == (WheelSubAction { scroll_amt: (x, y), ..*old(self) }),
            *final(self) == *final(ret),
    {
        self.scroll_amt = (x, y);
        self
    }
}

/// The member that the origin of a wheel step is written as, where it
/// has one.
pub open spec fn origin_json(o: Option<u8>) -> Option<JsonView> {
    match o {
        Some(1) => Some(JsonView::Str("viewport"@)),
        Some(2) => Some(JsonView::Str("pointer"@)),
        _ => None,
    }
}

/// The members that a step of a wheel action is written with.
pub open spec fn wheel_members(w: WheelSubAction) -> Members {
    entry(
        "type"@,
        JsonView::Str(
            match w.subtype {
                WheelSubActType::Scroll => "scroll"@,
                WheelSubActType::Pause => "pause"@,
            },
        ),
    ) + opt_entry("duration"@, opt_u32_json(w.duration)) + opt_entry(
        "origin"@,
        origin_json(w.origin),
    ) + entry("x"@, JsonView::UInt(w.start_at.0 as u64)) + entry(
        "y"@,
        JsonView::UInt(w.start_at.1 as u64),
    ) + entry("deltaX"@, JsonView::UInt(w.scroll_amt.0 as u64)) + entry(
        "deltaY"@,
        JsonView::UInt(w.scroll_amt.1 as u64),
    )
}

impl SubAction for WheelSubAction {
    open spec fn json(&self) -> JsonView {
        JsonView::Object(wheel_members(*self))
    }

    fn to_json(&self) -> (r: Json) {
        let mut m: Entries = Vec::new();
        assert(members_view(m@) =~= Seq::<(Seq<char>, JsonView)>::empty());
        put(
            &mut m,
            "type",
            json_str(
                match self.subtype {
                    WheelSubActType::Scroll => "scroll",
                    WheelSubActType::Pause => "pause",
                },
            ),
        );
        put_opt(&mut m, "duration", json_opt_u32(self.duration));
        put_opt(
            &mut m,
            "origin",
            match self.origin {
                Some(1) => Some(json_str("viewport")),
                Some(2) => Some(json_str("pointer")),
                _ => None,
            },
        );
        put(&mut m, "x", Json::UInt(self.start_at.0 as u64));
        put(&mut m, "y", Json::UInt(self.start_at.1 as u64));
        put(&mut m, "deltaX", Json::UInt(self.scroll_amt.0 as u64));
        put(&mut m, "deltaY", Json::UInt(self.scroll_amt.1 as u64));
        assert(members_view(m@) =~= wheel_members(*self));
        Json::Object(m)
    }
}

// ----------------------------------------------------------------- actions --

/// An action: its id and its steps in order.
#[derive(Debug)]
pub struct AnyAction<S> {
    pub id: String,
    pub sub_acts: Vec<S>,
}

impl<S> Default for AnyAction<S> {
    fn default() -> (r: Self)
        ensures
            r.id@ == Seq::<char>::empty(),
            r.sub_acts@.len() == 0,
    {
        AnyAction { id: String::new(), sub_acts: Vec::new() }
    }
}

impl<S: Default> AnyAction<S> {
    pub fn set_id(&mut self, arg: &str)
        ensures
            final(self).id@ == arg@,
            final(self).sub_acts == old(self).sub_acts,
    {
        self.id = owned(arg);
    }

    pub fn set_id_take(&mut self, arg: String)
        ensures
            final(self).id == arg,
            final(self).sub_acts == old(self).sub_acts,
    {
        self.id = arg;
    }

    pub fn done(&mut self)
        ensures
            *final(self) == *old(self),
    {
    }

    /// Adds a step to the action and hands it out to be set.
    pub fn add_subact(&mut self) -> (ret: &mut S)
        ensures
            call_ensures(S::default, (), *ret),
            final(self).id == old(self).id,
            final(self).sub_acts@ == old(self).sub_acts@.push(*final(ret)),
    {
        self.sub_acts.push(S::default());
        let n = self.sub_acts.len();
        &mut self.sub_acts[n - 1]
    }
}

/// The steps of an action as they are written.
pub open spec fn steps_json<S: SubAction>(steps: Seq<S>) -> JsonView {
    JsonView::Array(Seq::new(steps.len(), |i: int| steps[i].json()))
}

/// The members that an action is written with: its kind, its id, and
/// its steps.
pub open spec fn action_members<S: SubAction>(kind: Seq<char>, a: AnyAction<S>) -> Members {
    entry("type"@, JsonView::Str(kind)) + entry("id"@, JsonView::Str(a.id@)) + entry(
        "actions"@,
        steps_json(a.sub_acts@),
    )
}

fn action_json<S: SubAction>(kind: &str, a: &AnyAction<S>) -> (r: Json)
    ensures
        r@ == JsonView::Object(action_members(kind@, *a)),
{
    let mut list: Vec<Json> = Vec::new();
    let mut i: usize = 0;
    while i < a.sub_acts.len()
        invariant
            0 <= i <= a.sub_acts@.len(),
            list@.len() == i,
            forall|k: int| 0 <= k < i ==> list@[k]@ == a.sub_acts@[k].json(),
        decreases a.sub_acts@.len() - i,
    {
        list.push(a.sub_acts[i].to_json());
        i = i + 1;
    }
    let arr = Json::Array(list);
    assert(arr@ == steps_json(a.sub_acts@)) by {
        assert(items_view(list@) =~= Seq::new(
            a.sub_acts@.len(),
            |i: int| a.sub_acts@[i].json(),
        ));
    }
    let mut m: Entries = Vec::new();
    assert(members_view(m@) =~= Seq::<(Seq<char>, JsonView)>::empty());
    put(&mut m, "type", json_str(kind));
    put(&mut m, "id", json_str(a.id.as_str()));
    put(&mut m, "actions", arr);
    assert(members_view(m@) =~= action_members(kind@, *a));
    Json::Object(m)
}

/// An action of one of the three kinds, or none.
#[derive(Debug)]
pub enum ActionKind {
    /// The action of no input source, written with the type `none`.
    NoInput,
    Key(AnyAction<KeySubAction>),
    Pointer(AnyAction<PointerSubAction>),
    Wheel(AnyAction<WheelSubAction>),
}

/// An action as it is written.
pub open spec fn kind_json(k: ActionKind) -> JsonView {
    JsonView::Object(
        match k {
            ActionKind::NoInput => entry("type"@, JsonView::Str("none"@)),
            ActionKind::Key(a) => action_members("key"@, a),
            ActionKind::Pointer(a) => action_members("pointer"@, a),
            ActionKind::Wheel(a) => action_members("wheel"@, a),
        },
    )
}

impl ActionKind {
    /// The action as the JSON object that is sent.
    pub fn to_json(&self) -> (r: Json)
        ensures
            r@ == kind_json(*self),
    {
        match self {
            ActionKind::NoInput => {
                let mut m: Entries = Vec::new();
                assert(members_view(m@) =~= Seq::<(Seq<char>, JsonView)>::empty());
                put(&mut m, "type", json_str("none"));
                assert(members_view(m@) =~= entry("type"@, JsonView::Str("none"@)));
                Json::Object(m)
            },
            ActionKind::Key(a) => action_json("key", a),
            ActionKind::Pointer(a) => action_json("pointer", a),
            ActionKind::Wheel(a) => action_json("wheel", a),
        }
    }
}

/// A group of the actions that a user asks for, in order.
#[derive(Debug)]
pub struct ActionGroup {
    pub actions: Vec<ActionKind>,
}

impl Default for ActionGroup {
    fn default() -> (r: Self)
        ensures
            r.actions@.len() == 0,
    {
        ActionGroup { actions: Vec::new() }
    }
}

/// A group as it is written.
pub open spec fn group_json(actions: Seq<ActionKind>) -> JsonView {
    JsonView::Object(
        entry(
            "actions"@,
            JsonView::Array(Seq::new(actions.len(), |i: int| kind_json(actions[i]))),
        ),
    )
}

/// The mark that stands for `\u` in what is written for a named key.
pub open spec fn mark() -> Seq<u8> {
    seq![95u8, 95, 85, 95, 95]
}

/// The bytes with every mark, from left to right, replaced by `\u`.
pub open spec fn unmarked(s: Seq<u8>) -> Seq<u8>
    decreases s.len(),
{
    if s.len() < 5 {
        s
    } else if s.take(5) == mark() {
        seq![92u8, 117u8] + unmarked(s.skip(5))
    } else {
        seq![s.first()] + unmarked(s.drop_first())
    }
}

/// Replaces every mark in `s`, from left to right, by `\u`.
pub fn unmark(s: &[u8]) -> (r: Vec<u8>)
    ensures
        r@ == unmarked(s@),
{
    let m: [u8; 5] = [95, 95, 85, 95, 95];
    assert(m@ =~= mark());
    let mut out: Vec<u8> = Vec::new();
    let mut i: usize = 0;
    let n = s.len();
    assert(s@.skip(0) =~= s@);
    while i < n
        invariant
            0 <= i <= n,
            n == s@.len(),
            m@ == mark(),
            out@ + unmarked(s@.skip(i as int)) == unmarked(s@),
        decreases n - i,
    {
        let ghost rest = s@.skip(i as int);
        if n - i >= 5 && same_bytes(vstd::slice::slice_subrange(s, i, i + 5), m.as_slice()) {
            proof {
                assert(rest.take(5) =~= s@.subrange(i as int, i + 5));
                assert(rest.skip(5) =~= s@.skip(i + 5));
                assert((out@ + seq![92u8, 117u8]) + unmarked(s@.skip(i + 5)) =~= out@ + (
                seq![92u8, 117u8] + unmarked(s@.skip(i + 5))));
            }
            out.push(92);
            out.push(117);
            i = i + 5;
        } else {
            proof {
                if n - i >= 5 {
                    assert(rest.take(5) =~= s@.subrange(i as int, i + 5));
                    assert(rest.drop_first() =~= s@.skip(i + 1));
                    assert((out@ + seq![rest.first()]) + unmarked(s@.skip(i + 1)) =~= out@ + (
                    seq![rest.first()] + unmarked(s@.skip(i + 1))));
                }
            }
            if n - i < 5 {
                proof {
                    assert(unmarked(rest) == rest);
                }
                append(&mut out, vstd::slice::slice_subrange(s, i, n));
                proof {
                    assert(s@.subrange(i as int, n as int) =~= rest);
                    assert(unmarked(s@.skip(n as int)) =~= Seq::<u8>::empty());
                }
                i = n;
            } else {
                out.push(s[i]);
                i = i + 1;
            }
        }
    }
    assert(unmarked(s@.skip(n as int)) =~= Seq::<u8>::empty());
    assert(out@ + Seq::<u8>::empty() =~= out@);
    out
}

impl ActionGroup {
    pub fn add_act(&mut self, act: ActionKind)
        ensures
            final(self).actions@ == old(self).actions@.push(act),
    {
        self.actions.push(act);
    }

    /// Adds a key action with the id `id` and hands it out to be filled.
    pub fn add_key_act(&mut self, id: &str) -> (ret: &mut AnyAction<KeySubAction>)
        ensures
            ret.id@ == id@,
            ret.sub_acts@.len() == 0,
            final(self).actions@ == old(self).actions@.push(ActionKind::Key(*final(ret))),
    {
        let mut act = AnyAction::<KeySubAction>::default();
        act.set_id(id);
        self.actions.push(ActionKind::Key(act));
        let n = self.actions.len();
        match &mut self.actions[n - 1] {
            ActionKind::Key(v) => v,
            _ => vstd::pervasive::unreached(),
        }
    }

    /// Adds a pointer action with the id `id` and hands it out to be filled.
    pub fn add_pointer_act(&mut self, id: &str) -> (ret: &mut AnyAction<PointerSubAction>)
        ensures
            ret.id@ == id@,
            ret.sub_acts@.len() == 0,
            final(self).actions@ == old(self).actions@.push(ActionKind::Pointer(*final(ret))),
    {
        let mut act = AnyAction::<PointerSubAction>::default();
        act.set_id(id);
        self.actions.push(ActionKind::Pointer(act));
        let n = self.actions.len();
        match &mut self.actions[n - 1] {
            ActionKind::Pointer(v) => v,
            _ => vstd::pervasive::unreached(),
        }
    }

    /// Adds a wheel action with the id `id` and hands it out to be filled.
    pub fn add_wheel_act(&mut self, id: &str) -> (ret: &mut AnyAction<WheelSubAction>)
        ensures
            ret.id@ == id@,
            ret.sub_acts@.len() == 0,
            final(self).actions@ == old(self).actions@.push(ActionKind::Wheel(*final(ret))),
    {
        let mut act = AnyAction::<WheelSubAction>::default();
        act.set_id(id);
        self.actions.push(ActionKind::Wheel(act));
        let n = self.actions.len();
        match &mut self.actions[n - 1] {
            ActionKind::Wheel(v) => v,
            _ => vstd::pervasive::unreached(),
        }
    }

    /// The group as the JSON object that is written.
    pub fn to_json(&self) -> (r: Json)
        ensures
            r@ == group_json(self.actions@),
    {
        let mut list: Vec<Json> = Vec::new();
        let mut i: usize = 0;
        while i < self.actions.len()
            invariant
                0 <= i <= self.actions@.len(),
                list@.len() == i,
                forall|k: int| 0 <= k < i ==> list@[k]@ == kind_json(self.actions@[k]),
            decreases self.actions@.len() - i,
        {
            list.push(self.actions[i].to_json());
            i = i + 1;
        }
        let arr = Json::Array(list);
        assert(arr@ == JsonView::Array(
            Seq::new(self.actions@.len(), |i: int| kind_json(self.actions@[i])),
        )) by {
            assert(items_view(list@) =~= Seq::new(
                self.actions@.len(),
                |i: int| kind_json(self.actions@[i]),
            ));
        }
        let mut m: Entries = Vec::new();
        assert(members_view(m@) =~= Seq::<(Seq<char>, JsonView)>::empty());
        put(&mut m, "actions", arr);
        assert(members_view(m@) =~= entry(
            "actions"@,
            JsonView::Array(Seq::new(self.actions@.len(), |i: int| kind_json(self.actions@[i]))),
        ));
        Json::Object(m)
    }

    /// The group as the bytes that are sent: its JSON text, with the marks
    /// of the named keys made `\u`.
    pub fn to_body(&self) -> (r: Option<Vec<u8>>)
        ensures
            held_bytes(r) == match json_bytes(group_json(self.actions@)) {
                Some(t) => Some(unmarked(t)),
                None => None,
            },
    {
        match self.to_json().to_bytes() {
            Some(b) => Some(unmark(b.as_slice())),
            None => None,
        }
    }
}

} // verus!
