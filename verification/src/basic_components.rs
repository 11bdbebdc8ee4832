//! The components that show something: dial, text field, horizon and test figure.

use crate::component::{Component, ComponentType};
use crate::frontend::{color_of_number, color_text, hex_number, Color, Palette, SerializableColor, Status};
use crate::json::{
    items_view, law_natural_reads_back, law_number_reads_back, lemma_member_at, member, natural_in, one_member,
    only_member_of, push_member, scalar_in, text_in, Json, JsonView,
};
use crate::manager::Manager;
use crate::scalar::{Scalar, UNIT};
use crate::scene::Event;
use crate::text::{
    chars_of, decimal_text, first_point, is_first_point, lemma_first_point, lemma_first_point_exists, natural_digits,
    same_text, text_of,
};
use crate::zone::{constrained, DrawZone, Vec2};
use vstd::prelude::*;

verus! {

// =========================== STATUS ===========================

/// The status that a text names.
pub open spec fn status_named(t: Option<Seq<char>>) -> Option<Status> {
    match t {
        Some(name) => if name == "Ok"@ {
            Some(Status::Normal)
        } else if name == "Warning"@ {
            Some(Status::Warning)
        } else if name == "Error"@ {
            Some(Status::Error)
        } else {
            None
        },
        None => None,
    }
}

/// The name of a status.
pub open spec fn status_name(s: Status) -> Seq<char> {
    match s {
        Status::Normal => "Ok"@,
        Status::Warning => "Warning"@,
        Status::Error => "Error"@,
    }
}

/// The status that a value names.
pub fn status_from_json(json: &Json) -> (r: Option<Status>)
    ensures
        r == status_named(text_in(Some(json@))),
{
    match json.as_str() {
        Some(name) => {
            if same_text(name, "Ok") {
                Some(Status::Normal)
            } else if same_text(name, "Warning") {
                Some(Status::Warning)
            } else if same_text(name, "Error") {
                Some(Status::Error)
            } else {
                None
            }
        },
        None => None,
    }
}

/// The value that names a status.
pub fn status_to_json(s: Status) -> (r: Json)
    ensures
        r@ == JsonView::Text(status_name(s)),
{
    match s {
        Status::Normal => Json::text("Ok"),
        Status::Warning => Json::text("Warning"),
        Status::Error => Json::text("Error"),
    }
}

/// The colour that a value holds as text.
pub open spec fn color_in(value: Option<JsonView>) -> Option<SerializableColor> {
    match text_in(value) {
        Some(t) => match hex_number(t) {
            Some(n) => Some(SerializableColor { color: color_of_number(n) }),
            None => None,
        },
        None => None,
    }
}

// =========================== ROTATIONAL INDICATOR ===========================

/// A dial with a needle, coloured ranges and the value in figures.
#[derive(Clone, Copy, Debug, PartialEq, Eq, Structural)]
pub struct RotationalIndicator {}

/// What a dial is told.
#[derive(Debug, PartialEq, Eq)]
pub struct RotationalIndicatorData {
    /// The number of digits shown after the point.
    pub precision: u32,
    pub unit: String,
    pub caption: String,
    pub value: Scalar,
    pub value_min: Scalar,
    /// The upper end and the status of each range, from the lowest range up.
    pub value_ranges: Vec<(Scalar, Status)>,
}

/// The model of what a dial is told.
pub struct RotationalIndicatorView {
    pub precision: u32,
    pub unit: Seq<char>,
    pub caption: Seq<char>,
    pub value: Scalar,
    pub value_min: Scalar,
    pub value_ranges: Seq<(Scalar, Status)>,
}

impl View for RotationalIndicatorData {
    type V = RotationalIndicatorView;

    open spec fn view(&self) -> RotationalIndicatorView {
        RotationalIndicatorView {
            precision: self.precision,
            unit: self.unit@,
            caption: self.caption@,
            value: self.value,
            value_min: self.value_min,
            value_ranges: self.value_ranges@,
        }
    }
}

/// The range that a value holds: an array of its upper end and its status.
pub open spec fn range_in(value: JsonView) -> Option<(Scalar, Status)> {
    match value {
        JsonView::Array(items) => if items.len() == 2 {
            match (scalar_in(Some(items[0])), status_named(text_in(Some(items[1])))) {
                (Some(end), Some(status)) => Some((end, status)),
                _ => None,
            }
        } else {
            None
        },
        _ => None,
    }
}

/// The ranges that a value holds: an array of ranges.
pub open spec fn ranges_in(value: Option<JsonView>) -> Option<Seq<(Scalar, Status)>> {
    match value {
        Some(JsonView::Array(items)) => if forall|i: int| 0 <= i < items.len() ==> range_in(#[trigger] items[i]) is Some {
            Some(Seq::new(items.len(), |i: int| range_in(items[i]).unwrap()))
        } else {
            None
        },
        _ => None,
    }
}

/// What a dial is told by a value: an object with all six members.
pub open spec fn rotational_indicator_from(json: JsonView) -> Option<RotationalIndicatorView> {
    match (
        natural_in(member(json, "precision"@), u32::MAX as nat),
        text_in(member(json, "unit"@)),
        text_in(member(json, "caption"@)),
        scalar_in(member(json, "value"@)),
        scalar_in(member(json, "value_min"@)),
        ranges_in(member(json, "value_ranges"@)),
    ) {
        (Some(precision), Some(unit), Some(caption), Some(value), Some(value_min), Some(value_ranges)) => Some(
            RotationalIndicatorView { precision: precision as u32, unit, caption, value, value_min, value_ranges },
        ),
        _ => None,
    }
}

/// The value that holds a range.
pub open spec fn range_json(range: (Scalar, Status)) -> JsonView {
    JsonView::Array(seq![JsonView::Number(decimal_text(range.0@)), JsonView::Text(status_name(range.1))])
}

/// The value that holds what a dial is told.
pub open spec fn rotational_indicator_json(data: RotationalIndicatorView) -> JsonView {
    JsonView::Object(
        seq![
            ("precision"@, JsonView::Number(natural_digits(data.precision as nat))),
            ("unit"@, JsonView::Text(data.unit)),
            ("caption"@, JsonView::Text(data.caption)),
            ("value"@, JsonView::Number(decimal_text(data.value@))),
            ("value_min"@, JsonView::Number(decimal_text(data.value_min@))),
            (
                "value_ranges"@,
                JsonView::Array(Seq::new(data.value_ranges.len(), |i: int| range_json(data.value_ranges[i]))),
            ),
        ],
    )
}

/// The range that a value holds.
fn range_from_json(json: &Json) -> (r: Option<(Scalar, Status)>)
    ensures
        r == range_in(json@),
{
    match json.as_array() {
        Some(items) => {
            if items.len() == 2 {
                match (items[0].as_scalar(), status_from_json(&items[1])) {
                    (Some(end), Some(status)) => Some((end, status)),
                    _ => None,
                }
            } else {
                None
            }
        },
        None => None,
    }
}

/// The ranges that a value holds.
fn ranges_from_json(json: Option<&Json>) -> (r: Option<Vec<(Scalar, Status)>>)
    ensures
        match r {
            Some(ranges) => ranges_in(
                match json {
                    Some(j) => Some(j@),
                    None => None,
                },
            ) == Some(ranges@),
            None => ranges_in(
                match json {
                    Some(j) => Some(j@),
                    None => None,
                },
            ) is None,
        },
{
    match json {
        Some(value) => match value.as_array() {
            Some(items) => {
                let mut out: Vec<(Scalar, Status)> = Vec::new();
                let mut i: usize = 0;
                while i < items.len()
                    invariant
                        i <= items.len(),
                        json == Some(value),
                        value@ == JsonView::Array(items_view(items@)),
                        out@.len() == i,
                        forall|k: int| 0 <= k < i ==> range_in(#[trigger] items_view(items@)[k]) == Some(out@[k]),
                    decreases items.len() - i,
                {
                    match range_from_json(&items[i]) {
                        Some(range) => {
                            out.push(range);
                        },
                        None => {
                            assert(items_view(items@)[i as int] == items@[i as int]@);
                            assert(range_in(items_view(items@)[i as int]) is None);
                            return None;
                        },
                    }
                    i = i + 1;
                }
                assert(out@ =~= Seq::new(items_view(items@).len(), |k: int| range_in(items_view(items@)[k]).unwrap()));
                Some(out)
            },
            None => None,
        },
        None => None,
    }
}

impl Clone for RotationalIndicatorData {
    fn clone(&self) -> (r: RotationalIndicatorData)
        ensures
            r@ == self@,
    {
        let mut ranges: Vec<(Scalar, Status)> = Vec::new();
        let mut i: usize = 0;
        while i < self.value_ranges.len()
            invariant
                i <= self.value_ranges.len(),
                ranges@ == self.value_ranges@.take(i as int),
            decreases self.value_ranges.len() - i,
        {
            ranges.push(self.value_ranges[i]);
            assert(self.value_ranges@.take(i + 1) =~= self.value_ranges@.take(i as int).push(self.value_ranges@[i as int]));
            i = i + 1;
        }
        assert(self.value_ranges@.take(self.value_ranges@.len() as int) =~= self.value_ranges@);
        RotationalIndicatorData {
            precision: self.precision,
            unit: self.unit.clone(),
            caption: self.caption.clone(),
            value: self.value,
            value_min: self.value_min,
            value_ranges: ranges,
        }
    }
}

impl RotationalIndicatorData {
    /// What a dial is told by a value.
    pub fn from_json(json: &Json) -> (r: Option<RotationalIndicatorData>)
        ensures
            match r {
                Some(data) => rotational_indicator_from(json@) == Some(data@),
                None => rotational_indicator_from(json@) is None,
            },
    {
        let precision = json.field_natural("precision", u32::MAX as u64);
        let unit = json.field_text("unit");
        let caption = json.field_text("caption");
        let value = json.field_scalar("value");
        let value_min = json.field_scalar("value_min");
        let value_ranges = ranges_from_json(json.get("value_ranges"));
        match (precision, unit, caption, value, value_min, value_ranges) {
            (Some(precision), Some(unit), Some(caption), Some(value), Some(value_min), Some(value_ranges)) => Some(
                RotationalIndicatorData {
                    precision: precision as u32,
                    unit: unit.to_owned(),
                    caption: caption.to_owned(),
                    value,
                    value_min,
                    value_ranges,
                },
            ),
            _ => None,
        }
    }

    /// The value that holds what the dial is told.
    pub fn to_json(&self) -> (r: Json)
        ensures
            r@ == rotational_indicator_json(self@),
    {
        let mut ranges: Vec<Json> = Vec::new();
        let mut i: usize = 0;
        while i < self.value_ranges.len()
            invariant
                i <= self.value_ranges.len(),
                ranges@.len() == i,
                forall|k: int| 0 <= k < i ==> #[trigger] ranges@[k]@ == range_json(self.value_ranges@[k]),
            decreases self.value_ranges.len() - i,
        {
            let mut pair: Vec<Json> = Vec::new();
            pair.push(Json::number(self.value_ranges[i].0));
            pair.push(status_to_json(self.value_ranges[i].1));
            let range = Json::array(pair);
            assert(range@->Array_0 =~= range_json(self.value_ranges@[i as int])->Array_0);
            ranges.push(range);
            i = i + 1;
        }
        let all = Json::array(ranges);
        assert(all@->Array_0 =~= Seq::new(self.value_ranges@.len(), |i: int| range_json(self.value_ranges@[i])));
        let mut members = one_member("precision", Json::natural(self.precision as u64));
        push_member(&mut members, "unit", Json::text(self.unit.as_str()));
        push_member(&mut members, "caption", Json::text(self.caption.as_str()));
        push_member(&mut members, "value", Json::number(self.value));
        push_member(&mut members, "value_min", Json::number(self.value_min));
        push_member(&mut members, "value_ranges", all);
        let r = Json::object(members);
        assert(r@->Object_0 =~= rotational_indicator_json(self@)->Object_0);
        r
    }
}

impl Component for RotationalIndicator {
    type Public = RotationalIndicatorData;

    type Internal = ();

    fn max_children(&self) -> (r: Option<u32>)
        ensures
            r == Some(0u32),
    {
        Some(0)
    }

    fn get_name(&self) -> (r: &'static str)
        ensures
            r@ == "RotationalIndicator"@,
    {
        "RotationalIndicator"
    }

    fn get_default_data(&self) -> (r: Option<RotationalIndicatorData>)
        ensures
            r matches Some(d) && d@ == (RotationalIndicatorView {
                precision: 1,
                unit: ""@,
                caption: ""@,
                value: Scalar::of(50 * UNIT),
                value_min: Scalar::of(0),
                value_ranges: seq![(Scalar::of(100 * UNIT), Status::Normal)],
            }),
    {
        let mut ranges: Vec<(Scalar, Status)> = Vec::new();
        ranges.push((Scalar::from_int(100), Status::Normal));
        let d = RotationalIndicatorData {
            precision: 1,
            unit: "".to_owned(),
            caption: "".to_owned(),
            value: Scalar::from_int(50),
            value_min: Scalar::zero(),
            value_ranges: ranges,
        };
        assert(d@.value_ranges =~= seq![(Scalar::of(100 * UNIT), Status::Normal)]);
        Some(d)
    }

    open spec fn after_event(
        &self,
        drawn_location: DrawZone,
        event: Event,
        internal_data: (),
        public_data: RotationalIndicatorData,
    ) -> ((), RotationalIndicatorData) {
        (internal_data, public_data)
    }

    /// Takes no notice of the event.
    fn handle_event(
        &self,
        drawn_location: &DrawZone,
        event: &Event,
        internal_data: &mut (),
        public_data: &mut RotationalIndicatorData,
    ) {
    }
}

// =========================== TEXT FIELD ===========================

/// A line of text on a coloured ground.
#[derive(Clone, Copy, Debug, PartialEq, Eq, Structural)]
pub struct TextField {}

/// What a text field is told.
#[derive(Debug, PartialEq, Eq)]
pub struct TextFieldData {
    pub text: String,
    pub front_color: SerializableColor,
    pub back_color: SerializableColor,
}

/// The model of what a text field is told.
pub struct TextFieldView {
    pub text: Seq<char>,
    pub front_color: SerializableColor,
    pub back_color: SerializableColor,
}

impl View for TextFieldData {
    type V = TextFieldView;

    open spec fn view(&self) -> TextFieldView {
        TextFieldView { text: self.text@, front_color: self.front_color, back_color: self.back_color }
    }
}

/// What a text field is told by a value: an object with all three members.
pub open spec fn text_field_from(json: JsonView) -> Option<TextFieldView> {
    match (
        text_in(member(json, "text"@)),
        color_in(member(json, "front_color"@)),
        color_in(member(json, "back_color"@)),
    ) {
        (Some(text), Some(front_color), Some(back_color)) => Some(TextFieldView { text, front_color, back_color }),
        _ => None,
    }
}

/// The value that holds what a text field is told.
pub open spec fn text_field_json(data: TextFieldView) -> JsonView {
    JsonView::Object(
        seq![
            ("text"@, JsonView::Text(data.text)),
            ("front_color"@, JsonView::Text(color_text(data.front_color.color))),
            ("back_color"@, JsonView::Text(color_text(data.back_color.color))),
        ],
    )
}

/// The colour in the member named `key`.
fn field_color(json: &Json, key: &str) -> (r: Option<SerializableColor>)
    ensures
        r == color_in(member(json@, key@)),
{
    match json.field_text(key) {
        Some(t) => SerializableColor::parse(t),
        None => None,
    }
}

impl Clone for TextFieldData {
    fn clone(&self) -> (r: TextFieldData)
        ensures
            r@ == self@,
    {
        TextFieldData { text: self.text.clone(), front_color: self.front_color, back_color: self.back_color }
    }
}

impl TextFieldData {
    /// What a text field is told by a value.
    pub fn from_json(json: &Json) -> (r: Option<TextFieldData>)
        ensures
            match r {
                Some(data) => text_field_from(json@) == Some(data@),
                None => text_field_from(json@) is None,
            },
    {
        let text = json.field_text("text");
        let front_color = field_color(json, "front_color");
        let back_color = field_color(json, "back_color");
        match (text, front_color, back_color) {
            (Some(text), Some(front_color), Some(back_color)) => Some(
                TextFieldData { text: text.to_owned(), front_color, back_color },
            ),
            _ => None,
        }
    }

    /// The value that holds what the text field is told.
    pub fn to_json(&self) -> (r: Json)
        ensures
            r@ == text_field_json(self@),
    {
        let mut members = one_member("text", Json::text(self.text.as_str()));
        push_member(&mut members, "front_color", Json::text(self.front_color.to_text().as_str()));
        push_member(&mut members, "back_color", Json::text(self.back_color.to_text().as_str()));
        let r = Json::object(members);
        assert(r@->Object_0 =~= text_field_json(self@)->Object_0);
        r
    }
}

impl Component for TextField {
    type Public = TextFieldData;

    type Internal = Option<Scalar>;

    fn max_children(&self) -> (r: Option<u32>)
        ensures
            r == Some(0u32),
    {
        Some(0)
    }

    fn get_name(&self) -> (r: &'static str)
        ensures
            r@ == "TextField"@,
    {
        "TextField"
    }

    fn get_default_data(&self) -> (r: Option<TextFieldData>)
        ensures
            r matches Some(d) && d@ == (TextFieldView {
                text: "<Placeholder>"@,
                front_color: SerializableColor { color: Color { r: 0x80, g: 0x80, b: 0x80, a: 255 } },
                back_color: SerializableColor { color: Color { r: 0, g: 0, b: 0x60, a: 255 } },
            }),
    {
        Some(
            TextFieldData {
                text: "<Placeholder>".to_owned(),
                front_color: SerializableColor { color: Color::from_rgb(0x80, 0x80, 0x80) },
                back_color: SerializableColor { color: Color::from_rgb(0x0, 0x0, 0x60) },
            },
        )
    }

    open spec fn after_event(
        &self,
        drawn_location: DrawZone,
        event: Event,
        internal_data: Option<Scalar>,
        public_data: TextFieldData,
    ) -> (Option<Scalar>, TextFieldData) {
        (internal_data, public_data)
    }

    /// Takes no notice of the event.
    fn handle_event(
        &self,
        drawn_location: &DrawZone,
        event: &Event,
        internal_data: &mut Option<Scalar>,
        public_data: &mut TextFieldData,
    ) {
    }
}

// =========================== SPATIAL SITUATION INDICATOR ===========================

/// An artificial horizon.
#[derive(Clone, Copy, Debug, PartialEq, Eq, Structural)]
pub struct SpatialSituationIndicator {}

/// What a horizon is told: the zoom of its projection and the attitude, in radians.
#[derive(Clone, Copy, Debug, PartialEq, Eq, Structural)]
pub struct SpatialSituationIndicatorData {
    pub projection_zoom: Scalar,
    pub yaw: Scalar,
    pub pitch: Scalar,
    pub roll: Scalar,
}

/// What a horizon is told by a value: an object with all four members.
pub open spec fn spatial_situation_indicator_from(json: JsonView) -> Option<SpatialSituationIndicatorData> {
    match (
        scalar_in(member(json, "projection_zoom"@)),
        scalar_in(member(json, "yaw"@)),
        scalar_in(member(json, "pitch"@)),
        scalar_in(member(json, "roll"@)),
    ) {
        (Some(projection_zoom), Some(yaw), Some(pitch), Some(roll)) => Some(
            SpatialSituationIndicatorData { projection_zoom, yaw, pitch, roll },
        ),
        _ => None,
    }
}

/// The value that holds what a horizon is told.
pub open spec fn spatial_situation_indicator_json(data: SpatialSituationIndicatorData) -> JsonView {
    JsonView::Object(
        seq![
            ("projection_zoom"@, JsonView::Number(decimal_text(data.projection_zoom@))),
            ("yaw"@, JsonView::Number(decimal_text(data.yaw@))),
            ("pitch"@, JsonView::Number(decimal_text(data.pitch@))),
            ("roll"@, JsonView::Number(decimal_text(data.roll@))),
        ],
    )
}

impl SpatialSituationIndicatorData {
    /// What a horizon is told by a value.
    pub fn from_json(json: &Json) -> (r: Option<SpatialSituationIndicatorData>)
        ensures
            r == spatial_situation_indicator_from(json@),
    {
        match (
            json.field_scalar("projection_zoom"),
            json.field_scalar("yaw"),
            json.field_scalar("pitch"),
            json.field_scalar("roll"),
        ) {
            (Some(projection_zoom), Some(yaw), Some(pitch), Some(roll)) => Some(
                SpatialSituationIndicatorData { projection_zoom, yaw, pitch, roll },
            ),
            _ => None,
        }
    }

    /// The value that holds what the horizon is told.
    pub fn to_json(&self) -> (r: Json)
        ensures
            r@ == spatial_situation_indicator_json(*self),
    {
        let mut members = one_member("projection_zoom", Json::number(self.projection_zoom));
        push_member(&mut members, "yaw", Json::number(self.yaw));
        push_member(&mut members, "pitch", Json::number(self.pitch));
        push_member(&mut members, "roll", Json::number(self.roll));
        let r = Json::object(members);
        assert(r@->Object_0 =~= spatial_situation_indicator_json(*self)->Object_0);
        r
    }
}

impl Component for SpatialSituationIndicator {
    type Public = SpatialSituationIndicatorData;

    type Internal = ();

    fn max_children(&self) -> (r: Option<u32>)
        ensures
            r == Some(0u32),
    {
        Some(0)
    }

    fn get_name(&self) -> (r: &'static str)
        ensures
            r@ == "SpatialSituationIndicator"@,
    {
        "SpatialSituationIndicator"
    }

    fn get_default_data(&self) -> (r: Option<SpatialSituationIndicatorData>)
        ensures
            r == Some(
                SpatialSituationIndicatorData {
                    projection_zoom: Scalar::of(1_500_000),
                    yaw: Scalar::of(0),
                    pitch: Scalar::of(0),
                    roll: Scalar::of(0),
                },
            ),
    {
        Some(
            SpatialSituationIndicatorData {
                projection_zoom: Scalar::new(1_500_000),
                yaw: Scalar::zero(),
                pitch: Scalar::zero(),
                roll: Scalar::zero(),
            },
        )
    }

    open spec fn after_event(
        &self,
        drawn_location: DrawZone,
        event: Event,
        internal_data: (),
        public_data: SpatialSituationIndicatorData,
    ) -> ((), SpatialSituationIndicatorData) {
        (internal_data, public_data)
    }

    /// Takes no notice of the event.
    fn handle_event(
        &self,
        drawn_location: &DrawZone,
        event: &Event,
        internal_data: &mut (),
        public_data: &mut SpatialSituationIndicatorData,
    ) {
    }
}

// =========================== GEOMETRY TESTER ===========================

/// The figure that a geometry tester draws.
#[derive(Clone, Copy, Debug, PartialEq, Eq, Structural)]
pub enum GeometryTestType {
    Line,
    Circle,
    /// An arc between two angles, in radians.
    Arc(Scalar, Scalar),
}

/// A figure for trying out the drawing surface.
#[derive(Clone, Copy, Debug, PartialEq, Eq, Structural)]
pub struct GeometryTester;

/// The figure that a value names: the text `Line` or `Circle`, or an object whose one member
/// `Arc` holds the two angles.
pub open spec fn geometry_test_type_from(json: JsonView) -> Option<GeometryTestType> {
    match json {
        JsonView::Text(name) => if name == "Line"@ {
            Some(GeometryTestType::Line)
        } else if name == "Circle"@ {
            Some(GeometryTestType::Circle)
        } else {
            None
        },
        JsonView::Object(members) => match only_member_of(json) {
            Some((name, JsonView::Array(angles))) => if name == "Arc"@ && angles.len() == 2 {
                match (scalar_in(Some(angles[0])), scalar_in(Some(angles[1]))) {
                    (Some(begin), Some(end)) => Some(GeometryTestType::Arc(begin, end)),
                    _ => None,
                }
            } else {
                None
            },
            _ => None,
        },
        _ => None,
    }
}

/// The value that names a figure.
pub open spec fn geometry_test_type_json(data: GeometryTestType) -> JsonView {
    match data {
        GeometryTestType::Line => JsonView::Text("Line"@),
        GeometryTestType::Circle => JsonView::Text("Circle"@),
        GeometryTestType::Arc(begin, end) => JsonView::Object(
            seq![
                (
                    "Arc"@,
                    JsonView::Array(
                        seq![JsonView::Number(decimal_text(begin@)), JsonView::Number(decimal_text(end@))],
                    ),
                ),
            ],
        ),
    }
}

impl GeometryTestType {
    /// The figure that a value names.
    pub fn from_json(json: &Json) -> (r: Option<GeometryTestType>)
        ensures
            r == geometry_test_type_from(json@),
    {
        match json.as_str() {
            Some(name) => {
                if same_text(name, "Line") {
                    Some(GeometryTestType::Line)
                } else if same_text(name, "Circle") {
                    Some(GeometryTestType::Circle)
                } else {
                    None
                }
            },
            None => match json.only_member() {
                Some((name, value)) => match value.as_array() {
                    Some(angles) => {
                        if same_text(name, "Arc") && angles.len() == 2 {
                            match (angles[0].as_scalar(), angles[1].as_scalar()) {
                                (Some(begin), Some(end)) => Some(GeometryTestType::Arc(begin, end)),
                                _ => None,
                            }
                        } else {
                            None
                        }
                    },
                    None => None,
                },
                None => None,
            },
        }
    }

    /// The value that names the figure.
    pub fn to_json(&self) -> (r: Json)
        ensures
            r@ == geometry_test_type_json(*self),
    {
        match self {
            GeometryTestType::Line => Json::text("Line"),
            GeometryTestType::Circle => Json::text("Circle"),
            GeometryTestType::Arc(begin, end) => {
                let mut angles: Vec<Json> = Vec::new();
                angles.push(Json::number(*begin));
                angles.push(Json::number(*end));
                let pair = Json::array(angles);
                assert(pair@->Array_0 =~= seq![
                    JsonView::Number(decimal_text(begin@)),
                    JsonView::Number(decimal_text(end@)),
                ]);
                let r = Json::object(one_member("Arc", pair));
                assert(r@->Object_0 =~= geometry_test_type_json(*self)->Object_0);
                r
            },
        }
    }
}

impl Component for GeometryTester {
    type Public = GeometryTestType;

    type Internal = ();

    fn max_children(&self) -> (r: Option<u32>)
        ensures
            r == Some(0u32),
    {
        Some(0)
    }

    fn get_name(&self) -> (r: &'static str)
        ensures
            r@ == "GeometryTester"@,
    {
        "GeometryTester"
    }

    fn get_default_data(&self) -> (r: Option<GeometryTestType>)
        ensures
            r == Some(GeometryTestType::Line),
    {
        Some(GeometryTestType::Line)
    }

    open spec fn after_event(
        &self,
        drawn_location: DrawZone,
        event: Event,
        internal_data: (),
        public_data: GeometryTestType,
    ) -> ((), GeometryTestType) {
        (internal_data, public_data)
    }

    /// Takes no notice of the event.
    fn handle_event(
        &self,
        drawn_location: &DrawZone,
        event: &Event,
        internal_data: &mut (),
        public_data: &mut GeometryTestType,
    ) {
    }
}

// =========================== FIGURES AS TEXT ===========================

/// `count` zeros.
pub open spec fn zeros(count: nat) -> Seq<char> {
    Seq::new(count, |i: int| '0')
}

/// The number of digits after the point of `s` that are kept where `decimals` are asked for.
pub open spec fn digits_kept(s: Seq<char>, decimals: nat) -> nat {
    if first_point(s) >= s.len() {
        0
    } else if s.len() - first_point(s) - 1 < decimals {
        (s.len() - first_point(s) - 1) as nat
    } else {
        decimals
    }
}

/// A number written as text, cut or filled to `decimals` digits after the point.
///
/// With no decimals asked for, the text ends before its point. Otherwise what follows the
/// point is cut after `decimals` characters, and zeros are added until there are as many. A
/// point is added where the text has none, and also where nothing follows its point.
pub open spec fn formatted(s: Seq<char>, decimals: nat) -> Seq<char> {
    if decimals == 0 {
        s.take(first_point(s))
    } else if first_point(s) >= s.len() {
        s + seq!['.'] + zeros(decimals)
    } else {
        let kept = digits_kept(s, decimals);
        s.take(first_point(s) + 1 + kept) + (if kept == 0 {
            seq!['.']
        } else {
            Seq::empty()
        }) + zeros((decimals - kept) as nat)
    }
}

/// Cuts or fills the digits after the point of a number written as text.
pub fn format_decimal(text: &str, decimals: u32) -> (r: String)
    ensures
        r@ == formatted(text@, decimals as nat),
{
    let s = chars_of(text);
    let mut ret: Vec<char> = Vec::new();
    let mut countdown = false;
    let mut counter: u32 = decimals;
    let mut i: usize = 0;
    proof {
        lemma_first_point_exists(s@, 0);
    }
    while i < s.len()
        invariant_except_break
            ret@ == s@.take(i as int),
        invariant
            i <= s.len(),
            s@ == text@,
            is_first_point(s@, first_point(s@)),
            counter <= decimals,
            !countdown ==> counter == decimals && i <= first_point(s@),
            countdown ==> decimals > 0 && first_point(s@) < i && decimals - counter == i - first_point(s@) - 1,
        ensures
            i <= s.len(),
            counter <= decimals,
            decimals == 0 ==> ret@ == s@.take(first_point(s@)),
            decimals > 0 && first_point(s@) >= s@.len() ==> ret@ == s@ && counter == decimals,
            decimals > 0 && first_point(s@) < s@.len() ==> ret@ == s@.take(
                first_point(s@) + 1 + digits_kept(s@, decimals as nat),
            ) && decimals - counter == digits_kept(s@, decimals as nat),
        decreases s.len() - i,
    {
        let c = s[i];
        if countdown {
            if counter == 0 {
                break ;
            }
            counter = counter - 1;
        } else if c == '.' {
            proof {
                lemma_first_point(s@, i as int);
            }
            if decimals == 0 {
                break ;
            }
            countdown = true;
        }
        ret.push(c);
        assert(s@.take(i + 1) =~= s@.take(i as int).push(s@[i as int]));
        i = i + 1;
    }
    proof {
        if i == s.len() {
            assert(s@.take(s@.len() as int) =~= s@);
            if !countdown {
                lemma_first_point(s@, s@.len() as int);
            }
        }
    }
    if counter == decimals && decimals != 0 {
        ret.push('.');
    }
    let ghost headed = ret@;
    let mut k: u32 = 0;
    while k < counter
        invariant
            k <= counter,
            ret@ == headed + zeros(k as nat),
        decreases counter - k,
    {
        ret.push('0');
        k = k + 1;
        assert(ret@ =~= headed + zeros(k as nat));
    }
    assert(ret@ =~= formatted(text@, decimals as nat));
    text_of(&ret)
}

/// A number as text with `decimals` digits after the point; without a point where none are
/// asked for.
pub fn format_float(v: Scalar, decimals: u32) -> (r: String)
    ensures
        r@ == formatted(decimal_text(v@), decimals as nat),
{
    let s = v.to_text();
    format_decimal(s.as_str(), decimals)
}

// =========================== WHAT IS DRAWN ===========================

/// A part of a ring. The ends are given as shares of the way round the dial, from 0 at its
/// start to 1 at its end.
#[derive(Clone, Copy, Debug, PartialEq, Eq, Structural)]
pub struct DialArc {
    pub from: Scalar,
    pub to: Scalar,
    pub radius: Scalar,
    pub stroke_width: Scalar,
    pub stroke_color: Color,
    pub fill_color: Color,
}

/// A line of text, centred in a box that starts at `position`.
#[derive(Debug, PartialEq, Eq)]
pub struct Label {
    pub position: Vec2,
    pub text: String,
    pub color: Color,
    pub size: Scalar,
    pub line_height: Scalar,
    pub line_max_width: Scalar,
}

/// The model of a label.
pub struct LabelView {
    pub position: Vec2,
    pub text: Seq<char>,
    pub color: Color,
    pub size: Scalar,
    pub line_height: Scalar,
    pub line_max_width: Scalar,
}

impl View for Label {
    type V = LabelView;

    open spec fn view(&self) -> LabelView {
        LabelView {
            position: self.position,
            text: self.text@,
            color: self.color,
            size: self.size,
            line_height: self.line_height,
            line_max_width: self.line_max_width,
        }
    }
}

/// What a dial draws.
#[derive(Debug, PartialEq, Eq)]
pub struct Dial {
    /// The zone that the dial takes.
    pub zone: DrawZone,
    /// The centre of the rings.
    pub centre: Vec2,
    /// The rings, in the order in which they are drawn.
    pub arcs: Vec<DialArc>,
    /// The caption, unless it is blinked away.
    pub caption: Option<Label>,
    /// The value in figures.
    pub value: Label,
}

/// The model of what a dial draws.
pub struct DialView {
    pub zone: DrawZone,
    pub centre: Vec2,
    pub arcs: Seq<DialArc>,
    pub caption: Option<LabelView>,
    pub value: LabelView,
}

impl View for Dial {
    type V = DialView;

    open spec fn view(&self) -> DialView {
        DialView {
            zone: self.zone,
            centre: self.centre,
            arcs: self.arcs@,
            caption: match self.caption {
                Some(l) => Some(l@),
                None => None,
            },
            value: self.value@,
        }
    }
}

/// The share of the way round the dial at which a value stands: a thousandth below the
/// least value, one above the end of the last range, and in proportion between them.
pub open spec fn normalized(data: RotationalIndicatorView, value: Scalar) -> Scalar {
    let value_max = data.value_ranges.last().0;
    if value@ < data.value_min@ {
        Scalar::of(1_000)
    } else if value@ > value_max@ {
        Scalar::of(UNIT as int)
    } else {
        value.minus(data.value_min).over(value_max.minus(data.value_min))
    }
}

/// Where range `k` starts.
pub open spec fn range_start(data: RotationalIndicatorView, k: int) -> Scalar {
    if k <= 0 {
        normalized(data, data.value_min)
    } else {
        normalized(data, data.value_ranges[k - 1].0)
    }
}

/// Where a value stands on the dial, without rounding: its share of the way round, counted
/// in thousandths of the span from the least value to the end of the last range. A value
/// below the least stands at a thousandth of the way, a value above the last end at the end.
/// Where the span is not above zero, the count is in thousandths of the way, and a value
/// that is neither below the least nor above the last end stands nowhere.
pub open spec fn dial_place(data: RotationalIndicatorView, value: Scalar) -> Option<int> {
    let span = data.value_ranges.last().0@ - data.value_min@;
    if value@ < data.value_min@ {
        Some(
            if span > 0 {
                span
            } else {
                1
            },
        )
    } else if value@ > data.value_ranges.last().0@ {
        Some(
            if span > 0 {
                1000 * span
            } else {
                1000
            },
        )
    } else if span > 0 {
        Some(1000 * (value@ - data.value_min@))
    } else {
        None
    }
}

/// Where range `k` starts on the dial, without rounding: at the least value, or at the end
/// of the range before it.
pub open spec fn place_start(data: RotationalIndicatorView, k: int) -> Option<int> {
    if k <= 0 {
        dial_place(data, data.value_min)
    } else {
        dial_place(data, data.value_ranges[k - 1].0)
    }
}

/// Whether range `k` holds the value: the value stands at or after the start of the range
/// and before its end.
pub open spec fn range_holds(data: RotationalIndicatorView, k: int) -> bool {
    match (dial_place(data, data.value), place_start(data, k), dial_place(data, data.value_ranges[k].0)) {
        (Some(at), Some(from), Some(to)) => from <= at < to,
        _ => false,
    }
}

/// The status of the last of the first `upto` ranges that holds the value; an error where
/// none does.
pub open spec fn status_in(data: RotationalIndicatorView, upto: int) -> Status
    decreases upto,
{
    if upto <= 0 {
        Status::Error
    } else if range_holds(data, upto - 1) {
        data.value_ranges[upto - 1].1
    } else {
        status_in(data, upto - 1)
    }
}

/// Whether the ends of the ranges rise from range to range, the first above the least value.
pub open spec fn ranges_rise(data: RotationalIndicatorView) -> bool {
    &&& data.value_ranges.len() > 0
    &&& data.value_min@ < data.value_ranges[0].0@
    &&& forall|a: int, b: int|
        0 <= a < b < data.value_ranges.len() ==> (#[trigger] data.value_ranges[a]).0@ < (
        #[trigger] data.value_ranges[b]).0@
}

/// Among rising ranges, range `k` holds a value that is not below the least value just when
/// the value is below the end of the range and not below the end of the range before it.
proof fn lemma_range_holds(data: RotationalIndicatorView, k: int)
    requires
        ranges_rise(data),
        data.value_min@ <= data.value@,
        0 <= k < data.value_ranges.len(),
    ensures
        range_holds(data, k) == (data.value@ < data.value_ranges[k].0@ && (k == 0 || data.value_ranges[k
            - 1].0@ <= data.value@)),
{
    let last = data.value_ranges.len() - 1;
    assert(data.value_ranges[0].0@ <= data.value_ranges[last].0@);
    assert(data.value_ranges[k].0@ <= data.value_ranges[last].0@);
    if k > 0 {
        assert(data.value_ranges[0].0@ <= data.value_ranges[k - 1].0@);
        assert(data.value_ranges[k - 1].0@ < data.value_ranges[k].0@);
    }
}

/// The status found among the first `upto` rising ranges is that of the one range that
/// holds the value, once that range is among them.
proof fn lemma_status_upto(data: RotationalIndicatorView, j: int, upto: int)
    requires
        ranges_rise(data),
        data.value_min@ <= data.value@,
        0 <= upto <= data.value_ranges.len(),
        0 <= j <= data.value_ranges.len(),
        j < data.value_ranges.len() ==> data.value@ < data.value_ranges[j].0@,
        j > 0 ==> data.value_ranges[j - 1].0@ <= data.value@,
    ensures
        status_in(data, upto) == if upto > j {
            data.value_ranges[j].1
        } else {
            Status::Error
        },
    decreases upto,
{
    if upto > 0 {
        lemma_status_upto(data, j, upto - 1);
        lemma_range_holds(data, upto - 1);
        let k = upto - 1;
        if k < j {
            assert(data.value_ranges[k].0@ <= data.value_ranges[j - 1].0@);
        }
        if k > j {
            assert(data.value_ranges[j].0@ <= data.value_ranges[k - 1].0@);
        }
    }
}

/// Where the ends of the ranges rise and the value is not below the least value, the value
/// has the status of the first range whose end is above it, and is in error where it is not
/// below the end of the last range.
pub proof fn law_dial_status(data: RotationalIndicatorView, j: int)
    requires
        ranges_rise(data),
        data.value_min@ <= data.value@,
        0 <= j <= data.value_ranges.len(),
        j < data.value_ranges.len() ==> data.value@ < data.value_ranges[j].0@,
        j > 0 ==> data.value_ranges[j - 1].0@ <= data.value@,
    ensures
        status_in(data, data.value_ranges.len() as int) == if j < data.value_ranges.len() {
            data.value_ranges[j].1
        } else {
            Status::Error
        },
{
    lemma_status_upto(data, j, data.value_ranges.len() as int);
}

/// The radius from which the parts of a dial in `zone` are sized.
pub open spec fn dial_radius(zone: DrawZone) -> Scalar {
    zone.size.x.over(Scalar::of(2_400_000))
}

/// How far the centre of the rings lies from the centre of the zone.
pub open spec fn dial_offset(zone: DrawZone) -> Scalar {
    dial_radius(zone).over(Scalar::of(-5_500_000))
}

/// No colour at all.
pub open spec fn transparent() -> Color {
    Color { r: 0, g: 0, b: 0, a: 0 }
}

/// The ring of range `k` of a dial in `zone`.
pub open spec fn range_arc<P: Palette>(data: RotationalIndicatorView, palette: P, zone: DrawZone, k: int) -> DialArc {
    DialArc {
        from: range_start(data, k),
        to: normalized(data, data.value_ranges[k].0),
        radius: dial_radius(zone).times(Scalar::of(1_130_000)),
        stroke_width: dial_radius(zone).over(Scalar::of(10_000_000)),
        stroke_color: palette.color_of(data.value_ranges[k].1),
        fill_color: transparent(),
    }
}

/// The rings of a dial in `zone`: one for each range, the ground, and the needle's trail
/// where the value stands above the start.
pub open spec fn dial_arcs<P: Palette>(data: RotationalIndicatorView, palette: P, zone: DrawZone) -> Seq<DialArc> {
    Seq::new(data.value_ranges.len(), |k: int| range_arc(data, palette, zone, k)) + seq![
        DialArc {
            from: Scalar::of(0),
            to: Scalar::of(UNIT as int),
            radius: dial_radius(zone).times(Scalar::of(1_090_000)),
            stroke_width: Scalar::of(0),
            stroke_color: Color { r: 160, g: 160, b: 160, a: 255 },
            fill_color: palette.bg_color_of(Status::Normal),
        },
    ] + (if normalized(data, data.value)@ > 0 {
        seq![
            DialArc {
                from: Scalar::of(0),
                to: normalized(data, data.value),
                radius: dial_radius(zone),
                stroke_width: dial_radius(zone).over(Scalar::of(10_000_000)).times(Scalar::of(1_750_000)),
                stroke_color: Color { r: 255, g: 255, b: 255, a: 255 },
                fill_color: transparent(),
            },
        ]
    } else {
        Seq::empty()
    })
}

/// Whether the caption shows at `time`: always, unless the value is in error; then it
/// blinks, and shows in the first two thirds of each half second.
pub open spec fn caption_shows(status: Status, time: Scalar) -> bool {
    status != Status::Error || time@ < 0 || (2 * time@) % (UNIT as int) < 660_000
}

/// What a dial draws in the zone `given` at `time`: what it draws in the largest zone of its
/// aspect.
pub open spec fn dial_of<P: Palette>(data: RotationalIndicatorView, palette: P, given: DrawZone, time: Scalar) -> DialView {
    dial_in(data, palette, constrained(given, Scalar::of(1_150_000)), time)
}

/// What a dial that takes `zone` draws at `time`.
pub open spec fn dial_in<P: Palette>(data: RotationalIndicatorView, palette: P, zone: DrawZone, time: Scalar) -> DialView {
    let radius = dial_radius(zone);
    let offset = dial_offset(zone);
    let status = status_in(data, data.value_ranges.len() as int);
    DialView {
        zone,
        centre: Vec2 { x: zone.m.x, y: zone.m.y.minus(offset) },
        arcs: dial_arcs(data, palette, zone),
        caption: if caption_shows(status, time) {
            Some(
                LabelView {
                    position: Vec2 {
                        x: zone.left(),
                        y: zone.m.y.plus(radius.over(Scalar::of(1_500_000))).minus(offset),
                    },
                    text: data.caption,
                    color: Color { r: 180, g: 180, b: 180, a: 255 },
                    size: radius.over(Scalar::of(2_000_000)),
                    line_height: radius.over(Scalar::of(3_000_000)),
                    line_max_width: zone.size.x,
                },
            )
        } else {
            None
        },
        value: LabelView {
            position: Vec2 { x: zone.left(), y: zone.m.y.minus(radius.over(Scalar::of(10_000_000))).minus(offset) },
            text: formatted(decimal_text(data.value@), data.precision as nat) + data.unit,
            color: palette.font_color_of(status),
            size: radius.over(Scalar::of(1_550_000)),
            line_height: radius.over(Scalar::of(2_500_000)),
            line_max_width: zone.size.x,
        },
    }
}

/// Where the ends of the ranges rise and the value is not below the least value, a dial
/// shows its value in the font colour of the status of the first range whose end is above
/// the value. Where the value is not below the end of the last range, it shows the value in
/// the font colour of an error, and its caption blinks.
pub proof fn law_dial_value_colour<P: Palette>(
    data: RotationalIndicatorView,
    palette: P,
    given: DrawZone,
    time: Scalar,
    j: int,
)
    requires
        ranges_rise(data),
        data.value_min@ <= data.value@,
        0 <= j <= data.value_ranges.len(),
        j < data.value_ranges.len() ==> data.value@ < data.value_ranges[j].0@,
        j > 0 ==> data.value_ranges[j - 1].0@ <= data.value@,
    ensures
        j < data.value_ranges.len() ==> dial_of(data, palette, given, time).value.color == palette.font_color_of(
            data.value_ranges[j].1,
        ),
        j == data.value_ranges.len() ==> dial_of(data, palette, given, time).value.color == palette.font_color_of(
            Status::Error,
        ),
        j == data.value_ranges.len() ==> (dial_of(data, palette, given, time).caption is Some <==> caption_shows(
            Status::Error,
            time,
        )),
{
    law_dial_status(data, j);
}

impl RotationalIndicator {
    /// The share of the way round the dial at which a value stands.
    fn normalize(data: &RotationalIndicatorData, value: Scalar) -> (r: Scalar)
        requires
            data@.value_ranges.len() > 0,
        ensures
            r == normalized(data@, value),
    {
        let value_max = data.value_ranges[data.value_ranges.len() - 1].0;
        if value.lt(data.value_min) {
            Scalar::new(1_000)
        } else if value_max.lt(value) {
            Scalar::one()
        } else {
            value.minus(data.value_min).over(value_max.minus(data.value_min))
        }
    }

    /// Whether the caption of a dial shows at `time`.
    pub fn caption_visible(status: Status, time: Scalar) -> (r: bool)
        ensures
            r == caption_shows(status, time),
    {
        match status {
            Status::Error => {
                if time.micros >= 0 {
                    let twice: u128 = 2 * (time.micros as u128);
                    twice % 1_000_000 < 660_000
                } else {
                    true
                }
            },
            _ => true,
        }
    }

    /// Where a value stands on the dial, without rounding.
    fn place(data: &RotationalIndicatorData, value: Scalar) -> (r: Option<i128>)
        requires
            data@.value_ranges.len() > 0,
        ensures
            match r {
                Some(at) => dial_place(data@, value) == Some(at as int),
                None => dial_place(data@, value) is None,
            },
    {
        let value_max = data.value_ranges[data.value_ranges.len() - 1].0;
        let span: i128 = value_max.micros as i128 - data.value_min.micros as i128;
        if value.lt(data.value_min) {
            Some(
                if span > 0 {
                    span
                } else {
                    1
                },
            )
        } else if value_max.lt(value) {
            Some(
                if span > 0 {
                    1000 * span
                } else {
                    1000
                },
            )
        } else if span > 0 {
            Some(1000 * (value.micros as i128 - data.value_min.micros as i128))
        } else {
            None
        }
    }

    /// Whether a value that stands at `at` lies in the range from `from` to `to`.
    fn between(at: Option<i128>, from: Option<i128>, to: Option<i128>) -> (r: bool)
        ensures
            r == match (at, from, to) {
                (Some(a), Some(f), Some(t)) => f <= a < t,
                _ => false,
            },
    {
        match (at, from, to) {
            (Some(a), Some(f), Some(t)) => f <= a && a < t,
            _ => false,
        }
    }

    /// What the dial draws in the zone it is given: its rings, its caption and its value in
    /// figures, in the largest zone of its aspect. The data must name at least one range.
    pub fn draw<P: Palette>(&self, palette: &P, given: DrawZone, time: Scalar, data: &RotationalIndicatorData) -> (r: Dial)
        requires
            data@.value_ranges.len() > 0,
        ensures
            r@ == dial_of(data@, *palette, given, time),
    {
        self.dial(palette, given.constraint_to_aspect(Scalar::new(1_150_000)), time, data)
    }

    /// What the dial draws where it takes `zone`: a ring for each range, the ground, the
    /// trail of the needle, the caption and the value in figures. The value is shown in the
    /// colour of the last range that holds it. The data must name at least one range.
    pub fn dial<P: Palette>(&self, palette: &P, zone: DrawZone, time: Scalar, data: &RotationalIndicatorData) -> (r: Dial)
        requires
            data@.value_ranges.len() > 0,
        ensures
            r@ == dial_in(data@, *palette, zone, time),
    {
        let base_radius = zone.size.x.over(Scalar::new(2_400_000));
        let base_thickness = base_radius.over(Scalar::from_int(10));
        let ymo = base_radius.over(Scalar::new(-5_500_000));
        let mut last_range_end = RotationalIndicator::normalize(data, data.value_min);
        let mut last_place = RotationalIndicator::place(data, data.value_min);
        let mut value_status = Status::Error;
        let nvalue = RotationalIndicator::normalize(data, data.value);
        let value_place = RotationalIndicator::place(data, data.value);
        let mut arcs: Vec<DialArc> = Vec::new();
        let mut k: usize = 0;
        while k < data.value_ranges.len()
            invariant
                k <= data.value_ranges.len(),
                data@.value_ranges.len() > 0,
                nvalue == normalized(data@, data.value),
                base_radius == dial_radius(zone),
                base_thickness == dial_radius(zone).over(Scalar::of(10_000_000)),
                last_range_end == range_start(data@, k as int),
                match value_place {
                    Some(at) => dial_place(data@, data.value) == Some(at as int),
                    None => dial_place(data@, data.value) is None,
                },
                match last_place {
                    Some(at) => place_start(data@, k as int) == Some(at as int),
                    None => place_start(data@, k as int) is None,
                },
                value_status == status_in(data@, k as int),
                arcs@.len() == k,
                forall|j: int| 0 <= j < k ==> arcs@[j] == range_arc(data@, *palette, zone, j),
            decreases data.value_ranges.len() - k,
        {
            let range_end = data.value_ranges[k];
            let current_range_end = RotationalIndicator::normalize(data, range_end.0);
            arcs.push(
                DialArc {
                    from: last_range_end,
                    to: current_range_end,
                    radius: base_radius.times(Scalar::new(1_130_000)),
                    stroke_width: base_thickness,
                    stroke_color: palette.status_to_color(range_end.1),
                    fill_color: Color::from_rgba(0, 0, 0, 0),
                },
            );
            let current_place = RotationalIndicator::place(data, range_end.0);
            if RotationalIndicator::between(value_place, last_place, current_place) {
                value_status = range_end.1;
            }
            last_range_end = current_range_end;
            last_place = current_place;
            k = k + 1;
        }
        arcs.push(
            DialArc {
                from: Scalar::zero(),
                to: Scalar::one(),
                radius: base_radius.times(Scalar::new(1_090_000)),
                stroke_width: Scalar::zero(),
                stroke_color: Color::from_rgba(160, 160, 160, 255),
                fill_color: palette.status_to_color_bg(Status::Normal),
            },
        );
        if nvalue.micros > 0 {
            arcs.push(
                DialArc {
                    from: Scalar::zero(),
                    to: nvalue,
                    radius: base_radius,
                    stroke_width: base_thickness.times(Scalar::new(1_750_000)),
                    stroke_color: Color::from_rgba(255, 255, 255, 255),
                    fill_color: Color::from_rgba(0, 0, 0, 0),
                },
            );
        }
        assert(arcs@ =~= dial_arcs(data@, *palette, zone));
        let caption = if RotationalIndicator::caption_visible(value_status, time) {
            Some(
                Label {
                    position: Vec2 { x: zone.left(), y: zone.m.y.plus(base_radius.over(Scalar::new(1_500_000))).minus(ymo) },
                    text: data.caption.clone(),
                    color: Color::from_rgba(180, 180, 180, 255),
                    size: base_radius.over(Scalar::from_int(2)),
                    line_height: base_radius.over(Scalar::from_int(3)),
                    line_max_width: zone.size.x,
                },
            )
        } else {
            None
        };
        let mut figures = format_float(data.value, data.precision);
        figures.append(data.unit.as_str());
        let value = Label {
            position: Vec2 { x: zone.left(), y: zone.m.y.minus(base_radius.over(Scalar::from_int(10))).minus(ymo) },
            text: figures,
            color: palette.status_to_color_font(value_status),
            size: base_radius.over(Scalar::new(1_550_000)),
            line_height: base_radius.over(Scalar::new(2_500_000)),
            line_max_width: zone.size.x,
        };
        Dial { zone, centre: Vec2 { x: zone.m.x, y: zone.m.y.minus(ymo) }, arcs, caption, value }
    }
}

/// The box round a text, as a drawing surface measures it.
#[derive(Clone, Copy, Debug, PartialEq, Eq, Structural)]
pub struct TextBounds {
    pub min_x: Scalar,
    pub min_y: Scalar,
    pub max_x: Scalar,
    pub max_y: Scalar,
}

/// What a text field draws.
#[derive(Debug, PartialEq, Eq)]
pub struct TextBox {
    /// The zone that the field takes, filled with the ground colour.
    pub zone: DrawZone,
    pub back_color: Color,
    /// The text, as high as the zone.
    pub label: Label,
}

/// The model of what a text field draws.
pub struct TextBoxView {
    pub zone: DrawZone,
    pub back_color: Color,
    pub label: LabelView,
}

impl View for TextBox {
    type V = TextBoxView;

    open spec fn view(&self) -> TextBoxView {
        TextBoxView { zone: self.zone, back_color: self.back_color, label: self.label@ }
    }
}

/// What a text field draws in the zone `given`, where its text has the aspect `aspect`:
/// what it draws in the largest zone of that aspect.
pub open spec fn text_box_of(data: TextFieldView, aspect: Scalar, given: DrawZone) -> TextBoxView {
    text_box_in(data, constrained(given, aspect))
}

/// What a text field that takes `zone` draws.
pub open spec fn text_box_in(data: TextFieldView, zone: DrawZone) -> TextBoxView {
    TextBoxView {
        zone,
        back_color: data.back_color.color,
        label: LabelView {
            position: Vec2 { x: zone.left(), y: zone.m.y },
            text: data.text,
            color: data.front_color.color,
            size: zone.size.y.times(Scalar::of(UNIT as int)),
            line_height: zone.size.y.times(Scalar::of(UNIT as int)),
            line_max_width: zone.size.x.times(Scalar::of(UNIT as int)),
        },
    }
}

impl TextField {
    /// The aspect of a text: the width of the box round it over the height.
    pub fn init_instance(&self, bounds: &TextBounds) -> (r: Scalar)
        ensures
            r == bounds.max_x.minus(bounds.min_x).over(bounds.max_y.minus(bounds.min_y)),
    {
        let w = bounds.max_x.minus(bounds.min_x);
        let h = bounds.max_y.minus(bounds.min_y);
        w.over(h)
    }

    /// What the text field draws in the zone it is given: the largest zone of the aspect of
    /// its text, filled, and the text in it.
    pub fn draw(&self, given: DrawZone, aspect: Scalar, data: &TextFieldData) -> (r: TextBox)
        ensures
            r@ == text_box_of(data@, aspect, given),
    {
        self.text_box(given.constraint_to_aspect(aspect), data)
    }

    /// What the text field draws where it takes `zone`: the zone filled, and the text in it.
    pub fn text_box(&self, zone: DrawZone, data: &TextFieldData) -> (r: TextBox)
        ensures
            r@ == text_box_in(data@, zone),
    {
        TextBox {
            zone,
            back_color: data.back_color.color,
            label: Label {
                position: Vec2 { x: zone.left(), y: zone.m.y },
                text: data.text.clone(),
                color: data.front_color.color,
                size: zone.size.y.times(Scalar::one()),
                line_height: zone.size.y.times(Scalar::one()),
                line_max_width: zone.size.x.times(Scalar::one()),
            },
        }
    }
}

/// What a geometry tester draws.
#[derive(Clone, Copy, Debug, PartialEq, Eq, Structural)]
pub enum TestFigure {
    /// A line through four points.
    Line(Vec2, Vec2, Vec2, Vec2),
    /// A circle with a centre and a radius.
    Circle(Vec2, Scalar),
    /// An arc with a centre, a radius and two angles.
    Arc(Vec2, Scalar, Scalar, Scalar),
}

/// What a geometry tester draws in `zone`.
pub open spec fn test_figure_of(data: GeometryTestType, zone: DrawZone) -> TestFigure {
    match data {
        GeometryTestType::Line => TestFigure::Line(
            zone.m,
            Vec2 {
                x: zone.m.x.plus(zone.size.x.over(Scalar::of(4_000_000))),
                y: zone.m.y.minus(zone.size.y.over(Scalar::of(6_000_000))),
            },
            Vec2 {
                x: zone.m.x.minus(zone.size.x.over(Scalar::of(4_000_000))),
                y: zone.m.y.minus(zone.size.y.over(Scalar::of(3_000_000))),
            },
            Vec2 { x: zone.m.x, y: zone.m.y.plus(zone.size.y.over(Scalar::of(3_000_000))) },
        ),
        GeometryTestType::Circle => TestFigure::Circle(
            Vec2 {
                x: zone.m.x.minus(zone.size.x.over(Scalar::of(4_000_000))),
                y: zone.m.y.minus(zone.size.y.over(Scalar::of(3_000_000))),
            },
            zone.size.x.over(Scalar::of(5_000_000)),
        ),
        GeometryTestType::Arc(begin, end) => TestFigure::Arc(
            zone.m,
            zone.size.x.over(Scalar::of(3_000_000)),
            begin,
            end,
        ),
    }
}

impl GeometryTester {
    /// What the tester draws in the zone it is given.
    pub fn draw(&self, zone: DrawZone, public_data: &GeometryTestType) -> (r: TestFigure)
        ensures
            r == test_figure_of(*public_data, zone),
    {
        match public_data {
            GeometryTestType::Line => TestFigure::Line(
                zone.m,
                Vec2 {
                    x: zone.m.x.plus(zone.size.x.over(Scalar::from_int(4))),
                    y: zone.m.y.minus(zone.size.y.over(Scalar::from_int(6))),
                },
                Vec2 {
                    x: zone.m.x.minus(zone.size.x.over(Scalar::from_int(4))),
                    y: zone.m.y.minus(zone.size.y.over(Scalar::from_int(3))),
                },
                Vec2 { x: zone.m.x, y: zone.m.y.plus(zone.size.y.over(Scalar::from_int(3))) },
            ),
            GeometryTestType::Circle => TestFigure::Circle(
                Vec2 {
                    x: zone.m.x.minus(zone.size.x.over(Scalar::from_int(4))),
                    y: zone.m.y.minus(zone.size.y.over(Scalar::from_int(3))),
                },
                zone.size.x.over(Scalar::from_int(5)),
            ),
            GeometryTestType::Arc(begin, end) => TestFigure::Arc(
                zone.m,
                zone.size.x.over(Scalar::from_int(3)),
                *begin,
                *end,
            ),
        }
    }
}

// =========================== WRITTEN AND READ BACK ===========================

/// The name of a status names that status.
pub proof fn law_status_reads_back(status: Status)
    ensures
        status_named(Some(status_name(status))) == Some(status),
{
    reveal_strlit("Ok");
    assert("Ok"@.len() == 2);
    reveal_strlit("Warning");
    assert("Warning"@.len() == 7);
    reveal_strlit("Error");
    assert("Error"@.len() == 5);
}

/// A range written as a value is read back as it was.
pub proof fn law_range_reads_back(range: (Scalar, Status))
    ensures
        range_in(range_json(range)) == Some(range),
{
    law_number_reads_back(range.0);
    law_status_reads_back(range.1);
}

/// What a dial is told, written as a value, is read back as it was.
pub proof fn law_rotational_indicator_reads_back(data: RotationalIndicatorView)
    ensures
        rotational_indicator_from(rotational_indicator_json(data)) == Some(data),
{
    reveal_strlit("precision");
    assert("precision"@.len() == 9);
    reveal_strlit("unit");
    assert("unit"@.len() == 4);
    reveal_strlit("caption");
    assert("caption"@.len() == 7);
    reveal_strlit("value");
    assert("value"@.len() == 5);
    reveal_strlit("value_min");
    assert("value_min"@.len() == 9);
    reveal_strlit("value_ranges");
    assert("value_ranges"@.len() == 12);
    assert("precision"@[0] != "value_min"@[0]);
    let members = rotational_indicator_json(data)->Object_0;
    lemma_member_at(members, "precision"@, 0);
    lemma_member_at(members, "unit"@, 1);
    lemma_member_at(members, "caption"@, 2);
    lemma_member_at(members, "value"@, 3);
    lemma_member_at(members, "value_min"@, 4);
    lemma_member_at(members, "value_ranges"@, 5);
    law_natural_reads_back(data.precision as nat, u32::MAX as nat);
    law_number_reads_back(data.value);
    law_number_reads_back(data.value_min);
    let items = Seq::new(data.value_ranges.len(), |i: int| range_json(data.value_ranges[i]));
    assert forall|i: int| 0 <= i < items.len() implies range_in(#[trigger] items[i]) == Some(
        data.value_ranges[i],
    ) by {
        law_range_reads_back(data.value_ranges[i]);
    }
    assert(ranges_in(Some(JsonView::Array(items))) matches Some(read) && read =~= data.value_ranges);
}

/// What a text field is told, written as a value, is read back as it was.
pub proof fn law_text_field_reads_back(data: TextFieldView)
    ensures
        text_field_from(text_field_json(data)) == Some(data),
{
    reveal_strlit("text");
    assert("text"@.len() == 4);
    reveal_strlit("front_color");
    assert("front_color"@.len() == 11);
    reveal_strlit("back_color");
    assert("back_color"@.len() == 10);
    let members = text_field_json(data)->Object_0;
    lemma_member_at(members, "text"@, 0);
    lemma_member_at(members, "front_color"@, 1);
    lemma_member_at(members, "back_color"@, 2);
    crate::frontend::law_color_text_reads_back(data.front_color.color);
    crate::frontend::law_color_text_reads_back(data.back_color.color);
}

/// What a horizon is told, written as a value, is read back as it was.
pub proof fn law_spatial_situation_indicator_reads_back(data: SpatialSituationIndicatorData)
    ensures
        spatial_situation_indicator_from(spatial_situation_indicator_json(data)) == Some(data),
{
    reveal_strlit("projection_zoom");
    assert("projection_zoom"@.len() == 15);
    reveal_strlit("yaw");
    assert("yaw"@.len() == 3);
    reveal_strlit("pitch");
    assert("pitch"@.len() == 5);
    reveal_strlit("roll");
    assert("roll"@.len() == 4);
    let members = spatial_situation_indicator_json(data)->Object_0;
    lemma_member_at(members, "projection_zoom"@, 0);
    lemma_member_at(members, "yaw"@, 1);
    lemma_member_at(members, "pitch"@, 2);
    lemma_member_at(members, "roll"@, 3);
    law_number_reads_back(data.projection_zoom);
    law_number_reads_back(data.yaw);
    law_number_reads_back(data.pitch);
    law_number_reads_back(data.roll);
}

/// A figure written as a value is read back as it was.
pub proof fn law_geometry_test_type_reads_back(data: GeometryTestType)
    ensures
        geometry_test_type_from(geometry_test_type_json(data)) == Some(data),
{
    reveal_strlit("Line");
    assert("Line"@.len() == 4);
    reveal_strlit("Circle");
    assert("Circle"@.len() == 6);
    reveal_strlit("Arc");
    assert("Arc"@.len() == 3);
    match data {
        GeometryTestType::Arc(begin, end) => {
            law_number_reads_back(begin);
            law_number_reads_back(end);
        },
        _ => {},
    }
}

/// Registers the components that show something: dial, text field, horizon and test figure.
pub fn components(manager: &mut Manager)
    ensures
        final(manager)@ == old(manager)@.insert(ComponentType::RotationalIndicator).insert(
            ComponentType::TextField,
        ).insert(ComponentType::SpatialSituationIndicator).insert(ComponentType::GeometryTester),
{
    manager.register_component_type(ComponentType::RotationalIndicator);
    manager.register_component_type(ComponentType::TextField);
    manager.register_component_type(ComponentType::SpatialSituationIndicator);
    manager.register_component_type(ComponentType::GeometryTester);
}

} // verus!
