//! What every component has: a name, a limit to its children, what it is told and what it
//! remembers.

use crate::basic_components::{
    geometry_test_type_from, geometry_test_type_json, rotational_indicator_from, rotational_indicator_json,
    spatial_situation_indicator_from, spatial_situation_indicator_json, text_field_from, text_field_json,
    GeometryTestType, GeometryTester, RotationalIndicator, RotationalIndicatorData, RotationalIndicatorView,
    SpatialSituationIndicator, SpatialSituationIndicatorData, TextField, TextFieldData, TextFieldView,
};
use crate::frontend::{Color, SerializableColor, Status};
use crate::geometry_components::{
    grid_from, grid_json, grouping_box_from, grouping_box_json, spacer_from, spacer_json, split_from, split_json,
    Grid, GridData, GridDimensions, GridInternalData, GridLayoutStrategy, GridMemory, GroupingBox, GroupingBoxData,
    GroupingBoxTitleSize, GroupingBoxView, Spacer, SpacerInstance, Split, SplitDirection, SplitInstance,
    SplitInternalData, SplitMemory, SplitMode,
};
use crate::json::{members_view, set_member, with_member, Json, JsonView};
use crate::scene::Event;
use crate::zone::DrawZone;
use crate::scalar::{Scalar, UNIT};
use crate::text::same_text;
use vstd::prelude::*;

verus! {

/// What every kind of component has to say of itself.
pub trait Component {
    /// What a component of the kind is told.
    type Public;

    /// What a component of the kind remembers.
    type Internal;

    /// The largest number of children that a component of the kind may have; nothing where
    /// there is no limit.
    fn max_children(&self) -> Option<u32>;

    /// The name under which the kind stands in a screen description.
    fn get_name(&self) -> &'static str;

    /// What a component of the kind is told where its description tells it nothing; nothing
    /// where such a component must always be told.
    fn get_default_data(&self) -> Option<Self::Public>;

    /// What a component of the kind remembers and is told once an event has reached it,
    /// where it last drew in `drawn_location`.
    spec fn after_event(
        &self,
        drawn_location: DrawZone,
        event: Event,
        internal_data: Self::Internal,
        public_data: Self::Public,
    ) -> (Self::Internal, Self::Public);

    /// Takes an event that reached a component of the kind, which may change what the
    /// component remembers and what it is told.
    fn handle_event(
        &self,
        drawn_location: &DrawZone,
        event: &Event,
        internal_data: &mut Self::Internal,
        public_data: &mut Self::Public,
    )
        ensures
            (*final(internal_data), *final(public_data)) == self.after_event(
                *drawn_location,
                *event,
                *old(internal_data),
                *old(public_data),
            ),
    ;
}

/// The kinds of component.
#[derive(Clone, Copy, Debug, PartialEq, Eq, Structural)]
pub enum ComponentType {
    RotationalIndicator,
    TextField,
    SpatialSituationIndicator,
    GeometryTester,
    Spacer,
    Split,
    GroupingBox,
    Grid,
}

/// What a component is told: the part of it that a screen description sets and that hooks
/// may override.
#[derive(Debug, PartialEq, Eq)]
pub enum PublicData {
    RotationalIndicator(RotationalIndicatorData),
    TextField(TextFieldData),
    SpatialSituationIndicator(SpatialSituationIndicatorData),
    GeometryTester(GeometryTestType),
    Spacer(SpacerInstance),
    Split(SplitInstance),
    GroupingBox(GroupingBoxData),
    Grid(GridData),
}

/// The model of what a component is told.
pub enum PublicView {
    RotationalIndicator(RotationalIndicatorView),
    TextField(TextFieldView),
    SpatialSituationIndicator(SpatialSituationIndicatorData),
    GeometryTester(GeometryTestType),
    Spacer(SpacerInstance),
    Split(SplitInstance),
    GroupingBox(GroupingBoxView),
    Grid(GridData),
}

impl View for PublicData {
    type V = PublicView;

    open spec fn view(&self) -> PublicView {
        match self {
            PublicData::RotationalIndicator(d) => PublicView::RotationalIndicator(d@),
            PublicData::TextField(d) => PublicView::TextField(d@),
            PublicData::SpatialSituationIndicator(d) => PublicView::SpatialSituationIndicator(*d),
            PublicData::GeometryTester(d) => PublicView::GeometryTester(*d),
            PublicData::Spacer(d) => PublicView::Spacer(*d),
            PublicData::Split(d) => PublicView::Split(*d),
            PublicData::GroupingBox(d) => PublicView::GroupingBox(d@),
            PublicData::Grid(d) => PublicView::Grid(*d),
        }
    }
}

/// What a component remembers from one frame to the next. It is made once, when the
/// component is made, and no screen description or hook reaches it.
#[derive(Debug, PartialEq, Eq)]
pub enum InternalData {
    /// Nothing.
    Nothing,
    /// The aspect of a text field's text, once it was measured.
    TextField(Option<Scalar>),
    Split(SplitInternalData),
    /// The aspect that a grouping box's child last took.
    GroupingBox(Option<Scalar>),
    Grid(GridInternalData),
}

/// The model of what a component remembers.
pub enum InternalView {
    Nothing,
    TextField(Option<Scalar>),
    Split(SplitMemory),
    GroupingBox(Option<Scalar>),
    Grid(GridMemory),
}

impl View for InternalData {
    type V = InternalView;

    open spec fn view(&self) -> InternalView {
        match self {
            InternalData::Nothing => InternalView::Nothing,
            InternalData::TextField(a) => InternalView::TextField(*a),
            InternalData::Split(m) => InternalView::Split(m@),
            InternalData::GroupingBox(a) => InternalView::GroupingBox(*a),
            InternalData::Grid(m) => InternalView::Grid(m@),
        }
    }
}

/// The name under which a kind of component stands in a screen description.
pub open spec fn kind_name(kind: ComponentType) -> Seq<char> {
    match kind {
        ComponentType::RotationalIndicator => "RotationalIndicator"@,
        ComponentType::TextField => "TextField"@,
        ComponentType::SpatialSituationIndicator => "SpatialSituationIndicator"@,
        ComponentType::GeometryTester => "GeometryTester"@,
        ComponentType::Spacer => "Spacer"@,
        ComponentType::Split => "Split"@,
        ComponentType::GroupingBox => "GroupingBox"@,
        ComponentType::Grid => "Grid"@,
    }
}

/// The kind of component that a name stands for.
pub open spec fn kind_named(name: Seq<char>) -> Option<ComponentType> {
    if name == "RotationalIndicator"@ {
        Some(ComponentType::RotationalIndicator)
    } else if name == "TextField"@ {
        Some(ComponentType::TextField)
    } else if name == "SpatialSituationIndicator"@ {
        Some(ComponentType::SpatialSituationIndicator)
    } else if name == "GeometryTester"@ {
        Some(ComponentType::GeometryTester)
    } else if name == "Spacer"@ {
        Some(ComponentType::Spacer)
    } else if name == "Split"@ {
        Some(ComponentType::Split)
    } else if name == "GroupingBox"@ {
        Some(ComponentType::GroupingBox)
    } else if name == "Grid"@ {
        Some(ComponentType::Grid)
    } else {
        None
    }
}

/// The largest number of children that a component of a kind may have; no limit for a
/// split or a grid.
pub open spec fn kind_max_children(kind: ComponentType) -> Option<u32> {
    match kind {
        ComponentType::RotationalIndicator => Some(0u32),
        ComponentType::TextField => Some(0u32),
        ComponentType::SpatialSituationIndicator => Some(0u32),
        ComponentType::GeometryTester => Some(0u32),
        ComponentType::Spacer => Some(1u32),
        ComponentType::Split => None,
        ComponentType::GroupingBox => Some(1u32),
        ComponentType::Grid => None,
    }
}

/// What a component of a kind is told where its description tells it nothing.
pub open spec fn kind_default(kind: ComponentType) -> PublicView {
    match kind {
        ComponentType::RotationalIndicator => PublicView::RotationalIndicator(
            RotationalIndicatorView {
                precision: 1,
                unit: ""@,
                caption: ""@,
                value: Scalar::of(50 * UNIT),
                value_min: Scalar::of(0),
                value_ranges: seq![(Scalar::of(100 * UNIT), Status::Normal)],
            },
        ),
        ComponentType::TextField => PublicView::TextField(
            TextFieldView {
                text: "<Placeholder>"@,
                front_color: SerializableColor { color: Color { r: 0x80, g: 0x80, b: 0x80, a: 255 } },
                back_color: SerializableColor { color: Color { r: 0, g: 0, b: 0x60, a: 255 } },
            },
        ),
        ComponentType::SpatialSituationIndicator => PublicView::SpatialSituationIndicator(
            SpatialSituationIndicatorData {
                projection_zoom: Scalar::of(1_500_000),
                yaw: Scalar::of(0),
                pitch: Scalar::of(0),
                roll: Scalar::of(0),
            },
        ),
        ComponentType::GeometryTester => PublicView::GeometryTester(GeometryTestType::Line),
        ComponentType::Spacer => PublicView::Spacer(SpacerInstance { spacing: Scalar::of(UNIT as int) }),
        ComponentType::Split => PublicView::Split(
            SplitInstance {
                spacing: Scalar::of(900_000),
                direction: SplitDirection::Horizontal,
                mode: SplitMode::EqualSide,
            },
        ),
        ComponentType::GroupingBox => PublicView::GroupingBox(
            GroupingBoxView {
                spacing: Scalar::of(900_000),
                title_size: GroupingBoxTitleSize::RelativeToHeight(Scalar::of(200_000)),
                title: "GroupingBox"@,
            },
        ),
        ComponentType::Grid => PublicView::Grid(
            GridData {
                spacing: Scalar::of(900_000),
                dimensions: GridDimensions::Auto,
                layout_strategy: GridLayoutStrategy::MinimizeWastedSpace,
            },
        ),
    }
}

/// What a component of a kind is told by a value.
pub open spec fn public_from(kind: ComponentType, json: JsonView) -> Option<PublicView> {
    match kind {
        ComponentType::RotationalIndicator => match rotational_indicator_from(json) {
            Some(d) => Some(PublicView::RotationalIndicator(d)),
            None => None,
        },
        ComponentType::TextField => match text_field_from(json) {
            Some(d) => Some(PublicView::TextField(d)),
            None => None,
        },
        ComponentType::SpatialSituationIndicator => match spatial_situation_indicator_from(json) {
            Some(d) => Some(PublicView::SpatialSituationIndicator(d)),
            None => None,
        },
        ComponentType::GeometryTester => match geometry_test_type_from(json) {
            Some(d) => Some(PublicView::GeometryTester(d)),
            None => None,
        },
        ComponentType::Spacer => match spacer_from(json) {
            Some(d) => Some(PublicView::Spacer(d)),
            None => None,
        },
        ComponentType::Split => match split_from(json) {
            Some(d) => Some(PublicView::Split(d)),
            None => None,
        },
        ComponentType::GroupingBox => match grouping_box_from(json) {
            Some(d) => Some(PublicView::GroupingBox(d)),
            None => None,
        },
        ComponentType::Grid => match grid_from(json) {
            Some(d) => Some(PublicView::Grid(d)),
            None => None,
        },
    }
}

/// The value that holds what a component is told.
pub open spec fn public_json(data: PublicView) -> JsonView {
    match data {
        PublicView::RotationalIndicator(d) => rotational_indicator_json(d),
        PublicView::TextField(d) => text_field_json(d),
        PublicView::SpatialSituationIndicator(d) => spatial_situation_indicator_json(d),
        PublicView::GeometryTester(d) => geometry_test_type_json(d),
        PublicView::Spacer(d) => spacer_json(d),
        PublicView::Split(d) => split_json(d),
        PublicView::GroupingBox(d) => grouping_box_json(d),
        PublicView::Grid(d) => grid_json(d),
    }
}

/// The kind of component that is told `data`.
pub open spec fn kind_of(data: PublicView) -> ComponentType {
    match data {
        PublicView::RotationalIndicator(_) => ComponentType::RotationalIndicator,
        PublicView::TextField(_) => ComponentType::TextField,
        PublicView::SpatialSituationIndicator(_) => ComponentType::SpatialSituationIndicator,
        PublicView::GeometryTester(_) => ComponentType::GeometryTester,
        PublicView::Spacer(_) => ComponentType::Spacer,
        PublicView::Split(_) => ComponentType::Split,
        PublicView::GroupingBox(_) => ComponentType::GroupingBox,
        PublicView::Grid(_) => ComponentType::Grid,
    }
}

/// What a component remembers when it has just been made.
pub open spec fn fresh_memory(kind: ComponentType) -> InternalView {
    match kind {
        ComponentType::TextField => InternalView::TextField(None),
        ComponentType::Split => InternalView::Split(
            SplitMemory {
                aspects: Seq::empty(),
                primary_width: Scalar::of(0),
                primary_aspect: Scalar::of(UNIT as int),
            },
        ),
        ComponentType::GroupingBox => InternalView::GroupingBox(None),
        ComponentType::Grid => InternalView::Grid(
            GridMemory {
                geometry_data: Seq::empty(),
                dims: (0usize, 0usize),
                rows_sizes: Seq::empty(),
                columns_sizes: Seq::empty(),
                spacing: Scalar::of(900_000),
            },
        ),
        _ => InternalView::Nothing,
    }
}

/// A value with the first `upto` overrides applied in order: each sets the member of its
/// name. A value that is no object takes no override.
pub open spec fn patched(serialized: JsonView, overrides: Seq<(Seq<char>, JsonView)>, upto: int) -> JsonView
    decreases upto,
{
    if upto <= 0 {
        serialized
    } else {
        match patched(serialized, overrides, upto - 1) {
            JsonView::Object(members) => JsonView::Object(
                with_member(members, overrides[upto - 1].0, overrides[upto - 1].1),
            ),
            other => other,
        }
    }
}

/// What a component is told once the overrides are merged into it, and whether they could
/// be: the data is written as a value, the overrides set its members, and the value is read
/// again as data of the same kind. Where the written value is no object, so that it has no
/// member to set, or where the value cannot be read again, the data stays as it was and the
/// merge has failed. No override leaves the data as it is.
pub open spec fn joined(data: PublicView, overrides: Seq<(Seq<char>, JsonView)>) -> (PublicView, bool) {
    if overrides.len() == 0 {
        (data, true)
    } else if !(public_json(data) is Object) {
        (data, false)
    } else {
        match public_from(kind_of(data), patched(public_json(data), overrides, overrides.len() as int)) {
            Some(merged) => (merged, true),
            None => (data, false),
        }
    }
}

/// Data with the first `upto` members of a partial description filled in, one after the
/// other: each member is merged as an override, and one that cannot be merged is passed
/// over.
pub open spec fn filled_in(data: PublicView, partial: Seq<(Seq<char>, JsonView)>, upto: int) -> PublicView
    decreases upto,
{
    if upto <= 0 {
        data
    } else {
        joined(filled_in(data, partial, upto - 1), seq![partial[upto - 1]]).0
    }
}

/// Applies the overrides to a value, in order.
pub fn patch(serialized: Json, overrides: &Vec<(String, Json)>) -> (r: Json)
    ensures
        r@ == patched(serialized@, members_view(overrides@), overrides@.len() as int),
{
    match serialized {
        Json::Object(members) => {
            let mut members = members;
            let ghost start = JsonView::Object(members_view(members@));
            assert(serialized@->Object_0 =~= members_view(members@));
            let mut i: usize = 0;
            while i < overrides.len()
                invariant
                    i <= overrides.len(),
                    JsonView::Object(members_view(members@)) == patched(start, members_view(overrides@), i as int),
                decreases overrides.len() - i,
            {
                let value = overrides[i].1.clone();
                set_member(&mut members, overrides[i].0.as_str(), value);
                i = i + 1;
            }
            Json::object(members)
        },
        other => {
            let mut i: usize = 0;
            while i < overrides.len()
                invariant
                    i <= overrides.len(),
                    !(other@ is Object),
                    other@ == patched(other@, members_view(overrides@), i as int),
                decreases overrides.len() - i,
            {
                i = i + 1;
            }
            other
        },
    }
}

impl Clone for PublicData {
    fn clone(&self) -> (r: PublicData)
        ensures
            r@ == self@,
    {
        match self {
            PublicData::RotationalIndicator(d) => PublicData::RotationalIndicator(d.clone()),
            PublicData::TextField(d) => PublicData::TextField(d.clone()),
            PublicData::SpatialSituationIndicator(d) => PublicData::SpatialSituationIndicator(*d),
            PublicData::GeometryTester(d) => PublicData::GeometryTester(*d),
            PublicData::Spacer(d) => PublicData::Spacer(*d),
            PublicData::Split(d) => PublicData::Split(*d),
            PublicData::GroupingBox(d) => PublicData::GroupingBox(d.clone()),
            PublicData::Grid(d) => PublicData::Grid(*d),
        }
    }
}

impl PublicData {
    /// The kind of component that is told this.
    pub fn kind(&self) -> (r: ComponentType)
        ensures
            r == kind_of(self@),
    {
        match self {
            PublicData::RotationalIndicator(_) => ComponentType::RotationalIndicator,
            PublicData::TextField(_) => ComponentType::TextField,
            PublicData::SpatialSituationIndicator(_) => ComponentType::SpatialSituationIndicator,
            PublicData::GeometryTester(_) => ComponentType::GeometryTester,
            PublicData::Spacer(_) => ComponentType::Spacer,
            PublicData::Split(_) => ComponentType::Split,
            PublicData::GroupingBox(_) => ComponentType::GroupingBox,
            PublicData::Grid(_) => ComponentType::Grid,
        }
    }

    /// The value that holds the data.
    pub fn to_json(&self) -> (r: Json)
        ensures
            r@ == public_json(self@),
    {
        match self {
            PublicData::RotationalIndicator(d) => d.to_json(),
            PublicData::TextField(d) => d.to_json(),
            PublicData::SpatialSituationIndicator(d) => d.to_json(),
            PublicData::GeometryTester(d) => d.to_json(),
            PublicData::Spacer(d) => d.to_json(),
            PublicData::Split(d) => d.to_json(),
            PublicData::GroupingBox(d) => d.to_json(),
            PublicData::Grid(d) => d.to_json(),
        }
    }
}

impl ComponentType {
    /// The kind of component that a name stands for.
    pub fn named(name: &str) -> (r: Option<ComponentType>)
        ensures
            r == kind_named(name@),
    {
        if same_text(name, "RotationalIndicator") {
            Some(ComponentType::RotationalIndicator)
        } else if same_text(name, "TextField") {
            Some(ComponentType::TextField)
        } else if same_text(name, "SpatialSituationIndicator") {
            Some(ComponentType::SpatialSituationIndicator)
        } else if same_text(name, "GeometryTester") {
            Some(ComponentType::GeometryTester)
        } else if same_text(name, "Spacer") {
            Some(ComponentType::Spacer)
        } else if same_text(name, "Split") {
            Some(ComponentType::Split)
        } else if same_text(name, "GroupingBox") {
            Some(ComponentType::GroupingBox)
        } else if same_text(name, "Grid") {
            Some(ComponentType::Grid)
        } else {
            None
        }
    }

    /// The name under which the kind stands in a screen description.
    pub fn get_name(&self) -> (r: &'static str)
        ensures
            r@ == kind_name(*self),
    {
        match self {
            ComponentType::RotationalIndicator => (RotationalIndicator {}).get_name(),
            ComponentType::TextField => (TextField {}).get_name(),
            ComponentType::SpatialSituationIndicator => (SpatialSituationIndicator {}).get_name(),
            ComponentType::GeometryTester => (GeometryTester {}).get_name(),
            ComponentType::Spacer => (Spacer {}).get_name(),
            ComponentType::Split => (Split {}).get_name(),
            ComponentType::GroupingBox => (GroupingBox {}).get_name(),
            ComponentType::Grid => (Grid {}).get_name(),
        }
    }

    /// The largest number of children that a component of the kind may have.
    pub fn max_children(&self) -> (r: Option<u32>)
        ensures
            r == kind_max_children(*self),
    {
        match self {
            ComponentType::RotationalIndicator => (RotationalIndicator {}).max_children(),
            ComponentType::TextField => (TextField {}).max_children(),
            ComponentType::SpatialSituationIndicator => (SpatialSituationIndicator {}).max_children(),
            ComponentType::GeometryTester => (GeometryTester {}).max_children(),
            ComponentType::Spacer => (Spacer {}).max_children(),
            ComponentType::Split => (Split {}).max_children(),
            ComponentType::GroupingBox => (GroupingBox {}).max_children(),
            ComponentType::Grid => (Grid {}).max_children(),
        }
    }

    /// Hands an event to the handler of the kind, with what a component of the kind
    /// remembers and is told. No kind of this library takes notice of an event: all is left
    /// as it was.
    pub fn handle_event(
        &self,
        drawn_location: &DrawZone,
        event: &Event,
        internal_data: &mut InternalData,
        public_data: &mut PublicData,
    )
        ensures
            *final(internal_data) == *old(internal_data),
            *final(public_data) == *old(public_data),
    {
        let mut nothing = ();
        match (public_data, internal_data) {
            (PublicData::RotationalIndicator(told), _) => {
                (RotationalIndicator {}).handle_event(drawn_location, event, &mut nothing, told);
            },
            (PublicData::TextField(told), InternalData::TextField(memory)) => {
                (TextField {}).handle_event(drawn_location, event, memory, told);
            },
            (PublicData::SpatialSituationIndicator(told), _) => {
                (SpatialSituationIndicator {}).handle_event(drawn_location, event, &mut nothing, told);
            },
            (PublicData::GeometryTester(told), _) => {
                (GeometryTester).handle_event(drawn_location, event, &mut nothing, told);
            },
            (PublicData::Spacer(told), _) => {
                (Spacer {}).handle_event(drawn_location, event, &mut nothing, told);
            },
            (PublicData::Split(told), InternalData::Split(memory)) => {
                (Split {}).handle_event(drawn_location, event, memory, told);
            },
            (PublicData::GroupingBox(told), InternalData::GroupingBox(memory)) => {
                (GroupingBox {}).handle_event(drawn_location, event, memory, told);
            },
            (PublicData::Grid(told), InternalData::Grid(memory)) => {
                (Grid {}).handle_event(drawn_location, event, memory, told);
            },
            _ => {},
        }
    }

    /// What a component of the kind is told where its description tells it nothing.
    pub fn get_default_data(&self) -> (r: Option<PublicData>)
        ensures
            r matches Some(d) && d@ == kind_default(*self),
    {
        match self {
            ComponentType::RotationalIndicator => match (RotationalIndicator {}).get_default_data() {
                Some(d) => Some(PublicData::RotationalIndicator(d)),
                None => None,
            },
            ComponentType::TextField => match (TextField {}).get_default_data() {
                Some(d) => Some(PublicData::TextField(d)),
                None => None,
            },
            ComponentType::SpatialSituationIndicator => match (SpatialSituationIndicator {}).get_default_data() {
                Some(d) => Some(PublicData::SpatialSituationIndicator(d)),
                None => None,
            },
            ComponentType::GeometryTester => match (GeometryTester {}).get_default_data() {
                Some(d) => Some(PublicData::GeometryTester(d)),
                None => None,
            },
            ComponentType::Spacer => match (Spacer {}).get_default_data() {
                Some(d) => Some(PublicData::Spacer(d)),
                None => None,
            },
            ComponentType::Split => match (Split {}).get_default_data() {
                Some(d) => Some(PublicData::Split(d)),
                None => None,
            },
            ComponentType::GroupingBox => match (GroupingBox {}).get_default_data() {
                Some(d) => Some(PublicData::GroupingBox(d)),
                None => None,
            },
            ComponentType::Grid => match (Grid {}).get_default_data() {
                Some(d) => Some(PublicData::Grid(d)),
                None => None,
            },
        }
    }

    /// What a component of the kind is told by a value.
    pub fn from_json(&self, json: &Json) -> (r: Option<PublicData>)
        ensures
            match r {
                Some(data) => public_from(*self, json@) == Some(data@),
                None => public_from(*self, json@) is None,
            },
    {
        match self {
            ComponentType::RotationalIndicator => match RotationalIndicatorData::from_json(json) {
                Some(d) => Some(PublicData::RotationalIndicator(d)),
                None => None,
            },
            ComponentType::TextField => match TextFieldData::from_json(json) {
                Some(d) => Some(PublicData::TextField(d)),
                None => None,
            },
            ComponentType::SpatialSituationIndicator => match SpatialSituationIndicatorData::from_json(json) {
                Some(d) => Some(PublicData::SpatialSituationIndicator(d)),
                None => None,
            },
            ComponentType::GeometryTester => match GeometryTestType::from_json(json) {
                Some(d) => Some(PublicData::GeometryTester(d)),
                None => None,
            },
            ComponentType::Spacer => match SpacerInstance::from_json(json) {
                Some(d) => Some(PublicData::Spacer(d)),
                None => None,
            },
            ComponentType::Split => match SplitInstance::from_json(json) {
                Some(d) => Some(PublicData::Split(d)),
                None => None,
            },
            ComponentType::GroupingBox => match GroupingBoxData::from_json(json) {
                Some(d) => Some(PublicData::GroupingBox(d)),
                None => None,
            },
            ComponentType::Grid => match GridData::from_json(json) {
                Some(d) => Some(PublicData::Grid(d)),
                None => None,
            },
        }
    }

    /// What a component of the kind remembers when it has just been made.
    pub fn init_instance(&self, data: &PublicData) -> (r: InternalData)
        ensures
            r@ == fresh_memory(*self),
    {
        match (self, data) {
            (ComponentType::TextField, _) => InternalData::TextField(None),
            (ComponentType::Split, PublicData::Split(d)) => InternalData::Split((Split {}).init_instance(d)),
            (ComponentType::Split, _) => InternalData::Split(
                SplitInternalData { aspects: Vec::new(), primary_width: Scalar::zero(), primary_aspect: Scalar::one() },
            ),
            (ComponentType::GroupingBox, _) => InternalData::GroupingBox(None),
            (ComponentType::Grid, PublicData::Grid(d)) => InternalData::Grid((Grid {}).init_instance(d)),
            (ComponentType::Grid, _) => InternalData::Grid(
                GridInternalData {
                    geometry_data: Vec::new(),
                    dims: (0, 0),
                    columns_sizes: Vec::new(),
                    rows_sizes: Vec::new(),
                    spacing: Scalar::new(900_000),
                },
            ),
            _ => InternalData::Nothing,
        }
    }
}

/// What a component is told, written as a value, is read back as it was.
pub proof fn law_data_reads_back(data: PublicView)
    ensures
        public_from(kind_of(data), public_json(data)) == Some(data),
{
    match data {
        PublicView::RotationalIndicator(d) => crate::basic_components::law_rotational_indicator_reads_back(d),
        PublicView::TextField(d) => crate::basic_components::law_text_field_reads_back(d),
        PublicView::SpatialSituationIndicator(d) => crate::basic_components::law_spatial_situation_indicator_reads_back(d),
        PublicView::GeometryTester(d) => crate::basic_components::law_geometry_test_type_reads_back(d),
        PublicView::Spacer(d) => crate::geometry_components::law_spacer_reads_back(d),
        PublicView::Split(d) => crate::geometry_components::law_split_reads_back(d),
        PublicView::GroupingBox(d) => crate::geometry_components::law_grouping_box_reads_back(d),
        PublicView::Grid(d) => crate::geometry_components::law_grid_reads_back(d),
    }
}

/// Merging no overrides into what a component is told changes nothing; and where overrides
/// cannot be merged, what the component is told stays as it was, and the failure is
/// reported.
pub proof fn law_hooks_keep_data(data: PublicView, overrides: Seq<(Seq<char>, JsonView)>)
    ensures
        joined(data, Seq::empty()) == (data, true),
        !joined(data, overrides).1 ==> joined(data, overrides).0 == data,
        overrides.len() > 0 && !(public_json(data) is Object) ==> !joined(data, overrides).1,
        kind_of(joined(data, overrides).0) == kind_of(data),
{
}

} // verus!
