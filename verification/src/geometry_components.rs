//! The components that lay out other components: spacer, split, grouping box and grid.
//!
//! A layout component draws in two steps. It first arranges: from the zone it is given and
//! what it learnt in the last frame it offers a zone to each child. When the children have
//! drawn, it settles: from the zones the children really took it corrects its weights for the
//! next frame.

use crate::component::{Component, ComponentType};
use crate::json::{
    law_natural_reads_back, law_number_reads_back, lemma_member_at, member, natural_in, one_member, only_member_of,
    push_member, scalar_in, text_in, Json, JsonView,
};
use crate::manager::Manager;
use crate::scalar::{total, Scalar, UNIT};
use crate::scene::Event;
use crate::text::{decimal_text, natural_digits, same_text};
use crate::zone::{rect, DrawZone, Vec2};
use vstd::prelude::*;

verus! {

// =========================== SPACER ===========================

/// What a spacer is told: the factor by which its child's zone is scaled.
#[derive(Clone, Copy, Debug, PartialEq, Eq, Structural)]
pub struct SpacerInstance {
    pub spacing: Scalar,
}

/// Shrinks or grows the zone of its single child about the same centre.
#[derive(Clone, Copy, Debug, PartialEq, Eq, Structural)]
pub struct Spacer {}

impl Component for Spacer {
    type Public = SpacerInstance;

    type Internal = ();

    fn max_children(&self) -> (r: Option<u32>)
        ensures
            r == Some(1u32),
    {
        Some(1)
    }

    fn get_name(&self) -> (r: &'static str)
        ensures
            r@ == "Spacer"@,
    {
        "Spacer"
    }

    fn get_default_data(&self) -> (r: Option<SpacerInstance>)
        ensures
            r == Some(SpacerInstance { spacing: Scalar::of(UNIT as int) }),
    {
        Some(SpacerInstance { spacing: Scalar::one() })
    }

    open spec fn after_event(
        &self,
        drawn_location: DrawZone,
        event: Event,
        internal_data: (),
        public_data: SpacerInstance,
    ) -> ((), SpacerInstance) {
        (internal_data, public_data)
    }

    /// Takes no notice of the event.
    fn handle_event(
        &self,
        drawn_location: &DrawZone,
        event: &Event,
        internal_data: &mut (),
        public_data: &mut SpacerInstance,
    ) {
    }
}

impl Spacer {
    /// The zone offered to the child: the spacer's own, scaled by the spacing.
    pub fn draw(&self, zone: DrawZone, data: &SpacerInstance) -> (r: DrawZone)
        ensures
            r == crate::zone::scaled(zone, data.spacing),
    {
        zone.scale(data.spacing)
    }
}

// =========================== SPLIT ===========================

/// The axis along which a split lines up its children.
#[derive(Clone, Copy, Debug, PartialEq, Eq, Structural)]
pub enum SplitDirection {
    Horizontal,
    Vertical,
}

/// How a split shares its zone among its children.
#[derive(Clone, Copy, Debug, PartialEq, Eq, Structural)]
pub enum SplitMode {
    EqualArea,
    EqualSide,
}

/// What a split is told.
#[derive(Clone, Copy, Debug, PartialEq, Eq, Structural)]
pub struct SplitInstance {
    pub spacing: Scalar,
    pub direction: SplitDirection,
    pub mode: SplitMode,
}

/// Lines up its children along one axis, each with a share of it in proportion to the
/// aspect that the child showed in the last frame.
#[derive(Clone, Copy, Debug, PartialEq, Eq, Structural)]
pub struct Split;

/// What a split remembers from one frame to the next.
#[derive(Debug, PartialEq, Eq)]
pub struct SplitInternalData {
    /// The weight of each child: its last aspect, taken along the split.
    pub aspects: Vec<Scalar>,
    /// The sum of the weights.
    pub primary_width: Scalar,
    /// The aspect that the children took together.
    pub primary_aspect: Scalar,
}

/// The model of a split's memory.
pub struct SplitMemory {
    pub aspects: Seq<Scalar>,
    pub primary_width: Scalar,
    pub primary_aspect: Scalar,
}

impl View for SplitInternalData {
    type V = SplitMemory;

    open spec fn view(&self) -> SplitMemory {
        SplitMemory {
            aspects: self.aspects@,
            primary_width: self.primary_width,
            primary_aspect: self.primary_aspect,
        }
    }
}

impl SplitInstance {
    pub open spec fn spec_p(&self, vector: &Vec2) -> Scalar {
        if self.direction == SplitDirection::Horizontal {
            vector.x
        } else {
            vector.y
        }
    }

    pub open spec fn spec_s(&self, vector: &Vec2) -> Scalar {
        if self.direction == SplitDirection::Horizontal {
            vector.y
        } else {
            vector.x
        }
    }

    pub open spec fn spec_pack(&self, primary: Scalar, secondary: Scalar) -> Vec2 {
        if self.direction == SplitDirection::Horizontal {
            Vec2 { x: primary, y: secondary }
        } else {
            Vec2 { x: secondary, y: primary }
        }
    }

    pub open spec fn spec_aspect_to_primary_to_secondary(&self, aspect: Scalar) -> Scalar {
        if self.direction == SplitDirection::Horizontal {
            aspect
        } else {
            Scalar::of(UNIT as int).over(aspect)
        }
    }

    /// The coordinate along the split: across the separators.
    #[verifier::when_used_as_spec(spec_p)]
    pub fn p(&self, vector: &Vec2) -> (r: Scalar)
        ensures
            r == self.spec_p(vector),
    {
        match self.direction {
            SplitDirection::Horizontal => vector.x,
            SplitDirection::Vertical => vector.y,
        }
    }

    /// The coordinate along the separators.
    #[verifier::when_used_as_spec(spec_s)]
    pub fn s(&self, vector: &Vec2) -> (r: Scalar)
        ensures
            r == self.spec_s(vector),
    {
        match self.direction {
            SplitDirection::Horizontal => vector.y,
            SplitDirection::Vertical => vector.x,
        }
    }

    /// The vector with the given coordinates along and across the split.
    #[verifier::when_used_as_spec(spec_pack)]
    pub fn pack(&self, primary: Scalar, secondary: Scalar) -> (r: Vec2)
        ensures
            r == self.spec_pack(primary, secondary),
    {
        match self.direction {
            SplitDirection::Horizontal => Vec2 { x: primary, y: secondary },
            SplitDirection::Vertical => Vec2 { x: secondary, y: primary },
        }
    }

    /// An aspect as length along the split over length across it.
    #[verifier::when_used_as_spec(spec_aspect_to_primary_to_secondary)]
    pub fn aspect_to_primary_to_secondary(&self, aspect: Scalar) -> (r: Scalar)
        ensures
            r == self.spec_aspect_to_primary_to_secondary(aspect),
    {
        match self.direction {
            SplitDirection::Horizontal => aspect,
            SplitDirection::Vertical => Scalar::one().over(aspect),
        }
    }
}

/// `count` weights of one each.
pub open spec fn uniform(count: int) -> Seq<Scalar> {
    Seq::new(count as nat, |i: int| Scalar::of(UNIT as int))
}

/// What a split remembers when it is about to offer zones to `children` children: what it
/// remembered before where that was for as many children, and else one weight of one for
/// each.
pub open spec fn split_recalled(before: SplitMemory, children: usize) -> SplitMemory {
    if before.aspects.len() == children {
        before
    } else {
        SplitMemory {
            aspects: uniform(children as int),
            primary_width: Scalar::from_count(children),
            primary_aspect: before.primary_aspect,
        }
    }
}

/// The zone that a split takes of the zone it is given: the largest with the aspect half-way
/// (in proportion) between that of the given zone and that of the children as last drawn.
pub open spec fn split_frame(zone: DrawZone, primary_aspect: Scalar) -> DrawZone {
    zone.constraint_to_aspect(zone.aspect().times(primary_aspect).sqrt())
}

/// The length along the split that one unit of weight gets.
pub open spec fn split_space_per_unit(frame: DrawZone, data: SplitInstance, memory: SplitMemory) -> Scalar {
    data.p(&frame.size).over(memory.primary_width)
}

/// Where the zone of child `i` starts along the split.
pub open spec fn split_cursor(frame: DrawZone, data: SplitInstance, memory: SplitMemory, i: int) -> Scalar
    decreases i,
{
    if i <= 0 {
        data.p(&frame.bottom_left())
    } else {
        split_cursor(frame, data, memory, i - 1).plus(
            memory.aspects[i - 1].times(split_space_per_unit(frame, data, memory)),
        )
    }
}

/// The zone that a split offers to child `i`, before spacing: across the split all of the
/// frame, along it the child's share, after the shares of the children before it.
pub open spec fn split_cell(frame: DrawZone, data: SplitInstance, memory: SplitMemory, i: int) -> DrawZone {
    rect(
        data.pack(split_cursor(frame, data, memory, i), data.s(&frame.bottom_left())),
        data.pack(split_cursor(frame, data, memory, i + 1), data.s(&frame.top_right())),
    )
}

/// The weights that a split learns from the zones its children took.
pub open spec fn split_learnt(data: SplitInstance, drawn: Seq<DrawZone>) -> Seq<Scalar> {
    Seq::new(drawn.len(), |i: int| data.aspect_to_primary_to_secondary(drawn[i].aspect()))
}

/// What a split remembers after its children took the zones `drawn`.
pub open spec fn split_settled(data: SplitInstance, drawn: Seq<DrawZone>) -> SplitMemory {
    let weights = split_learnt(data, drawn);
    let sum = total(weights, weights.len() as int);
    SplitMemory {
        aspects: weights,
        primary_width: sum,
        primary_aspect: if data.direction == SplitDirection::Horizontal {
            sum
        } else {
            Scalar::of(UNIT as int).over(sum)
        },
    }
}

/// Whether a number lies far from the ends of the number range.
pub open spec fn central(v: Scalar) -> bool {
    -0x2000_0000_0000_0000 <= v@ <= 0x2000_0000_0000_0000
}

/// The cells of a split follow each other along the split without gap or overlap, and reach
/// from edge to edge of the frame across it: cell `i` spans from where it starts to where
/// the next cell starts. This holds where the places at which the cells start do not fall
/// back and, like the edges of the frame across the split, lie far from the ends of the
/// number range.
pub proof fn law_split_cells_adjoin(frame: DrawZone, data: SplitInstance, memory: SplitMemory, i: int)
    requires
        0 <= i,
        split_cursor(frame, data, memory, i)@ <= split_cursor(frame, data, memory, i + 1)@,
        central(split_cursor(frame, data, memory, i)),
        central(split_cursor(frame, data, memory, i + 1)),
        data.s(&frame.bottom_left())@ <= data.s(&frame.top_right())@,
        central(data.s(&frame.bottom_left())),
        central(data.s(&frame.top_right())),
    ensures
        ({
            let cell = split_cell(frame, data, memory, i);
            &&& cell.well_formed()
            &&& data.p(&cell.bottom_left()) == split_cursor(frame, data, memory, i)
            &&& data.p(&cell.top_right()) == split_cursor(frame, data, memory, i + 1)
            &&& data.s(&cell.bottom_left()) == data.s(&frame.bottom_left())
            &&& data.s(&cell.top_right()) == data.s(&frame.top_right())
        }),
{
    crate::zone::law_rect_corners(
        data.pack(split_cursor(frame, data, memory, i), data.s(&frame.bottom_left())),
        data.pack(split_cursor(frame, data, memory, i + 1), data.s(&frame.top_right())),
    );
}

/// A split that last drew another number of children starts the frame with a weight of one
/// for each child, and with their sum; a split that last drew as many keeps its weights.
pub proof fn law_split_weight_reset(before: SplitMemory, children: usize)
    ensures
        before.aspects.len() != children ==> {
            &&& split_recalled(before, children).aspects.len() == children
            &&& forall|i: int| 0 <= i < children ==> (#[trigger] split_recalled(before, children).aspects[i])@ == UNIT
            &&& split_recalled(before, children).primary_width@ == crate::scalar::clamp(children * UNIT)
        },
        before.aspects.len() == children ==> split_recalled(before, children) == before,
{
}

impl Component for Split {
    type Public = SplitInstance;

    type Internal = SplitInternalData;

    fn max_children(&self) -> (r: Option<u32>)
        ensures
            r == None::<u32>,
    {
        None
    }

    fn get_name(&self) -> (r: &'static str)
        ensures
            r@ == "Split"@,
    {
        "Split"
    }

    fn get_default_data(&self) -> (r: Option<SplitInstance>)
        ensures
            r == Some(
                SplitInstance {
                    spacing: Scalar::of(900_000),
                    direction: SplitDirection::Horizontal,
                    mode: SplitMode::EqualSide,
                },
            ),
    {
        Some(
            SplitInstance {
                spacing: Scalar::new(900_000),
                direction: SplitDirection::Horizontal,
                mode: SplitMode::EqualSide,
            },
        )
    }

    open spec fn after_event(
        &self,
        drawn_location: DrawZone,
        event: Event,
        internal_data: SplitInternalData,
        public_data: SplitInstance,
    ) -> (SplitInternalData, SplitInstance) {
        (internal_data, public_data)
    }

    /// Takes no notice of the event.
    fn handle_event(
        &self,
        drawn_location: &DrawZone,
        event: &Event,
        internal_data: &mut SplitInternalData,
        public_data: &mut SplitInstance,
    ) {
    }
}

impl Split {
    pub fn init_instance(&self, data: &SplitInstance) -> (r: SplitInternalData)
        ensures
            r@ == (SplitMemory {
                aspects: Seq::empty(),
                primary_width: Scalar::of(0),
                primary_aspect: Scalar::of(UNIT as int),
            }),
    {
        SplitInternalData { aspects: Vec::new(), primary_width: Scalar::zero(), primary_aspect: Scalar::one() }
    }

    /// The first step of drawing: the zones offered to `children` children, before spacing.
    ///
    /// Where the split last drew another number of children, it forgets their weights and
    /// gives each child a weight of one.
    pub fn draw(
        &self,
        zone: DrawZone,
        children: usize,
        internal_data: &mut SplitInternalData,
        data: &SplitInstance,
    ) -> (r: Vec<DrawZone>)
        requires
            data.mode == SplitMode::EqualSide,
        ensures
            final(internal_data)@ == split_recalled(old(internal_data)@, children),
            r@.len() == children,
            forall|i: int|
                0 <= i < children ==> r@[i] == split_cell(
                    split_frame(zone, old(internal_data).primary_aspect),
                    *data,
                    final(internal_data)@,
                    i,
                ),
    {
        let frame = zone.constraint_to_aspect(zone.aspect().times(internal_data.primary_aspect).sqrt());
        if internal_data.aspects.len() != children {
            let mut weights: Vec<Scalar> = Vec::new();
            let mut k: usize = 0;
            while k < children
                invariant
                    k <= children,
                    weights@ == uniform(k as int),
                decreases children - k,
            {
                weights.push(Scalar::one());
                k = k + 1;
                assert(weights@ =~= uniform(k as int));
            }
            internal_data.aspects = weights;
            internal_data.primary_width = Scalar::from_count(children);
        }
        let space_per_unit = data.p(&frame.size).over(internal_data.primary_width);
        let low = frame.bottom_left();
        let high = frame.top_right();
        let mut primary_cursor = data.p(&low);
        let mut cells: Vec<DrawZone> = Vec::new();
        let mut i: usize = 0;
        while i < children
            invariant
                i <= children,
                internal_data.aspects@.len() == children,
                internal_data@ == split_recalled(old(internal_data)@, children),
                space_per_unit == split_space_per_unit(frame, *data, internal_data@),
                low == frame.bottom_left(),
                high == frame.top_right(),
                primary_cursor == split_cursor(frame, *data, internal_data@, i as int),
                cells@.len() == i,
                forall|k: int| 0 <= k < i ==> cells@[k] == split_cell(frame, *data, internal_data@, k),
            decreases children - i,
        {
            let next = primary_cursor.plus(internal_data.aspects[i].times(space_per_unit));
            let cell = DrawZone::from_rect(
                data.pack(primary_cursor, data.s(&low)),
                data.pack(next, data.s(&high)),
            );
            cells.push(cell);
            primary_cursor = next;
            i = i + 1;
        }
        cells
    }

    /// The second step of drawing: the split learns the weight of each child from the zone
    /// that the child took.
    pub fn settle(&self, drawn: &Vec<DrawZone>, internal_data: &mut SplitInternalData, data: &SplitInstance)
        ensures
            final(internal_data)@ == split_settled(*data, drawn@),
    {
        let mut weights: Vec<Scalar> = Vec::new();
        let mut sum = Scalar::zero();
        let mut i: usize = 0;
        while i < drawn.len()
            invariant
                i <= drawn.len(),
                weights@.len() == i,
                forall|k: int| 0 <= k < i ==> weights@[k] == split_learnt(*data, drawn@)[k],
                sum == total(split_learnt(*data, drawn@), i as int),
            decreases drawn.len() - i,
        {
            let weight = data.aspect_to_primary_to_secondary(drawn[i].aspect());
            weights.push(weight);
            sum = sum.plus(weight);
            i = i + 1;
        }
        assert(weights@ =~= split_learnt(*data, drawn@));
        internal_data.aspects = weights;
        internal_data.primary_width = sum;
        internal_data.primary_aspect = match data.direction {
            SplitDirection::Horizontal => sum,
            SplitDirection::Vertical => Scalar::one().over(sum),
        };
    }
}

// =========================== GROUPING BOX ===========================

/// The height of a grouping box's title strip.
#[derive(Clone, Copy, Debug, PartialEq, Eq, Structural)]
pub enum GroupingBoxTitleSize {
    /// A share of the box's height.
    RelativeToHeight(Scalar),
    /// A height of its own.
    Absolute(Scalar),
}

/// What a grouping box is told.
#[derive(Debug, PartialEq, Eq)]
pub struct GroupingBoxData {
    pub spacing: Scalar,
    pub title_size: GroupingBoxTitleSize,
    pub title: String,
}

/// A titled frame round a single child.
#[derive(Clone, Copy, Debug, PartialEq, Eq, Structural)]
pub struct GroupingBox {}

/// Where a grouping box puts its parts.
#[derive(Clone, Copy, Debug, PartialEq, Eq, Structural)]
pub struct GroupingBoxLayout {
    /// The zone of the whole box.
    pub frame: DrawZone,
    /// The title strip, at the low edge in y.
    pub title: DrawZone,
    /// The zone offered to the child.
    pub child: DrawZone,
}

/// The zone that a grouping box takes of the zone it is given: all of it before its child
/// has ever drawn, and after that the largest with the aspect half-way (in proportion)
/// between that of the given zone and that of the child as last drawn.
pub open spec fn grouping_frame(zone: DrawZone, last_aspect: Option<Scalar>) -> DrawZone {
    match last_aspect {
        None => zone,
        Some(aspect) => zone.constraint_to_aspect(aspect.times(zone.aspect()).sqrt()),
    }
}

/// The height of the title strip of a box that takes `frame`.
pub open spec fn grouping_title_height(frame: DrawZone, title_size: GroupingBoxTitleSize) -> Scalar {
    match title_size {
        GroupingBoxTitleSize::RelativeToHeight(height) => frame.size.y.times(height),
        GroupingBoxTitleSize::Absolute(height) => height,
    }
}

/// Where a grouping box puts its parts in the zone it is given: where a box that takes
/// its frame of that zone puts them.
pub open spec fn grouping_layout(
    zone: DrawZone,
    last_aspect: Option<Scalar>,
    title_size: GroupingBoxTitleSize,
    spacing: Scalar,
) -> GroupingBoxLayout {
    grouping_parts(grouping_frame(zone, last_aspect), title_size, spacing)
}

/// Where a grouping box that takes `frame` puts its parts: the title strip takes the
/// title's height at the low edge in y, the child the rest, scaled by the spacing about its
/// centre.
pub open spec fn grouping_parts(frame: DrawZone, title_size: GroupingBoxTitleSize, spacing: Scalar) -> GroupingBoxLayout {
    let title_height = grouping_title_height(frame, title_size);
    let child_height = frame.size.y.minus(title_height);
    let low = frame.bottom_left();
    let high = frame.top_right();
    GroupingBoxLayout {
        frame,
        title: rect(low, Vec2 { x: high.x, y: high.y.minus(child_height) }),
        child: crate::zone::scaled(rect(Vec2 { x: low.x, y: low.y.plus(title_height) }, high), spacing),
    }
}

impl Component for GroupingBox {
    type Public = GroupingBoxData;

    type Internal = Option<Scalar>;

    fn max_children(&self) -> (r: Option<u32>)
        ensures
            r == Some(1u32),
    {
        Some(1)
    }

    fn get_name(&self) -> (r: &'static str)
        ensures
            r@ == "GroupingBox"@,
    {
        "GroupingBox"
    }

    fn get_default_data(&self) -> (r: Option<GroupingBoxData>)
        ensures
            r matches Some(d) && d.spacing == Scalar::of(900_000) && d.title_size
                == GroupingBoxTitleSize::RelativeToHeight(Scalar::of(200_000)) && d.title@
                == "GroupingBox"@,
    {
        Some(
            GroupingBoxData {
                spacing: Scalar::new(900_000),
                title_size: GroupingBoxTitleSize::RelativeToHeight(Scalar::new(200_000)),
                title: "GroupingBox".to_owned(),
            },
        )
    }

    open spec fn after_event(
        &self,
        drawn_location: DrawZone,
        event: Event,
        internal_data: Option<Scalar>,
        public_data: GroupingBoxData,
    ) -> (Option<Scalar>, GroupingBoxData) {
        (internal_data, public_data)
    }

    /// Takes no notice of the event.
    fn handle_event(
        &self,
        drawn_location: &DrawZone,
        event: &Event,
        internal_data: &mut Option<Scalar>,
        public_data: &mut GroupingBoxData,
    ) {
    }
}

impl GroupingBox {
    pub fn init_instance(&self, data: &GroupingBoxData) -> (r: Option<Scalar>)
        ensures
            r == None::<Scalar>,
    {
        None
    }

    /// The first step of drawing: where the frame, the title strip and the child go.
    pub fn draw(&self, zone: DrawZone, last_aspect: &Option<Scalar>, public_data: &GroupingBoxData) -> (r:
        GroupingBoxLayout)
        ensures
            r == grouping_layout(zone, *last_aspect, public_data.title_size, public_data.spacing),
    {
        let frame = match last_aspect {
            None => zone,
            Some(aspect) => zone.constraint_to_aspect(aspect.times(zone.aspect()).sqrt()),
        };
        self.parts(frame, public_data)
    }

    /// Where a box that takes `frame` puts its title strip and its child.
    pub fn parts(&self, frame: DrawZone, public_data: &GroupingBoxData) -> (r: GroupingBoxLayout)
        ensures
            r == grouping_parts(frame, public_data.title_size, public_data.spacing),
    {
        let title_height = match public_data.title_size {
            GroupingBoxTitleSize::RelativeToHeight(height) => frame.size.y.times(height),
            GroupingBoxTitleSize::Absolute(height) => height,
        };
        let child_height = frame.size.y.minus(title_height);
        let low = frame.bottom_left();
        let high = frame.top_right();
        let child_zone = DrawZone::from_rect(Vec2 { x: low.x, y: low.y.plus(title_height) }, high);
        let text_zone = DrawZone::from_rect(low, Vec2 { x: high.x, y: high.y.minus(child_height) });
        GroupingBoxLayout { frame, title: text_zone, child: child_zone.scale(public_data.spacing) }
    }

    /// The second step of drawing: the box remembers the aspect of the zone its child took.
    pub fn settle(&self, drawn: &DrawZone, last_aspect: &mut Option<Scalar>)
        ensures
            *final(last_aspect) == Some(drawn.aspect()),
    {
        *last_aspect = Some(drawn.aspect());
    }
}

// =========================== GRID ===========================

/// The limits that a child sets to the size of its cell.
#[derive(Clone, Copy, Debug, PartialEq, Eq, Structural)]
pub struct ChildGeometryProperties {
    pub min_w: Option<Scalar>,
    pub max_w: Option<Scalar>,
    pub min_h: Option<Scalar>,
    pub max_h: Option<Scalar>,
}

/// The properties of a child that sets no limit.
pub open spec fn default_geometry_data() -> ChildGeometryProperties {
    ChildGeometryProperties { min_w: None, max_w: None, min_h: None, max_h: None }
}

/// The number of columns and rows of a grid.
#[derive(Clone, Copy, Debug, PartialEq, Eq)]
pub enum GridDimensions {
    /// So many columns and so many rows.
    Fixed((usize, usize)),
    /// As many columns as rows, and just enough of them for all the children.
    Auto,
}

/// How a grid adapts its cells.
#[derive(Clone, Copy, Debug, PartialEq, Eq, Structural)]
pub enum GridLayoutStrategy {
    Static,
    MinimizeWastedSpace,
    EqualUsedSpace,
}

/// What a grid is told.
#[derive(Clone, Copy, Debug, PartialEq, Eq)]
pub struct GridData {
    pub spacing: Scalar,
    pub dimensions: GridDimensions,
    pub layout_strategy: GridLayoutStrategy,
}

/// Puts its children in rows and columns.
#[derive(Clone, Copy, Debug, PartialEq, Eq, Structural)]
pub struct Grid {}

/// What a grid remembers from one frame to the next.
#[derive(Debug, PartialEq, Eq)]
pub struct GridInternalData {
    pub geometry_data: Vec<ChildGeometryProperties>,
    /// The number of columns and of rows.
    pub dims: (usize, usize),
    /// The share of the height that each row gets.
    pub rows_sizes: Vec<Scalar>,
    /// The share of the width that each column gets.
    pub columns_sizes: Vec<Scalar>,
    pub spacing: Scalar,
}

/// The model of a grid's memory.
pub struct GridMemory {
    pub geometry_data: Seq<ChildGeometryProperties>,
    pub dims: (usize, usize),
    pub rows_sizes: Seq<Scalar>,
    pub columns_sizes: Seq<Scalar>,
    pub spacing: Scalar,
}

impl View for GridInternalData {
    type V = GridMemory;

    open spec fn view(&self) -> GridMemory {
        GridMemory {
            geometry_data: self.geometry_data@,
            dims: self.dims,
            rows_sizes: self.rows_sizes@,
            columns_sizes: self.columns_sizes@,
            spacing: self.spacing,
        }
    }
}

/// The properties remembered at place `x` of stretch `y`, where the memory is cut into
/// stretches as long as the second of the grid's dimensions; those of a child that sets no
/// limit where the memory does not reach so far.
pub open spec fn grid_gd(memory: GridMemory, x: int, y: int) -> ChildGeometryProperties {
    if y * memory.dims.1 + x < memory.geometry_data.len() {
        memory.geometry_data[y * memory.dims.1 + x]
    } else {
        default_geometry_data()
    }
}

/// The smaller of `least` and `candidate`, where there is a candidate.
pub open spec fn lowered(least: Scalar, candidate: Option<Scalar>) -> Scalar {
    match candidate {
        Some(w) => if w@ < least@ {
            w
        } else {
            least
        },
        None => least,
    }
}

/// The larger of `most` and `candidate`, where there is a candidate.
pub open spec fn raised(most: Scalar, candidate: Option<Scalar>) -> Scalar {
    match candidate {
        Some(w) => if w@ > most@ {
            w
        } else {
            most
        },
        None => most,
    }
}

/// The least `min_w` remembered at place `x` of the first `upto` stretches; the largest
/// number where none of them has one.
pub open spec fn least_min_w(memory: GridMemory, x: int, upto: int) -> Scalar
    decreases upto,
{
    if upto <= 0 {
        Scalar::of(i64::MAX as int)
    } else {
        lowered(least_min_w(memory, x, upto - 1), grid_gd(memory, x, upto - 1).min_w)
    }
}

/// The least `min_h` remembered at place `x` of the first `upto` stretches; the largest
/// number where none of them has one.
pub open spec fn least_min_h(memory: GridMemory, x: int, upto: int) -> Scalar
    decreases upto,
{
    if upto <= 0 {
        Scalar::of(i64::MAX as int)
    } else {
        lowered(least_min_h(memory, x, upto - 1), grid_gd(memory, x, upto - 1).min_h)
    }
}

/// The largest `max_h` remembered at place `x` of the first `upto` stretches; zero where
/// none of them has one.
pub open spec fn most_max_h(memory: GridMemory, x: int, upto: int) -> Scalar
    decreases upto,
{
    if upto <= 0 {
        Scalar::of(0)
    } else {
        raised(most_max_h(memory, x, upto - 1), grid_gd(memory, x, upto - 1).max_h)
    }
}

/// A least value, unless none was found.
pub open spec fn found_least(least: Scalar) -> Option<Scalar> {
    if least@ == i64::MAX {
        None
    } else {
        Some(least)
    }
}

/// A largest value, unless none was found.
pub open spec fn found_most(most: Scalar) -> Option<Scalar> {
    if most@ == 0 {
        None
    } else {
        Some(most)
    }
}

impl GridInternalData {
    /// The properties remembered at place `x` of stretch `y`, the memory cut into stretches
    /// as long as the second of the grid's dimensions.
    pub fn gd(&self, x: usize, y: usize) -> (r: ChildGeometryProperties)
        ensures
            r == grid_gd(self@, x as int, y as int),
    {
        let none = ChildGeometryProperties { min_w: None, max_w: None, min_h: None, max_h: None };
        let stride: usize = self.dims.1;
        assert(y * stride <= 0xffff_ffff_ffff_ffff * 0xffff_ffff_ffff_ffff) by (nonlinear_arith)
            requires
                0 <= y <= 0xffff_ffff_ffff_ffff,
                0 <= stride <= 0xffff_ffff_ffff_ffff,
        ;
        let index: u128 = (y as u128) * (stride as u128) + (x as u128);
        if index < self.geometry_data.len() as u128 {
            self.geometry_data[index as usize]
        } else {
            none
        }
    }

    /// The limits that bind column `column`: the least `min_w` and the largest `max_h`
    /// remembered at place `column` of each stretch, as many stretches as the second of the
    /// grid's dimensions says. A largest height of zero counts as none.
    pub fn get_column_sizes(&self, column: usize) -> (r: (Option<Scalar>, Option<Scalar>))
        ensures
            r.0 == found_least(least_min_w(self@, column as int, self.dims.1 as int)),
            r.1 == found_most(most_max_h(self@, column as int, self.dims.1 as int)),
    {
        let mut min = Scalar::new(i64::MAX);
        let mut max = Scalar::zero();
        let mut i: usize = 0;
        while i < self.dims.1
            invariant
                i <= self.dims.1,
                min == least_min_w(self@, column as int, i as int),
                max == most_max_h(self@, column as int, i as int),
            decreases self.dims.1 - i,
        {
            let properties = self.gd(column, i);
            match properties.min_w {
                Some(w) => {
                    if w.lt(min) {
                        min = w;
                    }
                },
                None => {},
            }
            match properties.max_h {
                Some(w) => {
                    if max.lt(w) {
                        max = w;
                    }
                },
                None => {},
            }
            i = i + 1;
        }
        (
            if min.micros == i64::MAX {
                None
            } else {
                Some(min)
            },
            if max.micros == 0 {
                None
            } else {
                Some(max)
            },
        )
    }

    /// The limits that bind row `row`: the least `min_h` and the largest `max_h` remembered
    /// at place `row` of each stretch, as many stretches as the first of the grid's
    /// dimensions says. A largest height of zero counts as none.
    pub fn get_row_sizes(&self, row: usize) -> (r: (Option<Scalar>, Option<Scalar>))
        ensures
            r.0 == found_least(least_min_h(self@, row as int, self.dims.0 as int)),
            r.1 == found_most(most_max_h(self@, row as int, self.dims.0 as int)),
    {
        let mut min = Scalar::new(i64::MAX);
        let mut max = Scalar::zero();
        let mut i: usize = 0;
        while i < self.dims.0
            invariant
                i <= self.dims.0,
                min == least_min_h(self@, row as int, i as int),
                max == most_max_h(self@, row as int, i as int),
            decreases self.dims.0 - i,
        {
            let properties = self.gd(row, i);
            match properties.min_h {
                Some(w) => {
                    if w.lt(min) {
                        min = w;
                    }
                },
                None => {},
            }
            match properties.max_h {
                Some(w) => {
                    if max.lt(w) {
                        max = w;
                    }
                },
                None => {},
            }
            i = i + 1;
        }
        (
            if min.micros == i64::MAX {
                None
            } else {
                Some(min)
            },
            if max.micros == 0 {
                None
            } else {
                Some(max)
            },
        )
    }
}

/// `count` shares of one `count`-th each.
pub open spec fn even_shares(count: usize) -> Seq<Scalar> {
    Seq::new(count as nat, |i: int| Scalar::of(UNIT as int).over(Scalar::from_count(count)))
}

/// Whether a grid's memory holds a share for each of its columns and rows.
pub open spec fn grid_consistent(memory: GridMemory) -> bool {
    memory.columns_sizes.len() == memory.dims.0 && memory.rows_sizes.len() == memory.dims.1
}

/// What a grid remembers when it is about to offer zones in `dims` columns and rows: what
/// it remembered before where that was for as many, and else an even share for each column
/// and each row.
pub open spec fn grid_recalled(before: GridMemory, dims: (usize, usize)) -> GridMemory {
    if before.dims == dims && grid_consistent(before) {
        before
    } else {
        GridMemory {
            geometry_data: Seq::empty(),
            dims,
            rows_sizes: even_shares(dims.1),
            columns_sizes: even_shares(dims.0),
            spacing: before.spacing,
        }
    }
}

/// The number of children that a grid draws: all of them, or as many as it has cells.
pub open spec fn grid_count(dims: (usize, usize), children: usize) -> int {
    if children <= dims.0 * dims.1 {
        children as int
    } else {
        dims.0 * dims.1
    }
}

/// Where cell `i` of a row or column starts: at `start`, after the cells before it, each
/// with its share of `extent`.
pub open spec fn grid_offset(sizes: Seq<Scalar>, extent: Scalar, start: Scalar, i: int) -> Scalar
    decreases i,
{
    if i <= 0 {
        start
    } else {
        grid_offset(sizes, extent, start, i - 1).plus(sizes[i - 1].times(extent))
    }
}

/// The zone of the cell in column `x` and row `y`, before spacing.
pub open spec fn grid_cell_at(zone: DrawZone, memory: GridMemory, x: int, y: int) -> DrawZone {
    let corner = Vec2 {
        x: grid_offset(memory.columns_sizes, zone.size.x, zone.bottom_left().x, x),
        y: grid_offset(memory.rows_sizes, zone.size.y, zone.bottom_left().y, y),
    };
    rect(
        corner,
        Vec2 {
            x: corner.x.plus(memory.columns_sizes[x].times(zone.size.x)),
            y: corner.y.plus(memory.rows_sizes[y].times(zone.size.y)),
        },
    )
}

/// The zone that a grid offers to child `k`, before spacing: the children fill the rows one
/// after the other, from the low edges up.
pub open spec fn grid_cell(zone: DrawZone, memory: GridMemory, k: int) -> DrawZone {
    grid_cell_at(zone, memory, k % (memory.dims.0 as int), k / (memory.dims.0 as int))
}

/// The credit that the first `upto` children earn for their columns and rows: a child whose
/// zone came out wider in proportion than its cell wasted height, so its row is credited
/// with less than its share and its column with all of it; another child the other way
/// round.
pub open spec fn grid_credit(memory: GridMemory, cells: Seq<DrawZone>, drawn: Seq<DrawZone>, upto: int) -> (
    Seq<Scalar>,
    Seq<Scalar>,
)
    decreases upto,
{
    if upto <= 0 {
        (
            Seq::new(memory.dims.0 as nat, |i: int| Scalar::of(0)),
            Seq::new(memory.dims.1 as nat, |i: int| Scalar::of(0)),
        )
    } else {
        let before = grid_credit(memory, cells, drawn, upto - 1);
        let k = upto - 1;
        let x = k % (memory.dims.0 as int);
        let y = k / (memory.dims.0 as int);
        if drawn[k].aspect()@ > cells[k].aspect()@ {
            (
                before.0.update(x, before.0[x].plus(memory.columns_sizes[x])),
                before.1.update(
                    y,
                    before.1[y].plus(memory.rows_sizes[y].times(cells[k].aspect()).over(drawn[k].aspect())),
                ),
            )
        } else {
            (
                before.0.update(
                    x,
                    before.0[x].plus(memory.columns_sizes[x].times(drawn[k].aspect()).over(cells[k].aspect())),
                ),
                before.1.update(y, before.1[y].plus(memory.rows_sizes[y])),
            )
        }
    }
}

/// The numbers of `s`, each divided by their sum.
pub open spec fn normalized(s: Seq<Scalar>) -> Seq<Scalar> {
    Seq::new(s.len(), |i: int| s[i].over(total(s, s.len() as int)))
}

/// The sum of the first `upto` numbers, in millionths, with no limit to its size.
pub open spec fn plain_sum(s: Seq<Scalar>, upto: int) -> int
    decreases upto,
{
    if upto <= 0 {
        0
    } else {
        plain_sum(s, upto - 1) + s[upto - 1]@
    }
}

/// Whether no number is below zero.
pub open spec fn none_negative(s: Seq<Scalar>) -> bool {
    forall|i: int| 0 <= i < s.len() ==> (#[trigger] s[i])@ >= 0
}

/// A sum of numbers that are not below zero is not below zero.
proof fn lemma_plain_sum_positive(s: Seq<Scalar>, i: int)
    requires
        none_negative(s),
        0 <= i <= s.len(),
    ensures
        0 <= plain_sum(s, i),
    decreases i,
{
    if i > 0 {
        lemma_plain_sum_positive(s, i - 1);
        assert(s[i - 1]@ >= 0);
    }
}

/// Sums of numbers that are not below zero grow with the number of terms.
proof fn lemma_plain_sum_grows(s: Seq<Scalar>, i: int, j: int)
    requires
        none_negative(s),
        0 <= i <= j <= s.len(),
    ensures
        0 <= plain_sum(s, i) <= plain_sum(s, j),
    decreases j - i,
{
    lemma_plain_sum_positive(s, i);
    if i < j {
        lemma_plain_sum_grows(s, i, j - 1);
        assert(s[j - 1]@ >= 0);
    }
}

/// Where the sum of numbers that are not below zero can be held, adding them in order
/// never clamps.
proof fn lemma_total_is_plain(s: Seq<Scalar>, upto: int)
    requires
        none_negative(s),
        0 <= upto <= s.len(),
        plain_sum(s, s.len() as int) <= i64::MAX,
    ensures
        total(s, upto)@ == plain_sum(s, upto),
    decreases upto,
{
    if upto > 0 {
        lemma_total_is_plain(s, upto - 1);
        lemma_plain_sum_grows(s, upto, s.len() as int);
        lemma_plain_sum_grows(s, 0, upto);
    }
}

/// The first `upto` shares of a sum add up to no more than the part of one that their
/// numbers make of the sum, and to less than one millionth per share below that.
proof fn lemma_shares_upto(s: Seq<Scalar>, upto: int)
    requires
        none_negative(s),
        0 <= upto <= s.len(),
        0 < plain_sum(s, s.len() as int) <= i64::MAX,
    ensures
        0 <= plain_sum(normalized(s), upto) <= UNIT,
        plain_sum(s, s.len() as int) * plain_sum(normalized(s), upto) <= plain_sum(s, upto) * UNIT,
        plain_sum(s, upto) * UNIT < plain_sum(s, s.len() as int) * (plain_sum(normalized(s), upto) + upto)
            || upto == 0,
        none_negative(normalized(s).take(upto)),
    decreases upto,
{
    let all = plain_sum(s, s.len() as int);
    let unit = UNIT as int;
    lemma_total_is_plain(s, s.len() as int);
    if upto > 0 {
        lemma_shares_upto(s, upto - 1);
        lemma_plain_sum_grows(s, upto, s.len() as int);
        lemma_plain_sum_grows(s, 0, upto - 1);
        let x = s[upto - 1]@;
        assert(x >= 0);
        let share = (x * unit) / all;
        let before = plain_sum(normalized(s), upto - 1);
        let part = plain_sum(s, upto - 1);
        assert(0 <= x * unit && share * all <= x * unit < (share + 1) * all && 0 <= share) by (nonlinear_arith)
            requires
                x >= 0,
                unit > 0,
                all > 0,
                share == (x * unit) / all,
        ;
        assert(share <= unit) by (nonlinear_arith)
            requires
                share * all <= x * unit,
                0 <= x <= all,
                all > 0,
                unit > 0,
                0 <= share,
        ;
        assert(normalized(s)[upto - 1]@ == share);
        assert(all * (before + share) <= (part + x) * unit) by (nonlinear_arith)
            requires
                all * before <= part * unit,
                share * all <= x * unit,
        ;
        assert((part + x) * unit < all * (before + share + upto)) by (nonlinear_arith)
            requires
                part * unit < all * (before + (upto - 1)) || (upto == 1 && part == 0 && before == 0),
                x * unit < (share + 1) * all,
        ;
        assert(before + share <= unit) by (nonlinear_arith)
            requires
                all * (before + share) <= (part + x) * unit,
                part + x <= all,
                all > 0,
                unit > 0,
        ;
        assert forall|i: int| 0 <= i < upto implies (#[trigger] normalized(s).take(upto)[i])@ >= 0 by {
            if i < upto - 1 {
                assert(normalized(s).take(upto - 1)[i]@ >= 0);
            }
        }
    }
}

/// The shares of numbers that are not below zero, and whose sum is above zero and can be
/// held, add up to one, less at most a millionth per share.
pub proof fn law_shares_sum_to_one(s: Seq<Scalar>)
    requires
        none_negative(s),
        0 < plain_sum(s, s.len() as int) <= i64::MAX,
    ensures
        UNIT - s.len() < total(normalized(s), s.len() as int)@ <= UNIT,
{
    let n = s.len() as int;
    lemma_shares_upto(s, n);
    let all = plain_sum(s, n);
    let shares = plain_sum(normalized(s), n);
    assert(normalized(s).take(n) =~= normalized(s));
    assert(shares <= i64::MAX);
    lemma_total_is_plain(normalized(s), n);
    assert(n > 0);
    assert((UNIT as int) < shares + n) by (nonlinear_arith)
        requires
            all * (UNIT as int) < all * (shares + n),
            all > 0,
    ;
}

/// What a grid remembers after its children took the zones `drawn` of the cells `cells`.
pub open spec fn grid_settled(memory: GridMemory, cells: Seq<DrawZone>, drawn: Seq<DrawZone>) -> GridMemory {
    let credit = grid_credit(memory, cells, drawn, cells.len() as int);
    GridMemory {
        geometry_data: memory.geometry_data,
        dims: memory.dims,
        rows_sizes: normalized(credit.1),
        columns_sizes: normalized(credit.0),
        spacing: memory.spacing,
    }
}

/// Whether every number is a share: not below zero and not above one.
pub open spec fn all_shares(s: Seq<Scalar>) -> bool {
    forall|i: int| 0 <= i < s.len() ==> 0 <= (#[trigger] s[i])@ <= UNIT
}

/// Whether the zones `cells` that a grid offered and the zones `drawn` that its children
/// took of them are such as a grid that remembers `memory` settles: as many of the one as
/// of the other, no more than the grid has cells, with aspects that are not below zero; and
/// what the grid remembers for its columns and rows are shares.
pub open spec fn grid_frame(memory: GridMemory, cells: Seq<DrawZone>, drawn: Seq<DrawZone>) -> bool {
    &&& grid_consistent(memory)
    &&& cells.len() == drawn.len()
    &&& cells.len() <= memory.dims.0 * memory.dims.1
    &&& all_shares(memory.columns_sizes)
    &&& all_shares(memory.rows_sizes)
    &&& forall|k: int| 0 <= k < cells.len() ==> (#[trigger] cells[k]).aspect()@ >= 0
    &&& forall|k: int| 0 <= k < drawn.len() ==> (#[trigger] drawn[k]).aspect()@ >= 0
}

/// A sum changes with one of its numbers by as much as the number changes.
proof fn lemma_plain_sum_update(s: Seq<Scalar>, x: int, v: Scalar, upto: int)
    requires
        0 <= x < s.len(),
        0 <= upto <= s.len(),
    ensures
        plain_sum(s.update(x, v), upto) == if x < upto {
            plain_sum(s, upto) + v@ - s[x]@
        } else {
            plain_sum(s, upto)
        },
    decreases upto,
{
    if upto > 0 {
        lemma_plain_sum_update(s, x, v, upto - 1);
    }
}

/// A share of a share, as large as what was taken is of what was offered, is not above the
/// share.
proof fn lemma_part_of_share(share: int, took: int, offered: int)
    requires
        0 <= share <= UNIT,
        0 <= took <= offered,
    ensures
        0 <= crate::scalar::ratio(crate::scalar::product(share, took), offered) <= share,
{
    let unit = UNIT as int;
    lemma_product_not_negative(share, took);
    let part = crate::scalar::product(share, took);
    lemma_ratio_not_negative(part, offered);
    assert(share * took >= 0) by (nonlinear_arith)
        requires
            share >= 0,
            took >= 0,
    ;
    assert(part <= (share * took) / unit);
    if offered > 0 {
        assert(((share * took) / unit) * unit <= share * took) by (nonlinear_arith)
            requires
                share * took >= 0,
                unit > 0,
        ;
        assert(part * unit <= share * offered) by (nonlinear_arith)
            requires
                part <= (share * took) / unit,
                ((share * took) / unit) * unit <= share * took,
                took <= offered,
                share >= 0,
                unit > 0,
        ;
        assert((part * unit) / offered <= share) by (nonlinear_arith)
            requires
                part * unit <= share * offered,
                offered > 0,
        ;
    } else {
        assert(share * took == 0) by (nonlinear_arith)
            requires
                took == 0,
        ;
    }
}

/// What child `k` surely earns for its column: the share of the column where the child
/// took a zone wider in proportion than its cell.
pub open spec fn column_gain(memory: GridMemory, cells: Seq<DrawZone>, drawn: Seq<DrawZone>, k: int) -> int {
    if drawn[k].aspect()@ > cells[k].aspect()@ {
        memory.columns_sizes[k % (memory.dims.0 as int)]@
    } else {
        0
    }
}

/// What child `k` surely earns for its row: the share of the row where the child took a
/// zone that is not wider in proportion than its cell.
pub open spec fn row_gain(memory: GridMemory, cells: Seq<DrawZone>, drawn: Seq<DrawZone>, k: int) -> int {
    if drawn[k].aspect()@ > cells[k].aspect()@ {
        0
    } else {
        memory.rows_sizes[k / (memory.dims.0 as int)]@
    }
}

/// In such a frame no column and no row earns a credit below zero, and all the credits of
/// the columns, as all those of the rows, come to no more than one for each child. Where
/// that can be held, the credits grow with each child by at least what the child surely
/// earns.
proof fn lemma_credit_not_negative(memory: GridMemory, cells: Seq<DrawZone>, drawn: Seq<DrawZone>, upto: int)
    requires
        grid_frame(memory, cells, drawn),
        0 <= upto <= cells.len(),
    ensures
        grid_credit(memory, cells, drawn, upto).0.len() == memory.dims.0,
        grid_credit(memory, cells, drawn, upto).1.len() == memory.dims.1,
        none_negative(grid_credit(memory, cells, drawn, upto).0),
        none_negative(grid_credit(memory, cells, drawn, upto).1),
        plain_sum(grid_credit(memory, cells, drawn, upto).0, memory.dims.0 as int) <= upto * UNIT,
        plain_sum(grid_credit(memory, cells, drawn, upto).1, memory.dims.1 as int) <= upto * UNIT,
        upto > 0 && cells.len() * UNIT <= i64::MAX ==> plain_sum(
            grid_credit(memory, cells, drawn, upto).0,
            memory.dims.0 as int,
        ) >= plain_sum(grid_credit(memory, cells, drawn, upto - 1).0, memory.dims.0 as int) + column_gain(
            memory,
            cells,
            drawn,
            upto - 1,
        ),
        upto > 0 && cells.len() * UNIT <= i64::MAX ==> plain_sum(
            grid_credit(memory, cells, drawn, upto).1,
            memory.dims.1 as int,
        ) >= plain_sum(grid_credit(memory, cells, drawn, upto - 1).1, memory.dims.1 as int) + row_gain(
            memory,
            cells,
            drawn,
            upto - 1,
        ),
    decreases upto,
{
    if upto > 0 {
        lemma_credit_not_negative(memory, cells, drawn, upto - 1);
        let before = grid_credit(memory, cells, drawn, upto - 1);
        let now = grid_credit(memory, cells, drawn, upto);
        let k = upto - 1;
        let width = memory.dims.0 as int;
        let height = memory.dims.1 as int;
        assert(width > 0 && height > 0) by (nonlinear_arith)
            requires
                0 <= k < width * height,
                width >= 0,
                height >= 0,
        ;
        let x = k % width;
        let y = k / width;
        vstd::arithmetic::div_mod::lemma_fundamental_div_mod(k, width);
        assert(0 <= x < width);
        assert(0 <= y < height) by (nonlinear_arith)
            requires
                k == width * y + x,
                0 <= x < width,
                0 <= k < width * height,
        ;
        let column = memory.columns_sizes[x];
        let row = memory.rows_sizes[y];
        let offered = cells[k].aspect();
        let took = drawn[k].aspect();
        assert(column@ >= 0 && row@ >= 0 && offered@ >= 0 && took@ >= 0);
        assert(before.0[x]@ >= 0 && before.1[y]@ >= 0);
        assert(row.times(offered)@ >= 0) by {
            lemma_product_not_negative(row@, offered@);
        }
        assert(column.times(took)@ >= 0) by {
            lemma_product_not_negative(column@, took@);
        }
        assert(row.times(offered).over(took)@ >= 0) by {
            lemma_ratio_not_negative(row.times(offered)@, took@);
        }
        assert(column.times(took).over(offered)@ >= 0) by {
            lemma_ratio_not_negative(column.times(took)@, offered@);
        }
        assert forall|i: int| 0 <= i < now.0.len() implies (#[trigger] now.0[i])@ >= 0 by {
            if i != x {
                assert(now.0[i] == before.0[i]);
            }
        }
        assert forall|i: int| 0 <= i < now.1.len() implies (#[trigger] now.1[i])@ >= 0 by {
            if i != y {
                assert(now.1[i] == before.1[i]);
            }
        }
        if took@ > offered@ {
            lemma_part_of_share(row@, offered@, took@);
        } else {
            lemma_part_of_share(column@, took@, offered@);
        }
        lemma_plain_sum_update(before.0, x, now.0[x], width);
        lemma_plain_sum_update(before.1, y, now.1[y], height);
        assert(now.0 =~= before.0.update(x, now.0[x]));
        assert(now.1 =~= before.1.update(y, now.1[y]));
        assert(now.0[x]@ <= before.0[x]@ + UNIT);
        assert(now.1[y]@ <= before.1[y]@ + UNIT);
        if cells.len() * UNIT <= i64::MAX {
            lemma_plain_sum_grows(before.0, x + 1, width);
            lemma_plain_sum_positive(before.0, x);
            lemma_plain_sum_grows(before.1, y + 1, height);
            lemma_plain_sum_positive(before.1, y);
            assert(before.0[x]@ <= (upto - 1) * UNIT);
            assert(before.1[y]@ <= (upto - 1) * UNIT);
            assert(upto * UNIT <= cells.len() * UNIT) by (nonlinear_arith)
                requires
                    upto <= cells.len(),
            ;
        }
    } else {
        lemma_plain_sum_zeros(memory.dims.0 as nat, memory.dims.0 as int);
        lemma_plain_sum_zeros(memory.dims.1 as nat, memory.dims.1 as int);
    }
}

/// Zeros add up to zero.
proof fn lemma_plain_sum_zeros(count: nat, upto: int)
    requires
        0 <= upto <= count,
    ensures
        plain_sum(Seq::new(count, |i: int| Scalar::of(0)), upto) == 0,
    decreases upto,
{
    if upto > 0 {
        lemma_plain_sum_zeros(count, upto - 1);
    }
}

/// The product of two numbers that are not below zero is not below zero.
proof fn lemma_product_not_negative(a: int, b: int)
    requires
        a >= 0,
        b >= 0,
    ensures
        crate::scalar::product(a, b) >= 0,
{
    assert(a * b >= 0) by (nonlinear_arith)
        requires
            a >= 0,
            b >= 0,
    ;
    assert((a * b) / (UNIT as int) >= 0);
}

/// The quotient of two numbers that are not below zero is not below zero.
proof fn lemma_ratio_not_negative(a: int, b: int)
    requires
        a >= 0,
        b >= 0,
    ensures
        crate::scalar::ratio(a, b) >= 0,
{
    if b > 0 {
        assert(a * (UNIT as int) >= 0) by (nonlinear_arith)
            requires
                a >= 0,
        ;
        assert((a * (UNIT as int)) / b >= 0) by (nonlinear_arith)
            requires
                a * (UNIT as int) >= 0,
                b > 0,
        ;
    }
}

/// From the child `k` on, the credits of the columns and of the rows come to at least what
/// that child surely earned.
proof fn lemma_credit_keeps(memory: GridMemory, cells: Seq<DrawZone>, drawn: Seq<DrawZone>, k: int, upto: int)
    requires
        grid_frame(memory, cells, drawn),
        cells.len() * UNIT <= i64::MAX,
        0 <= k < upto <= cells.len(),
    ensures
        plain_sum(grid_credit(memory, cells, drawn, upto).0, memory.dims.0 as int) >= column_gain(
            memory,
            cells,
            drawn,
            k,
        ),
        plain_sum(grid_credit(memory, cells, drawn, upto).1, memory.dims.1 as int) >= row_gain(
            memory,
            cells,
            drawn,
            k,
        ),
    decreases upto,
{
    lemma_credit_not_negative(memory, cells, drawn, upto);
    lemma_credit_not_negative(memory, cells, drawn, upto - 1);
    let before = grid_credit(memory, cells, drawn, upto - 1);
    lemma_plain_sum_positive(before.0, before.0.len() as int);
    lemma_plain_sum_positive(before.1, before.1.len() as int);
    if k < upto - 1 {
        lemma_credit_keeps(memory, cells, drawn, k, upto - 1);
        lemma_credit_gain(memory, cells, drawn, upto - 1);
    }
}

/// No child surely earns less than nothing.
proof fn lemma_credit_gain(memory: GridMemory, cells: Seq<DrawZone>, drawn: Seq<DrawZone>, k: int)
    requires
        grid_frame(memory, cells, drawn),
        0 <= k < cells.len(),
    ensures
        column_gain(memory, cells, drawn, k) >= 0,
        row_gain(memory, cells, drawn, k) >= 0,
{
    let width = memory.dims.0 as int;
    let height = memory.dims.1 as int;
    assert(width > 0 && height > 0) by (nonlinear_arith)
        requires
            0 <= k < width * height,
            width >= 0,
            height >= 0,
    ;
    vstd::arithmetic::div_mod::lemma_fundamental_div_mod(k, width);
    assert(0 <= k / width < height) by (nonlinear_arith)
        requires
            k == width * (k / width) + k % width,
            0 <= k % width < width,
            0 <= k < width * height,
    ;
    assert(memory.columns_sizes[k % width]@ >= 0);
    assert(memory.rows_sizes[k / width]@ >= 0);
}

/// In a frame in which one child took a zone wider in proportion than its cell, in a
/// column with a share above zero, and another child took a zone that is not wider, in a
/// row with a share above zero, the credits of the columns and those of the rows add up to
/// more than nothing: the shares of the next frame then add up to one.
pub proof fn law_grid_credit_above_zero(
    memory: GridMemory,
    cells: Seq<DrawZone>,
    drawn: Seq<DrawZone>,
    wide: int,
    high: int,
)
    requires
        grid_frame(memory, cells, drawn),
        cells.len() * UNIT <= i64::MAX,
        0 <= wide < cells.len(),
        drawn[wide].aspect()@ > cells[wide].aspect()@,
        memory.columns_sizes[wide % (memory.dims.0 as int)]@ > 0,
        0 <= high < cells.len(),
        drawn[high].aspect()@ <= cells[high].aspect()@,
        memory.rows_sizes[high / (memory.dims.0 as int)]@ > 0,
    ensures
        0 < plain_sum(grid_credit(memory, cells, drawn, cells.len() as int).0, memory.dims.0 as int),
        0 < plain_sum(grid_credit(memory, cells, drawn, cells.len() as int).1, memory.dims.1 as int),
{
    lemma_credit_keeps(memory, cells, drawn, wide, cells.len() as int);
    lemma_credit_keeps(memory, cells, drawn, high, cells.len() as int);
}

/// After a grid has settled a frame, what it remembers for its columns are shares again
/// that add up to one, less at most a millionth per column, and so for its rows. This holds
/// where the grid remembered shares, the aspects of the zones are not below zero, the
/// children are no more than a number can count in millionths, and the credits that the
/// columns earned in the frame, and those that the rows earned, add up to more than
/// nothing.
pub proof fn law_grid_shares_sum_to_one(memory: GridMemory, cells: Seq<DrawZone>, drawn: Seq<DrawZone>)
    requires
        grid_frame(memory, cells, drawn),
        cells.len() * UNIT <= i64::MAX,
        0 < plain_sum(grid_credit(memory, cells, drawn, cells.len() as int).0, memory.dims.0 as int),
        0 < plain_sum(grid_credit(memory, cells, drawn, cells.len() as int).1, memory.dims.1 as int),
    ensures
        grid_settled(memory, cells, drawn).columns_sizes.len() == memory.dims.0,
        grid_settled(memory, cells, drawn).rows_sizes.len() == memory.dims.1,
        UNIT - memory.dims.0 < total(grid_settled(memory, cells, drawn).columns_sizes, memory.dims.0 as int)@
            <= UNIT,
        UNIT - memory.dims.1 < total(grid_settled(memory, cells, drawn).rows_sizes, memory.dims.1 as int)@ <= UNIT,
        all_shares(grid_settled(memory, cells, drawn).columns_sizes),
        all_shares(grid_settled(memory, cells, drawn).rows_sizes),
{
    let credit = grid_credit(memory, cells, drawn, cells.len() as int);
    lemma_credit_not_negative(memory, cells, drawn, cells.len() as int);
    law_shares_sum_to_one(credit.0);
    law_shares_sum_to_one(credit.1);
    lemma_plain_sum_positive(credit.0, credit.0.len() as int);
    lemma_plain_sum_positive(credit.1, credit.1.len() as int);
    lemma_total_is_plain(credit.0, credit.0.len() as int);
    lemma_total_is_plain(credit.1, credit.1.len() as int);
    assert forall|i: int| 0 <= i < credit.0.len() implies 0 <= (#[trigger] normalized(credit.0)[i])@ <= UNIT by {
        lemma_share_of_sum(credit.0, i);
    }
    assert forall|i: int| 0 <= i < credit.1.len() implies 0 <= (#[trigger] normalized(credit.1)[i])@ <= UNIT by {
        lemma_share_of_sum(credit.1, i);
    }
}

/// One of several numbers that are not below zero, divided by their sum, is a share.
proof fn lemma_share_of_sum(s: Seq<Scalar>, i: int)
    requires
        none_negative(s),
        0 <= i < s.len(),
        0 < plain_sum(s, s.len() as int) <= i64::MAX,
    ensures
        0 <= normalized(s)[i]@ <= UNIT,
{
    let all = plain_sum(s, s.len() as int);
    let unit = UNIT as int;
    lemma_total_is_plain(s, s.len() as int);
    lemma_plain_sum_grows(s, i + 1, s.len() as int);
    lemma_plain_sum_positive(s, i);
    assert(s[i]@ <= all);
    lemma_ratio_not_negative(s[i]@, all);
    assert(s[i]@ * unit <= all * unit) by (nonlinear_arith)
        requires
            s[i]@ <= all,
            unit > 0,
    ;
    assert((s[i]@ * unit) / all <= unit) by (nonlinear_arith)
        requires
            s[i]@ * unit <= all * unit,
            all > 0,
    ;
}

/// A vector of `count` times `value`.
fn filled(value: Scalar, count: usize) -> (r: Vec<Scalar>)
    ensures
        r@ == Seq::new(count as nat, |i: int| value),
{
    let mut out: Vec<Scalar> = Vec::new();
    let mut i: usize = 0;
    while i < count
        invariant
            i <= count,
            out@ == Seq::new(i as nat, |k: int| value),
        decreases count - i,
    {
        out.push(value);
        i = i + 1;
        assert(out@ =~= Seq::new(i as nat, |k: int| value));
    }
    out
}

/// The sum of the numbers of `values`, added in order.
fn sum_of(values: &Vec<Scalar>) -> (r: Scalar)
    ensures
        r == total(values@, values@.len() as int),
{
    let mut sum = Scalar::zero();
    let mut i: usize = 0;
    while i < values.len()
        invariant
            i <= values.len(),
            sum == total(values@, i as int),
        decreases values.len() - i,
    {
        sum = sum.plus(values[i]);
        i = i + 1;
    }
    sum
}

/// The numbers of `values`, each divided by their sum.
fn normalize(values: &Vec<Scalar>) -> (r: Vec<Scalar>)
    ensures
        r@ == normalized(values@),
{
    let sum = sum_of(values);
    let mut out: Vec<Scalar> = Vec::new();
    let mut i: usize = 0;
    while i < values.len()
        invariant
            i <= values.len(),
            sum == total(values@, values@.len() as int),
            out@.len() == i,
            forall|k: int| 0 <= k < i ==> out@[k] == normalized(values@)[k],
        decreases values.len() - i,
    {
        out.push(values[i].over(sum));
        i = i + 1;
    }
    assert(out@ =~= normalized(values@));
    out
}

impl Component for Grid {
    type Public = GridData;

    type Internal = GridInternalData;

    fn max_children(&self) -> (r: Option<u32>)
        ensures
            r == None::<u32>,
    {
        None
    }

    fn get_name(&self) -> (r: &'static str)
        ensures
            r@ == "Grid"@,
    {
        "Grid"
    }

    fn get_default_data(&self) -> (r: Option<GridData>)
        ensures
            r == Some(
                GridData {
                    spacing: Scalar::of(900_000),
                    dimensions: GridDimensions::Auto,
                    layout_strategy: GridLayoutStrategy::MinimizeWastedSpace,
                },
            ),
    {
        Some(
            GridData {
                spacing: Scalar::new(900_000),
                dimensions: GridDimensions::Auto,
                layout_strategy: GridLayoutStrategy::MinimizeWastedSpace,
            },
        )
    }

    open spec fn after_event(
        &self,
        drawn_location: DrawZone,
        event: Event,
        internal_data: GridInternalData,
        public_data: GridData,
    ) -> (GridInternalData, GridData) {
        (internal_data, public_data)
    }

    /// Takes no notice of the event.
    fn handle_event(
        &self,
        drawn_location: &DrawZone,
        event: &Event,
        internal_data: &mut GridInternalData,
        public_data: &mut GridData,
    ) {
    }
}

impl Grid {
    pub fn init_instance(&self, data: &GridData) -> (r: GridInternalData)
        ensures
            r@ == (GridMemory {
                geometry_data: Seq::empty(),
                dims: (0usize, 0usize),
                rows_sizes: Seq::empty(),
                columns_sizes: Seq::empty(),
                spacing: Scalar::of(900_000),
            }),
    {
        GridInternalData {
            geometry_data: Vec::new(),
            dims: (0, 0),
            columns_sizes: Vec::new(),
            rows_sizes: Vec::new(),
            spacing: Scalar::new(900_000),
        }
    }

    /// The number of columns and of rows for `children` children: the fixed ones, or else
    /// the square root of the number of children, rounded up, for both.
    pub fn dimensions(&self, data: &GridData, children: usize) -> (r: (usize, usize))
        ensures
            match data.dimensions {
                GridDimensions::Fixed(dims) => r == dims,
                GridDimensions::Auto => r.0 == r.1 && crate::scalar::is_ceil_root(children as int, r.0 as int),
            },
    {
        match data.dimensions {
            GridDimensions::Fixed((w, h)) => (w, h),
            GridDimensions::Auto => {
                let side = crate::scalar::ceil_root(children);
                (side, side)
            },
        }
    }

    /// The first step of drawing: the zones offered to the children, before spacing, for a
    /// grid of `dims` columns and rows.
    ///
    /// Where the grid last drew with other dimensions, it forgets its shares and gives each
    /// column and each row an even one. Children beyond the last cell get no zone.
    pub fn draw(&self, zone: DrawZone, children: usize, dims: (usize, usize), internal_data: &mut GridInternalData) -> (r:
        Vec<DrawZone>)
        ensures
            final(internal_data)@ == grid_recalled(old(internal_data)@, dims),
            r@.len() == grid_count(dims, children),
            forall|k: int| 0 <= k < r@.len() ==> r@[k] == grid_cell(zone, final(internal_data)@, k),
    {
        if !(internal_data.dims.0 == dims.0 && internal_data.dims.1 == dims.1
            && internal_data.columns_sizes.len() == dims.0 && internal_data.rows_sizes.len() == dims.1) {
            internal_data.dims = dims;
            internal_data.geometry_data = Vec::new();
            internal_data.columns_sizes = filled(Scalar::one().over(Scalar::from_count(dims.0)), dims.0);
            internal_data.rows_sizes = filled(Scalar::one().over(Scalar::from_count(dims.1)), dims.1);
            assert(internal_data@ =~= grid_recalled(old(internal_data)@, dims));
        }
        let width: usize = dims.0;
        let height: usize = dims.1;
        let mut cells: Vec<DrawZone> = Vec::new();
        if width == 0 || height == 0 {
            assert(width * height == 0) by (nonlinear_arith)
                requires
                    width == 0 || height == 0,
            ;
            return cells;
        }
        let low = zone.bottom_left();
        let mut cursor_x = low.x;
        let mut cursor_y = low.y;
        let mut k: usize = 0;
        let mut x: usize = 0;
        let mut y: usize = 0;
        while k < children && y < height
            invariant
                internal_data@ == grid_recalled(old(internal_data)@, dims),
                grid_consistent(internal_data@),
                internal_data.dims == dims,
                width == dims.0,
                height == dims.1,
                width > 0,
                low == zone.bottom_left(),
                k <= children,
                x < width,
                y <= height,
                k == y * width + x,
                y == height ==> x == 0,
                cursor_x == grid_offset(internal_data@.columns_sizes, zone.size.x, low.x, x as int),
                cursor_y == grid_offset(internal_data@.rows_sizes, zone.size.y, low.y, y as int),
                cells@.len() == k,
                forall|j: int| 0 <= j < k ==> cells@[j] == grid_cell(zone, internal_data@, j),
            decreases children - k,
        {
            let cell_width = internal_data.columns_sizes[x].times(zone.size.x);
            let cell_height = internal_data.rows_sizes[y].times(zone.size.y);
            let cell = DrawZone::from_rect(
                Vec2 { x: cursor_x, y: cursor_y },
                Vec2 { x: cursor_x.plus(cell_width), y: cursor_y.plus(cell_height) },
            );
            proof {
                vstd::arithmetic::div_mod::lemma_fundamental_div_mod_converse(
                    k as int,
                    width as int,
                    y as int,
                    x as int,
                );
            }
            cells.push(cell);
            k = k + 1;
            x = x + 1;
            cursor_x = cursor_x.plus(cell_width);
            if x == width {
                assert((y + 1) * width == y * width + width) by (nonlinear_arith);
                x = 0;
                y = y + 1;
                cursor_x = low.x;
                cursor_y = cursor_y.plus(cell_height);
            }
        }
        proof {
            if y == height {
                assert(k == width * height) by (nonlinear_arith)
                    requires
                        k == y * width + x,
                        x == 0,
                        y == height,
                ;
            } else {
                assert(k < width * height) by (nonlinear_arith)
                    requires
                        k == y * width + x,
                        x < width,
                        y < height,
                ;
            }
        }
        cells
    }

    /// The second step of drawing: from the zones `drawn` that the children took of the
    /// cells `cells`, the grid works out the shares of its columns and rows anew.
    pub fn settle(&self, cells: &Vec<DrawZone>, drawn: &Vec<DrawZone>, internal_data: &mut GridInternalData)
        requires
            grid_consistent(old(internal_data)@),
            cells@.len() == drawn@.len(),
            cells@.len() <= old(internal_data).dims.0 * old(internal_data).dims.1,
        ensures
            final(internal_data)@ == grid_settled(old(internal_data)@, cells@, drawn@),
    {
        let width: usize = internal_data.dims.0;
        let height: usize = internal_data.dims.1;
        let mut new_columns = filled(Scalar::zero(), width);
        let mut new_rows = filled(Scalar::zero(), height);
        let mut k: usize = 0;
        let mut x: usize = 0;
        let mut y: usize = 0;
        assert(width == 0 || height == 0 ==> width * height == 0) by (nonlinear_arith);
        while k < cells.len()
            invariant
                internal_data@ == old(internal_data)@,
                grid_consistent(internal_data@),
                width == internal_data.dims.0,
                height == internal_data.dims.1,
                cells@.len() == drawn@.len(),
                cells@.len() <= width * height,
                k <= cells@.len(),
                k < cells@.len() ==> x < width && y < height,
                k == y * width + x,
                new_columns@.len() == width,
                new_rows@.len() == height,
                (new_columns@, new_rows@) == grid_credit(internal_data@, cells@, drawn@, k as int),
            decreases cells.len() - k,
        {
            proof {
                vstd::arithmetic::div_mod::lemma_fundamental_div_mod_converse(
                    k as int,
                    width as int,
                    y as int,
                    x as int,
                );
            }
            let cell_aspect = cells[k].aspect();
            let drawn_aspect = drawn[k].aspect();
            let column_share = internal_data.columns_sizes[x];
            let row_share = internal_data.rows_sizes[y];
            if cell_aspect.lt(drawn_aspect) {
                let row_credit = new_rows[y].plus(row_share.times(cell_aspect).over(drawn_aspect));
                let column_credit = new_columns[x].plus(column_share);
                new_rows.set(y, row_credit);
                new_columns.set(x, column_credit);
            } else {
                let column_credit = new_columns[x].plus(column_share.times(drawn_aspect).over(cell_aspect));
                let row_credit = new_rows[y].plus(row_share);
                new_columns.set(x, column_credit);
                new_rows.set(y, row_credit);
            }
            k = k + 1;
            x = x + 1;
            if x == width {
                assert((y + 1) * width == y * width + width) by (nonlinear_arith);
                x = 0;
                y = y + 1;
            }
            proof {
                if k < cells@.len() && y >= height {
                    assert(k >= width * height) by (nonlinear_arith)
                        requires
                            k == y * width + x,
                            y >= height,
                            width >= 0,
                            x >= 0,
                    ;
                }
            }
        }
        internal_data.columns_sizes = normalize(&new_columns);
        internal_data.rows_sizes = normalize(&new_rows);
    }
}

// =========================== AS STRUCTURED VALUES ===========================

/// What a spacer is told by a value: an object with the member `spacing`.
pub open spec fn spacer_from(json: JsonView) -> Option<SpacerInstance> {
    match scalar_in(member(json, "spacing"@)) {
        Some(spacing) => Some(SpacerInstance { spacing }),
        None => None,
    }
}

/// The value that holds what a spacer is told.
pub open spec fn spacer_json(data: SpacerInstance) -> JsonView {
    JsonView::Object(seq![("spacing"@, JsonView::Number(decimal_text(data.spacing@)))])
}

impl SpacerInstance {
    /// What a spacer is told by a value.
    pub fn from_json(json: &Json) -> (r: Option<SpacerInstance>)
        ensures
            r == spacer_from(json@),
    {
        match json.field_scalar("spacing") {
            Some(spacing) => Some(SpacerInstance { spacing }),
            None => None,
        }
    }

    /// The value that holds what the spacer is told.
    pub fn to_json(&self) -> (r: Json)
        ensures
            r@ == spacer_json(*self),
    {
        let r = Json::object(one_member("spacing", Json::number(self.spacing)));
        assert(r@->Object_0 =~= spacer_json(*self)->Object_0);
        r
    }
}

/// The direction that a text names.
pub open spec fn direction_named(t: Option<Seq<char>>) -> Option<SplitDirection> {
    match t {
        Some(name) => if name == "Horizontal"@ {
            Some(SplitDirection::Horizontal)
        } else if name == "Vertical"@ {
            Some(SplitDirection::Vertical)
        } else {
            None
        },
        None => None,
    }
}

/// The mode that a text names.
pub open spec fn mode_named(t: Option<Seq<char>>) -> Option<SplitMode> {
    match t {
        Some(name) => if name == "EqualArea"@ {
            Some(SplitMode::EqualArea)
        } else if name == "EqualSide"@ {
            Some(SplitMode::EqualSide)
        } else {
            None
        },
        None => None,
    }
}

/// The name of a direction.
pub open spec fn direction_name(d: SplitDirection) -> Seq<char> {
    match d {
        SplitDirection::Horizontal => "Horizontal"@,
        SplitDirection::Vertical => "Vertical"@,
    }
}

/// The name of a mode.
pub open spec fn mode_name(m: SplitMode) -> Seq<char> {
    match m {
        SplitMode::EqualArea => "EqualArea"@,
        SplitMode::EqualSide => "EqualSide"@,
    }
}

/// What a split is told by a value: an object with all three members.
pub open spec fn split_from(json: JsonView) -> Option<SplitInstance> {
    match (
        scalar_in(member(json, "spacing"@)),
        direction_named(text_in(member(json, "direction"@))),
        mode_named(text_in(member(json, "mode"@))),
    ) {
        (Some(spacing), Some(direction), Some(mode)) => Some(SplitInstance { spacing, direction, mode }),
        _ => None,
    }
}

/// The value that holds what a split is told.
pub open spec fn split_json(data: SplitInstance) -> JsonView {
    JsonView::Object(
        seq![
            ("spacing"@, JsonView::Number(decimal_text(data.spacing@))),
            ("direction"@, JsonView::Text(direction_name(data.direction))),
            ("mode"@, JsonView::Text(mode_name(data.mode))),
        ],
    )
}

/// The direction that a text names.
fn direction_of(name: Option<&str>) -> (r: Option<SplitDirection>)
    ensures
        r == direction_named(
            match name {
                Some(t) => Some(t@),
                None => None,
            },
        ),
{
    match name {
        Some(t) => {
            if same_text(t, "Horizontal") {
                Some(SplitDirection::Horizontal)
            } else if same_text(t, "Vertical") {
                Some(SplitDirection::Vertical)
            } else {
                None
            }
        },
        None => None,
    }
}

/// The mode that a text names.
fn mode_of(name: Option<&str>) -> (r: Option<SplitMode>)
    ensures
        r == mode_named(
            match name {
                Some(t) => Some(t@),
                None => None,
            },
        ),
{
    match name {
        Some(t) => {
            if same_text(t, "EqualArea") {
                Some(SplitMode::EqualArea)
            } else if same_text(t, "EqualSide") {
                Some(SplitMode::EqualSide)
            } else {
                None
            }
        },
        None => None,
    }
}

impl SplitInstance {
    /// What a split is told by a value.
    pub fn from_json(json: &Json) -> (r: Option<SplitInstance>)
        ensures
            r == split_from(json@),
    {
        match (
            json.field_scalar("spacing"),
            direction_of(json.field_text("direction")),
            mode_of(json.field_text("mode")),
        ) {
            (Some(spacing), Some(direction), Some(mode)) => Some(SplitInstance { spacing, direction, mode }),
            _ => None,
        }
    }

    /// The value that holds what the split is told.
    pub fn to_json(&self) -> (r: Json)
        ensures
            r@ == split_json(*self),
    {
        let mut members = one_member("spacing", Json::number(self.spacing));
        push_member(
            &mut members,
            "direction",
            match self.direction {
                SplitDirection::Horizontal => Json::text("Horizontal"),
                SplitDirection::Vertical => Json::text("Vertical"),
            },
        );
        push_member(
            &mut members,
            "mode",
            match self.mode {
                SplitMode::EqualArea => Json::text("EqualArea"),
                SplitMode::EqualSide => Json::text("EqualSide"),
            },
        );
        let r = Json::object(members);
        assert(r@->Object_0 =~= split_json(*self)->Object_0);
        r
    }
}

/// The model of what a grouping box is told.
pub struct GroupingBoxView {
    pub spacing: Scalar,
    pub title_size: GroupingBoxTitleSize,
    pub title: Seq<char>,
}

impl View for GroupingBoxData {
    type V = GroupingBoxView;

    open spec fn view(&self) -> GroupingBoxView {
        GroupingBoxView { spacing: self.spacing, title_size: self.title_size, title: self.title@ }
    }
}

/// The title size that a value holds: an object whose one member is named after the kind of
/// size and holds the number.
pub open spec fn title_size_in(value: Option<JsonView>) -> Option<GroupingBoxTitleSize> {
    match value {
        Some(json) => match only_member_of(json) {
            Some((name, inner)) => match scalar_in(Some(inner)) {
                Some(height) => if name == "RelativeToHeight"@ {
                    Some(GroupingBoxTitleSize::RelativeToHeight(height))
                } else if name == "Absolute"@ {
                    Some(GroupingBoxTitleSize::Absolute(height))
                } else {
                    None
                },
                None => None,
            },
            None => None,
        },
        None => None,
    }
}

/// The value that holds a title size.
pub open spec fn title_size_json(size: GroupingBoxTitleSize) -> JsonView {
    match size {
        GroupingBoxTitleSize::RelativeToHeight(height) => JsonView::Object(
            seq![("RelativeToHeight"@, JsonView::Number(decimal_text(height@)))],
        ),
        GroupingBoxTitleSize::Absolute(height) => JsonView::Object(
            seq![("Absolute"@, JsonView::Number(decimal_text(height@)))],
        ),
    }
}

/// What a grouping box is told by a value: an object with all three members.
pub open spec fn grouping_box_from(json: JsonView) -> Option<GroupingBoxView> {
    match (
        scalar_in(member(json, "spacing"@)),
        title_size_in(member(json, "title_size"@)),
        text_in(member(json, "title"@)),
    ) {
        (Some(spacing), Some(title_size), Some(title)) => Some(GroupingBoxView { spacing, title_size, title }),
        _ => None,
    }
}

/// The value that holds what a grouping box is told.
pub open spec fn grouping_box_json(data: GroupingBoxView) -> JsonView {
    JsonView::Object(
        seq![
            ("spacing"@, JsonView::Number(decimal_text(data.spacing@))),
            ("title_size"@, title_size_json(data.title_size)),
            ("title"@, JsonView::Text(data.title)),
        ],
    )
}

/// The title size that a value holds.
fn title_size_of(json: Option<&Json>) -> (r: Option<GroupingBoxTitleSize>)
    ensures
        r == title_size_in(
            match json {
                Some(j) => Some(j@),
                None => None,
            },
        ),
{
    match json {
        Some(value) => match value.only_member() {
            Some((name, inner)) => match inner.as_scalar() {
                Some(height) => {
                    if same_text(name, "RelativeToHeight") {
                        Some(GroupingBoxTitleSize::RelativeToHeight(height))
                    } else if same_text(name, "Absolute") {
                        Some(GroupingBoxTitleSize::Absolute(height))
                    } else {
                        None
                    }
                },
                None => None,
            },
            None => None,
        },
        None => None,
    }
}

impl Clone for GroupingBoxData {
    fn clone(&self) -> (r: GroupingBoxData)
        ensures
            r@ == self@,
    {
        GroupingBoxData { spacing: self.spacing, title_size: self.title_size, title: self.title.clone() }
    }
}

impl GroupingBoxData {
    /// What a grouping box is told by a value.
    pub fn from_json(json: &Json) -> (r: Option<GroupingBoxData>)
        ensures
            match r {
                Some(data) => grouping_box_from(json@) == Some(data@),
                None => grouping_box_from(json@) is None,
            },
    {
        match (json.field_scalar("spacing"), title_size_of(json.get("title_size")), json.field_text("title")) {
            (Some(spacing), Some(title_size), Some(title)) => Some(
                GroupingBoxData { spacing, title_size, title: title.to_owned() },
            ),
            _ => None,
        }
    }

    /// The value that holds what the grouping box is told.
    pub fn to_json(&self) -> (r: Json)
        ensures
            r@ == grouping_box_json(self@),
    {
        let size = match self.title_size {
            GroupingBoxTitleSize::RelativeToHeight(height) => {
                let j = Json::object(one_member("RelativeToHeight", Json::number(height)));
                assert(j@->Object_0 =~= title_size_json(self.title_size)->Object_0);
                j
            },
            GroupingBoxTitleSize::Absolute(height) => {
                let j = Json::object(one_member("Absolute", Json::number(height)));
                assert(j@->Object_0 =~= title_size_json(self.title_size)->Object_0);
                j
            },
        };
        let mut members = one_member("spacing", Json::number(self.spacing));
        push_member(&mut members, "title_size", size);
        push_member(&mut members, "title", Json::text(self.title.as_str()));
        let r = Json::object(members);
        assert(r@->Object_0 =~= grouping_box_json(self@)->Object_0);
        r
    }
}

/// The dimensions that a value holds: the text `Auto`, or an object whose one member `Fixed`
/// holds the numbers of columns and rows.
pub open spec fn dimensions_in(value: Option<JsonView>) -> Option<GridDimensions> {
    match value {
        Some(JsonView::Text(name)) => if name == "Auto"@ {
            Some(GridDimensions::Auto)
        } else {
            None
        },
        Some(json) => match only_member_of(json) {
            Some((name, JsonView::Array(sides))) => if name == "Fixed"@ && sides.len() == 2 {
                match (
                    natural_in(Some(sides[0]), usize::MAX as nat),
                    natural_in(Some(sides[1]), usize::MAX as nat),
                ) {
                    (Some(w), Some(h)) => Some(GridDimensions::Fixed((w as usize, h as usize))),
                    _ => None,
                }
            } else {
                None
            },
            _ => None,
        },
        None => None,
    }
}

/// The strategy that a text names.
pub open spec fn strategy_named(t: Option<Seq<char>>) -> Option<GridLayoutStrategy> {
    match t {
        Some(name) => if name == "Static"@ {
            Some(GridLayoutStrategy::Static)
        } else if name == "MinimizeWastedSpace"@ {
            Some(GridLayoutStrategy::MinimizeWastedSpace)
        } else if name == "EqualUsedSpace"@ {
            Some(GridLayoutStrategy::EqualUsedSpace)
        } else {
            None
        },
        None => None,
    }
}

/// The name of a strategy.
pub open spec fn strategy_name(s: GridLayoutStrategy) -> Seq<char> {
    match s {
        GridLayoutStrategy::Static => "Static"@,
        GridLayoutStrategy::MinimizeWastedSpace => "MinimizeWastedSpace"@,
        GridLayoutStrategy::EqualUsedSpace => "EqualUsedSpace"@,
    }
}

/// The value that holds dimensions.
pub open spec fn dimensions_json(d: GridDimensions) -> JsonView {
    match d {
        GridDimensions::Auto => JsonView::Text("Auto"@),
        GridDimensions::Fixed(sides) => JsonView::Object(
            seq![
                (
                    "Fixed"@,
                    JsonView::Array(
                        seq![
                            JsonView::Number(natural_digits(sides.0 as nat)),
                            JsonView::Number(natural_digits(sides.1 as nat)),
                        ],
                    ),
                ),
            ],
        ),
    }
}

/// What a grid is told by a value: an object with all three members.
pub open spec fn grid_from(json: JsonView) -> Option<GridData> {
    match (
        scalar_in(member(json, "spacing"@)),
        dimensions_in(member(json, "dimensions"@)),
        strategy_named(text_in(member(json, "layout_strategy"@))),
    ) {
        (Some(spacing), Some(dimensions), Some(layout_strategy)) => Some(
            GridData { spacing, dimensions, layout_strategy },
        ),
        _ => None,
    }
}

/// The value that holds what a grid is told.
pub open spec fn grid_json(data: GridData) -> JsonView {
    JsonView::Object(
        seq![
            ("spacing"@, JsonView::Number(decimal_text(data.spacing@))),
            ("dimensions"@, dimensions_json(data.dimensions)),
            ("layout_strategy"@, JsonView::Text(strategy_name(data.layout_strategy))),
        ],
    )
}

/// The dimensions that a value holds.
fn dimensions_of(json: Option<&Json>) -> (r: Option<GridDimensions>)
    ensures
        r == dimensions_in(
            match json {
                Some(j) => Some(j@),
                None => None,
            },
        ),
{
    match json {
        Some(value) => match value.as_str() {
            Some(name) => {
                if same_text(name, "Auto") {
                    Some(GridDimensions::Auto)
                } else {
                    None
                }
            },
            None => match value.only_member() {
                Some((name, inner)) => match inner.as_array() {
                    Some(sides) => {
                        if same_text(name, "Fixed") && sides.len() == 2 {
                            match (sides[0].as_natural(usize::MAX as u64), sides[1].as_natural(usize::MAX as u64)) {
                                (Some(w), Some(h)) => Some(GridDimensions::Fixed((w as usize, h as usize))),
                                _ => None,
                            }
                        } else {
                            None
                        }
                    },
                    None => None,
                },
                None => None,
            },
        },
        None => None,
    }
}

/// The strategy that a text names.
fn strategy_of(name: Option<&str>) -> (r: Option<GridLayoutStrategy>)
    ensures
        r == strategy_named(
            match name {
                Some(t) => Some(t@),
                None => None,
            },
        ),
{
    match name {
        Some(t) => {
            if same_text(t, "Static") {
                Some(GridLayoutStrategy::Static)
            } else if same_text(t, "MinimizeWastedSpace") {
                Some(GridLayoutStrategy::MinimizeWastedSpace)
            } else if same_text(t, "EqualUsedSpace") {
                Some(GridLayoutStrategy::EqualUsedSpace)
            } else {
                None
            }
        },
        None => None,
    }
}

impl GridData {
    /// What a grid is told by a value.
    pub fn from_json(json: &Json) -> (r: Option<GridData>)
        ensures
            r == grid_from(json@),
    {
        match (
            json.field_scalar("spacing"),
            dimensions_of(json.get("dimensions")),
            strategy_of(json.field_text("layout_strategy")),
        ) {
            (Some(spacing), Some(dimensions), Some(layout_strategy)) => Some(
                GridData { spacing, dimensions, layout_strategy },
            ),
            _ => None,
        }
    }

    /// The value that holds what the grid is told.
    pub fn to_json(&self) -> (r: Json)
        ensures
            r@ == grid_json(*self),
    {
        let dimensions = match self.dimensions {
            GridDimensions::Auto => Json::text("Auto"),
            GridDimensions::Fixed((w, h)) => {
                let mut sides: Vec<Json> = Vec::new();
                sides.push(Json::natural(w as u64));
                sides.push(Json::natural(h as u64));
                let pair = Json::array(sides);
                assert(pair@->Array_0 =~= seq![
                    JsonView::Number(natural_digits(w as nat)),
                    JsonView::Number(natural_digits(h as nat)),
                ]);
                let j = Json::object(one_member("Fixed", pair));
                assert(j@->Object_0 =~= dimensions_json(self.dimensions)->Object_0);
                j
            },
        };
        let mut members = one_member("spacing", Json::number(self.spacing));
        push_member(&mut members, "dimensions", dimensions);
        push_member(
            &mut members,
            "layout_strategy",
            match self.layout_strategy {
                GridLayoutStrategy::Static => Json::text("Static"),
                GridLayoutStrategy::MinimizeWastedSpace => Json::text("MinimizeWastedSpace"),
                GridLayoutStrategy::EqualUsedSpace => Json::text("EqualUsedSpace"),
            },
        );
        let r = Json::object(members);
        assert(r@->Object_0 =~= grid_json(*self)->Object_0);
        r
    }
}

// =========================== WRITTEN AND READ BACK ===========================

/// What a spacer is told, written as a value, is read back as it was.
pub proof fn law_spacer_reads_back(data: SpacerInstance)
    ensures
        spacer_from(spacer_json(data)) == Some(data),
{
    let members = spacer_json(data)->Object_0;
    lemma_member_at(members, "spacing"@, 0);
    law_number_reads_back(data.spacing);
}

/// What a split is told, written as a value, is read back as it was.
pub proof fn law_split_reads_back(data: SplitInstance)
    ensures
        split_from(split_json(data)) == Some(data),
{
    reveal_strlit("spacing");
    assert("spacing"@.len() == 7);
    reveal_strlit("direction");
    assert("direction"@.len() == 9);
    reveal_strlit("mode");
    assert("mode"@.len() == 4);
    reveal_strlit("Horizontal");
    assert("Horizontal"@.len() == 10);
    reveal_strlit("Vertical");
    assert("Vertical"@.len() == 8);
    reveal_strlit("EqualArea");
    assert("EqualArea"@.len() == 9);
    reveal_strlit("EqualSide");
    assert("EqualSide"@.len() == 9);
    let members = split_json(data)->Object_0;
    lemma_member_at(members, "spacing"@, 0);
    lemma_member_at(members, "direction"@, 1);
    lemma_member_at(members, "mode"@, 2);
    law_number_reads_back(data.spacing);
    assert("EqualArea"@[5] != "EqualSide"@[5]);
}

/// What a grouping box is told, written as a value, is read back as it was.
pub proof fn law_grouping_box_reads_back(data: GroupingBoxView)
    ensures
        grouping_box_from(grouping_box_json(data)) == Some(data),
{
    reveal_strlit("spacing");
    assert("spacing"@.len() == 7);
    reveal_strlit("title_size");
    assert("title_size"@.len() == 10);
    reveal_strlit("title");
    assert("title"@.len() == 5);
    reveal_strlit("RelativeToHeight");
    assert("RelativeToHeight"@.len() == 16);
    reveal_strlit("Absolute");
    assert("Absolute"@.len() == 8);
    let members = grouping_box_json(data)->Object_0;
    lemma_member_at(members, "spacing"@, 0);
    lemma_member_at(members, "title_size"@, 1);
    lemma_member_at(members, "title"@, 2);
    law_number_reads_back(data.spacing);
    match data.title_size {
        GroupingBoxTitleSize::RelativeToHeight(height) => {
            law_number_reads_back(height);
        },
        GroupingBoxTitleSize::Absolute(height) => {
            law_number_reads_back(height);
        },
    }
}

/// What a grid is told, written as a value, is read back as it was.
pub proof fn law_grid_reads_back(data: GridData)
    ensures
        grid_from(grid_json(data)) == Some(data),
{
    reveal_strlit("spacing");
    assert("spacing"@.len() == 7);
    reveal_strlit("dimensions");
    assert("dimensions"@.len() == 10);
    reveal_strlit("layout_strategy");
    assert("layout_strategy"@.len() == 15);
    reveal_strlit("Auto");
    assert("Auto"@.len() == 4);
    reveal_strlit("Fixed");
    assert("Fixed"@.len() == 5);
    reveal_strlit("Static");
    assert("Static"@.len() == 6);
    reveal_strlit("MinimizeWastedSpace");
    assert("MinimizeWastedSpace"@.len() == 19);
    reveal_strlit("EqualUsedSpace");
    assert("EqualUsedSpace"@.len() == 14);
    let members = grid_json(data)->Object_0;
    lemma_member_at(members, "spacing"@, 0);
    lemma_member_at(members, "dimensions"@, 1);
    lemma_member_at(members, "layout_strategy"@, 2);
    law_number_reads_back(data.spacing);
    match data.dimensions {
        GridDimensions::Auto => {},
        GridDimensions::Fixed(sides) => {
            law_natural_reads_back(sides.0 as nat, usize::MAX as nat);
            law_natural_reads_back(sides.1 as nat, usize::MAX as nat);
        },
    }
}

// =========================== UTILS ===========================

/// Registers the layout components: split, spacer, grouping box and grid.
pub fn components(manager: &mut Manager)
    ensures
        final(manager)@ == old(manager)@.insert(ComponentType::Split).insert(ComponentType::Spacer).insert(
            ComponentType::GroupingBox,
        ).insert(ComponentType::Grid),
{
    manager.register_component_type(ComponentType::Split);
    manager.register_component_type(ComponentType::Spacer);
    manager.register_component_type(ComponentType::GroupingBox);
    manager.register_component_type(ComponentType::Grid);
}

} // verus!
