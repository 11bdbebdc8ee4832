//! What a component does with the zone it is given: the zone it takes for itself, the zones
//! it offers to its children, and what it learns from the zones the children took.

use crate::component::{InternalData, InternalView, PublicData, PublicView};
use crate::geometry_components::{
    grid_cell, grid_consistent, grid_count, grid_recalled, grid_settled, grouping_layout, split_cell, split_frame,
    split_recalled, split_settled, Grid, GridData, GridDimensions, GridInternalData, GridMemory, GroupingBox,
    GroupingBoxData, GroupingBoxTitleSize, Spacer, Split, SplitInstance, SplitInternalData, SplitMemory, SplitMode,
};
use crate::scalar::{is_ceil_root, Scalar};
use crate::zone::{constrained, scaled, DrawZone};
use vstd::prelude::*;

verus! {

/// What a component plans for one frame.
#[derive(Debug, PartialEq, Eq)]
pub struct Plan {
    /// The zone in which the component draws itself; empty where it draws nothing itself.
    pub own: DrawZone,
    /// The zone of each child that is drawn, in order.
    pub cells: Vec<DrawZone>,
    /// The factor by which each child's zone is scaled about its centre before it is offered,
    /// and the zone that the child took scaled back; nothing where cells are offered as they
    /// are.
    pub spacing: Option<Scalar>,
}

/// The model of a plan.
pub struct PlanView {
    pub own: DrawZone,
    pub cells: Seq<DrawZone>,
    pub spacing: Option<Scalar>,
}

impl View for Plan {
    type V = PlanView;

    open spec fn view(&self) -> PlanView {
        PlanView { own: self.own, cells: self.cells@, spacing: self.spacing }
    }
}

/// The aspect of a dial.
pub open spec fn dial_aspect() -> Scalar {
    Scalar::of(1_150_000)
}

/// The plan of a component that has no children to draw: it takes the zone `own`.
pub open spec fn alone(own: DrawZone) -> PlanView {
    PlanView { own, cells: Seq::empty(), spacing: None }
}

/// The columns and rows of a grid with `children` children: the fixed ones, or else in both
/// directions the least number whose square is not below the number of children.
pub open spec fn grid_dimensions(data: GridData, children: usize, dims: (usize, usize)) -> bool {
    match data.dimensions {
        GridDimensions::Fixed(fixed) => dims == fixed,
        GridDimensions::Auto => dims.0 == dims.1 && is_ceil_root(children as int, dims.0 as int),
    }
}

/// The columns and rows of a grid with `children` children.
pub open spec fn grid_dims(data: GridData, children: usize) -> (usize, usize) {
    choose|dims: (usize, usize)| grid_dimensions(data, children, dims)
}

/// Whether a component that is told `data` can plan a frame for `children` children: a
/// spacer has its one child, a grouping box has a child, and a split shares by side.
pub open spec fn arrangeable(data: PublicView, children: usize) -> bool {
    match data {
        PublicView::Spacer(_) => children == 1,
        PublicView::GroupingBox(_) => children >= 1,
        PublicView::Split(d) => d.mode == SplitMode::EqualSide,
        _ => true,
    }
}

/// What a split that shares by side plans.
#[verifier::opaque]
pub open spec fn planned_split(d: SplitInstance, m: SplitMemory, zone: DrawZone, children: usize) -> PlanView {
    PlanView {
        own: DrawZone::new_empty(),
        cells: Seq::new(
            children as nat,
            |i: int| split_cell(split_frame(zone, m.primary_aspect), d, split_recalled(m, children), i),
        ),
        spacing: Some(d.spacing),
    }
}

/// What a grid plans.
#[verifier::opaque]
pub open spec fn planned_grid(d: GridData, m: GridMemory, zone: DrawZone, children: usize) -> PlanView {
    PlanView {
        own: DrawZone::new_empty(),
        cells: Seq::new(
            grid_count(grid_dims(d, children), children) as nat,
            |k: int| grid_cell(zone, grid_recalled(m, grid_dims(d, children)), k),
        ),
        spacing: Some(m.spacing),
    }
}

/// What a grid remembers once it has planned.
#[verifier::opaque]
pub open spec fn recalled_grid(d: GridData, m: GridMemory, children: usize) -> GridMemory {
    grid_recalled(m, grid_dims(d, children))
}

/// What a grouping box with a child plans.
#[verifier::opaque]
pub open spec fn planned_box(
    title_size: GroupingBoxTitleSize,
    spacing: Scalar,
    last: Option<Scalar>,
    zone: DrawZone,
    children: usize,
) -> PlanView {
    PlanView {
        own: grouping_layout(zone, last, title_size, spacing).frame,
        cells: seq![grouping_layout(zone, last, title_size, spacing).child],
        spacing: None,
    }
}

/// What a component remembers once it has planned a frame in `zone` for `children`
/// children. A split that has another number of children than in the last frame forgets its
/// weights; a grid that has other dimensions forgets its shares.
#[verifier::opaque]
pub open spec fn recalled(data: PublicView, memory: InternalView, zone: DrawZone, children: usize) -> InternalView {
    match (data, memory) {
        (PublicView::Split(d), InternalView::Split(m)) => InternalView::Split(split_recalled(m, children)),
        (PublicView::Grid(d), InternalView::Grid(m)) => InternalView::Grid(recalled_grid(d, m, children)),
        _ => memory,
    }
}

/// What a component plans for a frame in `zone` with `children` children, where it can
/// plan one.
///
/// A dial takes the largest zone of its aspect. A text field takes the largest zone of the
/// aspect of its text, once that was measured. A horizon and a test figure take all of the
/// zone. A spacer offers its child the zone scaled by the spacing. A split offers each
/// child its cell of the frame. A grouping box takes its frame and offers its child the
/// part below the title. A grid offers its children the cells of the zone, row by row.
#[verifier::opaque]
pub open spec fn planned(data: PublicView, memory: InternalView, zone: DrawZone, children: usize) -> PlanView {
    match (data, memory) {
        (PublicView::RotationalIndicator(_), _) => alone(constrained(zone, dial_aspect())),
        (PublicView::TextField(_), InternalView::TextField(Some(aspect))) => alone(constrained(zone, aspect)),
        (PublicView::Spacer(d), _) => PlanView {
            own: DrawZone::new_empty(),
            cells: seq![scaled(zone, d.spacing)],
            spacing: None,
        },
        (PublicView::Split(d), InternalView::Split(m)) => planned_split(d, m, zone, children),
        (PublicView::GroupingBox(d), InternalView::GroupingBox(last)) => planned_box(
            d.title_size,
            d.spacing,
            last,
            zone,
            children,
        ),
        (PublicView::Grid(d), InternalView::Grid(m)) => planned_grid(d, m, zone, children),
        _ => alone(zone),
    }
}

/// What a grid remembers once its children took the zones `results` of the cells `cells`.
#[verifier::opaque]
pub open spec fn settled_grid(m: GridMemory, cells: Seq<DrawZone>, results: Seq<DrawZone>) -> GridMemory {
    if m.dims.0 == 0 || m.dims.1 == 0 {
        m
    } else {
        grid_settled(m, cells, results)
    }
}

/// What a component remembers once the children took the zones `results` of the cells of
/// its plan: a split and a grid correct their weights, a grouping box notes the aspect that
/// its child took.
#[verifier::opaque]
pub open spec fn settled(data: PublicView, memory: InternalView, plan: PlanView, results: Seq<DrawZone>) -> InternalView {
    match (data, memory) {
        (PublicView::Split(d), InternalView::Split(m)) => InternalView::Split(split_settled(d, results)),
        (PublicView::GroupingBox(d), InternalView::GroupingBox(last)) => InternalView::GroupingBox(
            Some(results[0].aspect()),
        ),
        (PublicView::Grid(d), InternalView::Grid(m)) => InternalView::Grid(settled_grid(m, plan.cells, results)),
        _ => memory,
    }
}

/// Whether a component that remembers `memory` can settle the plan `plan`: a grid holds a
/// share for each column and row, and the plan has no more cells than the grid; a grouping
/// box has offered a zone to its child; a split shares by side.
pub open spec fn settles(data: PublicView, memory: InternalView, plan: PlanView) -> bool {
    match (data, memory) {
        (PublicView::Grid(_), InternalView::Grid(m)) => grid_consistent(m) && plan.cells.len() <= m.dims.0
            * m.dims.1,
        (PublicView::GroupingBox(_), InternalView::GroupingBox(_)) => plan.cells.len() >= 1,
        (PublicView::Split(d), InternalView::Split(_)) => d.mode == SplitMode::EqualSide,
        _ => true,
    }
}

/// The columns and rows of a grid are determined by what the grid is told and the number of
/// its children.
pub proof fn lemma_grid_dims(data: GridData, children: usize, dims: (usize, usize))
    requires
        grid_dimensions(data, children, dims),
    ensures
        grid_dims(data, children) == dims,
{
    let other = grid_dims(data, children);
    assert(grid_dimensions(data, children, other));
    match data.dimensions {
        GridDimensions::Fixed(fixed) => {},
        GridDimensions::Auto => {
            crate::scalar::lemma_ceil_root_unique(children as int, dims.0 as int, other.0 as int);
        },
    }
}

/// Plans a frame for a split that shares by side.
fn arrange_split(d: &SplitInstance, m: &mut SplitInternalData, zone: DrawZone, children: usize) -> (r: Plan)
    requires
        d.mode == SplitMode::EqualSide,
    ensures
        final(m)@ == split_recalled(old(m)@, children),
        r@ == planned_split(*d, old(m)@, zone, children),
        r@.cells.len() <= children,
{
    reveal(planned_split);
    let cells = (Split {}).draw(zone, children, m, d);
    assert(cells@ =~= planned_split(*d, old(m)@, zone, children).cells);
    Plan { own: DrawZone::new_empty(), cells, spacing: Some(d.spacing) }
}

/// Plans a frame for a grid.
fn arrange_grid(d: &GridData, m: &mut GridInternalData, zone: DrawZone, children: usize) -> (r: Plan)
    ensures
        final(m)@ == recalled_grid(*d, old(m)@, children),
        r@ == planned_grid(*d, old(m)@, zone, children),
        r@.cells.len() <= children,
        grid_consistent(final(m)@),
        r@.cells.len() <= final(m).dims.0 * final(m).dims.1,
{
    reveal(planned_grid);
    reveal(recalled_grid);
    let dims = (Grid {}).dimensions(d, children);
    proof {
        lemma_grid_dims(*d, children, dims);
    }
    let spacing = m.spacing;
    let cells = (Grid {}).draw(zone, children, dims, m);
    assert(cells@ =~= planned_grid(*d, old(m)@, zone, children).cells);
    Plan { own: DrawZone::new_empty(), cells, spacing: Some(spacing) }
}

/// Plans a frame for a grouping box with a child.
fn arrange_box(d: &GroupingBoxData, last: &Option<Scalar>, zone: DrawZone, children: usize) -> (r: Plan)
    requires
        children >= 1,
    ensures
        r@ == planned_box(d.title_size, d.spacing, *last, zone, children),
        r@.cells.len() == 1,
{
    reveal(planned_box);
    let layout = (GroupingBox {}).draw(zone, last, d);
    let mut cells: Vec<DrawZone> = Vec::new();
    cells.push(layout.child);
    let r = Plan { own: layout.frame, cells, spacing: None };
    assert(r@.cells =~= planned_box(d.title_size, d.spacing, *last, zone, children).cells);
    r
}

/// Whether a component that is told `data` can plan a frame for `children` children.
pub fn can_arrange(data: &PublicData, children: usize) -> (r: bool)
    ensures
        r == arrangeable(data@, children),
{
    match data {
        PublicData::Spacer(_) => children == 1,
        PublicData::GroupingBox(_) => children >= 1,
        PublicData::Split(d) => match d.mode {
            SplitMode::EqualSide => true,
            SplitMode::EqualArea => false,
        },
        _ => true,
    }
}

/// Plans a frame in `zone` for a component with `children` children.
///
/// The component must be able to plan one, which `can_arrange` tells: a spacer without its
/// child, a grouping box without one and a split that is to share by area have no plan.
pub fn arrange(data: &PublicData, internal_data: &mut InternalData, zone: DrawZone, children: usize) -> (r: Plan)
    requires
        arrangeable(data@, children),
    ensures
        final(internal_data)@ == recalled(data@, old(internal_data)@, zone, children),
        r@ == planned(data@, old(internal_data)@, zone, children),
        r@.cells.len() <= children,
        settles(data@, final(internal_data)@, r@),
{
    reveal(planned);
    reveal(recalled);
    match (data, internal_data) {
        (PublicData::RotationalIndicator(_), _) => Plan {
            own: zone.constraint_to_aspect(Scalar::new(1_150_000)),
            cells: Vec::new(),
            spacing: None,
        },
        (PublicData::TextField(_), InternalData::TextField(Some(aspect))) => Plan {
            own: zone.constraint_to_aspect(*aspect),
            cells: Vec::new(),
            spacing: None,
        },
        (PublicData::Spacer(d), _) => {
            let mut cells: Vec<DrawZone> = Vec::new();
            cells.push((Spacer {}).draw(zone, d));
            let r = Plan { own: DrawZone::new_empty(), cells, spacing: None };
            assert(r@.cells =~= planned(data@, old(internal_data)@, zone, children).cells);
            r
        },
        (PublicData::Split(d), InternalData::Split(m)) => arrange_split(d, m, zone, children),
        (PublicData::GroupingBox(d), InternalData::GroupingBox(last)) => arrange_box(d, last, zone, children),
        (PublicData::Grid(d), InternalData::Grid(m)) => arrange_grid(d, m, zone, children),
        _ => Plan { own: zone, cells: Vec::new(), spacing: None },
    }
}

/// Lets a component learn from the zones `results` that its children took.
pub fn settle(data: &PublicData, internal_data: &mut InternalData, plan: &Plan, results: &Vec<DrawZone>)
    requires
        settles(data@, old(internal_data)@, plan@),
        results@.len() == plan@.cells.len(),
    ensures
        final(internal_data)@ == settled(data@, old(internal_data)@, plan@, results@),
{
    reveal(settled);
    match (data, internal_data) {
        (PublicData::Split(d), InternalData::Split(m)) => {
            (Split {}).settle(results, m, d);
        },
        (PublicData::GroupingBox(d), InternalData::GroupingBox(last)) => {
            (GroupingBox {}).settle(&results[0], last);
        },
        (PublicData::Grid(d), InternalData::Grid(m)) => {
            reveal(settled_grid);
            if m.dims.0 == 0 || m.dims.1 == 0 {
            } else {
                (Grid {}).settle(&plan.cells, results, m);
            }
        },
        _ => {},
    }
}

} // verus!
