use gaugen::component::{Component, InternalData, PublicData};
use gaugen::geometry_components::{
    ChildGeometryProperties, Grid, GridData, GridDimensions, GridInternalData, GridLayoutStrategy, GroupingBox,
    GroupingBoxData, GroupingBoxTitleSize, Spacer, SpacerInstance, Split, SplitDirection, SplitInstance,
    SplitInternalData, SplitMode,
};
use gaugen::layout::{arrange, can_arrange, settle};
use gaugen::scalar::Scalar;
use gaugen::zone::{DrawZone, Vec2};

fn whole(n: i32) -> Scalar {
    Scalar::from_int(n)
}

fn zone(x0: i32, y0: i32, x1: i32, y1: i32) -> DrawZone {
    DrawZone::from_rect(Vec2::new(whole(x0), whole(y0)), Vec2::new(whole(x1), whole(y1)))
}

fn split_data(direction: SplitDirection) -> SplitInstance {
    SplitInstance { spacing: Scalar::new(900_000), direction, mode: SplitMode::EqualSide }
}

#[test]
fn spacer_scales_the_zone_of_its_child() {
    let offered = (Spacer {}).draw(zone(0, 0, 100, 50), &SpacerInstance { spacing: Scalar::new(500_000) });
    assert_eq!(offered.m, Vec2::new(whole(50), whole(25)));
    assert_eq!(offered.size, Vec2::new(whole(50), whole(25)));
    assert_eq!((Spacer {}).max_children(), Some(1));
    assert_eq!((Spacer {}).get_name(), "Spacer");
    assert_eq!((Spacer {}).get_default_data(), Some(SpacerInstance { spacing: whole(1) }));
}

#[test]
fn split_shares_its_frame_by_weight() {
    let data = split_data(SplitDirection::Horizontal);
    let mut memory = SplitInternalData {
        aspects: vec![whole(1), whole(3)],
        primary_width: whole(4),
        primary_aspect: whole(4),
    };
    // the zone has the aspect 4 already, so the split takes all of it
    let cells = (Split {}).draw(zone(0, 0, 400, 100), 2, &mut memory, &data);
    assert_eq!(cells.len(), 2);
    assert_eq!(cells[0], zone(0, 0, 100, 100));
    assert_eq!(cells[1], zone(100, 0, 400, 100));
    assert_eq!(memory.aspects, vec![whole(1), whole(3)]);
    assert_eq!(memory.primary_width, whole(4));
}

#[test]
fn split_stacks_its_children_when_vertical() {
    let data = split_data(SplitDirection::Vertical);
    let mut memory = (Split {}).init_instance(&data);
    assert!(memory.aspects.is_empty());
    assert_eq!(memory.primary_width, whole(0));
    assert_eq!(memory.primary_aspect, whole(1));
    // a square zone and children of aspect 1: the split takes all of it
    let cells = (Split {}).draw(zone(0, 0, 100, 100), 4, &mut memory, &data);
    assert_eq!(cells, vec![zone(0, 0, 100, 25), zone(0, 25, 100, 50), zone(0, 50, 100, 75), zone(0, 75, 100, 100)]);
    // the children took squares: along the split each is a quarter as long as it is wide
    let drawn = vec![zone(40, 0, 60, 20), zone(40, 25, 60, 45), zone(40, 50, 60, 70), zone(40, 75, 60, 95)];
    (Split {}).settle(&drawn, &mut memory, &data);
    assert_eq!(memory.aspects, vec![whole(1); 4]);
    assert_eq!(memory.primary_width, whole(4));
    assert_eq!(memory.primary_aspect, Scalar::new(250_000));
}

#[test]
fn split_resets_its_weights_when_the_number_of_children_changes() {
    let data = split_data(SplitDirection::Horizontal);
    let mut memory = (Split {}).init_instance(&data);
    let cells = (Split {}).draw(zone(0, 0, 200, 200), 2, &mut memory, &data);
    assert_eq!(memory.aspects, vec![whole(1), whole(1)]);
    assert_eq!(memory.primary_width, whole(2));
    assert_eq!(cells, vec![zone(0, 0, 100, 200), zone(100, 0, 200, 200)]);
    (Split {}).settle(&vec![zone(0, 0, 100, 200), zone(100, 50, 200, 100)], &mut memory, &data);
    assert_eq!(memory.aspects, vec![Scalar::new(500_000), whole(2)]);
    assert_eq!(memory.primary_width, Scalar::new(2_500_000));
    assert_eq!(memory.primary_aspect, Scalar::new(2_500_000));
    // as many children as before: the weights stay
    let mut same = SplitInternalData {
        aspects: memory.aspects.clone(),
        primary_width: memory.primary_width,
        primary_aspect: memory.primary_aspect,
    };
    (Split {}).draw(zone(0, 0, 200, 200), 2, &mut same, &data);
    assert_eq!(same.aspects, vec![Scalar::new(500_000), whole(2)]);
    assert_eq!(same.primary_width, Scalar::new(2_500_000));
    // another number of children: one each
    (Split {}).draw(zone(0, 0, 200, 200), 3, &mut memory, &data);
    assert_eq!(memory.aspects, vec![whole(1), whole(1), whole(1)]);
    assert_eq!(memory.primary_width, whole(3));
    assert_eq!(memory.primary_aspect, Scalar::new(2_500_000));
    // no children at all
    let cells = (Split {}).draw(zone(0, 0, 200, 200), 0, &mut memory, &data);
    assert!(cells.is_empty());
    assert!(memory.aspects.is_empty());
    assert_eq!(memory.primary_width, whole(0));
}

#[test]
fn split_helpers_pick_the_axis() {
    let h = split_data(SplitDirection::Horizontal);
    let v = split_data(SplitDirection::Vertical);
    let p = Vec2::new(whole(3), whole(4));
    assert_eq!(h.p(&p), whole(3));
    assert_eq!(h.s(&p), whole(4));
    assert_eq!(v.p(&p), whole(4));
    assert_eq!(v.s(&p), whole(3));
    assert_eq!(h.pack(whole(1), whole(2)), Vec2::new(whole(1), whole(2)));
    assert_eq!(v.pack(whole(1), whole(2)), Vec2::new(whole(2), whole(1)));
    assert_eq!(h.aspect_to_primary_to_secondary(whole(4)), whole(4));
    assert_eq!(v.aspect_to_primary_to_secondary(whole(4)), Scalar::new(250_000));
    assert_eq!((Split {}).max_children(), None);
    assert_eq!((Split {}).get_default_data(), Some(split_data(SplitDirection::Horizontal)));
}

#[test]
fn grouping_box_puts_the_title_at_the_low_edge() {
    let data = GroupingBoxData {
        spacing: Scalar::new(900_000),
        title_size: GroupingBoxTitleSize::RelativeToHeight(Scalar::new(200_000)),
        title: "Engine".to_string(),
    };
    let layout = (GroupingBox {}).draw(zone(0, 0, 100, 200), &None, &data);
    assert_eq!(layout.frame, zone(0, 0, 100, 200));
    assert_eq!(layout.title, zone(0, 0, 100, 40));
    assert_eq!(layout.child.m, Vec2::new(whole(50), whole(120)));
    assert_eq!(layout.child.size, Vec2::new(whole(90), whole(144)));
    // once the child has drawn, the box takes the zone of the aspect between its own (1/2)
    // and that of the child (2): 1
    let mut last = (GroupingBox {}).init_instance(&data);
    assert_eq!(last, None);
    (GroupingBox {}).settle(&zone(0, 0, 80, 40), &mut last);
    assert_eq!(last, Some(whole(2)));
    let layout = (GroupingBox {}).draw(zone(0, 0, 100, 200), &last, &data);
    assert_eq!(layout.frame, zone(0, 50, 100, 150));
    assert_eq!(layout.title, zone(0, 50, 100, 70));
    let absolute = GroupingBoxData { title_size: GroupingBoxTitleSize::Absolute(whole(30)), ..data };
    let layout = (GroupingBox {}).draw(zone(0, 0, 100, 200), &None, &absolute);
    assert_eq!(layout.title, zone(0, 0, 100, 30));
    assert_eq!(layout.child.size, Vec2::new(whole(90), whole(153)));
    assert_eq!((GroupingBox {}).max_children(), Some(1));
    assert_eq!((GroupingBox {}).get_default_data().unwrap().title, "GroupingBox");
}

fn grid_data(dimensions: GridDimensions) -> GridData {
    GridData { spacing: Scalar::new(900_000), dimensions, layout_strategy: GridLayoutStrategy::MinimizeWastedSpace }
}

#[test]
fn grid_dimensions_are_the_rounded_up_root() {
    let grid = Grid {};
    let auto = grid_data(GridDimensions::Auto);
    assert_eq!(grid.dimensions(&auto, 5), (3, 3));
    assert_eq!(grid.dimensions(&auto, 0), (0, 0));
    assert_eq!(grid.dimensions(&auto, 1), (1, 1));
    assert_eq!(grid.dimensions(&auto, 4), (2, 2));
    assert_eq!(grid.dimensions(&auto, 9), (3, 3));
    assert_eq!(grid.dimensions(&auto, 10), (4, 4));
    assert_eq!(grid.dimensions(&grid_data(GridDimensions::Fixed((7, 2))), 5), (7, 2));
    for n in 0..500usize {
        let (w, h) = grid.dimensions(&auto, n);
        assert_eq!(w, h);
        assert!(w * w >= n);
        assert!(w == 0 || (w - 1) * (w - 1) < n);
    }
}

#[test]
fn grid_of_five_children_has_four_empty_cells() {
    let grid = Grid {};
    let data = grid_data(GridDimensions::Auto);
    let mut memory = grid.init_instance(&data);
    assert_eq!(memory.dims, (0, 0));
    assert_eq!(memory.spacing, Scalar::new(900_000));
    let dims = grid.dimensions(&data, 5);
    let cells = grid.draw(zone(0, 0, 300, 300), 5, dims, &mut memory);
    assert_eq!(memory.dims, (3, 3));
    assert_eq!(memory.columns_sizes, vec![Scalar::new(333_333); 3]);
    assert_eq!(memory.rows_sizes, vec![Scalar::new(333_333); 3]);
    assert_eq!(cells.len(), 5);
    assert_eq!(3 * 3 - cells.len(), 4);
    let side = Scalar::new(99_999_900);
    let twice = Scalar::new(199_999_800);
    assert_eq!(cells[0], DrawZone::from_rect(Vec2::new(whole(0), whole(0)), Vec2::new(side, side)));
    assert_eq!(cells[2], DrawZone::from_rect(Vec2::new(twice, whole(0)), Vec2::new(Scalar::new(299_999_700), side)));
    assert_eq!(cells[3], DrawZone::from_rect(Vec2::new(whole(0), side), Vec2::new(side, twice)));
    assert_eq!(cells[4], DrawZone::from_rect(Vec2::new(side, side), Vec2::new(twice, twice)));
    // the children took their cells: each column and row is credited with its share once
    // for each child in it, which makes 2, 2 and 1 of 5 for the columns and 3, 2 and 0 of 5
    // for the rows
    let drawn = cells.clone();
    grid.settle(&cells, &drawn, &mut memory);
    assert_eq!(memory.columns_sizes, vec![Scalar::new(400_000), Scalar::new(400_000), Scalar::new(200_000)]);
    assert_eq!(memory.rows_sizes, vec![Scalar::new(600_000), Scalar::new(400_000), Scalar::new(0)]);
    assert_eq!(memory.dims, (3, 3));
}

#[test]
fn grid_learns_from_children_that_waste_space() {
    let grid = Grid {};
    let mut memory = GridInternalData {
        geometry_data: vec![],
        dims: (2, 1),
        rows_sizes: vec![whole(1)],
        columns_sizes: vec![Scalar::new(500_000), Scalar::new(500_000)],
        spacing: Scalar::new(900_000),
    };
    let cells = grid.draw(zone(0, 0, 200, 100), 2, (2, 1), &mut memory);
    assert_eq!(cells, vec![zone(0, 0, 100, 100), zone(100, 0, 200, 100)]);
    // the first child came out twice as wide as high: it wasted height, so its row gets
    // half its share; the second twice as high as wide: its column gets half its share
    let drawn = vec![zone(0, 25, 100, 75), zone(125, 0, 175, 100)];
    grid.settle(&cells, &drawn, &mut memory);
    // columns: 0.5 and 0.25, of 0.75; rows: 0.5 + 1 of 1.5
    assert_eq!(memory.columns_sizes, vec![Scalar::new(666_666), Scalar::new(333_333)]);
    assert_eq!(memory.rows_sizes, vec![whole(1)]);
}

#[test]
fn grid_with_fixed_dimensions_draws_no_more_children_than_cells() {
    let grid = Grid {};
    let data = grid_data(GridDimensions::Fixed((2, 1)));
    let mut memory = grid.init_instance(&data);
    let cells = grid.draw(zone(0, 0, 200, 100), 3, grid.dimensions(&data, 3), &mut memory);
    assert_eq!(cells, vec![zone(0, 0, 100, 100), zone(100, 0, 200, 100)]);
    let none = grid.draw(zone(0, 0, 200, 100), 3, (0, 5), &mut memory);
    assert!(none.is_empty());
    assert_eq!(memory.dims, (0, 5));
    assert!(memory.columns_sizes.is_empty());
    assert_eq!(memory.rows_sizes, vec![Scalar::new(200_000); 5]);
}

#[test]
fn grid_finds_the_limits_of_columns_and_rows() {
    let limits = |min_w: Option<i32>, min_h: Option<i32>, max_h: Option<i32>| ChildGeometryProperties {
        min_w: min_w.map(whole),
        max_w: None,
        min_h: min_h.map(whole),
        max_h: max_h.map(whole),
    };
    let memory = GridInternalData {
        geometry_data: vec![limits(Some(5), None, Some(7)), limits(Some(3), Some(2), None), limits(None, Some(1), Some(9))],
        dims: (2, 2),
        rows_sizes: vec![],
        columns_sizes: vec![],
        spacing: whole(1),
    };
    assert_eq!(memory.gd(1, 0), limits(Some(3), Some(2), None));
    assert_eq!(memory.gd(0, 1), limits(None, Some(1), Some(9)));
    assert_eq!(memory.gd(1, 1), limits(None, None, None));
    assert_eq!(memory.gd(usize::MAX, usize::MAX), limits(None, None, None));
    assert_eq!(memory.get_column_sizes(0), (Some(whole(5)), Some(whole(9))));
    assert_eq!(memory.get_column_sizes(1), (Some(whole(3)), None));
    assert_eq!(memory.get_row_sizes(0), (Some(whole(1)), Some(whole(9))));
    assert_eq!(memory.get_row_sizes(1), (Some(whole(2)), None));
    // the number of the row counts as the place in its row
    assert_eq!(memory.get_row_sizes(2), (Some(whole(1)), Some(whole(9))));
    assert_eq!(memory.get_row_sizes(3), (None, None));
    assert_eq!(memory.get_column_sizes(4), (None, None));
}

#[test]
fn arrange_and_settle_follow_the_kind() {
    let data = PublicData::Split(split_data(SplitDirection::Horizontal));
    let mut memory = InternalData::Split((Split {}).init_instance(&split_data(SplitDirection::Horizontal)));
    let plan = arrange(&data, &mut memory, zone(0, 0, 100, 100), 2);
    assert_eq!(plan.own, DrawZone::new_empty());
    assert_eq!(plan.cells, vec![zone(0, 0, 50, 100), zone(50, 0, 100, 100)]);
    assert_eq!(plan.spacing, Some(Scalar::new(900_000)));
    settle(&data, &mut memory, &plan, &vec![zone(0, 0, 50, 100), zone(50, 0, 100, 100)]);
    match &memory {
        InternalData::Split(m) => assert_eq!(m.aspects, vec![Scalar::new(500_000); 2]),
        other => panic!("{other:?}"),
    }
    let spacer = PublicData::Spacer(SpacerInstance { spacing: whole(2) });
    let mut nothing = InternalData::Nothing;
    assert!(can_arrange(&spacer, 1));
    let plan = arrange(&spacer, &mut nothing, zone(0, 0, 10, 10), 1);
    assert_eq!(plan.cells, vec![DrawZone { m: Vec2::new(whole(5), whole(5)), size: Vec2::new(whole(20), whole(20)), empty: false }]);
    assert_eq!(plan.spacing, None);
}

#[test]
fn grouping_box_puts_its_parts_in_the_frame_it_took() {
    let data = GroupingBoxData {
        spacing: Scalar::new(500_000),
        title_size: GroupingBoxTitleSize::Absolute(whole(30)),
        title: "box".to_string(),
    };
    let frame = zone(0, 0, 100, 200);
    let parts = (GroupingBox {}).parts(frame, &data);
    assert_eq!(parts.frame, frame);
    assert_eq!(parts.title, zone(0, 0, 100, 30));
    // the rest, at half the size about its centre
    assert_eq!(parts.child.m, Vec2::new(whole(50), whole(115)));
    assert_eq!(parts.child.size, Vec2::new(whole(50), whole(85)));
    // before the child has ever drawn, the frame is the zone given
    assert_eq!((GroupingBox {}).draw(frame, &None, &data), parts);
    // afterwards the frame is a part of the zone given, and the parts are those of that frame
    let last = Some(whole(2));
    let layout = (GroupingBox {}).draw(frame, &last, &data);
    assert_ne!(layout.frame, frame);
    assert_eq!(layout, (GroupingBox {}).parts(layout.frame, &data));
}

#[test]
fn some_components_cannot_plan_a_frame() {
    // a split that is to share by area
    let by_area = PublicData::Split(SplitInstance { mode: SplitMode::EqualArea, ..split_data(SplitDirection::Horizontal) });
    let by_side = PublicData::Split(split_data(SplitDirection::Horizontal));
    for children in [0, 1, 2, 7] {
        assert!(!can_arrange(&by_area, children));
        assert!(can_arrange(&by_side, children));
    }
    // a spacer that has not its one child
    let spacer = PublicData::Spacer(SpacerInstance { spacing: whole(2) });
    assert!(!can_arrange(&spacer, 0));
    assert!(can_arrange(&spacer, 1));
    assert!(!can_arrange(&spacer, 2));
    // a grouping box without a child
    let framed = PublicData::GroupingBox(GroupingBoxData {
        spacing: whole(1),
        title_size: GroupingBoxTitleSize::Absolute(whole(10)),
        title: String::new(),
    });
    assert!(!can_arrange(&framed, 0));
    assert!(can_arrange(&framed, 1));
    // all others can, whatever the number of their children
    let grid = PublicData::Grid(GridData {
        spacing: whole(1),
        dimensions: GridDimensions::Auto,
        layout_strategy: GridLayoutStrategy::Static,
    });
    assert!(can_arrange(&grid, 0));
    assert!(can_arrange(&grid, 5));
    // a grouping box with a child offers it the part of the frame that the title leaves
    let mut last = InternalData::GroupingBox(None);
    let plan = arrange(&framed, &mut last, zone(0, 0, 100, 100), 1);
    assert_eq!(plan.own, zone(0, 0, 100, 100));
    assert_eq!(plan.cells, vec![zone(0, 10, 100, 100)]);
    settle(&framed, &mut last, &plan, &vec![zone(0, 10, 45, 100)]);
    assert_eq!(last, InternalData::GroupingBox(Some(Scalar::new(500_000))));
}

#[test]
fn grid_shares_add_up_to_one_after_each_frame() {
    let grid = Grid {};
    let data = grid_data(GridDimensions::Fixed((3, 2)));
    let mut memory = grid.init_instance(&data);
    for frame in 0..6 {
        let cells = grid.draw(zone(0, 0, 600, 200), 5, grid.dimensions(&data, 5), &mut memory);
        assert_eq!(cells.len(), 5);
        // the children take zones of their own aspects: some wider than their cells, some
        // narrower
        let drawn: Vec<DrawZone> = cells
            .iter()
            .enumerate()
            .map(|(k, cell)| cell.constraint_to_aspect(Scalar::new(400_000 * (k as i64 + 1))))
            .collect();
        if frame == 0 {
            assert!(drawn.iter().zip(&cells).any(|(d, c)| d.aspect().micros > c.aspect().micros));
            assert!(drawn.iter().zip(&cells).any(|(d, c)| d.aspect().micros <= c.aspect().micros));
        }
        grid.settle(&cells, &drawn, &mut memory);
        let columns: i64 = memory.columns_sizes.iter().map(|s| s.micros).sum();
        let rows: i64 = memory.rows_sizes.iter().map(|s| s.micros).sum();
        assert!(1_000_000 - 3 < columns && columns <= 1_000_000, "{frame}: {columns}");
        assert!(1_000_000 - 2 < rows && rows <= 1_000_000, "{frame}: {rows}");
        assert!(memory.columns_sizes.iter().all(|s| 0 <= s.micros && s.micros <= 1_000_000));
        assert!(memory.rows_sizes.iter().all(|s| 0 <= s.micros && s.micros <= 1_000_000));
    }
}
