use gaugen::basic_components::{GeometryTestType, TextFieldData};
use gaugen::component::{ComponentType, InternalData, PublicData};
use gaugen::frontend::{Color, SerializableColor};
use gaugen::geometry_components::{SpacerInstance, SplitDirection, SplitInstance, SplitMode};
use gaugen::hooks::{add_hook, Hooks};
use gaugen::json::Json;
use gaugen::manager::Manager;
use gaugen::scalar::Scalar;
use gaugen::scene::{Event, MouseButton, Scene};
use gaugen::zone::{DrawZone, Vec2};

fn whole(n: i32) -> Scalar {
    Scalar::from_int(n)
}

fn zone(x0: i32, y0: i32, x1: i32, y1: i32) -> DrawZone {
    DrawZone::from_rect(Vec2::new(whole(x0), whole(y0)), Vec2::new(whole(x1), whole(y1)))
}

fn manager() -> Manager {
    let mut m = Manager::new();
    gaugen::basic_components::components(&mut m);
    gaugen::geometry_components::components(&mut m);
    m
}

const TWO_FIGURES: &str = r#"{
    "type": "Split",
    "name": "root",
    "data": {"spacing": 1.0, "direction": "Horizontal", "mode": "EqualSide"},
    "children": [
        {"type": "GeometryTester", "data": "Line", "name": "left"},
        {"type": "GeometryTester", "data": "Circle"}
    ]
}"#;

#[test]
fn make_screen_builds_children_before_parents() {
    let scene = manager().make_screen(TWO_FIGURES).unwrap();
    assert_eq!(scene.len(), 3);
    assert_eq!(scene.layer_count(), 1);
    assert_eq!(scene.get_layer(0).unwrap().components, vec![2, 0, 1]);
    assert!(scene.get_layer(1).is_none());
    let root = scene.component(2).unwrap();
    assert_eq!(root.component_type, ComponentType::Split);
    assert_eq!(root.children, vec![0, 1]);
    assert_eq!(root.name.as_deref(), Some("root"));
    assert_eq!(
        root.public_data,
        PublicData::Split(SplitInstance {
            spacing: whole(1),
            direction: SplitDirection::Horizontal,
            mode: SplitMode::EqualSide,
        })
    );
    let left = scene.component(0).unwrap();
    assert_eq!(left.component_type, ComponentType::GeometryTester);
    assert_eq!(left.public_data, PublicData::GeometryTester(GeometryTestType::Line));
    assert_eq!(left.name.as_deref(), Some("left"));
    assert!(left.children.is_empty());
    assert_eq!(left.drawn_location, DrawZone::new_empty());
    assert_eq!(left.internal_data, InternalData::Nothing);
    let right = scene.component(1).unwrap();
    assert_eq!(right.public_data, PublicData::GeometryTester(GeometryTestType::Circle));
    assert_eq!(right.name, None);
    assert!(scene.component(3).is_none());
}

#[test]
fn make_screen_keeps_the_order_of_nested_children() {
    let doc = r#"{"type": "Grid", "children": [
        {"type": "Spacer", "children": [{"type": "TextField", "name": "a"}]},
        {"type": "TextField", "name": "b"},
        {"type": "GroupingBox", "children": [{"type": "Split", "children": [
            {"type": "TextField", "name": "c"}, {"type": "TextField", "name": "d"}]}]}
    ]}"#;
    let scene = manager().make_screen(doc).unwrap();
    assert_eq!(scene.len(), 8);
    let names: Vec<Option<&str>> = (0..8).map(|i| scene.component(i).unwrap().name.as_deref()).collect();
    assert_eq!(names, vec![Some("a"), None, Some("b"), Some("c"), Some("d"), None, None, None]);
    let kids: Vec<Vec<usize>> = (0..8).map(|i| scene.component(i).unwrap().children.clone()).collect();
    assert_eq!(kids, vec![vec![], vec![0], vec![], vec![], vec![], vec![3, 4], vec![5], vec![1, 2, 6]]);
    assert_eq!(scene.get_layer(0).unwrap().components, vec![7, 0, 1, 2, 3, 4, 5, 6]);
}

#[test]
fn text_field_with_partial_data_gets_the_default_colors() {
    let scene = manager().make_screen(r#"{"type": "TextField", "data": {"text": "Hi"}}"#).unwrap();
    assert_eq!(scene.len(), 1);
    let node = scene.component(0).unwrap();
    assert_eq!(
        node.public_data,
        PublicData::TextField(TextFieldData {
            text: "Hi".to_string(),
            front_color: SerializableColor { color: Color::from_rgb(0x80, 0x80, 0x80) },
            back_color: SerializableColor { color: Color::from_rgb(0x00, 0x00, 0x60) },
        })
    );
}

#[test]
fn data_that_cannot_be_read_falls_back_to_the_defaults() {
    // a member of the wrong type: the defaults stay as they are
    let scene = manager().make_screen(r#"{"type": "Spacer", "data": {"spacing": "wide"}}"#).unwrap();
    assert_eq!(scene.component(0).unwrap().public_data, PublicData::Spacer(SpacerInstance { spacing: whole(1) }));
    // no data at all
    let scene = manager().make_screen(r#"{"type": "Spacer"}"#).unwrap();
    assert_eq!(scene.component(0).unwrap().public_data, PublicData::Spacer(SpacerInstance { spacing: whole(1) }));
    // data that is no object
    let scene = manager().make_screen(r#"{"type": "Spacer", "data": [1, 2]}"#).unwrap();
    assert_eq!(scene.component(0).unwrap().public_data, PublicData::Spacer(SpacerInstance { spacing: whole(1) }));
    // one member that can be read, beside one that is unknown
    let scene = manager()
        .make_screen(r#"{"type": "Split", "data": {"direction": "Vertical", "colour": "red"}}"#)
        .unwrap();
    assert_eq!(
        scene.component(0).unwrap().public_data,
        PublicData::Split(SplitInstance {
            spacing: Scalar::new(900_000),
            direction: SplitDirection::Vertical,
            mode: SplitMode::EqualSide,
        })
    );
    // one member that can be read, beside one that cannot
    let scene = manager()
        .make_screen(r#"{"type": "Split", "data": {"spacing": "wide", "direction": "Vertical"}}"#)
        .unwrap();
    assert_eq!(
        scene.component(0).unwrap().public_data,
        PublicData::Split(SplitInstance {
            spacing: Scalar::new(900_000),
            direction: SplitDirection::Vertical,
            mode: SplitMode::EqualSide,
        })
    );
    let scene = manager()
        .make_screen(r#"{"type": "TextField", "data": {"front_color": "red", "text": "Hi", "back_color": "ff102030"}}"#)
        .unwrap();
    assert_eq!(
        scene.component(0).unwrap().public_data,
        PublicData::TextField(TextFieldData {
            text: "Hi".to_string(),
            front_color: SerializableColor { color: Color::from_rgb(0x80, 0x80, 0x80) },
            back_color: SerializableColor { color: Color::from_rgb(0x10, 0x20, 0x30) },
        })
    );
    // complete data is taken as it is
    let scene = manager().make_screen(r#"{"type": "Spacer", "data": {"spacing": 0.5}}"#).unwrap();
    assert_eq!(
        scene.component(0).unwrap().public_data,
        PublicData::Spacer(SpacerInstance { spacing: Scalar::new(500_000) })
    );
}

#[test]
fn too_many_children_make_no_scene() {
    let m = manager();
    assert!(m
        .make_screen(r#"{"type": "Spacer", "children": [{"type": "TextField"}, {"type": "TextField"}]}"#)
        .is_none());
    assert!(m
        .make_screen(r#"{"type": "GroupingBox", "children": [{"type": "TextField"}, {"type": "TextField"}]}"#)
        .is_none());
    assert!(m.make_screen(r#"{"type": "TextField", "children": [{"type": "TextField"}]}"#).is_none());
    assert!(m.make_screen(r#"{"type": "RotationalIndicator", "children": [{"type": "Spacer"}]}"#).is_none());
    // deep in the tree
    assert!(m
        .make_screen(
            r#"{"type": "Split", "children": [{"type": "Spacer", "children": [
                {"type": "Spacer", "children": [{"type": "TextField"}, {"type": "TextField"}]}]}]}"#
        )
        .is_none());
    // as many as allowed
    assert!(m.make_screen(r#"{"type": "Spacer", "children": [{"type": "TextField"}]}"#).is_some());
    assert!(m.make_screen(r#"{"type": "TextField", "children": []}"#).is_some());
}

#[test]
fn unknown_kinds_make_no_scene() {
    let m = manager();
    assert!(m.make_screen(r#"{"type": "Gauge"}"#).is_none());
    assert!(m.make_screen(r#"{"type": "split"}"#).is_none());
    assert!(m.make_screen(r#"{"data": {}}"#).is_none());
    assert!(m.make_screen(r#"{"type": 7}"#).is_none());
    assert!(m.make_screen(r#"{"type": "Split", "children": [{"type": "Gauge"}]}"#).is_none());
    assert!(m.make_screen(r#"[{"type": "Split"}]"#).is_none());
    assert!(m.make_screen(r#""Split""#).is_none());
}

#[test]
fn kinds_must_be_registered() {
    let mut m = Manager::new();
    assert!(!m.knows(ComponentType::Split));
    assert!(m.make_screen(r#"{"type": "Split"}"#).is_none());
    gaugen::geometry_components::components(&mut m);
    assert!(m.knows(ComponentType::Split));
    assert!(m.knows(ComponentType::Grid));
    assert!(!m.knows(ComponentType::TextField));
    assert!(m.make_screen(r#"{"type": "Split"}"#).is_some());
    assert!(m.make_screen(r#"{"type": "Split", "children": [{"type": "TextField"}]}"#).is_none());
    m.register_component_type(ComponentType::TextField);
    m.register_component_type(ComponentType::TextField);
    assert!(m.make_screen(r#"{"type": "Split", "children": [{"type": "TextField"}]}"#).is_some());
}

#[test]
fn text_that_is_no_json_makes_no_scene() {
    let m = manager();
    assert!(m.make_screen("").is_none());
    assert!(m.make_screen("{").is_none());
    assert!(m.make_screen(r#"{"type": "Split",}"#).is_none());
    assert!(m.make_screen(r#"{"type": "Split"} x"#).is_none());
}

#[test]
fn build_tree_takes_a_value() {
    let doc = Json::parse(TWO_FIGURES).unwrap();
    let scene = manager().build_tree(&doc).unwrap();
    assert_eq!(scene.len(), 3);
}

#[test]
fn draw_lays_out_a_split() {
    let mut scene = manager().make_screen(TWO_FIGURES).unwrap();
    scene.draw(zone(0, 0, 200, 100), &Hooks::new());
    // the split takes the zone of the aspect between its own (2) and that of its children
    // (1 at first): the square root of 2
    let left = scene.component(0).unwrap().drawn_location;
    assert_eq!(left.left(), Scalar::new(29_289_350));
    assert_eq!(left.right(), whole(100));
    assert_eq!(left.bottom(), whole(0));
    assert_eq!(left.top(), whole(100));
    let right = scene.component(1).unwrap().drawn_location;
    assert_eq!(right.left(), whole(100));
    assert_eq!(right.right(), Scalar::new(170_710_650));
    assert_eq!(right.size, Vec2::new(Scalar::new(70_710_650), whole(100)));
    let root = scene.component(2).unwrap();
    assert_eq!(root.drawn_location.m, Vec2::new(whole(100), whole(50)));
    assert_eq!(root.drawn_location.size, Vec2::new(Scalar::new(141_421_300), whole(100)));
    match &root.internal_data {
        InternalData::Split(memory) => {
            assert_eq!(memory.aspects, vec![Scalar::new(707_106), Scalar::new(707_106)]);
            assert_eq!(memory.primary_width, Scalar::new(1_414_212));
            assert_eq!(memory.primary_aspect, Scalar::new(1_414_212));
        }
        other => panic!("{other:?}"),
    }
}

#[test]
fn draw_merges_hooks_by_name() {
    let mut scene = manager().make_screen(TWO_FIGURES).unwrap();
    let mut hooks = Hooks::new();
    add_hook(&mut hooks, "root", "spacing", Json::number(Scalar::new(500_000)));
    add_hook(&mut hooks, "nobody", "spacing", Json::number(Scalar::new(100_000)));
    scene.draw(zone(0, 0, 200, 100), &hooks);
    // each child draws in half of its cell, about the same centre
    let left = scene.component(0).unwrap().drawn_location;
    assert_eq!(left.m, Vec2::new(Scalar::new(64_644_675), whole(50)));
    assert_eq!(left.size, Vec2::new(Scalar::new(35_355_325), whole(50)));
    // what the component is told for good is as it was
    match &scene.component(2).unwrap().public_data {
        PublicData::Split(d) => assert_eq!(d.spacing, whole(1)),
        other => panic!("{other:?}"),
    }
    // the split sees what the children took scaled back
    match &scene.component(2).unwrap().internal_data {
        InternalData::Split(memory) => assert_eq!(memory.aspects, vec![Scalar::new(707_106), Scalar::new(707_106)]),
        other => panic!("{other:?}"),
    }
    assert_eq!(
        scene.told(2, &hooks),
        PublicData::Split(SplitInstance {
            spacing: Scalar::new(500_000),
            direction: SplitDirection::Horizontal,
            mode: SplitMode::EqualSide,
        })
    );
}

#[test]
fn a_hook_that_does_not_fit_leaves_the_data() {
    let mut scene = manager().make_screen(TWO_FIGURES).unwrap();
    let mut plain = manager().make_screen(TWO_FIGURES).unwrap();
    let mut hooks = Hooks::new();
    add_hook(&mut hooks, "root", "spacing", Json::text("narrow"));
    scene.draw(zone(0, 0, 200, 100), &hooks);
    plain.draw(zone(0, 0, 200, 100), &Hooks::new());
    for id in 0..3 {
        assert_eq!(scene.component(id), plain.component(id));
    }
}

#[test]
fn a_click_reaches_the_components_under_it() {
    let mut scene = manager().make_screen(r#"{"type": "GeometryTester"}"#).unwrap();
    scene.draw(zone(75, 75, 125, 125), &Hooks::new());
    let node = scene.component(0).unwrap();
    assert_eq!(node.drawn_location.m, Vec2::new(whole(100), whole(100)));
    assert_eq!(node.drawn_location.size, Vec2::new(whole(50), whole(50)));
    assert_eq!(scene.handle_event(&Event::MouseClick(whole(120), whole(110), MouseButton::Left)), vec![0]);
    assert_eq!(scene.handle_event(&Event::MouseClick(whole(200), whole(200), MouseButton::Left)), Vec::<usize>::new());
    assert_eq!(scene.handle_event(&Event::MouseClick(whole(125), whole(125), MouseButton::Right)), vec![0]);
    assert_eq!(scene.handle_event(&Event::MouseClick(whole(126), whole(100), MouseButton::Other(4))), Vec::<usize>::new());
}

#[test]
fn a_click_reaches_parents_and_children_alike() {
    let mut scene = manager().make_screen(TWO_FIGURES).unwrap();
    // nothing was drawn yet: the zones have no extent, and hold their centre only
    assert_eq!(scene.handle_event(&Event::MouseClick(whole(50), whole(50), MouseButton::Left)), Vec::<usize>::new());
    assert_eq!(scene.handle_event(&Event::MouseClick(whole(0), whole(0), MouseButton::Left)), vec![2, 0, 1]);
    scene.draw(zone(0, 0, 200, 100), &Hooks::new());
    assert_eq!(scene.handle_event(&Event::MouseClick(whole(50), whole(50), MouseButton::Left)), vec![2, 0]);
    assert_eq!(scene.handle_event(&Event::MouseClick(whole(150), whole(50), MouseButton::Left)), vec![2, 1]);
    assert_eq!(scene.handle_event(&Event::MouseClick(whole(100), whole(50), MouseButton::Left)), vec![2, 0, 1]);
    assert_eq!(scene.handle_event(&Event::MouseClick(whole(10), whole(50), MouseButton::Left)), Vec::<usize>::new());
}

#[test]
fn components_can_be_added_to_layers() {
    let mut scene = manager().make_screen(TWO_FIGURES).unwrap();
    let figure = scene
        .instantiate_component(2, Some(PublicData::GeometryTester(GeometryTestType::Circle)), ComponentType::GeometryTester)
        .unwrap();
    assert_eq!(figure, 3);
    assert_eq!(scene.layer_count(), 3);
    assert_eq!(scene.get_layer(0).unwrap().components, vec![2, 0, 1]);
    assert!(scene.get_layer(1).unwrap().components.is_empty());
    assert_eq!(scene.get_layer(2).unwrap().components, vec![3]);
    let spacer = scene.instantiate_component(1, None, ComponentType::Spacer).unwrap();
    assert_eq!(spacer, 4);
    assert_eq!(scene.layer_count(), 3);
    assert_eq!(scene.get_layer(1).unwrap().components, vec![4]);
    let second = scene.instantiate_component(1, None, ComponentType::Split).unwrap();
    assert_eq!(second, 5);
    assert_eq!(scene.get_layer(1).unwrap().components, vec![4, 5]);
    let node = scene.component(3).unwrap();
    assert_eq!(node.public_data, PublicData::GeometryTester(GeometryTestType::Circle));
    assert_eq!(node.name, None);
    assert!(node.children.is_empty());
    assert_eq!(node.drawn_location, DrawZone::new_empty());
    assert_eq!(scene.component(4).unwrap().public_data, PublicData::Spacer(SpacerInstance { spacing: whole(1) }));
    // data of another kind
    assert_eq!(
        scene.instantiate_component(0, Some(PublicData::GeometryTester(GeometryTestType::Line)), ComponentType::Spacer),
        None
    );
    assert_eq!(scene.len(), 6);
    assert_eq!(scene.get_layer(0).unwrap().components, vec![2, 0, 1]);
    // a child must stand before its parent
    assert!(!scene.add_child(3, 4));
    assert!(!scene.add_child(3, 3));
    assert!(!scene.add_child(9, 0));
    assert!(scene.add_child(4, 3));
    assert_eq!(scene.component(4).unwrap().children, vec![3]);
    assert!(scene.component(3).unwrap().children.is_empty());
    // the root of each layer draws: the spacer of layer 1 with the figure below it, then the
    // figure once more as the root of layer 2
    let mut hooks = Hooks::new();
    scene.draw(zone(0, 0, 200, 100), &hooks);
    assert_eq!(scene.component(4).unwrap().drawn_location.size, Vec2::new(whole(200), whole(100)));
    assert_eq!(scene.component(3).unwrap().drawn_location.size, Vec2::new(whole(200), whole(100)));
    assert_eq!(scene.component(5).unwrap().drawn_location, DrawZone::new_empty());
    assert_eq!(scene.component(2).unwrap().drawn_location.size, Vec2::new(Scalar::new(141_421_300), whole(100)));
    // a scene that draws only the spacer and what is below it
    let mut small = Scene::new();
    let leaf = small.instantiate_component(1, None, ComponentType::GeometryTester).unwrap();
    let root = small
        .instantiate_component(0, Some(PublicData::Spacer(SpacerInstance { spacing: Scalar::new(500_000) })), ComponentType::Spacer)
        .unwrap();
    assert!(small.add_child(root, leaf));
    add_hook(&mut hooks, "nobody", "spacing", Json::Null);
    small.draw(zone(0, 0, 200, 100), &hooks);
    // layer 0 draws the spacer and through it the leaf at half the size; layer 1 then draws
    // the leaf as a root, in all of the zone
    assert_eq!(small.component(root).unwrap().drawn_location.size, Vec2::new(whole(100), whole(50)));
    assert_eq!(small.component(root).unwrap().drawn_location.m, Vec2::new(whole(100), whole(50)));
    assert_eq!(small.component(leaf).unwrap().drawn_location.size, Vec2::new(whole(200), whole(100)));
}

#[test]
fn an_empty_scene_draws_nothing() {
    let mut scene = Scene::new();
    assert_eq!(scene.len(), 0);
    assert_eq!(scene.layer_count(), 0);
    scene.draw(zone(0, 0, 1, 1), &Hooks::new());
    assert_eq!(scene.handle_event(&Event::MouseClick(whole(0), whole(0), MouseButton::Left)), Vec::<usize>::new());
}

#[test]
fn a_measured_text_field_takes_the_aspect_of_its_text() {
    let mut scene = manager().make_screen(r#"{"type": "TextField", "data": {"text": "Hi"}}"#).unwrap();
    scene.draw(zone(0, 0, 200, 100), &Hooks::new());
    assert_eq!(scene.component(0).unwrap().drawn_location.size, Vec2::new(whole(200), whole(100)));
    assert!(scene.set_text_aspect(0, whole(4)));
    assert!(!scene.set_text_aspect(1, whole(4)));
    scene.draw(zone(0, 0, 200, 100), &Hooks::new());
    let drawn = scene.component(0).unwrap().drawn_location;
    assert_eq!(drawn.m, Vec2::new(whole(100), whole(50)));
    assert_eq!(drawn.size, Vec2::new(whole(200), whole(50)));
    let mut other = manager().make_screen(r#"{"type": "Spacer"}"#).unwrap();
    assert!(!other.set_text_aspect(0, whole(4)));
}

#[test]
fn a_dial_takes_the_zone_of_its_aspect() {
    let mut scene = manager().make_screen(r#"{"type": "RotationalIndicator"}"#).unwrap();
    scene.draw(zone(0, 0, 230, 100), &Hooks::new());
    let drawn = scene.component(0).unwrap().drawn_location;
    assert_eq!(drawn.m, Vec2::new(whole(115), whole(50)));
    assert_eq!(drawn.size, Vec2::new(whole(115), whole(100)));
}

#[test]
fn add_child_refuses_more_children_than_the_kind_allows() {
    let mut scene = Scene::new();
    let first = scene.instantiate_component(1, None, ComponentType::GeometryTester).unwrap();
    let second = scene.instantiate_component(1, None, ComponentType::GeometryTester).unwrap();
    let spacer = scene.instantiate_component(0, None, ComponentType::Spacer).unwrap();
    let framed = scene.instantiate_component(0, None, ComponentType::GroupingBox).unwrap();
    let split = scene.instantiate_component(0, None, ComponentType::Split).unwrap();
    let dial = scene.instantiate_component(0, None, ComponentType::RotationalIndicator).unwrap();
    // a spacer and a grouping box have room for one child
    assert!(scene.add_child(spacer, first));
    assert!(!scene.add_child(spacer, second));
    assert_eq!(scene.component(spacer).unwrap().children, vec![first]);
    assert!(scene.add_child(framed, second));
    assert!(!scene.add_child(framed, first));
    assert_eq!(scene.component(framed).unwrap().children, vec![second]);
    // a split has room for any number
    assert!(scene.add_child(split, first));
    assert!(scene.add_child(split, second));
    assert!(scene.add_child(split, spacer));
    assert_eq!(scene.component(split).unwrap().children, vec![first, second, spacer]);
    // a dial has room for none
    assert!(!scene.add_child(dial, first));
    assert!(scene.component(dial).unwrap().children.is_empty());
    // a figure neither
    assert!(!scene.add_child(second, first));
}

#[test]
fn draw_notes_the_zone_that_each_component_took_itself() {
    let description = r#"{
        "type": "GroupingBox",
        "data": {"spacing": 1.0, "title_size": {"Absolute": 20.0}, "title": "engine"},
        "children": [{"type": "RotationalIndicator"}]
    }"#;
    let mut scene = manager().make_screen(description).unwrap();
    assert_eq!(scene.component(0).unwrap().own_location, DrawZone::new_empty());
    assert_eq!(scene.component(1).unwrap().own_location, DrawZone::new_empty());
    let hooks = Hooks::new();
    let given = zone(0, 0, 200, 100);
    scene.draw(given, &hooks);
    // the box takes all of the zone before its child has drawn; the dial the largest zone
    // of its aspect in what the box leaves above the title
    let frame = scene.component(1).unwrap().own_location;
    assert_eq!(frame, given);
    let dial = scene.component(0).unwrap();
    assert_eq!(dial.own_location, zone(0, 20, 200, 100).constraint_to_aspect(Scalar::new(1_150_000)));
    assert_eq!(dial.own_location.size, Vec2::new(whole(92), whole(80)));
    assert_eq!(dial.own_location, dial.drawn_location);
    assert_eq!(scene.component(1).unwrap().internal_data, InternalData::GroupingBox(Some(Scalar::new(1_150_000))));
    // in the next frame the box takes a zone between the aspect of the zone and that of
    // its child: the root of 1.15 * 2 is 1.516575 to the millionth
    scene.draw(given, &hooks);
    let node = scene.component(1).unwrap();
    assert_eq!(node.own_location, given.constraint_to_aspect(Scalar::new(1_516_575)));
    assert_eq!(node.own_location.size, Vec2::new(Scalar::new(151_657_500), whole(100)));
    // a split takes no zone itself
    let mut scene = manager().make_screen(TWO_FIGURES).unwrap();
    scene.draw(given, &hooks);
    assert_eq!(scene.component(2).unwrap().own_location, DrawZone::new_empty());
    assert_eq!(scene.component(0).unwrap().own_location, scene.component(0).unwrap().drawn_location);
    assert!(!scene.component(2).unwrap().drawn_location.empty);
}

#[test]
fn a_click_leaves_the_components_as_they_were() {
    let description = r#"{
        "type": "Grid",
        "children": [
            {"type": "GroupingBox", "children": [{"type": "RotationalIndicator", "name": "dial"}]},
            {"type": "Split", "children": [{"type": "TextField"}, {"type": "Spacer"}]},
            {"type": "SpatialSituationIndicator"},
            {"type": "GeometryTester", "data": "Circle"}
        ]
    }"#;
    let mut scene = manager().make_screen(description).unwrap();
    let mut twin = manager().make_screen(description).unwrap();
    let hooks = Hooks::new();
    scene.draw(zone(0, 0, 400, 300), &hooks);
    twin.draw(zone(0, 0, 400, 300), &hooks);
    let root = scene.len() - 1;
    let centre = scene.component(root).unwrap().drawn_location.m;
    let reached = scene.handle_event(&Event::MouseClick(centre.x, centre.y, MouseButton::Left));
    assert!(reached.contains(&root));
    assert_eq!(reached[0], root);
    for id in 0..scene.len() {
        assert_eq!(scene.component(id), twin.component(id));
    }
    assert_eq!(scene.get_layer(0).unwrap().components, twin.get_layer(0).unwrap().components);
    // and the next frame is drawn as if nothing had happened
    scene.draw(zone(0, 0, 400, 300), &hooks);
    twin.draw(zone(0, 0, 400, 300), &hooks);
    for id in 0..scene.len() {
        assert_eq!(scene.component(id), twin.component(id));
    }
}

#[test]
fn a_component_that_cannot_plan_is_left_out_of_the_frame() {
    let description = r#"{
        "type": "Split",
        "data": {"spacing": 1.0, "direction": "Horizontal", "mode": "EqualSide"},
        "children": [
            {"type": "Spacer"},
            {"type": "GeometryTester", "data": "Circle"},
            {"type": "GroupingBox"},
            {"type": "Split", "name": "inner", "children": [{"type": "GeometryTester", "data": "Line"}]}
        ]
    }"#;
    let mut scene = manager().make_screen(description).unwrap();
    assert_eq!(scene.len(), 6);
    let mut hooks = Hooks::new();
    add_hook(&mut hooks, "inner", "mode", Json::text("EqualArea"));
    scene.draw(zone(0, 0, 400, 100), &hooks);
    // the spacer and the grouping box have no child, the inner split is to share by area:
    // none of them takes a zone, and what is below the split is not drawn
    for id in [0, 2, 4] {
        let node = scene.component(id).unwrap();
        assert_eq!(node.own_location, DrawZone::new_empty(), "{id}");
        assert_eq!(node.drawn_location, DrawZone::new_empty(), "{id}");
    }
    assert_eq!(scene.component(3).unwrap().drawn_location, DrawZone::new_empty());
    assert_eq!(scene.component(2).unwrap().internal_data, InternalData::GroupingBox(None));
    // the figure beside them is drawn in its cell: the second of four in a frame twice as
    // wide as high, in the middle of the zone
    let figure = scene.component(1).unwrap();
    assert_eq!(figure.drawn_location, zone(150, 0, 200, 100));
    assert!(!scene.component(5).unwrap().drawn_location.empty);
    // without the hook the inner split draws its child
    scene.draw(zone(0, 0, 400, 100), &Hooks::new());
    assert!(!scene.component(3).unwrap().drawn_location.empty);
    assert!(!scene.component(4).unwrap().drawn_location.empty);
}

#[test]
fn make_component_makes_what_a_description_names() {
    let m = manager();
    let described = Json::parse(r#"{"type": "Spacer", "name": "gap", "data": {"spacing": 0.5}}"#).unwrap();
    assert_eq!(m.kind_in(&described), Some(ComponentType::Spacer));
    assert!(ComponentType::Spacer.admits(0));
    assert!(ComponentType::Spacer.admits(1));
    assert!(!ComponentType::Spacer.admits(2));
    assert!(ComponentType::Split.admits(1000));
    assert!(ComponentType::RotationalIndicator.admits(0));
    assert!(!ComponentType::RotationalIndicator.admits(1));
    let node = m.make_component(&described, vec![3]).unwrap();
    assert_eq!(node.component_type, ComponentType::Spacer);
    assert_eq!(node.children, vec![3]);
    assert_eq!(node.name.as_deref(), Some("gap"));
    assert_eq!(node.public_data, PublicData::Spacer(SpacerInstance { spacing: Scalar::new(500_000) }));
    assert_eq!(node.internal_data, InternalData::Nothing);
    assert_eq!(node.drawn_location, DrawZone::new_empty());
    // a kind that is not known, or not registered
    let unknown = Json::parse(r#"{"type": "Knob"}"#).unwrap();
    assert_eq!(m.kind_in(&unknown), None);
    assert!(m.make_component(&unknown, vec![]).is_none());
    assert_eq!(Manager::new().kind_in(&described), None);
    assert!(Manager::new().make_component(&described, vec![]).is_none());
    assert_eq!(m.kind_in(&Json::Null), None);
    // too many children give no tree
    let crowded = r#"{"type": "Spacer", "children": [{"type": "GeometryTester"}, {"type": "GeometryTester"}]}"#;
    assert!(m.make_screen(crowded).is_none());
    let below = r#"{"type": "Split", "children": [{"type": "RotationalIndicator", "children": [{"type": "Spacer"}]}]}"#;
    assert!(m.make_screen(below).is_none());
}
