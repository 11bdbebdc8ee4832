use gaugen::basic_components::{
    DialArc, GeometryTestType, GeometryTester, RotationalIndicator, RotationalIndicatorData,
    SpatialSituationIndicator, SpatialSituationIndicatorData, TestFigure, TextBounds, TextField, TextFieldData,
};
use gaugen::component::{Component, ComponentType, InternalData, PublicData};
use gaugen::frontend::{Color, DarkPalette, Palette, SerializableColor, Status};
use gaugen::geometry_components::{
    GridData, GridDimensions, GridLayoutStrategy, GroupingBoxData, GroupingBoxTitleSize, SpacerInstance, SplitDirection,
    SplitInstance, SplitMode,
};
use gaugen::json::Json;
use gaugen::manager::Manager;
use gaugen::scalar::Scalar;
use gaugen::zone::{DrawZone, Vec2};

fn whole(n: i32) -> Scalar {
    Scalar::from_int(n)
}

fn zone(x0: i32, y0: i32, x1: i32, y1: i32) -> DrawZone {
    DrawZone::from_rect(Vec2::new(whole(x0), whole(y0)), Vec2::new(whole(x1), whole(y1)))
}

fn all_kinds() -> Vec<ComponentType> {
    vec![
        ComponentType::RotationalIndicator,
        ComponentType::TextField,
        ComponentType::SpatialSituationIndicator,
        ComponentType::GeometryTester,
        ComponentType::Spacer,
        ComponentType::Split,
        ComponentType::GroupingBox,
        ComponentType::Grid,
    ]
}

#[test]
fn kinds_have_names_and_limits() {
    let names = [
        "RotationalIndicator",
        "TextField",
        "SpatialSituationIndicator",
        "GeometryTester",
        "Spacer",
        "Split",
        "GroupingBox",
        "Grid",
    ];
    let limits = [Some(0), Some(0), Some(0), Some(0), Some(1), None, Some(1), None];
    for (i, kind) in all_kinds().into_iter().enumerate() {
        assert_eq!(kind.get_name(), names[i]);
        assert_eq!(ComponentType::named(names[i]), Some(kind));
        assert_eq!(kind.max_children(), limits[i]);
        let default = kind.get_default_data().unwrap();
        assert_eq!(default.kind(), kind);
    }
    assert_eq!(ComponentType::named("Gauge"), None);
    assert_eq!(ComponentType::named(""), None);
    assert_eq!((RotationalIndicator {}).get_name(), "RotationalIndicator");
    assert_eq!((TextField {}).max_children(), Some(0));
    assert_eq!((SpatialSituationIndicator {}).max_children(), Some(0));
    assert_eq!((GeometryTester {}).get_default_data(), Some(GeometryTestType::Line));
}

#[test]
fn default_data_reads_back_from_its_value() {
    for kind in all_kinds() {
        let default = kind.get_default_data().unwrap();
        let value = default.to_json();
        assert_eq!(kind.from_json(&value), Some(default.clone()), "{kind:?}");
        assert_eq!(default.clone(), default);
    }
}

#[test]
fn data_reads_back_from_its_value() {
    let samples = vec![
        PublicData::RotationalIndicator(RotationalIndicatorData {
            precision: 3,
            unit: "kt".to_string(),
            caption: "Speed".to_string(),
            value: Scalar::new(-12_345_678),
            value_min: whole(-20),
            value_ranges: vec![(whole(0), Status::Error), (Scalar::new(99_500_000), Status::Warning), (whole(200), Status::Normal)],
        }),
        PublicData::RotationalIndicator(RotationalIndicatorData {
            precision: u32::MAX,
            unit: String::new(),
            caption: String::new(),
            value: Scalar::new(i64::MAX),
            value_min: Scalar::new(i64::MIN),
            value_ranges: vec![],
        }),
        PublicData::TextField(TextFieldData {
            text: "\"quoted\"".to_string(),
            front_color: SerializableColor { color: Color::from_rgba(1, 2, 3, 4) },
            back_color: SerializableColor { color: Color::from_rgba(0, 0, 0, 0) },
        }),
        PublicData::SpatialSituationIndicator(SpatialSituationIndicatorData {
            projection_zoom: Scalar::new(1),
            yaw: Scalar::new(3_141_592),
            pitch: Scalar::new(-1_570_796),
            roll: whole(0),
        }),
        PublicData::GeometryTester(GeometryTestType::Circle),
        PublicData::GeometryTester(GeometryTestType::Arc(Scalar::new(-500_000), Scalar::new(2_500_000))),
        PublicData::Spacer(SpacerInstance { spacing: Scalar::new(750_000) }),
        PublicData::Split(SplitInstance { spacing: whole(1), direction: SplitDirection::Vertical, mode: SplitMode::EqualArea }),
        PublicData::GroupingBox(GroupingBoxData {
            spacing: Scalar::new(800_000),
            title_size: GroupingBoxTitleSize::Absolute(whole(24)),
            title: String::new(),
        }),
        PublicData::Grid(GridData {
            spacing: whole(1),
            dimensions: GridDimensions::Fixed((4, usize::MAX)),
            layout_strategy: GridLayoutStrategy::EqualUsedSpace,
        }),
        PublicData::Grid(GridData {
            spacing: whole(1),
            dimensions: GridDimensions::Auto,
            layout_strategy: GridLayoutStrategy::Static,
        }),
    ];
    for data in samples {
        let value = data.to_json();
        assert_eq!(data.kind().from_json(&value), Some(data.clone()), "{value:?}");
        // no overrides leave the data as it is
        assert_eq!(Manager::join_hooks(&data, &vec![]), (data.clone(), true));
        // data of one kind is no data of another
        if data.kind() != ComponentType::SpatialSituationIndicator {
            assert_eq!(ComponentType::SpatialSituationIndicator.from_json(&value), None);
        }
    }
}

#[test]
fn data_is_read_as_a_description_writes_it() {
    let read = |kind: ComponentType, text: &str| kind.from_json(&Json::parse(text).unwrap());
    assert_eq!(
        read(ComponentType::Grid, r#"{"spacing": 1, "dimensions": {"Fixed": [3, 2]}, "layout_strategy": "Static", "x": 0}"#),
        Some(PublicData::Grid(GridData {
            spacing: whole(1),
            dimensions: GridDimensions::Fixed((3, 2)),
            layout_strategy: GridLayoutStrategy::Static,
        }))
    );
    assert_eq!(
        read(ComponentType::Grid, r#"{"spacing": 1, "dimensions": {"Fixed": [3.0, 2]}, "layout_strategy": "Static"}"#),
        None
    );
    assert_eq!(read(ComponentType::Grid, r#"{"spacing": 1, "dimensions": "Auto"}"#), None);
    assert_eq!(
        read(ComponentType::GroupingBox, r#"{"spacing": 0.5, "title_size": {"RelativeToHeight": 0.25}, "title": "t"}"#),
        Some(PublicData::GroupingBox(GroupingBoxData {
            spacing: Scalar::new(500_000),
            title_size: GroupingBoxTitleSize::RelativeToHeight(Scalar::new(250_000)),
            title: "t".to_string(),
        }))
    );
    assert_eq!(
        read(ComponentType::GroupingBox, r#"{"spacing": 0.5, "title_size": {"Relative": 0.25}, "title": "t"}"#),
        None
    );
    assert_eq!(
        read(
            ComponentType::RotationalIndicator,
            r#"{"precision": 0, "unit": "%", "caption": "N1", "value": 71.5, "value_min": 0,
                "value_ranges": [[90, "Ok"], [100.5, "Warning"], [110, "Error"]]}"#
        ),
        Some(PublicData::RotationalIndicator(RotationalIndicatorData {
            precision: 0,
            unit: "%".to_string(),
            caption: "N1".to_string(),
            value: Scalar::new(71_500_000),
            value_min: whole(0),
            value_ranges: vec![(whole(90), Status::Normal), (Scalar::new(100_500_000), Status::Warning), (whole(110), Status::Error)],
        }))
    );
    assert_eq!(
        read(
            ComponentType::RotationalIndicator,
            r#"{"precision": -1, "unit": "%", "caption": "N1", "value": 71.5, "value_min": 0, "value_ranges": []}"#
        ),
        None
    );
    assert_eq!(
        read(
            ComponentType::RotationalIndicator,
            r#"{"precision": 1, "unit": "%", "caption": "N1", "value": 71.5, "value_min": 0, "value_ranges": [[90, "Fine"]]}"#
        ),
        None
    );
    assert_eq!(read(ComponentType::GeometryTester, r#"{"Arc": [0, 1.5]}"#), Some(PublicData::GeometryTester(GeometryTestType::Arc(whole(0), Scalar::new(1_500_000)))));
    assert_eq!(read(ComponentType::GeometryTester, r#"{"Arc": [0]}"#), None);
    assert_eq!(read(ComponentType::GeometryTester, r#""Arc""#), None);
}

#[test]
fn join_hooks_overrides_members() {
    let data = PublicData::TextField(TextFieldData {
        text: "<Placeholder>".to_string(),
        front_color: SerializableColor { color: Color::from_rgb(0x80, 0x80, 0x80) },
        back_color: SerializableColor { color: Color::from_rgb(0, 0, 0x60) },
    });
    let hooks = vec![
        ("text".to_string(), Json::text("Bye world!")),
        ("front_color".to_string(), Json::text("ffff0000")),
        ("font".to_string(), Json::text("serif")),
    ];
    let (merged, applied) = Manager::join_hooks(&data, &hooks);
    assert!(applied);
    assert_eq!(
        merged,
        PublicData::TextField(TextFieldData {
            text: "Bye world!".to_string(),
            front_color: SerializableColor { color: Color::from_rgba(0xff, 0, 0, 0xff) },
            back_color: SerializableColor { color: Color::from_rgb(0, 0, 0x60) },
        })
    );
    // a later override of the same member wins
    let twice = vec![("text".to_string(), Json::text("a")), ("text".to_string(), Json::text("b"))];
    match Manager::join_hooks(&data, &twice) {
        (PublicData::TextField(d), true) => assert_eq!(d.text, "b"),
        other => panic!("{other:?}"),
    }
}

#[test]
fn join_hooks_keeps_the_data_where_an_override_does_not_fit() {
    let data = PublicData::TextField(TextFieldData {
        text: "t".to_string(),
        front_color: SerializableColor { color: Color::from_rgb(1, 2, 3) },
        back_color: SerializableColor { color: Color::from_rgb(4, 5, 6) },
    });
    for bad in [Json::text("red"), Json::number(whole(7)), Json::Null, Json::text("1ffffffff")] {
        let hooks = vec![("text".to_string(), Json::text("new")), ("front_color".to_string(), bad)];
        assert_eq!(Manager::join_hooks(&data, &hooks), (data.clone(), false));
    }
    let dial = ComponentType::RotationalIndicator.get_default_data().unwrap();
    assert_eq!(Manager::join_hooks(&dial, &vec![("value".to_string(), Json::text("fast"))]), (dial.clone(), false));
    assert_eq!(Manager::join_hooks(&dial, &vec![("precision".to_string(), Json::number(whole(2)))]), (dial.clone(), false));
    match Manager::join_hooks(&dial, &vec![("value".to_string(), Json::natural(99))]) {
        (PublicData::RotationalIndicator(d), true) => assert_eq!(d.value, whole(99)),
        other => panic!("{other:?}"),
    }
}

#[test]
fn join_hooks_fails_on_data_that_is_written_as_no_object() {
    // a figure is written as a text, which has no member to set
    for figure in [GeometryTestType::Line, GeometryTestType::Circle] {
        let data = PublicData::GeometryTester(figure);
        assert_eq!(Manager::join_hooks(&data, &vec![("Arc".to_string(), Json::Null)]), (data.clone(), false));
        assert_eq!(
            Manager::join_hooks(&data, &vec![("a".to_string(), Json::natural(1)), ("b".to_string(), Json::text("Circle"))]),
            (data.clone(), false)
        );
        // no override is no failure
        assert_eq!(Manager::join_hooks(&data, &vec![]), (data.clone(), true));
    }
    // an arc is written as an object, and its member can be set
    let arc = PublicData::GeometryTester(GeometryTestType::Arc(whole(1), whole(2)));
    let angles = Json::array(vec![Json::number(whole(3)), Json::number(whole(4))]);
    assert_eq!(
        Manager::join_hooks(&arc, &vec![("Arc".to_string(), angles)]),
        (PublicData::GeometryTester(GeometryTestType::Arc(whole(3), whole(4))), true)
    );
    assert_eq!(Manager::join_hooks(&arc, &vec![("Arc".to_string(), Json::Null)]), (arc.clone(), false));
}

#[test]
fn dial_chooses_the_range_by_the_value_itself() {
    let draw = |data: &RotationalIndicatorData| (RotationalIndicator {}).draw(&DarkPalette {}, zone(0, 0, 115, 100), whole(0), data);
    let normal = DarkPalette {}.status_to_color_font(Status::Normal);
    let warning = DarkPalette {}.status_to_color_font(Status::Warning);
    let error = DarkPalette {}.status_to_color_font(Status::Error);
    // two ends that are the same share of a wide scale, to the millionth
    let mut data = RotationalIndicatorData {
        precision: 1,
        unit: String::new(),
        caption: String::new(),
        value: Scalar::new(1),
        value_min: whole(0),
        value_ranges: vec![(Scalar::new(2), Status::Normal), (whole(1000), Status::Warning)],
    };
    assert_eq!(draw(&data).value.color, normal);
    data.value = Scalar::new(2);
    assert_eq!(draw(&data).value.color, warning);
    data.value = Scalar::new(999_999_999);
    assert_eq!(draw(&data).value.color, warning);
    data.value = whole(1000);
    assert_eq!(draw(&data).value.color, error);
    // a value just below an end whose share rounds to the same millionth
    data.value_ranges = vec![(Scalar::new(5_000_005_000), Status::Normal), (whole(10000), Status::Warning)];
    data.value = Scalar::new(5_000_001_000);
    assert_eq!(draw(&data).value.color, normal);
    data.value = Scalar::new(5_000_004_999);
    assert_eq!(draw(&data).value.color, normal);
    data.value = Scalar::new(5_000_005_000);
    assert_eq!(draw(&data).value.color, warning);
    data.value = whole(0);
    assert_eq!(draw(&data).value.color, normal);
    data.value = whole(10000);
    assert_eq!(draw(&data).value.color, error);
    data.value = whole(20000);
    assert_eq!(draw(&data).value.color, error);
}

#[test]
fn dial_and_text_field_draw_in_their_own_zone_what_they_draw_in_the_zone_given() {
    let dial = match ComponentType::RotationalIndicator.get_default_data().unwrap() {
        PublicData::RotationalIndicator(d) => d,
        other => panic!("{other:?}"),
    };
    let given = zone(0, 0, 300, 100);
    let own = given.constraint_to_aspect(Scalar::new(1_150_000));
    assert_eq!(own.size, Vec2::new(whole(115), whole(100)));
    assert_eq!(
        (RotationalIndicator {}).dial(&DarkPalette {}, own, whole(0), &dial),
        (RotationalIndicator {}).draw(&DarkPalette {}, given, whole(0), &dial)
    );
    // in another zone the dial is another
    assert_ne!(
        (RotationalIndicator {}).dial(&DarkPalette {}, given, whole(0), &dial),
        (RotationalIndicator {}).draw(&DarkPalette {}, given, whole(0), &dial)
    );
    let text = TextFieldData {
        text: "t".to_string(),
        front_color: SerializableColor { color: Color::from_rgb(1, 2, 3) },
        back_color: SerializableColor { color: Color::from_rgb(4, 5, 6) },
    };
    let own = given.constraint_to_aspect(whole(2));
    assert_eq!(own.size, Vec2::new(whole(200), whole(100)));
    let drawn = (TextField {}).text_box(own, &text);
    assert_eq!(drawn, (TextField {}).draw(given, whole(2), &text));
    assert_eq!(drawn.zone, own);
    assert_eq!(drawn.label.position, Vec2::new(whole(50), whole(50)));
    assert_eq!(drawn.label.line_max_width, whole(200));
}

#[test]
fn fresh_components_remember_nothing() {
    let split = ComponentType::Split.get_default_data().unwrap();
    match ComponentType::Split.init_instance(&split) {
        InternalData::Split(m) => {
            assert!(m.aspects.is_empty());
            assert_eq!(m.primary_aspect, whole(1));
        }
        other => panic!("{other:?}"),
    }
    assert_eq!(ComponentType::TextField.init_instance(&split), InternalData::TextField(None));
    assert_eq!(ComponentType::GroupingBox.init_instance(&split), InternalData::GroupingBox(None));
    assert_eq!(ComponentType::Spacer.init_instance(&split), InternalData::Nothing);
    match ComponentType::Grid.init_instance(&split) {
        InternalData::Grid(m) => assert_eq!(m.dims, (0, 0)),
        other => panic!("{other:?}"),
    }
}

#[test]
fn dial_draws_its_rings_and_figures() {
    let data = (RotationalIndicator {}).get_default_data().unwrap();
    let dial = (RotationalIndicator {}).draw(&DarkPalette {}, zone(0, 0, 230, 100), whole(0), &data);
    assert_eq!(dial.zone.m, Vec2::new(whole(115), whole(50)));
    assert_eq!(dial.zone.size, Vec2::new(whole(115), whole(100)));
    assert_eq!(dial.centre, Vec2::new(whole(115), Scalar::new(58_712_121)));
    let radius = Scalar::new(47_916_666);
    let thickness = Scalar::new(4_791_666);
    assert_eq!(
        dial.arcs,
        vec![
            DialArc {
                from: whole(0),
                to: whole(1),
                radius: Scalar::new(54_145_832),
                stroke_width: thickness,
                stroke_color: Color::from_rgba(0, 160, 0, 255),
                fill_color: Color::from_rgba(0, 0, 0, 0),
            },
            DialArc {
                from: whole(0),
                to: whole(1),
                radius: Scalar::new(52_229_165),
                stroke_width: whole(0),
                stroke_color: Color::from_rgba(160, 160, 160, 255),
                fill_color: Color::from_rgba(30, 30, 40, 255),
            },
            DialArc {
                from: whole(0),
                to: Scalar::new(500_000),
                radius,
                stroke_width: Scalar::new(8_385_415),
                stroke_color: Color::from_rgba(255, 255, 255, 255),
                fill_color: Color::from_rgba(0, 0, 0, 0),
            },
        ]
    );
    let caption = dial.caption.unwrap();
    assert_eq!(caption.text, "");
    assert_eq!(caption.position, Vec2::new(Scalar::new(57_500_000), Scalar::new(90_656_565)));
    assert_eq!(caption.color, Color::from_rgba(180, 180, 180, 255));
    assert_eq!(caption.size, Scalar::new(23_958_333));
    assert_eq!(caption.line_height, Scalar::new(15_972_222));
    assert_eq!(caption.line_max_width, whole(115));
    assert_eq!(dial.value.text, "50.0");
    assert_eq!(dial.value.position, Vec2::new(Scalar::new(57_500_000), Scalar::new(53_920_455)));
    assert_eq!(dial.value.color, Color::from_rgba(255, 255, 255, 255));
    assert_eq!(dial.value.size, Scalar::new(30_913_978));
    assert_eq!(dial.value.line_height, Scalar::new(19_166_666));
}

#[test]
fn dial_finds_the_status_of_its_value() {
    let mut data = RotationalIndicatorData {
        precision: 2,
        unit: " rpm".to_string(),
        caption: "N2".to_string(),
        value: whole(95),
        value_min: whole(0),
        value_ranges: vec![(whole(50), Status::Normal), (whole(90), Status::Warning), (whole(100), Status::Error)],
    };
    let draw = |data: &RotationalIndicatorData, time: Scalar| (RotationalIndicator {}).draw(&DarkPalette {}, zone(0, 0, 115, 100), time, data);
    // in the last range: an error, so the caption blinks
    let dial = draw(&data, Scalar::new(100_000));
    assert_eq!(dial.value.text, "95.00 rpm");
    assert_eq!(dial.value.color, Color::from_rgba(255, 50, 50, 255));
    assert_eq!(dial.caption.as_ref().map(|l| l.text.as_str()), Some("N2"));
    assert_eq!(dial.arcs.len(), 5);
    assert_eq!((dial.arcs[1].from, dial.arcs[1].to), (Scalar::new(500_000), Scalar::new(900_000)));
    assert_eq!(dial.arcs[1].stroke_color, Color::from_rgba(250, 120, 0, 255));
    assert_eq!(dial.arcs[4].to, Scalar::new(950_000));
    assert!(draw(&data, Scalar::new(329_999)).caption.is_some());
    assert!(draw(&data, Scalar::new(330_000)).caption.is_none());
    assert!(draw(&data, Scalar::new(499_999)).caption.is_none());
    assert!(draw(&data, Scalar::new(500_000)).caption.is_some());
    assert!(draw(&data, Scalar::new(7_900_000)).caption.is_none());
    assert!(RotationalIndicator::caption_visible(Status::Error, whole(-1)));
    assert!(RotationalIndicator::caption_visible(Status::Warning, Scalar::new(400_000)));
    // in the middle range
    data.value = whole(50);
    let dial = draw(&data, Scalar::new(400_000));
    assert_eq!(dial.value.color, Color::from_rgba(240, 180, 0, 255));
    assert!(dial.caption.is_some());
    // below the least value: a thousandth of the way, in the first range
    data.value = whole(-5);
    let dial = draw(&data, whole(0));
    assert_eq!(dial.arcs[4].to, Scalar::new(1_000));
    assert_eq!(dial.value.color, Color::from_rgba(255, 255, 255, 255));
    assert_eq!(dial.value.text, "-5.00 rpm");
    // above the last range: all the way, in no range
    data.value = whole(101);
    let dial = draw(&data, whole(0));
    assert_eq!(dial.arcs[4].to, whole(1));
    assert_eq!(dial.value.color, Color::from_rgba(255, 50, 50, 255));
}

#[test]
fn text_field_draws_in_the_zone_of_its_text() {
    let field = TextField {};
    let aspect = field.init_instance(&TextBounds { min_x: whole(-10), min_y: whole(2), max_x: whole(30), max_y: whole(12) });
    assert_eq!(aspect, whole(4));
    let data = TextFieldData {
        text: "Hi".to_string(),
        front_color: SerializableColor { color: Color::from_rgb(1, 2, 3) },
        back_color: SerializableColor { color: Color::from_rgb(4, 5, 6) },
    };
    let drawn = field.draw(zone(0, 0, 200, 100), aspect, &data);
    assert_eq!(drawn.zone, DrawZone { m: Vec2::new(whole(100), whole(50)), size: Vec2::new(whole(200), whole(50)), empty: false });
    assert_eq!(drawn.back_color, Color::from_rgb(4, 5, 6));
    assert_eq!(drawn.label.text, "Hi");
    assert_eq!(drawn.label.color, Color::from_rgb(1, 2, 3));
    assert_eq!(drawn.label.position, Vec2::new(whole(0), whole(50)));
    assert_eq!(drawn.label.size, whole(50));
    assert_eq!(drawn.label.line_height, whole(50));
    assert_eq!(drawn.label.line_max_width, whole(200));
}

#[test]
fn geometry_tester_draws_its_figure() {
    let tester = GeometryTester;
    let z = zone(0, 0, 120, 60);
    assert_eq!(
        tester.draw(z, &GeometryTestType::Line),
        TestFigure::Line(
            Vec2::new(whole(60), whole(30)),
            Vec2::new(whole(90), whole(20)),
            Vec2::new(whole(30), whole(10)),
            Vec2::new(whole(60), whole(50)),
        )
    );
    assert_eq!(tester.draw(z, &GeometryTestType::Circle), TestFigure::Circle(Vec2::new(whole(30), whole(10)), whole(24)));
    assert_eq!(
        tester.draw(z, &GeometryTestType::Arc(whole(1), whole(2))),
        TestFigure::Arc(Vec2::new(whole(60), whole(30)), whole(40), whole(1), whole(2))
    );
}

#[test]
fn fill_in_passes_over_what_does_not_fit() {
    let default = ComponentType::Split.get_default_data().unwrap();
    let partial = vec![
        ("mode".to_string(), Json::text("EqualArea")),
        ("spacing".to_string(), Json::Bool(true)),
        ("direction".to_string(), Json::text("Vertical")),
        ("mode".to_string(), Json::text("Equal")),
    ];
    assert_eq!(
        Manager::fill_in(default.clone(), &partial),
        PublicData::Split(SplitInstance {
            spacing: Scalar::new(900_000),
            direction: SplitDirection::Vertical,
            mode: SplitMode::EqualArea,
        })
    );
    assert_eq!(Manager::fill_in(default.clone(), &vec![]), default);
    // as overrides the same members are merged all together or not at all
    assert_eq!(Manager::join_hooks(&default, &partial), (default.clone(), false));
}

#[test]
fn a_hook_may_set_a_value_written_with_an_exponent() {
    let dial = ComponentType::RotationalIndicator.get_default_data().unwrap();
    match Manager::join_hooks(&dial, &vec![("value".to_string(), Json::Number("7.5e1".to_string()))]) {
        (PublicData::RotationalIndicator(d), true) => assert_eq!(d.value, whole(75)),
        other => panic!("{other:?}"),
    }
    match Manager::join_hooks(&dial, &vec![("value".to_string(), Json::Number("3e-7".to_string()))]) {
        (PublicData::RotationalIndicator(d), true) => assert_eq!(d.value, whole(0)),
        other => panic!("{other:?}"),
    }
}

#[test]
fn no_kind_takes_notice_of_an_event() {
    let click = gaugen::scene::Event::MouseClick(whole(1), whole(2), gaugen::scene::MouseButton::Left);
    let place = zone(0, 0, 10, 10);
    for kind in all_kinds() {
        let told = kind.get_default_data().unwrap();
        let remembered = kind.init_instance(&told);
        let mut data = told.clone();
        let mut memory = kind.init_instance(&told);
        kind.handle_event(&place, &click, &mut memory, &mut data);
        assert_eq!(data, told);
        assert_eq!(memory, remembered);
    }
    let mut aspect = Some(whole(3));
    let mut text = TextFieldData {
        text: "t".to_string(),
        front_color: SerializableColor { color: Color::from_rgb(1, 2, 3) },
        back_color: SerializableColor { color: Color::from_rgb(4, 5, 6) },
    };
    let before = text.clone();
    (TextField {}).handle_event(&place, &click, &mut aspect, &mut text);
    assert_eq!(aspect, Some(whole(3)));
    assert_eq!(text, before);
}
