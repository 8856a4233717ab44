use vibe_lights::fixture::{ControllerProtocol, EffectTarget, FixtureId, GroupId, GroupMember};
use vibe_lights::importer::{capped_lengths, ControllerScan, NodeScan, VixenImporter, XmlEvent, XmlTag, MAX_TOTAL_EFFECTS};
use vibe_lights::preview::{ItemPixels, ItemText, PlacedPixel};

fn tag(name: &str, attrs: &[(&str, &str)]) -> XmlTag {
    XmlTag {
        name: name.to_string(),
        attributes: attrs.iter().map(|(k, v)| (k.to_string(), v.to_string())).collect(),
    }
}

fn start(name: &str, attrs: &[(&str, &str)]) -> XmlEvent {
    XmlEvent::Start(tag(name, attrs))
}

fn empty(name: &str, attrs: &[(&str, &str)]) -> XmlEvent {
    XmlEvent::Empty(tag(name, attrs))
}

fn end(name: &str) -> XmlEvent {
    XmlEvent::End(name.to_string())
}

fn scan_nodes(importer: &mut VixenImporter, events: &[XmlEvent]) {
    let mut scan = NodeScan::new();
    for e in events {
        importer.scan_node_event(&mut scan, e);
    }
}

fn scan_controllers(importer: &mut VixenImporter, events: &[XmlEvent]) {
    let mut scan = ControllerScan::new();
    for e in events {
        assert!(scan.has_room());
        importer.scan_controller_event(&mut scan, e);
    }
}

fn id_of(importer: &VixenImporter, guid: &str) -> Option<u32> {
    importer.guid_map().iter().find(|(g, _)| g == guid).map(|(_, id)| *id)
}

fn merged_leaf_guid_remapping() {
    let mut importer = VixenImporter::new();
    let leaf_guids: Vec<String> = (0..3).map(|i| format!("leaf-{i}")).collect();
    let parent_guid = "parent".to_string();

    let mut events = vec![start("Nodes", &[]), start("Node", &[("name", "Parent Fixture"), ("id", "parent")])];
    for (i, guid) in leaf_guids.iter().enumerate() {
        let name = format!("Leaf {i}");
        let channel = format!("ch-{i}");
        events.push(empty("Node", &[("name", &name), ("id", guid), ("channelId", &channel)]));
    }
    events.push(end("Node"));
    events.push(end("Nodes"));
    assert!(importer.read_system_config(&events));

    assert_eq!(importer.fixture_count(), 1, "Expected 1 merged fixture");
    let parent_fixture = &importer.fixtures()[0];
    assert_eq!(parent_fixture.pixel_count, 3);
    let parent_id = parent_fixture.id.0;

    for leaf_guid in &leaf_guids {
        let mapped_id = id_of(&importer, leaf_guid);
        assert_eq!(mapped_id, Some(parent_id), "Leaf GUID '{leaf_guid}' should map to parent ID {parent_id}");
    }
    assert_eq!(id_of(&importer, &parent_guid), Some(parent_id));
}

#[test]
fn importer_test_merged_leaf_guid_remapping() {
    merged_leaf_guid_remapping();
}

#[test]
fn vixen_test_merged_leaf_guid_remapping() {
    merged_leaf_guid_remapping();
}

#[test]
fn nodes_outside_section_are_ignored() {
    let mut importer = VixenImporter::new();
    scan_nodes(&mut importer, &[
        empty("Node", &[("id", "a"), ("name", "A")]),
        start("SystemNodes", &[]),
        empty("Node", &[("id", "b"), ("name", "B")]),
        empty("Node", &[("name", "no id")]),
        end("SystemNodes"),
        empty("ChannelNode", &[("id", "c")]),
    ]);
    importer.build_fixtures_and_groups();
    assert_eq!(importer.fixture_count(), 1);
    assert_eq!(importer.fixtures()[0].name, "B");
    assert_eq!(id_of(&importer, "a"), None);
    assert_eq!(id_of(&importer, "b"), Some(0));
}

#[test]
fn mixed_children_make_a_group() {
    // root
    //   ├─ strip (3 leaves) → merged fixture
    //   └─ bulb (leaf)      → single fixture
    let mut importer = VixenImporter::new();
    scan_nodes(&mut importer, &[
        start("Nodes", &[]),
        start("ElementNode", &[("id", "root"), ("name", "Yard")]),
        start("ElementNode", &[("id", "strip"), ("name", "Strip")]),
        empty("Node", &[("id", "s1")]),
        empty("Node", &[("id", "s2")]),
        empty("Node", &[("id", "s3")]),
        end("ElementNode"),
        empty("Node", &[("id", "bulb"), ("Name", "Bulb")]),
        end("ElementNode"),
        end("Nodes"),
    ]);
    importer.build_fixtures_and_groups();
    // ids: root 0, strip 1, s1..s3 2..4, bulb 5
    assert_eq!(importer.group_count(), 1);
    let g = &importer.groups()[0];
    assert_eq!(g.id, GroupId(0));
    assert_eq!(g.name, "Yard");
    assert_eq!(g.members, vec![GroupMember::Fixture(FixtureId(1)), GroupMember::Fixture(FixtureId(5))]);
    let fixtures = importer.fixtures();
    assert_eq!(fixtures.len(), 2);
    assert_eq!((fixtures[0].id, fixtures[0].pixel_count), (FixtureId(1), 3));
    assert_eq!((fixtures[1].id, fixtures[1].pixel_count, fixtures[1].name.as_str()), (FixtureId(5), 1, "Bulb"));
    assert_eq!(id_of(&importer, "s2"), Some(1));
    assert_eq!(id_of(&importer, "root"), Some(0));
}

#[test]
fn single_leaf_child_is_not_merged() {
    let mut importer = VixenImporter::new();
    scan_nodes(&mut importer, &[
        start("Nodes", &[]),
        start("Node", &[("id", "p"), ("name", "P")]),
        empty("Node", &[("id", "only")]),
        end("Node"),
        end("Nodes"),
    ]);
    importer.build_fixtures_and_groups();
    assert_eq!(importer.group_count(), 1);
    assert_eq!(importer.groups()[0].members, vec![GroupMember::Fixture(FixtureId(1))]);
    assert_eq!(importer.fixture_count(), 1);
}

#[test]
fn from_setup_continues_ids() {
    let map = vec![("x".to_string(), 4u32), ("y".to_string(), 9u32)];
    let mut importer = VixenImporter::from_setup(vec![], vec![], vec![], vec![], map);
    assert_eq!(id_of(&importer, "y"), Some(9));
    scan_nodes(&mut importer, &[start("Nodes", &[]), empty("Node", &[("id", "z")]), end("Nodes")]);
    importer.build_fixtures_and_groups();
    assert_eq!(id_of(&importer, "z"), Some(10));
    assert_eq!(importer.fixtures()[0].id, FixtureId(10));
}

#[test]
fn default_importer_is_empty() {
    let importer = VixenImporter::default();
    assert_eq!(importer.fixture_count(), 0);
    assert_eq!(importer.group_count(), 0);
    assert_eq!(importer.controller_count(), 0);
    assert!(importer.warnings().is_empty());
    assert!(importer.guid_map().is_empty());
}

#[test]
fn warnings_are_kept_in_order() {
    let mut importer = VixenImporter::new();
    importer.add_warning("first".to_string());
    importer.add_warning("second".to_string());
    assert_eq!(importer.warnings(), &["first".to_string(), "second".to_string()]);
}

#[test]
fn controllers_per_output() {
    let mut importer = VixenImporter::new();
    scan_controllers(&mut importer, &[
        start("OutputControllers", &[]),
        start("Controller", &[("name", "Mega")]),
        empty("Output", &[("ip", "10.0.0.1"), ("universe", "1")]),
        start("Output", &[("ip", "10.0.0.1"), ("universe", "1")]),
        end("Output"),
        start("Output", &[("Address", "10.0.0.2"), ("Universe", "+2")]),
        end("Output"),
        start("Output", &[("ip", "10.0.0.3"), ("universe", "x")]),
        end("Output"),
        end("Controller"),
        start("Controller", &[("Name", "Bare")]),
        end("Controller"),
        end("OutputControllers"),
        start("Controller", &[("name", "Outside")]),
        end("Controller"),
    ]);
    let cs = importer.controllers();
    assert_eq!(cs.len(), 3);
    assert_eq!(cs[0].id.0, 0);
    assert_eq!(cs[0].name, "Mega (10.0.0.1)");
    assert!(matches!(&cs[0].protocol, ControllerProtocol::E131 { unicast_address: Some(a) } if a == "10.0.0.1"));
    assert_eq!(cs[1].id.0, 1);
    assert_eq!(cs[1].name, "Mega (10.0.0.2)");
    assert_eq!(cs[2].id.0, 2);
    assert_eq!(cs[2].name, "Bare");
    assert!(matches!(&cs[2].protocol, ControllerProtocol::E131 { unicast_address: None }));
}

#[test]
fn controller_universe_must_parse() {
    let mut importer = VixenImporter::new();
    scan_controllers(&mut importer, &[
        start("Controllers", &[]),
        start("Controller", &[("name", "C")]),
        start("Output", &[("ip", "1.2.3.4"), ("universe", "65536")]),
        end("Output"),
        start("Output", &[("ip", "1.2.3.5"), ("universe", "-1")]),
        end("Output"),
        start("Output", &[("ip", "1.2.3.6"), ("universe", "")]),
        end("Output"),
        start("Output", &[("ip", "1.2.3.7"), ("universe", "65535")]),
        end("Output"),
        end("Controller"),
        end("Controllers"),
    ]);
    let cs = importer.controllers();
    assert_eq!(cs.len(), 1);
    assert_eq!(cs[0].name, "C (1.2.3.7)");
}

#[test]
fn controller_tag_by_substring() {
    let mut importer = VixenImporter::new();
    scan_controllers(&mut importer, &[
        start("Controllers", &[]),
        start("E131ControllerModule", &[("name", "Sub")]),
        end("E131ControllerModule"),
        end("Controllers"),
    ]);
    assert_eq!(importer.controller_count(), 1);
    assert_eq!(importer.controllers()[0].name, "Sub");
}

// ── A whole configuration, tracks and preview pixels ────────────────

/// Yard (group 0) holds Strip (fixture 1, leaves s1..s3 merged into it) and
/// Bulb (fixture 5); one controller with one output.
fn yard() -> VixenImporter {
    let mut importer = VixenImporter::new();
    let events = vec![
        start("SystemConfig", &[]),
        start("Nodes", &[]),
        start("ElementNode", &[("id", "root"), ("name", "Yard")]),
        start("ElementNode", &[("id", "strip"), ("name", "Strip")]),
        empty("Node", &[("id", "s1")]),
        empty("Node", &[("id", "s2")]),
        empty("Node", &[("id", "s3")]),
        end("ElementNode"),
        empty("Node", &[("id", "bulb"), ("name", "Bulb")]),
        end("ElementNode"),
        end("Nodes"),
        start("OutputControllers", &[]),
        start("Controller", &[("name", "Mega")]),
        start("Output", &[("ip", "10.0.0.9"), ("universe", "3")]),
        end("Output"),
        end("Controller"),
        end("OutputControllers"),
        end("SystemConfig"),
    ];
    assert!(importer.read_system_config(&events));
    importer
}

#[test]
fn system_config_reads_nodes_controllers_and_builds() {
    let importer = yard();
    assert_eq!(importer.node_list().len(), 6);
    assert_eq!(importer.group_count(), 1);
    assert_eq!(importer.fixture_count(), 2);
    assert_eq!(importer.fixtures()[0].id, FixtureId(1));
    assert_eq!(importer.fixtures()[0].pixel_count, 3);
    assert_eq!(importer.fixtures()[1].id, FixtureId(5));
    assert_eq!(id_of(&importer, "s3"), Some(1));
    assert_eq!(importer.controller_count(), 1);
    assert_eq!(importer.controllers()[0].name, "Mega (10.0.0.9)");
}

#[test]
fn track_keys_drop_unknown_targets() {
    let importer = yard();
    assert_eq!(importer.track_key(&[]), Some("_all_".to_string()));
    assert_eq!(importer.track_key(&["_all_".to_string()]), Some("_all_".to_string()));
    assert_eq!(importer.track_key(&["strip".to_string(), "ghost".to_string()]), Some("strip".to_string()));
    assert_eq!(importer.track_key(&["ghost".to_string(), "strip".to_string()]), None);
}

#[test]
fn track_targets_resolve_to_fixture_group_or_all() {
    let importer = yard();
    assert!(matches!(importer.resolve_track_target("_all_"), Some(EffectTarget::All)));
    assert!(matches!(importer.resolve_track_target("s2"), Some(EffectTarget::Fixtures(ids)) if ids == vec![FixtureId(1)]));
    assert!(matches!(importer.resolve_track_target("root"), Some(EffectTarget::Group(GroupId(0)))));
    assert!(importer.resolve_track_target("ghost").is_none());
    let bare = VixenImporter::from_setup(vec![], vec![], vec![], vec![], vec![("x".to_string(), 4)]);
    assert!(bare.resolve_track_target("x").is_none());
}

#[test]
fn track_names_carry_lane_numbers() {
    let importer = yard();
    assert_eq!(importer.track_name("_all_", 0, 0, 1), "All");
    assert_eq!(importer.track_name("bulb", 2, 0, 1), "Bulb");
    assert_eq!(importer.track_name("strip", 2, 1, 3), "Strip (2)");
    assert_eq!(importer.track_name("gone", 4, 0, 1), "Track 5");
    assert_eq!(importer.track_name("gone", 9, 0, 2), "Track 10 (1)");
}

#[test]
fn capped_lengths_keep_what_the_cap_leaves() {
    assert_eq!(MAX_TOTAL_EFFECTS, 10_000);
    assert_eq!(capped_lengths(&[6000, 5000, 10]), vec![6000, 4000, 0]);
    assert_eq!(capped_lengths(&[3, 4]), vec![3, 4]);
    assert_eq!(capped_lengths(&[]), Vec::<usize>::new());
}

fn placed(node_id: &str) -> PlacedPixel {
    PlacedPixel { node_id: node_id.to_string(), x: vec![], y: vec![] }
}

#[test]
fn preview_pixels_group_by_fixture() {
    let importer = yard();
    let items = vec![
        ItemText {
            name: "A".to_string(),
            shape_type: "PreviewLine".to_string(),
            pixels: ItemPixels::Placed(vec![placed("s2"), placed("s1"), placed("ghost"), placed("bulb")]),
        },
        ItemText {
            name: "B".to_string(),
            shape_type: "Weird".to_string(),
            pixels: ItemPixels::Along(
                vec!["s1".to_string(), "bulb".to_string(), "ghost2".to_string(), "s3".to_string()],
                vec![],
            ),
        },
        ItemText { name: "C".to_string(), shape_type: String::new(), pixels: ItemPixels::Placed(vec![]) },
    ];
    let g = importer.group_layout_pixels(&items);
    let fixtures: Vec<(u32, Vec<(usize, usize)>)> =
        g.fixtures.iter().map(|f| (f.fixture_id, f.pixels.clone())).collect();
    assert_eq!(fixtures, vec![(1, vec![(0, 0), (0, 1), (1, 3)]), (5, vec![(0, 3)])]);
    assert_eq!(g.orphans, 2);
    assert_eq!(
        g.warnings,
        vec![
            "Unsupported preview shape type 'Weird' for 'B' — imported as Custom".to_string(),
            "2 preview pixels could not be mapped to imported fixtures (orphan node IDs)".to_string(),
        ]
    );
}

