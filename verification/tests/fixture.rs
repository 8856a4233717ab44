use vibe_lights::fixture::{
    BulbShape, ChannelOrder, ColorModel, DmxAddress, FixtureDef, FixtureGroup, FixtureId, GroupId, GroupMember,
    PixelType,
};

fn group(id: u32, members: Vec<GroupMember>) -> FixtureGroup {
    FixtureGroup { id: GroupId(id), name: format!("Group {id}"), members }
}

#[test]
fn dmx_address_range() {
    assert!(DmxAddress::new(0).is_none());
    assert_eq!(DmxAddress::new(1).map(|a| a.get()), Some(1));
    assert_eq!(DmxAddress::new(512).map(|a| a.get()), Some(512));
    assert!(DmxAddress::new(513).is_none());
}

#[test]
fn channels_per_pixel_by_model() {
    assert_eq!(ColorModel::Single.channels_per_pixel(), 1);
    assert_eq!(ColorModel::Rgb.channels_per_pixel(), 3);
    assert_eq!(ColorModel::Rgbw.channels_per_pixel(), 4);
    assert_eq!(ChannelOrder::default(), ChannelOrder::Rgb);
}

#[test]
fn resolve_flat_group_in_order() {
    let g = group(1, vec![
        GroupMember::Fixture(FixtureId(3)),
        GroupMember::Fixture(FixtureId(1)),
        GroupMember::Fixture(FixtureId(3)),
    ]);
    assert_eq!(g.resolve_fixture_ids(&[]), vec![FixtureId(3), FixtureId(1), FixtureId(3)]);
}

#[test]
fn resolve_nested_groups_depth_first() {
    let inner = group(2, vec![GroupMember::Fixture(FixtureId(20)), GroupMember::Fixture(FixtureId(21))]);
    let outer = group(1, vec![
        GroupMember::Fixture(FixtureId(10)),
        GroupMember::Group(GroupId(2)),
        GroupMember::Fixture(FixtureId(11)),
    ]);
    let all = vec![outer.clone(), inner];
    assert_eq!(
        outer.resolve_fixture_ids(&all),
        vec![FixtureId(10), FixtureId(20), FixtureId(21), FixtureId(11)]
    );
}

#[test]
fn resolve_stops_at_cycles_and_repeats() {
    // 1 -> 2 -> 3 -> 1, and 2 is referenced twice.
    let g1 = group(1, vec![GroupMember::Group(GroupId(2)), GroupMember::Group(GroupId(2))]);
    let g2 = group(2, vec![GroupMember::Fixture(FixtureId(5)), GroupMember::Group(GroupId(3))]);
    let g3 = group(3, vec![GroupMember::Group(GroupId(1)), GroupMember::Fixture(FixtureId(6))]);
    let all = vec![g1.clone(), g2, g3];
    assert_eq!(g1.resolve_fixture_ids(&all), vec![FixtureId(5), FixtureId(6)]);
}

#[test]
fn resolve_skips_unknown_groups() {
    let g = group(1, vec![GroupMember::Group(GroupId(99)), GroupMember::Fixture(FixtureId(7))]);
    assert_eq!(g.resolve_fixture_ids(&[g.clone()]), vec![FixtureId(7)]);
}

#[test]
fn resolve_uses_first_group_with_an_id() {
    let a = group(2, vec![GroupMember::Fixture(FixtureId(1))]);
    let b = group(2, vec![GroupMember::Fixture(FixtureId(2))]);
    let root = group(1, vec![GroupMember::Group(GroupId(2))]);
    assert_eq!(root.resolve_fixture_ids(&[a, b]), vec![FixtureId(1)]);
}

#[test]
fn total_channels_by_model() {
    let mut f = FixtureDef {
        id: FixtureId(1),
        name: "Arch".to_string(),
        color_model: ColorModel::Rgb,
        pixel_count: 50,
        pixel_type: PixelType::default(),
        bulb_shape: BulbShape::default(),
        channel_order: ChannelOrder::default(),
    };
    assert_eq!(f.total_channels(), 150);
    f.color_model = ColorModel::Rgbw;
    assert_eq!(f.total_channels(), 200);
    f.color_model = ColorModel::Single;
    f.pixel_count = 1;
    assert_eq!(f.total_channels(), 1);
    assert_eq!(PixelType::default(), PixelType::Smart);
    assert_eq!(BulbShape::default(), BulbShape::LED);
}
