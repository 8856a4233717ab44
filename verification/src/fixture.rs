//! Fixtures, their DMX addressing and patching, controllers, and groups of
//! fixtures with hierarchical nesting.

use vstd::prelude::*;
use vstd::set_lib::*;
use vstd::seq_lib::*;

use std::collections::HashSet;

verus! {

/// Newtype for fixture identity. Prevents mixing up fixture IDs with other integers.
#[derive(Debug, Clone, Copy, PartialEq, Eq, Hash, Structural)]
pub struct FixtureId(pub u32);

/// Newtype for group identity.
#[derive(Debug, Clone, Copy, PartialEq, Eq, Hash, Structural)]
pub struct GroupId(pub u32);

/// Newtype for controller identity.
#[derive(Debug, Clone, Copy, PartialEq, Eq, Hash, Structural)]
pub struct ControllerId(pub u32);

// ── Color & Channel Models ──────────────────────────────────────────

/// How a fixture's channels map to color data.
#[derive(Debug, Clone, Copy, PartialEq, Eq, Structural)]
pub enum ColorModel {
    /// Single intensity channel (dimmers, single-color LEDs).
    Single,
    /// 3 channels for color. Order specified by `ChannelOrder`.
    Rgb,
    /// 4 channels: RGB + dedicated white.
    Rgbw,
}

impl ColorModel {
    /// Number of DMX channels consumed per pixel for this color model.
    pub fn channels_per_pixel(self) -> (n: u16)
        ensures
            n == match self {
                ColorModel::Single => 1u16,
                ColorModel::Rgb => 3u16,
                ColorModel::Rgbw => 4u16,
            },
    {
        match self {
            ColorModel::Single => 1,
            ColorModel::Rgb => 3,
            ColorModel::Rgbw => 4,
        }
    }
}

/// Channel byte ordering within a pixel. Different protocols/chips use different orders.
#[derive(Debug, Clone, Copy, PartialEq, Eq, Structural)]
pub enum ChannelOrder {
    Rgb,
    Grb,
    Brg,
    Rbg,
    Gbr,
    Bgr,
}

impl Default for ChannelOrder {
    fn default() -> (o: Self)
        ensures
            o == ChannelOrder::Rgb,
    {
        ChannelOrder::Rgb
    }
}

// ── DMX Addressing ──────────────────────────────────────────────────

/// DMX universe number (0-indexed internally, shown as 1-indexed to users).
#[derive(Debug, Clone, Copy, PartialEq, Eq, Hash, Structural)]
pub struct Universe(pub u16);

/// DMX channel address within a universe. Valid range: 1..=512.
#[derive(Debug, Clone, Copy, PartialEq, Eq, Structural)]
pub struct DmxAddress(u16);

impl DmxAddress {
    /// The address value; always within 1..=512.
    pub closed spec fn value(self) -> u16 {
        self.0
    }

    #[verifier::type_invariant]
    spec fn in_range(self) -> bool {
        1 <= self.0 <= 512
    }

    /// Create a DMX address. Returns None if out of valid range (1-512).
    pub fn new(addr: u16) -> (r: Option<Self>)
        ensures
            (1 <= addr <= 512) <==> r is Some,
            r matches Some(d) ==> d.value() == addr,
    {
        if 1 <= addr && addr <= 512 {
            Some(Self(addr))
        } else {
            None
        }
    }

    /// The address, within 1..=512.
    pub fn get(self) -> (r: u16)
        ensures
            r == self.value(),
            1 <= r <= 512,
    {
        proof {
            use_type_invariant(&self);
        }
        self.0
    }
}

// ── Output / Patching ───────────────────────────────────────────────

/// How a fixture's pixel data gets mapped to a physical output.
#[derive(Debug, Clone)]
pub struct Patch {
    pub fixture_id: FixtureId,
    pub output: OutputMapping,
}

/// Where a fixture's channel data is sent.
#[derive(Debug, Clone)]
pub enum OutputMapping {
    /// Standard DMX (E1.31/sACN, ArtNet, or serial DMX).
    Dmx { universe: Universe, start_address: DmxAddress, channel_order: ChannelOrder },
    /// Direct pixel protocol output through a controller port.
    PixelPort { controller_id: ControllerId, port: u16, channel_order: ChannelOrder },
}

// ── Controller ──────────────────────────────────────────────────────

/// How a controller communicates with the sequencer.
#[derive(Debug, Clone)]
pub enum ControllerProtocol {
    /// E1.31 (Streaming ACN) over network.
    E131 { unicast_address: Option<String> },
    /// ArtNet over network.
    ArtNet { address: Option<String> },
    /// Serial (USB) for direct pixel output.
    Serial { port: String, baud_rate: u32 },
}

/// A physical controller that drives one or more outputs.
#[derive(Debug, Clone)]
pub struct Controller {
    pub id: ControllerId,
    pub name: String,
    pub protocol: ControllerProtocol,
}

/// The contents of a `ControllerProtocol`.
pub ghost enum ProtocolView {
    E131 { unicast_address: Option<Seq<char>> },
    ArtNet { address: Option<Seq<char>> },
    Serial { port: Seq<char>, baud_rate: u32 },
}

/// The contents of a `Controller`.
pub ghost struct ControllerView {
    pub id: u32,
    pub name: Seq<char>,
    pub protocol: ProtocolView,
}

/// An optional string as an optional character sequence.
pub open spec fn opt_chars(s: Option<String>) -> Option<Seq<char>> {
    match s {
        Some(v) => Some(v@),
        None => None,
    }
}

impl View for ControllerProtocol {
    type V = ProtocolView;

    open spec fn view(&self) -> ProtocolView {
        match self {
            ControllerProtocol::E131 { unicast_address } => ProtocolView::E131 {
                unicast_address: opt_chars(*unicast_address),
            },
            ControllerProtocol::ArtNet { address } => ProtocolView::ArtNet { address: opt_chars(*address) },
            ControllerProtocol::Serial { port, baud_rate } => ProtocolView::Serial {
                port: port@,
                baud_rate: *baud_rate,
            },
        }
    }
}

impl View for Controller {
    type V = ControllerView;

    open spec fn view(&self) -> ControllerView {
        ControllerView { id: self.id.0, name: self.name@, protocol: self.protocol@ }
    }
}

/// A sequence of controllers by their contents.
pub open spec fn controllers_view(s: Seq<Controller>) -> Seq<ControllerView> {
    s.map_values(|c: Controller| c@)
}

// ── Pixel & Bulb Types ──────────────────────────────────────────────

/// Whether a fixture uses individually-addressable (smart) or ganged (dumb) pixels.
#[derive(Debug, Clone, Copy, PartialEq, Eq, Structural)]
pub enum PixelType {
    Smart,
    Dumb,
}

impl Default for PixelType {
    fn default() -> (p: Self)
        ensures
            p == PixelType::Smart,
    {
        PixelType::Smart
    }
}

/// Physical bulb shape, affects display size in the preview renderer.
#[derive(Debug, Clone, Copy, PartialEq, Eq, Structural)]
pub enum BulbShape {
    LED,
    C9,
    C7,
    Mini,
    Flood,
    Icicle,
    Globe,
    Snowflake,
}

impl Default for BulbShape {
    fn default() -> (b: Self)
        ensures
            b == BulbShape::LED,
    {
        BulbShape::LED
    }
}

// ── Fixture Definition ──────────────────────────────────────────────

/// A fixture definition: what the light is, not how it is connected
/// (connection info lives in `Patch` and `Controller`). The preview's display
/// radius override is a renderer setting and is kept beside this record by
/// the application.
#[derive(Debug, Clone)]
pub struct FixtureDef {
    pub id: FixtureId,
    pub name: String,
    pub color_model: ColorModel,
    /// Number of individually addressable pixels. 1 for simple fixtures.
    pub pixel_count: u32,
    pub pixel_type: PixelType,
    pub bulb_shape: BulbShape,
    pub channel_order: ChannelOrder,
}

/// The contents of a `FixtureDef`.
pub ghost struct FixtureView {
    pub id: u32,
    pub name: Seq<char>,
    pub color_model: ColorModel,
    pub pixel_count: u32,
    pub pixel_type: PixelType,
    pub bulb_shape: BulbShape,
    pub channel_order: ChannelOrder,
}

impl View for FixtureDef {
    type V = FixtureView;

    open spec fn view(&self) -> FixtureView {
        FixtureView {
            id: self.id.0,
            name: self.name@,
            color_model: self.color_model,
            pixel_count: self.pixel_count,
            pixel_type: self.pixel_type,
            bulb_shape: self.bulb_shape,
            channel_order: self.channel_order,
        }
    }
}

/// A sequence of fixture definitions by their contents.
pub open spec fn fixtures_view(s: Seq<FixtureDef>) -> Seq<FixtureView> {
    s.map_values(|f: FixtureDef| f@)
}

/// DMX channels consumed per pixel by a colour model.
pub open spec fn channels_of(m: ColorModel) -> int {
    match m {
        ColorModel::Single => 1,
        ColorModel::Rgb => 3,
        ColorModel::Rgbw => 4,
    }
}

impl FixtureDef {
    /// Total DMX channels this fixture consumes.
    pub fn total_channels(&self) -> (n: u32)
        requires
            self.pixel_count * channels_of(self.color_model) <= u32::MAX,
        ensures
            n == self.pixel_count * channels_of(self.color_model),
    {
        let per_pixel: u16 = self.color_model.channels_per_pixel();
        let per: u32 = per_pixel as u32;
        self.pixel_count * per
    }
}

// ── Groups & Targeting ──────────────────────────────────────────────

/// A member of a group: either a direct fixture or a nested sub-group.
#[derive(Debug, Clone, Copy, PartialEq, Eq, Structural)]
pub enum GroupMember {
    Fixture(FixtureId),
    Group(GroupId),
}

/// A named group of fixtures for targeting effects. Supports hierarchical nesting.
#[derive(Debug, Clone)]
pub struct FixtureGroup {
    pub id: GroupId,
    pub name: String,
    pub members: Vec<GroupMember>,
}

/// The contents of a `FixtureGroup`.
pub ghost struct GroupView {
    pub id: u32,
    pub name: Seq<char>,
    pub members: Seq<GroupMember>,
}

impl View for FixtureGroup {
    type V = GroupView;

    open spec fn view(&self) -> GroupView {
        GroupView { id: self.id.0, name: self.name@, members: self.members@ }
    }
}

/// A sequence of groups by their contents.
pub open spec fn groups_view(s: Seq<FixtureGroup>) -> Seq<GroupView> {
    s.map_values(|g: FixtureGroup| g@)
}

/// What an effect targets: a specific set of fixtures or a named group.
#[derive(Debug, Clone)]
pub enum EffectTarget {
    Group(GroupId),
    Fixtures(Vec<FixtureId>),
    All,
}

/// The contents of an `EffectTarget`.
pub ghost enum TargetView {
    Group(u32),
    Fixtures(Seq<u32>),
    All,
}

impl View for EffectTarget {
    type V = TargetView;

    open spec fn view(&self) -> TargetView {
        match self {
            EffectTarget::Group(g) => TargetView::Group(g.0),
            EffectTarget::Fixtures(f) => TargetView::Fixtures(f@.map_values(|x: FixtureId| x.0)),
            EffectTarget::All => TargetView::All,
        }
    }
}

// ── Group resolution (mathematical statement) ───────────────────────

/// The ids of all groups in `groups`.
pub open spec fn group_ids(groups: Seq<FixtureGroup>) -> Set<u32> {
    groups.map_values(|g: FixtureGroup| g.id.0).to_set()
}

/// The number of group ids in `groups` that are not in `visited`.
pub open spec fn unvisited(groups: Seq<FixtureGroup>, visited: Set<u32>) -> nat {
    group_ids(groups).difference(visited).len()
}

/// The index of the first group in `groups` with id `gid`, if there is one.
pub open spec fn find_group(groups: Seq<FixtureGroup>, gid: u32) -> Option<int> {
    if exists|i: int| is_first_group(groups, gid, i) {
        Some(choose|i: int| is_first_group(groups, gid, i))
    } else {
        None
    }
}

/// `i` is the position of the first group with id `gid`.
pub open spec fn is_first_group(groups: Seq<FixtureGroup>, gid: u32, i: int) -> bool {
    &&& 0 <= i < groups.len()
    &&& groups[i].id.0 == gid
    &&& forall|j: int| 0 <= j < i ==> groups[j].id.0 != gid
}

/// The group ids are a finite set holding every group's id.
pub proof fn lemma_group_ids(groups: Seq<FixtureGroup>)
    ensures
        group_ids(groups).finite(),
        forall|j: int| 0 <= j < groups.len() ==> group_ids(groups).contains(#[trigger] groups[j].id.0),
{
    let ids = groups.map_values(|g: FixtureGroup| g.id.0);
    seq_to_set_is_finite(ids);
    assert forall|j: int| 0 <= j < groups.len() implies group_ids(groups).contains(
        #[trigger] groups[j].id.0,
    ) by {
        assert(ids[j] == groups[j].id.0);
    }
}

/// Marking an unvisited group id leaves fewer unvisited ids.
pub proof fn lemma_unvisited_insert(groups: Seq<FixtureGroup>, visited: Set<u32>, gid: u32)
    requires
        group_ids(groups).contains(gid),
        !visited.contains(gid),
    ensures
        unvisited(groups, visited.insert(gid)) < unvisited(groups, visited),
{
    lemma_group_ids(groups);
    let d = group_ids(groups).difference(visited);
    assert(group_ids(groups).difference(visited.insert(gid)) =~= d.remove(gid));
    assert(d.contains(gid));
}

/// Marking more ids never leaves more unvisited ids.
pub proof fn lemma_unvisited_union(groups: Seq<FixtureGroup>, visited: Set<u32>, more: Set<u32>)
    ensures
        unvisited(groups, more.union(visited)) <= unvisited(groups, visited),
{
    lemma_group_ids(groups);
    let d = group_ids(groups).difference(visited);
    let d2 = group_ids(groups).difference(more.union(visited));
    assert(d2.subset_of(d));
    lemma_len_subset(d2, d);
}

/// Depth-first expansion of `members[i..]`: fixtures are emitted in order,
/// and each group id not yet in `visited` is marked visited and, when
/// `groups` holds a group with that id (the first such), expanded in place.
/// Returns the fixtures emitted and the final visited set.
pub open spec fn walk(
    members: Seq<GroupMember>,
    i: int,
    groups: Seq<FixtureGroup>,
    visited: Set<u32>,
) -> (Seq<FixtureId>, Set<u32>)
    decreases unvisited(groups, visited), members.len() - i,
{
    if i < 0 || i >= members.len() {
        (Seq::empty(), visited)
    } else {
        let head: (Seq<FixtureId>, Set<u32>) = match members[i] {
            GroupMember::Fixture(id) => (seq![id], visited),
            GroupMember::Group(gid) => {
                if visited.contains(gid.0) {
                    (Seq::empty(), visited)
                } else {
                    match find_group(groups, gid.0) {
                        Some(j) => {
                            proof {
                                lemma_group_ids(groups);
                                assert(group_ids(groups).contains(groups[j].id.0));
                                lemma_unvisited_insert(groups, visited, gid.0);
                            }
                            walk(groups[j].members@, 0, groups, visited.insert(gid.0))
                        },
                        None => (Seq::empty(), visited.insert(gid.0)),
                    }
                }
            },
        };
        proof {
            lemma_unvisited_union(groups, visited, head.1);
        }
        let tail = walk(members, i + 1, groups, head.1.union(visited));
        (head.0 + tail.0, tail.1)
    }
}

/// A walk never removes anything from the visited set.
pub proof fn lemma_walk_grows_visited(
    members: Seq<GroupMember>,
    i: int,
    groups: Seq<FixtureGroup>,
    visited: Set<u32>,
)
    ensures
        visited.subset_of(walk(members, i, groups, visited).1),
    decreases unvisited(groups, visited), members.len() - i,
{
    if i < 0 || i >= members.len() {
    } else {
        let head: (Seq<FixtureId>, Set<u32>) = match members[i] {
            GroupMember::Fixture(id) => (seq![id], visited),
            GroupMember::Group(gid) => {
                if visited.contains(gid.0) {
                    (Seq::empty(), visited)
                } else {
                    match find_group(groups, gid.0) {
                        Some(j) => {
                            lemma_group_ids(groups);
                            assert(group_ids(groups).contains(groups[j].id.0));
                            lemma_unvisited_insert(groups, visited, gid.0);
                            lemma_walk_grows_visited(
                                groups[j].members@,
                                0,
                                groups,
                                visited.insert(gid.0),
                            );
                            walk(groups[j].members@, 0, groups, visited.insert(gid.0))
                        },
                        None => (Seq::empty(), visited.insert(gid.0)),
                    }
                }
            },
        };
        lemma_unvisited_union(groups, visited, head.1);
        lemma_walk_grows_visited(members, i + 1, groups, head.1.union(visited));
    }
}

/// The fixtures a group resolves to: a depth-first walk of its members that
/// starts with the group itself marked visited.
pub open spec fn resolved_fixture_ids(group: FixtureGroup, groups: Seq<FixtureGroup>) -> Seq<
    FixtureId,
> {
    walk(group.members@, 0, groups, set![group.id.0]).0
}

/// The position of the first group in `groups` with id `gid`.
fn find_group_index(groups: &[FixtureGroup], gid: u32) -> (r: Option<usize>)
    ensures
        match r {
            Some(i) => find_group(groups@, gid) == Some(i as int),
            None => find_group(groups@, gid) is None,
        },
{
    let mut i: usize = 0;
    while i < groups.len()
        invariant
            0 <= i <= groups@.len(),
            forall|j: int| 0 <= j < i ==> groups@[j].id.0 != gid,
        decreases groups@.len() - i,
    {
        if groups[i].id.0 == gid {
            assert(is_first_group(groups@, gid, i as int));
            assert forall|k: int| is_first_group(groups@, gid, k) implies k == i by {
                if k < i {
                } else if k > i {
                    assert(groups@[i as int].id.0 == gid);
                }
            }
            return Some(i);
        }
        i += 1;
    }
    assert(!exists|k: int| is_first_group(groups@, gid, k));
    None
}

impl FixtureGroup {
    /// Recursively resolve all fixture IDs in this group, with cycle detection.
    pub fn resolve_fixture_ids(&self, all_groups: &[FixtureGroup]) -> (r: Vec<FixtureId>)
        ensures
            r@ == resolved_fixture_ids(*self, all_groups@),
    {
        broadcast use vstd::std_specs::hash::group_hash_axioms;

        let mut result: Vec<FixtureId> = Vec::new();
        let mut visited: HashSet<u32> = HashSet::new();
        visited.insert(self.id.0);
        assert(visited@ =~= set![self.id.0]);
        Self::resolve_recursive(self.members.as_slice(), all_groups, &mut visited, &mut result);
        assert(result@ =~= resolved_fixture_ids(*self, all_groups@));
        result
    }

    fn resolve_recursive(
        members: &[GroupMember],
        all_groups: &[FixtureGroup],
        visited: &mut HashSet<u32>,
        result: &mut Vec<FixtureId>,
    )
        ensures
            final(result)@ == old(result)@ + walk(members@, 0, all_groups@, old(visited)@).0,
            final(visited)@ == walk(members@, 0, all_groups@, old(visited)@).1,
        decreases unvisited(all_groups@, old(visited)@),
    {
        broadcast use vstd::std_specs::hash::group_hash_axioms;

        let ghost v0 = visited@;
        let ghost r0 = result@;
        let ghost w = walk(members@, 0, all_groups@, v0);
        let mut i: usize = 0;
        while i < members.len()
            invariant
                0 <= i <= members@.len(),
                v0.subset_of(visited@),
                v0 == old(visited)@,
                w == walk(members@, 0, all_groups@, v0),
                r0 + w.0 == result@ + walk(members@, i as int, all_groups@, visited@).0,
                w.1 == walk(members@, i as int, all_groups@, visited@).1,
            decreases members@.len() - i,
        {
            let ghost vi = visited@;
            let ghost ri = result@;
            let ghost head: (Seq<FixtureId>, Set<u32>) = match members@[i as int] {
                GroupMember::Fixture(id) => (seq![id], vi),
                GroupMember::Group(gid) => {
                    if vi.contains(gid.0) {
                        (Seq::empty(), vi)
                    } else {
                        match find_group(all_groups@, gid.0) {
                            Some(j) => walk(all_groups@[j].members@, 0, all_groups@, vi.insert(gid.0)),
                            None => (Seq::empty(), vi.insert(gid.0)),
                        }
                    }
                },
            };
            match members[i] {
                GroupMember::Fixture(id) => {
                    result.push(id);
                },
                GroupMember::Group(gid) => {
                    if visited.insert(gid.0) {
                        match find_group_index(all_groups, gid.0) {
                            Some(j) => {
                                proof {
                                    lemma_group_ids(all_groups@);
                                    assert(group_ids(all_groups@).contains(all_groups@[j as int].id.0));
                                    lemma_unvisited_insert(all_groups@, vi, gid.0);
                                    lemma_unvisited_union(all_groups@, v0, vi);
                                    assert(vi.union(v0) =~= vi);
                                    assert(visited@ == vi.insert(gid.0));
                                    assert(unvisited(all_groups@, visited@) < unvisited(
                                        all_groups@,
                                        old(visited)@,
                                    ));
                                }
                                Self::resolve_recursive(
                                    all_groups[j].members.as_slice(),
                                    all_groups,
                                    visited,
                                    result,
                                );
                            },
                            None => {},
                        }
                    }
                },
            }
            proof {
                lemma_walk_grows_visited(members@, i as int, all_groups@, vi);
                match members@[i as int] {
                    GroupMember::Group(gid) => {
                        if !vi.contains(gid.0) {
                            if let Some(j) = find_group(all_groups@, gid.0) {
                                lemma_walk_grows_visited(
                                    all_groups@[j].members@,
                                    0,
                                    all_groups@,
                                    vi.insert(gid.0),
                                );
                            }
                        }
                    },
                    _ => {},
                }
                assert(vi.subset_of(head.1));
                assert(head.1.union(vi) =~= head.1);
                assert(result@ =~= ri + head.0);
                assert(visited@ == head.1);
            }
            i += 1;
        }
        assert(result@ =~= r0 + w.0);
    }
}

// ── Reachability (what resolution promises) ─────────────────────────

/// Ids of the groups listed in `ms[i..]`.
pub open spec fn member_groups(ms: Seq<GroupMember>, i: int) -> Set<u32> {
    Set::new(|x: u32| exists|k: int| i <= k < ms.len() && ms[k] == GroupMember::Group(GroupId(x)))
}

/// Fixtures listed directly in `ms[i..]`.
pub open spec fn member_fixtures(ms: Seq<GroupMember>, i: int) -> Set<FixtureId> {
    Set::new(|f: FixtureId| exists|k: int| i <= k < ms.len() && ms[k] == GroupMember::Fixture(f))
}

/// The members a group id stands for: those of the first group in `groups`
/// with that id, or none.
pub open spec fn expansion(groups: Seq<FixtureGroup>, x: u32) -> Seq<GroupMember> {
    match find_group(groups, x) {
        Some(j) => groups[j].members@,
        None => Seq::empty(),
    }
}

/// Group ids reachable from `ms[i..]` in at most `n` nested steps.
pub open spec fn reach(ms: Seq<GroupMember>, i: int, groups: Seq<FixtureGroup>, n: nat) -> Set<u32>
    decreases n,
{
    if n == 0 {
        member_groups(ms, i)
    } else {
        let r = reach(ms, i, groups, (n - 1) as nat);
        r.union(
            Set::new(
                |h: u32| exists|x: u32| #[trigger] r.contains(x) && member_groups(expansion(groups, x), 0).contains(h),
            ),
        )
    }
}

/// `x` is reachable from `ms[i..]` through group nesting.
pub open spec fn reachable_group(ms: Seq<GroupMember>, i: int, groups: Seq<FixtureGroup>, x: u32) -> bool {
    exists|n: nat| #[trigger] reach(ms, i, groups, n).contains(x)
}

/// `f` is listed in `ms[i..]` or in a group reachable from it.
pub open spec fn reachable_fixture(
    ms: Seq<GroupMember>,
    i: int,
    groups: Seq<FixtureGroup>,
    f: FixtureId,
) -> bool {
    ||| member_fixtures(ms, i).contains(f)
    ||| exists|x: u32|
        #[trigger] reachable_group(ms, i, groups, x) && member_fixtures(expansion(groups, x), 0).contains(f)
}

/// What is reachable from `ms[i+1..]` is reachable from `ms[i..]`.
pub proof fn lemma_reach_suffix(ms: Seq<GroupMember>, i: int, groups: Seq<FixtureGroup>, n: nat)
    requires
        0 <= i,
    ensures
        reach(ms, i + 1, groups, n).subset_of(reach(ms, i, groups, n)),
    decreases n,
{
    if n > 0 {
        lemma_reach_suffix(ms, i, groups, (n - 1) as nat);
        let r1 = reach(ms, i + 1, groups, (n - 1) as nat);
        let r0 = reach(ms, i, groups, (n - 1) as nat);
        assert forall|h: u32| reach(ms, i + 1, groups, n).contains(h) implies reach(ms, i, groups, n).contains(h) by {
            if !r1.contains(h) {
                let x = choose|x: u32| #[trigger] r1.contains(x) && member_groups(expansion(groups, x), 0).contains(h);
                assert(r0.contains(x));
            }
        }
    } else {
        assert forall|h: u32| reach(ms, i + 1, groups, 0).contains(h) implies reach(ms, i, groups, 0).contains(h) by {
            let k = choose|k: int| i + 1 <= k < ms.len() && ms[k] == GroupMember::Group(GroupId(h));
            assert(i <= k < ms.len() && ms[k] == GroupMember::Group(GroupId(h)));
        }
    }
}

/// What is reachable from the members of a group listed in `ms[i..]` is
/// reachable from `ms[i..]` in one more step.
pub proof fn lemma_reach_nested(ms: Seq<GroupMember>, i: int, groups: Seq<FixtureGroup>, g: u32, n: nat)
    requires
        member_groups(ms, i).contains(g),
    ensures
        reach(expansion(groups, g), 0, groups, n).subset_of(reach(ms, i, groups, n + 1)),
    decreases n,
{
    let e = expansion(groups, g);
    if n == 0 {
        assert(reach(ms, i, groups, 0).contains(g));
        assert forall|h: u32| reach(e, 0, groups, 0).contains(h) implies reach(ms, i, groups, 1).contains(h) by {
            assert(reach(ms, i, groups, 0).contains(g) && member_groups(expansion(groups, g), 0).contains(h));
        }
    } else {
        lemma_reach_nested(ms, i, groups, g, (n - 1) as nat);
        let re = reach(e, 0, groups, (n - 1) as nat);
        let rm = reach(ms, i, groups, n);
        assert forall|h: u32| reach(e, 0, groups, n).contains(h) implies reach(ms, i, groups, n + 1).contains(h) by {
            if re.contains(h) {
                assert(rm.contains(h));
            } else {
                let x = choose|x: u32| #[trigger] re.contains(x) && member_groups(expansion(groups, x), 0).contains(h);
                assert(rm.contains(x));
            }
        }
    }
}

/// What a walk emits and marks covers everything listed, and every newly
/// marked group's own listing.
pub open spec fn walk_complete(
    ms: Seq<GroupMember>,
    i: int,
    groups: Seq<FixtureGroup>,
    visited: Set<u32>,
) -> bool {
    let w = walk(ms, i, groups, visited);
    &&& forall|f: FixtureId| #[trigger] member_fixtures(ms, i).contains(f) ==> w.0.contains(f)
    &&& member_groups(ms, i).subset_of(w.1)
    &&& forall|x: u32|
        #[trigger] w.1.contains(x) && !visited.contains(x) ==> {
            &&& forall|f: FixtureId|
                #[trigger] member_fixtures(expansion(groups, x), 0).contains(f) ==> w.0.contains(f)
            &&& member_groups(expansion(groups, x), 0).subset_of(w.1)
        }
}

/// Everything a walk emits is listed or belongs to a newly marked group,
/// and every newly marked group is reachable.
pub open spec fn walk_sound(
    ms: Seq<GroupMember>,
    i: int,
    groups: Seq<FixtureGroup>,
    visited: Set<u32>,
) -> bool {
    let w = walk(ms, i, groups, visited);
    &&& forall|k: int|
        0 <= k < w.0.len() ==> member_fixtures(ms, i).contains(#[trigger] w.0[k]) || exists|x: u32|
            #[trigger] w.1.contains(x) && !visited.contains(x) && member_fixtures(
                expansion(groups, x),
                0,
            ).contains(w.0[k])
    &&& forall|x: u32| #[trigger] w.1.contains(x) && !visited.contains(x) ==> reachable_group(ms, i, groups, x)
}

/// Every walk is complete in the sense of `walk_complete`.
pub proof fn lemma_walk_complete(
    ms: Seq<GroupMember>,
    i: int,
    groups: Seq<FixtureGroup>,
    visited: Set<u32>,
)
    requires
        0 <= i,
    ensures
        walk_complete(ms, i, groups, visited),
    decreases unvisited(groups, visited), ms.len() - i,
{
    broadcast use vstd::seq_lib::group_seq_properties;

    let w = walk(ms, i, groups, visited);
    if i >= ms.len() {
        assert(member_fixtures(ms, i) =~= Set::empty());
        assert(member_groups(ms, i) =~= Set::empty());
    } else {
        let head: (Seq<FixtureId>, Set<u32>) = match ms[i] {
            GroupMember::Fixture(id) => (seq![id], visited),
            GroupMember::Group(gid) => {
                if visited.contains(gid.0) {
                    (Seq::empty(), visited)
                } else {
                    match find_group(groups, gid.0) {
                        Some(j) => {
                            lemma_group_ids(groups);
                            assert(group_ids(groups).contains(groups[j].id.0));
                            lemma_unvisited_insert(groups, visited, gid.0);
                            lemma_walk_complete(groups[j].members@, 0, groups, visited.insert(gid.0));
                            lemma_walk_grows_visited(
                                groups[j].members@,
                                0,
                                groups,
                                visited.insert(gid.0),
                            );
                            walk(groups[j].members@, 0, groups, visited.insert(gid.0))
                        },
                        None => (Seq::empty(), visited.insert(gid.0)),
                    }
                }
            },
        };
        assert(visited.subset_of(head.1));
        assert(head.1.union(visited) =~= head.1);
        lemma_unvisited_union(groups, visited, head.1);
        lemma_walk_complete(ms, i + 1, groups, head.1);
        lemma_walk_grows_visited(ms, i + 1, groups, head.1);
        let tail = walk(ms, i + 1, groups, head.1);
        assert(w.0 == head.0 + tail.0);
        assert(w.1 == tail.1);
        assert forall|f: FixtureId| #[trigger] member_fixtures(ms, i).contains(f) implies w.0.contains(f) by {
            let k = choose|k: int| i <= k < ms.len() && ms[k] == GroupMember::Fixture(f);
            if k == i {
                assert(head.0[0] == f);
            } else {
                assert(member_fixtures(ms, i + 1).contains(f));
            }
        }
        assert forall|x: u32| #[trigger] member_groups(ms, i).contains(x) implies w.1.contains(x) by {
            let k = choose|k: int| i <= k < ms.len() && ms[k] == GroupMember::Group(GroupId(x));
            if k == i {
                assert(head.1.contains(x));
            } else {
                assert(member_groups(ms, i + 1).contains(x));
            }
        }
        assert forall|x: u32| #[trigger] w.1.contains(x) && !visited.contains(x) implies {
            &&& forall|f: FixtureId|
                #[trigger] member_fixtures(expansion(groups, x), 0).contains(f) ==> w.0.contains(f)
            &&& member_groups(expansion(groups, x), 0).subset_of(w.1)
        } by {
            if !head.1.contains(x) {
            } else {
                match ms[i] {
                    GroupMember::Fixture(id) => {},
                    GroupMember::Group(gid) => {
                        match find_group(groups, gid.0) {
                            Some(j) => {
                                if x == gid.0 {
                                    assert(expansion(groups, x) == groups[j].members@);
                                } else {
                                }
                            },
                            None => {
                                assert(expansion(groups, x) =~= Seq::<GroupMember>::empty());
                                assert(member_groups(expansion(groups, x), 0) =~= Set::empty());
                            },
                        }
                    },
                }
            }
        }
    }
}

/// Every walk is sound in the sense of `walk_sound`.
pub proof fn lemma_walk_sound(
    ms: Seq<GroupMember>,
    i: int,
    groups: Seq<FixtureGroup>,
    visited: Set<u32>,
)
    requires
        0 <= i,
    ensures
        walk_sound(ms, i, groups, visited),
    decreases unvisited(groups, visited), ms.len() - i,
{
    broadcast use vstd::seq_lib::group_seq_properties;

    let w = walk(ms, i, groups, visited);
    if i < ms.len() {
        let head: (Seq<FixtureId>, Set<u32>) = match ms[i] {
            GroupMember::Fixture(id) => (seq![id], visited),
            GroupMember::Group(gid) => {
                if visited.contains(gid.0) {
                    (Seq::empty(), visited)
                } else {
                    match find_group(groups, gid.0) {
                        Some(j) => {
                            lemma_group_ids(groups);
                            assert(group_ids(groups).contains(groups[j].id.0));
                            lemma_unvisited_insert(groups, visited, gid.0);
                            lemma_walk_sound(groups[j].members@, 0, groups, visited.insert(gid.0));
                            lemma_walk_grows_visited(
                                groups[j].members@,
                                0,
                                groups,
                                visited.insert(gid.0),
                            );
                            walk(groups[j].members@, 0, groups, visited.insert(gid.0))
                        },
                        None => (Seq::empty(), visited.insert(gid.0)),
                    }
                }
            },
        };
        assert(visited.subset_of(head.1));
        assert(head.1.union(visited) =~= head.1);
        lemma_unvisited_union(groups, visited, head.1);
        lemma_walk_sound(ms, i + 1, groups, head.1);
        lemma_walk_grows_visited(ms, i + 1, groups, head.1);
        let tail = walk(ms, i + 1, groups, head.1);
        assert(w.0 == head.0 + tail.0);
        assert(w.1 == tail.1);
        // Newly marked groups of the head are reachable from ms[i..].
        assert forall|x: u32| #[trigger] head.1.contains(x) && !visited.contains(x) implies reachable_group(
            ms,
            i,
            groups,
            x,
        ) by {
            match ms[i] {
                GroupMember::Fixture(id) => {},
                GroupMember::Group(gid) => {
                    assert(member_groups(ms, i).contains(gid.0));
                    assert(reach(ms, i, groups, 0).contains(gid.0));
                    if x != gid.0 {
                        let j = find_group(groups, gid.0)->0;
                        assert(expansion(groups, gid.0) == groups[j].members@);
                        assert(reachable_group(groups[j].members@, 0, groups, x));
                        let n = choose|n: nat| #[trigger] reach(groups[j].members@, 0, groups, n).contains(x);
                        lemma_reach_nested(ms, i, groups, gid.0, n);
                        assert(reach(ms, i, groups, n + 1).contains(x));
                    }
                },
            }
        }
        assert forall|x: u32| #[trigger] w.1.contains(x) && !visited.contains(x) implies reachable_group(
            ms,
            i,
            groups,
            x,
        ) by {
            if !head.1.contains(x) {
                let n = choose|n: nat| #[trigger] reach(ms, i + 1, groups, n).contains(x);
                lemma_reach_suffix(ms, i, groups, n);
                assert(reach(ms, i, groups, n).contains(x));
            }
        }
        assert forall|k: int| 0 <= k < w.0.len() implies member_fixtures(ms, i).contains(#[trigger] w.0[k])
            || exists|x: u32|
            #[trigger] w.1.contains(x) && !visited.contains(x) && member_fixtures(
                expansion(groups, x),
                0,
            ).contains(w.0[k]) by {
            let f = w.0[k];
            if k < head.0.len() {
                assert(f == head.0[k]);
                match ms[i] {
                    GroupMember::Fixture(id) => {
                        assert(ms[i] == GroupMember::Fixture(f));
                        assert(member_fixtures(ms, i).contains(f));
                    },
                    GroupMember::Group(gid) => {
                        let j = find_group(groups, gid.0)->0;
                        assert(expansion(groups, gid.0) == groups[j].members@);
                        if member_fixtures(groups[j].members@, 0).contains(f) {
                            assert(w.1.contains(gid.0));
                        } else {
                            let x = choose|x: u32|
                                #[trigger] head.1.contains(x) && !visited.insert(gid.0).contains(x)
                                    && member_fixtures(expansion(groups, x), 0).contains(f);
                            assert(w.1.contains(x));
                        }
                    },
                }
            } else {
                assert(f == tail.0[k - head.0.len()]);
                if member_fixtures(ms, i + 1).contains(f) {
                    let m = choose|m: int| i + 1 <= m < ms.len() && ms[m] == GroupMember::Fixture(f);
                    assert(i <= m < ms.len() && ms[m] == GroupMember::Fixture(f));
                } else {
                    let x = choose|x: u32|
                        #[trigger] tail.1.contains(x) && !head.1.contains(x) && member_fixtures(
                            expansion(groups, x),
                            0,
                        ).contains(f);
                    assert(w.1.contains(x));
                }
            }
        }
    }
}

/// The group ids reachable from the root's members are all marked by the
/// walk that resolves the root.
proof fn lemma_reach_marked(group: FixtureGroup, groups: Seq<FixtureGroup>, n: nat)
    requires
        find_group(groups, group.id.0) is None || expansion(groups, group.id.0) == group.members@,
    ensures
        reach(group.members@, 0, groups, n).subset_of(
            walk(group.members@, 0, groups, set![group.id.0]).1,
        ),
    decreases n,
{
    let ms = group.members@;
    let r = group.id.0;
    let w = walk(ms, 0, groups, set![r]);
    lemma_walk_complete(ms, 0, groups, set![r]);
    if n > 0 {
        lemma_reach_marked(group, groups, (n - 1) as nat);
        let prev = reach(ms, 0, groups, (n - 1) as nat);
        assert forall|h: u32| reach(ms, 0, groups, n).contains(h) implies w.1.contains(h) by {
            if !prev.contains(h) {
                let x = choose|x: u32|
                    #[trigger] prev.contains(x) && member_groups(expansion(groups, x), 0).contains(h);
                assert(w.1.contains(x));
                if x == r {
                    if find_group(groups, r) is None {
                        assert(member_groups(expansion(groups, x), 0) =~= Set::empty());
                    }
                } else {
                    assert(!set![r].contains(x));
                }
            }
        }
    }
}

/// Resolution is sound: every fixture that a group resolves to is a direct
/// member of the group or of a group reachable from it through nesting.
pub proof fn lemma_resolve_sound(group: FixtureGroup, groups: Seq<FixtureGroup>, f: FixtureId)
    requires
        resolved_fixture_ids(group, groups).contains(f),
    ensures
        reachable_fixture(group.members@, 0, groups, f),
{
    let ms = group.members@;
    let w = walk(ms, 0, groups, set![group.id.0]);
    lemma_walk_sound(ms, 0, groups, set![group.id.0]);
    let k = choose|k: int| 0 <= k < w.0.len() && w.0[k] == f;
    if !member_fixtures(ms, 0).contains(f) {
        let x = choose|x: u32|
            #[trigger] w.1.contains(x) && !set![group.id.0].contains(x) && member_fixtures(
                expansion(groups, x),
                0,
            ).contains(w.0[k]);
        assert(reachable_group(ms, 0, groups, x));
    }
}

/// Resolution is complete: every direct member fixture of the group, and
/// every direct member fixture of a group reachable from it through nesting,
/// is in what the group resolves to, cycles notwithstanding. This holds when
/// the list holds no other group under the group's own id.
pub proof fn lemma_resolve_complete(group: FixtureGroup, groups: Seq<FixtureGroup>, f: FixtureId)
    requires
        find_group(groups, group.id.0) is None || expansion(groups, group.id.0) == group.members@,
        reachable_fixture(group.members@, 0, groups, f),
    ensures
        resolved_fixture_ids(group, groups).contains(f),
{
    let ms = group.members@;
    let r = group.id.0;
    let w = walk(ms, 0, groups, set![r]);
    lemma_walk_complete(ms, 0, groups, set![r]);
    if !member_fixtures(ms, 0).contains(f) {
        let x = choose|x: u32|
            #[trigger] reachable_group(ms, 0, groups, x) && member_fixtures(expansion(groups, x), 0).contains(f);
        let n = choose|n: nat| #[trigger] reach(ms, 0, groups, n).contains(x);
        lemma_reach_marked(group, groups, n);
        assert(w.1.contains(x));
        if x == r {
            if find_group(groups, r) is None {
                assert(member_fixtures(expansion(groups, x), 0) =~= Set::empty());
            }
        } else {
            assert(!set![r].contains(x));
        }
    }
}

} // verus!
