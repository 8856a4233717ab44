//! Building the fixture model from a Vixen 3 system configuration.
//!
//! The configuration is read as a stream of XML events: the application
//! reads the file and hands each event to the importer, which keeps the
//! element-node tree and the output controllers. The node tree is then
//! turned into fixtures and groups.

use vstd::prelude::*;

use crate::fixture::{
    BulbShape, ChannelOrder, ColorModel, Controller, ControllerId, ControllerProtocol, ControllerView,
    EffectTarget, FixtureDef, FixtureGroup, FixtureId, FixtureView, GroupId, GroupMember, GroupView, Patch, PixelType, TargetView,
    ProtocolView, controllers_view, fixtures_view, groups_view,
};
use vstd::seq_lib::*;
use vstd::set_lib::*;
use std::collections::HashSet;
use crate::text::str_eq;
use crate::profile::{decimal, push_decimal};
use crate::preview::{views, push_viewed, ItemPixels, ItemPixelsView, ItemText, ItemView, PlacedView};
use vstd::hash_map::StringHashMap;
use vstd::string::*;

verus! {

// ── XML events ──────────────────────────────────────────────────────

/// The name and attributes of an XML start tag or empty-element tag, the
/// attributes in document order.
#[derive(Debug, Clone)]
pub struct XmlTag {
    pub name: String,
    pub attributes: Vec<(String, String)>,
}

/// One event of an XML reader, as the importer consumes it: a start tag, an
/// end tag's name, an empty-element tag, text content (unescaped), the end
/// of the document, or anything else.
#[derive(Debug, Clone)]
pub enum XmlEvent {
    Start(XmlTag),
    End(String),
    Empty(XmlTag),
    Text(String),
    Eof,
    Other,
}

/// The contents of an `XmlTag`.
pub ghost struct TagView {
    pub name: Seq<char>,
    pub attributes: Seq<(Seq<char>, Seq<char>)>,
}

/// The contents of an `XmlEvent`.
pub ghost enum XmlEventView {
    Start(TagView),
    End(Seq<char>),
    Empty(TagView),
    Text(Seq<char>),
    Eof,
    Other,
}

impl View for XmlTag {
    type V = TagView;

    open spec fn view(&self) -> TagView {
        TagView { name: self.name@, attributes: attrs_view(self.attributes@) }
    }
}

impl View for XmlEvent {
    type V = XmlEventView;

    open spec fn view(&self) -> XmlEventView {
        match self {
            XmlEvent::Start(t) => XmlEventView::Start(t@),
            XmlEvent::End(n) => XmlEventView::End(n@),
            XmlEvent::Empty(t) => XmlEventView::Empty(t@),
            XmlEvent::Text(t) => XmlEventView::Text(t@),
            XmlEvent::Eof => XmlEventView::Eof,
            XmlEvent::Other => XmlEventView::Other,
        }
    }
}

/// A sequence of events by their contents.
pub open spec fn events_view(s: Seq<XmlEvent>) -> Seq<XmlEventView> {
    s.map_values(|e: XmlEvent| e@)
}

/// The attributes of a tag as character sequences.
pub open spec fn attrs_view(a: Seq<(String, String)>) -> Seq<(Seq<char>, Seq<char>)> {
    a.map_values(|p: (String, String)| (p.0@, p.1@))
}

/// An optional string as an optional character sequence.
pub open spec fn opt_string_view(s: Option<String>) -> Option<Seq<char>> {
    match s {
        Some(v) => Some(v@),
        None => None,
    }
}

/// A sequence of strings as character sequences.
pub open spec fn strings_view(s: Seq<String>) -> Seq<Seq<char>> {
    s.map_values(|x: String| x@)
}

// ── Element nodes ───────────────────────────────────────────────────

/// An element node of the Vixen node tree.
#[derive(Debug, Clone)]
pub struct VixenNode {
    pub name: String,
    pub guid: String,
    pub children_guids: Vec<String>,
    pub channel_id: Option<String>,
}

/// The contents of a `VixenNode`.
pub ghost struct NodeView {
    pub name: Seq<char>,
    pub guid: Seq<char>,
    pub children: Seq<Seq<char>>,
    pub channel_id: Option<Seq<char>>,
}

impl View for VixenNode {
    type V = NodeView;

    open spec fn view(&self) -> NodeView {
        NodeView {
            name: self.name@,
            guid: self.guid@,
            children: strings_view(self.children_guids@),
            channel_id: opt_string_view(self.channel_id),
        }
    }
}

/// A sequence of nodes by their contents.
pub open spec fn nodes_view(s: Seq<VixenNode>) -> Seq<NodeView> {
    s.map_values(|n: VixenNode| n@)
}

/// The id, name and channel id that a node tag's attributes give; where an
/// attribute repeats, the last one counts.
pub ghost struct NodeFields {
    pub guid: Seq<char>,
    pub name: Seq<char>,
    pub channel_id: Option<Seq<char>>,
}

/// The node fields a tag's attributes give.
pub open spec fn node_fields(attrs: Seq<(Seq<char>, Seq<char>)>) -> NodeFields
    decreases attrs.len(),
{
    if attrs.len() == 0 {
        NodeFields { guid: Seq::empty(), name: Seq::empty(), channel_id: None }
    } else {
        let f = node_fields(attrs.drop_last());
        let k = attrs.last().0;
        let v = attrs.last().1;
        if k == "id"@ || k == "Id"@ {
            NodeFields { guid: v, name: f.name, channel_id: f.channel_id }
        } else if k == "name"@ || k == "Name"@ {
            NodeFields { guid: f.guid, name: v, channel_id: f.channel_id }
        } else if k == "channelId"@ || k == "ChannelId"@ {
            NodeFields { guid: f.guid, name: f.name, channel_id: Some(v) }
        } else {
            f
        }
    }
}

/// A childless node made from a tag's fields.
pub open spec fn fresh_node(f: NodeFields) -> NodeView {
    NodeView { name: f.name, guid: f.guid, children: Seq::empty(), channel_id: f.channel_id }
}

/// Tags that open an element node.
pub open spec fn is_node_tag(n: Seq<char>) -> bool {
    n == "Node"@ || n == "ElementNode"@ || n == "ChannelNode"@
}

/// Tags that open the node section.
pub open spec fn is_nodes_section(n: Seq<char>) -> bool {
    n == "Nodes"@ || n == "SystemNodes"@
}

/// The position of the node with id `g`, if there is one.
pub open spec fn guid_index(nodes: Seq<NodeView>, g: Seq<char>) -> Option<int> {
    if exists|i: int| 0 <= i < nodes.len() && nodes[i].guid == g {
        Some(choose|i: int| 0 <= i < nodes.len() && nodes[i].guid == g)
    } else {
        None
    }
}

/// No two nodes share an id.
pub open spec fn distinct_guids(nodes: Seq<NodeView>) -> bool {
    forall|i: int, j: int| 0 <= i < j < nodes.len() ==> nodes[i].guid != nodes[j].guid
}

/// The node table after storing `n` under its id: it replaces a node with
/// the same id in place, or is added at the end.
pub open spec fn table_insert(nodes: Seq<NodeView>, n: NodeView) -> Seq<NodeView> {
    match guid_index(nodes, n.guid) {
        Some(i) => nodes.update(i, n),
        None => nodes.push(n),
    }
}

/// The open-node stack after `guid` is registered as the last child of the
/// innermost open node, if any.
pub open spec fn register_child(stack: Seq<NodeView>, guid: Seq<char>) -> Seq<NodeView> {
    if stack.len() == 0 {
        stack
    } else {
        let p = stack.last();
        stack.update(
            stack.len() - 1,
            NodeView { name: p.name, guid: p.guid, children: p.children.push(guid), channel_id: p.channel_id },
        )
    }
}

/// Where the reading of the node section stands: inside it or not, and the
/// nodes opened and not yet closed, innermost last.
#[derive(Debug)]
pub struct NodeScan {
    in_section: bool,
    stack: Vec<VixenNode>,
}

/// The reading state of the node section together with the node table.
pub ghost struct NodeScanView {
    pub in_section: bool,
    pub stack: Seq<NodeView>,
    pub nodes: Seq<NodeView>,
}

/// One step of reading the node section: a node tag inside the section
/// opens a node; its end tag stores it (when it has an id) and makes it a
/// child of the enclosing open node; an empty node tag with an id is stored
/// and registered at once.
pub open spec fn node_scan_step(s: NodeScanView, e: XmlEvent) -> NodeScanView {
    match e {
        XmlEvent::Start(t) => {
            if is_nodes_section(t.name@) {
                NodeScanView { in_section: true, stack: s.stack, nodes: s.nodes }
            } else if is_node_tag(t.name@) && s.in_section {
                NodeScanView {
                    in_section: s.in_section,
                    stack: s.stack.push(fresh_node(node_fields(attrs_view(t.attributes@)))),
                    nodes: s.nodes,
                }
            } else {
                s
            }
        },
        XmlEvent::End(n) => {
            if is_node_tag(n@) && s.stack.len() > 0 {
                let node = s.stack.last();
                let rest = s.stack.drop_last();
                if node.guid.len() > 0 {
                    NodeScanView {
                        in_section: s.in_section,
                        stack: register_child(rest, node.guid),
                        nodes: table_insert(s.nodes, node),
                    }
                } else {
                    NodeScanView { in_section: s.in_section, stack: rest, nodes: s.nodes }
                }
            } else if is_nodes_section(n@) {
                NodeScanView { in_section: false, stack: s.stack, nodes: s.nodes }
            } else {
                s
            }
        },
        XmlEvent::Empty(t) => {
            let f = node_fields(attrs_view(t.attributes@));
            if is_node_tag(t.name@) && s.in_section && f.guid.len() > 0 {
                NodeScanView {
                    in_section: s.in_section,
                    stack: register_child(s.stack, f.guid),
                    nodes: table_insert(s.nodes, fresh_node(f)),
                }
            } else {
                s
            }
        },
        _ => s,
    }
}

/// Reads the id, name and channel id from a node tag's attributes.
fn read_node_fields(attributes: &Vec<(String, String)>) -> (r: (String, String, Option<String>))
    ensures
        r.0@ == node_fields(attrs_view(attributes@)).guid,
        r.1@ == node_fields(attrs_view(attributes@)).name,
        opt_string_view(r.2) == node_fields(attrs_view(attributes@)).channel_id,
{
    let mut guid = String::new();
    let mut name = String::new();
    let mut channel_id: Option<String> = None;
    let mut i: usize = 0;
    while i < attributes.len()
        invariant
            i <= attributes@.len(),
            guid@ == node_fields(attrs_view(attributes@.subrange(0, i as int))).guid,
            name@ == node_fields(attrs_view(attributes@.subrange(0, i as int))).name,
            opt_string_view(channel_id) == node_fields(
                attrs_view(attributes@.subrange(0, i as int)),
            ).channel_id,
        decreases attributes@.len() - i,
    {
        let ghost prev = attrs_view(attributes@.subrange(0, i as int));
        let ghost next = attrs_view(attributes@.subrange(0, i + 1));
        assert(next.drop_last() =~= prev);
        assert(next.last() == (attributes@[i as int].0@, attributes@[i as int].1@));
        let key = attributes[i].0.as_str();
        if str_eq(key, "id") || str_eq(key, "Id") {
            guid = attributes[i].1.clone();
        } else if str_eq(key, "name") || str_eq(key, "Name") {
            name = attributes[i].1.clone();
        } else if str_eq(key, "channelId") || str_eq(key, "ChannelId") {
            channel_id = Some(attributes[i].1.clone());
        }
        i += 1;
    }
    assert(attributes@.subrange(0, attributes@.len() as int) =~= attributes@);
    (guid, name, channel_id)
}

fn is_node_tag_exec(n: &str) -> (r: bool)
    ensures
        r == is_node_tag(n@),
{
    str_eq(n, "Node") || str_eq(n, "ElementNode") || str_eq(n, "ChannelNode")
}

fn is_nodes_section_exec(n: &str) -> (r: bool)
    ensures
        r == is_nodes_section(n@),
{
    str_eq(n, "Nodes") || str_eq(n, "SystemNodes")
}

/// The position of the node with id `g` in a table whose ids are distinct.
fn find_node(nodes: &Vec<VixenNode>, g: &str) -> (r: Option<usize>)
    requires
        distinct_guids(nodes_view(nodes@)),
    ensures
        match r {
            Some(i) => guid_index(nodes_view(nodes@), g@) == Some(i as int),
            None => guid_index(nodes_view(nodes@), g@) is None,
        },
{
    let ghost nv = nodes_view(nodes@);
    let mut i: usize = 0;
    while i < nodes.len()
        invariant
            i <= nodes@.len(),
            nv == nodes_view(nodes@),
            distinct_guids(nv),
            forall|j: int| 0 <= j < i ==> nv[j].guid != g@,
        decreases nodes@.len() - i,
    {
        if str_eq(nodes[i].guid.as_str(), g) {
            assert(nv[i as int].guid == g@);
            assert forall|k: int| 0 <= k < nv.len() && nv[k].guid == g@ implies k == i by {
                if k > i {
                    assert(nv[i as int].guid != nv[k].guid);
                }
            }
            return Some(i);
        }
        i += 1;
    }
    None
}

/// Stores `node` in a table with distinct ids, replacing a node with the same
/// id.
fn store_node(nodes: &mut Vec<VixenNode>, node: VixenNode)
    requires
        distinct_guids(nodes_view(old(nodes)@)),
    ensures
        nodes_view(final(nodes)@) == table_insert(nodes_view(old(nodes)@), node@),
        distinct_guids(nodes_view(final(nodes)@)),
{
    let ghost before = nodes_view(nodes@);
    match find_node(nodes, node.guid.as_str()) {
        Some(i) => {
            let ghost n = node@;
            nodes.set(i, node);
            assert(nodes_view(nodes@) =~= before.update(i as int, n));
        },
        None => {
            let ghost n = node@;
            nodes.push(node);
            assert(nodes_view(nodes@) =~= before.push(n));
        },
    }
}

/// Adds `guid` as the last child of the innermost open node, if any.
fn register_child_exec(stack: &mut Vec<VixenNode>, guid: String)
    ensures
        nodes_view(final(stack)@) == register_child(nodes_view(old(stack)@), guid@),
{
    let ghost before = nodes_view(stack@);
    let n = stack.len();
    if n > 0 {
        let mut parent = stack.pop().unwrap();
        let ghost p = parent@;
        parent.children_guids.push(guid);
        assert(strings_view(parent.children_guids@) =~= p.children.push(guid@));
        stack.push(parent);
        assert(nodes_view(stack@) =~= register_child(before, guid@));
    }
}

impl NodeScan {
    /// A scan that has not yet entered the node section.
    pub fn new() -> (s: Self)
        ensures
            !s.in_section(),
            s.open_nodes() == Seq::<NodeView>::empty(),
    {
        NodeScan { in_section: false, stack: Vec::new() }
    }

    /// Whether the scan is inside the node section.
    pub closed spec fn in_section(&self) -> bool {
        self.in_section
    }

    /// The nodes opened and not yet closed, innermost last.
    pub closed spec fn open_nodes(&self) -> Seq<NodeView> {
        nodes_view(self.stack@)
    }
}

// ── Controllers ─────────────────────────────────────────────────────

/// `t` occurs in `s` as a contiguous run.
pub open spec fn contains_chars(s: Seq<char>, t: Seq<char>) -> bool {
    exists|i: int| 0 <= i && i + t.len() <= s.len() && #[trigger] s.subrange(i, i + t.len()) == t
}

/// Whether `t` occurs at position `i` of `s`.
fn occurs_at(s: &str, t: &str, i: usize) -> (r: bool)
    requires
        i + t@.len() <= s@.len(),
    ensures
        r == (s@.subrange(i as int, i + t@.len()) == t@),
{
    let n = s.unicode_len();
    let m = t.unicode_len();
    let mut j: usize = 0;
    while j < m
        invariant
            n == s@.len(),
            m == t@.len(),
            i + m <= s@.len(),
            j <= m,
            forall|l: int| 0 <= l < j ==> s@[i + l] == t@[l],
        decreases m - j,
    {
        if s.get_char(i + j) != t.get_char(j) {
            assert(s@.subrange(i as int, i + m)[j as int] != t@[j as int]);
            return false;
        }
        j += 1;
    }
    assert(s@.subrange(i as int, i + m) =~= t@);
    true
}

/// Whether `t` occurs in `s`.
pub(crate) fn contains_str(s: &str, t: &str) -> (r: bool)
    ensures
        r == contains_chars(s@, t@),
{
    let n = s.unicode_len();
    let m = t.unicode_len();
    if m > n {
        return false;
    }
    if m == 0 {
        assert(s@.subrange(0, 0 + t@.len() as int) =~= t@);
        return true;
    }
    let mut i: usize = 0;
    while i <= n - m
        invariant
            n == s@.len(),
            m == t@.len(),
            1 <= m <= n,
            i <= n - m + 1,
            forall|k: int| 0 <= k < i ==> #[trigger] s@.subrange(k, k + m) != t@,
        decreases n - m + 1 - i,
    {
        if occurs_at(s, t, i) {
            return true;
        }
        i += 1;
    }
    assert forall|k: int| 0 <= k && k + m <= n implies #[trigger] s@.subrange(k, k + m) != t@ by {
        assert(k < i);
    }
    false
}

/// An ASCII decimal digit.
pub open spec fn is_digit(c: char) -> bool {
    '0' <= c && c <= '9'
}

/// The value of a run of decimal digits.
pub open spec fn digits_value(d: Seq<char>) -> int
    decreases d.len(),
{
    if d.len() == 0 {
        0
    } else {
        digits_value(d.drop_last()) * 10 + (d.last() as int - '0' as int)
    }
}

/// The text after an optional leading `+`.
pub open spec fn unsigned_digits(s: Seq<char>) -> Seq<char> {
    if s.len() > 0 && s[0] == '+' {
        s.drop_first()
    } else {
        s
    }
}

/// Every character is a decimal digit.
pub open spec fn all_digits(d: Seq<char>) -> bool {
    forall|i: int| 0 <= i < d.len() ==> is_digit(#[trigger] d[i])
}

/// What std's `u16` parsing gives: an optional `+` followed by one or more
/// decimal digits whose value fits in 16 bits; anything else is an error.
pub open spec fn parse_u16_spec(s: Seq<char>) -> Option<u16> {
    let d = unsigned_digits(s);
    if d.len() > 0 && all_digits(d) && digits_value(d) <= 65535 {
        Some(digits_value(d) as u16)
    } else {
        None
    }
}

pub(crate) proof fn lemma_digits_nonneg(d: Seq<char>)
    requires
        forall|i: int| 0 <= i < d.len() ==> is_digit(#[trigger] d[i]),
    ensures
        digits_value(d) >= 0,
    decreases d.len(),
{
    if d.len() > 0 {
        assert(forall|i: int| 0 <= i < d.drop_last().len() ==> d.drop_last()[i] == d[i]);
        lemma_digits_nonneg(d.drop_last());
        assert(is_digit(d[d.len() - 1]));
    }
}

/// Parses a `u16` as std's `str::parse` does.
fn parse_u16(s: &str) -> (r: Option<u16>)
    ensures
        r == parse_u16_spec(s@),
{
    let n = s.unicode_len();
    let start: usize = if n > 0 && s.get_char(0) == '+' {
        1
    } else {
        0
    };
    let ghost d = if s@.len() > 0 && s@[0] == '+' {
        s@.drop_first()
    } else {
        s@
    };
    assert(d =~= s@.subrange(start as int, n as int));
    if start >= n {
        return None;
    }
    let mut val: u32 = 0;
    let mut i: usize = start;
    while i < n
        invariant
            n == s@.len(),
            start <= i <= n,
            d == unsigned_digits(s@),
            d =~= s@.subrange(start as int, n as int),
            forall|k: int| 0 <= k < i - start ==> is_digit(#[trigger] d[k]),
            val as int == if digits_value(d.subrange(0, i - start)) <= 65536 {
                digits_value(d.subrange(0, i - start))
            } else {
                65536
            },
        decreases n - i,
    {
        let c = s.get_char(i);
        if !('0' <= c && c <= '9') {
            assert(!is_digit(d[i - start]));
            assert(!all_digits(d));
            return None;
        }
        let ghost p = d.subrange(0, i - start);
        let ghost q = d.subrange(0, i - start + 1);
        assert(q.drop_last() =~= p);
        assert(q.last() == c);
        assert forall|k: int| 0 <= k < p.len() implies is_digit(#[trigger] p[k]) by {
            assert(p[k] == d[k]);
        }
        proof {
            lemma_digits_nonneg(p);
        }
        let digit: u32 = (c as u32) - 48;
        let next: u32 = val * 10 + digit;
        val = if next > 65536 {
            65536
        } else {
            next
        };
        i += 1;
    }
    assert(d.subrange(0, n - start) =~= d);
    if val <= 65535 {
        Some(val as u16)
    } else {
        None
    }
}

/// Tags that open the controller section.
pub open spec fn is_controller_section(n: Seq<char>) -> bool {
    n == "Controllers"@ || n == "OutputControllers"@
}

/// Tags taken for a controller: `Controller`, `OutputController`, or any name
/// with `Controller` in it.
pub open spec fn is_controller_tag(n: Seq<char>) -> bool {
    n == "Controller"@ || n == "OutputController"@ || contains_chars(n, "Controller"@)
}

/// The value of the last `name` / `Name` attribute.
pub open spec fn name_attr(a: Seq<(Seq<char>, Seq<char>)>) -> Option<Seq<char>>
    decreases a.len(),
{
    if a.len() == 0 {
        None
    } else if a.last().0 == "name"@ || a.last().0 == "Name"@ {
        Some(a.last().1)
    } else {
        name_attr(a.drop_last())
    }
}

/// The value of the last address attribute (`ip`, `IP`, `address`,
/// `Address`, `UnicastAddress`).
pub open spec fn ip_attr(a: Seq<(Seq<char>, Seq<char>)>) -> Option<Seq<char>>
    decreases a.len(),
{
    if a.len() == 0 {
        None
    } else {
        let k = a.last().0;
        if k == "ip"@ || k == "IP"@ || k == "address"@ || k == "Address"@ || k == "UnicastAddress"@ {
            Some(a.last().1)
        } else {
            ip_attr(a.drop_last())
        }
    }
}

/// The last `universe` / `Universe` attribute, parsed; `None` when there is
/// none or the last one does not parse.
pub open spec fn universe_attr(a: Seq<(Seq<char>, Seq<char>)>) -> Option<u16>
    decreases a.len(),
{
    if a.len() == 0 {
        None
    } else if a.last().0 == "universe"@ || a.last().0 == "Universe"@ {
        parse_u16_spec(a.last().1)
    } else {
        universe_attr(a.drop_last())
    }
}

/// Where the reading of the controller section stands.
#[derive(Debug)]
pub struct ControllerScan {
    in_section: bool,
    name: String,
    outputs: Vec<(String, u16)>,
    counter: u32,
}

/// The contents of a `ControllerScan`: inside the section or not, the name
/// of the controller being read, the (address, universe) outputs found for
/// it, and the id the next controller gets.
pub ghost struct ControllerScanView {
    pub in_section: bool,
    pub name: Seq<char>,
    pub outputs: Seq<(Seq<char>, u16)>,
    pub counter: int,
}

/// Outputs as character sequences.
pub open spec fn outputs_view(o: Seq<(String, u16)>) -> Seq<(Seq<char>, u16)> {
    o.map_values(|p: (String, u16)| (p.0@, p.1))
}

impl View for ControllerScan {
    type V = ControllerScanView;

    closed spec fn view(&self) -> ControllerScanView {
        ControllerScanView {
            in_section: self.in_section,
            name: self.name@,
            outputs: outputs_view(self.outputs@),
            counter: self.counter as int,
        }
    }
}

/// The controllers made when a controller element closes: one E1.31
/// controller per output found, named after the controller and the address,
/// or one without an address when none was found; ids count up from the
/// scan's counter.
pub open spec fn emitted_controllers(s: ControllerScanView) -> Seq<ControllerView> {
    if s.outputs.len() == 0 {
        seq![
            ControllerView {
                id: s.counter as u32,
                name: s.name,
                protocol: ProtocolView::E131 { unicast_address: None },
            },
        ]
    } else {
        Seq::new(
            s.outputs.len(),
            |j: int|
                ControllerView {
                    id: (s.counter + j) as u32,
                    name: s.name + " ("@ + s.outputs[j].0 + ")"@,
                    protocol: ProtocolView::E131 { unicast_address: Some(s.outputs[j].0) },
                },
        )
    }
}

/// One step of reading the controller section, with the controllers made
/// so far.
pub open spec fn controller_scan_step(
    s: ControllerScanView,
    cs: Seq<ControllerView>,
    e: XmlEvent,
) -> (ControllerScanView, Seq<ControllerView>) {
    match e {
        XmlEvent::Start(t) => {
            let n = t.name@;
            let a = attrs_view(t.attributes@);
            let inside = is_controller_section(n) || s.in_section;
            let name = if inside && is_controller_tag(n) && name_attr(a) is Some {
                name_attr(a)->0
            } else {
                s.name
            };
            let outputs = if inside && ip_attr(a) is Some && universe_attr(a) is Some {
                s.outputs.push((ip_attr(a)->0, universe_attr(a)->0))
            } else {
                s.outputs
            };
            (ControllerScanView { in_section: inside, name, outputs, counter: s.counter }, cs)
        },
        XmlEvent::End(n) => {
            let inside = if is_controller_section(n@) {
                false
            } else {
                s.in_section
            };
            if inside && is_controller_tag(n@) && s.name.len() > 0 {
                let made = emitted_controllers(s);
                (
                    ControllerScanView {
                        in_section: inside,
                        name: Seq::empty(),
                        outputs: Seq::empty(),
                        counter: s.counter + made.len(),
                    },
                    cs + made,
                )
            } else {
                (
                    ControllerScanView {
                        in_section: inside,
                        name: s.name,
                        outputs: s.outputs,
                        counter: s.counter,
                    },
                    cs,
                )
            }
        },
        _ => (s, cs),
    }
}

/// Reads the controller name, address and universe from a tag's attributes.
fn read_controller_attrs(attributes: &Vec<(String, String)>) -> (r: (
    Option<String>,
    Option<String>,
    Option<u16>,
))
    ensures
        opt_string_view(r.0) == name_attr(attrs_view(attributes@)),
        opt_string_view(r.1) == ip_attr(attrs_view(attributes@)),
        r.2 == universe_attr(attrs_view(attributes@)),
{
    let mut name: Option<String> = None;
    let mut ip: Option<String> = None;
    let mut universe: Option<u16> = None;
    let mut i: usize = 0;
    while i < attributes.len()
        invariant
            i <= attributes@.len(),
            opt_string_view(name) == name_attr(attrs_view(attributes@.subrange(0, i as int))),
            opt_string_view(ip) == ip_attr(attrs_view(attributes@.subrange(0, i as int))),
            universe == universe_attr(attrs_view(attributes@.subrange(0, i as int))),
        decreases attributes@.len() - i,
    {
        let ghost prev = attrs_view(attributes@.subrange(0, i as int));
        let ghost next = attrs_view(attributes@.subrange(0, i + 1));
        assert(next.drop_last() =~= prev);
        assert(next.last() == (attributes@[i as int].0@, attributes@[i as int].1@));
        let key = attributes[i].0.as_str();
        let val = attributes[i].1.as_str();
        if str_eq(key, "name") || str_eq(key, "Name") {
            name = Some(attributes[i].1.clone());
        }
        if str_eq(key, "ip") || str_eq(key, "IP") || str_eq(key, "address") || str_eq(key, "Address")
            || str_eq(key, "UnicastAddress") {
            ip = Some(attributes[i].1.clone());
        }
        if str_eq(key, "universe") || str_eq(key, "Universe") {
            universe = parse_u16(val);
        }
        i += 1;
    }
    assert(attributes@.subrange(0, attributes@.len() as int) =~= attributes@);
    (name, ip, universe)
}

fn is_controller_section_exec(n: &str) -> (r: bool)
    ensures
        r == is_controller_section(n@),
{
    str_eq(n, "Controllers") || str_eq(n, "OutputControllers")
}

fn is_controller_tag_exec(n: &str) -> (r: bool)
    ensures
        r == is_controller_tag(n@),
{
    str_eq(n, "Controller") || str_eq(n, "OutputController") || contains_str(n, "Controller")
}

impl ControllerScan {
    /// A scan that has not yet entered the controller section; controller
    /// ids start at 0.
    pub fn new() -> (s: Self)
        ensures
            s@ == (ControllerScanView {
                in_section: false,
                name: Seq::empty(),
                outputs: Seq::empty(),
                counter: 0,
            }),
    {
        let s = ControllerScan { in_section: false, name: String::new(), outputs: Vec::new(), counter: 0 };
        assert(outputs_view(s.outputs@) =~= Seq::empty());
        s
    }

    /// Whether ids remain for the controllers that the element being read
    /// can make.
    pub fn has_room(&self) -> (r: bool)
        ensures
            r == (self@.counter + self@.outputs.len() < u32::MAX),
    {
        let k = self.outputs.len();
        k < 0xffff_ffff && self.counter < 0xffff_ffff - (k as u32)
    }

    /// Makes the controllers of the element being read and appends them.
    fn emit(&mut self, controllers: &mut Vec<Controller>)
        requires
            old(self)@.counter + old(self)@.outputs.len() < u32::MAX,
        ensures
            controllers_view(final(controllers)@) == controllers_view(old(controllers)@)
                + emitted_controllers(old(self)@),
            final(self)@.counter == old(self)@.counter + emitted_controllers(old(self)@).len(),
            final(self)@.name == old(self)@.name,
            final(self)@.outputs == old(self)@.outputs,
            final(self)@.in_section == old(self)@.in_section,
    {
        let ghost s0 = self@;
        let ghost c0 = controllers_view(controllers@);
        if self.outputs.len() == 0 {
            controllers.push(
                Controller {
                    id: ControllerId(self.counter),
                    name: self.name.clone(),
                    protocol: ControllerProtocol::E131 { unicast_address: None },
                },
            );
            self.counter = self.counter + 1;
            assert(controllers_view(controllers@) =~= c0 + emitted_controllers(s0));
        } else {
            let mut j: usize = 0;
            while j < self.outputs.len()
                invariant
                    s0 == old(self)@,
                    self@.name == s0.name,
                    self@.outputs == s0.outputs,
                    self@.in_section == s0.in_section,
                    s0.outputs.len() > 0,
                    s0.counter + s0.outputs.len() < u32::MAX,
                    j <= s0.outputs.len(),
                    self@.counter == s0.counter + j,
                    controllers_view(controllers@) =~= c0 + emitted_controllers(s0).subrange(0, j as int),
                decreases s0.outputs.len() - j,
            {
                let mut label = self.name.clone();
                label.append(" (");
                label.append(self.outputs[j].0.as_str());
                label.append(")");
                let c = Controller {
                    id: ControllerId(self.counter),
                    name: label,
                    protocol: ControllerProtocol::E131 { unicast_address: Some(self.outputs[j].0.clone()) },
                };
                assert(c@ == emitted_controllers(s0)[j as int]);
                controllers.push(c);
                assert(controllers_view(controllers@) =~= (c0 + emitted_controllers(s0).subrange(
                    0,
                    j as int,
                )).push(c@));
                assert(emitted_controllers(s0).subrange(0, j + 1) =~= emitted_controllers(s0).subrange(
                    0,
                    j as int,
                ).push(c@));
                self.counter = self.counter + 1;
                j += 1;
            }
            assert(emitted_controllers(s0).subrange(0, j as int) =~= emitted_controllers(s0));
        }
    }

    /// Reads one event of the controller section, appending the controllers
    /// that it completes.
    pub fn step(&mut self, controllers: &mut Vec<Controller>, event: &XmlEvent)
        requires
            old(self)@.counter + old(self)@.outputs.len() < u32::MAX,
        ensures
            (final(self)@, controllers_view(final(controllers)@)) == controller_scan_step(
                old(self)@,
                controllers_view(old(controllers)@),
                *event,
            ),
    {
        match event {
            XmlEvent::Start(t) => {
                let (name, ip, universe) = read_controller_attrs(&t.attributes);
                let n = t.name.as_str();
                if is_controller_section_exec(n) {
                    self.in_section = true;
                }
                if self.in_section && is_controller_tag_exec(n) {
                    match name {
                        Some(v) => {
                            self.name = v;
                        },
                        None => {},
                    }
                }
                if self.in_section {
                    match (ip, universe) {
                        (Some(a), Some(u)) => {
                            let ghost o = outputs_view(self.outputs@);
                            let ghost av = a@;
                            self.outputs.push((a, u));
                            assert(outputs_view(self.outputs@) =~= o.push((av, u)));
                        },
                        _ => {},
                    }
                }
            },
            XmlEvent::End(n) => {
                if is_controller_section_exec(n.as_str()) {
                    self.in_section = false;
                }
                if self.in_section && is_controller_tag_exec(n.as_str()) && self.name.unicode_len() > 0 {
                    self.emit(controllers);
                    self.name = String::new();
                    self.outputs = Vec::new();
                    assert(outputs_view(self.outputs@) =~= Seq::empty());
                }
            },
            _ => {},
        }
    }
}

// ── Fixtures and groups from the node tree ──────────────────────────

/// The node with id `g`, if the table has one.
pub open spec fn node_at(nodes: Seq<NodeView>, g: Seq<char>) -> Option<NodeView> {
    match guid_index(nodes, g) {
        Some(i) => Some(nodes[i]),
        None => None,
    }
}

/// The ids of all nodes in the table.
pub open spec fn node_guids(nodes: Seq<NodeView>) -> Set<Seq<char>> {
    nodes.map_values(|n: NodeView| n.guid).to_set()
}

/// How many node ids have no fixture or group id yet.
pub open spec fn unassigned(nodes: Seq<NodeView>, assigned: Set<Seq<char>>) -> nat {
    node_guids(nodes).difference(assigned).len()
}

/// The node ids are a finite set holding every node's id.
pub proof fn lemma_node_guids(nodes: Seq<NodeView>)
    ensures
        node_guids(nodes).finite(),
        forall|j: int| 0 <= j < nodes.len() ==> node_guids(nodes).contains(#[trigger] nodes[j].guid),
{
    let ids = nodes.map_values(|n: NodeView| n.guid);
    seq_to_set_is_finite(ids);
    assert forall|j: int| 0 <= j < nodes.len() implies node_guids(nodes).contains(#[trigger] nodes[j].guid) by {
        assert(ids[j] == nodes[j].guid);
    }
}

/// Giving an id to a node id without one leaves fewer without.
pub proof fn lemma_unassigned_insert(nodes: Seq<NodeView>, assigned: Set<Seq<char>>, g: Seq<char>)
    requires
        node_guids(nodes).contains(g),
        !assigned.contains(g),
    ensures
        unassigned(nodes, assigned.insert(g)) < unassigned(nodes, assigned),
{
    lemma_node_guids(nodes);
    let d = node_guids(nodes).difference(assigned);
    assert(node_guids(nodes).difference(assigned.insert(g)) =~= d.remove(g));
    assert(d.contains(g));
}

/// Giving ids to more node ids never leaves more without.
pub proof fn lemma_unassigned_grow(nodes: Seq<NodeView>, assigned: Set<Seq<char>>, more: Set<Seq<char>>)
    requires
        assigned.subset_of(more),
    ensures
        unassigned(nodes, more) <= unassigned(nodes, assigned),
{
    lemma_node_guids(nodes);
    let d = node_guids(nodes).difference(assigned);
    let d2 = node_guids(nodes).difference(more);
    assert(d2.subset_of(d));
    lemma_len_subset(d2, d);
}

/// What building fixtures and groups has made so far: the id given to each
/// node id, the next id to hand out, the fixtures and groups, and the ids of
/// fixtures made by merging leaf nodes.
pub ghost struct BuildState {
    pub guid_map: Map<Seq<char>, u32>,
    pub next_id: int,
    pub fixtures: Seq<FixtureView>,
    pub groups: Seq<GroupView>,
    pub merged: Set<u32>,
}

/// A single-pixel or merged RGB fixture with default pixel type, bulb shape
/// and channel order.
pub open spec fn rgb_fixture(id: u32, name: Seq<char>, pixel_count: u32) -> FixtureView {
    FixtureView {
        id,
        name,
        color_model: ColorModel::Rgb,
        pixel_count,
        pixel_type: PixelType::Smart,
        bulb_shape: BulbShape::LED,
        channel_order: ChannelOrder::Rgb,
    }
}

/// The fixtures whose ids are not in `ids`, in order.
pub open spec fn drop_fixtures(fs: Seq<FixtureView>, ids: Set<u32>) -> Seq<FixtureView>
    decreases fs.len(),
{
    if fs.len() == 0 {
        fs
    } else {
        let r = drop_fixtures(fs.drop_last(), ids);
        if ids.contains(fs.last().id) {
            r
        } else {
            r.push(fs.last())
        }
    }
}

/// The fixture ids among `members`.
pub open spec fn member_fixture_ids(members: Seq<GroupMember>) -> Set<u32> {
    Set::new(|x: u32| exists|k: int| 0 <= k < members.len() && members[k] == GroupMember::Fixture(FixtureId(x)))
}

/// Every member is a fixture that was not itself made by merging.
pub open spec fn all_original_leaves(members: Seq<GroupMember>, merged: Set<u32>) -> bool {
    forall|k: int|
        0 <= k < members.len() ==> (#[trigger] members[k] matches GroupMember::Fixture(f) && !merged.contains(f.0))
}

/// `m` with every id in `keys` mapped to `v`.
pub open spec fn map_all_to(m: Map<Seq<char>, u32>, keys: Seq<Seq<char>>, v: u32) -> Map<Seq<char>, u32> {
    Map::new(
        |k: Seq<char>| m.dom().contains(k) || keys.contains(k),
        |k: Seq<char>|
            if keys.contains(k) {
                v
            } else {
                m[k]
            },
    )
}

/// What an interior node becomes once its children are built: when there
/// are two or more children and all are leaf fixtures not made by merging,
/// they are merged into one multi-pixel fixture with the node's id (the
/// leaves' fixtures are removed and every child id is mapped to it);
/// otherwise a group of the built children, or nothing when none was built.
pub open spec fn finish_interior(st: BuildState, id: u32, n: NodeView, members: Seq<GroupMember>) -> (
    BuildState,
    Option<GroupMember>,
) {
    if all_original_leaves(members, st.merged) && members.len() > 1 {
        (
            BuildState {
                guid_map: map_all_to(st.guid_map, n.children, id),
                next_id: st.next_id,
                fixtures: drop_fixtures(st.fixtures, member_fixture_ids(members)).push(
                    rgb_fixture(id, n.name, members.len() as u32),
                ),
                groups: st.groups,
                merged: st.merged.insert(id),
            },
            Some(GroupMember::Fixture(FixtureId(id))),
        )
    } else if members.len() > 0 {
        (
            BuildState {
                guid_map: st.guid_map,
                next_id: st.next_id,
                fixtures: st.fixtures,
                groups: st.groups.push(GroupView { id, name: n.name, members }),
                merged: st.merged,
            },
            Some(GroupMember::Group(GroupId(id))),
        )
    } else {
        (st, None)
    }
}

/// Building the node with id `g`: a node that already has an id is named
/// by it (as a fixture when childless, else as a group); an unknown id gives
/// nothing; otherwise the node gets the next id, a childless node becomes a
/// single-pixel fixture, and an interior node has its children built in
/// order and is finished by `finish_interior`.
pub open spec fn build_node_spec(nodes: Seq<NodeView>, st: BuildState, g: Seq<char>) -> (
    BuildState,
    Option<GroupMember>,
)
    decreases unassigned(nodes, st.guid_map.dom()), 0nat,
{
    match node_at(nodes, g) {
        None => (st, None),
        Some(n) => {
            if st.guid_map.dom().contains(g) {
                let id = st.guid_map[g];
                if n.children.len() == 0 {
                    (st, Some(GroupMember::Fixture(FixtureId(id))))
                } else {
                    (st, Some(GroupMember::Group(GroupId(id))))
                }
            } else {
                let id = st.next_id as u32;
                let st1 = BuildState {
                    guid_map: st.guid_map.insert(g, id),
                    next_id: st.next_id + 1,
                    fixtures: st.fixtures,
                    groups: st.groups,
                    merged: st.merged,
                };
                if n.children.len() == 0 {
                    (
                        BuildState {
                            guid_map: st1.guid_map,
                            next_id: st1.next_id,
                            fixtures: st1.fixtures.push(rgb_fixture(id, n.name, 1)),
                            groups: st1.groups,
                            merged: st1.merged,
                        },
                        Some(GroupMember::Fixture(FixtureId(id))),
                    )
                } else {
                    proof {
                        let i = guid_index(nodes, g)->0;
                        lemma_node_guids(nodes);
                        assert(node_guids(nodes).contains(nodes[i].guid));
                        lemma_unassigned_insert(nodes, st.guid_map.dom(), g);
                        assert(st1.guid_map.dom() =~= st.guid_map.dom().insert(g));
                    }
                    let built = build_children_spec(nodes, st1, n.children, 0, Seq::empty());
                    finish_interior(built.0, id, n, built.1)
                }
            }
        },
    }
}

/// Building the children `ch[i..]` in order, collecting what they become.
pub open spec fn build_children_spec(
    nodes: Seq<NodeView>,
    st: BuildState,
    ch: Seq<Seq<char>>,
    i: int,
    members: Seq<GroupMember>,
) -> (BuildState, Seq<GroupMember>)
    decreases unassigned(nodes, st.guid_map.dom()), ch.len() - i + 1,
{
    if i < 0 || i >= ch.len() {
        (st, members)
    } else {
        let r = build_node_spec(nodes, st, ch[i]);
        let st2 = BuildState {
            guid_map: st.guid_map.union_prefer_right(r.0.guid_map),
            next_id: r.0.next_id,
            fixtures: r.0.fixtures,
            groups: r.0.groups,
            merged: r.0.merged,
        };
        proof {
            lemma_unassigned_grow(nodes, st.guid_map.dom(), st2.guid_map.dom());
        }
        let members2 = match r.1 {
            Some(m) => members.push(m),
            None => members,
        };
        build_children_spec(nodes, st2, ch, i + 1, members2)
    }
}

/// Building never takes an id away from a node id.
pub proof fn lemma_build_node_grows(nodes: Seq<NodeView>, st: BuildState, g: Seq<char>)
    ensures
        st.guid_map.dom().subset_of(build_node_spec(nodes, st, g).0.guid_map.dom()),
        st.next_id <= build_node_spec(nodes, st, g).0.next_id,
        build_node_spec(nodes, st, g).0.next_id + unassigned(
            nodes,
            build_node_spec(nodes, st, g).0.guid_map.dom(),
        ) <= st.next_id + unassigned(nodes, st.guid_map.dom()),
        node_at(nodes, g) is Some ==> build_node_spec(nodes, st, g).0.guid_map.dom().contains(g),
    decreases unassigned(nodes, st.guid_map.dom()), 0nat,
{
    match node_at(nodes, g) {
        None => {},
        Some(n) => {
            if !st.guid_map.dom().contains(g) {
                let id = st.next_id as u32;
                let st1 = BuildState {
                    guid_map: st.guid_map.insert(g, id),
                    next_id: st.next_id + 1,
                    fixtures: st.fixtures,
                    groups: st.groups,
                    merged: st.merged,
                };
                let i = guid_index(nodes, g)->0;
                lemma_node_guids(nodes);
                assert(node_guids(nodes).contains(nodes[i].guid));
                lemma_unassigned_insert(nodes, st.guid_map.dom(), g);
                assert(st1.guid_map.dom() =~= st.guid_map.dom().insert(g));
                if n.children.len() > 0 {
                    lemma_build_children_grows(nodes, st1, n.children, 0, Seq::empty());
                    let built = build_children_spec(nodes, st1, n.children, 0, Seq::empty());
                    lemma_unassigned_grow(
                        nodes,
                        built.0.guid_map.dom(),
                        finish_interior(built.0, id, n, built.1).0.guid_map.dom(),
                    );
                }
            }
        },
    }
}

/// Building children never takes an id away from a node id.
pub proof fn lemma_build_children_grows(
    nodes: Seq<NodeView>,
    st: BuildState,
    ch: Seq<Seq<char>>,
    i: int,
    members: Seq<GroupMember>,
)
    ensures
        st.guid_map.dom().subset_of(build_children_spec(nodes, st, ch, i, members).0.guid_map.dom()),
        st.next_id <= build_children_spec(nodes, st, ch, i, members).0.next_id,
        build_children_spec(nodes, st, ch, i, members).0.next_id + unassigned(
            nodes,
            build_children_spec(nodes, st, ch, i, members).0.guid_map.dom(),
        ) <= st.next_id + unassigned(nodes, st.guid_map.dom()),
    decreases unassigned(nodes, st.guid_map.dom()), ch.len() - i + 1,
{
    if 0 <= i < ch.len() {
        let r = build_node_spec(nodes, st, ch[i]);
        let st2 = BuildState {
            guid_map: st.guid_map.union_prefer_right(r.0.guid_map),
            next_id: r.0.next_id,
            fixtures: r.0.fixtures,
            groups: r.0.groups,
            merged: r.0.merged,
        };
        lemma_unassigned_grow(nodes, st.guid_map.dom(), st2.guid_map.dom());
        lemma_build_node_grows(nodes, st, ch[i]);
        let members2 = match r.1 {
            Some(m) => members.push(m),
            None => members,
        };
        lemma_build_children_grows(nodes, st2, ch, i + 1, members2);
        assert(st2.guid_map.dom() =~= r.0.guid_map.dom());
    }
}

// ── The id table ────────────────────────────────────────────────────

/// No two entries of an id table share a node id.
pub open spec fn keys_distinct(p: Seq<(String, u32)>) -> bool {
    forall|i: int, j: int| 0 <= i < j < p.len() ==> p[i].0@ != p[j].0@
}

/// An id table as a map from node id to fixture or group id.
pub open spec fn pairs_map(p: Seq<(String, u32)>) -> Map<Seq<char>, u32> {
    Map::new(
        |k: Seq<char>| exists|i: int| 0 <= i < p.len() && p[i].0@ == k,
        |k: Seq<char>| p[choose|i: int| 0 <= i < p.len() && p[i].0@ == k].1,
    )
}

proof fn lemma_pairs_map_at(p: Seq<(String, u32)>, i: int)
    requires
        keys_distinct(p),
        0 <= i < p.len(),
    ensures
        pairs_map(p).dom().contains(p[i].0@),
        pairs_map(p)[p[i].0@] == p[i].1,
{
    let k = p[i].0@;
    assert(0 <= i < p.len() && p[i].0@ == k);
    let c = choose|j: int| 0 <= j < p.len() && p[j].0@ == k;
    if c != i {
        if c < i {
            assert(p[c].0@ != p[i].0@);
        } else {
            assert(p[i].0@ != p[c].0@);
        }
    }
}

/// The entry for node id `g`, if any.
fn find_id(p: &Vec<(String, u32)>, g: &str) -> (r: Option<usize>)
    requires
        keys_distinct(p@),
    ensures
        match r {
            Some(i) => i < p@.len() && p@[i as int].0@ == g@ && pairs_map(p@).dom().contains(g@)
                && pairs_map(p@)[g@] == p@[i as int].1,
            None => !pairs_map(p@).dom().contains(g@),
        },
{
    let mut i: usize = 0;
    while i < p.len()
        invariant
            i <= p@.len(),
            keys_distinct(p@),
            forall|j: int| 0 <= j < i ==> p@[j].0@ != g@,
        decreases p@.len() - i,
    {
        if str_eq(p[i].0.as_str(), g) {
            proof {
                lemma_pairs_map_at(p@, i as int);
            }
            return Some(i);
        }
        i += 1;
    }
    None
}

/// Gives node id `key` the id `v`, replacing an earlier entry.
fn set_id(p: &mut Vec<(String, u32)>, key: String, v: u32)
    requires
        keys_distinct(old(p)@),
    ensures
        keys_distinct(final(p)@),
        pairs_map(final(p)@) == pairs_map(old(p)@).insert(key@, v),
{
    let ghost before = p@;
    let ghost k = key@;
    match find_id(p, key.as_str()) {
        Some(i) => {
            p.set(i, (key, v));
            proof {
                let after = p@;
                assert(keys_distinct(after)) by {
                    assert forall|a: int, b: int| 0 <= a < b < after.len() implies after[a].0@ != after[b].0@ by {
                        if a != i && b != i {
                            assert(before[a].0@ != before[b].0@);
                        } else if a == i {
                            assert(before[a].0@ != before[b].0@);
                        } else {
                            assert(before[a].0@ != before[b].0@);
                        }
                    }
                }
                assert forall|x: Seq<char>| #[trigger] pairs_map(after).dom().contains(x)
                    == pairs_map(before).insert(k, v).dom().contains(x) by {
                    if pairs_map(before).dom().contains(x) && x != k {
                        let c = choose|j: int| 0 <= j < before.len() && before[j].0@ == x;
                        assert(after[c].0@ == x);
                    }
                    if x == k {
                        assert(after[i as int].0@ == x);
                    }
                    if pairs_map(after).dom().contains(x) && x != k {
                        let c = choose|j: int| 0 <= j < after.len() && after[j].0@ == x;
                        assert(before[c].0@ == x);
                    }
                }
                assert forall|x: Seq<char>| #[trigger] pairs_map(after).dom().contains(x) implies pairs_map(
                    after,
                )[x] == pairs_map(before).insert(k, v)[x] by {
                    let c = choose|j: int| 0 <= j < after.len() && after[j].0@ == x;
                    lemma_pairs_map_at(after, c);
                    if x != k {
                        lemma_pairs_map_at(before, c);
                    }
                }
                assert(pairs_map(after) =~= pairs_map(before).insert(k, v));
            }
        },
        None => {
            p.push((key, v));
            proof {
                let after = p@;
                let n = before.len() as int;
                assert(keys_distinct(after)) by {
                    assert forall|a: int, b: int| 0 <= a < b < after.len() implies after[a].0@ != after[b].0@ by {
                        if b == n {
                            assert(!pairs_map(before).dom().contains(k));
                            if after[a].0@ == k {
                                assert(0 <= a < before.len() && before[a].0@ == k);
                            }
                        } else {
                            assert(before[a].0@ != before[b].0@);
                        }
                    }
                }
                assert forall|x: Seq<char>| #[trigger] pairs_map(after).dom().contains(x)
                    == pairs_map(before).insert(k, v).dom().contains(x) by {
                    if pairs_map(before).dom().contains(x) {
                        let c = choose|j: int| 0 <= j < before.len() && before[j].0@ == x;
                        assert(after[c].0@ == x);
                    }
                    if x == k {
                        assert(after[n].0@ == x);
                    }
                    if pairs_map(after).dom().contains(x) && x != k {
                        let c = choose|j: int| 0 <= j < after.len() && after[j].0@ == x;
                        assert(before[c].0@ == x);
                    }
                }
                assert forall|x: Seq<char>| #[trigger] pairs_map(after).dom().contains(x) implies pairs_map(
                    after,
                )[x] == pairs_map(before).insert(k, v)[x] by {
                    let c = choose|j: int| 0 <= j < after.len() && after[j].0@ == x;
                    lemma_pairs_map_at(after, c);
                    if x != k {
                        lemma_pairs_map_at(before, c);
                    }
                }
                assert(pairs_map(after) =~= pairs_map(before).insert(k, v));
            }
        },
    }
}

// ── The importer ────────────────────────────────────────────────────

/// The id after the largest id of a table, or 0 for an empty table.
pub open spec fn next_after(p: Seq<(String, u32)>) -> int
    decreases p.len(),
{
    if p.len() == 0 {
        0
    } else {
        let rest = next_after(p.drop_last());
        if rest > p.last().1 + 1 {
            rest
        } else {
            p.last().1 + 1
        }
    }
}

/// Imports the setup of a Vixen 3 project: the element-node tree and the
/// controllers of its system configuration, and the fixtures and groups
/// built from the tree. Keeps the id given to each Vixen node id so that
/// sequences and the preview can be mapped onto the fixtures later.
#[derive(Debug)]
pub struct VixenImporter {
    nodes: Vec<VixenNode>,
    guid_to_id: Vec<(String, u32)>,
    next_id: u32,
    fixtures: Vec<FixtureDef>,
    groups: Vec<FixtureGroup>,
    controllers: Vec<Controller>,
    patches: Vec<Patch>,
    merged_fixture_ids: HashSet<u32>,
    warnings: Vec<String>,
}

impl VixenImporter {
    /// The importer's tables are consistent: node ids and id-table keys are
    /// each distinct.
    #[verifier::type_invariant]
    spec fn wf(&self) -> bool {
        &&& distinct_guids(nodes_view(self.nodes@))
        &&& keys_distinct(self.guid_to_id@)
    }

    /// The element nodes read so far.
    pub closed spec fn nodes(&self) -> Seq<NodeView> {
        nodes_view(self.nodes@)
    }

    /// The ids, fixtures and groups made so far.
    pub closed spec fn state(&self) -> BuildState {
        BuildState {
            guid_map: pairs_map(self.guid_to_id@),
            next_id: self.next_id as int,
            fixtures: fixtures_view(self.fixtures@),
            groups: groups_view(self.groups@),
            merged: self.merged_fixture_ids@,
        }
    }

    /// The controllers read so far.
    pub closed spec fn controller_list(&self) -> Seq<ControllerView> {
        controllers_view(self.controllers@)
    }

    /// The patches held.
    pub closed spec fn patch_list(&self) -> Seq<Patch> {
        self.patches@
    }

    /// The warnings gathered so far.
    pub closed spec fn warning_list(&self) -> Seq<Seq<char>> {
        strings_view(self.warnings@)
    }

    /// An importer with nothing read yet; ids start at 0.
    pub fn new() -> (r: Self)
        ensures
            r.nodes() == Seq::<NodeView>::empty(),
            r.state() == (BuildState {
                guid_map: Map::empty(),
                next_id: 0,
                fixtures: Seq::empty(),
                groups: Seq::empty(),
                merged: Set::empty(),
            }),
            r.controller_list() == Seq::<ControllerView>::empty(),
            r.patch_list() == Seq::<Patch>::empty(),
            r.warning_list() == Seq::<Seq<char>>::empty(),
    {
        let r = VixenImporter {
            nodes: Vec::new(),
            guid_to_id: Vec::new(),
            next_id: 0,
            fixtures: Vec::new(),
            groups: Vec::new(),
            controllers: Vec::new(),
            patches: Vec::new(),
            merged_fixture_ids: HashSet::new(),
            warnings: Vec::new(),
        };
        assert(nodes_view(r.nodes@) =~= Seq::empty());
        assert(pairs_map(r.guid_to_id@) =~= Map::empty());
        assert(fixtures_view(r.fixtures@) =~= Seq::empty());
        assert(groups_view(r.groups@) =~= Seq::empty());
        assert(controllers_view(r.controllers@) =~= Seq::empty());
        assert(strings_view(r.warnings@) =~= Seq::empty());
        r
    }

    /// Rebuilds an importer from an existing setup and its saved id table,
    /// so that sequences can be imported against it; new ids start after the
    /// largest saved one.
    pub fn from_setup(
        fixtures: Vec<FixtureDef>,
        groups: Vec<FixtureGroup>,
        controllers: Vec<Controller>,
        patches: Vec<Patch>,
        guid_map: Vec<(String, u32)>,
    ) -> (r: Self)
        requires
            keys_distinct(guid_map@),
            forall|i: int| 0 <= i < guid_map@.len() ==> #[trigger] guid_map@[i].1 < u32::MAX,
        ensures
            r.nodes() == Seq::<NodeView>::empty(),
            r.state() == (BuildState {
                guid_map: pairs_map(guid_map@),
                next_id: next_after(guid_map@),
                fixtures: fixtures_view(fixtures@),
                groups: groups_view(groups@),
                merged: Set::empty(),
            }),
            r.controller_list() == controllers_view(controllers@),
            r.patch_list() == patches@,
            r.warning_list() == Seq::<Seq<char>>::empty(),
    {
        let mut next: u32 = 0;
        let mut i: usize = 0;
        while i < guid_map.len()
            invariant
                i <= guid_map@.len(),
                forall|j: int| 0 <= j < guid_map@.len() ==> #[trigger] guid_map@[j].1 < u32::MAX,
                next as int == next_after(guid_map@.subrange(0, i as int)),
            decreases guid_map@.len() - i,
        {
            assert(guid_map@.subrange(0, i + 1).drop_last() =~= guid_map@.subrange(0, i as int));
            let v = guid_map[i].1;
            if v + 1 > next {
                next = v + 1;
            }
            i += 1;
        }
        assert(guid_map@.subrange(0, i as int) =~= guid_map@);
        let r = VixenImporter {
            nodes: Vec::new(),
            guid_to_id: guid_map,
            next_id: next,
            fixtures,
            groups,
            controllers,
            patches,
            merged_fixture_ids: HashSet::new(),
            warnings: Vec::new(),
        };
        assert(nodes_view(r.nodes@) =~= Seq::empty());
        assert(strings_view(r.warnings@) =~= Seq::empty());
        r
    }

    /// The id given to each Vixen node id, for saving after a setup import.
    pub fn guid_map(&self) -> (r: &Vec<(String, u32)>)
        ensures
            keys_distinct(r@),
            pairs_map(r@) == self.state().guid_map,
    {
        proof {
            use_type_invariant(&*self);
        }
        &self.guid_to_id
    }

    /// The warnings gathered during import.
    pub fn warnings(&self) -> (r: &[String])
        ensures
            strings_view(r@) == self.warning_list(),
    {
        self.warnings.as_slice()
    }

    /// Records a warning.
    pub fn add_warning(&mut self, w: String)
        ensures
            final(self).warning_list() == old(self).warning_list().push(w@),
            final(self).nodes() == old(self).nodes(),
            final(self).state() == old(self).state(),
            final(self).controller_list() == old(self).controller_list(),
            final(self).patch_list() == old(self).patch_list(),
    {
        proof {
            use_type_invariant(&*self);
        }
        let ghost before = strings_view(self.warnings@);
        let ghost wv = w@;
        let mut taken = Vec::new();
        std::mem::swap(&mut taken, &mut self.warnings);
        taken.push(w);
        self.warnings = taken;
        assert(strings_view(self.warnings@) =~= before.push(wv));
    }

    /// Number of fixtures made.
    pub fn fixture_count(&self) -> (n: usize)
        ensures
            n == self.state().fixtures.len(),
    {
        self.fixtures.len()
    }

    /// Number of groups made.
    pub fn group_count(&self) -> (n: usize)
        ensures
            n == self.state().groups.len(),
    {
        self.groups.len()
    }

    /// Number of controllers read.
    pub fn controller_count(&self) -> (n: usize)
        ensures
            n == self.controller_list().len(),
    {
        self.controllers.len()
    }

    /// The fixtures made.
    pub fn fixtures(&self) -> (r: &[FixtureDef])
        ensures
            fixtures_view(r@) == self.state().fixtures,
    {
        self.fixtures.as_slice()
    }

    /// The groups made.
    pub fn groups(&self) -> (r: &[FixtureGroup])
        ensures
            groups_view(r@) == self.state().groups,
    {
        self.groups.as_slice()
    }

    /// The controllers read.
    pub fn controllers(&self) -> (r: &[Controller])
        ensures
            controllers_view(r@) == self.controller_list(),
    {
        self.controllers.as_slice()
    }

    /// The element nodes read so far.
    pub fn node_list(&self) -> (r: &[VixenNode])
        ensures
            nodes_view(r@) == self.nodes(),
    {
        self.nodes.as_slice()
    }

    /// The patches held.
    pub fn patches(&self) -> (r: &[Patch])
        ensures
            r@ == self.patch_list(),
    {
        self.patches.as_slice()
    }

    /// Reads one event of the node section of the system configuration.
    pub fn scan_node_event(&mut self, scan: &mut NodeScan, event: &XmlEvent)
        ensures
            (NodeScanView {
                in_section: final(scan).in_section(),
                stack: final(scan).open_nodes(),
                nodes: final(self).nodes(),
            }) == node_scan_step(
                NodeScanView {
                    in_section: old(scan).in_section(),
                    stack: old(scan).open_nodes(),
                    nodes: old(self).nodes(),
                },
                *event,
            ),
            final(self).state() == old(self).state(),
            final(self).controller_list() == old(self).controller_list(),
            final(self).patch_list() == old(self).patch_list(),
            final(self).warning_list() == old(self).warning_list(),
    {
        proof {
            use_type_invariant(&*self);
        }
        match event {
            XmlEvent::Start(t) => {
                if is_nodes_section_exec(t.name.as_str()) {
                    scan.in_section = true;
                } else if is_node_tag_exec(t.name.as_str()) && scan.in_section {
                    let (guid, name, channel_id) = read_node_fields(&t.attributes);
                    let node = VixenNode { name, guid, children_guids: Vec::new(), channel_id };
                    assert(strings_view(node.children_guids@) =~= Seq::empty());
                    let ghost before = nodes_view(scan.stack@);
                    let ghost nv = node@;
                    scan.stack.push(node);
                    assert(nodes_view(scan.stack@) =~= before.push(nv));
                }
            },
            XmlEvent::End(n) => {
                if is_node_tag_exec(n.as_str()) && scan.stack.len() > 0 {
                    let ghost before = nodes_view(scan.stack@);
                    let node = scan.stack.pop().unwrap();
                    assert(nodes_view(scan.stack@) =~= before.drop_last());
                    if node.guid.unicode_len() > 0 {
                        let guid = node.guid.clone();
                        let mut taken = Vec::new();
                        std::mem::swap(&mut taken, &mut self.nodes);
                        store_node(&mut taken, node);
                        self.nodes = taken;
                        register_child_exec(&mut scan.stack, guid);
                    }
                } else if is_nodes_section_exec(n.as_str()) {
                    scan.in_section = false;
                }
            },
            XmlEvent::Empty(t) => {
                let (guid, name, channel_id) = read_node_fields(&t.attributes);
                if is_node_tag_exec(t.name.as_str()) && scan.in_section && guid.unicode_len() > 0 {
                    let key = guid.clone();
                    let node = VixenNode { name, guid, children_guids: Vec::new(), channel_id };
                    assert(strings_view(node.children_guids@) =~= Seq::empty());
                    let mut taken = Vec::new();
                    std::mem::swap(&mut taken, &mut self.nodes);
                    store_node(&mut taken, node);
                    self.nodes = taken;
                    register_child_exec(&mut scan.stack, key);
                }
            },
            _ => {},
        }
    }

    /// Reads one event of the controller section of the system
    /// configuration.
    pub fn scan_controller_event(&mut self, scan: &mut ControllerScan, event: &XmlEvent)
        requires
            old(scan)@.counter + old(scan)@.outputs.len() < u32::MAX,
        ensures
            (final(scan)@, final(self).controller_list()) == controller_scan_step(
                old(scan)@,
                old(self).controller_list(),
                *event,
            ),
            final(self).nodes() == old(self).nodes(),
            final(self).state() == old(self).state(),
            final(self).patch_list() == old(self).patch_list(),
            final(self).warning_list() == old(self).warning_list(),
    {
        proof {
            use_type_invariant(&*self);
        }
        let mut taken = Vec::new();
        std::mem::swap(&mut taken, &mut self.controllers);
        scan.step(&mut taken, event);
        self.controllers = taken;
    }
}

impl Default for VixenImporter {
    fn default() -> (r: Self)
        ensures
            r.nodes() == Seq::<NodeView>::empty(),
            r.state() == (BuildState {
                guid_map: Map::empty(),
                next_id: 0,
                fixtures: Seq::empty(),
                groups: Seq::empty(),
                merged: Set::empty(),
            }),
            r.controller_list() == Seq::<ControllerView>::empty(),
            r.patch_list() == Seq::<Patch>::empty(),
            r.warning_list() == Seq::<Seq<char>>::empty(),
    {
        VixenImporter::new()
    }
}

// ── Building ────────────────────────────────────────────────────────

/// A copy of a list of strings.
fn copy_strings(v: &Vec<String>) -> (r: Vec<String>)
    ensures
        strings_view(r@) == strings_view(v@),
{
    let mut r: Vec<String> = Vec::new();
    let mut i: usize = 0;
    while i < v.len()
        invariant
            i <= v@.len(),
            strings_view(r@) =~= strings_view(v@.subrange(0, i as int)),
        decreases v@.len() - i,
    {
        let ghost before = strings_view(r@);
        r.push(v[i].clone());
        assert(strings_view(v@.subrange(0, i + 1)) =~= before.push(v@[i as int]@));
        i += 1;
    }
    assert(v@.subrange(0, i as int) =~= v@);
    r
}

/// Whether `x` is in `v`.
fn contains_u32(v: &Vec<u32>, x: u32) -> (r: bool)
    ensures
        r == v@.contains(x),
{
    let mut i: usize = 0;
    while i < v.len()
        invariant
            i <= v@.len(),
            forall|j: int| 0 <= j < i ==> v@[j] != x,
        decreases v@.len() - i,
    {
        if v[i] == x {
            assert(v@[i as int] == x);
            return true;
        }
        i += 1;
    }
    false
}

proof fn lemma_drop_fixtures_step(fs: Seq<FixtureView>, ids: Set<u32>, p: int)
    requires
        0 <= p < fs.len(),
    ensures
        drop_fixtures(fs.subrange(0, p + 1), ids) == if ids.contains(fs[p].id) {
            drop_fixtures(fs.subrange(0, p), ids)
        } else {
            drop_fixtures(fs.subrange(0, p), ids).push(fs[p])
        },
{
    assert(fs.subrange(0, p + 1).drop_last() =~= fs.subrange(0, p));
}

proof fn lemma_map_all_to_step(m: Map<Seq<char>, u32>, ch: Seq<Seq<char>>, v: u32, j: int)
    requires
        0 <= j < ch.len(),
    ensures
        map_all_to(m, ch.subrange(0, j + 1), v) == map_all_to(m, ch.subrange(0, j), v).insert(ch[j], v),
{
    let a = ch.subrange(0, j + 1);
    let b = ch.subrange(0, j);
    assert forall|k: Seq<char>| a.contains(k) == (b.contains(k) || k == ch[j]) by {
        if a.contains(k) {
            let x = choose|x: int| 0 <= x < a.len() && a[x] == k;
            if x < j {
                assert(b[x] == k);
            }
        }
        if b.contains(k) {
            let x = choose|x: int| 0 <= x < b.len() && b[x] == k;
            assert(a[x] == k);
        }
        if k == ch[j] {
            assert(a[j] == k);
        }
    }
    assert(map_all_to(m, a, v) =~= map_all_to(m, b, v).insert(ch[j], v));
}

impl VixenImporter {
    /// Hands out the next id.
    fn alloc_id(&mut self) -> (id: u32)
        requires
            old(self).next_id < u32::MAX,
        ensures
            id == old(self).next_id,
            final(self).next_id == old(self).next_id + 1,
            final(self).nodes == old(self).nodes,
            final(self).guid_to_id == old(self).guid_to_id,
            final(self).fixtures == old(self).fixtures,
            final(self).groups == old(self).groups,
            final(self).controllers == old(self).controllers,
            final(self).patches == old(self).patches,
            final(self).merged_fixture_ids == old(self).merged_fixture_ids,
            final(self).warnings == old(self).warnings,
    {
        proof {
            use_type_invariant(&*self);
        }
        let id = self.next_id;
        self.next_id += 1;
        id
    }

    /// Removes the fixtures whose ids are in `ids`, keeping the order of the
    /// others.
    fn remove_fixtures(&mut self, ids: &Vec<u32>)
        ensures
            fixtures_view(final(self).fixtures@) == drop_fixtures(fixtures_view(old(self).fixtures@), ids@.to_set()),
            final(self).nodes == old(self).nodes,
            final(self).guid_to_id == old(self).guid_to_id,
            final(self).next_id == old(self).next_id,
            final(self).groups == old(self).groups,
            final(self).controllers == old(self).controllers,
            final(self).patches == old(self).patches,
            final(self).merged_fixture_ids == old(self).merged_fixture_ids,
            final(self).warnings == old(self).warnings,
    {
        proof {
            use_type_invariant(&*self);
        }
        let ghost f0 = fixtures_view(self.fixtures@);
        let ghost idset = ids@.to_set();
        let mut i: usize = 0;
        let ghost mut p: int = 0;
        while i < self.fixtures.len()
            invariant
                0 <= i <= p <= f0.len(),
                idset == ids@.to_set(),
                fixtures_view(self.fixtures@).len() == i + (f0.len() - p),
                fixtures_view(self.fixtures@).subrange(0, i as int) == drop_fixtures(f0.subrange(0, p), idset),
                fixtures_view(self.fixtures@).subrange(i as int, fixtures_view(self.fixtures@).len() as int)
                    == f0.subrange(p, f0.len() as int),
                self.nodes == old(self).nodes,
                self.guid_to_id == old(self).guid_to_id,
                self.next_id == old(self).next_id,
                self.groups == old(self).groups,
                self.controllers == old(self).controllers,
                self.patches == old(self).patches,
                self.merged_fixture_ids == old(self).merged_fixture_ids,
                self.warnings == old(self).warnings,
            decreases self.fixtures@.len() - i,
        {
            let ghost fv = fixtures_view(self.fixtures@);
            assert(fv[i as int] == f0[p]) by {
                assert(fv.subrange(i as int, fv.len() as int)[0] == f0.subrange(p, f0.len() as int)[0]);
            }
            proof {
                lemma_drop_fixtures_step(f0, idset, p);
            }
            let fid = self.fixtures[i].id.0;
            if contains_u32(ids, fid) {
                assert(idset.contains(fid));
                proof {
                    use_type_invariant(&*self);
                }
                let mut taken = Vec::new();
                std::mem::swap(&mut taken, &mut self.fixtures);
                taken.remove(i);
                self.fixtures = taken;
                let ghost fv2 = fixtures_view(self.fixtures@);
                assert(fv2.subrange(0, i as int) =~= fv.subrange(0, i as int));
                assert(fv2.subrange(i as int, fv2.len() as int) =~= f0.subrange(p + 1, f0.len() as int)) by {
                    assert forall|k: int| 0 <= k < fv2.len() - i implies #[trigger] fv2.subrange(i as int, fv2.len() as int)[k]
                        == f0.subrange(p + 1, f0.len() as int)[k] by {
                        assert(fv2[i + k] == fv[i + k + 1]);
                        assert(fv.subrange(i as int, fv.len() as int)[k + 1] == f0.subrange(p, f0.len() as int)[k + 1]);
                    }
                }
            } else {
                assert(!idset.contains(fid));
                assert(fv.subrange(0, i + 1) =~= fv.subrange(0, i as int).push(fv[i as int]));
                assert(fv.subrange(i + 1, fv.len() as int) =~= f0.subrange(p + 1, f0.len() as int)) by {
                    assert forall|k: int| 0 <= k < fv.len() - i - 1 implies #[trigger] fv.subrange(i + 1, fv.len() as int)[k]
                        == f0.subrange(p + 1, f0.len() as int)[k] by {
                        assert(fv.subrange(i as int, fv.len() as int)[k + 1] == f0.subrange(p, f0.len() as int)[k + 1]);
                    }
                }
                i += 1;
            }
            proof {
                p = p + 1;
            }
        }
        assert(p == f0.len());
        assert(f0.subrange(0, p) =~= f0);
        assert(fixtures_view(self.fixtures@).subrange(0, i as int) =~= fixtures_view(self.fixtures@));
    }
}

impl VixenImporter {
    /// Makes what an interior node becomes once its children are built.
    fn finish_interior(
        &mut self,
        id: u32,
        name: String,
        children: &Vec<String>,
        members: Vec<GroupMember>,
        Ghost(n): Ghost<NodeView>,
    ) -> (r: Option<GroupMember>)
        requires
            name@ == n.name,
            strings_view(children@) == n.children,
        ensures
            final(self).nodes == old(self).nodes,
            (final(self).state(), r) == finish_interior(old(self).state(), id, n, members@),
            final(self).controllers == old(self).controllers,
            final(self).patches == old(self).patches,
            final(self).warnings == old(self).warnings,
    {
        proof {
            use_type_invariant(&*self);
        }
        broadcast use vstd::std_specs::hash::group_hash_axioms;

        let ghost st = self.state();
        let mut all_leaves = true;
        let mut k: usize = 0;
        while k < members.len()
            invariant
                k <= members@.len(),
                st == self.state(),
                all_leaves == forall|q: int|
                    0 <= q < k ==> (#[trigger] members@[q] matches GroupMember::Fixture(f)
                        && !st.merged.contains(f.0)),
            decreases members@.len() - k,
        {
            match members[k] {
                GroupMember::Fixture(f) => {
                    if self.merged_fixture_ids.contains(&f.0) {
                        all_leaves = false;
                    }
                },
                GroupMember::Group(_) => {
                    all_leaves = false;
                },
            }
            k += 1;
        }
        assert(all_leaves == all_original_leaves(members@, st.merged));
        let count = members.len();
        if all_leaves && count > 1 {
            let mut ids: Vec<u32> = Vec::new();
            let mut q: usize = 0;
            while q < members.len()
                invariant
                    q <= members@.len(),
                    all_original_leaves(members@, st.merged),
                    ids@.len() == q,
                    forall|t: int| 0 <= t < q ==> members@[t] == GroupMember::Fixture(FixtureId(#[trigger] ids@[t])),
                decreases members@.len() - q,
            {
                match members[q] {
                    GroupMember::Fixture(f) => {
                        ids.push(f.0);
                    },
                    GroupMember::Group(_) => {
                        assert(false);
                    },
                }
                q += 1;
            }
            assert(ids@.to_set() =~= member_fixture_ids(members@)) by {
                assert forall|x: u32| ids@.to_set().contains(x) implies member_fixture_ids(members@).contains(x) by {
                    let t = choose|t: int| 0 <= t < ids@.len() && ids@[t] == x;
                    assert(members@[t] == GroupMember::Fixture(FixtureId(ids@[t])));
                }
                assert forall|x: u32| member_fixture_ids(members@).contains(x) implies ids@.to_set().contains(x) by {
                    let t = choose|t: int| 0 <= t < members@.len() && members@[t] == GroupMember::Fixture(FixtureId(x));
                    assert(members@[t] == GroupMember::Fixture(FixtureId(ids@[t])));
                    assert(ids@[t] == x);
                }
            }
            self.remove_fixtures(&ids);
            let ghost kept = fixtures_view(self.fixtures@);
            let f = FixtureDef {
                id: FixtureId(id),
                name,
                color_model: ColorModel::Rgb,
                pixel_count: count as u32,
                pixel_type: PixelType::default(),
                bulb_shape: BulbShape::default(),
                channel_order: ChannelOrder::default(),
            };
            assert(f@ == rgb_fixture(id, n.name, members@.len() as u32));
            let mut taken = Vec::new();
            std::mem::swap(&mut taken, &mut self.fixtures);
            taken.push(f);
            self.fixtures = taken;
            assert(fixtures_view(self.fixtures@) =~= kept.push(rgb_fixture(id, n.name, members@.len() as u32)));
            let mut merged = HashSet::new();
            std::mem::swap(&mut merged, &mut self.merged_fixture_ids);
            merged.insert(id);
            self.merged_fixture_ids = merged;
            let mut c: usize = 0;
            assert(map_all_to(st.guid_map, n.children.subrange(0, 0), id) =~= st.guid_map);
            while c < children.len()
                invariant
                    c <= children@.len(),
                    strings_view(children@) == n.children,
                    keys_distinct(self.guid_to_id@),
                    pairs_map(self.guid_to_id@) == map_all_to(st.guid_map, n.children.subrange(0, c as int), id),
                    self.nodes == old(self).nodes,
                    self.next_id == old(self).next_id,
                    fixtures_view(self.fixtures@) == drop_fixtures(st.fixtures, member_fixture_ids(members@)).push(
                        rgb_fixture(id, n.name, members@.len() as u32),
                    ),
                    self.groups == old(self).groups,
                    self.merged_fixture_ids@ == st.merged.insert(id),
                    self.controllers == old(self).controllers,
                    self.patches == old(self).patches,
                    self.warnings == old(self).warnings,
                decreases children@.len() - c,
            {
                proof {
                    lemma_map_all_to_step(st.guid_map, n.children, id, c as int);
                }
                proof {
                    use_type_invariant(&*self);
                }
                let mut taken = Vec::new();
                std::mem::swap(&mut taken, &mut self.guid_to_id);
                set_id(&mut taken, children[c].clone(), id);
                self.guid_to_id = taken;
                c += 1;
            }
            assert(n.children.subrange(0, c as int) =~= n.children);
            Some(GroupMember::Fixture(FixtureId(id)))
        } else if count > 0 {
            let ghost gs = groups_view(self.groups@);
            let ghost mv = members@;
            let mut taken = Vec::new();
            std::mem::swap(&mut taken, &mut self.groups);
            taken.push(FixtureGroup { id: GroupId(id), name, members });
            self.groups = taken;
            assert(groups_view(self.groups@) =~= gs.push(GroupView { id, name: n.name, members: mv }));
            Some(GroupMember::Group(GroupId(id)))
        } else {
            None
        }
    }

    /// Builds the fixture or group for the node with id `guid`.
    fn build_node(&mut self, guid: &str) -> (r: Option<GroupMember>)
        requires
            old(self).state().next_id + unassigned(old(self).nodes(), old(self).state().guid_map.dom())
                <= u32::MAX,
        ensures
            final(self).nodes == old(self).nodes,
            (final(self).state(), r) == build_node_spec(old(self).nodes(), old(self).state(), guid@),
            final(self).controllers == old(self).controllers,
            final(self).patches == old(self).patches,
            final(self).warnings == old(self).warnings,
        decreases unassigned(old(self).nodes(), old(self).state().guid_map.dom()),
    {
        proof {
            use_type_invariant(&*self);
        }
        let ghost nodes0 = self.nodes();
        let ghost st0 = self.state();
        let i = match find_node(&self.nodes, guid) {
            None => {
                return None;
            },
            Some(i) => i,
        };
        assert(node_at(nodes0, guid@) == Some(nodes0[i as int]));
        let ghost n = nodes0[i as int];
        match find_id(&self.guid_to_id, guid) {
            Some(k) => {
                let id = self.guid_to_id[k].1;
                if self.nodes[i].children_guids.len() == 0 {
                    return Some(GroupMember::Fixture(FixtureId(id)));
                } else {
                    return Some(GroupMember::Group(GroupId(id)));
                }
            },
            None => {},
        }
        proof {
            lemma_node_guids(nodes0);
            assert(node_guids(nodes0).contains(nodes0[i as int].guid));
            lemma_unassigned_insert(nodes0, st0.guid_map.dom(), guid@);
        }
        let name = self.nodes[i].name.clone();
        let children = copy_strings(&self.nodes[i].children_guids);
        let id = self.alloc_id();
        let mut taken = Vec::new();
        std::mem::swap(&mut taken, &mut self.guid_to_id);
        set_id(&mut taken, String::from_str(guid), id);
        self.guid_to_id = taken;
        let ghost st1 = self.state();
        assert(st1.guid_map.dom() =~= st0.guid_map.dom().insert(guid@));
        if children.len() == 0 {
            let ghost fs = fixtures_view(self.fixtures@);
            let f = FixtureDef {
                id: FixtureId(id),
                name,
                color_model: ColorModel::Rgb,
                pixel_count: 1,
                pixel_type: PixelType::default(),
                bulb_shape: BulbShape::default(),
                channel_order: ChannelOrder::default(),
            };
            let mut taken = Vec::new();
            std::mem::swap(&mut taken, &mut self.fixtures);
            taken.push(f);
            self.fixtures = taken;
            assert(fixtures_view(self.fixtures@) =~= fs.push(rgb_fixture(id, n.name, 1)));
            return Some(GroupMember::Fixture(FixtureId(id)));
        }
        let mut members: Vec<GroupMember> = Vec::new();
        let mut j: usize = 0;
        while j < children.len()
            invariant
                nodes0 == old(self).nodes(),
                st0 == old(self).state(),
                self.nodes() == nodes0,
                self.nodes == old(self).nodes,
                strings_view(children@) == n.children,
                0 <= j <= children@.len(),
                st1.guid_map.dom().subset_of(self.state().guid_map.dom()),
                self.state().next_id + unassigned(nodes0, self.state().guid_map.dom()) <= u32::MAX,
                unassigned(nodes0, self.state().guid_map.dom()) < unassigned(nodes0, st0.guid_map.dom()),
                build_children_spec(nodes0, st1, n.children, 0, Seq::empty()) == build_children_spec(
                    nodes0,
                    self.state(),
                    n.children,
                    j as int,
                    members@,
                ),
                self.controllers == old(self).controllers,
                self.patches == old(self).patches,
                self.warnings == old(self).warnings,
            decreases children@.len() - j,
        {
            let ghost cur = self.state();
            let ghost mem = members@;
            assert(children@[j as int]@ == n.children[j as int]);
            let r = self.build_node(children[j].as_str());
            proof {
                lemma_build_node_grows(nodes0, cur, n.children[j as int]);
                assert(cur.guid_map.union_prefer_right(self.state().guid_map) =~= self.state().guid_map);
                lemma_unassigned_grow(nodes0, st1.guid_map.dom(), self.state().guid_map.dom());
                lemma_unassigned_grow(nodes0, cur.guid_map.dom(), self.state().guid_map.dom());
            }
            match r {
                Some(m) => {
                    members.push(m);
                },
                None => {},
            }
            assert(members@ == match r {
                Some(m) => mem.push(m),
                None => mem,
            });
            j += 1;
        }
        self.finish_interior(id, name, &children, members, Ghost(n))
    }
}

/// Some node lists `g` as a child.
pub open spec fn is_child_guid(nodes: Seq<NodeView>, g: Seq<char>) -> bool {
    exists|i: int, j: int|
        0 <= i < nodes.len() && 0 <= j < nodes[i].children.len() && #[trigger] nodes[i].children[j] == g
}

/// The ids of the root nodes among `nodes[..k]`, those that no node lists as
/// a child, in table order.
pub open spec fn roots_prefix(nodes: Seq<NodeView>, k: int) -> Seq<Seq<char>>
    decreases k,
{
    if k <= 0 || k > nodes.len() {
        Seq::empty()
    } else {
        let r = roots_prefix(nodes, k - 1);
        if is_child_guid(nodes, nodes[k - 1].guid) {
            r
        } else {
            r.push(nodes[k - 1].guid)
        }
    }
}

/// The ids of the root nodes, in the order the nodes were first stored.
pub open spec fn root_guids(nodes: Seq<NodeView>) -> Seq<Seq<char>> {
    roots_prefix(nodes, nodes.len() as int)
}

/// Building `roots[i..]` one after the other.
pub open spec fn build_all(nodes: Seq<NodeView>, st: BuildState, roots: Seq<Seq<char>>, i: int) -> BuildState
    decreases roots.len() - i,
{
    if i < 0 || i >= roots.len() {
        st
    } else {
        build_all(nodes, build_node_spec(nodes, st, roots[i]).0, roots, i + 1)
    }
}

proof fn lemma_unassigned_le_len(nodes: Seq<NodeView>, assigned: Set<Seq<char>>)
    ensures
        unassigned(nodes, assigned) <= nodes.len(),
{
    lemma_node_guids(nodes);
    let ids = nodes.map_values(|n: NodeView| n.guid);
    ids.lemma_cardinality_of_set();
    let d = node_guids(nodes).difference(assigned);
    assert(d.subset_of(node_guids(nodes)));
    lemma_len_subset(d, node_guids(nodes));
}

impl VixenImporter {
    /// Whether some node lists `g` as a child.
    fn is_child(&self, g: &str) -> (r: bool)
        ensures
            r == is_child_guid(self.nodes(), g@),
    {
        let ghost nv = self.nodes();
        let mut i: usize = 0;
        while i < self.nodes.len()
            invariant
                i <= self.nodes@.len(),
                nv == nodes_view(self.nodes@),
                forall|a: int, b: int|
                    0 <= a < i && 0 <= b < nv[a].children.len() ==> #[trigger] nv[a].children[b] != g@,
            decreases self.nodes@.len() - i,
        {
            let ch = &self.nodes[i].children_guids;
            let mut j: usize = 0;
            while j < ch.len()
                invariant
                    i < self.nodes@.len(),
                    nv == nodes_view(self.nodes@),
                    *ch == self.nodes@[i as int].children_guids,
                    j <= ch@.len(),
                    forall|b: int| 0 <= b < j ==> #[trigger] nv[i as int].children[b] != g@,
                decreases ch@.len() - j,
            {
                assert(nv[i as int].children[j as int] == ch@[j as int]@);
                if str_eq(ch[j].as_str(), g) {
                    assert(nv[i as int].children[j as int] == g@);
                    return true;
                }
                j += 1;
            }
            i += 1;
        }
        false
    }

    /// Whether enough ids remain to give every node one:
    /// the next id plus the number of nodes stays within 32 bits.
    pub fn has_room_for_nodes(&self) -> (r: bool)
        ensures
            r == (self.state().next_id + self.nodes().len() <= u32::MAX),
            r ==> self.state().next_id + unassigned(self.nodes(), self.state().guid_map.dom()) <= u32::MAX,
    {
        proof {
            lemma_unassigned_le_len(self.nodes(), self.state().guid_map.dom());
        }
        let n = self.nodes.len();
        n <= 0xffff_ffff && self.next_id <= 0xffff_ffff - (n as u32)
    }

    /// Turns the node tree into fixtures and groups: every root node, in the
    /// order the nodes were first stored, is built with its subtree.
    pub fn build_fixtures_and_groups(&mut self)
        requires
            old(self).state().next_id + unassigned(old(self).nodes(), old(self).state().guid_map.dom())
                <= u32::MAX,
        ensures
            final(self).nodes() == old(self).nodes(),
            final(self).state() == build_all(old(self).nodes(), old(self).state(), root_guids(old(self).nodes()), 0),
            final(self).controller_list() == old(self).controller_list(),
            final(self).patch_list() == old(self).patch_list(),
            final(self).warning_list() == old(self).warning_list(),
    {
        proof {
            use_type_invariant(&*self);
        }
        let ghost nv = self.nodes();
        let mut roots: Vec<String> = Vec::new();
        let mut k: usize = 0;
        while k < self.nodes.len()
            invariant
                k <= self.nodes@.len(),
                nv == self.nodes(),
                strings_view(roots@) == roots_prefix(nv, k as int),
            decreases self.nodes@.len() - k,
        {
            let ghost before = strings_view(roots@);
            if !self.is_child(self.nodes[k].guid.as_str()) {
                roots.push(self.nodes[k].guid.clone());
                assert(strings_view(roots@) =~= before.push(nv[k as int].guid));
            }
            k += 1;
        }
        let ghost st0 = self.state();
        let mut i: usize = 0;
        while i < roots.len()
            invariant
                i <= roots@.len(),
                self.nodes() == nv,
                nv == old(self).nodes(),
                st0 == old(self).state(),
                strings_view(roots@) == root_guids(nv),
                self.state().next_id + unassigned(nv, self.state().guid_map.dom()) <= u32::MAX,
                build_all(nv, st0, root_guids(nv), 0) == build_all(nv, self.state(), root_guids(nv), i as int),
                self.controllers == old(self).controllers,
                self.patches == old(self).patches,
                self.warnings == old(self).warnings,
            decreases roots@.len() - i,
        {
            let ghost cur = self.state();
            assert(roots@[i as int]@ == root_guids(nv)[i as int]);
            self.build_node(roots[i].as_str());
            proof {
                lemma_build_node_grows(nv, cur, root_guids(nv)[i as int]);
            }
            i += 1;
        }
    }
}

// ── Laws of building ────────────────────────────────────────────────

/// Fixture and group ids are all distinct from one another and below the
/// next id to be handed out.
pub open spec fn ids_fresh(st: BuildState) -> bool {
    &&& forall|i: int, j: int|
        0 <= i < j < st.fixtures.len() ==> #[trigger] st.fixtures[i].id != #[trigger] st.fixtures[j].id
    &&& forall|i: int, j: int|
        0 <= i < j < st.groups.len() ==> #[trigger] st.groups[i].id != #[trigger] st.groups[j].id
    &&& forall|i: int, j: int|
        0 <= i < st.fixtures.len() && 0 <= j < st.groups.len() ==> #[trigger] st.fixtures[i].id
            != #[trigger] st.groups[j].id
    &&& forall|i: int| 0 <= i < st.fixtures.len() ==> #[trigger] st.fixtures[i].id < st.next_id
    &&& forall|j: int| 0 <= j < st.groups.len() ==> #[trigger] st.groups[j].id < st.next_id
}

/// `x` is the id of a fixture or a group of `st`.
pub open spec fn holds_id(st: BuildState, x: u32) -> bool {
    (exists|i: int| 0 <= i < st.fixtures.len() && #[trigger] st.fixtures[i].id == x) || (exists|j: int|
        0 <= j < st.groups.len() && #[trigger] st.groups[j].id == x)
}

/// Every fixture or group id of `r` was held in `st` or is new, at or above
/// the next id of `st`.
pub open spec fn ids_from(st: BuildState, r: BuildState) -> bool {
    &&& forall|i: int| 0 <= i < r.fixtures.len() ==> holds_id(st, #[trigger] r.fixtures[i].id) || r.fixtures[i].id
        >= st.next_id
    &&& forall|j: int| 0 <= j < r.groups.len() ==> holds_id(st, #[trigger] r.groups[j].id) || r.groups[j].id
        >= st.next_id
}

proof fn lemma_drop_fixtures(fs: Seq<FixtureView>, ids: Set<u32>)
    ensures
        forall|k: int|
            0 <= k < drop_fixtures(fs, ids).len() ==> exists|m: int|
                0 <= m < fs.len() && fs[m] == #[trigger] drop_fixtures(fs, ids)[k],
        (forall|a: int, b: int| 0 <= a < b < fs.len() ==> #[trigger] fs[a].id != #[trigger] fs[b].id) ==> (forall|
            a: int,
            b: int,
        |
            0 <= a < b < drop_fixtures(fs, ids).len() ==> #[trigger] drop_fixtures(fs, ids)[a].id
                != #[trigger] drop_fixtures(fs, ids)[b].id),
    decreases fs.len(),
{
    if fs.len() > 0 {
        let p = fs.drop_last();
        lemma_drop_fixtures(p, ids);
        let d = drop_fixtures(p, ids);
        let r = drop_fixtures(fs, ids);
        assert forall|k: int| 0 <= k < r.len() implies exists|m: int| 0 <= m < fs.len() && fs[m] == #[trigger] r[k] by {
            if k < d.len() {
                assert(r[k] == d[k]);
                let m = choose|m: int| 0 <= m < p.len() && p[m] == d[k];
                assert(fs[m] == p[m]);
            } else {
                assert(r[k] == fs[fs.len() - 1]);
            }
        }
        if forall|a: int, b: int| 0 <= a < b < fs.len() ==> #[trigger] fs[a].id != #[trigger] fs[b].id {
            assert forall|a: int, b: int| 0 <= a < b < p.len() implies #[trigger] p[a].id != #[trigger] p[b].id by {
                assert(fs[a].id != fs[b].id);
            }
            assert forall|a: int, b: int| 0 <= a < b < r.len() implies #[trigger] r[a].id != #[trigger] r[b].id by {
                if b < d.len() {
                    assert(r[a] == d[a] && r[b] == d[b]);
                } else {
                    assert(r[b] == fs[fs.len() - 1]);
                    assert(r[a] == d[a]);
                    let m = choose|m: int| 0 <= m < p.len() && p[m] == d[a];
                    assert(fs[m] == p[m]);
                    assert(fs[m].id != fs[fs.len() - 1].id);
                }
            }
        }
    }
}

proof fn lemma_finish_ids(b: BuildState, id: u32, n: NodeView, members: Seq<GroupMember>)
    requires
        ids_fresh(b),
        !holds_id(b, id),
        id < b.next_id,
    ensures
        ids_fresh(finish_interior(b, id, n, members).0),
        finish_interior(b, id, n, members).0.next_id == b.next_id,
        forall|x: u32| #[trigger] holds_id(finish_interior(b, id, n, members).0, x) ==> holds_id(b, x) || x == id,
{
    let r = finish_interior(b, id, n, members).0;
    if all_original_leaves(members, b.merged) && members.len() > 1 {
        let ids = member_fixture_ids(members);
        lemma_drop_fixtures(b.fixtures, ids);
        let d = drop_fixtures(b.fixtures, ids);
        let f = rgb_fixture(id, n.name, members.len() as u32);
        assert(r.fixtures == d.push(f));
        assert forall|k: int| 0 <= k < d.len() implies holds_id(b, #[trigger] d[k].id) && d[k].id < b.next_id by {
            let m = choose|m: int| 0 <= m < b.fixtures.len() && b.fixtures[m] == d[k];
            assert(b.fixtures[m].id == d[k].id);
        }
        assert forall|a: int, c: int| 0 <= a < c < r.fixtures.len() implies #[trigger] r.fixtures[a].id
            != #[trigger] r.fixtures[c].id by {
            if c < d.len() {
                assert(r.fixtures[a] == d[a] && r.fixtures[c] == d[c]);
            } else {
                assert(r.fixtures[a] == d[a]);
                assert(holds_id(b, d[a].id));
            }
        }
        assert forall|a: int, c: int| 0 <= a < r.fixtures.len() && 0 <= c < r.groups.len() implies #[trigger] r.fixtures[a].id
            != #[trigger] r.groups[c].id by {
            assert(r.groups[c] == b.groups[c]);
            if a < d.len() {
                assert(r.fixtures[a] == d[a]);
                let m = choose|m: int| 0 <= m < b.fixtures.len() && b.fixtures[m] == d[a];
                assert(b.fixtures[m].id != b.groups[c].id);
            } else {
                assert(holds_id(b, b.groups[c].id));
            }
        }
        assert forall|x: u32| #[trigger] holds_id(r, x) implies holds_id(b, x) || x == id by {
            if exists|i: int| 0 <= i < r.fixtures.len() && #[trigger] r.fixtures[i].id == x {
                let i = choose|i: int| 0 <= i < r.fixtures.len() && #[trigger] r.fixtures[i].id == x;
                if i < d.len() {
                    assert(r.fixtures[i] == d[i]);
                }
            } else {
                let j = choose|j: int| 0 <= j < r.groups.len() && #[trigger] r.groups[j].id == x;
                assert(b.groups[j].id == x);
            }
        }
    } else if members.len() > 0 {
        let g = GroupView { id, name: n.name, members };
        assert(r.groups == b.groups.push(g));
        assert forall|a: int, c: int| 0 <= a < c < r.groups.len() implies #[trigger] r.groups[a].id
            != #[trigger] r.groups[c].id by {
            if c == b.groups.len() {
                assert(r.groups[a] == b.groups[a]);
                assert(holds_id(b, b.groups[a].id));
            } else {
                assert(r.groups[a] == b.groups[a] && r.groups[c] == b.groups[c]);
            }
        }
        assert forall|a: int, c: int| 0 <= a < r.fixtures.len() && 0 <= c < r.groups.len() implies #[trigger] r.fixtures[a].id
            != #[trigger] r.groups[c].id by {
            if c == b.groups.len() {
                assert(holds_id(b, b.fixtures[a].id));
            } else {
                assert(r.groups[c] == b.groups[c]);
            }
        }
        assert forall|x: u32| #[trigger] holds_id(r, x) implies holds_id(b, x) || x == id by {
            if exists|i: int| 0 <= i < r.fixtures.len() && #[trigger] r.fixtures[i].id == x {
                let i = choose|i: int| 0 <= i < r.fixtures.len() && #[trigger] r.fixtures[i].id == x;
                assert(b.fixtures[i].id == x);
            } else {
                let j = choose|j: int| 0 <= j < r.groups.len() && #[trigger] r.groups[j].id == x;
                if j < b.groups.len() {
                    assert(b.groups[j].id == x);
                }
            }
        }
    }
}

/// Building a node keeps fixture and group ids distinct and below the next
/// id, and every id it brings in is new.
pub proof fn lemma_build_node_ids(nodes: Seq<NodeView>, st: BuildState, g: Seq<char>)
    requires
        ids_fresh(st),
        0 <= st.next_id,
        st.next_id + unassigned(nodes, st.guid_map.dom()) <= u32::MAX,
    ensures
        ids_fresh(build_node_spec(nodes, st, g).0),
        ids_from(st, build_node_spec(nodes, st, g).0),
    decreases unassigned(nodes, st.guid_map.dom()), 0nat,
{
    let r = build_node_spec(nodes, st, g).0;
    match node_at(nodes, g) {
        None => {},
        Some(n) => {
            if !st.guid_map.dom().contains(g) {
                let id = st.next_id as u32;
                let st1 = BuildState {
                    guid_map: st.guid_map.insert(g, id),
                    next_id: st.next_id + 1,
                    fixtures: st.fixtures,
                    groups: st.groups,
                    merged: st.merged,
                };
                let gi = guid_index(nodes, g)->0;
                lemma_node_guids(nodes);
                assert(node_guids(nodes).contains(nodes[gi].guid));
                lemma_unassigned_insert(nodes, st.guid_map.dom(), g);
                assert(st1.guid_map.dom() =~= st.guid_map.dom().insert(g));
                assert(id == st.next_id);
                if n.children.len() == 0 {
                    let f = rgb_fixture(id, n.name, 1);
                    assert(r.fixtures == st.fixtures.push(f));
                    assert forall|a: int, c: int| 0 <= a < c < r.fixtures.len() implies #[trigger] r.fixtures[a].id
                        != #[trigger] r.fixtures[c].id by {
                        if c == st.fixtures.len() {
                            assert(r.fixtures[a] == st.fixtures[a]);
                        } else {
                            assert(r.fixtures[a] == st.fixtures[a] && r.fixtures[c] == st.fixtures[c]);
                        }
                    }
                    assert forall|a: int, c: int| 0 <= a < r.fixtures.len() && 0 <= c < r.groups.len() implies #[trigger] r.fixtures[a].id
                        != #[trigger] r.groups[c].id by {
                        if a < st.fixtures.len() {
                            assert(r.fixtures[a] == st.fixtures[a]);
                        }
                    }
                    assert forall|i: int| 0 <= i < r.fixtures.len() implies holds_id(st, #[trigger] r.fixtures[i].id)
                        || r.fixtures[i].id >= st.next_id by {
                        if i < st.fixtures.len() {
                            assert(r.fixtures[i] == st.fixtures[i]);
                        }
                    }
                } else {
                    let i = guid_index(nodes, g)->0;
                    lemma_node_guids(nodes);
                    assert(node_guids(nodes).contains(nodes[i].guid));
                    lemma_unassigned_insert(nodes, st.guid_map.dom(), g);
                    assert(st1.guid_map.dom() =~= st.guid_map.dom().insert(g));
                    assert(ids_fresh(st1));
                    lemma_build_children_ids(nodes, st1, n.children, 0, Seq::empty());
                    lemma_build_children_grows(nodes, st1, n.children, 0, Seq::empty());
                    let built = build_children_spec(nodes, st1, n.children, 0, Seq::empty());
                    assert(!holds_id(built.0, id)) by {
                        if holds_id(built.0, id) {
                            if exists|a: int| 0 <= a < built.0.fixtures.len() && #[trigger] built.0.fixtures[a].id == id {
                                let a = choose|a: int| 0 <= a < built.0.fixtures.len() && #[trigger] built.0.fixtures[a].id == id;
                                assert(holds_id(st1, built.0.fixtures[a].id) || built.0.fixtures[a].id >= st1.next_id);
                            } else {
                                let c = choose|c: int| 0 <= c < built.0.groups.len() && #[trigger] built.0.groups[c].id == id;
                                assert(holds_id(st1, built.0.groups[c].id) || built.0.groups[c].id >= st1.next_id);
                            }
                        }
                    }
                    lemma_finish_ids(built.0, id, n, built.1);
                    assert forall|a: int| 0 <= a < r.fixtures.len() implies holds_id(st, #[trigger] r.fixtures[a].id)
                        || r.fixtures[a].id >= st.next_id by {
                        assert(holds_id(r, r.fixtures[a].id));
                        if r.fixtures[a].id != id {
                            assert(holds_id(built.0, r.fixtures[a].id));
                            let x = r.fixtures[a].id;
                            if exists|q: int| 0 <= q < built.0.fixtures.len() && #[trigger] built.0.fixtures[q].id == x {
                                let q = choose|q: int| 0 <= q < built.0.fixtures.len() && #[trigger] built.0.fixtures[q].id == x;
                                assert(holds_id(st1, built.0.fixtures[q].id) || built.0.fixtures[q].id >= st1.next_id);
                            } else {
                                let q = choose|q: int| 0 <= q < built.0.groups.len() && #[trigger] built.0.groups[q].id == x;
                                assert(holds_id(st1, built.0.groups[q].id) || built.0.groups[q].id >= st1.next_id);
                            }
                        }
                    }
                    assert forall|a: int| 0 <= a < r.groups.len() implies holds_id(st, #[trigger] r.groups[a].id)
                        || r.groups[a].id >= st.next_id by {
                        assert(holds_id(r, r.groups[a].id));
                        if r.groups[a].id != id {
                            assert(holds_id(built.0, r.groups[a].id));
                            let x = r.groups[a].id;
                            if exists|q: int| 0 <= q < built.0.fixtures.len() && #[trigger] built.0.fixtures[q].id == x {
                                let q = choose|q: int| 0 <= q < built.0.fixtures.len() && #[trigger] built.0.fixtures[q].id == x;
                                assert(holds_id(st1, built.0.fixtures[q].id) || built.0.fixtures[q].id >= st1.next_id);
                            } else {
                                let q = choose|q: int| 0 <= q < built.0.groups.len() && #[trigger] built.0.groups[q].id == x;
                                assert(holds_id(st1, built.0.groups[q].id) || built.0.groups[q].id >= st1.next_id);
                            }
                        }
                    }
                }
            }
        },
    }
}

/// Building children keeps fixture and group ids distinct and below the
/// next id, and every id it brings in is new.
pub proof fn lemma_build_children_ids(
    nodes: Seq<NodeView>,
    st: BuildState,
    ch: Seq<Seq<char>>,
    i: int,
    members: Seq<GroupMember>,
)
    requires
        ids_fresh(st),
        0 <= st.next_id,
        st.next_id + unassigned(nodes, st.guid_map.dom()) <= u32::MAX,
    ensures
        ids_fresh(build_children_spec(nodes, st, ch, i, members).0),
        ids_from(st, build_children_spec(nodes, st, ch, i, members).0),
    decreases unassigned(nodes, st.guid_map.dom()), ch.len() - i + 1,
{
    if 0 <= i < ch.len() {
        let r = build_node_spec(nodes, st, ch[i]);
        let st2 = BuildState {
            guid_map: st.guid_map.union_prefer_right(r.0.guid_map),
            next_id: r.0.next_id,
            fixtures: r.0.fixtures,
            groups: r.0.groups,
            merged: r.0.merged,
        };
        lemma_unassigned_grow(nodes, st.guid_map.dom(), st2.guid_map.dom());
        lemma_build_node_ids(nodes, st, ch[i]);
        lemma_build_node_grows(nodes, st, ch[i]);
        assert(st2.guid_map.dom() =~= r.0.guid_map.dom());
        let members2 = match r.1 {
            Some(m) => members.push(m),
            None => members,
        };
        lemma_build_children_ids(nodes, st2, ch, i + 1, members2);
        let fin = build_children_spec(nodes, st2, ch, i + 1, members2).0;
        assert forall|a: int| 0 <= a < fin.fixtures.len() implies holds_id(st, #[trigger] fin.fixtures[a].id)
            || fin.fixtures[a].id >= st.next_id by {
            let x = fin.fixtures[a].id;
            if holds_id(st2, x) {
                if exists|q: int| 0 <= q < st2.fixtures.len() && #[trigger] st2.fixtures[q].id == x {
                    let q = choose|q: int| 0 <= q < st2.fixtures.len() && #[trigger] st2.fixtures[q].id == x;
                    assert(holds_id(st, r.0.fixtures[q].id) || r.0.fixtures[q].id >= st.next_id);
                } else {
                    let q = choose|q: int| 0 <= q < st2.groups.len() && #[trigger] st2.groups[q].id == x;
                    assert(holds_id(st, r.0.groups[q].id) || r.0.groups[q].id >= st.next_id);
                }
            }
        }
        assert forall|a: int| 0 <= a < fin.groups.len() implies holds_id(st, #[trigger] fin.groups[a].id)
            || fin.groups[a].id >= st.next_id by {
            let x = fin.groups[a].id;
            if holds_id(st2, x) {
                if exists|q: int| 0 <= q < st2.fixtures.len() && #[trigger] st2.fixtures[q].id == x {
                    let q = choose|q: int| 0 <= q < st2.fixtures.len() && #[trigger] st2.fixtures[q].id == x;
                    assert(holds_id(st, r.0.fixtures[q].id) || r.0.fixtures[q].id >= st.next_id);
                } else {
                    let q = choose|q: int| 0 <= q < st2.groups.len() && #[trigger] st2.groups[q].id == x;
                    assert(holds_id(st, r.0.groups[q].id) || r.0.groups[q].id >= st.next_id);
                }
            }
        }
    }
}

/// Building the roots one after the other never gives two fixtures or
/// groups the same id: when the ids held before are distinct and below the
/// next id, so are those after, as long as ids do not run out.
pub proof fn lemma_build_all_ids(nodes: Seq<NodeView>, st: BuildState, roots: Seq<Seq<char>>, i: int)
    requires
        ids_fresh(st),
        0 <= st.next_id,
        st.next_id + unassigned(nodes, st.guid_map.dom()) <= u32::MAX,
    ensures
        ids_fresh(build_all(nodes, st, roots, i)),
    decreases roots.len() - i,
{
    if 0 <= i < roots.len() {
        lemma_build_node_ids(nodes, st, roots[i]);
        lemma_build_node_grows(nodes, st, roots[i]);
        lemma_build_all_ids(nodes, build_node_spec(nodes, st, roots[i]).0, roots, i + 1);
    }
}

/// Building the roots one after the other gives every root node an id.
pub proof fn lemma_build_all_assigns(nodes: Seq<NodeView>, st: BuildState, roots: Seq<Seq<char>>, i: int, k: int)
    requires
        0 <= i <= k < roots.len(),
        node_at(nodes, roots[k]) is Some,
    ensures
        build_all(nodes, st, roots, i).guid_map.dom().contains(roots[k]),
    decreases roots.len() - i,
{
    lemma_build_node_grows(nodes, st, roots[i]);
    let next = build_node_spec(nodes, st, roots[i]).0;
    if i < k {
        lemma_build_all_assigns(nodes, next, roots, i + 1, k);
    } else {
        lemma_build_all_keeps(nodes, next, roots, i + 1, roots[k]);
    }
}

/// Building never takes an id away from a node id.
pub proof fn lemma_build_all_keeps(nodes: Seq<NodeView>, st: BuildState, roots: Seq<Seq<char>>, i: int, g: Seq<char>)
    requires
        st.guid_map.dom().contains(g),
    ensures
        build_all(nodes, st, roots, i).guid_map.dom().contains(g),
    decreases roots.len() - i,
{
    if 0 <= i < roots.len() {
        lemma_build_node_grows(nodes, st, roots[i]);
        lemma_build_all_keeps(nodes, build_node_spec(nodes, st, roots[i]).0, roots, i + 1, g);
    }
}

/// The state after the node with id `g` is given the next id.
pub open spec fn assign_next(st: BuildState, g: Seq<char>) -> BuildState {
    BuildState {
        guid_map: st.guid_map.insert(g, st.next_id as u32),
        next_id: st.next_id + 1,
        fixtures: st.fixtures,
        groups: st.groups,
        merged: st.merged,
    }
}

/// Merging leaves: when the children built for a new interior node are two
/// or more leaf fixtures not made by merging, the node becomes one fixture
/// with its own id and a pixel per built child, and the id of every child
/// node maps to that fixture.
pub proof fn lemma_merge_maps_children(nodes: Seq<NodeView>, st: BuildState, g: Seq<char>)
    requires
        node_at(nodes, g) is Some,
        node_at(nodes, g)->0.children.len() > 0,
        !st.guid_map.dom().contains(g),
        all_original_leaves(
            build_children_spec(nodes, assign_next(st, g), node_at(nodes, g)->0.children, 0, Seq::empty()).1,
            build_children_spec(nodes, assign_next(st, g), node_at(nodes, g)->0.children, 0, Seq::empty()).0.merged,
        ),
        build_children_spec(nodes, assign_next(st, g), node_at(nodes, g)->0.children, 0, Seq::empty()).1.len()
            > 1,
    ensures
        ({
            let n = node_at(nodes, g)->0;
            let built = build_children_spec(nodes, assign_next(st, g), n.children, 0, Seq::empty());
            let r = build_node_spec(nodes, st, g);
            &&& r.1 == Some(GroupMember::Fixture(FixtureId(st.next_id as u32)))
            &&& r.0.fixtures.last() == rgb_fixture(st.next_id as u32, n.name, built.1.len() as u32)
            &&& forall|k: int|
                0 <= k < n.children.len() ==> #[trigger] r.0.guid_map[n.children[k]] == st.next_id as u32
                    && r.0.guid_map.dom().contains(n.children[k])
        }),
{
    let n = node_at(nodes, g)->0;
    let r = build_node_spec(nodes, st, g);
    assert forall|k: int| 0 <= k < n.children.len() implies #[trigger] r.0.guid_map[n.children[k]]
        == st.next_id as u32 && r.0.guid_map.dom().contains(n.children[k]) by {
        assert(n.children.contains(n.children[k]));
    }
}

// ── Tracks of an imported sequence ──────────────────────────────────

/// The largest number of effects an imported sequence keeps.
pub const MAX_TOTAL_EFFECTS: usize = 10000;

/// The key that stands for effects without targets.
pub open spec fn all_key() -> Seq<char> {
    "_all_"@
}

/// The key an effect's track is grouped under: `_all_` for an effect
/// without targets, its first target when that is `_all_` or a node with an
/// id, and none (the effect is dropped) otherwise.
pub open spec fn spec_track_key(st: BuildState, targets: Seq<Seq<char>>) -> Option<Seq<char>> {
    if targets.len() == 0 {
        Some(all_key())
    } else if targets[0] == all_key() || st.guid_map.contains_key(targets[0]) {
        Some(targets[0])
    } else {
        None
    }
}

/// What a track key targets: everything for `_all_`; for a node with an
/// id, the fixture with that id if there is one, else the group with that
/// id if there is one; none otherwise.
pub open spec fn spec_track_target(st: BuildState, key: Seq<char>) -> Option<TargetView> {
    if key == all_key() {
        Some(TargetView::All)
    } else if st.guid_map.contains_key(key) {
        let id = st.guid_map[key];
        if exists|i: int| 0 <= i < st.fixtures.len() && st.fixtures[i].id == id {
            Some(TargetView::Fixtures(seq![id]))
        } else if exists|i: int| 0 <= i < st.groups.len() && st.groups[i].id == id {
            Some(TargetView::Group(id))
        } else {
            None
        }
    } else {
        None
    }
}

/// The name of a lane's track: `All` for `_all_`, else the node's name, or
/// `Track n` (n one more than the tracks made so far) for a key with no
/// node; with more than one lane, ` (k)` for the k-th lane from one.
pub open spec fn spec_track_name(nodes: Seq<NodeView>, key: Seq<char>, made: nat, lane: nat, lanes: nat) -> Seq<char> {
    let base = if key == all_key() {
        "All"@
    } else {
        match node_at(nodes, key) {
            Some(n) => n.name,
            None => "Track "@ + decimal(made + 1),
        }
    };
    if lanes > 1 {
        base + " ("@ + decimal(lane + 1) + ")"@
    } else {
        base
    }
}

/// The track lengths after capping: each keeps what is left of `cap`
/// after the tracks before it.
pub open spec fn capped(lens: Seq<usize>, cap: nat) -> Seq<nat>
    decreases lens.len(),
{
    if lens.len() == 0 {
        Seq::empty()
    } else {
        let k = if lens[0] <= cap {
            lens[0] as nat
        } else {
            cap
        };
        seq![k] + capped(lens.drop_first(), (cap - k) as nat)
    }
}

/// The effect counts of the tracks, in order, once the sequence keeps at
/// most `MAX_TOTAL_EFFECTS` effects: each track keeps what is left of the
/// cap after the tracks before it (tracks left with none are dropped by the
/// caller).
pub fn capped_lengths(lens: &[usize]) -> (r: Vec<usize>)
    ensures
        r@.map_values(|x: usize| x as nat) == capped(lens@, MAX_TOTAL_EFFECTS as nat),
{
    let mut r: Vec<usize> = Vec::new();
    let mut left: usize = MAX_TOTAL_EFFECTS;
    let mut i: usize = 0;
    assert(lens@.skip(0) =~= lens@);
    while i < lens.len()
        invariant
            i <= lens@.len(),
            left <= MAX_TOTAL_EFFECTS,
            capped(lens@, MAX_TOTAL_EFFECTS as nat) == r@.map_values(|x: usize| x as nat) + capped(
                lens@.skip(i as int),
                left as nat,
            ),
        decreases lens@.len() - i,
    {
        assert(lens@.skip(i as int)[0] == lens@[i as int]);
        assert(lens@.skip(i as int).drop_first() =~= lens@.skip(i + 1));
        let k = if lens[i] <= left {
            lens[i]
        } else {
            left
        };
        let ghost before = r@.map_values(|x: usize| x as nat);
        r.push(k);
        assert(r@.map_values(|x: usize| x as nat) =~= before.push(k as nat));
        assert(before + capped(lens@.skip(i as int), left as nat) =~= before.push(k as nat) + capped(
            lens@.skip(i + 1),
            (left - k) as nat,
        ));
        left = left - k;
        i += 1;
    }
    assert(lens@.skip(i as int) =~= Seq::<usize>::empty());
    assert(r@.map_values(|x: usize| x as nat) + Seq::<nat>::empty() =~= r@.map_values(|x: usize| x as nat));
    r
}

/// The sum of the track lengths.
pub open spec fn total_len(s: Seq<usize>) -> int
    decreases s.len(),
{
    if s.len() == 0 {
        0
    } else {
        s[0] + total_len(s.drop_first())
    }
}

/// Where the track lengths add up to at most the cap, capping keeps them.
pub proof fn lemma_capped_within(lens: Seq<usize>, cap: nat)
    requires
        total_len(lens) <= cap,
    ensures
        capped(lens, cap) == lens.map_values(|x: usize| x as nat),
    decreases lens.len(),
{
    if lens.len() > 0 {
        lemma_total_nonneg(lens.drop_first());
        lemma_capped_within(lens.drop_first(), (cap - lens[0]) as nat);
        assert(lens.map_values(|x: usize| x as nat) =~= seq![lens[0] as nat] + lens.drop_first().map_values(
            |x: usize| x as nat,
        ));
    }
}

proof fn lemma_total_nonneg(s: Seq<usize>)
    ensures
        total_len(s) >= 0,
    decreases s.len(),
{
    if s.len() > 0 {
        lemma_total_nonneg(s.drop_first());
    }
}

impl VixenImporter {
    /// The key an effect with these targets is grouped under, or none when
    /// its first target is a node the import does not know.
    pub fn track_key(&self, targets: &[String]) -> (r: Option<String>)
        ensures
            match r {
                Some(k) => spec_track_key(self.state(), strings_view(targets@)) == Some(k@),
                None => spec_track_key(self.state(), strings_view(targets@)) is None,
            },
    {
        proof {
            use_type_invariant(&*self);
        }
        if targets.len() == 0 {
            return Some(String::from_str("_all_"));
        }
        let t = &targets[0];
        assert(strings_view(targets@)[0] == t@);
        if str_eq(t.as_str(), "_all_") {
            return Some(t.clone());
        }
        match find_id(&self.guid_to_id, t.as_str()) {
            Some(_) => Some(t.clone()),
            None => None,
        }
    }

    /// What a track key targets: `EffectTarget::All` for `_all_`, the fixture
    /// or else the group with the key's id, and none for a key that resolves
    /// to neither.
    pub fn resolve_track_target(&self, key: &str) -> (r: Option<EffectTarget>)
        ensures
            match r {
                Some(t) => spec_track_target(self.state(), key@) == Some(t@),
                None => spec_track_target(self.state(), key@) is None,
            },
    {
        proof {
            use_type_invariant(&*self);
        }
        if str_eq(key, "_all_") {
            return Some(EffectTarget::All);
        }
        let id = match find_id(&self.guid_to_id, key) {
            Some(i) => self.guid_to_id[i].1,
            None => {
                return None;
            },
        };
        let ghost st = self.state();
        assert(st.guid_map.contains_key(key@) && st.guid_map[key@] == id);
        let mut i: usize = 0;
        while i < self.fixtures.len()
            invariant
                i <= self.fixtures@.len(),
                st == self.state(),
                key@ != all_key(),
                st.guid_map.contains_key(key@) && st.guid_map[key@] == id,
                forall|j: int| 0 <= j < i ==> st.fixtures[j].id != id,
            decreases self.fixtures@.len() - i,
        {
            assert(st.fixtures[i as int].id == self.fixtures@[i as int].id.0);
            if self.fixtures[i].id.0 == id {
                let mut ids: Vec<FixtureId> = Vec::new();
                ids.push(FixtureId(id));
                assert(ids@.map_values(|x: FixtureId| x.0) =~= seq![id]);
                let r = EffectTarget::Fixtures(ids);
                assert(st.fixtures[i as int].id == id);
                assert(exists|j: int| 0 <= j < st.fixtures.len() && st.fixtures[j].id == id);
                assert(key@ != all_key());
                assert(spec_track_target(st, key@) == Some(TargetView::Fixtures(seq![id])));
                assert(r@ == TargetView::Fixtures(seq![id]));
                return Some(r);
            }
            i += 1;
        }
        assert(key@ != all_key());
        let mut k: usize = 0;
        while k < self.groups.len()
            invariant
                k <= self.groups@.len(),
                st == self.state(),
                key@ != all_key(),
                st.guid_map.contains_key(key@) && st.guid_map[key@] == id,
                forall|j: int| 0 <= j < st.fixtures.len() ==> st.fixtures[j].id != id,
                forall|j: int| 0 <= j < k ==> st.groups[j].id != id,
            decreases self.groups@.len() - k,
        {
            assert(st.groups[k as int].id == self.groups@[k as int].id.0);
            if self.groups[k].id.0 == id {
                assert(st.groups[k as int].id == id);
                assert(exists|j: int| 0 <= j < st.groups.len() && st.groups[j].id == id);
                assert(!exists|j: int| 0 <= j < st.fixtures.len() && st.fixtures[j].id == id);
                assert(key@ != all_key());
                assert(spec_track_target(st, key@) == Some(TargetView::Group(id)));
                return Some(EffectTarget::Group(GroupId(id)));
            }
            k += 1;
        }
        None
    }

    /// The name of a lane's track (see `spec_track_name`); `made` is the
    /// number of tracks made so far, `lane` counts from zero.
    pub fn track_name(&self, key: &str, made: usize, lane: usize, lanes: usize) -> (r: String)
        requires
            made < usize::MAX,
            lane < usize::MAX,
        ensures
            r@ == spec_track_name(self.nodes(), key@, made as nat, lane as nat, lanes as nat),
    {
        proof {
            use_type_invariant(&*self);
            reveal_strlit("All");
            reveal_strlit("Track ");
            reveal_strlit(" (");
            reveal_strlit(")");
        }
        let mut name = if str_eq(key, "_all_") {
            String::from_str("All")
        } else {
            match find_node(&self.nodes, key) {
                Some(i) => self.nodes[i].name.clone(),
                None => {
                    let mut t = String::from_str("Track ");
                    push_decimal(&mut t, made as u64 + 1);
                    t
                },
            }
        };
        if lanes > 1 {
            name.append(" (");
            push_decimal(&mut name, lane as u64 + 1);
            name.append(")");
        }
        name
    }
}

// ── Preview pixels by fixture ───────────────────────────────────────

/// The node ids of a display item's pixels, in order: one per placed pixel,
/// or the node ids spread along its shape.
pub open spec fn item_node_ids(it: ItemView) -> Seq<Seq<char>> {
    match it.pixels {
        ItemPixelsView::Placed(p) => p.map_values(|x: PlacedView| x.node_id),
        ItemPixelsView::Along(n, _) => n,
    }
}

/// Shape types the layout import knows.
pub open spec fn known_shape(t: Seq<char>) -> bool {
    t == "PreviewLine"@ || t == "PreviewArch"@ || t == "PreviewNet"@ || t == "PreviewPixelGrid"@
        || t == "PreviewRectangle"@ || t == "PreviewMegaTree"@ || t == "PreviewStar"@ || t == "PreviewCustomProp"@
        || t == "PreviewEllipse"@ || t == "PreviewPolyLine"@ || t == "PreviewMultiString"@ || t == "PreviewTriangle"@
}

/// The warning for a display item whose shape type is not known.
pub open spec fn shape_warning(it: ItemView) -> Seq<char> {
    "Unsupported preview shape type '"@ + it.shape_type + "' for '"@ + it.name + "' — imported as Custom"@
}

/// The warning for preview pixels no fixture takes.
pub open spec fn orphan_warning(n: nat) -> Seq<char> {
    decimal(n) + " preview pixels could not be mapped to imported fixtures (orphan node IDs)"@
}

/// The first position of fixture `id` in `g`, if any.
pub open spec fn group_index(g: Seq<(u32, Seq<(int, int)>)>, id: u32) -> Option<int>
    decreases g.len(),
{
    if g.len() == 0 {
        None
    } else if g[0].0 == id {
        Some(0)
    } else {
        match group_index(g.drop_first(), id) {
            Some(k) => Some(k + 1),
            None => None,
        }
    }
}

/// The number of leading fixtures of `g` whose id is below `id`.
pub open spec fn group_slot(g: Seq<(u32, Seq<(int, int)>)>, id: u32) -> int
    decreases g.len(),
{
    if g.len() == 0 || g[0].0 >= id {
        0
    } else {
        1 + group_slot(g.drop_first(), id)
    }
}

/// `g` with pixel `p` added to fixture `id`: after its pixels when the
/// fixture is there, else as a new fixture before the first larger id.
pub open spec fn add_pixel(g: Seq<(u32, Seq<(int, int)>)>, id: u32, p: (int, int)) -> Seq<(u32, Seq<(int, int)>)> {
    match group_index(g, id) {
        Some(k) => g.update(k, (id, g[k].1.push(p))),
        None => g.insert(group_slot(g, id), (id, seq![p])),
    }
}

/// Pixels grouped by fixture, the count of pixels no fixture takes, the
/// warnings so far, and the node ids of the items read.
pub ghost struct GroupingView {
    pub fixtures: Seq<(u32, Seq<(int, int)>)>,
    pub orphans: nat,
    pub warnings: Seq<Seq<char>>,
    pub seen: Set<Seq<char>>,
}

/// The pixels `0..j` of item `i`, with node ids `ids`: a pixel whose node id
/// an earlier item had is passed over; one whose node has an id joins that
/// fixture; any other is an orphan.
pub open spec fn group_item_pixels(
    g: GroupingView,
    gmap: Map<Seq<char>, u32>,
    i: int,
    ids: Seq<Seq<char>>,
    j: int,
) -> GroupingView
    decreases j,
{
    if j <= 0 {
        g
    } else {
        let h = group_item_pixels(g, gmap, i, ids, j - 1);
        let n = ids[j - 1];
        if h.seen.contains(n) {
            h
        } else if gmap.contains_key(n) {
            GroupingView { fixtures: add_pixel(h.fixtures, gmap[n], (i, j - 1)), ..h }
        } else {
            GroupingView { orphans: h.orphans + 1, ..h }
        }
    }
}

/// The grouping after the first `k` items: each item warns of an unknown
/// non-empty shape type, then its pixels are grouped, then its node ids
/// count as seen.
pub open spec fn group_items(items: Seq<ItemView>, gmap: Map<Seq<char>, u32>, k: int) -> GroupingView
    decreases k,
{
    if k <= 0 {
        GroupingView { fixtures: Seq::empty(), orphans: 0, warnings: Seq::empty(), seen: Set::empty() }
    } else {
        let g = group_items(items, gmap, k - 1);
        let it = items[k - 1];
        let ids = item_node_ids(it);
        let g1 = if it.shape_type.len() > 0 && !known_shape(it.shape_type) {
            GroupingView { warnings: g.warnings.push(shape_warning(it)), ..g }
        } else {
            g
        };
        let g2 = group_item_pixels(g1, gmap, k - 1, ids, ids.len() as int);
        GroupingView { seen: g2.seen.union(ids.to_set()), ..g2 }
    }
}

/// The preview pixels by fixture: fixtures by increasing id, each with the
/// (item, pixel) positions of its pixels in document order; the orphan
/// count; and the warnings, ending with the orphan warning when there are
/// orphans.
pub ghost struct PixelGroupingView {
    pub fixtures: Seq<(u32, Seq<(int, int)>)>,
    pub orphans: nat,
    pub warnings: Seq<Seq<char>>,
}

/// The grouping of all the items.
pub open spec fn spec_group_pixels(items: Seq<ItemView>, gmap: Map<Seq<char>, u32>) -> PixelGroupingView {
    let g = group_items(items, gmap, items.len() as int);
    PixelGroupingView {
        fixtures: g.fixtures,
        orphans: g.orphans,
        warnings: if g.orphans > 0 {
            g.warnings.push(orphan_warning(g.orphans))
        } else {
            g.warnings
        },
    }
}

/// A fixture's preview pixels, as (display item, pixel) positions.
#[derive(Debug, Clone)]
pub struct FixturePixels {
    pub fixture_id: u32,
    pub pixels: Vec<(usize, usize)>,
}

/// The positions as integers.
pub open spec fn positions_view(p: Seq<(usize, usize)>) -> Seq<(int, int)> {
    p.map_values(|x: (usize, usize)| (x.0 as int, x.1 as int))
}

/// Fixtures by their ids and positions.
pub open spec fn fixture_pixels_view(f: Seq<FixturePixels>) -> Seq<(u32, Seq<(int, int)>)> {
    f.map_values(|x: FixturePixels| (x.fixture_id, positions_view(x.pixels@)))
}

/// The preview pixels grouped by fixture (see `spec_group_pixels`).
#[derive(Debug, Clone)]
pub struct PixelGrouping {
    pub fixtures: Vec<FixturePixels>,
    pub orphans: usize,
    pub warnings: Vec<String>,
}

impl View for PixelGrouping {
    type V = PixelGroupingView;

    open spec fn view(&self) -> PixelGroupingView {
        PixelGroupingView {
            fixtures: fixture_pixels_view(self.fixtures@),
            orphans: self.orphans as nat,
            warnings: views(self.warnings@),
        }
    }
}

fn add_pixel_exec(g: &mut Vec<FixturePixels>, id: u32, p: (usize, usize))
    ensures
        fixture_pixels_view(final(g)@) == add_pixel(fixture_pixels_view(old(g)@), id, (p.0 as int, p.1 as int)),
{
    let ghost gv = fixture_pixels_view(g@);
    let ghost pv = (p.0 as int, p.1 as int);
    let mut k: usize = 0;
    assert(gv.skip(0) =~= gv);
    while k < g.len() && g[k].fixture_id != id
        invariant
            k <= g@.len(),
            gv == fixture_pixels_view(g@),
            g@ == old(g)@,
            group_index(gv, id) == match group_index(gv.skip(k as int), id) {
                Some(x) => Some(x + k),
                None => None,
            },
        decreases g@.len() - k,
    {
        assert(gv.skip(k as int).drop_first() =~= gv.skip(k + 1));
        assert(gv.skip(k as int)[0] == gv[k as int]);
        k += 1;
    }
    if k < g.len() {
        assert(gv.skip(k as int)[0] == gv[k as int]);
        let mut fp = FixturePixels { fixture_id: 0, pixels: Vec::new() };
        std::mem::swap(&mut fp, &mut g[k]);
        let ghost before = positions_view(fp.pixels@);
        fp.pixels.push(p);
        assert(positions_view(fp.pixels@) =~= before.push(pv));
        g.set(k, fp);
        assert(fixture_pixels_view(g@) =~= gv.update(k as int, (id, gv[k as int].1.push(pv))));
    } else {
        assert(gv.skip(k as int) =~= Seq::<(u32, Seq<(int, int)>)>::empty());
        let mut s: usize = 0;
        assert(gv.skip(0) =~= gv);
        while s < g.len() && g[s].fixture_id < id
            invariant
                s <= g@.len(),
                gv == fixture_pixels_view(g@),
                g@ == old(g)@,
                group_slot(gv, id) == s + group_slot(gv.skip(s as int), id),
            decreases g@.len() - s,
        {
            assert(gv.skip(s as int).drop_first() =~= gv.skip(s + 1));
            assert(gv.skip(s as int)[0] == gv[s as int]);
            s += 1;
        }
        if s < g.len() {
            assert(gv.skip(s as int)[0] == gv[s as int]);
        }
        let mut pixels: Vec<(usize, usize)> = Vec::new();
        pixels.push(p);
        assert(positions_view(pixels@) =~= seq![pv]);
        g.insert(s, FixturePixels { fixture_id: id, pixels });
        assert(fixture_pixels_view(g@) =~= gv.insert(s as int, (id, seq![pv])));
    }
}

/// The number of pixels of the items.
pub open spec fn pixel_total(items: Seq<ItemView>) -> int
    decreases items.len(),
{
    if items.len() == 0 {
        0
    } else {
        pixel_total(items.drop_last()) + item_node_ids(items.last()).len()
    }
}

fn item_len(it: &ItemText) -> (r: usize)
    ensures
        r == item_node_ids(it@).len(),
{
    match &it.pixels {
        ItemPixels::Placed(p) => p.len(),
        ItemPixels::Along(n, _) => n.len(),
    }
}

fn item_node(it: &ItemText, j: usize) -> (r: &String)
    requires
        j < item_node_ids(it@).len(),
    ensures
        r@ == item_node_ids(it@)[j as int],
{
    match &it.pixels {
        ItemPixels::Placed(p) => &p[j].node_id,
        ItemPixels::Along(n, _) => &n[j],
    }
}

fn is_known_shape(t: &str) -> (r: bool)
    ensures
        r == known_shape(t@),
{
    str_eq(t, "PreviewLine") || str_eq(t, "PreviewArch") || str_eq(t, "PreviewNet") || str_eq(t, "PreviewPixelGrid")
        || str_eq(t, "PreviewRectangle") || str_eq(t, "PreviewMegaTree") || str_eq(t, "PreviewStar") || str_eq(
        t,
        "PreviewCustomProp",
    ) || str_eq(t, "PreviewEllipse") || str_eq(t, "PreviewPolyLine") || str_eq(t, "PreviewMultiString") || str_eq(
        t,
        "PreviewTriangle",
    )
}

proof fn lemma_pixel_total_mono(items: Seq<ItemView>, k: int)
    requires
        0 <= k <= items.len(),
    ensures
        pixel_total(items.take(k)) <= pixel_total(items),
        k < items.len() ==> pixel_total(items.take(k)) + item_node_ids(items[k]).len() <= pixel_total(items),
    decreases items.len() - k,
{
    if k < items.len() {
        lemma_pixel_total_mono(items, k + 1);
        assert(items.take(k + 1).drop_last() =~= items.take(k));
        assert(items.take(k + 1).last() == items[k]);
    } else {
        assert(items.take(k) =~= items);
    }
}

proof fn lemma_group_items_take(items: Seq<ItemView>, gmap: Map<Seq<char>, u32>, k: int)
    requires
        0 <= k <= items.len(),
    ensures
        group_items(items, gmap, k) == group_items(items.take(k), gmap, k),
    decreases k,
{
    if k > 0 {
        lemma_group_items_take(items, gmap, k - 1);
        lemma_group_items_prefix(items, items.take(k), gmap, k);
    }
}

proof fn lemma_group_items_prefix(a: Seq<ItemView>, b: Seq<ItemView>, gmap: Map<Seq<char>, u32>, k: int)
    requires
        0 <= k <= a.len(),
        k <= b.len(),
        forall|i: int| 0 <= i < k ==> a[i] == b[i],
    ensures
        group_items(a, gmap, k) == group_items(b, gmap, k),
    decreases k,
{
    if k > 0 {
        lemma_group_items_prefix(a, b, gmap, k - 1);
    }
}

proof fn lemma_group_pixels_orphans(g: GroupingView, gmap: Map<Seq<char>, u32>, i: int, ids: Seq<Seq<char>>, j: int)
    requires
        0 <= j,
    ensures
        group_item_pixels(g, gmap, i, ids, j).orphans <= g.orphans + j,
        group_item_pixels(g, gmap, i, ids, j).seen == g.seen,
        group_item_pixels(g, gmap, i, ids, j).warnings == g.warnings,
    decreases j,
{
    if j > 0 {
        lemma_group_pixels_orphans(g, gmap, i, ids, j - 1);
    }
}

proof fn lemma_group_items_orphans(items: Seq<ItemView>, gmap: Map<Seq<char>, u32>, k: int)
    requires
        0 <= k <= items.len(),
    ensures
        group_items(items, gmap, k).orphans <= pixel_total(items.take(k)),
    decreases k,
{
    if k > 0 {
        lemma_group_items_orphans(items, gmap, k - 1);
        let g = group_items(items, gmap, k - 1);
        let it = items[k - 1];
        let ids = item_node_ids(it);
        let g1 = if it.shape_type.len() > 0 && !known_shape(it.shape_type) {
            GroupingView { warnings: g.warnings.push(shape_warning(it)), ..g }
        } else {
            g
        };
        lemma_group_pixels_orphans(g1, gmap, k - 1, ids, ids.len() as int);
        assert(items.take(k).drop_last() =~= items.take(k - 1));
        assert(items.take(k).last() == it);
    }
}

impl VixenImporter {
    /// Groups the pixels of the preview's display items by the fixture their
    /// node id maps to (see `spec_group_pixels`): a node id already met in
    /// an earlier item is passed over, a node id without a fixture is an
    /// orphan, and an unknown shape type is warned of.
    pub fn group_layout_pixels(&self, items: &[ItemText]) -> (r: PixelGrouping)
        requires
            pixel_total(views(items@)) < usize::MAX,
        ensures
            r@ == spec_group_pixels(views(items@), self.state().guid_map),
    {
        proof {
            use_type_invariant(&*self);
            reveal_strlit("Unsupported preview shape type '");
            reveal_strlit("' for '");
            reveal_strlit("' — imported as Custom");
            reveal_strlit(" preview pixels could not be mapped to imported fixtures (orphan node IDs)");
        }
        let ghost iv = views(items@);
        let ghost gmap = self.state().guid_map;
        let mut fixtures: Vec<FixturePixels> = Vec::new();
        let mut orphans: usize = 0;
        let mut warnings: Vec<String> = Vec::new();
        let mut seen: StringHashMap<bool> = StringHashMap::new();
        assert(fixture_pixels_view(fixtures@) =~= Seq::<(u32, Seq<(int, int)>)>::empty());
        assert(views(warnings@) =~= Seq::<Seq<char>>::empty());
        assert(seen@.dom() =~= Set::<Seq<char>>::empty());
        let mut i: usize = 0;
        while i < items.len()
            invariant
                i <= items@.len(),
                iv == views(items@),
                gmap == self.state().guid_map,
                keys_distinct(self.guid_to_id@),
                pairs_map(self.guid_to_id@) == gmap,
                pixel_total(iv) < usize::MAX,
                ({
                    let g = group_items(iv, gmap, i as int);
                    &&& fixture_pixels_view(fixtures@) == g.fixtures
                    &&& orphans as nat == g.orphans
                    &&& views(warnings@) == g.warnings
                    &&& seen@.dom() == g.seen
                }),
            decreases items@.len() - i,
        {
            let it = &items[i];
            let ghost itv = iv[i as int];
            assert(itv == it@);
            let ghost ids = item_node_ids(itv);
            proof {
                lemma_group_items_orphans(iv, gmap, i as int);
                lemma_pixel_total_mono(iv, i as int);
            }
            if it.shape_type.unicode_len() > 0 && !is_known_shape(it.shape_type.as_str()) {
                let mut w = String::from_str("Unsupported preview shape type '");
                w.append(it.shape_type.as_str());
                w.append("' for '");
                w.append(it.name.as_str());
                w.append("' — imported as Custom");
                push_viewed(&mut warnings, w);
            }
            let ghost g1 = GroupingView {
                fixtures: fixture_pixels_view(fixtures@),
                orphans: orphans as nat,
                warnings: views(warnings@),
                seen: seen@.dom(),
            };
            let ghost orphans0 = orphans as int;
            let n = item_len(it);
            let mut j: usize = 0;
            while j < n
                invariant
                    j <= n,
                    n == ids.len(),
                    ids == item_node_ids(it@),
                    gmap == self.state().guid_map,
                    keys_distinct(self.guid_to_id@),
                    pairs_map(self.guid_to_id@) == gmap,
                    orphans0 + ids.len() < usize::MAX,
                    ({
                        let h = group_item_pixels(g1, gmap, i as int, ids, j as int);
                        &&& fixture_pixels_view(fixtures@) == h.fixtures
                        &&& orphans as nat == h.orphans
                        &&& views(warnings@) == h.warnings
                        &&& seen@.dom() == h.seen
                    }),
                    g1.orphans == orphans0,
                decreases n - j,
            {
                proof {
                    lemma_group_pixels_orphans(g1, gmap, i as int, ids, j as int);
                }
                let node = item_node(it, j);
                if seen.contains_key(node.as_str()) {
                } else {
                    match find_id(&self.guid_to_id, node.as_str()) {
                        Some(x) => {
                            let id = self.guid_to_id[x].1;
                            add_pixel_exec(&mut fixtures, id, (i, j));
                        },
                        None => {
                            orphans = orphans + 1;
                        },
                    }
                }
                j += 1;
            }
            let mut j2: usize = 0;
            let ghost before = seen@.dom();
            while j2 < n
                invariant
                    j2 <= n,
                    n == ids.len(),
                    ids == item_node_ids(it@),
                    seen@.dom() == before.union(ids.take(j2 as int).to_set()),
                decreases n - j2,
            {
                let node = item_node(it, j2);
                seen.insert(node.clone(), true);
                proof {
                    let t0 = ids.take(j2 as int);
                    let t1 = ids.take(j2 + 1);
                    assert forall|x: Seq<char>| #[trigger] t1.to_set().contains(x) == t0.to_set().insert(ids[j2 as int]).contains(x) by {
                        if t1.contains(x) {
                            let k = choose|k: int| 0 <= k < t1.len() && t1[k] == x;
                            if k < j2 {
                                assert(t0[k] == x);
                            }
                        }
                        if t0.contains(x) {
                            let k = choose|k: int| 0 <= k < t0.len() && t0[k] == x;
                            assert(t1[k] == x);
                        }
                        if x == ids[j2 as int] {
                            assert(t1[j2 as int] == x);
                        }
                    }
                    assert(t1.to_set() =~= t0.to_set().insert(ids[j2 as int]));
                }
                assert(seen@.dom() =~= before.union(ids.take(j2 + 1).to_set()));
                j2 += 1;
            }
            assert(ids.take(n as int) =~= ids);
            i += 1;
        }
        if orphans > 0 {
            let mut w = String::new();
            push_decimal(&mut w, orphans as u64);
            w.append(" preview pixels could not be mapped to imported fixtures (orphan node IDs)");
            push_viewed(&mut warnings, w);
        }
        PixelGrouping { fixtures, orphans, warnings }
    }
}


// ── Reading a whole system configuration ────────────────────────────

/// The node-section reading after the events `evs`, one after the other,
/// from `s`.
pub open spec fn nodes_after(s: NodeScanView, evs: Seq<XmlEvent>) -> NodeScanView
    decreases evs.len(),
{
    if evs.len() == 0 {
        s
    } else {
        node_scan_step(nodes_after(s, evs.drop_last()), evs.last())
    }
}

/// The controller-section reading after the events `evs`, with the
/// controllers made: `None` once a controller element is about to be read
/// with no 32-bit ids left for the controllers it can make.
pub open spec fn controllers_after(
    s: ControllerScanView,
    cs: Seq<ControllerView>,
    evs: Seq<XmlEvent>,
) -> Option<(ControllerScanView, Seq<ControllerView>)>
    decreases evs.len(),
{
    if evs.len() == 0 {
        Some((s, cs))
    } else {
        match controllers_after(s, cs, evs.drop_last()) {
            None => None,
            Some(p) => if p.0.counter + p.0.outputs.len() < u32::MAX {
                Some(controller_scan_step(p.0, p.1, evs.last()))
            } else {
                None
            },
        }
    }
}

/// The node reading of a whole configuration, started outside the node
/// section with the nodes `nodes` already held.
pub open spec fn config_nodes(nodes: Seq<NodeView>, evs: Seq<XmlEvent>) -> Seq<NodeView> {
    nodes_after(NodeScanView { in_section: false, stack: Seq::empty(), nodes: nodes }, evs).nodes
}

/// The controller reading of a whole configuration, started outside the
/// controller section with ids from 0, after the controllers `cs`.
pub open spec fn config_controllers(
    cs: Seq<ControllerView>,
    evs: Seq<XmlEvent>,
) -> Option<(ControllerScanView, Seq<ControllerView>)> {
    controllers_after(
        ControllerScanView { in_section: false, name: Seq::empty(), outputs: Seq::empty(), counter: 0 },
        cs,
        evs,
    )
}

proof fn lemma_controllers_after_none(
    s: ControllerScanView,
    cs: Seq<ControllerView>,
    evs: Seq<XmlEvent>,
    k: int,
)
    requires
        0 <= k <= evs.len(),
        controllers_after(s, cs, evs.take(k)) is None,
    ensures
        controllers_after(s, cs, evs) is None,
    decreases evs.len() - k,
{
    if k < evs.len() {
        assert(evs.take(k + 1).drop_last() =~= evs.take(k));
        lemma_controllers_after_none(s, cs, evs, k + 1);
    } else {
        assert(evs.take(k) =~= evs);
    }
}

impl VixenImporter {
    /// Reads a whole system configuration given as its XML events: the node
    /// tree in a first pass, the controllers in a second, then the fixtures
    /// and groups built from the tree.
    ///
    /// Returns `false`, with the reading left unfinished, exactly when the
    /// 32-bit ids run out: for the controllers of an element, or for the
    /// nodes to be built.
    pub fn read_system_config(&mut self, events: &[XmlEvent]) -> (r: bool)
        ensures
            r == (config_controllers(old(self).controller_list(), events@) is Some
                && old(self).state().next_id + config_nodes(old(self).nodes(), events@).len() <= u32::MAX),
            r ==> final(self).nodes() == config_nodes(old(self).nodes(), events@),
            r ==> final(self).controller_list() == (config_controllers(old(self).controller_list(), events@)->0).1,
            r ==> final(self).state() == build_all(
                final(self).nodes(),
                old(self).state(),
                root_guids(final(self).nodes()),
                0,
            ),
            final(self).patch_list() == old(self).patch_list(),
            final(self).warning_list() == old(self).warning_list(),
    {
        let ghost n0 = NodeScanView { in_section: false, stack: Seq::empty(), nodes: self.nodes() };
        let mut scan = NodeScan::new();
        let mut i: usize = 0;
        while i < events.len()
            invariant
                i <= events@.len(),
                (NodeScanView { in_section: scan.in_section(), stack: scan.open_nodes(), nodes: self.nodes() })
                    == nodes_after(n0, events@.take(i as int)),
                n0.nodes == old(self).nodes(),
                n0.in_section == false,
                n0.stack == Seq::<NodeView>::empty(),
                self.state() == old(self).state(),
                self.controller_list() == old(self).controller_list(),
                self.patch_list() == old(self).patch_list(),
                self.warning_list() == old(self).warning_list(),
            decreases events@.len() - i,
        {
            self.scan_node_event(&mut scan, &events[i]);
            assert(events@.take(i + 1).drop_last() =~= events@.take(i as int));
            i += 1;
        }
        assert(events@.take(i as int) =~= events@);
        let ghost c0 = ControllerScanView {
            in_section: false,
            name: Seq::empty(),
            outputs: Seq::empty(),
            counter: 0,
        };
        let ghost cs0 = old(self).controller_list();
        let mut cscan = ControllerScan::new();
        let mut j: usize = 0;
        while j < events.len()
            invariant
                j <= events@.len(),
                controllers_after(c0, cs0, events@.take(j as int)) == Some((cscan@, self.controller_list())),
                c0 == (ControllerScanView {
                    in_section: false,
                    name: Seq::empty(),
                    outputs: Seq::empty(),
                    counter: 0,
                }),
                cs0 == old(self).controller_list(),
                self.nodes() == config_nodes(old(self).nodes(), events@),
                self.state() == old(self).state(),
                self.patch_list() == old(self).patch_list(),
                self.warning_list() == old(self).warning_list(),
            decreases events@.len() - j,
        {
            assert(events@.take(j + 1).drop_last() =~= events@.take(j as int));
            if !cscan.has_room() {
                proof {
                    lemma_controllers_after_none(c0, cs0, events@, j + 1);
                }
                return false;
            }
            self.scan_controller_event(&mut cscan, &events[j]);
            j += 1;
        }
        assert(events@.take(j as int) =~= events@);
        if !self.has_room_for_nodes() {
            return false;
        }
        self.build_fixtures_and_groups();
        true
    }
}

// ── Laws of the controller section ──────────────────────────────────

/// The names Vixen gives an output's address.
pub open spec fn is_address_key(k: Seq<char>) -> bool {
    k == "ip"@ || k == "IP"@ || k == "address"@ || k == "Address"@ || k == "UnicastAddress"@
}

/// An output's address may be given under any of the names Vixen uses for
/// it, `UnicastAddress` among them: the last address given is the output's
/// address, whatever attributes came before it.
pub proof fn lemma_address_keys(a: Seq<(Seq<char>, Seq<char>)>, k: Seq<char>, v: Seq<char>)
    requires
        is_address_key(k),
    ensures
        ip_attr(a.push((k, v))) == Some(v),
{
    assert(a.push((k, v)).drop_last() =~= a);
}

/// Inside the controller section, an output tag whose attributes give an
/// address under any of its names, then a universe that reads as a number,
/// adds that (address, universe) output to the controller being read.
pub proof fn lemma_output_read(
    s: ControllerScanView,
    cs: Seq<ControllerView>,
    t: XmlTag,
    k: Seq<char>,
    v: Seq<char>,
    u: Seq<char>,
)
    requires
        s.in_section,
        is_address_key(k),
        attrs_view(t.attributes@) == seq![(k, v), ("universe"@, u)],
        parse_u16_spec(u) is Some,
    ensures
        controller_scan_step(s, cs, XmlEvent::Start(t)).0.outputs == s.outputs.push(
            (v, parse_u16_spec(u)->0),
        ),
        controller_scan_step(s, cs, XmlEvent::Start(t)).1 == cs,
{
    reveal_strlit("ip");
    reveal_strlit("IP");
    reveal_strlit("address");
    reveal_strlit("Address");
    reveal_strlit("UnicastAddress");
    reveal_strlit("universe");
    reveal_strlit("Universe");
    assert("ip"@.len() == 2);
    assert("IP"@.len() == 2);
    assert("address"@.len() == 7);
    assert("Address"@.len() == 7);
    assert("UnicastAddress"@.len() == 14);
    assert("universe"@.len() == 8);
    assert("Universe"@.len() == 8);
    assert("Address"@[0] == 'A');
    assert("IP"@[0] == 'I');
    assert("UnicastAddress"@[0] == 'U');
    assert("Universe"@[0] == 'U');
    assert("address"@[0] == 'a');
    assert("ip"@[0] == 'i');
    assert("universe"@[0] == 'u');
    let a = attrs_view(t.attributes@);
    assert(a.drop_last() =~= seq![(k, v)]);
    assert(seq![(k, v)].drop_last() =~= Seq::<(Seq<char>, Seq<char>)>::empty());
    assert(!is_address_key("universe"@));
    assert(ip_attr(seq![(k, v)]) == Some(v));
    assert(ip_attr(a) == Some(v));
    assert(universe_attr(a) == parse_u16_spec(u));
}

/// A controller's name may be given as `name` or `Name`, and an output's
/// universe as `universe` or `Universe`: the last one given counts,
/// whatever attributes came before it; the universe is the number its text
/// reads as, if any.
pub proof fn lemma_name_and_universe_keys(a: Seq<(Seq<char>, Seq<char>)>, k: Seq<char>, v: Seq<char>)
    ensures
        (k == "name"@ || k == "Name"@) ==> name_attr(a.push((k, v))) == Some(v),
        (k == "universe"@ || k == "Universe"@) ==> universe_attr(a.push((k, v))) == parse_u16_spec(v),
        name_attr(Seq::empty()) is None,
        universe_attr(Seq::empty()) is None,
        ip_attr(Seq::empty()) is None,
{
    assert(a.push((k, v)).drop_last() =~= a);
}

} // verus!
