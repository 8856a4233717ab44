//! The Vixen preview: locating its data file and reading it.
//!
//! Vixen 3 keeps its preview data in `SystemData/ModuleStore.xml`; older
//! setups keep it in a standalone file under `Module Data Files/`. The search
//! is a short series of questions about the file system: the application
//! answers each, and the search decides what to ask next.
//!
//! Reading the preview turns the document's XML events into the canvas size
//! and the display items of the section with the most items. Coordinates
//! are kept as the texts they come from; turning them into numbers and
//! spreading pixels along shapes is floating-point work for the caller.

use vstd::prelude::*;

use vstd::string::*;

use crate::importer::{
    all_digits, contains_chars, contains_str, digits_value, events_view, is_digit, lemma_digits_nonneg,
    unsigned_digits, XmlEvent, XmlEventView, XmlTag,
};
use crate::paths::{join_path, joined2, path_joined};
use crate::profile::{decimal, push_decimal};
use crate::text::str_eq;
use crate::vixen::{spec_strip_ns, strip_ns};
use quick_xml::events::BytesStart;
use quick_xml::events::Event::{Empty, End, Eof, Start, Text};
use quick_xml::Reader;

verus! {

/// What the search asks the application, or its result.
#[derive(Debug, Clone)]
pub enum PreviewProbe {
    /// Is this a readable file that holds the preview marker?
    MarkedFile(String),
    /// Does this path exist?
    Exists(String),
    /// Is this path a directory?
    IsDir(String),
    /// Scan this directory recursively: which file below it holds the
    /// preview marker, if any?
    Scan(String),
    /// The search is over.
    Done(Option<String>),
}

/// The application's answer to a probe: yes or no to a question, or the
/// outcome of a scan.
#[derive(Debug, Clone)]
pub enum ProbeAnswer {
    Yes,
    No,
    Found(String),
    NotFound,
}

/// The contents of a `PreviewProbe`.
pub ghost enum ProbeView {
    MarkedFile(Seq<char>),
    Exists(Seq<char>),
    IsDir(Seq<char>),
    Scan(Seq<char>),
    Done(Option<Seq<char>>),
}

/// The contents of a `ProbeAnswer`.
pub ghost enum AnswerView {
    Yes,
    No,
    Found(Seq<char>),
    NotFound,
}

impl View for PreviewProbe {
    type V = ProbeView;

    open spec fn view(&self) -> ProbeView {
        match self {
            PreviewProbe::MarkedFile(p) => ProbeView::MarkedFile(p@),
            PreviewProbe::Exists(p) => ProbeView::Exists(p@),
            PreviewProbe::IsDir(p) => ProbeView::IsDir(p@),
            PreviewProbe::Scan(p) => ProbeView::Scan(p@),
            PreviewProbe::Done(r) => ProbeView::Done(
                match r {
                    Some(p) => Some(p@),
                    None => None,
                },
            ),
        }
    }
}

impl View for ProbeAnswer {
    type V = AnswerView;

    open spec fn view(&self) -> AnswerView {
        match self {
            ProbeAnswer::Yes => AnswerView::Yes,
            ProbeAnswer::No => AnswerView::No,
            ProbeAnswer::Found(p) => AnswerView::Found(p@),
            ProbeAnswer::NotFound => AnswerView::NotFound,
        }
    }
}

/// Where the search stands: the stage (0 to 8 while asking, 9 when done),
/// the paths it asks about, and its result once done.
pub ghost struct SearchView {
    pub stage: int,
    pub module_store: Seq<char>,
    pub module_dir: Seq<char>,
    pub data_file: Seq<char>,
    pub preview_dir: Seq<char>,
    pub result: Option<Seq<char>>,
}

/// The probe a search issues at its stage: first the module store; then,
/// if the module data directory exists, each of its two known candidates
/// (as a marked file, else as a directory to scan); then a scan of the whole
/// module data directory.
pub open spec fn probe_of(s: SearchView) -> ProbeView {
    if s.stage == 0 {
        ProbeView::MarkedFile(s.module_store)
    } else if s.stage == 1 {
        ProbeView::Exists(s.module_dir)
    } else if s.stage == 2 {
        ProbeView::MarkedFile(s.data_file)
    } else if s.stage == 3 {
        ProbeView::IsDir(s.data_file)
    } else if s.stage == 4 {
        ProbeView::Scan(s.data_file)
    } else if s.stage == 5 {
        ProbeView::MarkedFile(s.preview_dir)
    } else if s.stage == 6 {
        ProbeView::IsDir(s.preview_dir)
    } else if s.stage == 7 {
        ProbeView::Scan(s.preview_dir)
    } else if s.stage == 8 {
        ProbeView::Scan(s.module_dir)
    } else {
        ProbeView::Done(s.result)
    }
}

/// The stages whose probe is a scan.
pub open spec fn is_scan_stage(stage: int) -> bool {
    stage == 4 || stage == 7 || stage == 8
}

/// The answer has the kind the stage's probe calls for.
pub open spec fn answer_fits(stage: int, a: AnswerView) -> bool {
    if is_scan_stage(stage) {
        a is Found || a is NotFound
    } else {
        a is Yes || a is No
    }
}

/// The search finished with `r`.
pub open spec fn finished(s: SearchView, r: Option<Seq<char>>) -> SearchView {
    SearchView { stage: 9, result: r, ..s }
}

/// The search moved on to `stage`.
pub open spec fn moved(s: SearchView, stage: int) -> SearchView {
    SearchView { stage, ..s }
}

/// The search after an answer.
pub open spec fn search_step(s: SearchView, a: AnswerView) -> SearchView {
    let yes = a is Yes;
    if s.stage == 0 {
        if yes {
            finished(s, Some(s.module_store))
        } else {
            moved(s, 1)
        }
    } else if s.stage == 1 {
        if yes {
            moved(s, 2)
        } else {
            finished(s, None)
        }
    } else if s.stage == 2 {
        if yes {
            finished(s, Some(s.data_file))
        } else {
            moved(s, 3)
        }
    } else if s.stage == 3 {
        if yes {
            moved(s, 4)
        } else {
            moved(s, 5)
        }
    } else if s.stage == 4 {
        match a {
            AnswerView::Found(p) => finished(s, Some(p)),
            _ => moved(s, 5),
        }
    } else if s.stage == 5 {
        if yes {
            finished(s, Some(s.preview_dir))
        } else {
            moved(s, 6)
        }
    } else if s.stage == 6 {
        if yes {
            moved(s, 7)
        } else {
            moved(s, 8)
        }
    } else if s.stage == 7 {
        match a {
            AnswerView::Found(p) => finished(s, Some(p)),
            _ => moved(s, 8),
        }
    } else if s.stage == 8 {
        match a {
            AnswerView::Found(p) => finished(s, Some(p)),
            _ => finished(s, None),
        }
    } else {
        s
    }
}

/// The search for the preview data file of a Vixen data directory.
#[derive(Debug)]
pub struct PreviewSearch {
    stage: u8,
    module_store: String,
    module_dir: String,
    data_file: String,
    preview_dir: String,
    result: Option<String>,
}

impl View for PreviewSearch {
    type V = SearchView;

    closed spec fn view(&self) -> SearchView {
        SearchView {
            stage: self.stage as int,
            module_store: self.module_store@,
            module_dir: self.module_dir@,
            data_file: self.data_file@,
            preview_dir: self.preview_dir@,
            result: match self.result {
                Some(p) => Some(p@),
                None => None,
            },
        }
    }
}

impl PreviewSearch {
    /// A search of `vixen_dir`, about to ask about
    /// `SystemData/ModuleStore.xml`.
    pub fn start(vixen_dir: &str) -> (s: Self)
        ensures
            s@.stage == 0,
            s@.result is None,
            joined2(vixen_dir@, "SystemData"@, "ModuleStore.xml"@, s@.module_store),
            path_joined(vixen_dir@, "Module Data Files"@, s@.module_dir),
            path_joined(s@.module_dir, "VixenPreviewData.xml"@, s@.data_file),
            path_joined(s@.module_dir, "VixenPreview"@, s@.preview_dir),
    {
        let system = join_path(vixen_dir, "SystemData");
        let module_store = join_path(system.as_str(), "ModuleStore.xml");
        let module_dir = join_path(vixen_dir, "Module Data Files");
        let data_file = join_path(module_dir.as_str(), "VixenPreviewData.xml");
        let preview_dir = join_path(module_dir.as_str(), "VixenPreview");
        PreviewSearch { stage: 0, module_store, module_dir, data_file, preview_dir, result: None }
    }

    /// What the search asks next, or its result once done.
    pub fn probe(&self) -> (p: PreviewProbe)
        requires
            self@.stage <= 9,
        ensures
            p@ == probe_of(self@),
    {
        match self.stage {
            0 => PreviewProbe::MarkedFile(self.module_store.clone()),
            1 => PreviewProbe::Exists(self.module_dir.clone()),
            2 => PreviewProbe::MarkedFile(self.data_file.clone()),
            3 => PreviewProbe::IsDir(self.data_file.clone()),
            4 => PreviewProbe::Scan(self.data_file.clone()),
            5 => PreviewProbe::MarkedFile(self.preview_dir.clone()),
            6 => PreviewProbe::IsDir(self.preview_dir.clone()),
            7 => PreviewProbe::Scan(self.preview_dir.clone()),
            8 => PreviewProbe::Scan(self.module_dir.clone()),
            _ => PreviewProbe::Done(
                match &self.result {
                    Some(p) => Some(p.clone()),
                    None => None,
                },
            ),
        }
    }

    /// Whether the current probe is a scan.
    pub fn expects_scan(&self) -> (r: bool)
        ensures
            r == is_scan_stage(self@.stage),
    {
        self.stage == 4 || self.stage == 7 || self.stage == 8
    }

    /// Takes the answer to the current probe.
    pub fn answer(&mut self, a: ProbeAnswer)
        requires
            old(self)@.stage <= 9,
            answer_fits(old(self)@.stage, a@),
        ensures
            final(self)@ == search_step(old(self)@, a@),
            final(self)@.stage <= 9,
    {
        let yes = match a {
            ProbeAnswer::Yes => true,
            _ => false,
        };
        match self.stage {
            0 => {
                if yes {
                    self.result = Some(self.module_store.clone());
                    self.stage = 9;
                } else {
                    self.stage = 1;
                }
            },
            1 => {
                if yes {
                    self.stage = 2;
                } else {
                    self.result = None;
                    self.stage = 9;
                }
            },
            2 => {
                if yes {
                    self.result = Some(self.data_file.clone());
                    self.stage = 9;
                } else {
                    self.stage = 3;
                }
            },
            3 => {
                self.stage = if yes {
                    4
                } else {
                    5
                };
            },
            4 => match a {
                ProbeAnswer::Found(p) => {
                    self.result = Some(p);
                    self.stage = 9;
                },
                _ => {
                    self.stage = 5;
                },
            },
            5 => {
                if yes {
                    self.result = Some(self.preview_dir.clone());
                    self.stage = 9;
                } else {
                    self.stage = 6;
                }
            },
            6 => {
                self.stage = if yes {
                    7
                } else {
                    8
                };
            },
            7 => match a {
                ProbeAnswer::Found(p) => {
                    self.result = Some(p);
                    self.stage = 9;
                },
                _ => {
                    self.stage = 8;
                },
            },
            8 => {
                match a {
                    ProbeAnswer::Found(p) => {
                        self.result = Some(p);
                    },
                    _ => {
                        self.result = None;
                    },
                }
                self.stage = 9;
            },
            _ => {},
        }
    }
}

/// Each answer moves an unfinished search forward, so a search ends after
/// at most nine answers.
pub proof fn lemma_search_progresses(s: SearchView, a: AnswerView)
    requires
        0 <= s.stage < 9,
    ensures
        search_step(s, a).stage > s.stage,
        search_step(s, a).stage <= 9,
{
}

/// A finished search stays finished, with its result.
pub proof fn lemma_search_done_stays(s: SearchView, a: AnswerView)
    requires
        s.stage == 9,
    ensures
        search_step(s, a) == s,
        probe_of(s) == ProbeView::Done(s.result),
{
}

/// Whether a piece of text holds a preview marker: a `DisplayItem` or a
/// `VixenPreviewData` tag name.
pub fn has_preview_marker(text: &str) -> (r: bool)
    ensures
        r == (contains_chars(text@, "DisplayItem"@) || contains_chars(text@, "VixenPreviewData"@)),
{
    contains_str(text, "DisplayItem") || contains_str(text, "VixenPreviewData")
}

// ── Preview data ────────────────────────────────────────────────────

/// The contents of a sequence by their views.
pub open spec fn views<T: View>(s: Seq<T>) -> Seq<T::V> {
    s.map_values(|x: T| x@)
}

/// Appends to a vector, keeping track of the views.
pub(crate) fn push_viewed<T: View>(v: &mut Vec<T>, x: T)
    ensures
        views(final(v)@) == views(old(v)@).push(x@),
        final(v)@.len() == old(v)@.len() + 1,
{
    let ghost before = views(v@);
    let ghost xv = x@;
    v.push(x);
    assert(views(v@) =~= before.push(xv));
}

/// Empties a vector and hands its elements back.
pub(crate) fn take_vec<T>(v: &mut Vec<T>) -> (r: Vec<T>)
    ensures
        r@ == old(v)@,
        final(v)@ == Seq::<T>::empty(),
{
    let mut r = Vec::new();
    std::mem::swap(&mut r, v);
    r
}

/// One source of a coordinate, in document order: an attribute, whose text
/// sets the coordinate (to zero when it is no number), or the text content
/// of an `X`/`Y` element, whose text sets it when it is a number and leaves
/// it as it was otherwise. A coordinate starts at zero.
#[derive(Debug, Clone, PartialEq, Eq)]
pub enum CoordStep {
    Attr(String),
    Text(String),
}

/// The contents of a `CoordStep`.
pub ghost enum CoordStepView {
    Attr(Seq<char>),
    Text(Seq<char>),
}

impl View for CoordStep {
    type V = CoordStepView;

    open spec fn view(&self) -> CoordStepView {
        match self {
            CoordStep::Attr(t) => CoordStepView::Attr(t@),
            CoordStep::Text(t) => CoordStepView::Text(t@),
        }
    }
}

/// A pixel that carries its own position.
#[derive(Debug, Clone)]
pub struct PlacedPixel {
    pub node_id: String,
    pub x: Vec<CoordStep>,
    pub y: Vec<CoordStep>,
}

/// The contents of a `PlacedPixel`.
pub ghost struct PlacedView {
    pub node_id: Seq<char>,
    pub x: Seq<CoordStepView>,
    pub y: Seq<CoordStepView>,
}

impl View for PlacedPixel {
    type V = PlacedView;

    open spec fn view(&self) -> PlacedView {
        PlacedView { node_id: self.node_id@, x: views(self.x@), y: views(self.y@) }
    }
}

/// A control point of a shape.
#[derive(Debug, Clone)]
pub struct PointText {
    pub x: Vec<CoordStep>,
    pub y: Vec<CoordStep>,
}

/// The contents of a `PointText`.
pub ghost struct PointView {
    pub x: Seq<CoordStepView>,
    pub y: Seq<CoordStepView>,
}

impl View for PointText {
    type V = PointView;

    open spec fn view(&self) -> PointView {
        PointView { x: views(self.x@), y: views(self.y@) }
    }
}

/// The pixels of a display item: either each with its own position, or
/// node ids to be spread evenly along the polyline of the control points,
/// one pixel per node id.
#[derive(Debug, Clone)]
pub enum ItemPixels {
    Placed(Vec<PlacedPixel>),
    Along(Vec<String>, Vec<PointText>),
}

/// The contents of an `ItemPixels`.
pub ghost enum ItemPixelsView {
    Placed(Seq<PlacedView>),
    Along(Seq<Seq<char>>, Seq<PointView>),
}

impl View for ItemPixels {
    type V = ItemPixelsView;

    open spec fn view(&self) -> ItemPixelsView {
        match self {
            ItemPixels::Placed(p) => ItemPixelsView::Placed(views(p@)),
            ItemPixels::Along(n, p) => ItemPixelsView::Along(views(n@), views(p@)),
        }
    }
}

/// A display item (fixture shape) of the preview.
#[derive(Debug, Clone)]
pub struct ItemText {
    pub name: String,
    pub shape_type: String,
    pub pixels: ItemPixels,
}

/// The contents of an `ItemText`.
pub ghost struct ItemView {
    pub name: Seq<char>,
    pub shape_type: Seq<char>,
    pub pixels: ItemPixelsView,
}

impl View for ItemText {
    type V = ItemView;

    open spec fn view(&self) -> ItemView {
        ItemView { name: self.name@, shape_type: self.shape_type@, pixels: self.pixels@ }
    }
}

/// The preview read from a Vixen preview file: the canvas size and the
/// display items, with every coordinate kept as the texts it comes from.
#[derive(Debug, Clone)]
pub struct PreviewText {
    pub width: u32,
    pub height: u32,
    pub display_items: Vec<ItemText>,
}

/// The contents of a `PreviewText`.
pub ghost struct PreviewView {
    pub width: u32,
    pub height: u32,
    pub items: Seq<ItemView>,
}

impl View for PreviewText {
    type V = PreviewView;

    open spec fn view(&self) -> PreviewView {
        PreviewView { width: self.width, height: self.height, items: views(self.display_items@) }
    }
}

// ── Text helpers ────────────────────────────────────────────────────

/// A character with the Unicode `White_Space` property, which std's
/// `char::is_whitespace` tests.
pub open spec fn is_white_space(c: char) -> bool {
    ('\u{9}' <= c && c <= '\u{d}') || c == ' ' || c == '\u{85}' || c == '\u{a0}' || c == '\u{1680}'
        || ('\u{2000}' <= c && c <= '\u{200a}') || c == '\u{2028}' || c == '\u{2029}' || c == '\u{202f}'
        || c == '\u{205f}' || c == '\u{3000}'
}

fn is_white_space_exec(c: char) -> (r: bool)
    ensures
        r == is_white_space(c),
{
    ('\u{9}' <= c && c <= '\u{d}') || c == ' ' || c == '\u{85}' || c == '\u{a0}' || c == '\u{1680}'
        || ('\u{2000}' <= c && c <= '\u{200a}') || c == '\u{2028}' || c == '\u{2029}' || c == '\u{202f}'
        || c == '\u{205f}' || c == '\u{3000}'
}

/// `s` without leading white space.
pub open spec fn trim_start(s: Seq<char>) -> Seq<char>
    decreases s.len(),
{
    if s.len() > 0 && is_white_space(s[0]) {
        trim_start(s.drop_first())
    } else {
        s
    }
}

/// `s` without trailing white space.
pub open spec fn trim_end(s: Seq<char>) -> Seq<char>
    decreases s.len(),
{
    if s.len() > 0 && is_white_space(s.last()) {
        trim_end(s.drop_last())
    } else {
        s
    }
}

/// `s` without leading and trailing white space, as std's `str::trim` gives.
pub open spec fn trimmed(s: Seq<char>) -> Seq<char> {
    trim_end(trim_start(s))
}

/// Trims white space off both ends of a string.
pub(crate) fn trim_text(s: &str) -> (r: String)
    ensures
        r@ == trimmed(s@),
{
    let n = s.unicode_len();
    let mut a: usize = 0;
    assert(s@.skip(0) =~= s@);
    while a < n && is_white_space_exec(s.get_char(a))
        invariant
            a <= n,
            n == s@.len(),
            trim_start(s@) == trim_start(s@.skip(a as int)),
        decreases n - a,
    {
        assert(s@.skip(a as int).drop_first() =~= s@.skip(a + 1));
        a += 1;
    }
    assert(trim_start(s@) =~= s@.skip(a as int)) by {
        if a < n {
            assert(s@.skip(a as int)[0] == s@[a as int]);
        }
    }
    let mut b: usize = n;
    assert(s@.subrange(a as int, n as int) =~= s@.skip(a as int));
    while b > a && is_white_space_exec(s.get_char(b - 1))
        invariant
            a <= b <= n,
            n == s@.len(),
            trimmed(s@) == trim_end(s@.subrange(a as int, b as int)),
        decreases b,
    {
        assert(s@.subrange(a as int, b as int).drop_last() =~= s@.subrange(a as int, b - 1));
        b -= 1;
    }
    assert(trimmed(s@) =~= s@.subrange(a as int, b as int)) by {
        if b > a {
            assert(s@.subrange(a as int, b as int).last() == s@[b - 1]);
        }
    }
    String::from_str(s.substring_char(a, b))
}

/// What std's `u32` parsing gives: an optional `+` followed by one or more
/// decimal digits whose value fits in 32 bits; anything else is an error.
pub open spec fn parse_u32_spec(s: Seq<char>) -> Option<u32> {
    let d = unsigned_digits(s);
    if d.len() > 0 && all_digits(d) && digits_value(d) <= u32::MAX {
        Some(digits_value(d) as u32)
    } else {
        None
    }
}

/// Parses a `u32` as std's `str::parse` does.
fn parse_u32(s: &str) -> (r: Option<u32>)
    ensures
        r == parse_u32_spec(s@),
{
    let n = s.unicode_len();
    let start: usize = if n > 0 && s.get_char(0) == '+' {
        1
    } else {
        0
    };
    let ghost d = unsigned_digits(s@);
    assert(d =~= s@.subrange(start as int, n as int));
    if start >= n {
        return None;
    }
    let mut val: u64 = 0;
    let mut i: usize = start;
    while i < n
        invariant
            n == s@.len(),
            start <= i <= n,
            d == unsigned_digits(s@),
            d =~= s@.subrange(start as int, n as int),
            forall|k: int| 0 <= k < i - start ==> is_digit(#[trigger] d[k]),
            val as int == if digits_value(d.subrange(0, i - start)) <= 4294967296 {
                digits_value(d.subrange(0, i - start))
            } else {
                4294967296
            },
        decreases n - i,
    {
        let c = s.get_char(i);
        if !('0' <= c && c <= '9') {
            assert(!is_digit(d[i - start]));
            assert(!all_digits(d));
            return None;
        }
        let ghost p = d.subrange(0, i - start);
        let ghost q = d.subrange(0, i - start + 1);
        assert(q.drop_last() =~= p);
        assert(q.last() == c);
        assert forall|k: int| 0 <= k < p.len() implies is_digit(#[trigger] p[k]) by {
            assert(p[k] == d[k]);
        }
        proof {
            lemma_digits_nonneg(p);
        }
        let digit: u64 = (c as u64) - 48;
        let next: u64 = val * 10 + digit;
        val = if next > 4294967296 {
            4294967296
        } else {
            next
        };
        i += 1;
    }
    assert(d.subrange(0, n - start) =~= d);
    if val <= 4294967295 {
        Some(val as u32)
    } else {
        None
    }
}

// ── Reading the preview ─────────────────────────────────────────────

/// Element names that open a preview section.
pub open spec fn is_preview_name(n: Seq<char>) -> bool {
    n == "VixenPreviewData"@ || n == "Preview"@
}

/// Element names of a pixel.
pub open spec fn is_pixel_name(n: Seq<char>) -> bool {
    n == "PreviewPixel"@ || n == "Pixel"@ || n == "LightNode"@
}

/// Element names of a shape's control-point list.
pub open spec fn is_points_name(n: Seq<char>) -> bool {
    n == "_points"@ || n == "Points"@
}

/// Element names of a control point.
pub open spec fn is_point_name(n: Seq<char>) -> bool {
    n == "PreviewPoint"@ || n == "Point"@
}

/// Names that carry a pixel's node id.
pub open spec fn is_node_key(n: Seq<char>) -> bool {
    n == "NodeId"@ || n == "nodeId"@ || n == "Node"@
}

/// Names that carry an x coordinate.
pub open spec fn is_x_name(n: Seq<char>) -> bool {
    n == "X"@ || n == "x"@
}

/// Names that carry a y coordinate.
pub open spec fn is_y_name(n: Seq<char>) -> bool {
    n == "Y"@ || n == "y"@
}

/// Element names that carry the canvas width.
pub open spec fn is_width_name(n: Seq<char>) -> bool {
    n == "Width"@ || n == "SetupWidth"@
}

/// Element names that carry the canvas height.
pub open spec fn is_height_name(n: Seq<char>) -> bool {
    n == "Height"@ || n == "SetupHeight"@
}

fn is_preview_name_exec(n: &str) -> (r: bool)
    ensures
        r == is_preview_name(n@),
{
    str_eq(n, "VixenPreviewData") || str_eq(n, "Preview")
}

fn is_pixel_name_exec(n: &str) -> (r: bool)
    ensures
        r == is_pixel_name(n@),
{
    str_eq(n, "PreviewPixel") || str_eq(n, "Pixel") || str_eq(n, "LightNode")
}

fn is_points_name_exec(n: &str) -> (r: bool)
    ensures
        r == is_points_name(n@),
{
    str_eq(n, "_points") || str_eq(n, "Points")
}

fn is_point_name_exec(n: &str) -> (r: bool)
    ensures
        r == is_point_name(n@),
{
    str_eq(n, "PreviewPoint") || str_eq(n, "Point")
}

fn is_node_key_exec(n: &str) -> (r: bool)
    ensures
        r == is_node_key(n@),
{
    str_eq(n, "NodeId") || str_eq(n, "nodeId") || str_eq(n, "Node")
}

fn is_x_name_exec(n: &str) -> (r: bool)
    ensures
        r == is_x_name(n@),
{
    str_eq(n, "X") || str_eq(n, "x")
}

fn is_y_name_exec(n: &str) -> (r: bool)
    ensures
        r == is_y_name(n@),
{
    str_eq(n, "Y") || str_eq(n, "y")
}

fn is_width_name_exec(n: &str) -> (r: bool)
    ensures
        r == is_width_name(n@),
{
    str_eq(n, "Width") || str_eq(n, "SetupWidth")
}

fn is_height_name_exec(n: &str) -> (r: bool)
    ensures
        r == is_height_name(n@),
{
    str_eq(n, "Height") || str_eq(n, "SetupHeight")
}

/// What a tag's attributes say, keys taken without namespace prefix and,
/// where a key repeats, the last one counting: the node id, the steps of
/// the x and y coordinates, whether any coordinate was given, and the
/// shape type (without namespace prefix).
pub ghost struct AttrScan {
    pub node_id: Seq<char>,
    pub x: Seq<CoordStepView>,
    pub y: Seq<CoordStepView>,
    pub has_pos: bool,
    pub shape: Option<Seq<char>>,
}

/// The attribute summary of a tag.
pub open spec fn attr_scan(a: Seq<(Seq<char>, Seq<char>)>) -> AttrScan
    decreases a.len(),
{
    if a.len() == 0 {
        AttrScan { node_id: Seq::empty(), x: Seq::empty(), y: Seq::empty(), has_pos: false, shape: None }
    } else {
        let r = attr_scan(a.drop_last());
        let k = spec_strip_ns(a.last().0);
        let v = a.last().1;
        if is_node_key(k) {
            AttrScan { node_id: v, ..r }
        } else if is_x_name(k) {
            AttrScan { x: r.x.push(CoordStepView::Attr(v)), has_pos: true, ..r }
        } else if is_y_name(k) {
            AttrScan { y: r.y.push(CoordStepView::Attr(v)), has_pos: true, ..r }
        } else if k == "type"@ {
            AttrScan { shape: Some(spec_strip_ns(v)), ..r }
        } else {
            r
        }
    }
}

/// The attribute summary of a tag, computed.
struct AttrFields {
    node_id: String,
    x: Vec<CoordStep>,
    y: Vec<CoordStep>,
    has_pos: bool,
    shape: Option<String>,
}

impl View for AttrFields {
    type V = AttrScan;

    closed spec fn view(&self) -> AttrScan {
        AttrScan {
            node_id: self.node_id@,
            x: views(self.x@),
            y: views(self.y@),
            has_pos: self.has_pos,
            shape: match self.shape {
                Some(t) => Some(t@),
                None => None,
            },
        }
    }
}

fn scan_attrs(attributes: &Vec<(String, String)>) -> (r: AttrFields)
    ensures
        r@ == attr_scan(crate::importer::attrs_view(attributes@)),
{
    let ghost a = crate::importer::attrs_view(attributes@);
    let mut r = AttrFields { node_id: String::new(), x: Vec::new(), y: Vec::new(), has_pos: false, shape: None };
    assert(views(r.x@) =~= Seq::<CoordStepView>::empty());
    assert(views(r.y@) =~= Seq::<CoordStepView>::empty());
    assert(a.take(0) =~= Seq::<(Seq<char>, Seq<char>)>::empty());
    let mut i: usize = 0;
    while i < attributes.len()
        invariant
            i <= attributes.len(),
            a == crate::importer::attrs_view(attributes@),
            r@ == attr_scan(a.take(i as int)),
        decreases attributes.len() - i,
    {
        assert(a.take(i + 1).drop_last() =~= a.take(i as int));
        assert(a[i as int] == (attributes@[i as int].0@, attributes@[i as int].1@));
        let k = strip_ns(attributes[i].0.as_str());
        let v = &attributes[i].1;
        if is_node_key_exec(k) {
            r.node_id = v.clone();
        } else if is_x_name_exec(k) {
            push_viewed(&mut r.x, CoordStep::Attr(v.clone()));
            r.has_pos = true;
        } else if is_y_name_exec(k) {
            push_viewed(&mut r.y, CoordStep::Attr(v.clone()));
            r.has_pos = true;
        } else if str_eq(k, "type") {
            r.shape = Some(String::from_str(strip_ns(v.as_str())));
        }
        i += 1;
    }
    assert(a.take(attributes.len() as int) =~= a);
    r
}

/// A finished preview section.
pub ghost struct SectionView {
    pub width: u32,
    pub height: u32,
    pub items: Seq<ItemView>,
}

/// The state of reading a preview document.
pub ghost struct ScanView {
    pub sections: Seq<SectionView>,
    pub width: u32,
    pub height: u32,
    pub items: Seq<ItemView>,
    pub in_preview: bool,
    pub preview_depth: int,
    pub in_item: bool,
    pub item_depth: int,
    pub shape_type: Seq<char>,
    pub node_ids: Seq<Seq<char>>,
    pub placed: Seq<PlacedView>,
    pub in_points: bool,
    pub points: Seq<PointView>,
    pub in_point: bool,
    pub point: PointView,
    pub in_pixel: bool,
    pub pixel: PlacedView,
    pub has_pos: bool,
    pub element: Seq<char>,
    pub depth: int,
}

/// A control point with no coordinate steps.
pub open spec fn blank_point() -> PointView {
    PointView { x: Seq::empty(), y: Seq::empty() }
}

/// A pixel with no node id and no coordinate steps.
pub open spec fn blank_pixel() -> PlacedView {
    PlacedView { node_id: Seq::empty(), x: Seq::empty(), y: Seq::empty() }
}

/// The state before the first event.
pub open spec fn initial_scan() -> ScanView {
    ScanView {
        sections: Seq::empty(),
        width: 0,
        height: 0,
        items: Seq::empty(),
        in_preview: false,
        preview_depth: 0,
        in_item: false,
        item_depth: 0,
        shape_type: Seq::empty(),
        node_ids: Seq::empty(),
        placed: Seq::empty(),
        in_points: false,
        points: Seq::empty(),
        in_point: false,
        point: blank_point(),
        in_pixel: false,
        pixel: blank_pixel(),
        has_pos: false,
        element: Seq::empty(),
        depth: 0,
    }
}

/// A start tag: it goes one level deeper and becomes the current element.
/// A `VixenPreviewData` or `Preview` tag opens a section unless one is
/// open; so does a `DisplayItems` tag outside a section. Inside a section a
/// `DisplayItem` opens an item with no shape type, pixels or points; inside
/// an item a `Shape` tag's `type` attribute sets the shape type, a pixel
/// tag opens a pixel with the node id and coordinates of its attributes,
/// and a `_points`/`Points` tag opens the control points; among those a
/// point tag opens a point with the coordinates of its attributes.
pub open spec fn start_step(s: ScanView, t: crate::importer::TagView) -> ScanView {
    let depth = s.depth + 1;
    let local = spec_strip_ns(t.name);
    let a = attr_scan(t.attributes);
    let s1 = ScanView { depth, element: local, ..s };
    if is_preview_name(local) {
        if !s.in_preview {
            ScanView { in_preview: true, preview_depth: depth, ..s1 }
        } else {
            s1
        }
    } else if local == "DisplayItems"@ && !s.in_preview {
        ScanView { in_preview: true, preview_depth: depth, ..s1 }
    } else if local == "DisplayItem"@ && s.in_preview {
        ScanView {
            in_item: true,
            item_depth: depth,
            shape_type: Seq::empty(),
            node_ids: Seq::empty(),
            points: Seq::empty(),
            placed: Seq::empty(),
            ..s1
        }
    } else if local == "Shape"@ && s.in_item {
        match a.shape {
            Some(st) => ScanView { shape_type: st, ..s1 },
            None => s1,
        }
    } else if is_pixel_name(local) && s.in_item {
        ScanView {
            in_pixel: true,
            pixel: PlacedView { node_id: a.node_id, x: a.x, y: a.y },
            has_pos: a.has_pos,
            ..s1
        }
    } else if is_points_name(local) && s.in_item {
        ScanView { in_points: true, ..s1 }
    } else if is_point_name(local) && s.in_points {
        ScanView { in_point: true, point: PointView { x: a.x, y: a.y }, ..s1 }
    } else {
        s1
    }
}

/// The larger of the current value and the number a text gives, when the
/// text is one.
pub open spec fn raised(cur: u32, t: Seq<char>) -> u32 {
    match parse_u32_spec(t) {
        Some(v) => if v > cur {
            v
        } else {
            cur
        },
        None => cur,
    }
}

/// Text content, trimmed; empty text changes nothing. Inside a section but
/// outside an item, the text of a `Width`/`SetupWidth` (`Height`/
/// `SetupHeight`) element raises the section's width (height) to the
/// number it gives. Inside a pixel, the text of a node-id element sets the
/// node id and that of an `X`/`Y` element adds a coordinate step and marks
/// the pixel as placed; otherwise, inside a point, the text of an `X`/`Y`
/// element adds a coordinate step.
pub open spec fn text_step(s: ScanView, raw: Seq<char>) -> ScanView {
    let t = trimmed(raw);
    let el = s.element;
    let dims = s.in_preview && !s.in_item;
    let s1 = ScanView {
        width: if dims && is_width_name(el) {
            raised(s.width, t)
        } else {
            s.width
        },
        height: if dims && is_height_name(el) {
            raised(s.height, t)
        } else {
            s.height
        },
        ..s
    };
    if t.len() == 0 {
        s
    } else if s.in_pixel {
        if is_node_key(el) {
            ScanView { pixel: PlacedView { node_id: t, ..s.pixel }, ..s1 }
        } else if is_x_name(el) {
            ScanView { pixel: PlacedView { x: s.pixel.x.push(CoordStepView::Text(t)), ..s.pixel }, has_pos: true, ..s1 }
        } else if is_y_name(el) {
            ScanView { pixel: PlacedView { y: s.pixel.y.push(CoordStepView::Text(t)), ..s.pixel }, has_pos: true, ..s1 }
        } else {
            s1
        }
    } else if s.in_point {
        if is_x_name(el) {
            ScanView { point: PointView { x: s.point.x.push(CoordStepView::Text(t)), ..s.point }, ..s1 }
        } else if is_y_name(el) {
            ScanView { point: PointView { y: s.point.y.push(CoordStepView::Text(t)), ..s.point }, ..s1 }
        } else {
            s1
        }
    } else {
        s1
    }
}

/// The name of the `k`-th display item of a section, counting from zero.
pub open spec fn item_name(k: nat) -> Seq<char> {
    "Item "@ + decimal(k + 1)
}

/// The pixels of a closing display item: its placed pixels if it has any,
/// else its node ids along its control points if it has node ids, else none.
pub open spec fn item_pixels(
    placed: Seq<PlacedView>,
    node_ids: Seq<Seq<char>>,
    points: Seq<PointView>,
) -> Option<ItemPixelsView> {
    if placed.len() > 0 {
        Some(ItemPixelsView::Placed(placed))
    } else if node_ids.len() > 0 {
        Some(ItemPixelsView::Along(node_ids, points))
    } else {
        None
    }
}

/// An end tag: it goes one level up (not below zero). The end of the open
/// section, above its depth, stores the section when it has items and
/// resets width, height and items. The end of an open pixel stores it,
/// when it has a node id, as a placed pixel if it was given a coordinate
/// and as a node id otherwise. The end of an open point stores it; the end
/// of the control points closes them. The end of the open item, above its
/// depth, adds it to the section when it has pixels. A pixel, point or
/// item hands its contents over when it closes; each is filled afresh when
/// the next one opens.
pub open spec fn end_step(s: ScanView, name: Seq<char>) -> ScanView {
    let local = spec_strip_ns(name);
    let depth = if s.depth > 0 {
        s.depth - 1
    } else {
        0
    };
    let s1 = ScanView { depth, ..s };
    if is_preview_name(local) && s.in_preview && depth < s.preview_depth {
        ScanView {
            sections: if s.items.len() > 0 {
                s.sections.push(SectionView { width: s.width, height: s.height, items: s.items })
            } else {
                s.sections
            },
            items: Seq::empty(),
            width: 0,
            height: 0,
            in_preview: false,
            ..s1
        }
    } else if is_pixel_name(local) && s.in_pixel {
        if s.pixel.node_id.len() > 0 && s.has_pos {
            ScanView { placed: s.placed.push(s.pixel), in_pixel: false, pixel: blank_pixel(), ..s1 }
        } else if s.pixel.node_id.len() > 0 {
            ScanView {
                node_ids: s.node_ids.push(s.pixel.node_id),
                in_pixel: false,
                pixel: blank_pixel(),
                ..s1
            }
        } else {
            ScanView { in_pixel: false, pixel: blank_pixel(), ..s1 }
        }
    } else if is_point_name(local) && s.in_point {
        ScanView { points: s.points.push(s.point), in_point: false, point: blank_point(), ..s1 }
    } else if is_points_name(local) && s.in_points {
        ScanView { in_points: false, ..s1 }
    } else if local == "DisplayItem"@ && s.in_item && depth < s.item_depth {
        let s2 = ScanView {
            in_item: false,
            shape_type: Seq::empty(),
            node_ids: Seq::empty(),
            points: Seq::empty(),
            placed: Seq::empty(),
            ..s1
        };
        match item_pixels(s.placed, s.node_ids, s.points) {
            Some(p) => ScanView {
                items: s.items.push(ItemView { name: item_name(s.items.len()), shape_type: s.shape_type, pixels: p }),
                ..s2
            },
            None => s2,
        }
    } else {
        s1
    }
}

/// An empty-element tag. Inside an item, a pixel tag with a node id adds a
/// placed pixel when its attributes give a coordinate and a node id
/// otherwise; inside the control points, a point tag adds a point with the
/// coordinates of its attributes.
pub open spec fn empty_step(s: ScanView, t: crate::importer::TagView) -> ScanView {
    let local = spec_strip_ns(t.name);
    let a = attr_scan(t.attributes);
    if is_pixel_name(local) && s.in_item && a.node_id.len() > 0 && a.has_pos {
        ScanView { placed: s.placed.push(PlacedView { node_id: a.node_id, x: a.x, y: a.y }), ..s }
    } else if is_pixel_name(local) && s.in_item && a.node_id.len() > 0 {
        ScanView { node_ids: s.node_ids.push(a.node_id), ..s }
    } else if is_point_name(local) && s.in_points {
        ScanView { points: s.points.push(PointView { x: a.x, y: a.y }), ..s }
    } else {
        s
    }
}

/// One event of the preview document.
pub open spec fn scan_step(s: ScanView, e: XmlEventView) -> ScanView {
    match e {
        XmlEventView::Start(t) => start_step(s, t),
        XmlEventView::End(n) => end_step(s, n),
        XmlEventView::Empty(t) => empty_step(s, t),
        XmlEventView::Text(t) => text_step(s, t),
        _ => s,
    }
}

/// The events in order, up to the first end of document.
pub open spec fn scan_events(s: ScanView, evs: Seq<XmlEventView>) -> ScanView
    decreases evs.len(),
{
    if evs.len() == 0 {
        s
    } else if evs[0] is Eof {
        s
    } else {
        scan_events(scan_step(s, evs[0]), evs.drop_first())
    }
}

/// A finished preview section, computed.
struct Section {
    width: u32,
    height: u32,
    items: Vec<ItemText>,
}

impl View for Section {
    type V = SectionView;

    closed spec fn view(&self) -> SectionView {
        SectionView { width: self.width, height: self.height, items: views(self.items@) }
    }
}

/// The state of reading a preview document, computed.
struct PreviewScan {
    sections: Vec<Section>,
    width: u32,
    height: u32,
    items: Vec<ItemText>,
    in_preview: bool,
    preview_depth: u64,
    in_item: bool,
    item_depth: u64,
    shape_type: String,
    node_ids: Vec<String>,
    placed: Vec<PlacedPixel>,
    in_points: bool,
    points: Vec<PointText>,
    in_point: bool,
    point: PointText,
    in_pixel: bool,
    pixel: PlacedPixel,
    has_pos: bool,
    element: String,
    depth: u64,
}

impl View for PreviewScan {
    type V = ScanView;

    closed spec fn view(&self) -> ScanView {
        ScanView {
            sections: views(self.sections@),
            width: self.width,
            height: self.height,
            items: views(self.items@),
            in_preview: self.in_preview,
            preview_depth: self.preview_depth as int,
            in_item: self.in_item,
            item_depth: self.item_depth as int,
            shape_type: self.shape_type@,
            node_ids: views(self.node_ids@),
            placed: views(self.placed@),
            in_points: self.in_points,
            points: views(self.points@),
            in_point: self.in_point,
            point: self.point@,
            in_pixel: self.in_pixel,
            pixel: self.pixel@,
            has_pos: self.has_pos,
            element: self.element@,
            depth: self.depth as int,
        }
    }
}

fn blank_point_exec() -> (r: PointText)
    ensures
        r@ == blank_point(),
{
    let r = PointText { x: Vec::new(), y: Vec::new() };
    assert(views(r.x@) =~= Seq::<CoordStepView>::empty());
    assert(views(r.y@) =~= Seq::<CoordStepView>::empty());
    r
}

fn blank_pixel_exec() -> (r: PlacedPixel)
    ensures
        r@ == blank_pixel(),
{
    let r = PlacedPixel { node_id: String::new(), x: Vec::new(), y: Vec::new() };
    assert(views(r.x@) =~= Seq::<CoordStepView>::empty());
    assert(views(r.y@) =~= Seq::<CoordStepView>::empty());
    r
}

pub(crate) fn empty_views<T: View>() -> (r: Vec<T>)
    ensures
        views(r@) == Seq::<T::V>::empty(),
        r@.len() == 0,
{
    let r = Vec::new();
    assert(views(r@) =~= Seq::<T::V>::empty());
    r
}

impl PreviewScan {
    fn new() -> (r: Self)
        ensures
            r@ == initial_scan(),
            r.items@.len() == 0,
    {
        PreviewScan {
            sections: empty_views(),
            width: 0,
            height: 0,
            items: empty_views(),
            in_preview: false,
            preview_depth: 0,
            in_item: false,
            item_depth: 0,
            shape_type: String::new(),
            node_ids: empty_views(),
            placed: empty_views(),
            in_points: false,
            points: empty_views(),
            in_point: false,
            point: blank_point_exec(),
            in_pixel: false,
            pixel: blank_pixel_exec(),
            has_pos: false,
            element: String::new(),
            depth: 0,
        }
    }

    fn start(&mut self, t: &XmlTag)
        requires
            old(self).depth < u64::MAX,
        ensures
            final(self)@ == start_step(old(self)@, t@),
    {
        let depth = self.depth + 1;
        let local = strip_ns(t.name.as_str());
        let a = scan_attrs(&t.attributes);
        self.depth = depth;
        self.element = String::from_str(local);
        if is_preview_name_exec(local) {
            if !self.in_preview {
                self.in_preview = true;
                self.preview_depth = depth;
            }
        } else if str_eq(local, "DisplayItems") && !self.in_preview {
            self.in_preview = true;
            self.preview_depth = depth;
        } else if str_eq(local, "DisplayItem") && self.in_preview {
            self.in_item = true;
            self.item_depth = depth;
            self.shape_type = String::new();
            self.node_ids = empty_views();
            self.points = empty_views();
            self.placed = empty_views();
        } else if str_eq(local, "Shape") && self.in_item {
            match a.shape {
                Some(st) => {
                    self.shape_type = st;
                },
                None => {},
            }
        } else if is_pixel_name_exec(local) && self.in_item {
            self.in_pixel = true;
            self.pixel = PlacedPixel { node_id: a.node_id, x: a.x, y: a.y };
            self.has_pos = a.has_pos;
        } else if is_points_name_exec(local) && self.in_item {
            self.in_points = true;
        } else if is_point_name_exec(local) && self.in_points {
            self.in_point = true;
            self.point = PointText { x: a.x, y: a.y };
        }
    }

    fn text(&mut self, raw: &str)
        ensures
            final(self)@ == text_step(old(self)@, raw@),
    {
        let t = trim_text(raw);
        if t.unicode_len() == 0 {
            return;
        }
        let dims = self.in_preview && !self.in_item;
        if dims && is_width_name_exec(self.element.as_str()) {
            match parse_u32(t.as_str()) {
                Some(v) => {
                    if v > self.width {
                        self.width = v;
                    }
                },
                None => {},
            }
        }
        if dims && is_height_name_exec(self.element.as_str()) {
            match parse_u32(t.as_str()) {
                Some(v) => {
                    if v > self.height {
                        self.height = v;
                    }
                },
                None => {},
            }
        }
        if self.in_pixel {
            if is_node_key_exec(self.element.as_str()) {
                self.pixel.node_id = t;
            } else if is_x_name_exec(self.element.as_str()) {
                push_viewed(&mut self.pixel.x, CoordStep::Text(t));
                self.has_pos = true;
            } else if is_y_name_exec(self.element.as_str()) {
                push_viewed(&mut self.pixel.y, CoordStep::Text(t));
                self.has_pos = true;
            }
        } else if self.in_point {
            if is_x_name_exec(self.element.as_str()) {
                push_viewed(&mut self.point.x, CoordStep::Text(t));
            } else if is_y_name_exec(self.element.as_str()) {
                push_viewed(&mut self.point.y, CoordStep::Text(t));
            }
        }
    }

    fn end(&mut self, name: &str)
        requires
            old(self).items@.len() < u64::MAX,
        ensures
            final(self)@ == end_step(old(self)@, name@),
            final(self).items@.len() <= old(self).items@.len() + 1,
    {
        let local = strip_ns(name);
        let depth = if self.depth > 0 {
            self.depth - 1
        } else {
            0
        };
        self.depth = depth;
        if is_preview_name_exec(local) && self.in_preview && depth < self.preview_depth {
            let items = take_vec(&mut self.items);
            assert(views(self.items@) =~= Seq::<ItemView>::empty());
            if items.len() > 0 {
                push_viewed(&mut self.sections, Section { width: self.width, height: self.height, items });
            }
            self.width = 0;
            self.height = 0;
            self.in_preview = false;
        } else if is_pixel_name_exec(local) && self.in_pixel {
            let mut pixel = blank_pixel_exec();
            std::mem::swap(&mut pixel, &mut self.pixel);
            if pixel.node_id.unicode_len() > 0 && self.has_pos {
                push_viewed(&mut self.placed, pixel);
            } else if pixel.node_id.unicode_len() > 0 {
                push_viewed(&mut self.node_ids, pixel.node_id);
            }
            self.in_pixel = false;
        } else if is_point_name_exec(local) && self.in_point {
            let mut point = blank_point_exec();
            std::mem::swap(&mut point, &mut self.point);
            push_viewed(&mut self.points, point);
            self.in_point = false;
        } else if is_points_name_exec(local) && self.in_points {
            self.in_points = false;
        } else if str_eq(local, "DisplayItem") && self.in_item && depth < self.item_depth {
            let placed = take_vec(&mut self.placed);
            let node_ids = take_vec(&mut self.node_ids);
            let points = take_vec(&mut self.points);
            let mut shape_type = String::new();
            std::mem::swap(&mut shape_type, &mut self.shape_type);
            assert(views(self.placed@) =~= Seq::<PlacedView>::empty());
            assert(views(self.node_ids@) =~= Seq::<Seq<char>>::empty());
            assert(views(self.points@) =~= Seq::<PointView>::empty());
            let pixels = if placed.len() > 0 {
                Some(ItemPixels::Placed(placed))
            } else if node_ids.len() > 0 {
                Some(ItemPixels::Along(node_ids, points))
            } else {
                None
            };
            match pixels {
                Some(p) => {
                    let mut name = String::from_str("Item ");
                    push_decimal(&mut name, self.items.len() as u64 + 1);
                    proof {
                        reveal_strlit("Item ");
                    }
                    push_viewed(&mut self.items, ItemText { name, shape_type, pixels: p });
                },
                None => {},
            }
            self.in_item = false;
        }
    }

    fn empty(&mut self, t: &XmlTag)
        ensures
            final(self)@ == empty_step(old(self)@, t@),
            final(self).items@ == old(self).items@,
    {
        let local = strip_ns(t.name.as_str());
        let a = scan_attrs(&t.attributes);
        if is_pixel_name_exec(local) && self.in_item && a.node_id.unicode_len() > 0 && a.has_pos {
            push_viewed(&mut self.placed, PlacedPixel { node_id: a.node_id, x: a.x, y: a.y });
        } else if is_pixel_name_exec(local) && self.in_item && a.node_id.unicode_len() > 0 {
            push_viewed(&mut self.node_ids, a.node_id);
        } else if is_point_name_exec(local) && self.in_points {
            push_viewed(&mut self.points, PointText { x: a.x, y: a.y });
        }
    }
}

impl PreviewScan {
    fn step(&mut self, e: &XmlEvent)
        requires
            old(self).depth < u64::MAX,
            old(self).items@.len() < u64::MAX,
        ensures
            final(self)@ == scan_step(old(self)@, e@),
            final(self).depth <= old(self).depth + 1,
            final(self).items@.len() <= old(self).items@.len() + 1,
    {
        match e {
            XmlEvent::Start(t) => self.start(t),
            XmlEvent::End(n) => self.end(n.as_str()),
            XmlEvent::Empty(t) => self.empty(t),
            XmlEvent::Text(t) => self.text(t.as_str()),
            _ => {},
        }
    }
}

/// The sections of a finished read: those stored, then the open one when
/// it has items.
pub open spec fn flushed(s: ScanView) -> Seq<SectionView> {
    if s.items.len() > 0 {
        s.sections.push(SectionView { width: s.width, height: s.height, items: s.items })
    } else {
        s.sections
    }
}

/// The index of the section with the most items among the first `k`, the
/// last of them on a tie.
pub open spec fn best_index(secs: Seq<SectionView>, k: int) -> Option<int>
    decreases k,
{
    if k <= 0 {
        None
    } else {
        match best_index(secs, k - 1) {
            Some(j) => if secs[k - 1].items.len() >= secs[j].items.len() {
                Some(k - 1)
            } else {
                Some(j)
            },
            None => Some(k - 1),
        }
    }
}

/// The section with the most items (the last of them on a tie); an empty
/// one of size zero when there is none.
pub open spec fn chosen_section(secs: Seq<SectionView>) -> SectionView {
    match best_index(secs, secs.len() as int) {
        Some(j) => secs[j],
        None => SectionView { width: 0, height: 0, items: Seq::empty() },
    }
}

/// The preview a sequence of events describes: the chosen section's items,
/// with its canvas size where one was found and 1920 by 1080 otherwise.
pub open spec fn preview_of(evs: Seq<XmlEventView>) -> PreviewView {
    let best = chosen_section(flushed(scan_events(initial_scan(), evs)));
    PreviewView {
        width: if best.width == 0 {
            1920
        } else {
            best.width
        },
        height: if best.height == 0 {
            1080
        } else {
            best.height
        },
        items: best.items,
    }
}

/// The preview of a document's events, or `None` where reading failed.
pub open spec fn preview_result(r: Option<Seq<XmlEventView>>) -> Option<PreviewView> {
    match r {
        Some(evs) => Some(preview_of(evs)),
        None => None,
    }
}

/// Reads the preview out of a document's XML events.
///
/// Each `VixenPreviewData` (or `Preview`) section is read on its own; a
/// standalone `DisplayItems` list counts as a section too. The section with
/// the most display items is kept, the last of them on a tie: sections
/// hold the same fixtures for different canvas sizes, so they are never
/// merged.
pub fn preview_from_events(events: &[XmlEvent]) -> (r: PreviewText)
    ensures
        r@ == preview_of(events_view(events@)),
{
    let ghost evs = events_view(events@);
    let mut scan = PreviewScan::new();
    let mut i: usize = 0;
    assert(evs.skip(0) =~= evs);
    while i < events.len()
        invariant
            i <= events.len(),
            evs == events_view(events@),
            scan_events(scan@, evs.skip(i as int)) == scan_events(initial_scan(), evs),
            scan.depth <= i,
            scan.items@.len() <= i,
        ensures
            scan@ == scan_events(initial_scan(), evs),
        decreases events.len() - i,
    {
        let e = &events[i];
        assert(evs.skip(i as int)[0] == e@);
        assert(evs.skip(i as int).drop_first() =~= evs.skip(i + 1));
        if let XmlEvent::Eof = e {
            break;
        }
        scan.step(e);
        i += 1;
    }
    let mut sections = scan.sections;
    if scan.items.len() > 0 {
        push_viewed(&mut sections, Section { width: scan.width, height: scan.height, items: scan.items });
    }
    let ghost secs = views(sections@);
    assert(secs == flushed(scan_events(initial_scan(), evs)));
    let mut best: Option<usize> = None;
    let mut k: usize = 0;
    while k < sections.len()
        invariant
            k <= sections.len(),
            secs == views(sections@),
            match best {
                Some(j) => j < k && best_index(secs, k as int) == Some(j as int),
                None => best_index(secs, k as int) is None,
            },
        decreases sections.len() - k,
    {
        let better = match best {
            Some(j) => sections[k].items.len() >= sections[j].items.len(),
            None => true,
        };
        proof {
            if let Some(j) = best {
                assert(secs[k as int].items.len() == sections@[k as int].items@.len());
                assert(secs[j as int].items.len() == sections@[j as int].items@.len());
            }
        }
        if better {
            best = Some(k);
        }
        k += 1;
    }
    match best {
        Some(j) => {
            let sec = sections.swap_remove(j);
            assert(sec@ == secs[j as int]);
            PreviewText {
                width: if sec.width == 0 {
                    1920
                } else {
                    sec.width
                },
                height: if sec.height == 0 {
                    1080
                } else {
                    sec.height
                },
                display_items: sec.items,
            }
        },
        None => {
            let r = PreviewText { width: 1920, height: 1080, display_items: Vec::new() };
            assert(views(r.display_items@) =~= Seq::<ItemView>::empty());
            r
        },
    }
}

/// quick_xml's error type, used opaquely.
#[verifier::external_type_specification]
#[verifier::external_body]
pub struct ExXmlError(quick_xml::Error);

/// Errors of reading an XML document.
#[derive(Debug)]
pub enum ReadError {
    Xml(quick_xml::Error),
}

/// One event of quick_xml's reader, names and attribute values as the raw
/// bytes of the document: a start tag's name and attributes, an end tag's
/// name, an empty-element tag's name and attributes, text content
/// (unescaped), or anything else.
enum RawEvent {
    Start((Vec<u8>, Vec<(Vec<u8>, Vec<u8>)>)),
    End(Vec<u8>),
    Empty((Vec<u8>, Vec<(Vec<u8>, Vec<u8>)>)),
    Text(String),
    Other,
}

/// The contents of a `RawEvent`.
pub ghost enum RawEventView {
    Start(Seq<u8>, Seq<(Seq<u8>, Seq<u8>)>),
    End(Seq<u8>),
    Empty(Seq<u8>, Seq<(Seq<u8>, Seq<u8>)>),
    Text(Seq<char>),
    Other,
}

/// Raw attribute pairs by their bytes.
pub open spec fn raw_attrs_view(a: Seq<(Vec<u8>, Vec<u8>)>) -> Seq<(Seq<u8>, Seq<u8>)> {
    a.map_values(|p: (Vec<u8>, Vec<u8>)| (p.0@, p.1@))
}

impl View for RawEvent {
    type V = RawEventView;

    closed spec fn view(&self) -> RawEventView {
        match self {
            RawEvent::Start(t) => RawEventView::Start(t.0@, raw_attrs_view(t.1@)),
            RawEvent::End(n) => RawEventView::End(n@),
            RawEvent::Empty(t) => RawEventView::Empty(t.0@, raw_attrs_view(t.1@)),
            RawEvent::Text(t) => RawEventView::Text(t@),
            RawEvent::Other => RawEventView::Other,
        }
    }
}

/// The events quick_xml's `Reader` yields for a document, with text
/// trimmed of surrounding white space (`trim_text(true)`), up to the end of
/// the document: names and attribute values as raw bytes, attributes that
/// fail to parse left out, text content unescaped (empty where unescaping
/// fails); `None` where the reader reports an error.
pub uninterp spec fn raw_events_of(data: Seq<u8>) -> Option<Seq<RawEventView>>;

/// Reads a whole document with quick_xml's `Reader` over the bytes,
/// `trim_text(true)`, copying each event up to the end of the document;
/// trusted to give what `raw_events_of` names for the bytes, or the
/// reader's error where it names none.
#[verifier::external_body]
fn raw_events(data: &[u8]) -> (r: Result<Vec<RawEvent>, quick_xml::Error>)
    ensures
        match r {
            Ok(v) => raw_events_of(data@) == Some(views(v@)),
            Err(_) => raw_events_of(data@) is None,
        },
{
    let tag = |e: &BytesStart| (e.name().0.to_vec(), e.attributes().flatten().map(|a| (a.key.0.to_vec(), a.value.to_vec())).collect());
    let mut reader = Reader::from_reader(data);
    reader.config_mut().trim_text(true);
    let mut events = vec![];
    loop {
        events.push(match reader.read_event()? {
            Start(e) => RawEvent::Start(tag(&e)),
            Empty(e) => RawEvent::Empty(tag(&e)),
            End(e) => RawEvent::End(e.to_vec()),
            Text(e) => RawEvent::Text(e.unescape().unwrap_or_default().into_owned()),
            Eof => return Ok(events),
            _ => RawEvent::Other,
        });
    }
}

/// What std's `String::from_utf8_lossy` gives for a byte sequence: the
/// text it encodes, each invalid sequence replaced by U+FFFD.
pub uninterp spec fn lossy_of(b: Seq<u8>) -> Seq<char>;

/// ASCII bytes: each below 128.
pub open spec fn ascii_bytes(b: Seq<u8>) -> bool {
    forall|i: int| 0 <= i < b.len() ==> b[i] < 128
}

/// Decodes bytes as UTF-8 by calling std's `String::from_utf8_lossy`;
/// trusted to give what `lossy_of` names for the bytes, and, since ASCII
/// bytes are valid UTF-8 that std hands back unchanged, the characters of
/// the same codes for ASCII bytes.
#[verifier::external_body]
fn lossy(b: &[u8]) -> (r: String)
    ensures
        r@ == lossy_of(b@),
        ascii_bytes(b@) ==> r@ == b@.map_values(|x: u8| x as char),
{
    String::from_utf8_lossy(b).into_owned()
}

/// A raw tag with its name and attributes decoded.
pub open spec fn decoded_tag(n: Seq<u8>, a: Seq<(Seq<u8>, Seq<u8>)>) -> crate::importer::TagView {
    crate::importer::TagView {
        name: lossy_of(n),
        attributes: a.map_values(|p: (Seq<u8>, Seq<u8>)| (lossy_of(p.0), lossy_of(p.1))),
    }
}

/// A raw event with its names and attribute values decoded.
pub open spec fn decoded(e: RawEventView) -> XmlEventView {
    match e {
        RawEventView::Start(n, a) => XmlEventView::Start(decoded_tag(n, a)),
        RawEventView::End(n) => XmlEventView::End(lossy_of(n)),
        RawEventView::Empty(n, a) => XmlEventView::Empty(decoded_tag(n, a)),
        RawEventView::Text(t) => XmlEventView::Text(t),
        RawEventView::Other => XmlEventView::Other,
    }
}

/// The events of a document as the preview reads them, or `None` where the
/// XML reader fails.
pub open spec fn document_events(data: Seq<u8>) -> Option<Seq<XmlEventView>> {
    match raw_events_of(data) {
        Some(r) => Some(r.map_values(|e: RawEventView| decoded(e))),
        None => None,
    }
}

fn decode_tag(t: &(Vec<u8>, Vec<(Vec<u8>, Vec<u8>)>)) -> (r: XmlTag)
    ensures
        r@ == decoded_tag(t.0@, raw_attrs_view(t.1@)),
{
    let ghost target = decoded_tag(t.0@, raw_attrs_view(t.1@)).attributes;
    let mut attributes: Vec<(String, String)> = Vec::new();
    let mut i: usize = 0;
    while i < t.1.len()
        invariant
            i <= t.1@.len(),
            target == decoded_tag(t.0@, raw_attrs_view(t.1@)).attributes,
            crate::importer::attrs_view(attributes@) =~= target.take(i as int),
        decreases t.1@.len() - i,
    {
        let k = lossy(t.1[i].0.as_slice());
        let v = lossy(t.1[i].1.as_slice());
        let ghost before = crate::importer::attrs_view(attributes@);
        attributes.push((k, v));
        assert(crate::importer::attrs_view(attributes@) =~= before.push((lossy_of(t.1@[i as int].0@), lossy_of(t.1@[i as int].1@))));
        assert(target.take(i + 1) =~= target.take(i as int).push(target[i as int]));
        i += 1;
    }
    assert(target.take(t.1@.len() as int) =~= target);
    XmlTag { name: lossy(t.0.as_slice()), attributes }
}

fn decode_events(raw: &Vec<RawEvent>) -> (r: Vec<XmlEvent>)
    ensures
        events_view(r@) == views(raw@).map_values(|e: RawEventView| decoded(e)),
{
    let ghost target = views(raw@).map_values(|e: RawEventView| decoded(e));
    let mut out: Vec<XmlEvent> = Vec::new();
    let mut i: usize = 0;
    while i < raw.len()
        invariant
            i <= raw@.len(),
            target == views(raw@).map_values(|e: RawEventView| decoded(e)),
            events_view(out@) =~= target.take(i as int),
        decreases raw@.len() - i,
    {
        let e = match &raw[i] {
            RawEvent::Start(t) => XmlEvent::Start(decode_tag(t)),
            RawEvent::End(n) => XmlEvent::End(lossy(n.as_slice())),
            RawEvent::Empty(t) => XmlEvent::Empty(decode_tag(t)),
            RawEvent::Text(t) => XmlEvent::Text(t.clone()),
            RawEvent::Other => XmlEvent::Other,
        };
        assert(e@ == target[i as int]);
        let ghost before = events_view(out@);
        out.push(e);
        assert(events_view(out@) =~= before.push(e@));
        assert(target.take(i + 1) =~= target.take(i as int).push(target[i as int]));
        i += 1;
    }
    assert(target.take(raw@.len() as int) =~= target);
    out
}

/// Reads a whole XML document into its events (text trimmed, names and
/// attribute values decoded as UTF-8, up to the end of the document);
/// fails where the XML reader does.
pub fn read_xml_events(data: &[u8]) -> (r: Result<Vec<XmlEvent>, quick_xml::Error>)
    ensures
        match r {
            Ok(v) => document_events(data@) == Some(events_view(v@)),
            Err(_) => document_events(data@) is None,
        },
{
    match raw_events(data) {
        Ok(raw) => Ok(decode_events(&raw)),
        Err(e) => Err(e),
    }
}

/// Parse Vixen preview XML from bytes.
///
/// Handles the Vixen 3 DataContract XML format where elements use namespace
/// prefixes (e.g. `a:DisplayItem`, `a:PreviewPixel`). Pixels carry their
/// own `X`/`Y` positions, or node ids to be spread along the shape's
/// `_points` control points. Fails only where the XML reader does.
pub fn parse_preview_xml(data: &[u8]) -> (r: Result<PreviewText, ReadError>)
    ensures
        match r {
            Ok(p) => preview_result(document_events(data@)) == Some(p@),
            Err(_) => document_events(data@) is None,
        },
{
    match read_xml_events(data) {
        Ok(events) => Ok(preview_from_events(events.as_slice())),
        Err(e) => Err(ReadError::Xml(e)),
    }
}

// ── Laws of the preview ─────────────────────────────────────────────

proof fn lemma_best_index(secs: Seq<SectionView>, k: int)
    requires
        0 <= k <= secs.len(),
    ensures
        match best_index(secs, k) {
            Some(j) => 0 <= j < k && forall|m: int|
                0 <= m < k ==> secs[j].items.len() >= #[trigger] secs[m].items.len(),
            None => k == 0,
        },
    decreases k,
{
    if k > 0 {
        lemma_best_index(secs, k - 1);
    }
}

/// The preview keeps one section whole, the one with the most display
/// items: no section that was read has more items than the preview, and
/// where any section was read the preview's items are exactly one
/// section's. The canvas is never of size zero.
pub proof fn lemma_preview_picks_largest_section(evs: Seq<XmlEventView>)
    ensures
        forall|k: int|
            0 <= k < flushed(scan_events(initial_scan(), evs)).len() ==> preview_of(evs).items.len()
                >= (#[trigger] flushed(scan_events(initial_scan(), evs))[k]).items.len(),
        flushed(scan_events(initial_scan(), evs)).len() > 0 ==> exists|j: int|
            0 <= j < flushed(scan_events(initial_scan(), evs)).len() && preview_of(evs).items == (
            #[trigger] flushed(scan_events(initial_scan(), evs))[j]).items,
        preview_of(evs).width > 0,
        preview_of(evs).height > 0,
{
    let secs = flushed(scan_events(initial_scan(), evs));
    lemma_best_index(secs, secs.len() as int);
    if secs.len() > 0 {
        let j = best_index(secs, secs.len() as int)->0;
        assert(preview_of(evs).items == secs[j].items);
    }
}

/// Every display item has pixels.
pub open spec fn item_has_pixels(it: ItemView) -> bool {
    match it.pixels {
        ItemPixelsView::Placed(p) => p.len() > 0,
        ItemPixelsView::Along(n, _) => n.len() > 0,
    }
}

/// Every item read so far, stored in a section or not, has pixels.
pub open spec fn items_have_pixels(s: ScanView) -> bool {
    &&& forall|i: int| 0 <= i < s.items.len() ==> item_has_pixels(#[trigger] s.items[i])
    &&& forall|j: int, i: int|
        0 <= j < s.sections.len() && 0 <= i < s.sections[j].items.len() ==> item_has_pixels(
            #[trigger] s.sections[j].items[i],
        )
}

proof fn lemma_step_keeps_pixels(s: ScanView, e: XmlEventView)
    requires
        items_have_pixels(s),
    ensures
        items_have_pixels(scan_step(s, e)),
{
    let r = scan_step(s, e);
    assert forall|j: int, i: int|
        0 <= j < r.sections.len() && 0 <= i < r.sections[j].items.len() implies item_has_pixels(
        #[trigger] r.sections[j].items[i],
    ) by {
        if j < s.sections.len() {
            assert(r.sections[j] == s.sections[j]);
        } else {
            assert(r.sections[j].items == s.items);
        }
    }
    assert forall|i: int| 0 <= i < r.items.len() implies item_has_pixels(#[trigger] r.items[i]) by {
        if i < s.items.len() {
            assert(r.items[i] == s.items[i]);
        }
    }
}

proof fn lemma_scan_keeps_pixels(s: ScanView, evs: Seq<XmlEventView>)
    requires
        items_have_pixels(s),
    ensures
        items_have_pixels(scan_events(s, evs)),
    decreases evs.len(),
{
    if evs.len() > 0 && !(evs[0] is Eof) {
        lemma_step_keeps_pixels(s, evs[0]);
        lemma_scan_keeps_pixels(scan_step(s, evs[0]), evs.drop_first());
    }
}

/// Every display item of the preview has pixels: placed pixels, or at
/// least one node id to spread along its shape.
pub proof fn lemma_preview_items_have_pixels(evs: Seq<XmlEventView>)
    ensures
        forall|i: int| 0 <= i < preview_of(evs).items.len() ==> item_has_pixels(#[trigger] preview_of(evs).items[i]),
{
    lemma_scan_keeps_pixels(initial_scan(), evs);
    let s = scan_events(initial_scan(), evs);
    let secs = flushed(s);
    assert forall|j: int, i: int|
        0 <= j < secs.len() && 0 <= i < secs[j].items.len() implies item_has_pixels(
        #[trigger] secs[j].items[i],
    ) by {
        if j < s.sections.len() {
            assert(secs[j] == s.sections[j]);
        } else {
            assert(secs[j].items == s.items);
        }
    }
    lemma_best_index(secs, secs.len() as int);
}

// ── Laws of the control points ──────────────────────────────────────

/// A name without a namespace prefix is its own local name.
pub proof fn lemma_strip_ns_plain(n: Seq<char>)
    requires
        forall|i: int| 0 <= i < n.len() ==> n[i] != ':',
    ensures
        spec_strip_ns(n) == n,
    decreases n.len(),
{
    if n.len() > 0 {
        lemma_strip_ns_plain(n.drop_last());
        assert(n.drop_last().push(n.last()) =~= n);
    }
}

/// The names and attribute keys of points, told apart from the other
/// names the preview reading looks at.
proof fn lemma_point_names()
    ensures
        spec_strip_ns("PreviewPoint"@) == "PreviewPoint"@,
        spec_strip_ns("Point"@) == "Point"@,
        spec_strip_ns("X"@) == "X"@,
        spec_strip_ns("x"@) == "x"@,
        spec_strip_ns("Y"@) == "Y"@,
        spec_strip_ns("y"@) == "y"@,
        forall|n: Seq<char>| (n == "PreviewPoint"@ || n == "Point"@) ==> {
            &&& is_point_name(n)
            &&& !is_preview_name(n)
            &&& n != "DisplayItems"@
            &&& n != "DisplayItem"@
            &&& n != "Shape"@
            &&& !is_pixel_name(n)
            &&& !is_points_name(n)
        },
        forall|k: Seq<char>| (k == "X"@ || k == "x"@) ==> is_x_name(k) && !is_node_key(k) && !is_y_name(k),
        forall|k: Seq<char>| (k == "NodeId"@ || k == "nodeId"@ || k == "Node"@) ==> is_node_key(k)
            && spec_strip_ns(k) == k,
        forall|n: Seq<char>| (n == "PreviewPixel"@ || n == "Pixel"@ || n == "LightNode"@) ==> is_pixel_name(n)
            && spec_strip_ns(n) == n,
        forall|k: Seq<char>| (k == "Y"@ || k == "y"@) ==> is_y_name(k) && !is_node_key(k) && !is_x_name(k),
{
    reveal_strlit("PreviewPoint");
    reveal_strlit("Point");
    reveal_strlit("VixenPreviewData");
    reveal_strlit("Preview");
    reveal_strlit("DisplayItems");
    reveal_strlit("DisplayItem");
    reveal_strlit("Shape");
    reveal_strlit("PreviewPixel");
    reveal_strlit("Pixel");
    reveal_strlit("LightNode");
    reveal_strlit("_points");
    reveal_strlit("Points");
    reveal_strlit("NodeId");
    reveal_strlit("nodeId");
    reveal_strlit("Node");
    reveal_strlit("type");
    reveal_strlit("X");
    reveal_strlit("x");
    reveal_strlit("Y");
    reveal_strlit("y");
    assert("PreviewPoint"@.len() == 12);
    assert("Point"@.len() == 5);
    assert("VixenPreviewData"@.len() == 16);
    assert("Preview"@.len() == 7);
    assert("DisplayItems"@.len() == 12);
    assert("DisplayItem"@.len() == 11);
    assert("Shape"@.len() == 5);
    assert("PreviewPixel"@.len() == 12);
    assert("Pixel"@.len() == 5);
    assert("LightNode"@.len() == 9);
    assert("_points"@.len() == 7);
    assert("Points"@.len() == 6);
    assert("NodeId"@.len() == 6);
    assert("nodeId"@.len() == 6);
    assert("Node"@.len() == 4);
    assert("type"@.len() == 4);
    assert("X"@.len() == 1);
    assert("x"@.len() == 1);
    assert("Y"@.len() == 1);
    assert("y"@.len() == 1);
    assert("DisplayItem"@[0] == 'D');
    assert("DisplayItems"@[0] == 'D');
    assert("LightNode"@[0] == 'L');
    assert("Node"@[0] == 'N');
    assert("NodeId"@[0] == 'N');
    assert("Pixel"@[0] == 'P');
    assert("Pixel"@[1] == 'i');
    assert("Point"@[0] == 'P');
    assert("Point"@[1] == 'o');
    assert("Points"@[0] == 'P');
    assert("Preview"@[0] == 'P');
    assert("PreviewPixel"@[0] == 'P');
    assert("PreviewPixel"@[8] == 'i');
    assert("PreviewPoint"@[0] == 'P');
    assert("PreviewPoint"@[8] == 'o');
    assert("Shape"@[0] == 'S');
    assert("VixenPreviewData"@[0] == 'V');
    assert("X"@[0] == 'X');
    assert("Y"@[0] == 'Y');
    assert("_points"@[0] == '_');
    assert("nodeId"@[0] == 'n');
    assert("type"@[0] == 't');
    assert("x"@[0] == 'x');
    assert("y"@[0] == 'y');
    lemma_strip_ns_plain("PreviewPoint"@);
    lemma_strip_ns_plain("Point"@);
    lemma_strip_ns_plain("X"@);
    lemma_strip_ns_plain("x"@);
    lemma_strip_ns_plain("Y"@);
    lemma_strip_ns_plain("y"@);
    lemma_strip_ns_plain("NodeId"@);
    lemma_strip_ns_plain("nodeId"@);
    lemma_strip_ns_plain("Node"@);
    lemma_strip_ns_plain("PreviewPixel"@);
    lemma_strip_ns_plain("Pixel"@);
    lemma_strip_ns_plain("LightNode"@);
}

/// The control point a point tag with an x attribute `v` and a y attribute
/// `w`, in either order, gives: x from `v`, y from `w`.
pub open spec fn point_of(v: Seq<char>, w: Seq<char>) -> PointView {
    PointView { x: seq![CoordStepView::Attr(v)], y: seq![CoordStepView::Attr(w)] }
}

/// Inside a shape's control points, a point tag takes its x coordinate from
/// its `X`/`x` attribute and its y coordinate from its `Y`/`y` attribute,
/// whichever order they come in: a self-closing tag adds that point, and an
/// opening tag starts it.
pub proof fn lemma_point_coordinates(
    s: ScanView,
    name: Seq<char>,
    kx: Seq<char>,
    ky: Seq<char>,
    v: Seq<char>,
    w: Seq<char>,
)
    requires
        s.in_points,
        name == "PreviewPoint"@ || name == "Point"@,
        kx == "X"@ || kx == "x"@,
        ky == "Y"@ || ky == "y"@,
    ensures
        empty_step(s, crate::importer::TagView { name, attributes: seq![(kx, v), (ky, w)] }).points
            == s.points.push(point_of(v, w)),
        empty_step(s, crate::importer::TagView { name, attributes: seq![(ky, w), (kx, v)] }).points
            == s.points.push(point_of(v, w)),
        start_step(s, crate::importer::TagView { name, attributes: seq![(kx, v), (ky, w)] }).point
            == point_of(v, w),
        start_step(s, crate::importer::TagView { name, attributes: seq![(ky, w), (kx, v)] }).point
            == point_of(v, w),
{
    lemma_point_names();
    let a1 = seq![(kx, v), (ky, w)];
    let a2 = seq![(ky, w), (kx, v)];
    assert(a1.drop_last() =~= seq![(kx, v)]);
    assert(a2.drop_last() =~= seq![(ky, w)]);
    assert(seq![(kx, v)].drop_last() =~= Seq::<(Seq<char>, Seq<char>)>::empty());
    assert(seq![(ky, w)].drop_last() =~= Seq::<(Seq<char>, Seq<char>)>::empty());
    assert(spec_strip_ns(kx) == kx && is_x_name(kx) && !is_node_key(kx));
    assert(spec_strip_ns(ky) == ky && is_y_name(ky) && !is_node_key(ky) && !is_x_name(ky));
    let e = Seq::<(Seq<char>, Seq<char>)>::empty();
    let re = attr_scan(e);
    assert(re.x.len() == 0 && re.y.len() == 0 && re.node_id.len() == 0);
    assert(seq![(kx, v)].last() == (kx, v));
    assert(seq![(ky, w)].last() == (ky, w));
    let rx = attr_scan(seq![(kx, v)]);
    assert(rx == (AttrScan { x: re.x.push(CoordStepView::Attr(v)), has_pos: true, ..re }));
    let ry = attr_scan(seq![(ky, w)]);
    assert(rx.x =~= seq![CoordStepView::Attr(v)] && rx.y.len() == 0 && rx.node_id.len() == 0);
    assert(ry.y =~= seq![CoordStepView::Attr(w)] && ry.x.len() == 0 && ry.node_id.len() == 0);
    let r1 = attr_scan(a1);
    let r2 = attr_scan(a2);
    assert(r1 == (AttrScan { y: rx.y.push(CoordStepView::Attr(w)), has_pos: true, ..rx }));
    assert(r1.x =~= seq![CoordStepView::Attr(v)]);
    assert(r1.y =~= seq![CoordStepView::Attr(w)]);
    assert(r2.x =~= seq![CoordStepView::Attr(v)]);
    assert(r2.y =~= seq![CoordStepView::Attr(w)]);
    assert(r1.node_id.len() == 0);
    assert(r2.node_id.len() == 0);
}

/// Inside a display item, a self-closing pixel tag with a node id adds a
/// pixel placed at its `X`/`x` and `Y`/`y` attributes when it has them, and
/// otherwise adds its node id to be spread along the shape.
pub proof fn lemma_pixel_tags(
    s: ScanView,
    name: Seq<char>,
    kn: Seq<char>,
    kx: Seq<char>,
    ky: Seq<char>,
    n: Seq<char>,
    v: Seq<char>,
    w: Seq<char>,
)
    requires
        s.in_item,
        name == "PreviewPixel"@ || name == "Pixel"@ || name == "LightNode"@,
        kn == "NodeId"@ || kn == "nodeId"@ || kn == "Node"@,
        kx == "X"@ || kx == "x"@,
        ky == "Y"@ || ky == "y"@,
        n.len() > 0,
    ensures
        empty_step(s, crate::importer::TagView { name, attributes: seq![(kn, n), (kx, v), (ky, w)] }).placed
            == s.placed.push(
            PlacedView { node_id: n, x: seq![CoordStepView::Attr(v)], y: seq![CoordStepView::Attr(w)] },
        ),
        empty_step(s, crate::importer::TagView { name, attributes: seq![(kn, n)] }).node_ids == s.node_ids.push(n),
        empty_step(s, crate::importer::TagView { name, attributes: seq![(kn, n)] }).placed == s.placed,
{
    lemma_point_names();
    let e = Seq::<(Seq<char>, Seq<char>)>::empty();
    let re = attr_scan(e);
    assert(re.x.len() == 0 && re.y.len() == 0 && re.node_id.len() == 0 && !re.has_pos);
    let a1 = seq![(kn, n)];
    let a2 = seq![(kn, n), (kx, v)];
    let a3 = seq![(kn, n), (kx, v), (ky, w)];
    assert(a1.drop_last() =~= e);
    assert(a2.drop_last() =~= a1);
    assert(a3.drop_last() =~= a2);
    assert(a1.last() == (kn, n));
    assert(a2.last() == (kx, v));
    assert(a3.last() == (ky, w));
    assert(spec_strip_ns(kn) == kn && is_node_key(kn));
    assert(spec_strip_ns(kx) == kx && is_x_name(kx) && !is_node_key(kx));
    assert(spec_strip_ns(ky) == ky && is_y_name(ky) && !is_node_key(ky) && !is_x_name(ky));
    let r1 = attr_scan(a1);
    assert(r1 == (AttrScan { node_id: n, ..re }));
    let r2 = attr_scan(a2);
    assert(r2 == (AttrScan { x: r1.x.push(CoordStepView::Attr(v)), has_pos: true, ..r1 }));
    let r3 = attr_scan(a3);
    assert(r3 == (AttrScan { y: r2.y.push(CoordStepView::Attr(w)), has_pos: true, ..r2 }));
    assert(r3.x =~= seq![CoordStepView::Attr(v)]);
    assert(r3.y =~= seq![CoordStepView::Attr(w)]);
}

} // verus!
