//! Reading a Vixen 3 sequence (`.tim`) file.
//!
//! A sequence file holds the effect data models (the effect class of each
//! module instance, its colours, curves, gradients and settings), the effect
//! node surrogates (when each effect runs and on which element nodes), the
//! sequence length and its media. Reading it resolves every effect against
//! the data models. Times, levels, curve points and colours are kept as the
//! texts they come from: which text counts is decided here, turning them into
//! numbers is floating-point work for the caller.

use vstd::prelude::*;
use vstd::hash_map::StringHashMap;
use vstd::string::*;

use crate::importer::{contains_chars, contains_str, events_view, is_digit, TagView, XmlEvent, XmlEventView, XmlTag};
use crate::preview::{
    document_events, empty_views, push_viewed, read_xml_events, trim_text, trimmed, views, ReadError,
};
use crate::project::{ascii_lower, to_ascii_lower};
use crate::text::{push_char, str_eq};
use crate::vixen::{spec_strip_ns, strip_ns};

verus! {

// ── Numbers and times as text ───────────────────────────────────────

/// `s` with ASCII upper-case letters in lower case.
pub open spec fn lowered(s: Seq<char>) -> Seq<char> {
    s.map_values(|c: char| ascii_lower(c))
}

/// `s` without one leading `+` or `-`.
pub open spec fn unsigned_part(s: Seq<char>) -> Seq<char> {
    if s.len() > 0 && (s[0] == '+' || s[0] == '-') {
        s.drop_first()
    } else {
        s
    }
}

/// Digits and at most one point, with at least one digit.
pub open spec fn mantissa_ok(m: Seq<char>) -> bool {
    &&& forall|i: int| 0 <= i < m.len() ==> is_digit(#[trigger] m[i]) || m[i] == '.'
    &&& forall|i: int, j: int| 0 <= i < j < m.len() ==> !(#[trigger] m[i] == '.' && #[trigger] m[j] == '.')
    &&& exists|i: int| 0 <= i < m.len() && is_digit(#[trigger] m[i])
}

/// An optional sign followed by one or more digits.
pub open spec fn exponent_ok(x: Seq<char>) -> bool {
    let d = unsigned_part(x);
    d.len() > 0 && forall|i: int| 0 <= i < d.len() ==> is_digit(#[trigger] d[i])
}

/// `k` is the index of the first `e` of `b`, or its length when it has none.
pub open spec fn first_e(b: Seq<char>, k: int) -> bool {
    &&& 0 <= k <= b.len()
    &&& k < b.len() ==> b[k] == 'e'
    &&& forall|j: int| 0 <= j < k ==> b[j] != 'e'
}

/// A decimal number: a mantissa, then optionally `e` and an exponent.
pub open spec fn number_ok(b: Seq<char>) -> bool {
    forall|k: int| #[trigger] first_e(b, k) ==> mantissa_ok(b.take(k)) && (k == b.len() || exponent_ok(b.skip(k + 1)))
}

/// Whether std's `f64` parsing accepts the text: by the grammar std
/// documents for `f64::from_str`, an optional sign followed by `inf`,
/// `infinity`, `nan` or a decimal number with an optional exponent, letters
/// in either case, nothing else (no surrounding white space).
pub open spec fn float_text(s: Seq<char>) -> bool {
    let b = unsigned_part(lowered(s));
    b == "inf"@ || b == "infinity"@ || b == "nan"@ || number_ok(b)
}

/// The text, when std's `f64` parsing accepts it.
pub open spec fn float_opt(s: Seq<char>) -> Option<Seq<char>> {
    if float_text(s) {
        Some(s)
    } else {
        None
    }
}

fn lower_text(s: &str) -> (r: String)
    ensures
        r@ == lowered(s@),
{
    let mut r = String::new();
    let n = s.unicode_len();
    let mut i: usize = 0;
    while i < n
        invariant
            i <= n,
            n == s@.len(),
            r@ == lowered(s@.take(i as int)),
        decreases n - i,
    {
        let c = to_ascii_lower(s.get_char(i));
        push_char(&mut r, c);
        assert(lowered(s@.take(i + 1)) =~= lowered(s@.take(i as int)).push(c));
        i += 1;
    }
    assert(s@.take(n as int) =~= s@);
    r
}

fn mantissa_check(b: &str, k: usize) -> (r: bool)
    requires
        k <= b@.len(),
    ensures
        r == mantissa_ok(b@.take(k as int)),
{
    let ghost m = b@.take(k as int);
    let mut dot: bool = false;
    let mut digit: bool = false;
    let mut i: usize = 0;
    while i < k
        invariant
            i <= k,
            k <= b@.len(),
            m == b@.take(k as int),
            forall|j: int| 0 <= j < i ==> is_digit(#[trigger] m[j]) || m[j] == '.',
            forall|x: int, y: int| 0 <= x < y < i ==> !(#[trigger] m[x] == '.' && #[trigger] m[y] == '.'),
            dot <==> exists|j: int| 0 <= j < i && #[trigger] m[j] == '.',
            digit <==> exists|j: int| 0 <= j < i && is_digit(#[trigger] m[j]),
        decreases k - i,
    {
        let c = b.get_char(i);
        assert(m[i as int] == c);
        if '0' <= c && c <= '9' {
            digit = true;
        } else if c == '.' {
            if dot {
                return false;
            }
            dot = true;
        } else {
            return false;
        }
        i += 1;
    }
    digit
}

fn exponent_check(x: &str) -> (r: bool)
    ensures
        r == exponent_ok(x@),
{
    let n = x.unicode_len();
    let start: usize = if n > 0 && (x.get_char(0) == '+' || x.get_char(0) == '-') {
        1
    } else {
        0
    };
    let ghost d = unsigned_part(x@);
    assert(d =~= x@.skip(start as int));
    if start >= n {
        return false;
    }
    let mut i: usize = start;
    while i < n
        invariant
            start <= i <= n,
            n == x@.len(),
            d == unsigned_part(x@),
            d =~= x@.skip(start as int),
            forall|j: int| 0 <= j < i - start ==> is_digit(#[trigger] d[j]),
        decreases n - i,
    {
        let c = x.get_char(i);
        assert(d[i - start] == c);
        if !('0' <= c && c <= '9') {
            assert(!is_digit(d[i - start]));
            return false;
        }
        i += 1;
    }
    true
}

/// Whether std's `f64` parsing accepts the text (see `float_text`).
pub fn is_float_text(s: &str) -> (r: bool)
    ensures
        r == float_text(s@),
{
    let l = lower_text(s);
    let n = l.unicode_len();
    let start: usize = if n > 0 && (l.get_char(0) == '+' || l.get_char(0) == '-') {
        1
    } else {
        0
    };
    let b = l.as_str().substring_char(start, n);
    assert(b@ =~= unsigned_part(l@));
    if str_eq(b, "inf") || str_eq(b, "infinity") || str_eq(b, "nan") {
        return true;
    }
    let m = b.unicode_len();
    let mut k: usize = 0;
    while k < m && b.get_char(k) != 'e'
        invariant
            k <= m,
            m == b@.len(),
            forall|j: int| 0 <= j < k ==> b@[j] != 'e',
        decreases m - k,
    {
        k += 1;
    }
    assert(first_e(b@, k as int));
    proof {
        assert forall|k2: int| #[trigger] first_e(b@, k2) implies k2 == k by {
            if k2 < k {
                assert(b@[k2] != 'e');
            } else if k2 > k {
                assert(b@[k as int] == 'e');
            }
        }
    }
    if !mantissa_check(b, k) {
        return false;
    }
    if k == m {
        return true;
    }
    let rest = b.substring_char(k + 1, m);
    assert(rest@ =~= b@.skip(k + 1));
    exponent_check(rest)
}

/// Whether the chunks of an ISO 8601 duration, after its `P`, are numbers:
/// each run of characters ended by `D`, or by `H`, `M` or `S` after the
/// `T`, must parse as a number; a `T` starts the time part afresh; what
/// follows the last such letter is ignored.
pub open spec fn iso_chunks_ok(rest: Seq<char>, time: bool, num: Seq<char>) -> bool
    decreases rest.len(),
{
    if rest.len() == 0 {
        true
    } else {
        let c = rest[0];
        if c == 'T' {
            iso_chunks_ok(rest.drop_first(), true, Seq::empty())
        } else if c == 'D' || (time && (c == 'H' || c == 'M' || c == 'S')) {
            float_text(num) && iso_chunks_ok(rest.drop_first(), time, Seq::empty())
        } else {
            iso_chunks_ok(rest.drop_first(), time, num.push(c))
        }
    }
}

/// Whether a text reads as an ISO 8601 duration (`P…`, surrounding white
/// space ignored) in the way the importer's duration parser accepts it.
pub open spec fn iso_ok(s: Seq<char>) -> bool {
    let t = trimmed(s);
    t.len() > 0 && t[0] == 'P' && iso_chunks_ok(t.drop_first(), false, Seq::empty())
}

/// The text, when it reads as an ISO 8601 duration.
pub open spec fn iso_opt(s: Seq<char>) -> Option<Seq<char>> {
    if iso_ok(s) {
        Some(s)
    } else {
        None
    }
}

/// Whether a text reads as an ISO 8601 duration (see `iso_ok`).
pub fn is_iso_duration(s: &str) -> (r: bool)
    ensures
        r == iso_ok(s@),
{
    let t = trim_text(s);
    let n = t.unicode_len();
    if n == 0 || t.get_char(0) != 'P' {
        return false;
    }
    let ghost all = t@.drop_first();
    let mut time: bool = false;
    let mut num = String::new();
    let mut i: usize = 1;
    assert(t@.skip(1) =~= all);
    while i < n
        invariant
            1 <= i <= n,
            n == t@.len(),
            t@ == trimmed(s@),
            t@[0] == 'P',
            all == t@.drop_first(),
            iso_chunks_ok(all, false, Seq::empty()) == iso_chunks_ok(t@.skip(i as int), time, num@),
        decreases n - i,
    {
        let c = t.get_char(i);
        assert(t@.skip(i as int)[0] == c);
        assert(t@.skip(i as int).drop_first() =~= t@.skip(i + 1));
        if c == 'T' {
            time = true;
            num = String::new();
        } else if c == 'D' || (time && (c == 'H' || c == 'M' || c == 'S')) {
            if !is_float_text(num.as_str()) {
                assert(!iso_chunks_ok(t@.skip(i as int), time, num@));
                return false;
            }
            num = String::new();
        } else {
            push_char(&mut num, c);
        }
        i += 1;
    }
    true
}

/// Whether std's `bool` parsing accepts the text: exactly `true` or `false`.
pub open spec fn bool_text(s: Seq<char>) -> Option<bool> {
    if s == "true"@ {
        Some(true)
    } else if s == "false"@ {
        Some(false)
    } else {
        None
    }
}

fn parse_bool(s: &str) -> (r: Option<bool>)
    ensures
        r == bool_text(s@),
{
    if str_eq(s, "true") {
        Some(true)
    } else if str_eq(s, "false") {
        Some(false)
    } else {
        None
    }
}

/// `acc` with the trimmed `cur` added when it is not empty.
pub open spec fn keep_id(acc: Seq<Seq<char>>, cur: Seq<char>) -> Seq<Seq<char>> {
    if trimmed(cur).len() > 0 {
        acc.push(trimmed(cur))
    } else {
        acc
    }
}

/// The non-empty trimmed pieces of a `;`-separated list, added to `acc`.
pub open spec fn split_ids(s: Seq<char>, cur: Seq<char>, acc: Seq<Seq<char>>) -> Seq<Seq<char>>
    decreases s.len(),
{
    if s.len() == 0 {
        keep_id(acc, cur)
    } else if s[0] == ';' {
        split_ids(s.drop_first(), Seq::empty(), keep_id(acc, cur))
    } else {
        split_ids(s.drop_first(), cur.push(s[0]), acc)
    }
}

/// Adds the ids of a `;`-separated list to `out`.
fn push_ids(out: &mut Vec<String>, s: &str)
    ensures
        views(final(out)@) == split_ids(s@, Seq::empty(), views(old(out)@)),
{
    let n = s.unicode_len();
    let mut cur = String::new();
    let mut i: usize = 0;
    assert(s@.skip(0) =~= s@);
    while i < n
        invariant
            i <= n,
            n == s@.len(),
            split_ids(s@, Seq::empty(), views(old(out)@)) == split_ids(s@.skip(i as int), cur@, views(out@)),
        decreases n - i,
    {
        let c = s.get_char(i);
        assert(s@.skip(i as int)[0] == c);
        assert(s@.skip(i as int).drop_first() =~= s@.skip(i + 1));
        if c == ';' {
            let t = trim_text(cur.as_str());
            if t.unicode_len() > 0 {
                push_viewed(out, t);
            }
            cur = String::new();
        } else {
            push_char(&mut cur, c);
        }
        i += 1;
    }
    let t = trim_text(cur.as_str());
    if t.unicode_len() > 0 {
        push_viewed(out, t);
    }
}

/// `s` after its last `.`, or `s` when it has none.
pub open spec fn after_last_dot(s: Seq<char>) -> Seq<char>
    decreases s.len(),
{
    if s.len() == 0 {
        s
    } else if s.last() == '.' {
        Seq::empty()
    } else {
        after_last_dot(s.drop_last()).push(s.last())
    }
}

fn after_dot(name: &str) -> (r: &str)
    ensures
        r@ == after_last_dot(name@),
{
    let n = name.unicode_len();
    let mut start = n;
    assert(name@.take(n as int) =~= name@);
    assert(name@.subrange(n as int, n as int) =~= Seq::<char>::empty());
    while start > 0 && name.get_char(start - 1) != '.'
        invariant
            start <= n,
            n == name@.len(),
            after_last_dot(name@) == after_last_dot(name@.take(start as int)) + name@.subrange(
                start as int,
                n as int,
            ),
        decreases start,
    {
        assert(name@.take(start as int).drop_last() =~= name@.take(start - 1));
        assert(name@.subrange(start - 1, n as int) =~= seq![name@[start - 1]] + name@.subrange(
            start as int,
            n as int,
        ));
        start -= 1;
    }
    proof {
        assert(after_last_dot(name@.take(start as int)) =~= Seq::<char>::empty()) by {
            if start > 0 {
                assert(name@.take(start as int).last() == '.');
            }
        }
    }
    let r = name.substring_char(start, n);
    assert(r@ =~= after_last_dot(name@));
    r
}

/// Whether `s` ends with `t`.
pub open spec fn ends_with(s: Seq<char>, t: Seq<char>) -> bool {
    t.len() <= s.len() && s.skip(s.len() - t.len()) == t
}

fn ends_with_exec(s: &str, t: &str) -> (r: bool)
    ensures
        r == ends_with(s@, t@),
{
    let n = s.unicode_len();
    let m = t.unicode_len();
    if m > n {
        return false;
    }
    let tail = s.substring_char(n - m, n);
    assert(tail@ =~= s@.skip(n - m));
    str_eq(tail, t)
}

/// The effect class named by a data model's type attribute: the part after
/// the namespace prefix and after the last `.`, without a trailing
/// `Module` or else `Data` (`d2p1:PinWheelData` gives `PinWheel`).
pub open spec fn effect_class(val: Seq<char>) -> Seq<char> {
    let c = after_last_dot(spec_strip_ns(val));
    if ends_with(c, "Module"@) {
        c.take(c.len() - 6)
    } else if ends_with(c, "Data"@) {
        c.take(c.len() - 4)
    } else {
        c
    }
}

fn effect_class_exec(val: &str) -> (r: String)
    ensures
        r@ == effect_class(val@),
{
    let c = after_dot(strip_ns(val));
    proof {
        reveal_strlit("Module");
        reveal_strlit("Data");
    }
    let n = c.unicode_len();
    if ends_with_exec(c, "Module") {
        String::from_str(c.substring_char(0, n - 6))
    } else if ends_with_exec(c, "Data") {
        String::from_str(c.substring_char(0, n - 4))
    } else {
        String::from_str(c)
    }
}

// ── What a sequence holds ───────────────────────────────────────────

/// An optional value by its view.
pub open spec fn oview<V: View>(o: Option<V>) -> Option<V::V> {
    match o {
        Some(v) => Some(v@),
        None => None,
    }
}

/// A colour as the texts it is given by: CIE XYZ components (0–100
/// scale), or red, green and blue on a 0–1 scale. Each text parses as a
/// number.
#[derive(Debug, Clone, PartialEq, Eq)]
pub enum ColorText {
    Xyz(String, String, String),
    Rgb(String, String, String),
}

/// The contents of a `ColorText`.
pub ghost enum ColorView {
    Xyz(Seq<char>, Seq<char>, Seq<char>),
    Rgb(Seq<char>, Seq<char>, Seq<char>),
}

impl View for ColorText {
    type V = ColorView;

    open spec fn view(&self) -> ColorView {
        match self {
            ColorText::Xyz(x, y, z) => ColorView::Xyz(x@, y@, z@),
            ColorText::Rgb(r, g, b) => ColorView::Rgb(r@, g@, b@),
        }
    }
}

/// A gradient stop: its position text (none reads as 0) and its colour (none
/// reads as white).
#[derive(Debug, Clone, PartialEq, Eq)]
pub struct StopText {
    pub position: Option<String>,
    pub color: Option<ColorText>,
}

/// The contents of a `StopText`.
pub ghost struct StopView {
    pub position: Option<Seq<char>>,
    pub color: Option<ColorView>,
}

impl View for StopText {
    type V = StopView;

    open spec fn view(&self) -> StopView {
        StopView { position: oview(self.position), color: oview(self.color) }
    }
}

/// The points of a curve, each an x and a y text that parse as numbers.
#[derive(Debug, Clone, PartialEq, Eq)]
pub struct CurveText {
    pub points: Vec<(String, String)>,
}

impl View for CurveText {
    type V = Seq<(Seq<char>, Seq<char>)>;

    open spec fn view(&self) -> Seq<(Seq<char>, Seq<char>)> {
        views(self.points@)
    }
}

/// The stops of a colour gradient.
#[derive(Debug, Clone, PartialEq, Eq)]
pub struct GradientText {
    pub stops: Vec<StopText>,
}

impl View for GradientText {
    type V = Seq<StopView>;

    open spec fn view(&self) -> Seq<StopView> {
        views(self.stops@)
    }
}

/// Values that can be copied with their view kept.
pub trait Copyable: View + Sized {
    fn copy(&self) -> (r: Self)
        ensures
            r@ == self@,
    ;
}

impl Copyable for String {
    fn copy(&self) -> (r: Self) {
        self.clone()
    }
}

impl Copyable for bool {
    fn copy(&self) -> (r: Self) {
        *self
    }
}

impl Copyable for ColorText {
    fn copy(&self) -> (r: Self) {
        match self {
            ColorText::Xyz(x, y, z) => ColorText::Xyz(x.clone(), y.clone(), z.clone()),
            ColorText::Rgb(r, g, b) => ColorText::Rgb(r.clone(), g.clone(), b.clone()),
        }
    }
}

fn copy_opt<V: Copyable>(o: &Option<V>) -> (r: Option<V>)
    ensures
        oview(r) == oview(*o),
{
    match o {
        Some(v) => Some(v.copy()),
        None => None,
    }
}

impl Copyable for StopText {
    fn copy(&self) -> (r: Self) {
        StopText { position: copy_opt(&self.position), color: copy_opt(&self.color) }
    }
}

fn copy_pairs(v: &Vec<(String, String)>) -> (r: Vec<(String, String)>)
    ensures
        views(r@) == views(v@),
{
    let mut points: Vec<(String, String)> = Vec::new();
    let mut i: usize = 0;
    while i < v.len()
        invariant
            i <= v@.len(),
            views(points@) =~= views(v@).take(i as int),
        decreases v@.len() - i,
    {
        let p = (v[i].0.clone(), v[i].1.clone());
        push_viewed(&mut points, p);
        assert(views(v@).take(i + 1) =~= views(v@).take(i as int).push(v@[i as int]@));
        i += 1;
    }
    assert(views(v@).take(v@.len() as int) =~= views(v@));
    points
}

fn copy_stops(v: &Vec<StopText>) -> (r: Vec<StopText>)
    ensures
        views(r@) == views(v@),
{
    let mut stops: Vec<StopText> = Vec::new();
    let mut i: usize = 0;
    while i < v.len()
        invariant
            i <= v@.len(),
            views(stops@) =~= views(v@).take(i as int),
        decreases v@.len() - i,
    {
        let p = v[i].copy();
        push_viewed(&mut stops, p);
        assert(views(v@).take(i + 1) =~= views(v@).take(i as int).push(v@[i as int]@));
        i += 1;
    }
    assert(views(v@).take(v@.len() as int) =~= views(v@));
    stops
}

impl Copyable for CurveText {
    fn copy(&self) -> (r: Self) {
        CurveText { points: copy_pairs(&self.points) }
    }
}

impl Copyable for GradientText {
    fn copy(&self) -> (r: Self) {
        GradientText { stops: copy_stops(&self.stops) }
    }
}

// ── Tables keyed by id ──────────────────────────────────────────────

/// A table's values by their views.
pub open spec fn vmap<V: View>(m: Map<Seq<char>, V>) -> Map<Seq<char>, V::V> {
    m.map_values(|v: V| v@)
}

/// `m` with `k` given `v` unless it already has a value.
pub open spec fn put_absent<V>(m: Map<Seq<char>, V>, k: Seq<char>, v: V) -> Map<Seq<char>, V> {
    if m.contains_key(k) {
        m
    } else {
        m.insert(k, v)
    }
}

/// `m` with the value of `from` also under `to`, unless `to` has one.
pub open spec fn copy_absent<V>(m: Map<Seq<char>, V>, from: Seq<char>, to: Seq<char>) -> Map<Seq<char>, V> {
    if m.contains_key(from) {
        put_absent(m, to, m[from])
    } else {
        m
    }
}

/// The value of `a` in `m1`, else that of `b` in `m2`.
pub open spec fn lookup2<V>(m1: Map<Seq<char>, V>, a: Seq<char>, m2: Map<Seq<char>, V>, b: Seq<char>) -> Option<V> {
    if m1.contains_key(a) {
        Some(m1[a])
    } else if m2.contains_key(b) {
        Some(m2[b])
    } else {
        None
    }
}

fn put<V: View>(m: &mut StringHashMap<V>, k: String, v: V)
    ensures
        vmap(final(m)@) == vmap(old(m)@).insert(k@, v@),
{
    let ghost kv = k@;
    let ghost vv = v@;
    m.insert(k, v);
    assert(vmap(m@) =~= vmap(old(m)@).insert(kv, vv));
}

fn put_if_absent<V: View>(m: &mut StringHashMap<V>, k: &str, v: V)
    ensures
        vmap(final(m)@) == put_absent(vmap(old(m)@), k@, v@),
{
    if !m.contains_key(k) {
        put(m, String::from_str(k), v);
    }
}

fn fetch<V: Copyable>(m: &StringHashMap<V>, k: &str) -> (r: Option<V>)
    ensures
        r is Some == vmap(m@).contains_key(k@),
        r matches Some(v) ==> v@ == vmap(m@)[k@],
{
    match m.get(k) {
        Some(v) => Some(v.copy()),
        None => None,
    }
}

fn fetch2<V: Copyable>(m1: &StringHashMap<V>, a: &str, m2: &StringHashMap<V>, b: &str) -> (r: Option<V>)
    ensures
        oview(r) == lookup2(vmap(m1@), a@, vmap(m2@), b@),
{
    match fetch(m1, a) {
        Some(v) => Some(v),
        None => fetch(m2, b),
    }
}

fn copy_if_absent<V: Copyable>(m: &mut StringHashMap<V>, from: &str, to: &str)
    ensures
        vmap(final(m)@) == copy_absent(vmap(old(m)@), from@, to@),
{
    match fetch(m, from) {
        Some(v) => put_if_absent(m, to, v),
        None => {},
    }
}

// ── Reading the sequence ────────────────────────────────────────────

/// Which kind of curve a data model's curve element holds.
#[derive(Debug, Clone, Copy, PartialEq, Eq, Structural)]
pub enum CurveKind {
    Movement,
    Pulse,
    Intensity,
}

/// Tags of the data-model list.
pub open spec fn is_models_tag(t: Seq<char>) -> bool {
    t == "_dataModels"@ || t == "DataModels"@
}

/// Tags of the effect-node list.
pub open spec fn is_nodes_tag(t: Seq<char>) -> bool {
    t == "_effectNodeSurrogates"@ || t == "EffectNodeSurrogates"@
}

/// Tags of the media list.
pub open spec fn is_media_tag(t: Seq<char>) -> bool {
    t == "_mediaSurrogates"@ || t == "MediaSurrogates"@
}

/// Local names of movement curves.
pub open spec fn is_movement_name(l: Seq<char>) -> bool {
    l == "ChaseMovement"@ || l == "MovementCurve"@ || l == "WipeMovement"@
}

/// Local names of intensity curves.
pub open spec fn is_intensity_name(l: Seq<char>) -> bool {
    l == "LevelCurve"@ || l == "IntensityCurve"@ || l == "Curve"@ || l == "DissolveCurve"@
        || l == "AccelerationCurve"@ || l == "SpeedCurve"@ || l == "Height"@
}

/// Local names of any curve.
pub open spec fn is_curve_name(l: Seq<char>) -> bool {
    is_movement_name(l) || l == "PulseCurve"@ || is_intensity_name(l)
}

/// Elements whose text is a data model's colour handling.
pub open spec fn is_handling_element(e: Seq<char>) -> bool {
    e == "ColorHandling"@ || e == "ColorMode"@ || e == "_colorHandling"@
}

/// Elements whose text names the media file.
pub open spec fn is_media_file_element(e: Seq<char>) -> bool {
    e == "FilePath"@ || e == "FileName"@ || e == "MediaFilePath"@ || ends_with(e, ":FilePath"@)
        || ends_with(e, ":FileName"@) || ends_with(e, ":RelativeAudioPath"@)
}

/// The effect class and id that a data-model tag's attributes give (keys
/// without namespace prefix; the last of a repeated key counts).
pub open spec fn model_attrs(a: Seq<(Seq<char>, Seq<char>)>) -> (Seq<char>, Seq<char>)
    decreases a.len(),
{
    if a.len() == 0 {
        (Seq::empty(), Seq::empty())
    } else {
        let r = model_attrs(a.drop_last());
        let k = spec_strip_ns(a.last().0);
        let v = a.last().1;
        if k == "type"@ || k == "Type"@ || k == "typeName"@ {
            (effect_class(v), r.1)
        } else if k == "id"@ || k == "Id"@ {
            (r.0, v)
        } else {
            r
        }
    }
}

/// What an effect node's attributes give: its start and duration texts
/// (where they read as durations), its module type id and its instance id.
pub ghost struct NodeAttrs {
    pub start: Option<Seq<char>>,
    pub duration: Option<Seq<char>>,
    pub module: Seq<char>,
    pub instance: Seq<char>,
}

/// The fields an effect node's attributes give (the last of a repeated key
/// counts; a start or duration that does not read as one reads as none).
pub open spec fn node_attrs(a: Seq<(Seq<char>, Seq<char>)>) -> NodeAttrs
    decreases a.len(),
{
    if a.len() == 0 {
        NodeAttrs { start: None, duration: None, module: Seq::empty(), instance: Seq::empty() }
    } else {
        let r = node_attrs(a.drop_last());
        let k = a.last().0;
        let v = a.last().1;
        if k == "startTime"@ || k == "StartTime"@ {
            NodeAttrs { start: iso_opt(v), ..r }
        } else if k == "timeSpan"@ || k == "TimeSpan"@ || k == "duration"@ || k == "Duration"@ {
            NodeAttrs { duration: iso_opt(v), ..r }
        } else if k == "typeId"@ || k == "TypeId"@ {
            NodeAttrs { module: v, ..r }
        } else if k == "moduleInstanceId"@ || k == "ModuleInstanceId"@ || k == "instanceId"@ || k == "InstanceId"@ {
            NodeAttrs { instance: v, ..r }
        } else {
            r
        }
    }
}

/// The X, Y and Z attribute texts of a colour tag, each where it parses as a
/// number (the last of a repeated key counts).
pub open spec fn xyz_attrs(a: Seq<(Seq<char>, Seq<char>)>) -> (Option<Seq<char>>, Option<Seq<char>>, Option<Seq<char>>)
    decreases a.len(),
{
    if a.len() == 0 {
        (None, None, None)
    } else {
        let r = xyz_attrs(a.drop_last());
        let k = a.last().0;
        let v = a.last().1;
        if k == "X"@ || k == "x"@ {
            (float_opt(v), r.1, r.2)
        } else if k == "Y"@ || k == "y"@ {
            (r.0, float_opt(v), r.2)
        } else if k == "Z"@ || k == "z"@ {
            (r.0, r.1, float_opt(v))
        } else {
            r
        }
    }
}

/// The colour of three component texts, when all three are there.
pub open spec fn color_of3(
    x: Option<Seq<char>>,
    y: Option<Seq<char>>,
    z: Option<Seq<char>>,
    rgb: bool,
) -> Option<ColorView> {
    match (x, y, z) {
        (Some(a), Some(b), Some(c)) => if rgb {
            Some(ColorView::Rgb(a, b, c))
        } else {
            Some(ColorView::Xyz(a, b, c))
        },
        _ => None,
    }
}

/// The data-model tables, each keyed by module instance id or module type
/// id: effect classes by instance, effect classes by type, colours,
/// movement, pulse and intensity curves, gradients, colour handling,
/// levels, spin revolution counts, pulse percentages and pulse times,
/// spin reversal and direction.
pub ghost struct TablesView {
    pub types: Map<Seq<char>, Seq<char>>,
    pub class_types: Map<Seq<char>, Seq<char>>,
    pub colors: Map<Seq<char>, ColorView>,
    pub movement: Map<Seq<char>, Seq<(Seq<char>, Seq<char>)>>,
    pub pulse: Map<Seq<char>, Seq<(Seq<char>, Seq<char>)>>,
    pub intensity: Map<Seq<char>, Seq<(Seq<char>, Seq<char>)>>,
    pub gradients: Map<Seq<char>, Seq<StopView>>,
    pub handling: Map<Seq<char>, Seq<char>>,
    pub levels: Map<Seq<char>, Seq<char>>,
    pub revolutions: Map<Seq<char>, Seq<char>>,
    pub percentages: Map<Seq<char>, Seq<char>>,
    pub pulse_times: Map<Seq<char>, Seq<char>>,
    pub reverse: Map<Seq<char>, bool>,
    pub directions: Map<Seq<char>, Seq<char>>,
}

/// An effect of the sequence, resolved against the data models.
pub ghost struct EffectView {
    pub class_name: Seq<char>,
    pub start: Option<Seq<char>>,
    pub duration: Option<Seq<char>>,
    pub targets: Seq<Seq<char>>,
    pub color: Option<ColorView>,
    pub movement_curve: Option<Seq<(Seq<char>, Seq<char>)>>,
    pub pulse_curve: Option<Seq<(Seq<char>, Seq<char>)>>,
    pub intensity_curve: Option<Seq<(Seq<char>, Seq<char>)>>,
    pub gradient: Option<Seq<StopView>>,
    pub color_handling: Option<Seq<char>>,
    pub level: Option<Seq<char>>,
    pub revolution_count: Option<Seq<char>>,
    pub pulse_percentage: Option<Seq<char>>,
    pub pulse_time_ms: Option<Seq<char>>,
    pub reverse_spin: Option<bool>,
    pub direction: Option<Seq<char>>,
}

/// The state of reading a sequence document.
pub ghost struct SeqScanView {
    pub tables: TablesView,
    pub element: Seq<char>,
    pub in_models: bool,
    pub in_nodes: bool,
    pub in_media: bool,
    pub effect_type: Seq<char>,
    pub start: Option<Seq<char>>,
    pub duration: Option<Seq<char>>,
    pub targets: Seq<Seq<char>>,
    pub effect_color: Option<ColorView>,
    pub model_id: Seq<char>,
    pub model_type_id: Seq<char>,
    pub in_entry: bool,
    pub entry_depth: int,
    pub points: Seq<(Seq<char>, Seq<char>)>,
    pub stops: Seq<StopView>,
    pub in_curve: bool,
    pub curve_kind: CurveKind,
    pub in_gradient: bool,
    pub handling: Seq<char>,
    pub in_pair: bool,
    pub pair_x: Option<Seq<char>>,
    pub pair_y: Option<Seq<char>>,
    pub in_point: bool,
    pub point_position: Option<Seq<char>>,
    pub in_point_color: bool,
    pub pc_x: Option<Seq<char>>,
    pub pc_y: Option<Seq<char>>,
    pub pc_z: Option<Seq<char>>,
    pub in_direct: bool,
    pub dc_r: Option<Seq<char>>,
    pub dc_g: Option<Seq<char>>,
    pub dc_b: Option<Seq<char>>,
    pub in_node: bool,
    pub module_id: Seq<char>,
    pub instance_id: Seq<char>,
    pub node_depth: int,
    pub depth: int,
    pub length: Option<Seq<char>>,
    pub audio: Option<Seq<char>>,
    pub effects: Seq<EffectView>,
}

/// A start tag opens the model, effect-node or media list it names.
pub open spec fn start_lists(s: SeqScanView, tag: Seq<char>) -> SeqScanView {
    SeqScanView {
        in_models: s.in_models || is_models_tag(tag),
        in_nodes: s.in_nodes || is_nodes_tag(tag),
        in_media: s.in_media || is_media_tag(tag),
        ..s
    }
}

/// Inside the model list, outside an entry, an `anyType` tag or one whose
/// name holds `DataModel` opens an entry at this depth, with the class and
/// id of its attributes.
pub open spec fn start_entry(s: SeqScanView, tag: Seq<char>, a: Seq<(Seq<char>, Seq<char>)>) -> SeqScanView {
    if s.in_models && !s.in_entry && (spec_strip_ns(tag) == "anyType"@ || contains_chars(tag, "DataModel"@)) {
        SeqScanView {
            in_entry: true,
            entry_depth: s.depth,
            model_id: model_attrs(a).1,
            model_type_id: Seq::empty(),
            effect_type: model_attrs(a).0,
            ..s
        }
    } else {
        s
    }
}

/// Inside the effect-node list, outside a node, an `EffectNodeSurrogate`
/// opens a node at this depth, with no targets or colour and the timing and
/// ids of its attributes.
pub open spec fn start_node(s: SeqScanView, tag: Seq<char>, a: Seq<(Seq<char>, Seq<char>)>) -> SeqScanView {
    if s.in_nodes && !s.in_node && tag == "EffectNodeSurrogate"@ {
        let n = node_attrs(a);
        SeqScanView {
            in_node: true,
            node_depth: s.depth,
            start: n.start,
            duration: n.duration,
            targets: Seq::empty(),
            effect_color: None,
            module_id: n.module,
            instance_id: n.instance,
            ..s
        }
    } else {
        s
    }
}

/// Inside an entry, a curve element opens a curve of its kind, a
/// `ColorGradient` a gradient.
pub open spec fn parts_open(s: SeqScanView, l: Seq<char>) -> SeqScanView {
    if is_movement_name(l) {
        SeqScanView { in_curve: true, curve_kind: CurveKind::Movement, points: Seq::empty(), ..s }
    } else if l == "PulseCurve"@ {
        SeqScanView { in_curve: true, curve_kind: CurveKind::Pulse, points: Seq::empty(), ..s }
    } else if is_intensity_name(l) {
        SeqScanView { in_curve: true, curve_kind: CurveKind::Intensity, points: Seq::empty(), ..s }
    } else if l == "ColorGradient"@ {
        SeqScanView { in_gradient: true, stops: Seq::empty(), ..s }
    } else {
        s
    }
}

/// A `PointPair` inside a curve opens a point.
pub open spec fn parts_pair(s: SeqScanView, l: Seq<char>) -> SeqScanView {
    if s.in_curve && l == "PointPair"@ {
        SeqScanView { in_pair: true, pair_x: None, pair_y: None, ..s }
    } else {
        s
    }
}

/// A `ColorPoint` inside a gradient opens a stop.
pub open spec fn parts_stop(s: SeqScanView, l: Seq<char>) -> SeqScanView {
    if s.in_gradient && l == "ColorPoint"@ {
        SeqScanView { in_point: true, point_position: None, ..s }
    } else {
        s
    }
}

/// A `_color` inside a stop opens its colour.
pub open spec fn parts_stop_color(s: SeqScanView, l: Seq<char>) -> SeqScanView {
    if s.in_point && l == "_color"@ {
        SeqScanView { in_point_color: true, pc_x: None, pc_y: None, pc_z: None, ..s }
    } else {
        s
    }
}

/// A `color` outside gradients and stops opens a direct colour.
pub open spec fn parts_direct(s: SeqScanView, l: Seq<char>) -> SeqScanView {
    if l == "color"@ && !s.in_gradient && !s.in_point {
        SeqScanView { in_direct: true, dc_r: None, dc_g: None, dc_b: None, ..s }
    } else {
        s
    }
}

/// Inside an entry: curves and gradients open, then points, stops, stop
/// colours and direct colours.
pub open spec fn start_parts(s: SeqScanView, l: Seq<char>) -> SeqScanView {
    if !s.in_entry {
        s
    } else {
        parts_direct(parts_stop_color(parts_stop(parts_pair(parts_open(s, l), l), l), l), l)
    }
}

/// A new effect colour, which also becomes the current data model's colour
/// when `to_model` holds and the model has an id.
pub open spec fn set_color(s: SeqScanView, c: ColorView, to_model: bool) -> SeqScanView {
    SeqScanView {
        tables: if to_model && s.model_id.len() > 0 {
            TablesView { colors: s.tables.colors.insert(s.model_id, c), ..s.tables }
        } else {
            s.tables
        },
        effect_color: Some(c),
        ..s
    }
}

/// A `Color` tag inside an entry or a node whose X, Y and Z attributes all
/// parse as numbers sets the colour.
pub open spec fn tag_color(s: SeqScanView, is_color: bool, a: Seq<(Seq<char>, Seq<char>)>) -> SeqScanView {
    let x = xyz_attrs(a);
    if (s.in_entry || s.in_node) && is_color {
        match color_of3(x.0, x.1, x.2, false) {
            Some(c) => set_color(s, c, s.in_entry),
            None => s,
        }
    } else {
        s
    }
}

/// A start tag: one level deeper, and the current element.
pub open spec fn seq_start(s: SeqScanView, t: TagView) -> SeqScanView {
    let tag = t.name;
    let s1 = start_lists(SeqScanView { depth: s.depth + 1, element: tag, ..s }, tag);
    let s2 = start_entry(s1, tag, t.attributes);
    let s3 = start_node(s2, tag, t.attributes);
    let s4 = start_parts(s3, spec_strip_ns(tag));
    tag_color(s4, tag == "Color"@, t.attributes)
}

/// Text inside an entry, after the entry's ids and colour handling: the
/// coordinates of a point, the components of a stop's colour, a stop's
/// position, the components of a direct colour, or (for a model with an id)
/// its level, spin settings and direction. Numbers count only where they
/// parse; a coordinate or component that does not parse is cleared.
pub open spec fn entry_text(s: SeqScanView, l: Seq<char>, t: Seq<char>) -> SeqScanView {
    if s.in_pair {
        if l == "X"@ {
            SeqScanView { pair_x: float_opt(t), ..s }
        } else if l == "Y"@ {
            SeqScanView { pair_y: float_opt(t), ..s }
        } else {
            s
        }
    } else if s.in_point_color {
        if l == "_x"@ || l == "X"@ {
            SeqScanView { pc_x: float_opt(t), ..s }
        } else if l == "_y"@ || l == "Y"@ {
            SeqScanView { pc_y: float_opt(t), ..s }
        } else if l == "_z"@ || l == "Z"@ {
            SeqScanView { pc_z: float_opt(t), ..s }
        } else {
            s
        }
    } else if s.in_point {
        if l == "_position"@ || l == "Position"@ {
            SeqScanView { point_position: float_opt(t), ..s }
        } else {
            s
        }
    } else if s.in_direct {
        if l == "_r"@ || l == "R"@ {
            SeqScanView { dc_r: float_opt(t), ..s }
        } else if l == "_g"@ || l == "G"@ {
            SeqScanView { dc_g: float_opt(t), ..s }
        } else if l == "_b"@ || l == "B"@ {
            SeqScanView { dc_b: float_opt(t), ..s }
        } else {
            s
        }
    } else if s.in_entry && s.model_id.len() > 0 {
        let id = s.model_id;
        let tb = s.tables;
        let tb2 = if (l == "level"@ || l == "Level"@ || l == "IntensityLevel"@) && float_text(t) {
            TablesView { levels: tb.levels.insert(id, t), ..tb }
        } else if l == "RevolutionCount"@ && float_text(t) {
            TablesView { revolutions: tb.revolutions.insert(id, t), ..tb }
        } else if l == "PulsePercentage"@ && float_text(t) {
            TablesView { percentages: tb.percentages.insert(id, t), ..tb }
        } else if l == "PulseTime"@ && float_text(t) {
            TablesView { pulse_times: tb.pulse_times.insert(id, t), ..tb }
        } else if l == "ReverseSpin"@ && bool_text(t) is Some {
            TablesView { reverse: tb.reverse.insert(id, bool_text(t)->0), ..tb }
        } else if l == "Direction"@ || l == "WipeDirection"@ {
            TablesView { directions: tb.directions.insert(id, t), ..tb }
        } else {
            tb
        };
        SeqScanView { tables: tb2, ..s }
    } else {
        s
    }
}

/// Text inside an effect node: its start and duration (where they read as
/// durations), a target node id, a `;`-separated target list, its module
/// type id and its instance id.
pub open spec fn node_text(s: SeqScanView, e: Seq<char>, t: Seq<char>) -> SeqScanView {
    if (e == "StartTime"@ || e == "startTime"@) && iso_ok(t) {
        SeqScanView { start: Some(t), ..s }
    } else if (e == "TimeSpan"@ || e == "timeSpan"@ || e == "Duration"@) && iso_ok(t) {
        SeqScanView { duration: Some(t), ..s }
    } else if e == "NodeId"@ {
        SeqScanView { targets: keep_id(s.targets, t), ..s }
    } else if e == "TargetNodeId"@ || e == "TargetNodes"@ {
        SeqScanView { targets: split_ids(t, Seq::empty(), s.targets), ..s }
    } else if e == "TypeId"@ || e == "typeId"@ {
        SeqScanView { module_id: t, ..s }
    } else if e == "InstanceId"@ {
        SeqScanView { instance_id: t, ..s }
    } else {
        s
    }
}

/// Text content, trimmed; empty text changes nothing. The first rule that
/// applies counts: a model's instance id, type id and colour handling, the
/// entry's other texts, the sequence length (where it reads as a
/// duration), the node's texts, and the media file name.
pub open spec fn seq_text(s: SeqScanView, raw: Seq<char>) -> SeqScanView {
    let t = trimmed(raw);
    let e = s.element;
    let l = spec_strip_ns(e);
    if t.len() == 0 {
        s
    } else if s.in_entry && e == "ModuleInstanceId"@ {
        SeqScanView { model_id: t, ..s }
    } else if s.in_entry && e == "ModuleTypeId"@ {
        SeqScanView { model_type_id: t, ..s }
    } else if s.in_entry && is_handling_element(e) {
        SeqScanView { handling: t, ..s }
    } else if s.in_pair || s.in_point_color || s.in_point || s.in_direct || s.in_entry {
        entry_text(s, l, t)
    } else if e == "Length"@ {
        if iso_ok(t) {
            SeqScanView { length: Some(t), ..s }
        } else {
            s
        }
    } else if s.in_node {
        node_text(s, e, t)
    } else if s.in_media && is_media_file_element(e) {
        SeqScanView { audio: Some(t), ..s }
    } else {
        s
    }
}

/// The end of a point: with both coordinates it joins the curve.
pub open spec fn end_pair(s: SeqScanView, l: Seq<char>) -> SeqScanView {
    if s.in_pair && l == "PointPair"@ {
        SeqScanView {
            points: match (s.pair_x, s.pair_y) {
                (Some(x), Some(y)) => s.points.push((x, y)),
                _ => s.points,
            },
            in_pair: false,
            ..s
        }
    } else {
        s
    }
}

/// The end of a stop's colour: with all components it becomes the effect
/// colour and the model's, and the components are cleared.
pub open spec fn end_stop_color(s: SeqScanView, l: Seq<char>) -> SeqScanView {
    if s.in_point_color && l == "_color"@ {
        let s1 = match color_of3(s.pc_x, s.pc_y, s.pc_z, false) {
            Some(c) => SeqScanView { pc_x: None, pc_y: None, pc_z: None, ..set_color(s, c, true) },
            None => s,
        };
        SeqScanView { in_point_color: false, ..s1 }
    } else {
        s
    }
}

/// The end of a stop: it joins the gradient with its position and the
/// current effect colour.
pub open spec fn end_stop(s: SeqScanView, l: Seq<char>) -> SeqScanView {
    if s.in_point && l == "ColorPoint"@ {
        SeqScanView {
            stops: s.stops.push(StopView { position: s.point_position, color: s.effect_color }),
            in_point: false,
            point_position: None,
            ..s
        }
    } else {
        s
    }
}

/// The end of a direct colour: with all components it becomes the effect
/// colour and the model's.
pub open spec fn end_direct(s: SeqScanView, l: Seq<char>) -> SeqScanView {
    if s.in_direct && l == "color"@ {
        let s1 = match color_of3(s.dc_r, s.dc_g, s.dc_b, true) {
            Some(c) => set_color(s, c, true),
            None => s,
        };
        SeqScanView { in_direct: false, ..s1 }
    } else {
        s
    }
}

/// The end of a curve or a gradient: with content, it is stored for a model
/// with an id.
pub open spec fn end_store(s: SeqScanView, l: Seq<char>) -> SeqScanView {
    let id = s.model_id;
    let tb = s.tables;
    if is_curve_name(l) && s.in_curve {
        let tb2 = if s.points.len() > 0 && id.len() > 0 {
            match s.curve_kind {
                CurveKind::Movement => TablesView { movement: tb.movement.insert(id, s.points), ..tb },
                CurveKind::Pulse => TablesView { pulse: tb.pulse.insert(id, s.points), ..tb },
                CurveKind::Intensity => TablesView { intensity: tb.intensity.insert(id, s.points), ..tb },
            }
        } else {
            tb
        };
        SeqScanView { tables: tb2, in_curve: false, ..s }
    } else if l == "ColorGradient"@ && s.in_gradient {
        let tb2 = if s.stops.len() > 0 && id.len() > 0 {
            TablesView { gradients: tb.gradients.insert(id, s.stops), ..tb }
        } else {
            tb
        };
        SeqScanView { tables: tb2, in_gradient: false, ..s }
    } else {
        s
    }
}

/// The end of a point, a stop's colour, a stop, a direct colour, a curve or
/// a gradient inside an entry, in that order.
pub open spec fn end_parts(s: SeqScanView, l: Seq<char>) -> SeqScanView {
    if !s.in_entry {
        s
    } else {
        end_store(end_direct(end_stop(end_stop_color(end_pair(s, l), l), l), l), l)
    }
}

/// The model's class stored under its id.
pub open spec fn class_by_id(s: SeqScanView) -> SeqScanView {
    if s.model_id.len() > 0 && s.effect_type.len() > 0 {
        SeqScanView { tables: TablesView { types: s.tables.types.insert(s.model_id, s.effect_type), ..s.tables }, ..s }
    } else {
        s
    }
}

/// The model's colour handling stored under its id.
pub open spec fn handling_by_id(s: SeqScanView) -> SeqScanView {
    if s.model_id.len() > 0 && s.handling.len() > 0 {
        SeqScanView { tables: TablesView { handling: s.tables.handling.insert(s.model_id, s.handling), ..s.tables }, ..s }
    } else {
        s
    }
}

/// Under the model's type id, where it has one, its class, curves, gradient
/// and colour handling, unless that id already has them.
pub open spec fn entry_by_type(s: SeqScanView) -> SeqScanView {
    let id = s.model_id;
    let ty = s.model_type_id;
    let tb = s.tables;
    if ty.len() > 0 {
        SeqScanView {
            tables: TablesView {
                class_types: if s.effect_type.len() > 0 {
                    put_absent(tb.class_types, ty, s.effect_type)
                } else {
                    tb.class_types
                },
                movement: copy_absent(tb.movement, id, ty),
                pulse: copy_absent(tb.pulse, id, ty),
                intensity: copy_absent(tb.intensity, id, ty),
                gradients: copy_absent(tb.gradients, id, ty),
                handling: copy_absent(tb.handling, id, ty),
                ..tb
            },
            ..s
        }
    } else {
        s
    }
}

/// The entry's parts reset.
pub open spec fn entry_reset(s: SeqScanView) -> SeqScanView {
    SeqScanView {
        in_entry: false,
        handling: Seq::empty(),
        points: Seq::empty(),
        stops: Seq::empty(),
        in_curve: false,
        in_gradient: false,
        ..s
    }
}

/// The end of an entry above its depth stores the model under its id and
/// its type id and resets the entry's parts.
pub open spec fn end_entry(s: SeqScanView) -> SeqScanView {
    if s.in_entry && s.depth < s.entry_depth {
        entry_reset(entry_by_type(handling_by_id(class_by_id(s))))
    } else {
        s
    }
}

/// The effect of the node being closed: its class by instance id, else by
/// module type id, else `Solid`; its colour, else the colour of its
/// instance or its type; and each curve, gradient and setting by instance
/// id, else by type id.
pub open spec fn resolved_effect(s: SeqScanView) -> EffectView {
    let tb = s.tables;
    let i = s.instance_id;
    let m = s.module_id;
    EffectView {
        class_name: match lookup2(tb.types, i, tb.class_types, m) {
            Some(t) => t,
            None => "Solid"@,
        },
        start: s.start,
        duration: s.duration,
        targets: s.targets,
        color: match s.effect_color {
            Some(c) => Some(c),
            None => lookup2(tb.colors, i, tb.colors, m),
        },
        movement_curve: lookup2(tb.movement, i, tb.movement, m),
        pulse_curve: lookup2(tb.pulse, i, tb.pulse, m),
        intensity_curve: lookup2(tb.intensity, i, tb.intensity, m),
        gradient: lookup2(tb.gradients, i, tb.gradients, m),
        color_handling: lookup2(tb.handling, i, tb.handling, m),
        level: lookup2(tb.levels, i, tb.levels, m),
        revolution_count: lookup2(tb.revolutions, i, tb.revolutions, m),
        pulse_percentage: lookup2(tb.percentages, i, tb.percentages, m),
        pulse_time_ms: lookup2(tb.pulse_times, i, tb.pulse_times, m),
        reverse_spin: lookup2(tb.reverse, i, tb.reverse, m),
        direction: lookup2(tb.directions, i, tb.directions, m),
    }
}

/// The end of a node above its depth adds its effect; its targets are reset.
pub open spec fn end_node(s: SeqScanView) -> SeqScanView {
    if s.in_node && s.depth < s.node_depth {
        SeqScanView { effects: s.effects.push(resolved_effect(s)), in_node: false, targets: Seq::empty(), ..s }
    } else {
        s
    }
}

/// An end tag: one level up (not below zero); lists close; then the
/// entry's parts, the entry and the node.
pub open spec fn seq_end(s: SeqScanView, tag: Seq<char>) -> SeqScanView {
    let depth = if s.depth > 0 {
        s.depth - 1
    } else {
        0
    };
    let s1 = SeqScanView {
        depth,
        in_models: s.in_models && !is_models_tag(tag),
        in_nodes: s.in_nodes && !is_nodes_tag(tag),
        in_media: s.in_media && !is_media_tag(tag),
        ..s
    };
    end_node(end_entry(end_parts(s1, spec_strip_ns(tag))))
}

/// One event of the sequence document; an empty-element `Color` tag is read
/// for its colour.
pub open spec fn seq_step(s: SeqScanView, e: XmlEventView) -> SeqScanView {
    match e {
        XmlEventView::Start(t) => seq_start(s, t),
        XmlEventView::End(n) => seq_end(s, n),
        XmlEventView::Empty(t) => tag_color(s, spec_strip_ns(t.name) == "Color"@, t.attributes),
        XmlEventView::Text(t) => seq_text(s, t),
        _ => s,
    }
}

/// The events in order, up to the first end of document.
pub open spec fn seq_events(s: SeqScanView, evs: Seq<XmlEventView>) -> SeqScanView
    decreases evs.len(),
{
    if evs.len() == 0 {
        s
    } else if evs[0] is Eof {
        s
    } else {
        seq_events(seq_step(s, evs[0]), evs.drop_first())
    }
}

// ── Computing the read ──────────────────────────────────────────────

/// An effect of the sequence, resolved against the data models, with its
/// times, settings, curves and colours as texts. The start and duration
/// read as ISO 8601 durations (none reads as zero); levels and spin
/// settings parse as numbers.
#[derive(Debug, Clone)]
pub struct EffectText {
    pub class_name: String,
    pub start: Option<String>,
    pub duration: Option<String>,
    pub targets: Vec<String>,
    pub color: Option<ColorText>,
    pub movement_curve: Option<CurveText>,
    pub pulse_curve: Option<CurveText>,
    pub intensity_curve: Option<CurveText>,
    pub gradient: Option<GradientText>,
    pub color_handling: Option<String>,
    pub level: Option<String>,
    pub revolution_count: Option<String>,
    pub pulse_percentage: Option<String>,
    pub pulse_time_ms: Option<String>,
    pub reverse_spin: Option<bool>,
    pub direction: Option<String>,
}

impl View for EffectText {
    type V = EffectView;

    open spec fn view(&self) -> EffectView {
        EffectView {
            class_name: self.class_name@,
            start: oview(self.start),
            duration: oview(self.duration),
            targets: views(self.targets@),
            color: oview(self.color),
            movement_curve: oview(self.movement_curve),
            pulse_curve: oview(self.pulse_curve),
            intensity_curve: oview(self.intensity_curve),
            gradient: oview(self.gradient),
            color_handling: oview(self.color_handling),
            level: oview(self.level),
            revolution_count: oview(self.revolution_count),
            pulse_percentage: oview(self.pulse_percentage),
            pulse_time_ms: oview(self.pulse_time_ms),
            reverse_spin: oview(self.reverse_spin),
            direction: oview(self.direction),
        }
    }
}

struct Tables {
    types: StringHashMap<String>,
    class_types: StringHashMap<String>,
    colors: StringHashMap<ColorText>,
    movement: StringHashMap<CurveText>,
    pulse: StringHashMap<CurveText>,
    intensity: StringHashMap<CurveText>,
    gradients: StringHashMap<GradientText>,
    handling: StringHashMap<String>,
    levels: StringHashMap<String>,
    revolutions: StringHashMap<String>,
    percentages: StringHashMap<String>,
    pulse_times: StringHashMap<String>,
    reverse: StringHashMap<bool>,
    directions: StringHashMap<String>,
}

impl View for Tables {
    type V = TablesView;

    closed spec fn view(&self) -> TablesView {
        TablesView {
            types: vmap(self.types@),
            class_types: vmap(self.class_types@),
            colors: vmap(self.colors@),
            movement: vmap(self.movement@),
            pulse: vmap(self.pulse@),
            intensity: vmap(self.intensity@),
            gradients: vmap(self.gradients@),
            handling: vmap(self.handling@),
            levels: vmap(self.levels@),
            revolutions: vmap(self.revolutions@),
            percentages: vmap(self.percentages@),
            pulse_times: vmap(self.pulse_times@),
            reverse: vmap(self.reverse@),
            directions: vmap(self.directions@),
        }
    }
}

fn empty_table<V: View>() -> (r: StringHashMap<V>)
    ensures
        vmap(r@) == Map::<Seq<char>, V::V>::empty(),
{
    let r = StringHashMap::new();
    assert(vmap(r@) =~= Map::<Seq<char>, V::V>::empty());
    r
}

struct SeqScan {
    tables: Tables,
    element: String,
    in_models: bool,
    in_nodes: bool,
    in_media: bool,
    effect_type: String,
    start: Option<String>,
    duration: Option<String>,
    targets: Vec<String>,
    effect_color: Option<ColorText>,
    model_id: String,
    model_type_id: String,
    in_entry: bool,
    entry_depth: u64,
    points: Vec<(String, String)>,
    stops: Vec<StopText>,
    in_curve: bool,
    curve_kind: CurveKind,
    in_gradient: bool,
    handling: String,
    in_pair: bool,
    pair_x: Option<String>,
    pair_y: Option<String>,
    in_point: bool,
    point_position: Option<String>,
    in_point_color: bool,
    pc_x: Option<String>,
    pc_y: Option<String>,
    pc_z: Option<String>,
    in_direct: bool,
    dc_r: Option<String>,
    dc_g: Option<String>,
    dc_b: Option<String>,
    in_node: bool,
    module_id: String,
    instance_id: String,
    node_depth: u64,
    depth: u64,
    length: Option<String>,
    audio: Option<String>,
    effects: Vec<EffectText>,
}

impl View for SeqScan {
    type V = SeqScanView;

    closed spec fn view(&self) -> SeqScanView {
        SeqScanView {
            tables: self.tables@,
            element: self.element@,
            in_models: self.in_models,
            in_nodes: self.in_nodes,
            in_media: self.in_media,
            effect_type: self.effect_type@,
            start: oview(self.start),
            duration: oview(self.duration),
            targets: views(self.targets@),
            effect_color: oview(self.effect_color),
            model_id: self.model_id@,
            model_type_id: self.model_type_id@,
            in_entry: self.in_entry,
            entry_depth: self.entry_depth as int,
            points: views(self.points@),
            stops: views(self.stops@),
            in_curve: self.in_curve,
            curve_kind: self.curve_kind,
            in_gradient: self.in_gradient,
            handling: self.handling@,
            in_pair: self.in_pair,
            pair_x: oview(self.pair_x),
            pair_y: oview(self.pair_y),
            in_point: self.in_point,
            point_position: oview(self.point_position),
            in_point_color: self.in_point_color,
            pc_x: oview(self.pc_x),
            pc_y: oview(self.pc_y),
            pc_z: oview(self.pc_z),
            in_direct: self.in_direct,
            dc_r: oview(self.dc_r),
            dc_g: oview(self.dc_g),
            dc_b: oview(self.dc_b),
            in_node: self.in_node,
            module_id: self.module_id@,
            instance_id: self.instance_id@,
            node_depth: self.node_depth as int,
            depth: self.depth as int,
            length: oview(self.length),
            audio: oview(self.audio),
            effects: views(self.effects@),
        }
    }
}

/// The state before the first event.
pub open spec fn initial_seq_scan() -> SeqScanView {
    SeqScanView {
        tables: TablesView {
            types: Map::empty(),
            class_types: Map::empty(),
            colors: Map::empty(),
            movement: Map::empty(),
            pulse: Map::empty(),
            intensity: Map::empty(),
            gradients: Map::empty(),
            handling: Map::empty(),
            levels: Map::empty(),
            revolutions: Map::empty(),
            percentages: Map::empty(),
            pulse_times: Map::empty(),
            reverse: Map::empty(),
            directions: Map::empty(),
        },
        element: Seq::empty(),
        in_models: false,
        in_nodes: false,
        in_media: false,
        effect_type: Seq::empty(),
        start: None,
        duration: None,
        targets: Seq::empty(),
        effect_color: None,
        model_id: Seq::empty(),
        model_type_id: Seq::empty(),
        in_entry: false,
        entry_depth: 0,
        points: Seq::empty(),
        stops: Seq::empty(),
        in_curve: false,
        curve_kind: CurveKind::Intensity,
        in_gradient: false,
        handling: Seq::empty(),
        in_pair: false,
        pair_x: None,
        pair_y: None,
        in_point: false,
        point_position: None,
        in_point_color: false,
        pc_x: None,
        pc_y: None,
        pc_z: None,
        in_direct: false,
        dc_r: None,
        dc_g: None,
        dc_b: None,
        in_node: false,
        module_id: Seq::empty(),
        instance_id: Seq::empty(),
        node_depth: 0,
        depth: 0,
        length: None,
        audio: None,
        effects: Seq::empty(),
    }
}

fn float_option(t: &str) -> (r: Option<String>)
    ensures
        oview(r) == float_opt(t@),
{
    if is_float_text(t) {
        Some(String::from_str(t))
    } else {
        None
    }
}

fn iso_option(t: &str) -> (r: Option<String>)
    ensures
        oview(r) == iso_opt(t@),
{
    if is_iso_duration(t) {
        Some(String::from_str(t))
    } else {
        None
    }
}

fn read_model_attrs(a: &Vec<(String, String)>) -> (r: (String, String))
    ensures
        (r.0@, r.1@) == model_attrs(crate::importer::attrs_view(a@)),
{
    let ghost av = crate::importer::attrs_view(a@);
    let mut class = String::new();
    let mut id = String::new();
    let mut i: usize = 0;
    assert(av.take(0) =~= Seq::<(Seq<char>, Seq<char>)>::empty());
    while i < a.len()
        invariant
            i <= a@.len(),
            av == crate::importer::attrs_view(a@),
            (class@, id@) == model_attrs(av.take(i as int)),
        decreases a@.len() - i,
    {
        assert(av.take(i + 1).drop_last() =~= av.take(i as int));
        assert(av[i as int] == (a@[i as int].0@, a@[i as int].1@));
        let k = strip_ns(a[i].0.as_str());
        if str_eq(k, "type") || str_eq(k, "Type") || str_eq(k, "typeName") {
            class = effect_class_exec(a[i].1.as_str());
        } else if str_eq(k, "id") || str_eq(k, "Id") {
            id = a[i].1.clone();
        }
        i += 1;
    }
    assert(av.take(a@.len() as int) =~= av);
    (class, id)
}

fn read_node_attrs(a: &Vec<(String, String)>) -> (r: (Option<String>, Option<String>, String, String))
    ensures
        (NodeAttrs { start: oview(r.0), duration: oview(r.1), module: r.2@, instance: r.3@ }) == node_attrs(
            crate::importer::attrs_view(a@),
        ),
{
    let ghost av = crate::importer::attrs_view(a@);
    let mut start: Option<String> = None;
    let mut duration: Option<String> = None;
    let mut module = String::new();
    let mut instance = String::new();
    let mut i: usize = 0;
    assert(av.take(0) =~= Seq::<(Seq<char>, Seq<char>)>::empty());
    while i < a.len()
        invariant
            i <= a@.len(),
            av == crate::importer::attrs_view(a@),
            (NodeAttrs { start: oview(start), duration: oview(duration), module: module@, instance: instance@ })
                == node_attrs(av.take(i as int)),
        decreases a@.len() - i,
    {
        assert(av.take(i + 1).drop_last() =~= av.take(i as int));
        assert(av[i as int] == (a@[i as int].0@, a@[i as int].1@));
        let k = a[i].0.as_str();
        let v = a[i].1.as_str();
        if str_eq(k, "startTime") || str_eq(k, "StartTime") {
            start = iso_option(v);
        } else if str_eq(k, "timeSpan") || str_eq(k, "TimeSpan") || str_eq(k, "duration") || str_eq(k, "Duration") {
            duration = iso_option(v);
        } else if str_eq(k, "typeId") || str_eq(k, "TypeId") {
            module = String::from_str(v);
        } else if str_eq(k, "moduleInstanceId") || str_eq(k, "ModuleInstanceId") || str_eq(k, "instanceId")
            || str_eq(k, "InstanceId") {
            instance = String::from_str(v);
        }
        i += 1;
    }
    assert(av.take(a@.len() as int) =~= av);
    (start, duration, module, instance)
}

fn read_xyz_attrs(a: &Vec<(String, String)>) -> (r: (Option<String>, Option<String>, Option<String>))
    ensures
        (oview(r.0), oview(r.1), oview(r.2)) == xyz_attrs(crate::importer::attrs_view(a@)),
{
    let ghost av = crate::importer::attrs_view(a@);
    let mut x: Option<String> = None;
    let mut y: Option<String> = None;
    let mut z: Option<String> = None;
    let mut i: usize = 0;
    assert(av.take(0) =~= Seq::<(Seq<char>, Seq<char>)>::empty());
    while i < a.len()
        invariant
            i <= a@.len(),
            av == crate::importer::attrs_view(a@),
            (oview(x), oview(y), oview(z)) == xyz_attrs(av.take(i as int)),
        decreases a@.len() - i,
    {
        assert(av.take(i + 1).drop_last() =~= av.take(i as int));
        assert(av[i as int] == (a@[i as int].0@, a@[i as int].1@));
        let k = a[i].0.as_str();
        let v = a[i].1.as_str();
        if str_eq(k, "X") || str_eq(k, "x") {
            x = float_option(v);
        } else if str_eq(k, "Y") || str_eq(k, "y") {
            y = float_option(v);
        } else if str_eq(k, "Z") || str_eq(k, "z") {
            z = float_option(v);
        }
        i += 1;
    }
    assert(av.take(a@.len() as int) =~= av);
    (x, y, z)
}

fn color_of3_exec(x: &Option<String>, y: &Option<String>, z: &Option<String>, rgb: bool) -> (r: Option<ColorText>)
    ensures
        oview(r) == color_of3(oview(*x), oview(*y), oview(*z), rgb),
{
    match (x, y, z) {
        (Some(a), Some(b), Some(c)) => if rgb {
            Some(ColorText::Rgb(a.clone(), b.clone(), c.clone()))
        } else {
            Some(ColorText::Xyz(a.clone(), b.clone(), c.clone()))
        },
        _ => None,
    }
}

fn is_movement_exec(l: &str) -> (r: bool)
    ensures
        r == is_movement_name(l@),
{
    str_eq(l, "ChaseMovement") || str_eq(l, "MovementCurve") || str_eq(l, "WipeMovement")
}

fn is_intensity_exec(l: &str) -> (r: bool)
    ensures
        r == is_intensity_name(l@),
{
    str_eq(l, "LevelCurve") || str_eq(l, "IntensityCurve") || str_eq(l, "Curve") || str_eq(l, "DissolveCurve")
        || str_eq(l, "AccelerationCurve") || str_eq(l, "SpeedCurve") || str_eq(l, "Height")
}

fn is_media_file_exec(e: &str) -> (r: bool)
    ensures
        r == is_media_file_element(e@),
{
    str_eq(e, "FilePath") || str_eq(e, "FileName") || str_eq(e, "MediaFilePath") || ends_with_exec(e, ":FilePath")
        || ends_with_exec(e, ":FileName") || ends_with_exec(e, ":RelativeAudioPath")
}

impl SeqScan {
    fn new() -> (r: Self)
        ensures
            r@ == initial_seq_scan(),
            r.effects@.len() == 0,
    {
        let tables = Tables {
            types: empty_table(),
            class_types: empty_table(),
            colors: empty_table(),
            movement: empty_table(),
            pulse: empty_table(),
            intensity: empty_table(),
            gradients: empty_table(),
            handling: empty_table(),
            levels: empty_table(),
            revolutions: empty_table(),
            percentages: empty_table(),
            pulse_times: empty_table(),
            reverse: empty_table(),
            directions: empty_table(),
        };
        SeqScan {
            tables,
            element: String::new(),
            in_models: false,
            in_nodes: false,
            in_media: false,
            effect_type: String::new(),
            start: None,
            duration: None,
            targets: empty_views(),
            effect_color: None,
            model_id: String::new(),
            model_type_id: String::new(),
            in_entry: false,
            entry_depth: 0,
            points: empty_views(),
            stops: empty_views(),
            in_curve: false,
            curve_kind: CurveKind::Intensity,
            in_gradient: false,
            handling: String::new(),
            in_pair: false,
            pair_x: None,
            pair_y: None,
            in_point: false,
            point_position: None,
            in_point_color: false,
            pc_x: None,
            pc_y: None,
            pc_z: None,
            in_direct: false,
            dc_r: None,
            dc_g: None,
            dc_b: None,
            in_node: false,
            module_id: String::new(),
            instance_id: String::new(),
            node_depth: 0,
            depth: 0,
            length: None,
            audio: None,
            effects: empty_views(),
        }
    }

    fn set_color(&mut self, c: ColorText, to_model: bool)
        ensures
            final(self)@ == set_color(old(self)@, c@, to_model),
    {
        if to_model && self.model_id.unicode_len() > 0 {
            put(&mut self.tables.colors, self.model_id.clone(), c.copy());
        }
        self.effect_color = Some(c);
    }

    fn tag_color(&mut self, is_color: bool, a: &Vec<(String, String)>)
        ensures
            final(self)@ == tag_color(old(self)@, is_color, crate::importer::attrs_view(a@)),
    {
        let (x, y, z) = read_xyz_attrs(a);
        if (self.in_entry || self.in_node) && is_color {
            match color_of3_exec(&x, &y, &z, false) {
                Some(c) => {
                    let to_model = self.in_entry;
                    self.set_color(c, to_model);
                },
                None => {},
            }
        }
    }

    fn parts_open(&mut self, l: &str)
        ensures
            final(self)@ == parts_open(old(self)@, l@),
    {
        if is_movement_exec(l) {
            self.in_curve = true;
            self.curve_kind = CurveKind::Movement;
            self.points = empty_views();
        } else if str_eq(l, "PulseCurve") {
            self.in_curve = true;
            self.curve_kind = CurveKind::Pulse;
            self.points = empty_views();
        } else if is_intensity_exec(l) {
            self.in_curve = true;
            self.curve_kind = CurveKind::Intensity;
            self.points = empty_views();
        } else if str_eq(l, "ColorGradient") {
            self.in_gradient = true;
            self.stops = empty_views();
        }
    }

    fn parts_pair(&mut self, l: &str)
        ensures
            final(self)@ == parts_pair(old(self)@, l@),
    {
        if self.in_curve && str_eq(l, "PointPair") {
            self.in_pair = true;
            self.pair_x = None;
            self.pair_y = None;
        }
    }

    fn parts_stop(&mut self, l: &str)
        ensures
            final(self)@ == parts_stop(old(self)@, l@),
    {
        if self.in_gradient && str_eq(l, "ColorPoint") {
            self.in_point = true;
            self.point_position = None;
        }
    }

    fn parts_stop_color(&mut self, l: &str)
        ensures
            final(self)@ == parts_stop_color(old(self)@, l@),
    {
        if self.in_point && str_eq(l, "_color") {
            self.in_point_color = true;
            self.pc_x = None;
            self.pc_y = None;
            self.pc_z = None;
        }
    }

    fn parts_direct(&mut self, l: &str)
        ensures
            final(self)@ == parts_direct(old(self)@, l@),
    {
        if str_eq(l, "color") && !self.in_gradient && !self.in_point {
            self.in_direct = true;
            self.dc_r = None;
            self.dc_g = None;
            self.dc_b = None;
        }
    }

    fn start_parts(&mut self, l: &str)
        ensures
            final(self)@ == start_parts(old(self)@, l@),
    {
        if self.in_entry {
            self.parts_open(l);
            self.parts_pair(l);
            self.parts_stop(l);
            self.parts_stop_color(l);
            self.parts_direct(l);
        }
    }

    fn start_base(&mut self, t: &XmlTag)
        requires
            old(self).depth < u64::MAX,
        ensures
            final(self)@ == start_lists(
                SeqScanView { depth: old(self)@.depth + 1, element: t@.name, ..old(self)@ },
                t@.name,
            ),
            final(self).depth == old(self).depth + 1,
    {
        let tag = t.name.as_str();
        let models = str_eq(tag, "_dataModels") || str_eq(tag, "DataModels");
        let nodes = str_eq(tag, "_effectNodeSurrogates") || str_eq(tag, "EffectNodeSurrogates");
        let media = str_eq(tag, "_mediaSurrogates") || str_eq(tag, "MediaSurrogates");
        self.depth = self.depth + 1;
        self.element = t.name.clone();
        self.in_models = self.in_models || models;
        self.in_nodes = self.in_nodes || nodes;
        self.in_media = self.in_media || media;
    }

    fn start_entry(&mut self, t: &XmlTag)
        ensures
            final(self)@ == start_entry(old(self)@, t@.name, t@.attributes),
            final(self).depth == old(self).depth,
    {
        let tag = t.name.as_str();
        let local = strip_ns(tag);
        if self.in_models && !self.in_entry && (str_eq(local, "anyType") || contains_str(tag, "DataModel")) {
            let (class, id) = read_model_attrs(&t.attributes);
            self.in_entry = true;
            self.entry_depth = self.depth;
            self.model_id = id;
            self.model_type_id = String::new();
            self.effect_type = class;
        }
    }

    fn start_node(&mut self, t: &XmlTag)
        ensures
            final(self)@ == start_node(old(self)@, t@.name, t@.attributes),
            final(self).depth == old(self).depth,
    {
        if self.in_nodes && !self.in_node && str_eq(t.name.as_str(), "EffectNodeSurrogate") {
            let (start, duration, module, instance) = read_node_attrs(&t.attributes);
            self.in_node = true;
            self.node_depth = self.depth;
            self.start = start;
            self.duration = duration;
            self.targets = empty_views();
            self.effect_color = None;
            self.module_id = module;
            self.instance_id = instance;
        }
    }

    fn start(&mut self, t: &XmlTag)
        requires
            old(self).depth < u64::MAX,
        ensures
            final(self)@ == seq_start(old(self)@, t@),
            final(self).depth == old(self).depth + 1,
    {
        self.start_base(t);
        self.start_entry(t);
        self.start_node(t);
        let local = strip_ns(t.name.as_str());
        self.start_parts(local);
        let is_color = str_eq(t.name.as_str(), "Color");
        self.tag_color(is_color, &t.attributes);
    }

    fn entry_text(&mut self, l: &str, t: String)
        ensures
            final(self)@ == entry_text(old(self)@, l@, t@),
    {
        if self.in_pair {
            if str_eq(l, "X") {
                self.pair_x = float_option(t.as_str());
            } else if str_eq(l, "Y") {
                self.pair_y = float_option(t.as_str());
            }
        } else if self.in_point_color {
            if str_eq(l, "_x") || str_eq(l, "X") {
                self.pc_x = float_option(t.as_str());
            } else if str_eq(l, "_y") || str_eq(l, "Y") {
                self.pc_y = float_option(t.as_str());
            } else if str_eq(l, "_z") || str_eq(l, "Z") {
                self.pc_z = float_option(t.as_str());
            }
        } else if self.in_point {
            if str_eq(l, "_position") || str_eq(l, "Position") {
                self.point_position = float_option(t.as_str());
            }
        } else if self.in_direct {
            if str_eq(l, "_r") || str_eq(l, "R") {
                self.dc_r = float_option(t.as_str());
            } else if str_eq(l, "_g") || str_eq(l, "G") {
                self.dc_g = float_option(t.as_str());
            } else if str_eq(l, "_b") || str_eq(l, "B") {
                self.dc_b = float_option(t.as_str());
            }
        } else if self.in_entry && self.model_id.unicode_len() > 0 {
            let id = self.model_id.clone();
            let num = is_float_text(t.as_str());
            if (str_eq(l, "level") || str_eq(l, "Level") || str_eq(l, "IntensityLevel")) && num {
                put(&mut self.tables.levels, id, t);
            } else if str_eq(l, "RevolutionCount") && num {
                put(&mut self.tables.revolutions, id, t);
            } else if str_eq(l, "PulsePercentage") && num {
                put(&mut self.tables.percentages, id, t);
            } else if str_eq(l, "PulseTime") && num {
                put(&mut self.tables.pulse_times, id, t);
            } else if str_eq(l, "ReverseSpin") && parse_bool(t.as_str()).is_some() {
                let b = parse_bool(t.as_str()).unwrap();
                put(&mut self.tables.reverse, id, b);
            } else if str_eq(l, "Direction") || str_eq(l, "WipeDirection") {
                put(&mut self.tables.directions, id, t);
            }
        }
    }

    #[verifier::rlimit(80)]
    #[verifier::spinoff_prover]
    fn node_text(&mut self, e: &str, t: String)
        ensures
            final(self)@ == node_text(old(self)@, e@, t@),
    {
        if (str_eq(e, "StartTime") || str_eq(e, "startTime")) && is_iso_duration(t.as_str()) {
            self.start = Some(t);
        } else if (str_eq(e, "TimeSpan") || str_eq(e, "timeSpan") || str_eq(e, "Duration")) && is_iso_duration(
            t.as_str(),
        ) {
            self.duration = Some(t);
        } else if str_eq(e, "NodeId") {
            let g = trim_text(t.as_str());
            if g.unicode_len() > 0 {
                push_viewed(&mut self.targets, g);
            }
        } else if str_eq(e, "TargetNodeId") || str_eq(e, "TargetNodes") {
            push_ids(&mut self.targets, t.as_str());
        } else if str_eq(e, "TypeId") || str_eq(e, "typeId") {
            self.module_id = t;
        } else if str_eq(e, "InstanceId") {
            self.instance_id = t;
        }
    }

    #[verifier::rlimit(80)]
    #[verifier::spinoff_prover]
    fn text(&mut self, raw: &str)
        ensures
            final(self)@ == seq_text(old(self)@, raw@),
    {
        let t = trim_text(raw);
        if t.unicode_len() == 0 {
            return;
        }
        let e = self.element.clone();
        let l = strip_ns(e.as_str());
        if self.in_entry && str_eq(e.as_str(), "ModuleInstanceId") {
            self.model_id = t;
        } else if self.in_entry && str_eq(e.as_str(), "ModuleTypeId") {
            self.model_type_id = t;
        } else if self.in_entry && (str_eq(e.as_str(), "ColorHandling") || str_eq(e.as_str(), "ColorMode") || str_eq(
            e.as_str(),
            "_colorHandling",
        )) {
            self.handling = t;
        } else if self.in_pair || self.in_point_color || self.in_point || self.in_direct || self.in_entry {
            self.entry_text(l, t);
        } else if str_eq(e.as_str(), "Length") {
            if is_iso_duration(t.as_str()) {
                self.length = Some(t);
            }
        } else if self.in_node {
            self.node_text(e.as_str(), t);
        } else if self.in_media && is_media_file_exec(e.as_str()) {
            self.audio = Some(t);
        }
    }

    fn end_pair(&mut self, l: &str)
        ensures
            final(self)@ == end_pair(old(self)@, l@),
    {
        if self.in_pair && str_eq(l, "PointPair") {
            match (&self.pair_x, &self.pair_y) {
                (Some(x), Some(y)) => {
                    let p = (x.clone(), y.clone());
                    push_viewed(&mut self.points, p);
                },
                _ => {},
            }
            self.in_pair = false;
        }
    }

    fn end_stop_color(&mut self, l: &str)
        ensures
            final(self)@ == end_stop_color(old(self)@, l@),
    {
        if self.in_point_color && str_eq(l, "_color") {
            match color_of3_exec(&self.pc_x, &self.pc_y, &self.pc_z, false) {
                Some(c) => {
                    self.set_color(c, true);
                    self.pc_x = None;
                    self.pc_y = None;
                    self.pc_z = None;
                },
                None => {},
            }
            self.in_point_color = false;
        }
    }

    fn end_stop(&mut self, l: &str)
        ensures
            final(self)@ == end_stop(old(self)@, l@),
    {
        if self.in_point && str_eq(l, "ColorPoint") {
            let stop = StopText { position: copy_opt(&self.point_position), color: copy_opt(&self.effect_color) };
            push_viewed(&mut self.stops, stop);
            self.in_point = false;
            self.point_position = None;
        }
    }

    fn end_direct(&mut self, l: &str)
        ensures
            final(self)@ == end_direct(old(self)@, l@),
    {
        if self.in_direct && str_eq(l, "color") {
            match color_of3_exec(&self.dc_r, &self.dc_g, &self.dc_b, true) {
                Some(c) => self.set_color(c, true),
                None => {},
            }
            self.in_direct = false;
        }
    }

    fn end_store(&mut self, l: &str)
        ensures
            final(self)@ == end_store(old(self)@, l@),
    {
        let curve = is_movement_exec(l) || str_eq(l, "PulseCurve") || is_intensity_exec(l);
        if curve && self.in_curve {
            if self.points.len() > 0 && self.model_id.unicode_len() > 0 {
                let c = CurveText { points: copy_pairs(&self.points) };
                let id = self.model_id.clone();
                match self.curve_kind {
                    CurveKind::Movement => put(&mut self.tables.movement, id, c),
                    CurveKind::Pulse => put(&mut self.tables.pulse, id, c),
                    CurveKind::Intensity => put(&mut self.tables.intensity, id, c),
                }
            }
            self.in_curve = false;
        } else if str_eq(l, "ColorGradient") && self.in_gradient {
            if self.stops.len() > 0 && self.model_id.unicode_len() > 0 {
                let g = GradientText { stops: copy_stops(&self.stops) };
                let id = self.model_id.clone();
                put(&mut self.tables.gradients, id, g);
            }
            self.in_gradient = false;
        }
    }

    fn end_parts(&mut self, l: &str)
        ensures
            final(self)@ == end_parts(old(self)@, l@),
            final(self).depth == old(self).depth,
    {
        if self.in_entry {
            self.end_pair(l);
            self.end_stop_color(l);
            self.end_stop(l);
            self.end_direct(l);
            self.end_store(l);
        }
    }

    fn class_by_id(&mut self)
        ensures
            final(self)@ == class_by_id(old(self)@),
    {
        if self.model_id.unicode_len() > 0 && self.effect_type.unicode_len() > 0 {
            put(&mut self.tables.types, self.model_id.clone(), self.effect_type.clone());
        }
    }

    fn handling_by_id(&mut self)
        ensures
            final(self)@ == handling_by_id(old(self)@),
    {
        if self.model_id.unicode_len() > 0 && self.handling.unicode_len() > 0 {
            put(&mut self.tables.handling, self.model_id.clone(), self.handling.clone());
        }
    }

    fn entry_by_type(&mut self)
        ensures
            final(self)@ == entry_by_type(old(self)@),
    {
        if self.model_type_id.unicode_len() > 0 {
            let id = self.model_id.as_str();
            let ty = self.model_type_id.as_str();
            if self.effect_type.unicode_len() > 0 {
                put_if_absent(&mut self.tables.class_types, ty, self.effect_type.clone());
            }
            copy_if_absent(&mut self.tables.movement, id, ty);
            copy_if_absent(&mut self.tables.pulse, id, ty);
            copy_if_absent(&mut self.tables.intensity, id, ty);
            copy_if_absent(&mut self.tables.gradients, id, ty);
            copy_if_absent(&mut self.tables.handling, id, ty);
        }
    }

    fn end_entry(&mut self)
        ensures
            final(self)@ == end_entry(old(self)@),
            final(self).depth == old(self).depth,
    {
        if self.in_entry && self.depth < self.entry_depth {
            self.class_by_id();
            self.handling_by_id();
            self.entry_by_type();
            self.in_entry = false;
            self.handling = String::new();
            self.points = empty_views();
            self.stops = empty_views();
            self.in_curve = false;
            self.in_gradient = false;
        }
    }

    fn resolved(&self) -> (r: EffectText)
        ensures
            r@ == resolved_effect(self@),
    {
        let tb = &self.tables;
        let i = self.instance_id.as_str();
        let m = self.module_id.as_str();
        let class_name = match fetch2(&tb.types, i, &tb.class_types, m) {
            Some(t) => t,
            None => String::from_str("Solid"),
        };
        let color = match copy_opt(&self.effect_color) {
            Some(c) => Some(c),
            None => fetch2(&tb.colors, i, &tb.colors, m),
        };
        let targets = copy_ids(&self.targets);
        EffectText {
            class_name,
            start: copy_opt(&self.start),
            duration: copy_opt(&self.duration),
            targets,
            color,
            movement_curve: fetch2(&tb.movement, i, &tb.movement, m),
            pulse_curve: fetch2(&tb.pulse, i, &tb.pulse, m),
            intensity_curve: fetch2(&tb.intensity, i, &tb.intensity, m),
            gradient: fetch2(&tb.gradients, i, &tb.gradients, m),
            color_handling: fetch2(&tb.handling, i, &tb.handling, m),
            level: fetch2(&tb.levels, i, &tb.levels, m),
            revolution_count: fetch2(&tb.revolutions, i, &tb.revolutions, m),
            pulse_percentage: fetch2(&tb.percentages, i, &tb.percentages, m),
            pulse_time_ms: fetch2(&tb.pulse_times, i, &tb.pulse_times, m),
            reverse_spin: fetch2(&tb.reverse, i, &tb.reverse, m),
            direction: fetch2(&tb.directions, i, &tb.directions, m),
        }
    }

    fn end_node(&mut self)
        ensures
            final(self)@ == end_node(old(self)@),
            final(self).depth == old(self).depth,
    {
        if self.in_node && self.depth < self.node_depth {
            let e = self.resolved();
            push_viewed(&mut self.effects, e);
            self.in_node = false;
            self.targets = empty_views();
        }
    }

    #[verifier::rlimit(80)]
    #[verifier::spinoff_prover]
    fn end(&mut self, tag: &str)
        ensures
            final(self)@ == seq_end(old(self)@, tag@),
            final(self).depth <= old(self).depth,
    {
        let models = str_eq(tag, "_dataModels") || str_eq(tag, "DataModels");
        let nodes = str_eq(tag, "_effectNodeSurrogates") || str_eq(tag, "EffectNodeSurrogates");
        let media = str_eq(tag, "_mediaSurrogates") || str_eq(tag, "MediaSurrogates");
        self.depth = if self.depth > 0 {
            self.depth - 1
        } else {
            0
        };
        self.in_models = self.in_models && !models;
        self.in_nodes = self.in_nodes && !nodes;
        self.in_media = self.in_media && !media;
        let local = strip_ns(tag);
        self.end_parts(local);
        self.end_entry();
        self.end_node();
    }

    #[verifier::rlimit(80)]
    #[verifier::spinoff_prover]
    fn step(&mut self, e: &XmlEvent)
        requires
            old(self).depth < u64::MAX,
        ensures
            final(self)@ == seq_step(old(self)@, e@),
            final(self).depth <= old(self).depth + 1,
    {
        match e {
            XmlEvent::Start(t) => self.start(t),
            XmlEvent::End(n) => self.end(n.as_str()),
            XmlEvent::Empty(t) => {
                let is_color = str_eq(strip_ns(t.name.as_str()), "Color");
                self.tag_color(is_color, &t.attributes);
            },
            XmlEvent::Text(t) => self.text(t.as_str()),
            _ => {},
        }
    }
}

fn copy_ids(v: &Vec<String>) -> (r: Vec<String>)
    ensures
        views(r@) == views(v@),
{
    let mut out: Vec<String> = Vec::new();
    let mut i: usize = 0;
    while i < v.len()
        invariant
            i <= v@.len(),
            views(out@) =~= views(v@).take(i as int),
        decreases v@.len() - i,
    {
        push_viewed(&mut out, v[i].clone());
        assert(views(v@).take(i + 1) =~= views(v@).take(i as int).push(v@[i as int]@));
        i += 1;
    }
    assert(views(v@).take(v@.len() as int) =~= views(v@));
    out
}

/// A sequence as read from its file: the text of the `Length` that sets
/// its duration (none: the default), its media file, and every effect node
/// in document order. Effects whose duration does not come out positive
/// are the caller's to drop.
#[derive(Debug, Clone)]
pub struct SequenceText {
    pub length: Option<String>,
    pub audio_file: Option<String>,
    pub effects: Vec<EffectText>,
}

/// The contents of a `SequenceText`.
pub ghost struct SequenceView {
    pub length: Option<Seq<char>>,
    pub audio_file: Option<Seq<char>>,
    pub effects: Seq<EffectView>,
}

impl View for SequenceText {
    type V = SequenceView;

    open spec fn view(&self) -> SequenceView {
        SequenceView { length: oview(self.length), audio_file: oview(self.audio_file), effects: views(self.effects@) }
    }
}

/// The sequence a document's events describe: its last `Length` that reads
/// as a duration, its last media file name, and its effects.
pub open spec fn sequence_of(evs: Seq<XmlEventView>) -> SequenceView {
    let s = seq_events(initial_seq_scan(), evs);
    SequenceView { length: s.length, audio_file: s.audio, effects: s.effects }
}

/// The sequence of a document's events, or `None` where reading failed.
pub open spec fn sequence_result(r: Option<Seq<XmlEventView>>) -> Option<SequenceView> {
    match r {
        Some(evs) => Some(sequence_of(evs)),
        None => None,
    }
}

/// Reads a sequence out of a document's XML events.
pub fn sequence_from_events(events: &[XmlEvent]) -> (r: SequenceText)
    ensures
        r@ == sequence_of(events_view(events@)),
{
    let ghost evs = events_view(events@);
    let mut scan = SeqScan::new();
    let mut i: usize = 0;
    assert(evs.skip(0) =~= evs);
    while i < events.len()
        invariant
            i <= events.len(),
            evs == events_view(events@),
            seq_events(scan@, evs.skip(i as int)) == seq_events(initial_seq_scan(), evs),
            scan.depth <= i,
        ensures
            scan@ == seq_events(initial_seq_scan(), evs),
        decreases events.len() - i,
    {
        let e = &events[i];
        assert(evs.skip(i as int)[0] == e@);
        assert(evs.skip(i as int).drop_first() =~= evs.skip(i + 1));
        if let XmlEvent::Eof = e {
            break;
        }
        scan.step(e);
        i += 1;
    }
    SequenceText { length: scan.length, audio_file: scan.audio, effects: scan.effects }
}

/// Parse a Vixen `.tim` sequence from its bytes: every effect node resolved
/// against the data models (by instance id, then by module type id), the
/// sequence length and the media file. Fails only where the XML reader does.
pub fn parse_sequence_xml(data: &[u8]) -> (r: Result<SequenceText, ReadError>)
    ensures
        match r {
            Ok(s) => sequence_result(document_events(data@)) == Some(s@),
            Err(_) => document_events(data@) is None,
        },
{
    match read_xml_events(data) {
        Ok(events) => Ok(sequence_from_events(events.as_slice())),
        Err(e) => Err(ReadError::Xml(e)),
    }
}

// ── Laws of the sequence ────────────────────────────────────────────

/// Every stored class, by instance or by type, and every effect's class is
/// a non-empty name.
pub open spec fn classes_named(s: SeqScanView) -> bool {
    &&& forall|k: Seq<char>| #[trigger] s.tables.types.contains_key(k) ==> s.tables.types[k].len() > 0
    &&& forall|k: Seq<char>| #[trigger] s.tables.class_types.contains_key(k) ==> s.tables.class_types[k].len() > 0
    &&& forall|i: int| 0 <= i < s.effects.len() ==> (#[trigger] s.effects[i]).class_name.len() > 0
}

/// The classes and effects of `b` are those of `a`.
pub open spec fn same_classes(a: SeqScanView, b: SeqScanView) -> bool {
    a.tables.types == b.tables.types && a.tables.class_types == b.tables.class_types && a.effects == b.effects
}

proof fn lemma_color_same(s: SeqScanView, is_color: bool, a: Seq<(Seq<char>, Seq<char>)>, c: ColorView, m: bool)
    ensures
        same_classes(s, tag_color(s, is_color, a)),
        same_classes(s, set_color(s, c, m)),
{
}

proof fn lemma_lists_same(s: SeqScanView, tag: Seq<char>)
    ensures
        same_classes(s, start_lists(SeqScanView { depth: s.depth + 1, element: tag, ..s }, tag)),
{
}

proof fn lemma_entry_start_same(s: SeqScanView, tag: Seq<char>, a: Seq<(Seq<char>, Seq<char>)>)
    ensures
        same_classes(s, start_entry(s, tag, a)),
{
}

proof fn lemma_node_start_same(s: SeqScanView, tag: Seq<char>, a: Seq<(Seq<char>, Seq<char>)>)
    ensures
        same_classes(s, start_node(s, tag, a)),
{
}

proof fn lemma_parts_same(s: SeqScanView, l: Seq<char>)
    ensures
        same_classes(s, start_parts(s, l)),
{
    let p1 = parts_open(s, l);
    let p2 = parts_pair(p1, l);
    let p3 = parts_stop(p2, l);
    let p4 = parts_stop_color(p3, l);
    assert(same_classes(s, p4));
}

proof fn lemma_start_same(s: SeqScanView, t: TagView)
    ensures
        same_classes(s, seq_start(s, t)),
{
    let tag = t.name;
    let s1 = start_lists(SeqScanView { depth: s.depth + 1, element: tag, ..s }, tag);
    lemma_lists_same(s, tag);
    let s2 = start_entry(s1, tag, t.attributes);
    lemma_entry_start_same(s1, tag, t.attributes);
    let s3 = start_node(s2, tag, t.attributes);
    lemma_node_start_same(s2, tag, t.attributes);
    let s4 = start_parts(s3, spec_strip_ns(tag));
    lemma_parts_same(s3, spec_strip_ns(tag));
    lemma_color_same(s4, tag == "Color"@, t.attributes, ColorView::Rgb(Seq::empty(), Seq::empty(), Seq::empty()), false);
}

proof fn lemma_text_same(s: SeqScanView, raw: Seq<char>)
    ensures
        same_classes(s, seq_text(s, raw)),
{
    let t = trimmed(raw);
    let e = s.element;
    let l = spec_strip_ns(e);
    assert(same_classes(s, entry_text(s, l, t)));
    assert(same_classes(s, node_text(s, e, t)));
}

proof fn lemma_end_parts_same(s: SeqScanView, l: Seq<char>)
    ensures
        same_classes(s, end_parts(s, l)),
{
    let p1 = end_pair(s, l);
    assert(same_classes(s, p1));
    let p2 = end_stop_color(p1, l);
    assert(same_classes(s, p2)) by {
        match color_of3(p1.pc_x, p1.pc_y, p1.pc_z, false) {
            Some(c) => lemma_color_same(p1, false, Seq::empty(), c, true),
            None => {},
        }
    }
    let p3 = end_stop(p2, l);
    assert(same_classes(s, p3));
    let p4 = end_direct(p3, l);
    assert(same_classes(s, p4)) by {
        match color_of3(p3.dc_r, p3.dc_g, p3.dc_b, true) {
            Some(c) => lemma_color_same(p3, false, Seq::empty(), c, true),
            None => {},
        }
    }
    let p5 = end_store(p4, l);
    assert(same_classes(s, p5));
}

proof fn lemma_entry_end_keeps(s: SeqScanView)
    requires
        classes_named(s),
    ensures
        classes_named(end_entry(s)),
{
    if s.in_entry && s.depth < s.entry_depth {
        let a = class_by_id(s);
        assert(classes_named(a));
        let b = handling_by_id(a);
        assert(same_classes(a, b));
        let c = entry_by_type(b);
        assert(classes_named(c));
        assert(same_classes(c, entry_reset(c)));
    }
}

proof fn lemma_node_end_keeps(s: SeqScanView)
    requires
        classes_named(s),
    ensures
        classes_named(end_node(s)),
{
    if s.in_node && s.depth < s.node_depth {
        reveal_strlit("Solid");
        let s4 = end_node(s);
        let e = resolved_effect(s);
        assert(e.class_name.len() > 0);
        assert forall|i: int| 0 <= i < s4.effects.len() implies (#[trigger] s4.effects[i]).class_name.len() > 0 by {
            if i < s.effects.len() {
                assert(s4.effects[i] == s.effects[i]);
            }
        }
    }
}

proof fn lemma_end_keeps_classes(s: SeqScanView, tag: Seq<char>)
    requires
        classes_named(s),
    ensures
        classes_named(seq_end(s, tag)),
{
    let depth = if s.depth > 0 {
        s.depth - 1
    } else {
        0
    };
    let s1 = SeqScanView {
        depth,
        in_models: s.in_models && !is_models_tag(tag),
        in_nodes: s.in_nodes && !is_nodes_tag(tag),
        in_media: s.in_media && !is_media_tag(tag),
        ..s
    };
    assert(same_classes(s, s1));
    let l = spec_strip_ns(tag);
    lemma_end_parts_same(s1, l);
    let s2 = end_parts(s1, l);
    lemma_entry_end_keeps(s2);
    lemma_node_end_keeps(end_entry(s2));
}

proof fn lemma_step_keeps_classes(s: SeqScanView, e: XmlEventView)
    requires
        classes_named(s),
    ensures
        classes_named(seq_step(s, e)),
{
    match e {
        XmlEventView::Start(t) => lemma_start_same(s, t),
        XmlEventView::End(n) => lemma_end_keeps_classes(s, n),
        XmlEventView::Empty(t) => lemma_color_same(
            s,
            spec_strip_ns(t.name) == "Color"@,
            t.attributes,
            ColorView::Rgb(Seq::empty(), Seq::empty(), Seq::empty()),
            false,
        ),
        XmlEventView::Text(t) => lemma_text_same(s, t),
        _ => {},
    }
}

proof fn lemma_events_keep_classes(s: SeqScanView, evs: Seq<XmlEventView>)
    requires
        classes_named(s),
    ensures
        classes_named(seq_events(s, evs)),
    decreases evs.len(),
{
    if evs.len() > 0 && !(evs[0] is Eof) {
        lemma_step_keeps_classes(s, evs[0]);
        lemma_events_keep_classes(seq_step(s, evs[0]), evs.drop_first());
    }
}

/// Every effect of a sequence has a class: the class of its instance's
/// data model, else of its module type, else `Solid`; never an empty name.
pub proof fn lemma_effect_classes_named(evs: Seq<XmlEventView>)
    ensures
        forall|i: int|
            0 <= i < sequence_of(evs).effects.len() ==> (#[trigger] sequence_of(evs).effects[i]).class_name.len() > 0,
{
    lemma_events_keep_classes(initial_seq_scan(), evs);
}

/// How an effect node is resolved against the data models read before it
/// closes: its class is that of the model stored under the node's instance
/// id, else that of the model stored under its module type id, else
/// `Solid`; its colour is its own, else that of its instance's model, else
/// that of its type's model. Closing the node adds exactly that effect.
pub proof fn lemma_effect_resolution(s: SeqScanView)
    requires
        s.in_node,
        s.depth < s.node_depth,
    ensures
        end_node(s).effects == s.effects.push(resolved_effect(s)),
        s.tables.types.contains_key(s.instance_id) ==> resolved_effect(s).class_name
            == s.tables.types[s.instance_id],
        !s.tables.types.contains_key(s.instance_id) && s.tables.class_types.contains_key(s.module_id)
            ==> resolved_effect(s).class_name == s.tables.class_types[s.module_id],
        !s.tables.types.contains_key(s.instance_id) && !s.tables.class_types.contains_key(s.module_id)
            ==> resolved_effect(s).class_name == "Solid"@,
        s.effect_color is Some ==> resolved_effect(s).color == s.effect_color,
        s.effect_color is None && s.tables.colors.contains_key(s.instance_id) ==> resolved_effect(s).color
            == Some(s.tables.colors[s.instance_id]),
        s.effect_color is None && !s.tables.colors.contains_key(s.instance_id) && s.tables.colors.contains_key(
            s.module_id,
        ) ==> resolved_effect(s).color == Some(s.tables.colors[s.module_id]),
{
}

/// The names of the curve elements, told apart.
proof fn lemma_curve_names_differ()
    ensures
        !is_movement_name("PulseCurve"@),
        !is_intensity_name("PulseCurve"@),
        !is_intensity_name("ChaseMovement"@),
        !is_intensity_name("MovementCurve"@),
        !is_intensity_name("WipeMovement"@),
        forall|l: Seq<char>| is_intensity_name(l) ==> !is_movement_name(l) && l != "PulseCurve"@,
{
    reveal_strlit("ChaseMovement");
    reveal_strlit("MovementCurve");
    reveal_strlit("WipeMovement");
    reveal_strlit("PulseCurve");
    reveal_strlit("LevelCurve");
    reveal_strlit("IntensityCurve");
    reveal_strlit("Curve");
    reveal_strlit("DissolveCurve");
    reveal_strlit("AccelerationCurve");
    reveal_strlit("SpeedCurve");
    reveal_strlit("Height");
    assert("ChaseMovement"@.len() == 13);
    assert("MovementCurve"@.len() == 13);
    assert("WipeMovement"@.len() == 12);
    assert("PulseCurve"@.len() == 10);
    assert("LevelCurve"@.len() == 10);
    assert("IntensityCurve"@.len() == 14);
    assert("Curve"@.len() == 5);
    assert("DissolveCurve"@.len() == 13);
    assert("AccelerationCurve"@.len() == 17);
    assert("SpeedCurve"@.len() == 10);
    assert("Height"@.len() == 6);
    assert("AccelerationCurve"@[0] == 'A');
    assert("ChaseMovement"@[0] == 'C');
    assert("Curve"@[0] == 'C');
    assert("DissolveCurve"@[0] == 'D');
    assert("Height"@[0] == 'H');
    assert("IntensityCurve"@[0] == 'I');
    assert("LevelCurve"@[0] == 'L');
    assert("MovementCurve"@[0] == 'M');
    assert("PulseCurve"@[0] == 'P');
    assert("SpeedCurve"@[0] == 'S');
    assert("WipeMovement"@[0] == 'W');
}

/// What a curve holds once it closed: the points read into it, under the
/// data model's id, in the table of the curve's kind; the other curve
/// tables unchanged.
pub open spec fn curve_stored(s: SeqScanView, c: SeqScanView, kind: CurveKind, pts: Seq<(Seq<char>, Seq<char>)>) -> bool {
    &&& c.tables.movement == (if kind == CurveKind::Movement {
        s.tables.movement.insert(s.model_id, pts)
    } else {
        s.tables.movement
    })
    &&& c.tables.pulse == (if kind == CurveKind::Pulse {
        s.tables.pulse.insert(s.model_id, pts)
    } else {
        s.tables.pulse
    })
    &&& c.tables.intensity == (if kind == CurveKind::Intensity {
        s.tables.intensity.insert(s.model_id, pts)
    } else {
        s.tables.intensity
    })
}

/// A data model's curve element opens a curve of the kind its name says,
/// and the points read inside it are stored, when it closes, in that kind's
/// table and in no other: the chase and wipe movement curves
/// (`ChaseMovement`, `MovementCurve`, `WipeMovement`) as movement curves,
/// `PulseCurve` as the pulse curve, and the level, intensity, dissolve,
/// acceleration, speed and height curves as intensity curves.
pub proof fn lemma_curve_kinds(s: SeqScanView, l: Seq<char>, pts: Seq<(Seq<char>, Seq<char>)>)
    requires
        pts.len() > 0,
        s.model_id.len() > 0,
    ensures
        (l == "ChaseMovement"@ || l == "MovementCurve"@ || l == "WipeMovement"@) ==> {
            let o = parts_open(s, l);
            &&& o.in_curve && o.curve_kind == CurveKind::Movement
            &&& curve_stored(s, end_store(SeqScanView { points: pts, ..o }, l), CurveKind::Movement, pts)
        },
        l == "PulseCurve"@ ==> {
            let o = parts_open(s, l);
            &&& o.in_curve && o.curve_kind == CurveKind::Pulse
            &&& curve_stored(s, end_store(SeqScanView { points: pts, ..o }, l), CurveKind::Pulse, pts)
        },
        (l == "LevelCurve"@ || l == "IntensityCurve"@ || l == "Curve"@ || l == "DissolveCurve"@
            || l == "AccelerationCurve"@ || l == "SpeedCurve"@ || l == "Height"@) ==> {
            let o = parts_open(s, l);
            &&& o.in_curve && o.curve_kind == CurveKind::Intensity
            &&& curve_stored(s, end_store(SeqScanView { points: pts, ..o }, l), CurveKind::Intensity, pts)
        },
{
    lemma_curve_names_differ();
}

} // verus!
