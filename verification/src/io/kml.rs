//! KML boundary polygon structure.
//!
//! A KML document lists `<Polygon>` elements whose
//! `<outerBoundaryIs><LinearRing><coordinates>` text is the exterior ring
//! and whose `<innerBoundaryIs>…<coordinates>` texts are holes. KML
//! coordinates are `longitude,latitude[,altitude]` tuples separated by
//! whitespace.
//!
//! [`KmlCollector`] is the element state machine: it is fed the start and
//! end tags (by local name) and the ring vertices read from coordinate
//! text, and collects the polygons. The vertex type `C` is chosen by the
//! caller (it is where the coordinate numbers live).
//!
//! [`kml_polygon_texts`] reads a document with quick-xml and feeds its
//! events to a collector, giving polygons whose vertices are the
//! `(longitude, latitude)` texts of the coordinate lists.

use vstd::prelude::*;
use vstd::string::*;
use vstd::utf8::{valid_utf8, decode_utf8};
use crate::chars::{is_ws, chars_of, count_char, split, split_ranges};
use crate::error::IoError;
use crate::text::{decimal, push_decimal};
use quick_xml::events::Event;
use quick_xml::Reader;
use self::KmlToken::{BadText, End, Other, Start, Text};

verus! {

// ---------------------------------------------------------------------------
// Tag names
// ---------------------------------------------------------------------------

/// Text of the bytes when they are valid UTF-8, else the empty string.
pub open spec fn utf8_or_empty(b: Seq<u8>) -> Seq<char> {
    if valid_utf8(b) {
        decode_utf8(b)
    } else {
        Seq::empty()
    }
}

/// Last `:`-separated segment of `s` (the local part of a prefixed name).
pub open spec fn after_last_colon(s: Seq<char>) -> Seq<char> {
    split(s, ':').last()
}

/// `std::str::from_utf8`: the text of `b` when it is valid UTF-8.
#[verifier::external_body]
fn str_from_utf8(b: &[u8]) -> (r: Option<&str>)
    ensures
        r matches Some(s) ==> valid_utf8(b@) && s@ == decode_utf8(b@),
        r is None ==> !valid_utf8(b@),
{
    match std::str::from_utf8(b) {
        Ok(s) => Some(s),
        Err(_) => None,
    }
}

/// Extract the local name from a potentially namespace-prefixed tag,
/// e.g. `kml:Polygon` → `Polygon`; bytes that are not UTF-8 give `""`.
pub fn local_name(name: &[u8]) -> (local: &str)
    ensures
        local@ == after_last_colon(utf8_or_empty(name@)),
{
    let s: &str = match str_from_utf8(name) {
        Some(s) => s,
        None => {
            proof { reveal_strlit(""); }
            ""
        },
    };
    let cs = chars_of(s);
    let r = split_ranges(&cs, 0, cs.len(), ':');
    let last = r[r.len() - 1];
    assert(cs@.subrange(0, cs@.len() as int) =~= s@);
    s.substring_char(last.0, last.1)
}

// ---------------------------------------------------------------------------
// Coordinate text
// ---------------------------------------------------------------------------

/// State of splitting the first `n` characters of `s` into whitespace-separated
/// words: the completed words and the word being built.
pub open spec fn words_prefix(s: Seq<char>, n: nat) -> (Seq<Seq<char>>, Seq<char>)
    decreases n,
{
    if n == 0 {
        (seq![], seq![])
    } else {
        let (done, cur) = words_prefix(s, (n - 1) as nat);
        if is_ws(s[n - 1]) {
            if cur.len() > 0 {
                (done.push(cur), seq![])
            } else {
                (done, cur)
            }
        } else {
            (done, cur.push(s[n - 1]))
        }
    }
}

/// The non-empty whitespace-separated words of `s` (`str::split_whitespace`).
pub open spec fn words(s: Seq<char>) -> Seq<Seq<char>> {
    let (done, cur) = words_prefix(s, s.len());
    if cur.len() > 0 {
        done.push(cur)
    } else {
        done
    }
}

/// The `(longitude, latitude)` texts of the tuples of a KML coordinate list:
/// the first two comma-separated parts of each word that has at least two.
pub open spec fn coordinate_tuples(s: Seq<char>) -> Seq<(Seq<char>, Seq<char>)>
    decreases words(s).len(),
{
    tuples_of(words(s))
}

pub open spec fn tuples_of(ws: Seq<Seq<char>>) -> Seq<(Seq<char>, Seq<char>)>
    decreases ws.len(),
{
    if ws.len() == 0 {
        seq![]
    } else {
        let rest = tuples_of(ws.drop_last());
        let parts = split(ws.last(), ',');
        if parts.len() < 2 {
            rest
        } else {
            rest.push((parts[0], parts[1]))
        }
    }
}

/// Ranges of the whitespace-separated words of `s`.
fn word_ranges(s: &Vec<char>) -> (r: Vec<(usize, usize)>)
    ensures
        r@.len() == words(s@).len(),
        forall|k: int|
            0 <= k < r@.len() ==> (#[trigger] r@[k]).0 <= r@[k].1 <= s@.len() && s@.subrange(
                r@[k].0 as int,
                r@[k].1 as int,
            ) == words(s@)[k],
{
    let mut r: Vec<(usize, usize)> = Vec::new();
    let mut start: usize = 0;
    let mut i: usize = 0;
    while i < s.len()
        invariant
            start <= i <= s@.len(),
            r@.len() == words_prefix(s@, i as nat).0.len(),
            s@.subrange(start as int, i as int) == words_prefix(s@, i as nat).1,
            forall|k: int|
                0 <= k < r@.len() ==> (#[trigger] r@[k]).0 <= r@[k].1 <= s@.len()
                    && s@.subrange(r@[k].0 as int, r@[k].1 as int) == words_prefix(
                    s@,
                    i as nat,
                ).0[k],
        decreases s.len() - i,
    {
        if crate::chars::is_whitespace(s[i]) {
            if i > start {
                r.push((start, i));
            }
            start = i + 1;
            assert(s@.subrange(start as int, (i + 1) as int) =~= Seq::<char>::empty());
        } else {
            assert(s@.subrange(start as int, (i + 1) as int) =~= s@.subrange(start as int, i as int).push(
                s@[i as int],
            ));
        }
        i = i + 1;
    }
    if i > start {
        r.push((start, i));
    }
    r
}

/// Split KML coordinate text `lon,lat[,alt] lon,lat[,alt] …` into
/// `(longitude, latitude)` texts, skipping tuples with fewer than two parts.
pub fn coordinate_texts(text: &str) -> (t: Vec<(String, String)>)
    ensures
        t@.len() == coordinate_tuples(text@).len(),
        forall|k: int|
            0 <= k < t@.len() ==> (#[trigger] t@[k]).0@ == coordinate_tuples(text@)[k].0 && t@[k].1@
                == coordinate_tuples(text@)[k].1,
{
    let cs = chars_of(text);
    let w = word_ranges(&cs);
    let ghost ws = words(text@);
    let mut out: Vec<(String, String)> = Vec::new();
    let mut k: usize = 0;
    while k < w.len()
        invariant
            k <= w@.len(),
            cs@ == text@,
            ws == words(text@),
            w@.len() == ws.len(),
            forall|j: int|
                0 <= j < w@.len() ==> (#[trigger] w@[j]).0 <= w@[j].1 <= cs@.len()
                    && cs@.subrange(w@[j].0 as int, w@[j].1 as int) == ws[j],
            out@.len() == tuples_of(ws.take(k as int)).len(),
            forall|j: int|
                0 <= j < out@.len() ==> (#[trigger] out@[j]).0@ == tuples_of(ws.take(k as int))[j].0
                    && out@[j].1@ == tuples_of(ws.take(k as int))[j].1,
        decreases w.len() - k,
    {
        let (a, b) = w[k];
        let parts = split_ranges(&cs, a, b, ',');
        proof {
            assert(ws.take(k + 1).drop_last() =~= ws.take(k as int));
            assert(ws.take(k + 1).last() == ws[k as int]);
        }
        if parts.len() >= 2 {
            let lon = String::from_str(text.substring_char(parts[0].0, parts[0].1));
            let lat = String::from_str(text.substring_char(parts[1].0, parts[1].1));
            out.push((lon, lat));
        }
        k = k + 1;
    }
    assert(ws.take(k as int) =~= ws);
    out
}

// ---------------------------------------------------------------------------
// Polygon collection
// ---------------------------------------------------------------------------

/// A polygon read from KML: an exterior ring and any number of holes.
pub struct KmlPolygon<C> {
    pub exterior: Vec<C>,
    pub interiors: Vec<Vec<C>>,
}

/// Abstract state of the collector.
pub struct KmlState<C> {
    pub in_polygon: bool,
    pub in_outer: bool,
    pub in_inner: bool,
    pub in_coordinates: bool,
    pub exterior: Seq<C>,
    pub interiors: Seq<Seq<C>>,
    pub current_ring: Seq<C>,
    pub polygons: Seq<(Seq<C>, Seq<Seq<C>>)>,
}

pub open spec fn rings_view<C>(v: Seq<Vec<C>>) -> Seq<Seq<C>> {
    v.map_values(|r: Vec<C>| r@)
}

/// The state of a fresh collector.
pub open spec fn initial_state<C>() -> KmlState<C> {
    KmlState {
        in_polygon: false,
        in_outer: false,
        in_inner: false,
        in_coordinates: false,
        exterior: seq![],
        interiors: seq![],
        current_ring: seq![],
        polygons: seq![],
    }
}

/// Effect of a start tag with local name `n`: `Polygon` opens a polygon and
/// clears its rings; inside a polygon `outerBoundaryIs` / `innerBoundaryIs`
/// select the ring kind, and `coordinates` under one of them starts a ring.
pub open spec fn on_start<C>(st: KmlState<C>, n: Seq<char>) -> KmlState<C> {
    if n == "Polygon"@ {
        KmlState { in_polygon: true, exterior: seq![], interiors: seq![], ..st }
    } else if n == "outerBoundaryIs"@ && st.in_polygon {
        KmlState { in_outer: true, ..st }
    } else if n == "innerBoundaryIs"@ && st.in_polygon {
        KmlState { in_inner: true, ..st }
    } else if n == "coordinates"@ && st.in_polygon && (st.in_outer || st.in_inner) {
        KmlState { in_coordinates: true, current_ring: seq![], ..st }
    } else {
        st
    }
}

/// Effect of an end tag with local name `n`: `Polygon` emits the polygon
/// when it has an exterior ring; `coordinates` ends the ring, which becomes
/// the exterior (outer boundary) or a hole (inner boundary).
pub open spec fn on_end<C>(st: KmlState<C>, n: Seq<char>) -> KmlState<C> {
    if n == "Polygon"@ {
        if st.exterior.len() > 0 {
            KmlState {
                in_polygon: false,
                polygons: st.polygons.push((st.exterior, st.interiors)),
                exterior: seq![],
                interiors: seq![],
                ..st
            }
        } else {
            KmlState { in_polygon: false, ..st }
        }
    } else if n == "outerBoundaryIs"@ {
        KmlState { in_outer: false, ..st }
    } else if n == "innerBoundaryIs"@ {
        KmlState { in_inner: false, ..st }
    } else if n == "coordinates"@ && st.in_coordinates {
        if st.in_outer {
            KmlState { in_coordinates: false, exterior: st.current_ring, current_ring: seq![], ..st }
        } else if st.in_inner {
            KmlState {
                in_coordinates: false,
                interiors: st.interiors.push(st.current_ring),
                current_ring: seq![],
                ..st
            }
        } else {
            KmlState { in_coordinates: false, ..st }
        }
    } else {
        st
    }
}

/// Collects the polygons of a KML document from its element events.
pub struct KmlCollector<C> {
    in_polygon: bool,
    in_outer: bool,
    in_inner: bool,
    in_coordinates: bool,
    exterior: Vec<C>,
    interiors: Vec<Vec<C>>,
    current_ring: Vec<C>,
    polygons: Vec<KmlPolygon<C>>,
}

impl<C> KmlCollector<C> {
    /// Abstract state.
    pub closed spec fn state(&self) -> KmlState<C> {
        KmlState {
            in_polygon: self.in_polygon,
            in_outer: self.in_outer,
            in_inner: self.in_inner,
            in_coordinates: self.in_coordinates,
            exterior: self.exterior@,
            interiors: rings_view(self.interiors@),
            current_ring: self.current_ring@,
            polygons: self.polygons@.map_values(
                |p: KmlPolygon<C>| (p.exterior@, rings_view(p.interiors@)),
            ),
        }
    }

    /// A collector outside any element.
    pub fn new() -> (k: Self)
        ensures
            k.state() == initial_state::<C>(),
    {
        let k = KmlCollector {
            in_polygon: false,
            in_outer: false,
            in_inner: false,
            in_coordinates: false,
            exterior: Vec::new(),
            interiors: Vec::new(),
            current_ring: Vec::new(),
            polygons: Vec::new(),
        };
        assert(k.state().interiors =~= Seq::<Seq<C>>::empty());
        assert(k.state().polygons =~= Seq::<(Seq<C>, Seq<Seq<C>>)>::empty());
        k
    }

    /// Whether coordinate text is currently being read into a ring.
    pub fn in_coordinates(&self) -> (b: bool)
        ensures
            b == self.state().in_coordinates,
    {
        self.in_coordinates
    }

    /// Process a start tag with local name `name`.
    pub fn start_element(&mut self, name: &str)
        ensures
            final(self).state() == on_start(old(self).state(), name@),
    {
        proof {
            reveal_strlit("Polygon");
            reveal_strlit("outerBoundaryIs");
            reveal_strlit("innerBoundaryIs");
            reveal_strlit("coordinates");
        }
        let cs = chars_of(name);
        let n = cs.len();
        if name_is(&cs, "Polygon") {
            self.in_polygon = true;
            self.exterior = Vec::new();
            self.interiors = Vec::new();
            assert(rings_view(self.interiors@) =~= Seq::<Seq<C>>::empty());
        } else if name_is(&cs, "outerBoundaryIs") && self.in_polygon {
            self.in_outer = true;
        } else if name_is(&cs, "innerBoundaryIs") && self.in_polygon {
            self.in_inner = true;
        } else if name_is(&cs, "coordinates") && self.in_polygon && (self.in_outer
            || self.in_inner) {
            self.in_coordinates = true;
            self.current_ring = Vec::new();
        }
    }

    /// Process an end tag with local name `name`.
    pub fn end_element(&mut self, name: &str)
        ensures
            final(self).state() == on_end(old(self).state(), name@),
    {
        let cs = chars_of(name);
        if name_is(&cs, "Polygon") {
            if self.exterior.len() > 0 {
                let mut ext: Vec<C> = Vec::new();
                let mut ints: Vec<Vec<C>> = Vec::new();
                std::mem::swap(&mut ext, &mut self.exterior);
                std::mem::swap(&mut ints, &mut self.interiors);
                let ghost before = self.polygons@;
                self.polygons.push(KmlPolygon { exterior: ext, interiors: ints });
                assert(rings_view(self.interiors@) =~= Seq::<Seq<C>>::empty());
                assert(self.polygons@.map_values(
                    |p: KmlPolygon<C>| (p.exterior@, rings_view(p.interiors@)),
                ) =~= old(self).state().polygons.push(
                    (old(self).state().exterior, old(self).state().interiors),
                ));
            }
            self.in_polygon = false;
        } else if name_is(&cs, "outerBoundaryIs") {
            self.in_outer = false;
        } else if name_is(&cs, "innerBoundaryIs") {
            self.in_inner = false;
        } else if name_is(&cs, "coordinates") && self.in_coordinates {
            if self.in_outer {
                let mut ring: Vec<C> = Vec::new();
                std::mem::swap(&mut ring, &mut self.current_ring);
                self.exterior = ring;
            } else if self.in_inner {
                let mut ring: Vec<C> = Vec::new();
                std::mem::swap(&mut ring, &mut self.current_ring);
                self.interiors.push(ring);
                assert(rings_view(self.interiors@) =~= old(self).state().interiors.push(
                    old(self).state().current_ring,
                ));
            }
            self.in_coordinates = false;
        }
    }

    /// Append a vertex read from coordinate text to the current ring.
    pub fn push_coordinate(&mut self, c: C)
        ensures
            final(self).state() == (KmlState {
                current_ring: old(self).state().current_ring.push(c),
                ..old(self).state()
            }),
    {
        self.current_ring.push(c);
    }

    /// The polygons collected so far, in document order.
    pub fn into_polygons(self) -> (p: Vec<KmlPolygon<C>>)
        ensures
            p@.map_values(|q: KmlPolygon<C>| (q.exterior@, rings_view(q.interiors@)))
                == self.state().polygons,
    {
        self.polygons
    }
}

/// One element event as the collector receives it.
pub enum KmlStep<C> {
    Start(Seq<char>),
    End(Seq<char>),
    Vertex(C),
}

/// The collector state after one event.
pub open spec fn apply_step<C>(st: KmlState<C>, e: KmlStep<C>) -> KmlState<C> {
    match e {
        KmlStep::Start(n) => on_start(st, n),
        KmlStep::End(n) => on_end(st, n),
        KmlStep::Vertex(c) => KmlState { current_ring: st.current_ring.push(c), ..st },
    }
}

/// The collector state after a sequence of events, from a fresh collector.
pub open spec fn run_steps<C>(steps: Seq<KmlStep<C>>) -> KmlState<C>
    decreases steps.len(),
{
    if steps.len() == 0 {
        initial_state()
    } else {
        apply_step(run_steps(steps.drop_last()), steps.last())
    }
}

/// Every collected polygon has a non-empty exterior ring.
pub open spec fn exteriors_nonempty<C>(st: KmlState<C>) -> bool {
    forall|i: int| 0 <= i < st.polygons.len() ==> (#[trigger] st.polygons[i]).0.len() > 0
}

/// Whatever the document, a polygon is only ever emitted with an exterior
/// ring: `<Polygon>` elements without an outer boundary are dropped.
pub proof fn law_collected_polygons_have_exterior<C>(steps: Seq<KmlStep<C>>)
    ensures
        exteriors_nonempty(run_steps(steps)),
    decreases steps.len(),
{
    if steps.len() > 0 {
        law_collected_polygons_have_exterior(steps.drop_last());
        let st = run_steps(steps.drop_last());
        let st2 = apply_step(st, steps.last());
        assert forall|i: int| 0 <= i < st2.polygons.len() implies (#[trigger] st2.polygons[i]).0.len()
            > 0 by {
            if i < st.polygons.len() {
                assert(st.polygons[i].0.len() > 0);
            }
        }
    }
}

/// Ending the `<coordinates>` of a boundary files the ring read: under an
/// outer boundary it becomes the exterior; under an inner boundary it is
/// added as one more hole after every earlier hole, which are kept as they
/// were. Either way the ring being read is emptied and nothing else moves.
pub proof fn law_ring_end_files_the_ring<C>(st: KmlState<C>)
    requires
        st.in_coordinates,
    ensures
        ({
            let r = on_end(st, "coordinates"@);
            &&& !r.in_coordinates
            &&& (st.in_outer || st.in_inner) ==> r.current_ring.len() == 0
            &&& r.polygons == st.polygons
            &&& st.in_outer ==> r.exterior == st.current_ring && r.interiors == st.interiors
            &&& !st.in_outer && st.in_inner ==> {
                &&& r.interiors.len() == st.interiors.len() + 1
                &&& forall|j: int| 0 <= j < st.interiors.len() ==> r.interiors[j] == st.interiors[j]
                &&& r.interiors[st.interiors.len() as int] == st.current_ring
                &&& r.exterior == st.exterior
            }
        }),
{
    lemma_tag_names_differ();
}

proof fn lemma_tag_names_differ()
    ensures
        "coordinates"@ != "Polygon"@,
        "coordinates"@ != "outerBoundaryIs"@,
        "coordinates"@ != "innerBoundaryIs"@,
        "outerBoundaryIs"@ != "Polygon"@,
        "innerBoundaryIs"@ != "Polygon"@,
        "innerBoundaryIs"@ != "outerBoundaryIs"@,
{
    reveal_strlit("coordinates");
    reveal_strlit("Polygon");
    reveal_strlit("outerBoundaryIs");
    reveal_strlit("innerBoundaryIs");
    assert("coordinates"@.len() == 11 && "Polygon"@.len() == 7);
    assert("outerBoundaryIs"@.len() == 15 && "innerBoundaryIs"@.len() == 15);
    assert("outerBoundaryIs"@[0] != "innerBoundaryIs"@[0]);
}

/// The collector state after a sequence of events, from state `st`.
pub open spec fn apply_steps<C>(st: KmlState<C>, steps: Seq<KmlStep<C>>) -> KmlState<C>
    decreases steps.len(),
{
    if steps.len() == 0 {
        st
    } else {
        apply_step(apply_steps(st, steps.drop_last()), steps.last())
    }
}

/// The vertex events of a ring.
pub open spec fn vertex_steps<C>(r: Seq<C>) -> Seq<KmlStep<C>> {
    r.map_values(|c: C| KmlStep::Vertex(c))
}

/// The events of `<boundary><coordinates>…</coordinates></boundary>` for a
/// ring.
pub open spec fn ring_steps<C>(boundary: Seq<char>, r: Seq<C>) -> Seq<KmlStep<C>> {
    seq![KmlStep::Start(boundary), KmlStep::Start("coordinates"@)] + vertex_steps(r) + seq![
        KmlStep::End("coordinates"@),
        KmlStep::End(boundary),
    ]
}

/// The events of one inner boundary per hole, in order.
pub open spec fn hole_steps<C>(holes: Seq<Seq<C>>) -> Seq<KmlStep<C>>
    decreases holes.len(),
{
    if holes.len() == 0 {
        seq![]
    } else {
        hole_steps(holes.drop_last()) + ring_steps("innerBoundaryIs"@, holes.last())
    }
}

/// The events of a `<Polygon>` with an outer boundary `ext` followed by one
/// inner boundary per hole.
pub open spec fn polygon_steps<C>(ext: Seq<C>, holes: Seq<Seq<C>>) -> Seq<KmlStep<C>> {
    seq![KmlStep::Start("Polygon"@)] + ring_steps("outerBoundaryIs"@, ext) + hole_steps(holes)
        + seq![KmlStep::End("Polygon"@)]
}

/// The collector is outside any polygon element.
pub open spec fn outside_polygon<C>(st: KmlState<C>) -> bool {
    !st.in_polygon && !st.in_outer && !st.in_inner && !st.in_coordinates
}

proof fn lemma_apply_steps_concat<C>(st: KmlState<C>, a: Seq<KmlStep<C>>, b: Seq<KmlStep<C>>)
    ensures
        apply_steps(st, a + b) == apply_steps(apply_steps(st, a), b),
    decreases b.len(),
{
    if b.len() == 0 {
        assert(a + b =~= a);
    } else {
        assert((a + b).drop_last() =~= a + b.drop_last());
        assert((a + b).last() == b.last());
        lemma_apply_steps_concat(st, a, b.drop_last());
    }
}

proof fn lemma_vertex_steps<C>(st: KmlState<C>, r: Seq<C>)
    ensures
        apply_steps(st, vertex_steps(r)) == (KmlState { current_ring: st.current_ring + r, ..st }),
    decreases r.len(),
{
    if r.len() == 0 {
        assert(st.current_ring + r =~= st.current_ring);
        assert(vertex_steps(r) =~= Seq::<KmlStep<C>>::empty());
    } else {
        assert(vertex_steps(r).drop_last() =~= vertex_steps(r.drop_last()));
        lemma_vertex_steps(st, r.drop_last());
        assert((st.current_ring + r.drop_last()).push(r.last()) =~= st.current_ring + r);
    }
}

/// Events of a ring under `boundary`, from a state inside a polygon and
/// outside any boundary: the state after the opening tags and the vertices.
proof fn lemma_ring_steps<C>(st: KmlState<C>, boundary: Seq<char>, r: Seq<C>)
    requires
        st.in_polygon,
        !st.in_outer,
        !st.in_inner,
        !st.in_coordinates,
        boundary == "outerBoundaryIs"@ || boundary == "innerBoundaryIs"@,
    ensures
        boundary == "outerBoundaryIs"@ ==> apply_steps(st, ring_steps(boundary, r)) == (KmlState {
            exterior: r,
            current_ring: seq![],
            ..st
        }),
        boundary == "innerBoundaryIs"@ ==> apply_steps(st, ring_steps(boundary, r)) == (KmlState {
            interiors: st.interiors.push(r),
            current_ring: seq![],
            ..st
        }),
{
    lemma_tag_names_differ();
    let open2 = seq![KmlStep::Start(boundary), KmlStep::Start("coordinates"@)];
    let close2 = seq![KmlStep::<C>::End("coordinates"@), KmlStep::End(boundary)];
    lemma_apply_steps_concat(st, open2 + vertex_steps(r), close2);
    lemma_apply_steps_concat(st, open2, vertex_steps(r));
    lemma_apply_two(st, KmlStep::Start(boundary), KmlStep::Start("coordinates"@));
    let s1 = apply_steps(st, open2);
    assert(s1 == on_start(on_start(st, boundary), "coordinates"@));
    lemma_vertex_steps(s1, r);
    let s2 = apply_steps(s1, vertex_steps(r));
    assert(seq![] + r =~= r);
    lemma_apply_two(s2, KmlStep::End("coordinates"@), KmlStep::End(boundary));
}

proof fn lemma_apply_two<C>(st: KmlState<C>, a: KmlStep<C>, b: KmlStep<C>)
    ensures
        apply_steps(st, seq![a, b]) == apply_step(apply_step(st, a), b),
        apply_steps(st, seq![a]) == apply_step(st, a),
{
    let one = seq![a];
    let two = seq![a, b];
    assert(two.drop_last() =~= one);
    assert(two.last() == b);
    assert(one.drop_last() =~= Seq::<KmlStep<C>>::empty());
    assert(one.last() == a);
    assert(apply_steps(st, Seq::<KmlStep<C>>::empty()) == st);
    assert(apply_steps(st, one) == apply_step(apply_steps(st, one.drop_last()), one.last()));
    assert(apply_steps(st, two) == apply_step(apply_steps(st, two.drop_last()), two.last()));
}

proof fn lemma_hole_steps<C>(st: KmlState<C>, holes: Seq<Seq<C>>)
    requires
        st.in_polygon,
        !st.in_outer,
        !st.in_inner,
        !st.in_coordinates,
        st.current_ring.len() == 0,
    ensures
        apply_steps(st, hole_steps(holes)) == (KmlState { interiors: st.interiors + holes, ..st }),
    decreases holes.len(),
{
    if holes.len() == 0 {
        assert(st.interiors + holes =~= st.interiors);
    } else {
        lemma_hole_steps(st, holes.drop_last());
        let mid = apply_steps(st, hole_steps(holes.drop_last()));
        lemma_apply_steps_concat(st, hole_steps(holes.drop_last()), ring_steps("innerBoundaryIs"@, holes.last()));
        lemma_ring_steps(mid, "innerBoundaryIs"@, holes.last());
        assert((st.interiors + holes.drop_last()).push(holes.last()) =~= st.interiors + holes);
        assert(st.current_ring =~= seq![]);
    }
}

/// A `<Polygon>` read from outside any polygon, with an outer boundary
/// ring `ext` (non-empty) and one inner boundary per hole, emits exactly
/// one polygon: `ext` as its exterior and every hole, in document order,
/// as its interiors. Earlier polygons are kept.
pub proof fn law_polygon_keeps_every_hole<C>(st: KmlState<C>, ext: Seq<C>, holes: Seq<Seq<C>>)
    requires
        outside_polygon(st),
        ext.len() > 0,
    ensures
        apply_steps(st, polygon_steps(ext, holes)).polygons == st.polygons.push((ext, holes)),
        outside_polygon(apply_steps(st, polygon_steps(ext, holes))),
{
    lemma_tag_names_differ();
    let open1 = seq![KmlStep::<C>::Start("Polygon"@)];
    let outer = ring_steps("outerBoundaryIs"@, ext);
    let hs = hole_steps(holes);
    let close1 = seq![KmlStep::<C>::End("Polygon"@)];
    lemma_apply_steps_concat(st, open1 + outer + hs, close1);
    lemma_apply_steps_concat(st, open1 + outer, hs);
    lemma_apply_steps_concat(st, open1, outer);
    lemma_apply_two(st, KmlStep::Start("Polygon"@), KmlStep::Start("Polygon"@));
    let s1 = apply_steps(st, open1);
    assert(s1 == on_start(st, "Polygon"@));
    lemma_ring_steps(s1, "outerBoundaryIs"@, ext);
    let s2 = apply_steps(s1, outer);
    lemma_hole_steps(s2, holes);
    let s3 = apply_steps(s2, hs);
    assert(s2.interiors + holes =~= holes);
    lemma_apply_two(s3, KmlStep::End("Polygon"@), KmlStep::End("Polygon"@));
}

/// From a fresh collector, a document made of one such `<Polygon>` yields
/// that polygon alone.
pub proof fn law_single_polygon_document<C>(ext: Seq<C>, holes: Seq<Seq<C>>)
    requires
        ext.len() > 0,
    ensures
        run_steps(polygon_steps(ext, holes)).polygons == seq![(ext, holes)],
{
    lemma_run_is_apply(polygon_steps(ext, holes));
    law_polygon_keeps_every_hole(initial_state::<C>(), ext, holes);
    assert(initial_state::<C>().polygons.push((ext, holes)) =~= seq![(ext, holes)]);
}

proof fn lemma_run_is_apply<C>(steps: Seq<KmlStep<C>>)
    ensures
        run_steps(steps) == apply_steps(initial_state::<C>(), steps),
    decreases steps.len(),
{
    if steps.len() > 0 {
        lemma_run_is_apply(steps.drop_last());
    }
}

/// Whether the characters `cs` spell `lit`.
fn name_is(cs: &Vec<char>, lit: &str) -> (b: bool)
    ensures
        b == (cs@ == lit@),
{
    let n = lit.unicode_len();
    if cs.len() != n {
        return false;
    }
    let mut k: usize = 0;
    while k < n
        invariant
            k <= n,
            n == lit@.len(),
            cs@.len() == n,
            forall|j: int| 0 <= j < k ==> cs@[j] == lit@[j],
        decreases n - k,
    {
        if cs[k] != lit.get_char(k) {
            return false;
        }
        k = k + 1;
    }
    assert(cs@ =~= lit@);
    true
}

// ---------------------------------------------------------------------------
// Reading a document
// ---------------------------------------------------------------------------

/// One event of a KML document as quick-xml reads it (text trimmed).
pub enum KmlToken {
    /// A start tag, by its qualified name.
    Start(Vec<u8>),
    /// An end tag, by its qualified name.
    End(Vec<u8>),
    /// Character data, unescaped.
    Text(String),
    /// Character data that could not be unescaped, with the error's text.
    BadText(String),
    /// Any other event (empty element, comment, CDATA, declaration, …).
    Other,
}

/// Abstract token.
pub enum KmlTok {
    Start(Seq<u8>),
    End(Seq<u8>),
    Text(Seq<char>),
    BadText(Seq<char>),
    Other,
}

impl View for KmlToken {
    type V = KmlTok;

    open spec fn view(&self) -> KmlTok {
        match self {
            KmlToken::Start(n) => KmlTok::Start(n@),
            KmlToken::End(n) => KmlTok::End(n@),
            KmlToken::Text(t) => KmlTok::Text(t@),
            KmlToken::BadText(m) => KmlTok::BadText(m@),
            KmlToken::Other => KmlTok::Other,
        }
    }
}

/// Views of a list of tokens.
pub open spec fn tokens_view(t: Seq<KmlToken>) -> Seq<KmlTok> {
    t.map_values(|x: KmlToken| x@)
}

/// View of a read error: the reader's byte position and the error's text.
pub open spec fn read_error_view(e: Option<(u64, String)>) -> Option<(u64, Seq<char>)> {
    match e {
        Some((pos, m)) => Some((pos, m@)),
        None => None,
    }
}

/// What quick-xml's `Reader` (trimming text) reads from a document: the
/// events up to the end of the input or up to the first read error, and
/// that error (position and text), if any.
pub uninterp spec fn kml_scan(xml: Seq<u8>) -> (Seq<KmlTok>, Option<(u64, Seq<char>)>);

/// Read a document with `quick_xml::Reader` (text trimmed), event by event
/// until the end or the first error, converting each event to a token:
/// start and end tags by their qualified name, character data by
/// `BytesText::unescape`. The result is a function of the bytes alone.
#[verifier::external_body]
fn read_kml_tokens(xml: &[u8]) -> (r: (Vec<KmlToken>, Option<(u64, String)>))
    ensures
        (tokens_view(r.0@), read_error_view(r.1)) == kml_scan(xml@),
{
    let mut reader = Reader::from_reader(xml);
    reader.config_mut().trim_text(true);
    let mut toks = Vec::new();
    loop {
        toks.push(match reader.read_event() {
            Ok(Event::Start(e)) => Start(e.name().0.into()),
            Ok(Event::End(e)) => End(e.name().0.into()),
            Ok(Event::Text(e)) => match e.unescape() { Ok(t) => Text(t.into()), Err(x) => BadText(x.to_string()) },
            Ok(Event::Eof) => return (toks, None),
            Ok(_) => Other,
            Err(x) => return (toks, Some((reader.buffer_position(), x.to_string()))),
        });
    }
}

/// A vertex as a pair of texts.
pub open spec fn pair_v(c: (String, String)) -> (Seq<char>, Seq<char>) {
    (c.0@, c.1@)
}

/// A ring of text vertices, by views.
pub open spec fn ring_v(r: Seq<(String, String)>) -> Seq<(Seq<char>, Seq<char>)> {
    r.map_values(|c: (String, String)| pair_v(c))
}

/// Rings of text vertices, by views.
pub open spec fn rings_v(rs: Seq<Seq<(String, String)>>) -> Seq<Seq<(Seq<char>, Seq<char>)>> {
    rs.map_values(|r: Seq<(String, String)>| ring_v(r))
}

/// A collector state over text vertices, by views.
pub open spec fn state_v(st: KmlState<(String, String)>) -> KmlState<(Seq<char>, Seq<char>)> {
    KmlState {
        in_polygon: st.in_polygon,
        in_outer: st.in_outer,
        in_inner: st.in_inner,
        in_coordinates: st.in_coordinates,
        exterior: ring_v(st.exterior),
        interiors: rings_v(st.interiors),
        current_ring: ring_v(st.current_ring),
        polygons: st.polygons.map_values(
            |p: (Seq<(String, String)>, Seq<Seq<(String, String)>>)| (ring_v(p.0), rings_v(p.1)),
        ),
    }
}

/// Polygons of text vertices, by views.
pub open spec fn polygons_v(p: Seq<KmlPolygon<(String, String)>>) -> Seq<
    (Seq<(Seq<char>, Seq<char>)>, Seq<Seq<(Seq<char>, Seq<char>)>>),
> {
    p.map_values(
        |q: KmlPolygon<(String, String)>|
            (ring_v(q.exterior@), rings_v(rings_view(q.interiors@))),
    )
}

/// The collector state after one token, or the error it raises: tags go by
/// their local name; text is only read inside `<coordinates>`, where its
/// `(longitude, latitude)` tuples are appended to the ring, and where text
/// that cannot be unescaped fails with `KML text error: …`.
pub open spec fn token_step(st: KmlState<(Seq<char>, Seq<char>)>, t: KmlTok) -> Result<
    KmlState<(Seq<char>, Seq<char>)>,
    Seq<char>,
> {
    match t {
        KmlTok::Start(n) => Ok(on_start(st, after_last_colon(utf8_or_empty(n)))),
        KmlTok::End(n) => Ok(on_end(st, after_last_colon(utf8_or_empty(n)))),
        KmlTok::Text(x) => if st.in_coordinates {
            Ok(KmlState { current_ring: st.current_ring + coordinate_tuples(x), ..st })
        } else {
            Ok(st)
        },
        KmlTok::BadText(m) => if st.in_coordinates {
            Err("KML text error: "@ + m)
        } else {
            Ok(st)
        },
        KmlTok::Other => Ok(st),
    }
}

/// The collector state after a token list, from a fresh collector, or the
/// first error.
pub open spec fn scan_tokens(toks: Seq<KmlTok>) -> Result<KmlState<(Seq<char>, Seq<char>)>, Seq<char>>
    decreases toks.len(),
{
    if toks.len() == 0 {
        Ok(initial_state())
    } else {
        match scan_tokens(toks.drop_last()) {
            Ok(st) => token_step(st, toks.last()),
            Err(m) => Err(m),
        }
    }
}

/// The polygons of a read document, or the message of its failure: a text
/// error inside the tokens read comes first; then a read error fails with
/// `KML parse error at position <byte>: …`.
pub open spec fn kml_outcome(toks: Seq<KmlTok>, err: Option<(u64, Seq<char>)>) -> Result<
    Seq<(Seq<(Seq<char>, Seq<char>)>, Seq<Seq<(Seq<char>, Seq<char>)>>)>,
    Seq<char>,
> {
    match scan_tokens(toks) {
        Err(m) => Err(m),
        Ok(st) => match err {
            Some((pos, m)) => Err(
                "KML parse error at position "@ + decimal(pos as nat) + ": "@ + m,
            ),
            None => Ok(st.polygons),
        },
    }
}

/// `r` is the outcome `o`: the polygons (by views) or a serialization
/// error with that message.
pub open spec fn kml_result_is(
    r: Result<Vec<KmlPolygon<(String, String)>>, IoError>,
    o: Result<Seq<(Seq<(Seq<char>, Seq<char>)>, Seq<Seq<(Seq<char>, Seq<char>)>>)>, Seq<char>>,
) -> bool {
    match o {
        Ok(ps) => r matches Ok(p) && polygons_v(p@) == ps,
        Err(m) => r matches Err(e) && e matches IoError::Serialization(t) && t@ == m,
    }
}

proof fn lemma_state_v_start(st: KmlState<(String, String)>, n: Seq<char>)
    ensures
        state_v(on_start(st, n)) == on_start(state_v(st), n),
{
    assert(ring_v(seq![]) =~= seq![]);
    assert(rings_v(seq![]) =~= seq![]);
}

proof fn lemma_state_v_end(st: KmlState<(String, String)>, n: Seq<char>)
    ensures
        state_v(on_end(st, n)) == on_end(state_v(st), n),
{
    assert(ring_v(seq![]) =~= seq![]);
    assert(rings_v(seq![]) =~= seq![]);
    assert(rings_v(st.interiors.push(st.current_ring)) =~= rings_v(st.interiors).push(
        ring_v(st.current_ring),
    ));
    assert(st.polygons.push((st.exterior, st.interiors)).map_values(
        |p: (Seq<(String, String)>, Seq<Seq<(String, String)>>)| (ring_v(p.0), rings_v(p.1)),
    ) =~= state_v(st).polygons.push((ring_v(st.exterior), rings_v(st.interiors))));
}

proof fn lemma_state_v_push(st: KmlState<(String, String)>, c: (String, String))
    ensures
        state_v(KmlState { current_ring: st.current_ring.push(c), ..st }) == (KmlState {
            current_ring: state_v(st).current_ring.push(pair_v(c)),
            ..state_v(st)
        }),
{
    assert(ring_v(st.current_ring.push(c)) =~= ring_v(st.current_ring).push(pair_v(c)));
}

/// Once the scan of a prefix fails, the scan of the whole list fails the
/// same way.
proof fn lemma_scan_error_stays(toks: Seq<KmlTok>, i: int, m: Seq<char>)
    requires
        0 <= i <= toks.len(),
        scan_tokens(toks.take(i)) == Err::<KmlState<(Seq<char>, Seq<char>)>, Seq<char>>(m),
    ensures
        scan_tokens(toks) == Err::<KmlState<(Seq<char>, Seq<char>)>, Seq<char>>(m),
    decreases toks.len() - i,
{
    if i == toks.len() {
        assert(toks.take(i) =~= toks);
    } else {
        assert(toks.take(i + 1).drop_last() =~= toks.take(i));
        lemma_scan_error_stays(toks, i + 1, m);
    }
}

/// The polygons of a document from the tokens read from it and the read
/// error, if any (see [`kml_outcome`]): the tokens are fed to a
/// [`KmlCollector`] in order, tags by their local name and coordinate text
/// split by [`coordinate_texts`].
pub fn kml_polygons_from_tokens(tokens: &Vec<KmlToken>, err: &Option<(u64, String)>) -> (r: Result<
    Vec<KmlPolygon<(String, String)>>,
    IoError,
>)
    ensures
        kml_result_is(r, kml_outcome(tokens_view(tokens@), read_error_view(*err))),
{
    let ghost tv = tokens_view(tokens@);
    let mut c: KmlCollector<(String, String)> = KmlCollector::new();
    proof {
        assert(tv.take(0) =~= Seq::<KmlTok>::empty());
        let st0 = c.state();
        assert(ring_v(st0.exterior) =~= seq![]);
        assert(ring_v(st0.current_ring) =~= seq![]);
        assert(rings_v(st0.interiors) =~= seq![]);
        assert(state_v(st0).polygons =~= seq![]);
        assert(state_v(c.state()) == initial_state::<(Seq<char>, Seq<char>)>());
    }
    let mut i: usize = 0;
    while i < tokens.len()
        invariant
            i <= tokens@.len(),
            tv == tokens_view(tokens@),
            scan_tokens(tv.take(i as int)) == Ok::<KmlState<(Seq<char>, Seq<char>)>, Seq<char>>(
                state_v(c.state()),
            ),
        decreases tokens.len() - i,
    {
        let ghost st = c.state();
        proof {
            assert(tv.take(i + 1).drop_last() =~= tv.take(i as int));
            assert(tv.take(i + 1).last() == tokens@[i as int]@);
        }
        match &tokens[i] {
            KmlToken::Start(n) => {
                let ln = local_name(n.as_slice());
                c.start_element(ln);
                proof {
                    lemma_state_v_start(st, ln@);
                }
            },
            KmlToken::End(n) => {
                let ln = local_name(n.as_slice());
                c.end_element(ln);
                proof {
                    lemma_state_v_end(st, ln@);
                }
            },
            KmlToken::Text(t) => {
                if c.in_coordinates() {
                    let pairs = coordinate_texts(t.as_str());
                    let ghost tuples = coordinate_tuples(t@);
                    let mut k: usize = 0;
                    while k < pairs.len()
                        invariant
                            k <= pairs@.len(),
                            pairs@.len() == tuples.len(),
                            forall|j: int|
                                0 <= j < pairs@.len() ==> (#[trigger] pairs@[j]).0@ == tuples[j].0
                                    && pairs@[j].1@ == tuples[j].1,
                            state_v(c.state()) == (KmlState {
                                current_ring: state_v(st).current_ring + tuples.take(k as int),
                                ..state_v(st)
                            }),
                        decreases pairs.len() - k,
                    {
                        let v = (pairs[k].0.clone(), pairs[k].1.clone());
                        let ghost before = c.state();
                        c.push_coordinate(v);
                        proof {
                            lemma_state_v_push(before, v);
                            assert(state_v(st).current_ring + tuples.take(k + 1) =~= (
                            state_v(st).current_ring + tuples.take(k as int)).push(pair_v(v)));
                        }
                        k = k + 1;
                    }
                    proof {
                        assert(tuples.take(k as int) =~= tuples);
                    }
                }
            },
            KmlToken::BadText(m) => {
                if c.in_coordinates() {
                    let mut msg = String::from_str("KML text error: ");
                    msg.append(m.as_str());
                    proof {
                        lemma_scan_error_stays(tv, i + 1, msg@);
                    }
                    return Err(IoError::Serialization(msg));
                }
            },
            KmlToken::Other => {},
        }
        i = i + 1;
    }
    proof {
        assert(tv.take(i as int) =~= tv);
    }
    match err {
        Some((pos, m)) => {
            let mut msg = String::from_str("KML parse error at position ");
            push_decimal(&mut msg, *pos);
            msg.append(": ");
            msg.append(m.as_str());
            proof {
                assert(msg@ =~= "KML parse error at position "@ + decimal(*pos as nat) + ": "@ + m@);
            }
            Err(IoError::Serialization(msg))
        },
        None => {
            let ghost st = c.state();
            let ps = c.into_polygons();
            proof {
                assert(polygons_v(ps@) =~= state_v(st).polygons) by {
                    assert forall|j: int| 0 <= j < ps@.len() implies #[trigger] polygons_v(ps@)[j]
                        == state_v(st).polygons[j] by {
                        assert(st.polygons[j] == (ps@[j].exterior@, rings_view(ps@[j].interiors@)));
                    }
                }
            }
            Ok(ps)
        },
    }
}

/// The polygons of a KML document with their vertices as `(longitude,
/// latitude)` texts, in document order: the document is read by quick-xml
/// (see [`kml_scan`]) and its tokens collected (see [`kml_outcome`]).
pub fn kml_polygon_texts(xml: &[u8]) -> (r: Result<Vec<KmlPolygon<(String, String)>>, IoError>)
    ensures
        kml_result_is(r, kml_outcome(kml_scan(xml@).0, kml_scan(xml@).1)),
{
    let (tokens, err) = read_kml_tokens(xml);
    kml_polygons_from_tokens(&tokens, &err)
}

} // verus!
