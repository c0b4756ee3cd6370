//! DJI WPML export: the datum rule and the two documents of a `.kmz`
//! mission (`template.kml` for review, `waylines.wpml` for execution).
//!
//! DJI autopilots execute the static altitudes of a mission
//! without any terrain or datum correction, and expect EGM96 orthometric
//! heights.

use vstd::prelude::*;
use vstd::string::*;
use crate::error::IoError;
use crate::types::AltitudeDatum;
use crate::io::qgc::same_datum;
use crate::text::{decimal, push_decimal};
use crate::chars::starts_with;

verus! {

/// Validate that the plan's altitude datum is EGM96, the only datum DJI
/// accepts: `datums` holds the datum of each flight line. An empty plan
/// passes; otherwise all lines must share the EGM96 datum.
pub fn validate_datum(datums: &[AltitudeDatum]) -> (r: Result<(), IoError>)
    ensures
        r is Ok <==> (datums@.len() == 0 || (same_datum(datums@) && datums@[0]
            == AltitudeDatum::Egm96)),
        datums@.len() > 0 && !same_datum(datums@) ==> (r matches Err(IoError::Serialization(m))
            && m@ == "DJI export requires all flight lines to share the same altitude datum"@),
        datums@.len() > 0 && same_datum(datums@) && datums@[0] != AltitudeDatum::Egm96 ==> (r matches Err(
            IoError::Serialization(m),
        ) && m@ == "DJI export requires EGM96 altitudes, but plan uses "@ + datums@[0].spec_name()
            + ". Convert with FlightLine::to_datum(AltitudeDatum::Egm96) before export."@),
{
    if datums.len() == 0 {
        return Ok(());
    }
    let first = datums[0];
    let mut k: usize = 0;
    while k < datums.len()
        invariant
            k <= datums@.len(),
            first == datums@[0],
            forall|j: int| 0 <= j < k ==> #[trigger] datums@[j] == datums@[0],
        decreases datums.len() - k,
    {
        if datums[k] != first {
            return Err(
                IoError::Serialization(
                    String::from_str(
                        "DJI export requires all flight lines to share the same altitude datum",
                    ),
                ),
            );
        }
        k = k + 1;
    }
    if first != AltitudeDatum::Egm96 {
        let mut m = String::from_str("DJI export requires EGM96 altitudes, but plan uses ");
        m.append(first.as_str());
        m.append(". Convert with FlightLine::to_datum(AltitudeDatum::Egm96) before export.");
        return Err(IoError::Serialization(m));
    }
    Ok(())
}

/// Whether a plan must be converted to EGM96 before DJI export; an empty
/// plan counts as EGM2008.
pub fn needs_conversion(datums: &[AltitudeDatum]) -> (b: bool)
    ensures
        b == (datums@.len() == 0 || datums@[0] != AltitudeDatum::Egm96),
{
    datums.len() == 0 || datums[0] != AltitudeDatum::Egm96
}

// ---------------------------------------------------------------------------
// WPML documents
// ---------------------------------------------------------------------------

/// Default namespace of the KML documents.
pub const KML_NS: &'static str = "http://www.opengis.net/kml/2.2";

/// Namespace of DJI's `wpml:` elements.
pub const WPML_NS: &'static str = "http://www.dji.com/wpmz/1.0.0";

/// Take-off security height (m), as written in the mission configuration.
pub const TAKEOFF_SECURITY_HEIGHT_TEXT: &'static str = "20.0";

/// Global transitional speed (m/s), as written in the mission configuration.
pub const TRANSITIONAL_SPEED_TEXT: &'static str = "15.0";

/// Automatic flight speed (m/s) of every wayline and waypoint.
pub const AUTO_FLIGHT_SPEED_TEXT: &'static str = "10.0";

/// One event of an XML document, in writing order.
pub enum XmlEvent {
    /// `<?xml version="1.0" encoding="UTF-8"?>`
    Decl,
    /// A start tag with its attributes.
    Start { name: String, attrs: Vec<(String, String)> },
    /// Character data (escaped when written).
    Text(String),
    /// An end tag.
    End(String),
}

/// Abstract XML event.
pub enum XmlEv {
    Decl,
    Start(Seq<char>, Seq<(Seq<char>, Seq<char>)>),
    Text(Seq<char>),
    End(Seq<char>),
}

impl View for XmlEvent {
    type V = XmlEv;

    open spec fn view(&self) -> XmlEv {
        match self {
            XmlEvent::Decl => XmlEv::Decl,
            XmlEvent::Start { name, attrs } => XmlEv::Start(
                name@,
                attrs@.map_values(|a: (String, String)| (a.0@, a.1@)),
            ),
            XmlEvent::Text(t) => XmlEv::Text(t@),
            XmlEvent::End(n) => XmlEv::End(n@),
        }
    }
}

/// Views of a list of events.
pub open spec fn events_view(v: Seq<XmlEvent>) -> Seq<XmlEv> {
    v.map_values(|e: XmlEvent| e@)
}

/// A start tag without attributes.
pub open spec fn start(name: Seq<char>) -> XmlEv {
    XmlEv::Start(name, seq![])
}

/// `<tag>text</tag>`.
pub open spec fn text_el(tag: Seq<char>, text: Seq<char>) -> Seq<XmlEv> {
    seq![start(tag), XmlEv::Text(text), XmlEv::End(tag)]
}

/// Declaration, `<kml>` root with both namespaces, and `<Document>`.
pub open spec fn doc_open() -> Seq<XmlEv> {
    seq![
        XmlEv::Decl,
        XmlEv::Start("kml"@, seq![("xmlns"@, KML_NS@), ("xmlns:wpml"@, WPML_NS@)]),
        start("Document"@),
    ]
}

/// `</Document></kml>`.
pub open spec fn doc_close() -> Seq<XmlEv> {
    seq![XmlEv::End("Document"@), XmlEv::End("kml"@)]
}

/// The mission configuration of `template.kml`.
pub open spec fn mission_config() -> Seq<XmlEv> {
    seq![start("wpml:missionConfig"@)] + text_el("wpml:flyToWaylineMode"@, "safely"@) + text_el(
        "wpml:finishAction"@,
        "goHome"@,
    ) + text_el("wpml:exitOnRCLost"@, "executeLostAction"@) + text_el(
        "wpml:takeOffSecurityHeight"@,
        TAKEOFF_SECURITY_HEIGHT_TEXT@,
    ) + text_el("wpml:globalTransitionalSpeed"@, TRANSITIONAL_SPEED_TEXT@) + text_el(
        "wpml:executeHeightMode"@,
        "EGM96"@,
    ) + seq![XmlEv::End("wpml:missionConfig"@)]
}

/// Review placemark of waypoint `i` in `template.kml`.
pub open spec fn template_placemark(i: nat, coord: Seq<char>) -> Seq<XmlEv> {
    seq![start("Placemark"@), start("Point"@)] + text_el("coordinates"@, coord) + seq![
        XmlEv::End("Point"@),
    ] + text_el("wpml:index"@, decimal(i)) + seq![XmlEv::End("Placemark"@)]
}

/// Review placemarks of the waypoints of one line, numbered from 0.
pub open spec fn template_placemarks(coords: Seq<Seq<char>>) -> Seq<XmlEv>
    decreases coords.len(),
{
    if coords.len() == 0 {
        seq![]
    } else {
        template_placemarks(coords.drop_last()) + template_placemark(
            (coords.len() - 1) as nat,
            coords.last(),
        )
    }
}

/// Folder of line `li` in `template.kml`.
pub open spec fn template_folder(li: nat, coords: Seq<Seq<char>>) -> Seq<XmlEv> {
    seq![start("Folder"@)] + text_el("wpml:templateId"@, decimal(li)) + seq![
        start("wpml:waylineCoordinateSysParam"@),
    ] + text_el("wpml:coordinateMode"@, "WGS84"@) + text_el("wpml:heightMode"@, "EGM96"@) + seq![
        XmlEv::End("wpml:waylineCoordinateSysParam"@),
    ] + template_placemarks(coords) + seq![XmlEv::End("Folder"@)]
}

/// Folders of all lines in `template.kml`, one per line (empty lines too).
pub open spec fn template_folders(lines: Seq<Seq<Seq<char>>>) -> Seq<XmlEv>
    decreases lines.len(),
{
    if lines.len() == 0 {
        seq![]
    } else {
        template_folders(lines.drop_last()) + template_folder(
            (lines.len() - 1) as nat,
            lines.last(),
        )
    }
}

/// The `template.kml` document of a plan whose lines are given by the
/// coordinate text (`lon,lat,alt`) of each waypoint.
pub open spec fn template_events(lines: Seq<Seq<Seq<char>>>) -> Seq<XmlEv> {
    doc_open() + mission_config() + template_folders(lines) + doc_close()
}

/// Executable placemark of waypoint `i` in `waylines.wpml`.
pub open spec fn wayline_placemark(i: nat, coord: Seq<char>, height: Seq<char>) -> Seq<XmlEv> {
    seq![start("Placemark"@), start("Point"@)] + text_el("coordinates"@, coord) + seq![
        XmlEv::End("Point"@),
    ] + text_el("wpml:index"@, decimal(i)) + text_el("wpml:executeHeight"@, height) + text_el(
        "wpml:waypointSpeed"@,
        AUTO_FLIGHT_SPEED_TEXT@,
    ) + seq![start("wpml:waypointHeadingParam"@)] + text_el(
        "wpml:waypointHeadingMode"@,
        "followWayline"@,
    ) + seq![XmlEv::End("wpml:waypointHeadingParam"@), start("wpml:waypointTurnParam"@)]
        + text_el("wpml:waypointTurnMode"@, "coordinateTurn"@) + text_el(
        "wpml:waypointTurnDampingDist"@,
        "0"@,
    ) + seq![XmlEv::End("wpml:waypointTurnParam"@), XmlEv::End("Placemark"@)]
}

/// Executable placemarks of the waypoints of one line, numbered from 0.
pub open spec fn wayline_placemarks(wps: Seq<(Seq<char>, Seq<char>)>) -> Seq<XmlEv>
    decreases wps.len(),
{
    if wps.len() == 0 {
        seq![]
    } else {
        wayline_placemarks(wps.drop_last()) + wayline_placemark(
            (wps.len() - 1) as nat,
            wps.last().0,
            wps.last().1,
        )
    }
}

/// Camera action group `gid` of a line of `n` waypoints: take a photo on
/// reaching each of the waypoints 0 to `n - 1`.
pub open spec fn action_group(gid: nat, n: nat) -> Seq<XmlEv> {
    seq![start("wpml:actionGroup"@)] + text_el("wpml:actionGroupId"@, decimal(gid)) + text_el(
        "wpml:actionGroupStartIndex"@,
        "0"@,
    ) + text_el("wpml:actionGroupEndIndex"@, decimal((n - 1) as nat)) + text_el(
        "wpml:actionGroupMode"@,
        "sequence"@,
    ) + seq![start("wpml:actionTrigger"@)] + text_el("wpml:actionTriggerType"@, "reachPoint"@)
        + seq![XmlEv::End("wpml:actionTrigger"@), start("wpml:action"@)] + text_el(
        "wpml:actionId"@,
        "0"@,
    ) + text_el("wpml:actionActuatorFunc"@, "takePhoto"@) + seq![
        start("wpml:actionActuatorFuncParam"@),
    ] + text_el("wpml:payloadPositionIndex"@, "0"@) + seq![
        XmlEv::End("wpml:actionActuatorFuncParam"@),
        XmlEv::End("wpml:action"@),
        XmlEv::End("wpml:actionGroup"@),
    ]
}

/// Folder of line `li` (non-empty) in `waylines.wpml`, with action group `gid`.
pub open spec fn wayline_folder(li: nat, gid: nat, wps: Seq<(Seq<char>, Seq<char>)>) -> Seq<XmlEv> {
    seq![start("Folder"@)] + text_el("wpml:templateId"@, decimal(li)) + text_el(
        "wpml:executeHeightMode"@,
        "EGM96"@,
    ) + text_el("wpml:waylineId"@, decimal(li)) + text_el(
        "wpml:autoFlightSpeed"@,
        AUTO_FLIGHT_SPEED_TEXT@,
    ) + wayline_placemarks(wps) + action_group(gid, wps.len()) + seq![XmlEv::End("Folder"@)]
}

/// Number of lines with at least one waypoint.
pub open spec fn nonempty_lines<T>(lines: Seq<Seq<T>>) -> nat
    decreases lines.len(),
{
    if lines.len() == 0 {
        0
    } else {
        nonempty_lines(lines.drop_last()) + if lines.last().len() > 0 {
            1nat
        } else {
            0nat
        }
    }
}

/// Folders of `waylines.wpml`: one per non-empty line, keeping the line's
/// index, with action group ids numbered from 0 across the document.
pub open spec fn wayline_folders(lines: Seq<Seq<(Seq<char>, Seq<char>)>>) -> Seq<XmlEv>
    decreases lines.len(),
{
    if lines.len() == 0 {
        seq![]
    } else if lines.last().len() == 0 {
        wayline_folders(lines.drop_last())
    } else {
        wayline_folders(lines.drop_last()) + wayline_folder(
            (lines.len() - 1) as nat,
            nonempty_lines(lines.drop_last()),
            lines.last(),
        )
    }
}

/// The `waylines.wpml` document of a plan whose lines are given by the
/// (coordinate text `lon,lat`, height text) of each waypoint.
pub open spec fn waylines_events(lines: Seq<Seq<(Seq<char>, Seq<char>)>>) -> Seq<XmlEv> {
    doc_open() + wayline_folders(lines) + doc_close()
}

fn push_start(ev: &mut Vec<XmlEvent>, name: &str)
    ensures
        events_view(final(ev)@) == events_view(old(ev)@).push(start(name@)),
{
    let attrs: Vec<(String, String)> = Vec::new();
    assert(attrs@.map_values(|a: (String, String)| (a.0@, a.1@)) =~= Seq::<(Seq<char>, Seq<char>)>::empty());
    let e = XmlEvent::Start { name: name.to_owned(), attrs };
    assert(e@ == start(name@));
    ev.push(e);
    assert(events_view(ev@) =~= events_view(old(ev)@).push(start(name@)));
}

fn push_end(ev: &mut Vec<XmlEvent>, name: &str)
    ensures
        events_view(final(ev)@) == events_view(old(ev)@).push(XmlEv::End(name@)),
{
    ev.push(XmlEvent::End(name.to_owned()));
    assert(events_view(ev@) =~= events_view(old(ev)@).push(XmlEv::End(name@)));
}

fn push_text_el(ev: &mut Vec<XmlEvent>, tag: &str, text: &str)
    ensures
        events_view(final(ev)@) == events_view(old(ev)@) + text_el(tag@, text@),
{
    push_start(ev, tag);
    let ghost e1 = events_view(ev@);
    ev.push(XmlEvent::Text(text.to_owned()));
    assert(events_view(ev@) =~= e1.push(XmlEv::Text(text@)));
    push_end(ev, tag);
    assert(events_view(ev@) =~= events_view(old(ev)@) + text_el(tag@, text@));
}

fn push_number_el(ev: &mut Vec<XmlEvent>, tag: &str, v: u64)
    ensures
        events_view(final(ev)@) == events_view(old(ev)@) + text_el(tag@, decimal(v as nat)),
{
    let mut s = String::new();
    push_decimal(&mut s, v);
    push_text_el(ev, tag, s.as_str());
}

fn push_doc_open(ev: &mut Vec<XmlEvent>)
    ensures
        events_view(final(ev)@) == events_view(old(ev)@) + doc_open(),
{
    ev.push(XmlEvent::Decl);
    let mut attrs: Vec<(String, String)> = Vec::new();
    attrs.push((String::from_str("xmlns"), KML_NS.to_owned()));
    attrs.push((String::from_str("xmlns:wpml"), WPML_NS.to_owned()));
    let ghost av = attrs@;
    ev.push(XmlEvent::Start { name: String::from_str("kml"), attrs });
    assert(av.map_values(|a: (String, String)| (a.0@, a.1@)) =~= seq![
        ("xmlns"@, KML_NS@),
        ("xmlns:wpml"@, WPML_NS@),
    ]);
    push_start(ev, "Document");
    assert(events_view(ev@) =~= events_view(old(ev)@) + doc_open());
}

fn push_doc_close(ev: &mut Vec<XmlEvent>)
    ensures
        events_view(final(ev)@) == events_view(old(ev)@) + doc_close(),
{
    push_end(ev, "Document");
    push_end(ev, "kml");
    assert(events_view(ev@) =~= events_view(old(ev)@) + doc_close());
}

fn push_mission_config(ev: &mut Vec<XmlEvent>)
    ensures
        events_view(final(ev)@) == events_view(old(ev)@) + mission_config(),
{
    let ghost e0 = events_view(ev@);
    push_start(ev, "wpml:missionConfig");
    push_text_el(ev, "wpml:flyToWaylineMode", "safely");
    push_text_el(ev, "wpml:finishAction", "goHome");
    push_text_el(ev, "wpml:exitOnRCLost", "executeLostAction");
    push_text_el(ev, "wpml:takeOffSecurityHeight", TAKEOFF_SECURITY_HEIGHT_TEXT);
    push_text_el(ev, "wpml:globalTransitionalSpeed", TRANSITIONAL_SPEED_TEXT);
    push_text_el(ev, "wpml:executeHeightMode", "EGM96");
    push_end(ev, "wpml:missionConfig");
    assert(events_view(ev@) =~= e0 + mission_config());
}

fn push_template_placemark(ev: &mut Vec<XmlEvent>, i: usize, coord: &str)
    ensures
        events_view(final(ev)@) == events_view(old(ev)@) + template_placemark(i as nat, coord@),
{
    let ghost e0 = events_view(ev@);
    push_start(ev, "Placemark");
    push_start(ev, "Point");
    push_text_el(ev, "coordinates", coord);
    push_end(ev, "Point");
    push_number_el(ev, "wpml:index", i as u64);
    push_end(ev, "Placemark");
    assert(events_view(ev@) =~= e0 + template_placemark(i as nat, coord@));
}

/// Views of a line of text values.
pub open spec fn texts_view(v: Seq<String>) -> Seq<Seq<char>> {
    v.map_values(|s: String| s@)
}

fn push_template_folder(ev: &mut Vec<XmlEvent>, li: usize, coords: &Vec<String>)
    ensures
        events_view(final(ev)@) == events_view(old(ev)@) + template_folder(
            li as nat,
            texts_view(coords@),
        ),
{
    let ghost e0 = events_view(ev@);
    push_start(ev, "Folder");
    push_number_el(ev, "wpml:templateId", li as u64);
    push_start(ev, "wpml:waylineCoordinateSysParam");
    push_text_el(ev, "wpml:coordinateMode", "WGS84");
    push_text_el(ev, "wpml:heightMode", "EGM96");
    push_end(ev, "wpml:waylineCoordinateSysParam");
    let ghost e1 = events_view(ev@);
    let mut i: usize = 0;
    while i < coords.len()
        invariant
            i <= coords@.len(),
            events_view(ev@) == e1 + template_placemarks(texts_view(coords@).take(i as int)),
        decreases coords.len() - i,
    {
        assert(texts_view(coords@).take(i + 1).drop_last() =~= texts_view(coords@).take(i as int));
        push_template_placemark(ev, i, coords[i].as_str());
        assert(events_view(ev@) =~= e1 + template_placemarks(texts_view(coords@).take(i + 1)));
        i = i + 1;
    }
    assert(texts_view(coords@).take(coords@.len() as int) =~= texts_view(coords@));
    push_end(ev, "Folder");
    assert(events_view(ev@) =~= e0 + template_folder(li as nat, texts_view(coords@)));
}

/// Views of the lines of a plan given as waypoint texts.
pub open spec fn lines_view(v: Seq<Vec<String>>) -> Seq<Seq<Seq<char>>> {
    v.map_values(|l: Vec<String>| texts_view(l@))
}

/// The event sequence of `template.kml`: the mission configuration, then
/// one review folder per flight line with a placemark per waypoint.
/// `lines` holds, per line, the coordinate text (`lon,lat,alt`) of each
/// waypoint.
pub fn template_kml_events(lines: &Vec<Vec<String>>) -> (ev: Vec<XmlEvent>)
    ensures
        events_view(ev@) == template_events(lines_view(lines@)),
{
    let mut ev: Vec<XmlEvent> = Vec::new();
    push_doc_open(&mut ev);
    push_mission_config(&mut ev);
    let ghost e1 = events_view(ev@);
    let mut li: usize = 0;
    while li < lines.len()
        invariant
            li <= lines@.len(),
            events_view(ev@) == e1 + template_folders(lines_view(lines@).take(li as int)),
        decreases lines.len() - li,
    {
        assert(lines_view(lines@).take(li + 1).drop_last() =~= lines_view(lines@).take(li as int));
        push_template_folder(&mut ev, li, &lines[li]);
        assert(events_view(ev@) =~= e1 + template_folders(lines_view(lines@).take(li + 1)));
        li = li + 1;
    }
    assert(lines_view(lines@).take(lines@.len() as int) =~= lines_view(lines@));
    push_doc_close(&mut ev);
    assert(events_view(ev@) =~= template_events(lines_view(lines@)));
    ev
}

fn push_wayline_placemark(ev: &mut Vec<XmlEvent>, i: usize, coord: &str, height: &str)
    ensures
        events_view(final(ev)@) == events_view(old(ev)@) + wayline_placemark(
            i as nat,
            coord@,
            height@,
        ),
{
    let ghost e0 = events_view(ev@);
    push_start(ev, "Placemark");
    push_start(ev, "Point");
    push_text_el(ev, "coordinates", coord);
    push_end(ev, "Point");
    push_number_el(ev, "wpml:index", i as u64);
    push_text_el(ev, "wpml:executeHeight", height);
    push_text_el(ev, "wpml:waypointSpeed", AUTO_FLIGHT_SPEED_TEXT);
    push_start(ev, "wpml:waypointHeadingParam");
    push_text_el(ev, "wpml:waypointHeadingMode", "followWayline");
    push_end(ev, "wpml:waypointHeadingParam");
    push_start(ev, "wpml:waypointTurnParam");
    push_text_el(ev, "wpml:waypointTurnMode", "coordinateTurn");
    push_text_el(ev, "wpml:waypointTurnDampingDist", "0");
    push_end(ev, "wpml:waypointTurnParam");
    push_end(ev, "Placemark");
    assert(events_view(ev@) =~= e0 + wayline_placemark(i as nat, coord@, height@));
}

fn push_action_group(ev: &mut Vec<XmlEvent>, gid: u32, n: usize)
    requires
        n > 0,
    ensures
        events_view(final(ev)@) == events_view(old(ev)@) + action_group(gid as nat, n as nat),
{
    let ghost e0 = events_view(ev@);
    push_start(ev, "wpml:actionGroup");
    push_number_el(ev, "wpml:actionGroupId", gid as u64);
    push_text_el(ev, "wpml:actionGroupStartIndex", "0");
    push_number_el(ev, "wpml:actionGroupEndIndex", (n - 1) as u64);
    push_text_el(ev, "wpml:actionGroupMode", "sequence");
    push_start(ev, "wpml:actionTrigger");
    push_text_el(ev, "wpml:actionTriggerType", "reachPoint");
    push_end(ev, "wpml:actionTrigger");
    push_start(ev, "wpml:action");
    push_text_el(ev, "wpml:actionId", "0");
    push_text_el(ev, "wpml:actionActuatorFunc", "takePhoto");
    push_start(ev, "wpml:actionActuatorFuncParam");
    push_text_el(ev, "wpml:payloadPositionIndex", "0");
    push_end(ev, "wpml:actionActuatorFuncParam");
    push_end(ev, "wpml:action");
    push_end(ev, "wpml:actionGroup");
    assert(events_view(ev@) =~= e0 + action_group(gid as nat, n as nat));
}

/// Views of a line of (coordinate, height) texts.
pub open spec fn pairs_view(v: Seq<(String, String)>) -> Seq<(Seq<char>, Seq<char>)> {
    v.map_values(|p: (String, String)| (p.0@, p.1@))
}

/// Views of the lines of a plan given as waypoint text pairs.
pub open spec fn wayline_lines_view(v: Seq<Vec<(String, String)>>) -> Seq<
    Seq<(Seq<char>, Seq<char>)>,
> {
    v.map_values(|l: Vec<(String, String)>| pairs_view(l@))
}

fn push_wayline_folder(ev: &mut Vec<XmlEvent>, li: usize, gid: u32, wps: &Vec<(String, String)>)
    requires
        wps@.len() > 0,
    ensures
        events_view(final(ev)@) == events_view(old(ev)@) + wayline_folder(
            li as nat,
            gid as nat,
            pairs_view(wps@),
        ),
{
    let ghost e0 = events_view(ev@);
    push_start(ev, "Folder");
    push_number_el(ev, "wpml:templateId", li as u64);
    push_text_el(ev, "wpml:executeHeightMode", "EGM96");
    push_number_el(ev, "wpml:waylineId", li as u64);
    push_text_el(ev, "wpml:autoFlightSpeed", AUTO_FLIGHT_SPEED_TEXT);
    let ghost e1 = events_view(ev@);
    let mut i: usize = 0;
    while i < wps.len()
        invariant
            i <= wps@.len(),
            events_view(ev@) == e1 + wayline_placemarks(pairs_view(wps@).take(i as int)),
        decreases wps.len() - i,
    {
        assert(pairs_view(wps@).take(i + 1).drop_last() =~= pairs_view(wps@).take(i as int));
        push_wayline_placemark(ev, i, wps[i].0.as_str(), wps[i].1.as_str());
        assert(events_view(ev@) =~= e1 + wayline_placemarks(pairs_view(wps@).take(i + 1)));
        i = i + 1;
    }
    assert(pairs_view(wps@).take(wps@.len() as int) =~= pairs_view(wps@));
    push_action_group(ev, gid, wps.len());
    push_end(ev, "Folder");
    assert(events_view(ev@) =~= e0 + wayline_folder(li as nat, gid as nat, pairs_view(wps@)));
}

proof fn lemma_nonempty_le_len<T>(lines: Seq<Seq<T>>)
    ensures
        nonempty_lines(lines) <= lines.len(),
    decreases lines.len(),
{
    if lines.len() > 0 {
        lemma_nonempty_le_len(lines.drop_last());
    }
}

/// The event sequence of `waylines.wpml`: one executable folder per
/// flight line that has waypoints (keeping the line's index), each with a
/// placemark per waypoint and a camera action group; action group ids are
/// numbered from 0 across the whole document. `lines` holds, per line, the
/// coordinate text (`lon,lat`) and height text of each waypoint.
pub fn waylines_wpml_events(lines: &Vec<Vec<(String, String)>>) -> (ev: Vec<XmlEvent>)
    requires
        lines@.len() <= u32::MAX,
    ensures
        events_view(ev@) == waylines_events(wayline_lines_view(lines@)),
{
    let mut ev: Vec<XmlEvent> = Vec::new();
    push_doc_open(&mut ev);
    let ghost e1 = events_view(ev@);
    let mut gid: u32 = 0;
    let mut li: usize = 0;
    while li < lines.len()
        invariant
            li <= lines@.len() <= u32::MAX,
            gid == nonempty_lines(wayline_lines_view(lines@).take(li as int)),
            events_view(ev@) == e1 + wayline_folders(wayline_lines_view(lines@).take(li as int)),
        decreases lines.len() - li,
    {
        let ghost lv = wayline_lines_view(lines@);
        assert(lv.take(li + 1).drop_last() =~= lv.take(li as int));
        assert(lv.take(li + 1).last() == pairs_view(lines@[li as int]@));
        proof {
            lemma_nonempty_le_len(lv.take(li as int));
        }
        if lines[li].len() > 0 {
            push_wayline_folder(&mut ev, li, gid, &lines[li]);
            gid = gid + 1;
        }
        assert(events_view(ev@) =~= e1 + wayline_folders(lv.take(li + 1)));
        li = li + 1;
    }
    assert(wayline_lines_view(lines@).take(lines@.len() as int) =~= wayline_lines_view(lines@));
    push_doc_close(&mut ev);
    assert(events_view(ev@) =~= waylines_events(wayline_lines_view(lines@)));
    ev
}

// ---------------------------------------------------------------------------
// Laws of the waylines document
// ---------------------------------------------------------------------------

proof fn lemma_wayline_placemark_shape(i: nat, c: Seq<char>, h: Seq<char>)
    ensures
        wayline_placemark(i, c, h).len() == 29,
        wayline_placemark(i, c, h)[0] == start("Placemark"@),
        wayline_placemark(i, c, h)[2] == start("coordinates"@),
        wayline_placemark(i, c, h)[3] == XmlEv::Text(c),
        wayline_placemark(i, c, h)[6] == start("wpml:index"@),
        wayline_placemark(i, c, h)[7] == XmlEv::Text(decimal(i)),
        wayline_placemark(i, c, h)[9] == start("wpml:executeHeight"@),
        wayline_placemark(i, c, h)[10] == XmlEv::Text(h),
{
}

proof fn lemma_wayline_placemarks_blocks(wps: Seq<(Seq<char>, Seq<char>)>)
    ensures
        wayline_placemarks(wps).len() == 29 * wps.len(),
        forall|k: int, j: int|
            0 <= k < wps.len() && 0 <= j < 29 ==> #[trigger] wayline_placemarks(wps)[29 * k + j]
                == wayline_placemark(k as nat, wps[k].0, wps[k].1)[j],
    decreases wps.len(),
{
    if wps.len() > 0 {
        let init = wps.drop_last();
        lemma_wayline_placemarks_blocks(init);
        let n = wps.len() - 1;
        lemma_wayline_placemark_shape(n as nat, wps.last().0, wps.last().1);
        assert forall|k: int, j: int| 0 <= k < wps.len() && 0 <= j < 29 implies #[trigger] wayline_placemarks(
            wps,
        )[29 * k + j] == wayline_placemark(k as nat, wps[k].0, wps[k].1)[j] by {
            if k < n {
                assert(init[k] == wps[k]);
                assert(wayline_placemarks(init)[29 * k + j] == wayline_placemark(
                    k as nat,
                    init[k].0,
                    init[k].1,
                )[j]);
            }
        }
    }
}

/// Position of the placemarks in a wayline folder.
proof fn lemma_wayline_folder_shape(li: nat, gid: nat, wps: Seq<(Seq<char>, Seq<char>)>)
    ensures
        wayline_folder(li, gid, wps).len() >= 13 + 29 * wps.len(),
        wayline_folder(li, gid, wps)[0] == start("Folder"@),
        wayline_folder(li, gid, wps)[1] == start("wpml:templateId"@),
        wayline_folder(li, gid, wps)[2] == XmlEv::Text(decimal(li)),
        forall|k: int, j: int|
            0 <= k < wps.len() && 0 <= j < 29 ==> wayline_folder(li, gid, wps)[13 + 29 * k + j]
                == #[trigger] wayline_placemark(k as nat, wps[k].0, wps[k].1)[j],
{
    lemma_wayline_placemarks_blocks(wps);
    let head = seq![start("Folder"@)] + text_el("wpml:templateId"@, decimal(li)) + text_el(
        "wpml:executeHeightMode"@,
        "EGM96"@,
    ) + text_el("wpml:waylineId"@, decimal(li)) + text_el(
        "wpml:autoFlightSpeed"@,
        AUTO_FLIGHT_SPEED_TEXT@,
    );
    assert(head.len() == 13);
    let f = wayline_folder(li, gid, wps);
    assert(f =~= head + wayline_placemarks(wps) + action_group(gid, wps.len()) + seq![
        XmlEv::End("Folder"@),
    ]);
    assert forall|k: int, j: int| 0 <= k < wps.len() && 0 <= j < 29 implies f[13 + 29 * k + j]
        == #[trigger] wayline_placemark(k as nat, wps[k].0, wps[k].1)[j] by {
        assert(wayline_placemarks(wps)[29 * k + j] == wayline_placemark(k as nat, wps[k].0, wps[k].1)[j]);
    }
}

/// `f` stands whole in `s` from position `o` on.
spec fn stands_at(s: Seq<XmlEv>, o: int, f: Seq<XmlEv>) -> bool {
    0 <= o && o + f.len() <= s.len() && forall|j: int| 0 <= j < f.len() ==> s[o + j] == #[trigger] f[j]
}

/// The folder of every non-empty line stands whole in the folder list.
proof fn lemma_wayline_folders_contain(lines: Seq<Seq<(Seq<char>, Seq<char>)>>, li: int)
    requires
        0 <= li < lines.len(),
        lines[li].len() > 0,
    ensures
        exists|o: int, g: nat| #[trigger] stands_at(wayline_folders(lines), o, wayline_folder(li as nat, g, lines[li])),
    decreases lines.len(),
{
    let init = lines.drop_last();
    if li == lines.len() - 1 {
        let o = wayline_folders(init).len() as int;
        let g = nonempty_lines(init);
        let f = wayline_folder(li as nat, g, lines[li]);
        assert(wayline_folders(lines) == wayline_folders(init) + f);
        assert forall|j: int| 0 <= j < f.len() implies wayline_folders(lines)[o + j] == #[trigger] f[j] by {}
        assert(stands_at(wayline_folders(lines), o, f));
    } else {
        assert(init[li] == lines[li]);
        lemma_wayline_folders_contain(init, li);
        let (o, g) = choose|o: int, g: nat| #[trigger] stands_at(wayline_folders(init), o, wayline_folder(li as nat, g, init[li]));
        let f = wayline_folder(li as nat, g, lines[li]);
        if lines.last().len() > 0 {
            assert(wayline_folders(lines) == wayline_folders(init) + wayline_folder(
                (lines.len() - 1) as nat,
                nonempty_lines(init),
                lines.last(),
            ));
        } else {
            assert(wayline_folders(lines) == wayline_folders(init));
        }
        assert forall|j: int| 0 <= j < f.len() implies wayline_folders(lines)[o + j] == #[trigger] f[j] by {
            assert(wayline_folders(init)[o + j] == f[j]);
        }
        assert(stands_at(wayline_folders(lines), o, f));
    }
}

/// In `waylines.wpml`, waypoint `k` of every line `li` that has waypoints
/// is flown as placemark `k` of that line's folder (the folder whose
/// template id is `li`), with the waypoint's own coordinate text, index
/// `k` and execute height text.
#[verifier::rlimit(60)]
pub proof fn law_each_waypoint_keeps_its_height(lines: Seq<Seq<(Seq<char>, Seq<char>)>>, li: int, k: int)
    requires
        0 <= li < lines.len(),
        0 <= k < lines[li].len(),
    ensures
        exists|o: int|
            #![trigger waylines_events(lines)[o]]
            0 <= o && o + 13 + 29 * (k + 1) <= waylines_events(lines).len() && {
                let ev = waylines_events(lines);
                let p = o + 13 + 29 * k;
                &&& waylines_events(lines)[o] == start("Folder"@)
                &&& ev[o + 1] == start("wpml:templateId"@)
                &&& ev[o + 2] == XmlEv::Text(decimal(li as nat))
                &&& ev[p] == start("Placemark"@)
                &&& ev[p + 2] == start("coordinates"@)
                &&& ev[p + 3] == XmlEv::Text(lines[li][k].0)
                &&& ev[p + 6] == start("wpml:index"@)
                &&& ev[p + 7] == XmlEv::Text(decimal(k as nat))
                &&& ev[p + 9] == start("wpml:executeHeight"@)
                &&& ev[p + 10] == XmlEv::Text(lines[li][k].1)
            },
{
    lemma_wayline_folders_contain(lines, li);
    let (o, g) = choose|o: int, g: nat| #[trigger] stands_at(wayline_folders(lines), o, wayline_folder(li as nat, g, lines[li]));
    let wps = lines[li];
    let f = wayline_folder(li as nat, g, wps);
    lemma_wayline_folder_shape(li as nat, g, wps);
    lemma_wayline_placemark_shape(k as nat, wps[k].0, wps[k].1);
    lemma_folder_in_document(lines, o, f);
    let pm = wayline_placemark(k as nat, wps[k].0, wps[k].1);
    let q = 13 + 29 * k;
    assert(f[q] == pm[0] && f[q + 2] == pm[2] && f[q + 3] == pm[3]);
    assert(f[q + 6] == pm[6] && f[q + 7] == pm[7]);
    assert(f[q + 9] == pm[9] && f[q + 10] == pm[10]);
    assert(f[0] == start("Folder"@) && f[1] == start("wpml:templateId"@));
    assert(f[2] == XmlEv::Text(decimal(li as nat)));
    assert(waylines_events(lines)[o + 3] == f[0]);
}

/// A folder standing in the folder list stands in the document, after the
/// three opening events.
proof fn lemma_folder_in_document(lines: Seq<Seq<(Seq<char>, Seq<char>)>>, o: int, f: Seq<XmlEv>)
    requires
        stands_at(wayline_folders(lines), o, f),
    ensures
        stands_at(waylines_events(lines), o + 3, f),
{
    let fs = wayline_folders(lines);
    let ev = waylines_events(lines);
    assert(doc_open().len() == 3);
    assert forall|j: int| 0 <= j < f.len() implies ev[o + 3 + j] == #[trigger] f[j] by {
        assert(fs[o + j] == f[j]);
        assert(ev[3 + (o + j)] == fs[o + j]);
    }
}

proof fn lemma_template_placemarks_blocks(coords: Seq<Seq<char>>)
    ensures
        template_placemarks(coords).len() == 10 * coords.len(),
        forall|k: int, j: int|
            0 <= k < coords.len() && 0 <= j < 10 ==> template_placemarks(coords)[10 * k + j]
                == #[trigger] template_placemark(k as nat, coords[k])[j],
    decreases coords.len(),
{
    if coords.len() > 0 {
        let init = coords.drop_last();
        lemma_template_placemarks_blocks(init);
        let n = coords.len() - 1;
        assert(template_placemark(n as nat, coords.last()).len() == 10);
        assert forall|k: int, j: int| 0 <= k < coords.len() && 0 <= j < 10 implies template_placemarks(
            coords,
        )[10 * k + j] == #[trigger] template_placemark(k as nat, coords[k])[j] by {
            if k < n {
                assert(init[k] == coords[k]);
                assert(template_placemarks(init)[10 * k + j] == template_placemark(k as nat, init[k])[j]);
            }
        }
    }
}

proof fn lemma_template_folder_shape(li: nat, coords: Seq<Seq<char>>)
    ensures
        template_folder(li, coords).len() == 13 + 10 * coords.len(),
        template_folder(li, coords)[0] == start("Folder"@),
        template_folder(li, coords)[1] == start("wpml:templateId"@),
        template_folder(li, coords)[2] == XmlEv::Text(decimal(li)),
        forall|k: int, j: int|
            0 <= k < coords.len() && 0 <= j < 10 ==> template_folder(li, coords)[12 + 10 * k + j]
                == #[trigger] template_placemark(k as nat, coords[k])[j],
{
    lemma_template_placemarks_blocks(coords);
    let head = seq![start("Folder"@)] + text_el("wpml:templateId"@, decimal(li)) + seq![
        start("wpml:waylineCoordinateSysParam"@),
    ] + text_el("wpml:coordinateMode"@, "WGS84"@) + text_el("wpml:heightMode"@, "EGM96"@) + seq![
        XmlEv::End("wpml:waylineCoordinateSysParam"@),
    ];
    assert(head.len() == 12);
    let f = template_folder(li, coords);
    assert(f =~= head + template_placemarks(coords) + seq![XmlEv::End("Folder"@)]);
    assert forall|k: int, j: int| 0 <= k < coords.len() && 0 <= j < 10 implies f[12 + 10 * k + j]
        == #[trigger] template_placemark(k as nat, coords[k])[j] by {
        assert(template_placemarks(coords)[10 * k + j] == template_placemark(k as nat, coords[k])[j]);
    }
}

proof fn lemma_template_folders_contain(lines: Seq<Seq<Seq<char>>>, li: int)
    requires
        0 <= li < lines.len(),
    ensures
        exists|o: int| #[trigger] stands_at(template_folders(lines), o, template_folder(li as nat, lines[li])),
    decreases lines.len(),
{
    let init = lines.drop_last();
    let f = template_folder(li as nat, lines[li]);
    assert(template_folders(lines) == template_folders(init) + template_folder(
        (lines.len() - 1) as nat,
        lines.last(),
    ));
    if li == lines.len() - 1 {
        let o = template_folders(init).len() as int;
        assert forall|j: int| 0 <= j < f.len() implies template_folders(lines)[o + j] == #[trigger] f[j] by {}
        assert(stands_at(template_folders(lines), o, f));
    } else {
        assert(init[li] == lines[li]);
        lemma_template_folders_contain(init, li);
        let o = choose|o: int| #[trigger] stands_at(template_folders(init), o, template_folder(li as nat, init[li]));
        assert forall|j: int| 0 <= j < f.len() implies template_folders(lines)[o + j] == #[trigger] f[j] by {
            assert(template_folders(init)[o + j] == f[j]);
        }
        assert(stands_at(template_folders(lines), o, f));
    }
}

/// In `template.kml`, waypoint `k` of every line `li` is shown as
/// placemark `k` of that line's folder (the folder whose template id is
/// `li`), with the waypoint's own coordinate text and index `k`.
#[verifier::rlimit(60)]
pub proof fn law_each_waypoint_keeps_its_place(lines: Seq<Seq<Seq<char>>>, li: int, k: int)
    requires
        0 <= li < lines.len(),
        0 <= k < lines[li].len(),
    ensures
        exists|o: int|
            #![trigger template_events(lines)[o]]
            0 <= o && o + 12 + 10 * (k + 1) <= template_events(lines).len() && {
                let ev = template_events(lines);
                let p = o + 12 + 10 * k;
                &&& template_events(lines)[o] == start("Folder"@)
                &&& ev[o + 1] == start("wpml:templateId"@)
                &&& ev[o + 2] == XmlEv::Text(decimal(li as nat))
                &&& ev[p] == start("Placemark"@)
                &&& ev[p + 2] == start("coordinates"@)
                &&& ev[p + 3] == XmlEv::Text(lines[li][k])
                &&& ev[p + 6] == start("wpml:index"@)
                &&& ev[p + 7] == XmlEv::Text(decimal(k as nat))
            },
{
    lemma_template_folders_contain(lines, li);
    let o = choose|o: int| #[trigger] stands_at(template_folders(lines), o, template_folder(li as nat, lines[li]));
    let coords = lines[li];
    let f = template_folder(li as nat, coords);
    lemma_template_folder_shape(li as nat, coords);
    let pm = template_placemark(k as nat, coords[k]);
    assert(pm.len() == 10 && pm[0] == start("Placemark"@) && pm[2] == start("coordinates"@));
    assert(pm[3] == XmlEv::Text(coords[k]) && pm[6] == start("wpml:index"@));
    assert(pm[7] == XmlEv::Text(decimal(k as nat)));
    let head = doc_open() + mission_config();
    let fs = template_folders(lines);
    let ev = template_events(lines);
    assert(ev == head + fs + doc_close());
    let h = head.len() as int;
    assert forall|j: int| 0 <= j < f.len() implies ev[h + o + j] == #[trigger] f[j] by {
        assert(fs[o + j] == f[j]);
        assert(ev[h + (o + j)] == fs[o + j]);
    }
    let q = 12 + 10 * k;
    assert(f[q] == pm[0] && f[q + 2] == pm[2] && f[q + 3] == pm[3]);
    assert(f[q + 6] == pm[6] && f[q + 7] == pm[7]);
    assert(f[0] == start("Folder"@) && f[1] == start("wpml:templateId"@));
    assert(f[2] == XmlEv::Text(decimal(li as nat)));
    assert(ev[h + o] == f[0]);
}

// ---------------------------------------------------------------------------
// Writing XML
// ---------------------------------------------------------------------------

/// `quick_xml::Writer`, carried opaquely.
#[verifier::external_type_specification]
#[verifier::external_body]
#[verifier::reject_recursive_types(W)]
pub struct ExXmlWriter<W>(quick_xml::Writer<W>);

/// `quick_xml::Error`, carried opaquely.
#[verifier::external_type_specification]
#[verifier::external_body]
pub struct ExXmlError(quick_xml::Error);

/// The events written so far to a `quick_xml::Writer`.
pub uninterp spec fn xml_written(w: quick_xml::Writer<Vec<u8>>) -> Seq<XmlEv>;

/// The bytes `quick_xml::Writer` (indenting by two spaces) produces for a
/// sequence of events.
pub uninterp spec fn xml_text(events: Seq<XmlEv>) -> Seq<u8>;

/// `quick_xml::Writer::new_with_indent` over an empty `Vec<u8>`, indenting
/// by two spaces: nothing has been written.
#[verifier::external_body]
fn xml_writer() -> (w: quick_xml::Writer<Vec<u8>>)
    ensures
        xml_written(w) == Seq::<XmlEv>::empty(),
{
    quick_xml::Writer::new_with_indent(Vec::new(), b' ', 2)
}

/// `quick_xml::Writer::write_event` of the event, converted to the
/// crate's event type (a declaration `1.0`/`UTF-8`, a start tag with its
/// attributes, escaped text, or an end tag). The writer fails only when
/// writing to its sink fails, and writing to a `Vec<u8>` does not fail: the
/// call succeeds and the event is appended to what the writer holds.
#[verifier::external_body]
fn xml_write_event(w: &mut quick_xml::Writer<Vec<u8>>, e: &XmlEvent) -> (r: Result<(), quick_xml::Error>)
    ensures
        r is Ok,
        xml_written(*final(w)) == xml_written(*old(w)).push(e@),
{
    match e {
        XmlEvent::Decl => w.write_event(quick_xml::events::Event::Decl(
            quick_xml::events::BytesDecl::new("1.0", Some("UTF-8"), None),
        )),
        XmlEvent::Start { name, attrs } => w.write_event(quick_xml::events::Event::Start(
            quick_xml::events::BytesStart::new(name.as_str())
                .with_attributes(attrs.iter().map(|a| (a.0.as_str(), a.1.as_str()))),
        )),
        XmlEvent::Text(t) => w.write_event(quick_xml::events::Event::Text(
            quick_xml::events::BytesText::new(t.as_str()),
        )),
        XmlEvent::End(n) => w.write_event(quick_xml::events::Event::End(
            quick_xml::events::BytesEnd::new(n.as_str()),
        )),
    }
}

/// `quick_xml::Writer::into_inner`: the bytes produced for the events
/// written.
#[verifier::external_body]
fn xml_into_bytes(w: quick_xml::Writer<Vec<u8>>) -> (b: Vec<u8>)
    ensures
        b@ == xml_text(xml_written(w)),
{
    w.into_inner()
}

/// The `Display` text of a `quick_xml::Error`; nothing is stated of it.
#[verifier::external_body]
fn xml_error_text(e: &quick_xml::Error) -> (s: String) {
    e.to_string()
}

/// Write an event sequence as an indented XML document. Writing into
/// memory always succeeds; a writer failure would be reported as a
/// serialization error `XML error: …`.
pub fn write_xml(events: &Vec<XmlEvent>) -> (r: Result<Vec<u8>, IoError>)
    ensures
        r matches Ok(b) && b@ == xml_text(events_view(events@)),
{
    let mut w = xml_writer();
    let mut i: usize = 0;
    while i < events.len()
        invariant
            i <= events@.len(),
            xml_written(w) == events_view(events@).take(i as int),
        decreases events.len() - i,
    {
        match xml_write_event(&mut w, &events[i]) {
            Ok(()) => {},
            Err(e) => {
                proof { reveal_strlit("XML error: "); }
                let mut m = String::from_str("XML error: ");
                let t = xml_error_text(&e);
                m.append(t.as_str());
                assert(m@.take(11) =~= "XML error: "@);
                return Err(IoError::Serialization(m));
            },
        }
        assert(events_view(events@).take(i + 1) =~= events_view(events@).take(i as int).push(
            events@[i as int]@,
        ));
        i = i + 1;
    }
    assert(events_view(events@).take(events@.len() as int) =~= events_view(events@));
    Ok(xml_into_bytes(w))
}

/// Build the `template.kml` document of a plan (see [`template_kml_events`]).
pub fn build_template_kml(lines: &Vec<Vec<String>>) -> (r: Result<Vec<u8>, IoError>)
    ensures
        r matches Ok(b) && b@ == xml_text(template_events(lines_view(lines@))),
{
    let ev = template_kml_events(lines);
    write_xml(&ev)
}

/// Build the `waylines.wpml` document of a plan (see [`waylines_wpml_events`]).
pub fn build_waylines_wpml(lines: &Vec<Vec<(String, String)>>) -> (r: Result<Vec<u8>, IoError>)
    requires
        lines@.len() <= u32::MAX,
    ensures
        r matches Ok(b) && b@ == xml_text(waylines_events(wayline_lines_view(lines@))),
{
    let ev = waylines_wpml_events(lines);
    write_xml(&ev)
}

} // verus!
