//! QGroundControl `.plan` rules: the altitude datum a plan must carry, the
//! MAVLink frame of its waypoints and the layout of its mission items.
//!
//! ArduPilot interprets `MAV_FRAME_GLOBAL` altitudes as WGS84 ellipsoidal
//! heights; AGL plans use `MAV_FRAME_GLOBAL_RELATIVE_ALT`.

use vstd::prelude::*;
use vstd::string::*;
use crate::error::IoError;
use crate::types::AltitudeDatum;

verus! {

/// MAVLink command: navigate to waypoint.
pub const MAV_CMD_NAV_WAYPOINT: u16 = 16;
/// MAVLink command: set camera trigger distance.
pub const MAV_CMD_DO_SET_CAM_TRIGG_DIST: u16 = 206;
/// Frame: altitudes relative to the WGS84 ellipsoid (AMSL).
pub const MAV_FRAME_GLOBAL: u8 = 0;
/// Frame: altitudes relative to home (AGL).
pub const MAV_FRAME_GLOBAL_RELATIVE_ALT: u8 = 3;
/// Frame: mission commands without a position.
pub const MAV_FRAME_MISSION: u8 = 2;

/// Every line has the datum of the first one.
pub open spec fn same_datum(d: Seq<AltitudeDatum>) -> bool {
    forall|k: int| 0 <= k < d.len() ==> #[trigger] d[k] == d[0]
}

/// Validate that the plan's altitude datum suits QGC export: `datums` holds
/// the datum of each flight line. An empty plan passes; otherwise all lines
/// must share one datum, which must be WGS84 ellipsoidal or AGL.
pub fn validate_datum(datums: &[AltitudeDatum]) -> (r: Result<(), IoError>)
    ensures
        r is Ok <==> (datums@.len() == 0 || (same_datum(datums@) && (datums@[0]
            == AltitudeDatum::Agl || datums@[0] == AltitudeDatum::Wgs84Ellipsoidal))),
        datums@.len() > 0 && !same_datum(datums@) ==> (r matches Err(IoError::Serialization(m))
            && m@ == "QGC export requires all flight lines to share the same altitude datum"@),
        datums@.len() > 0 && same_datum(datums@) && datums@[0] != AltitudeDatum::Agl && datums@[0]
            != AltitudeDatum::Wgs84Ellipsoidal ==> (r matches Err(IoError::Serialization(m)) && m@
            == "QGC export requires WGS84 ellipsoidal or AGL altitudes, but plan uses "@
            + datums@[0].spec_name()
            + ". Convert with FlightLine::to_datum() before export."@),
{
    if datums.len() == 0 {
        return Ok(());
    }
    let first = datums[0];
    let mut k: usize = 0;
    while k < datums.len()
        invariant
            k <= datums@.len(),
            first == datums@[0],
            forall|j: int| 0 <= j < k ==> #[trigger] datums@[j] == datums@[0],
        decreases datums.len() - k,
    {
        if datums[k] != first {
            return Err(
                IoError::Serialization(
                    String::from_str(
                        "QGC export requires all flight lines to share the same altitude datum",
                    ),
                ),
            );
        }
        k = k + 1;
    }
    if first != AltitudeDatum::Agl && first != AltitudeDatum::Wgs84Ellipsoidal {
        let mut m = String::from_str(
            "QGC export requires WGS84 ellipsoidal or AGL altitudes, but plan uses ",
        );
        m.append(first.as_str());
        m.append(". Convert with FlightLine::to_datum() before export.");
        return Err(IoError::Serialization(m));
    }
    Ok(())
}

/// Frame of the waypoints: relative-altitude for AGL plans, global otherwise.
pub fn waypoint_frame(datums: &[AltitudeDatum]) -> (f: u8)
    ensures
        f == (if datums@.len() > 0 && datums@[0] == AltitudeDatum::Agl {
            MAV_FRAME_GLOBAL_RELATIVE_ALT
        } else {
            MAV_FRAME_GLOBAL
        }),
{
    if datums.len() > 0 && datums[0] == AltitudeDatum::Agl {
        MAV_FRAME_GLOBAL_RELATIVE_ALT
    } else {
        MAV_FRAME_GLOBAL
    }
}

/// Whether a plan must be converted to WGS84 ellipsoidal heights before QGC
/// export: unless its (first line's) datum is AGL or already ellipsoidal; an
/// empty plan counts as EGM2008.
pub fn needs_conversion(datums: &[AltitudeDatum]) -> (b: bool)
    ensures
        b == (datums@.len() == 0 || (datums@[0] != AltitudeDatum::Agl && datums@[0]
            != AltitudeDatum::Wgs84Ellipsoidal)),
{
    let d = if datums.len() > 0 {
        datums[0]
    } else {
        AltitudeDatum::Egm2008
    };
    d != AltitudeDatum::Agl && d != AltitudeDatum::Wgs84Ellipsoidal
}

/// What a mission item does.
#[derive(Clone, Copy, Debug, PartialEq, Eq, Structural)]
pub enum ItemKind {
    /// Start distance-triggered photos (survey lines only).
    TriggerStart,
    /// Fly to waypoint `index` of flight line `line`.
    Waypoint { line: usize, index: usize },
    /// Stop triggering.
    TriggerStop,
}

/// One QGC SimpleItem: jump id, MAVLink command, frame and what it does.
#[derive(Clone, Copy, Debug, PartialEq, Eq, Structural)]
pub struct MissionItem {
    pub seq: u32,
    pub command: u16,
    pub frame: u8,
    pub kind: ItemKind,
}

/// A flight line as seen by the exporter: number of waypoints and whether
/// it is a transit (no camera) segment.
#[derive(Clone, Copy, Debug, PartialEq, Eq, Structural)]
pub struct LineShape {
    pub len: usize,
    pub is_transit: bool,
}

/// The items of one line: for a non-empty survey line a trigger start, its
/// waypoints and a trigger stop; a transit line only its waypoints; an empty
/// line nothing.
pub open spec fn line_kinds(li: nat, l: LineShape) -> Seq<ItemKind> {
    if l.len == 0 {
        seq![]
    } else {
        let wps = Seq::new(l.len as nat, |i: int| ItemKind::Waypoint { line: li as usize, index: i as usize });
        if l.is_transit {
            wps
        } else {
            seq![ItemKind::TriggerStart] + wps + seq![ItemKind::TriggerStop]
        }
    }
}

/// The items of all lines, in line order.
pub open spec fn plan_kinds(lines: Seq<LineShape>) -> Seq<ItemKind>
    decreases lines.len(),
{
    if lines.len() == 0 {
        seq![]
    } else {
        plan_kinds(lines.drop_last()) + line_kinds((lines.len() - 1) as nat, lines.last())
    }
}

/// Command and frame of an item kind.
pub open spec fn item_command(k: ItemKind) -> u16 {
    match k {
        ItemKind::Waypoint { .. } => MAV_CMD_NAV_WAYPOINT,
        _ => MAV_CMD_DO_SET_CAM_TRIGG_DIST,
    }
}

pub open spec fn item_frame(k: ItemKind, wp_frame: u8) -> u8 {
    match k {
        ItemKind::Waypoint { .. } => wp_frame,
        _ => MAV_FRAME_MISSION,
    }
}

fn push_item(items: &mut Vec<MissionItem>, kind: ItemKind, wp_frame: u8)
    requires
        old(items)@.len() < u32::MAX,
    ensures
        final(items)@ == old(items)@.push(
            MissionItem {
                seq: (old(items)@.len() + 1) as u32,
                command: item_command(kind),
                frame: item_frame(kind, wp_frame),
                kind,
            },
        ),
{
    let seq = (items.len() + 1) as u32;
    let (command, frame) = match kind {
        ItemKind::Waypoint { .. } => (MAV_CMD_NAV_WAYPOINT, wp_frame),
        _ => (MAV_CMD_DO_SET_CAM_TRIGG_DIST, MAV_FRAME_MISSION),
    };
    items.push(MissionItem { seq, command, frame, kind });
}

/// The well-formed item list of a plan: item `k` has jump id `k + 1`, the
/// kind given by [`plan_kinds`], and the command and frame of its kind.
pub open spec fn items_match(items: Seq<MissionItem>, kinds: Seq<ItemKind>, wp_frame: u8) -> bool {
    items.len() == kinds.len() && forall|k: int|
        0 <= k < items.len() ==> (#[trigger] items[k]).seq == k + 1 && items[k].kind == kinds[k]
            && items[k].command == item_command(kinds[k]) && items[k].frame == item_frame(
            kinds[k],
            wp_frame,
        )
}

/// Lay out the mission items of a plan: numbering (`doJumpId`) starts at 1
/// and increases by one per item across the whole mission; survey lines
/// are bracketed by camera-trigger start and stop commands.
pub fn mission_items(lines: &[LineShape], wp_frame: u8) -> (items: Vec<MissionItem>)
    requires
        plan_kinds(lines@).len() < u32::MAX,
    ensures
        items_match(items@, plan_kinds(lines@), wp_frame),
{
    let mut items: Vec<MissionItem> = Vec::new();
    let mut li: usize = 0;
    while li < lines.len()
        invariant
            li <= lines@.len(),
            plan_kinds(lines@).len() < u32::MAX,
            items_match(items@, plan_kinds(lines@.take(li as int)), wp_frame),
        decreases lines.len() - li,
    {
        let line = lines[li];
        proof {
            let t = lines@.take(li + 1);
            assert(t.drop_last() =~= lines@.take(li as int));
            lemma_plan_kinds_prefix(lines@, (li + 1) as nat);
        }
        let ghost base = items@;
        let ghost lk = line_kinds(li as nat, line);
        if line.len > 0 {
            if !line.is_transit {
                push_item(&mut items, ItemKind::TriggerStart, wp_frame);
            }
            let ghost off: int = if line.is_transit { 0 } else { 1 };
            let mut i: usize = 0;
            while i < line.len
                invariant
                    i <= line.len,
                    line.len > 0,
                    lk == line_kinds(li as nat, line),
                    off == (if line.is_transit { 0int } else { 1int }),
                    items@.len() == base.len() + off + i,
                    base.len() + lk.len() <= plan_kinds(lines@).len(),
                    plan_kinds(lines@).len() < u32::MAX,
                    items@.subrange(0, base.len() as int) == base,
                    forall|k: int|
                        base.len() <= k < items@.len() ==> (#[trigger] items@[k]).seq == k + 1
                            && items@[k].kind == lk[k - base.len()] && items@[k].command
                            == item_command(lk[k - base.len()]) && items@[k].frame == item_frame(
                            lk[k - base.len()],
                            wp_frame,
                        ),
                decreases line.len - i,
            {
                let ghost before = items@;
                push_item(&mut items, ItemKind::Waypoint { line: li, index: i }, wp_frame);
                assert(lk[off + i] == ItemKind::Waypoint { line: li, index: i });
                assert(items@.subrange(0, base.len() as int) =~= before.subrange(0, base.len() as int));
                i = i + 1;
            }
            if !line.is_transit {
                push_item(&mut items, ItemKind::TriggerStop, wp_frame);
            }
        }
        proof {
            let t = lines@.take(li + 1);
            assert(plan_kinds(t) == plan_kinds(lines@.take(li as int)) + lk);
            assert(items_match(items@, plan_kinds(t), wp_frame)) by {
                assert(items@.len() == plan_kinds(t).len());
                assert forall|k: int| 0 <= k < items@.len() implies (#[trigger] items@[k]).seq == k + 1
                    && items@[k].kind == plan_kinds(t)[k] && items@[k].command == item_command(
                    plan_kinds(t)[k],
                ) && items@[k].frame == item_frame(plan_kinds(t)[k], wp_frame) by {
                    if k < base.len() {
                        assert(items@[k] == base[k]);
                    }
                }
            }
        }
        li = li + 1;
    }
    assert(lines@.take(lines.len() as int) =~= lines@);
    items
}

/// The item list of a prefix of the lines is a prefix of the full list.
proof fn lemma_plan_kinds_prefix(lines: Seq<LineShape>, n: nat)
    requires
        n <= lines.len(),
    ensures
        plan_kinds(lines.take(n as int)).len() <= plan_kinds(lines).len(),
    decreases lines.len() - n,
{
    if n < lines.len() {
        lemma_plan_kinds_prefix(lines, n + 1);
        let t = lines.take((n + 1) as int);
        assert(t.drop_last() =~= lines.take(n as int));
    } else {
        assert(lines.take(n as int) =~= lines);
    }
}

} // verus!
