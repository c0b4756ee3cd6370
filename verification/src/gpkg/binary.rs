//! StandardGeoPackageBinary geometry blobs (GeoPackage spec §2.1.3).
//!
//! Wire format:
//!   [0..2]  magic "GP" (0x47 0x50)
//!   [2]     version 0x00
//!   [3]     flags: bit 0 = little-endian (B), bits 1..3 = envelope kind (E),
//!           bit 4 = empty geometry (Y)
//!   [4..8]  srs_id as i32 little-endian
//!   [8..]   envelope (E=1: minx,maxx,miny,maxy; E=2: + minz,maxz), each an
//!           f64 little-endian, followed by the WKB geometry.
//!
//! Coordinates are given as `f64` bit patterns (see [`crate::floatbits`]).

use vstd::prelude::*;
use crate::floatbits::{
    F64_INFINITY_BITS, F64_NEG_INFINITY_BITS, F64_NAN_BITS, running_min, running_max, lt, no_nan,
    f64_lt, lemma_running_min_is_min, lemma_running_max_is_max,
};

verus! {

/// IEEE-754 quiet NaN in little-endian byte order, the coordinate of an
/// empty point.
pub const QUIET_NAN_LE: [u8; 8] = [0x00, 0x00, 0x00, 0x00, 0x00, 0x00, 0xF8, 0x7F];

/// Little-endian bytes of a 64-bit pattern.
pub open spec fn le8(v: u64) -> Seq<u8> {
    seq![
        (v & 0xff) as u8,
        ((v >> 8u64) & 0xff) as u8,
        ((v >> 16u64) & 0xff) as u8,
        ((v >> 24u64) & 0xff) as u8,
        ((v >> 32u64) & 0xff) as u8,
        ((v >> 40u64) & 0xff) as u8,
        ((v >> 48u64) & 0xff) as u8,
        ((v >> 56u64) & 0xff) as u8,
    ]
}

/// Little-endian bytes of a 32-bit value.
pub open spec fn le4(v: u32) -> Seq<u8> {
    seq![
        (v & 0xff) as u32 as u8,
        ((v >> 8u32) & 0xff) as u8,
        ((v >> 16u32) & 0xff) as u8,
        ((v >> 24u32) & 0xff) as u8,
    ]
}

/// The 64-bit pattern whose little-endian bytes are `s[0..8]`.
pub open spec fn from_le8(s: Seq<u8>) -> u64 {
    (s[0] as u64) | ((s[1] as u64) << 8u64) | ((s[2] as u64) << 16u64) | ((s[3] as u64) << 24u64)
        | ((s[4] as u64) << 32u64) | ((s[5] as u64) << 40u64) | ((s[6] as u64) << 48u64) | ((
    s[7] as u64) << 56u64)
}

/// GeoPackage binary header: magic, version 0, `flags`, srs_id (LE).
pub open spec fn header(srs_id: i32, flags: u8) -> Seq<u8> {
    seq![0x47u8, 0x50u8, 0x00u8, flags] + le4(srs_id as u32)
}

/// x coordinates of a 2D coordinate list.
pub open spec fn xs2(c: Seq<(u64, u64)>) -> Seq<u64> {
    c.map_values(|p: (u64, u64)| p.0)
}

/// y coordinates of a 2D coordinate list.
pub open spec fn ys2(c: Seq<(u64, u64)>) -> Seq<u64> {
    c.map_values(|p: (u64, u64)| p.1)
}

pub open spec fn xs3(c: Seq<(u64, u64, u64)>) -> Seq<u64> {
    c.map_values(|p: (u64, u64, u64)| p.0)
}

pub open spec fn ys3(c: Seq<(u64, u64, u64)>) -> Seq<u64> {
    c.map_values(|p: (u64, u64, u64)| p.1)
}

pub open spec fn zs3(c: Seq<(u64, u64, u64)>) -> Seq<u64> {
    c.map_values(|p: (u64, u64, u64)| p.2)
}

/// WKB point payload of a 2D coordinate list: x then y per point.
pub open spec fn points2(c: Seq<(u64, u64)>) -> Seq<u8>
    decreases c.len(),
{
    if c.len() == 0 {
        seq![]
    } else {
        points2(c.drop_last()) + le8(c.last().0) + le8(c.last().1)
    }
}

/// WKB point payload of a 3D coordinate list: x, y, z per point.
pub open spec fn points3(c: Seq<(u64, u64, u64)>) -> Seq<u8>
    decreases c.len(),
{
    if c.len() == 0 {
        seq![]
    } else {
        points3(c.drop_last()) + le8(c.last().0) + le8(c.last().1) + le8(c.last().2)
    }
}

/// The complete blob of a 2D LineString: flags 0x03 (LE, 2D envelope),
/// envelope (minx, maxx, miny, maxy), WKB type 2, point count, points.
pub open spec fn linestring_blob(c: Seq<(u64, u64)>, srs_id: i32) -> Seq<u8> {
    header(srs_id, 0x03) + le8(running_min(xs2(c))) + le8(running_max(xs2(c))) + le8(
        running_min(ys2(c)),
    ) + le8(running_max(ys2(c))) + seq![0x01u8] + le4(2) + le4(c.len() as u32) + points2(c)
}

/// The complete blob of a 3D LineStringZ: flags 0x05 (LE, 3D envelope),
/// envelope (minx, maxx, miny, maxy, minz, maxz), WKB type 1002, count, points.
pub open spec fn linestring_z_blob(c: Seq<(u64, u64, u64)>, srs_id: i32) -> Seq<u8> {
    header(srs_id, 0x05) + le8(running_min(xs3(c))) + le8(running_max(xs3(c))) + le8(
        running_min(ys3(c)),
    ) + le8(running_max(ys3(c))) + le8(running_min(zs3(c))) + le8(running_max(zs3(c))) + seq![
        0x01u8,
    ] + le4(1002) + le4(c.len() as u32) + points3(c)
}

/// The blob of an empty Point: flags 0x11 (LE, no envelope, empty),
/// WKB type 1 with two quiet-NaN coordinates.
pub open spec fn empty_point_blob(srs_id: i32) -> Seq<u8> {
    header(srs_id, 0x11) + seq![0x01u8] + le4(1) + QUIET_NAN_LE@ + QUIET_NAN_LE@
}

/// The envelope value stored at byte offset `off` (NaN when the blob is too short).
pub open spec fn envelope_at(blob: Seq<u8>, off: int) -> u64 {
    if blob.len() < off + 8 {
        F64_NAN_BITS
    } else {
        from_le8(blob.subrange(off, off + 8))
    }
}

/// Whether the blob is marked empty (bit 4 of the flags byte), or too short
/// to carry a flags byte.
pub open spec fn blob_is_empty(blob: Seq<u8>) -> bool {
    blob.len() < 4 || (blob[3] as int / 16) % 2 == 1
}

pub proof fn lemma_le8_roundtrip(v: u64)
    ensures
        from_le8(le8(v)) == v,
{
    let s = le8(v);
    assert(from_le8(s) == ((v & 0xff) as u8 as u64) | ((((v >> 8u64) & 0xff) as u8 as u64) << 8u64)
        | ((((v >> 16u64) & 0xff) as u8 as u64) << 16u64) | ((((v >> 24u64) & 0xff) as u8 as u64)
        << 24u64) | ((((v >> 32u64) & 0xff) as u8 as u64) << 32u64) | ((((v >> 40u64) & 0xff) as u8
        as u64) << 40u64) | ((((v >> 48u64) & 0xff) as u8 as u64) << 48u64) | ((((v >> 56u64)
        & 0xff) as u8 as u64) << 56u64));
    assert(((v & 0xff) as u8 as u64) | ((((v >> 8u64) & 0xff) as u8 as u64) << 8u64) | ((((v
        >> 16u64) & 0xff) as u8 as u64) << 16u64) | ((((v >> 24u64) & 0xff) as u8 as u64) << 24u64)
        | ((((v >> 32u64) & 0xff) as u8 as u64) << 32u64) | ((((v >> 40u64) & 0xff) as u8 as u64)
        << 40u64) | ((((v >> 48u64) & 0xff) as u8 as u64) << 48u64) | ((((v >> 56u64) & 0xff) as u8
        as u64) << 56u64) == v) by (bit_vector);
}

fn push_le8(buf: &mut Vec<u8>, v: u64)
    ensures
        final(buf)@ == old(buf)@ + le8(v),
{
    buf.push((v & 0xff) as u8);
    buf.push(((v >> 8u64) & 0xff) as u8);
    buf.push(((v >> 16u64) & 0xff) as u8);
    buf.push(((v >> 24u64) & 0xff) as u8);
    buf.push(((v >> 32u64) & 0xff) as u8);
    buf.push(((v >> 40u64) & 0xff) as u8);
    buf.push(((v >> 48u64) & 0xff) as u8);
    buf.push(((v >> 56u64) & 0xff) as u8);
    assert(buf@ =~= old(buf)@ + le8(v));
}

fn push_le4(buf: &mut Vec<u8>, v: u32)
    ensures
        final(buf)@ == old(buf)@ + le4(v),
{
    buf.push((v & 0xff) as u32 as u8);
    buf.push(((v >> 8u32) & 0xff) as u8);
    buf.push(((v >> 16u32) & 0xff) as u8);
    buf.push(((v >> 24u32) & 0xff) as u8);
    assert(buf@ =~= old(buf)@ + le4(v));
}

fn push_header(buf: &mut Vec<u8>, srs_id: i32, flags: u8)
    ensures
        final(buf)@ == old(buf)@ + header(srs_id, flags),
{
    buf.push(0x47);
    buf.push(0x50);
    buf.push(0x00);
    buf.push(flags);
    push_le4(buf, srs_id as u32);
    assert(buf@ =~= old(buf)@ + header(srs_id, flags));
}

/// Scan `coords` for the 2D bounding box (minx, maxx, miny, maxy).
fn compute_envelope(coords: &[(u64, u64)]) -> (env: (u64, u64, u64, u64))
    ensures
        env == (
            running_min(xs2(coords@)),
            running_max(xs2(coords@)),
            running_min(ys2(coords@)),
            running_max(ys2(coords@)),
        ),
{
    let mut minx = F64_INFINITY_BITS;
    let mut maxx = F64_NEG_INFINITY_BITS;
    let mut miny = F64_INFINITY_BITS;
    let mut maxy = F64_NEG_INFINITY_BITS;
    let mut i: usize = 0;
    while i < coords.len()
        invariant
            i <= coords.len(),
            minx == running_min(xs2(coords@.take(i as int))),
            maxx == running_max(xs2(coords@.take(i as int))),
            miny == running_min(ys2(coords@.take(i as int))),
            maxy == running_max(ys2(coords@.take(i as int))),
        decreases coords.len() - i,
    {
        let (x, y) = coords[i];
        proof {
            let t = coords@.take(i + 1);
            assert(xs2(t).drop_last() =~= xs2(coords@.take(i as int)));
            assert(ys2(t).drop_last() =~= ys2(coords@.take(i as int)));
            assert(xs2(t).last() == x);
            assert(ys2(t).last() == y);
        }
        if lt(x, minx) {
            minx = x;
        }
        if lt(maxx, x) {
            maxx = x;
        }
        if lt(y, miny) {
            miny = y;
        }
        if lt(maxy, y) {
            maxy = y;
        }
        i = i + 1;
    }
    assert(coords@.take(coords.len() as int) =~= coords@);
    (minx, maxx, miny, maxy)
}

/// Scan `coords` for the 3D bounding box (minx, maxx, miny, maxy, minz, maxz).
fn compute_envelope_z(coords: &[(u64, u64, u64)]) -> (env: (u64, u64, u64, u64, u64, u64))
    ensures
        env == (
            running_min(xs3(coords@)),
            running_max(xs3(coords@)),
            running_min(ys3(coords@)),
            running_max(ys3(coords@)),
            running_min(zs3(coords@)),
            running_max(zs3(coords@)),
        ),
{
    let mut minx = F64_INFINITY_BITS;
    let mut maxx = F64_NEG_INFINITY_BITS;
    let mut miny = F64_INFINITY_BITS;
    let mut maxy = F64_NEG_INFINITY_BITS;
    let mut minz = F64_INFINITY_BITS;
    let mut maxz = F64_NEG_INFINITY_BITS;
    let mut i: usize = 0;
    while i < coords.len()
        invariant
            i <= coords.len(),
            minx == running_min(xs3(coords@.take(i as int))),
            maxx == running_max(xs3(coords@.take(i as int))),
            miny == running_min(ys3(coords@.take(i as int))),
            maxy == running_max(ys3(coords@.take(i as int))),
            minz == running_min(zs3(coords@.take(i as int))),
            maxz == running_max(zs3(coords@.take(i as int))),
        decreases coords.len() - i,
    {
        let (x, y, z) = coords[i];
        proof {
            let t = coords@.take(i + 1);
            assert(xs3(t).drop_last() =~= xs3(coords@.take(i as int)));
            assert(ys3(t).drop_last() =~= ys3(coords@.take(i as int)));
            assert(zs3(t).drop_last() =~= zs3(coords@.take(i as int)));
            assert(xs3(t).last() == x);
            assert(ys3(t).last() == y);
            assert(zs3(t).last() == z);
        }
        if lt(x, minx) {
            minx = x;
        }
        if lt(maxx, x) {
            maxx = x;
        }
        if lt(y, miny) {
            miny = y;
        }
        if lt(maxy, y) {
            maxy = y;
        }
        if lt(z, minz) {
            minz = z;
        }
        if lt(maxz, z) {
            maxz = z;
        }
        i = i + 1;
    }
    assert(coords@.take(coords.len() as int) =~= coords@);
    (minx, maxx, miny, maxy, minz, maxz)
}

/// Append a WKB LineString payload (LE byte order, type 2, count, points).
fn write_wkb_linestring(buf: &mut Vec<u8>, coords: &[(u64, u64)])
    ensures
        final(buf)@ == old(buf)@ + seq![0x01u8] + le4(2) + le4(coords@.len() as u32) + points2(
            coords@,
        ),
{
    buf.push(0x01);
    push_le4(buf, 2);
    push_le4(buf, coords.len() as u32);
    let ghost start = buf@;
    let mut i: usize = 0;
    while i < coords.len()
        invariant
            i <= coords.len(),
            buf@ == start + points2(coords@.take(i as int)),
        decreases coords.len() - i,
    {
        let (x, y) = coords[i];
        push_le8(buf, x);
        push_le8(buf, y);
        proof {
            let t = coords@.take(i + 1);
            assert(t.drop_last() =~= coords@.take(i as int));
            assert(t.last() == (x, y));
        }
        i = i + 1;
        assert(buf@ =~= start + points2(coords@.take(i as int)));
    }
    assert(coords@.take(coords.len() as int) =~= coords@);
    assert(buf@ =~= old(buf)@ + seq![0x01u8] + le4(2) + le4(coords@.len() as u32) + points2(
        coords@,
    ));
}

/// Encodes a 2D LineString of (longitude, latitude) pairs as a
/// StandardGeoPackageBinary blob with a 2D envelope; `srs_id` is written
/// into the header. A LineString has at least two points.
pub fn encode_linestring(coords: &[(u64, u64)], srs_id: i32) -> (blob: Vec<u8>)
    requires
        coords@.len() >= 2,
    ensures
        blob@ == linestring_blob(coords@, srs_id),
{
    let (minx, maxx, miny, maxy) = compute_envelope(coords);
    let mut buf: Vec<u8> = Vec::new();
    push_header(&mut buf, srs_id, 0x03);
    push_le8(&mut buf, minx);
    push_le8(&mut buf, maxx);
    push_le8(&mut buf, miny);
    push_le8(&mut buf, maxy);
    write_wkb_linestring(&mut buf, coords);
    assert(buf@ =~= linestring_blob(coords@, srs_id));
    buf
}

/// Encodes a 3D LineStringZ of (longitude, latitude, elevation) triples as a
/// StandardGeoPackageBinary blob with a 3D envelope (flags 0x05, WKB type 1002).
pub fn encode_linestring_z(coords: &[(u64, u64, u64)], srs_id: i32) -> (blob: Vec<u8>)
    requires
        coords@.len() >= 2,
    ensures
        blob@ == linestring_z_blob(coords@, srs_id),
{
    let (minx, maxx, miny, maxy, minz, maxz) = compute_envelope_z(coords);
    let mut buf: Vec<u8> = Vec::new();
    push_header(&mut buf, srs_id, 0x05);
    push_le8(&mut buf, minx);
    push_le8(&mut buf, maxx);
    push_le8(&mut buf, miny);
    push_le8(&mut buf, maxy);
    push_le8(&mut buf, minz);
    push_le8(&mut buf, maxz);
    buf.push(0x01);
    push_le4(&mut buf, 1002);
    push_le4(&mut buf, coords.len() as u32);
    let ghost start = buf@;
    let mut i: usize = 0;
    while i < coords.len()
        invariant
            i <= coords.len(),
            buf@ == start + points3(coords@.take(i as int)),
        decreases coords.len() - i,
    {
        let (x, y, z) = coords[i];
        push_le8(&mut buf, x);
        push_le8(&mut buf, y);
        push_le8(&mut buf, z);
        proof {
            let t = coords@.take(i + 1);
            assert(t.drop_last() =~= coords@.take(i as int));
            assert(t.last() == (x, y, z));
        }
        i = i + 1;
        assert(buf@ =~= start + points3(coords@.take(i as int)));
    }
    assert(coords@.take(coords.len() as int) =~= coords@);
    assert(buf@ =~= linestring_z_blob(coords@, srs_id));
    buf
}

/// Encodes an empty Point (flags Y=1, no envelope, NaN coordinates).
pub fn encode_empty_point(srs_id: i32) -> (blob: Vec<u8>)
    ensures
        blob@ == empty_point_blob(srs_id),
{
    let mut buf: Vec<u8> = Vec::new();
    push_header(&mut buf, srs_id, 0x11);
    buf.push(0x01);
    push_le4(&mut buf, 1);
    let mut k: usize = 0;
    let ghost start = buf@;
    while k < 16
        invariant
            k <= 16,
            buf@ == start + (QUIET_NAN_LE@ + QUIET_NAN_LE@).take(k as int),
        decreases 16 - k,
    {
        buf.push(QUIET_NAN_LE[k % 8]);
        k = k + 1;
        assert(buf@ =~= start + (QUIET_NAN_LE@ + QUIET_NAN_LE@).take(k as int));
    }
    assert((QUIET_NAN_LE@ + QUIET_NAN_LE@).take(16) =~= QUIET_NAN_LE@ + QUIET_NAN_LE@);
    assert(buf@ =~= empty_point_blob(srs_id));
    buf
}

fn read_le8(blob: &[u8], off: usize) -> (v: u64)
    requires
        off + 8 <= blob@.len(),
    ensures
        v == from_le8(blob@.subrange(off as int, off + 8)),
{
    let ghost s = blob@.subrange(off as int, off + 8);
    assert(s[0] == blob@[off as int] && s[1] == blob@[off + 1] && s[2] == blob@[off + 2]
        && s[3] == blob@[off + 3] && s[4] == blob@[off + 4] && s[5] == blob@[off + 5]
        && s[6] == blob@[off + 6] && s[7] == blob@[off + 7]);
    (blob[off] as u64) | ((blob[off + 1] as u64) << 8u64) | ((blob[off + 2] as u64) << 16u64) | ((
    blob[off + 3] as u64) << 24u64) | ((blob[off + 4] as u64) << 32u64) | ((blob[off + 5] as u64)
        << 40u64) | ((blob[off + 6] as u64) << 48u64) | ((blob[off + 7] as u64) << 56u64)
}

/// Bit pattern of minx from a GPKG blob envelope (bytes 8..16, LE); NaN if short.
pub fn parse_envelope_minx(blob: &[u8]) -> (v: u64)
    ensures
        v == envelope_at(blob@, 8),
{
    if blob.len() < 16 {
        return F64_NAN_BITS;
    }
    read_le8(blob, 8)
}

/// Bit pattern of maxx from a GPKG blob envelope (bytes 16..24, LE); NaN if short.
pub fn parse_envelope_maxx(blob: &[u8]) -> (v: u64)
    ensures
        v == envelope_at(blob@, 16),
{
    if blob.len() < 24 {
        return F64_NAN_BITS;
    }
    read_le8(blob, 16)
}

/// Bit pattern of miny from a GPKG blob envelope (bytes 24..32, LE); NaN if short.
pub fn parse_envelope_miny(blob: &[u8]) -> (v: u64)
    ensures
        v == envelope_at(blob@, 24),
{
    if blob.len() < 32 {
        return F64_NAN_BITS;
    }
    read_le8(blob, 24)
}

/// Bit pattern of maxy from a GPKG blob envelope (bytes 32..40, LE); NaN if short.
pub fn parse_envelope_maxy(blob: &[u8]) -> (v: u64)
    ensures
        v == envelope_at(blob@, 32),
{
    if blob.len() < 40 {
        return F64_NAN_BITS;
    }
    read_le8(blob, 32)
}

/// True if the blob represents an empty geometry (bit 4 of byte 3), or is
/// too short to carry a flags byte.
pub fn parse_is_empty(blob: &[u8]) -> (b: bool)
    ensures
        b == blob_is_empty(blob@),
{
    blob.len() < 4 || (blob[3] / 16) % 2 == 1
}

/// The envelope written by [`encode_linestring`] is the envelope read back
/// by the `parse_envelope_*` functions (the R-tree index functions), and the
/// blob is not marked empty.
pub proof fn law_linestring_envelope_roundtrip(c: Seq<(u64, u64)>, srs_id: i32)
    ensures
        envelope_at(linestring_blob(c, srs_id), 8) == running_min(xs2(c)),
        envelope_at(linestring_blob(c, srs_id), 16) == running_max(xs2(c)),
        envelope_at(linestring_blob(c, srs_id), 24) == running_min(ys2(c)),
        envelope_at(linestring_blob(c, srs_id), 32) == running_max(ys2(c)),
        !blob_is_empty(linestring_blob(c, srs_id)),
{
    let b = linestring_blob(c, srs_id);
    let a0 = running_min(xs2(c));
    let a1 = running_max(xs2(c));
    let a2 = running_min(ys2(c));
    let a3 = running_max(ys2(c));
    assert(b.subrange(8, 16) =~= le8(a0));
    assert(b.subrange(16, 24) =~= le8(a1));
    assert(b.subrange(24, 32) =~= le8(a2));
    assert(b.subrange(32, 40) =~= le8(a3));
    lemma_le8_roundtrip(a0);
    lemma_le8_roundtrip(a1);
    lemma_le8_roundtrip(a2);
    lemma_le8_roundtrip(a3);
    assert(b[3] == 0x03u8);
}

/// The same round trip for [`encode_linestring_z`]: its 3D envelope starts
/// with the 2D one, so the R-tree functions read the x/y extent back.
pub proof fn law_linestring_z_envelope_roundtrip(c: Seq<(u64, u64, u64)>, srs_id: i32)
    ensures
        envelope_at(linestring_z_blob(c, srs_id), 8) == running_min(xs3(c)),
        envelope_at(linestring_z_blob(c, srs_id), 16) == running_max(xs3(c)),
        envelope_at(linestring_z_blob(c, srs_id), 24) == running_min(ys3(c)),
        envelope_at(linestring_z_blob(c, srs_id), 32) == running_max(ys3(c)),
        linestring_z_blob(c, srs_id).subrange(40, 48) == le8(running_min(zs3(c))),
        linestring_z_blob(c, srs_id).subrange(48, 56) == le8(running_max(zs3(c))),
        !blob_is_empty(linestring_z_blob(c, srs_id)),
{
    let b = linestring_z_blob(c, srs_id);
    let a0 = running_min(xs3(c));
    let a1 = running_max(xs3(c));
    let a2 = running_min(ys3(c));
    let a3 = running_max(ys3(c));
    assert(b.subrange(8, 16) =~= le8(a0));
    assert(b.subrange(16, 24) =~= le8(a1));
    assert(b.subrange(24, 32) =~= le8(a2));
    assert(b.subrange(32, 40) =~= le8(a3));
    assert(b.subrange(40, 48) =~= le8(running_min(zs3(c))));
    assert(b.subrange(48, 56) =~= le8(running_max(zs3(c))));
    lemma_le8_roundtrip(a0);
    lemma_le8_roundtrip(a1);
    lemma_le8_roundtrip(a2);
    lemma_le8_roundtrip(a3);
    assert(b[3] == 0x05u8);
}

/// An encoded empty point is recognised as empty.
pub proof fn law_empty_point_is_empty(srs_id: i32)
    ensures
        blob_is_empty(empty_point_blob(srs_id)),
{
    assert(empty_point_blob(srs_id)[3] == 0x11u8);
}

/// A LineStringZ and the LineString of the same horizontal coordinates
/// carry byte-identical x/y envelopes (bytes 8..40).
pub proof fn law_z_envelope_matches_2d(c3: Seq<(u64, u64, u64)>, c2: Seq<(u64, u64)>, srs_id: i32)
    requires
        xs3(c3) == xs2(c2),
        ys3(c3) == ys2(c2),
    ensures
        linestring_z_blob(c3, srs_id).subrange(8, 40) == linestring_blob(c2, srs_id).subrange(8, 40),
{
    let b3 = linestring_z_blob(c3, srs_id);
    let b2 = linestring_blob(c2, srs_id);
    assert(b3.subrange(8, 40) =~= le8(running_min(xs2(c2))) + le8(running_max(xs2(c2))) + le8(
        running_min(ys2(c2)),
    ) + le8(running_max(ys2(c2))));
    assert(b2.subrange(8, 40) =~= le8(running_min(xs2(c2))) + le8(running_max(xs2(c2))) + le8(
        running_min(ys2(c2)),
    ) + le8(running_max(ys2(c2))));
}

/// Every coordinate of a NaN-free LineString lies inside the envelope that
/// the R-tree functions read back from its blob.
pub proof fn law_envelope_contains_points(c: Seq<(u64, u64)>, srs_id: i32)
    requires
        no_nan(xs2(c)),
        no_nan(ys2(c)),
    ensures
        forall|i: int|
            0 <= i < c.len() ==> {
                &&& !f64_lt(#[trigger] c[i].0, envelope_at(linestring_blob(c, srs_id), 8))
                &&& !f64_lt(envelope_at(linestring_blob(c, srs_id), 16), c[i].0)
                &&& !f64_lt(c[i].1, envelope_at(linestring_blob(c, srs_id), 24))
                &&& !f64_lt(envelope_at(linestring_blob(c, srs_id), 32), c[i].1)
            },
{
    law_linestring_envelope_roundtrip(c, srs_id);
    lemma_running_min_is_min(xs2(c));
    lemma_running_max_is_max(xs2(c));
    lemma_running_min_is_min(ys2(c));
    lemma_running_max_is_max(ys2(c));
    assert forall|i: int| 0 <= i < c.len() implies {
        &&& !f64_lt(#[trigger] c[i].0, envelope_at(linestring_blob(c, srs_id), 8))
        &&& !f64_lt(envelope_at(linestring_blob(c, srs_id), 16), c[i].0)
        &&& !f64_lt(c[i].1, envelope_at(linestring_blob(c, srs_id), 24))
        &&& !f64_lt(envelope_at(linestring_blob(c, srs_id), 32), c[i].1)
    } by {
        assert(xs2(c)[i] == c[i].0);
        assert(ys2(c)[i] == c[i].1);
    }
}

} // verus!
