//! GeoPackage schema rules computed ahead of the database writes: the
//! PRAGMAs and metadata tables of a new file, the application-id check of
//! an opened one, the identifier check that guards every table name
//! spliced into SQL, the statements issued for a feature table, and the
//! extent of a flight plan recorded in `gpkg_contents`.

use vstd::prelude::*;
use vstd::string::*;
use crate::error::GpkgError;
use crate::text::{hex_padded, push_hex_padded};
use crate::floatbits::{F64_INFINITY_BITS, F64_NEG_INFINITY_BITS, running_min, running_max, lt};

verus! {

/// WKT definition of EPSG:4326 seeded into `gpkg_spatial_ref_sys`.
pub const WGS84_WKT: &'static str = "GEOGCS[\"WGS 84\",DATUM[\"WGS_1984\",SPHEROID[\"WGS 84\",6378137,298.257223563,AUTHORITY[\"EPSG\",\"7030\"]]],PRIMEM[\"Greenwich\",0,AUTHORITY[\"EPSG\",\"8901\"]],UNIT[\"degree\",0.0174532925199433,AUTHORITY[\"EPSG\",\"9122\"]],AUTHORITY[\"EPSG\",\"4326\"]]";

/// `GPKG` application id written to (and required of) every GeoPackage file.
pub const GPKG_APPLICATION_ID: i64 = 1196444487;

/// Persistent PRAGMAs written when a GeoPackage is created: the `GPKG`
/// application id and the 1.3.0 user version.
pub const CREATION_PRAGMAS: &'static str = "PRAGMA application_id = 1196444487;PRAGMA user_version = 10300;";

/// Session PRAGMAs applied on every connection: WAL journal, normal
/// synchronous writes, a 64 MB page cache and foreign keys.
pub const SESSION_PRAGMAS: &'static str = "PRAGMA journal_mode = WAL;PRAGMA synchronous = NORMAL;PRAGMA cache_size = -64000;PRAGMA foreign_keys = ON;";

/// Session PRAGMAs of a pooled connection: those of [`SESSION_PRAGMAS`]
/// and a zero busy timeout, so lock contention fails at once instead of
/// being retried.
pub const POOL_PRAGMAS: &'static str = "PRAGMA journal_mode = WAL;PRAGMA synchronous = NORMAL;PRAGMA cache_size = -64000;PRAGMA foreign_keys = ON;PRAGMA busy_timeout = 0;";

/// Page size set before the first table of a new file is written.
pub const PAGE_SIZE_PRAGMA: &'static str = "PRAGMA page_size = 4096;";

/// DDL of the four mandatory GeoPackage metadata tables (idempotent).
pub const MANDATORY_TABLES_SQL: &'static str = "
            CREATE TABLE IF NOT EXISTS gpkg_spatial_ref_sys (
                srs_name                 TEXT    NOT NULL,
                srs_id                   INTEGER NOT NULL PRIMARY KEY,
                organization             TEXT    NOT NULL,
                organization_coordsys_id INTEGER NOT NULL,
                definition               TEXT    NOT NULL,
                description              TEXT
            );

            CREATE TABLE IF NOT EXISTS gpkg_contents (
                table_name  TEXT     NOT NULL PRIMARY KEY,
                data_type   TEXT     NOT NULL,
                identifier  TEXT,
                description TEXT     DEFAULT '',
                last_change DATETIME NOT NULL DEFAULT (strftime('%Y-%m-%dT%H:%M:%SZ','now')),
                min_x       REAL,
                min_y       REAL,
                max_x       REAL,
                max_y       REAL,
                srs_id      INTEGER,
                CONSTRAINT fk_gc_r_srs_id
                    FOREIGN KEY (srs_id) REFERENCES gpkg_spatial_ref_sys(srs_id)
            );

            CREATE TABLE IF NOT EXISTS gpkg_geometry_columns (
                table_name         TEXT    NOT NULL,
                column_name        TEXT    NOT NULL,
                geometry_type_name TEXT    NOT NULL,
                srs_id             INTEGER NOT NULL,
                z                  TINYINT NOT NULL,
                m                  TINYINT NOT NULL,
                CONSTRAINT pk_geom_cols PRIMARY KEY (table_name, column_name),
                CONSTRAINT fk_gc_tn
                    FOREIGN KEY (table_name) REFERENCES gpkg_contents(table_name),
                CONSTRAINT fk_gc_srs
                    FOREIGN KEY (srs_id) REFERENCES gpkg_spatial_ref_sys(srs_id)
            );

            CREATE TABLE IF NOT EXISTS gpkg_extensions (
                table_name     TEXT,
                column_name    TEXT,
                extension_name TEXT NOT NULL,
                definition     TEXT NOT NULL,
                scope          TEXT NOT NULL,
                CONSTRAINT ge_tce UNIQUE (table_name, column_name, extension_name)
            );
            ";

/// Parameterised insert of a spatial reference system row (`?1` name,
/// `?2` id, `?3` organisation, `?4` organisation id, `?5` definition,
/// `?6` description); existing rows are kept.
pub const SEED_SRS_SQL: &'static str = "INSERT OR IGNORE INTO gpkg_spatial_ref_sys (srs_name, srs_id, organization, organization_coordsys_id, definition, description) VALUES (?1, ?2, ?3, ?4, ?5, ?6)";

/// A row of `gpkg_spatial_ref_sys`, in the parameter order of
/// [`SEED_SRS_SQL`].
pub struct SrsRecord {
    pub srs_name: &'static str,
    pub srs_id: i32,
    pub organization: &'static str,
    pub organization_coordsys_id: i32,
    pub definition: &'static str,
    pub description: &'static str,
}

/// The spatial reference systems every GeoPackage defines: undefined
/// Cartesian (`-1`), undefined geographic (`0`) and WGS 84 geodetic
/// (EPSG:4326).
pub fn required_srs() -> (r: Vec<SrsRecord>)
    ensures
        r@.len() == 3,
        r@[0].srs_name@ == "Undefined Cartesian Coordinate Reference System"@,
        r@[0].srs_id == -1 && r@[0].organization_coordsys_id == -1,
        r@[0].organization@ == "NONE"@,
        r@[0].definition@ == "undefined"@,
        r@[0].description@ == "undefined Cartesian coordinate reference system"@,
        r@[1].srs_name@ == "Undefined Geographic Coordinate Reference System"@,
        r@[1].srs_id == 0 && r@[1].organization_coordsys_id == 0,
        r@[1].organization@ == "NONE"@,
        r@[1].definition@ == "undefined"@,
        r@[1].description@ == "undefined geographic coordinate reference system"@,
        r@[2].srs_name@ == "WGS 84 geodetic"@,
        r@[2].srs_id == 4326 && r@[2].organization_coordsys_id == 4326,
        r@[2].organization@ == "EPSG"@,
        r@[2].definition@ == WGS84_WKT@,
        r@[2].description@ == "longitude/latitude coordinates in decimal degrees on the WGS 84 spheroid"@,
{
    let mut r: Vec<SrsRecord> = Vec::new();
    r.push(SrsRecord {
        srs_name: "Undefined Cartesian Coordinate Reference System",
        srs_id: -1,
        organization: "NONE",
        organization_coordsys_id: -1,
        definition: "undefined",
        description: "undefined Cartesian coordinate reference system",
    });
    r.push(SrsRecord {
        srs_name: "Undefined Geographic Coordinate Reference System",
        srs_id: 0,
        organization: "NONE",
        organization_coordsys_id: 0,
        definition: "undefined",
        description: "undefined geographic coordinate reference system",
    });
    r.push(SrsRecord {
        srs_name: "WGS 84 geodetic",
        srs_id: 4326,
        organization: "EPSG",
        organization_coordsys_id: 4326,
        definition: WGS84_WKT,
        description: "longitude/latitude coordinates in decimal degrees on the WGS 84 spheroid",
    });
    r
}

/// Registration of a feature table in `gpkg_contents` (`?1` = table name).
pub const REGISTER_CONTENTS_SQL: &'static str = "INSERT OR IGNORE INTO gpkg_contents (table_name, data_type, identifier, srs_id) VALUES (?1, 'features', ?1, 4326)";

/// Registration of a feature table's `LINESTRINGZ` geometry column
/// (`?1` = table name).
pub const REGISTER_GEOMETRY_SQL: &'static str = "INSERT OR IGNORE INTO gpkg_geometry_columns (table_name, column_name, geometry_type_name, srs_id, z, m) VALUES (?1, 'geom', 'LINESTRINGZ', 4326, 1, 0)";

/// Update of a table's extent in `gpkg_contents` (`?1..?4` = min x, min y,
/// max x, max y; `?5` = table name).
pub const UPDATE_EXTENT_SQL: &'static str = "UPDATE gpkg_contents SET min_x=?1, min_y=?2, max_x=?3, max_y=?4 WHERE table_name=?5";

/// The message refusing a file whose application id is not `GPKG`.
pub open spec fn spec_not_geopackage_message(app_id: i64) -> Seq<char> {
    "file is not a GeoPackage (application_id=0x"@ + hex_padded((app_id as u64) as nat, 8)
        + ", expected 0x47504b47)"@
}

/// Check the application id read from a file opened as a GeoPackage; a
/// plain SQLite file (id 0) or any other id is refused.
pub fn check_application_id(app_id: i64) -> (r: Result<(), GpkgError>)
    ensures
        r is Ok <==> app_id == GPKG_APPLICATION_ID,
        app_id != GPKG_APPLICATION_ID ==> (r matches Err(GpkgError::Init(m)) && m@
            == spec_not_geopackage_message(app_id)),
{
    if app_id == GPKG_APPLICATION_ID {
        return Ok(());
    }
    proof {
        reveal_strlit("file is not a GeoPackage (application_id=0x");
        reveal_strlit(", expected 0x47504b47)");
    }
    let mut m = String::from_str("file is not a GeoPackage (application_id=0x");
    push_hex_padded(&mut m, app_id as u64, 8);
    m.append(", expected 0x47504b47)");
    Err(GpkgError::Init(m))
}

/// A character allowed in table and column names: ASCII letter, digit or `_`.
pub open spec fn is_ident_char(c: char) -> bool {
    ('a' <= c && c <= 'z') || ('A' <= c && c <= 'Z') || ('0' <= c && c <= '9') || c == '_'
}

/// A name that may be spliced into SQL text: non-empty, and made only of
/// ASCII letters, digits and underscores.
pub open spec fn valid_identifier(name: Seq<char>) -> bool {
    name.len() > 0 && forall|k: int| 0 <= k < name.len() ==> is_ident_char(#[trigger] name[k])
}

/// Rust's `Debug` rendering (`{:?}`) of a string.
pub uninterp spec fn debug_text(s: Seq<char>) -> Seq<char>;

/// Renders `s` with the `{:?}` formatter (quoted, escapes applied); the
/// result is named by `debug_text`, whose escaping rules are not restated.
#[verifier::external_body]
fn debug_quoted(s: &str) -> (r: String)
    ensures
        r@ == debug_text(s@),
{
    format!("{s:?}")
}

fn is_ident_char_exec(c: char) -> (b: bool)
    ensures
        b == is_ident_char(c),
{
    ('a' <= c && c <= 'z') || ('A' <= c && c <= 'Z') || ('0' <= c && c <= '9') || c == '_'
}

/// Reject identifiers that are not purely ASCII alphanumeric + underscores,
/// so that a table or column name can never inject SQL.
pub fn validate_identifier(name: &str) -> (r: Result<(), GpkgError>)
    ensures
        r is Ok <==> valid_identifier(name@),
        name@.len() == 0 ==> (r matches Err(GpkgError::Init(m)) && m@
            == "identifier must not be empty"@),
        name@.len() > 0 && !valid_identifier(name@) ==> (r matches Err(GpkgError::Init(m)) && m@
            == "invalid identifier "@ + debug_text(name@)
            + ": only ASCII alphanumeric and underscores are allowed"@),
{
    if name.is_empty() {
        proof { reveal_strlit("identifier must not be empty"); }
        return Err(GpkgError::Init(String::from_str("identifier must not be empty")));
    }
    let mut ok = true;
    for c in it: name.chars()
        invariant
            it.seq() == name@,
            ok <==> forall|k: int| 0 <= k < it.index() ==> is_ident_char(#[trigger] name@[k]),
    {
        if !is_ident_char_exec(c) {
            ok = false;
        }
    }
    if ok {
        Ok(())
    } else {
        proof {
            reveal_strlit("invalid identifier ");
            reveal_strlit(": only ASCII alphanumeric and underscores are allowed");
        }
        let mut m = String::from_str("invalid identifier ");
        let q = debug_quoted(name);
        m.append(q.as_str());
        m.append(": only ASCII alphanumeric and underscores are allowed");
        Err(GpkgError::Init(m))
    }
}

/// DDL of a user feature table holding `LINESTRINGZ` flight lines.
pub open spec fn spec_feature_table_ddl(table_name: Seq<char>) -> Seq<char> {
    "\n            CREATE TABLE IF NOT EXISTS "@
        + table_name
        + " (\n                id         INTEGER PRIMARY KEY AUTOINCREMENT,\n                line_index INTEGER NOT NULL,\n                geom       BLOB    NOT NULL\n            );\n            "@
}

/// DDL of a user feature table holding `LINESTRINGZ` flight lines.
pub fn feature_table_ddl(table_name: &str) -> (sql: String)
    ensures
        sql@ == spec_feature_table_ddl(table_name@),
{
    proof {
        reveal_strlit("\n            CREATE TABLE IF NOT EXISTS ");
        reveal_strlit(" (\n                id         INTEGER PRIMARY KEY AUTOINCREMENT,\n                line_index INTEGER NOT NULL,\n                geom       BLOB    NOT NULL\n            );\n            ");
    }
    let mut s = String::new();
    s.append("\n            CREATE TABLE IF NOT EXISTS ");
    s.append(table_name);
    s.append(" (\n                id         INTEGER PRIMARY KEY AUTOINCREMENT,\n                line_index INTEGER NOT NULL,\n                geom       BLOB    NOT NULL\n            );\n            ");
    assert(s@ =~= spec_feature_table_ddl(table_name@));
    s
}

/// Parameterised INSERT of one flight line (`?1` = index, `?2` = geometry blob).
pub open spec fn spec_insert_line_sql(table_name: Seq<char>) -> Seq<char> {
    "INSERT INTO "@
        + table_name
        + " (line_index, geom) VALUES (?1, ?2)"@
}

/// Parameterised INSERT of one flight line (`?1` = index, `?2` = geometry blob).
pub fn insert_line_sql(table_name: &str) -> (sql: String)
    ensures
        sql@ == spec_insert_line_sql(table_name@),
{
    proof {
        reveal_strlit(" (line_index, geom) VALUES (?1, ?2)");
        reveal_strlit("INSERT INTO ");
    }
    let mut s = String::new();
    s.append("INSERT INTO ");
    s.append(table_name);
    s.append(" (line_index, geom) VALUES (?1, ?2)");
    assert(s@ =~= spec_insert_line_sql(table_name@));
    s
}

/// Row count query of a feature table.
pub open spec fn spec_count_rows_sql(table_name: Seq<char>) -> Seq<char> {
    "SELECT count(*) FROM "@
        + table_name
}

/// Row count query of a feature table.
pub fn count_rows_sql(table_name: &str) -> (sql: String)
    ensures
        sql@ == spec_count_rows_sql(table_name@),
{
    proof {
        reveal_strlit("SELECT count(*) FROM ");
    }
    let mut s = String::new();
    s.append("SELECT count(*) FROM ");
    s.append(table_name);
    assert(s@ =~= spec_count_rows_sql(table_name@));
    s
}

/// Row count query of the R-tree shadow table of a feature table.
pub open spec fn spec_count_rtree_sql(table_name: Seq<char>) -> Seq<char> {
    "SELECT count(*) FROM rtree_"@
        + table_name
        + "_geom"@
}

/// Row count query of the R-tree shadow table of a feature table.
pub fn count_rtree_sql(table_name: &str) -> (sql: String)
    ensures
        sql@ == spec_count_rtree_sql(table_name@),
{
    proof {
        reveal_strlit("SELECT count(*) FROM rtree_");
        reveal_strlit("_geom");
    }
    let mut s = String::new();
    s.append("SELECT count(*) FROM rtree_");
    s.append(table_name);
    s.append("_geom");
    assert(s@ =~= spec_count_rtree_sql(table_name@));
    s
}

/// Query of the bounding box recorded in `gpkg_contents` for a table.
pub open spec fn spec_contents_bbox_sql(table_name: Seq<char>) -> Seq<char> {
    "SELECT min_x, min_y, max_x, max_y FROM gpkg_contents WHERE table_name='"@
        + table_name
        + "'"@
}

/// Query of the bounding box recorded in `gpkg_contents` for a table.
pub fn contents_bbox_sql(table_name: &str) -> (sql: String)
    ensures
        sql@ == spec_contents_bbox_sql(table_name@),
{
    proof {
        reveal_strlit("'");
        reveal_strlit("SELECT min_x, min_y, max_x, max_y FROM gpkg_contents WHERE table_name='");
    }
    let mut s = String::new();
    s.append("SELECT min_x, min_y, max_x, max_y FROM gpkg_contents WHERE table_name='");
    s.append(table_name);
    s.append("'");
    assert(s@ =~= spec_contents_bbox_sql(table_name@));
    s
}

/// Longitudes (x) of every waypoint of every line, in order.
pub open spec fn all_lons(lines: Seq<Seq<(u64, u64)>>) -> Seq<u64>
    decreases lines.len(),
{
    if lines.len() == 0 {
        seq![]
    } else {
        all_lons(lines.drop_last()) + lines.last().map_values(|p: (u64, u64)| p.0)
    }
}

/// Latitudes (y) of every waypoint of every line, in order.
pub open spec fn all_lats(lines: Seq<Seq<(u64, u64)>>) -> Seq<u64>
    decreases lines.len(),
{
    if lines.len() == 0 {
        seq![]
    } else {
        all_lats(lines.drop_last()) + lines.last().map_values(|p: (u64, u64)| p.1)
    }
}

/// Running minimum continued over `ys` from the start value `m`.
pub open spec fn min_from(m: u64, ys: Seq<u64>) -> u64
    decreases ys.len(),
{
    if ys.len() == 0 {
        m
    } else {
        let r = min_from(m, ys.drop_last());
        if crate::floatbits::f64_lt(ys.last(), r) { ys.last() } else { r }
    }
}

/// Running maximum continued over `ys` from the start value `m`.
pub open spec fn max_from(m: u64, ys: Seq<u64>) -> u64
    decreases ys.len(),
{
    if ys.len() == 0 {
        m
    } else {
        let r = max_from(m, ys.drop_last());
        if crate::floatbits::f64_lt(r, ys.last()) { ys.last() } else { r }
    }
}

proof fn lemma_min_from_concat(xs: Seq<u64>, ys: Seq<u64>)
    ensures
        min_from(running_min(xs), ys) == running_min(xs + ys),
        max_from(running_max(xs), ys) == running_max(xs + ys),
    decreases ys.len(),
{
    if ys.len() == 0 {
        assert(xs + ys =~= xs);
    } else {
        lemma_min_from_concat(xs, ys.drop_last());
        assert((xs + ys).drop_last() =~= xs + ys.drop_last());
        assert((xs + ys).last() == ys.last());
    }
}

/// The (min_lon, min_lat, max_lon, max_lat) extent of a plan whose lines
/// are given as (longitude, latitude) bit patterns; `None` when the plan has
/// no waypoint.
pub open spec fn spec_plan_bbox(lines: Seq<Seq<(u64, u64)>>) -> Option<(u64, u64, u64, u64)> {
    if all_lons(lines).len() == 0 {
        None
    } else {
        Some((
            running_min(all_lons(lines)),
            running_min(all_lats(lines)),
            running_max(all_lons(lines)),
            running_max(all_lats(lines)),
        ))
    }
}

proof fn lemma_all_len(lines: Seq<Seq<(u64, u64)>>)
    ensures
        all_lons(lines).len() == all_lats(lines).len(),
    decreases lines.len(),
{
    if lines.len() > 0 {
        lemma_all_len(lines.drop_last());
    }
}

/// Compute the (min_lon, min_lat, max_lon, max_lat) bounding box of a plan
/// given as lines of (longitude, latitude) pairs. Returns `None` if the
/// plan has no waypoints.
pub fn plan_bbox(lines: &Vec<Vec<(u64, u64)>>) -> (bbox: Option<(u64, u64, u64, u64)>)
    ensures
        bbox == spec_plan_bbox(lines@.map_values(|l: Vec<(u64, u64)>| l@)),
{
    let ghost lv = lines@.map_values(|l: Vec<(u64, u64)>| l@);
    let mut min_x = F64_INFINITY_BITS;
    let mut max_x = F64_NEG_INFINITY_BITS;
    let mut min_y = F64_INFINITY_BITS;
    let mut max_y = F64_NEG_INFINITY_BITS;
    let mut found = false;
    let mut li: usize = 0;
    while li < lines.len()
        invariant
            li <= lines.len(),
            lv == lines@.map_values(|l: Vec<(u64, u64)>| l@),
            min_x == running_min(all_lons(lv.take(li as int))),
            max_x == running_max(all_lons(lv.take(li as int))),
            min_y == running_min(all_lats(lv.take(li as int))),
            max_y == running_max(all_lats(lv.take(li as int))),
            found <==> all_lons(lv.take(li as int)).len() > 0,
        decreases lines.len() - li,
    {
        let line = &lines[li];
        let ghost before_x = all_lons(lv.take(li as int));
        let ghost before_y = all_lats(lv.take(li as int));
        let ghost lx = line@.map_values(|p: (u64, u64)| p.0);
        let ghost ly = line@.map_values(|p: (u64, u64)| p.1);
        let mut k: usize = 0;
        while k < line.len()
            invariant
                k <= line.len(),
                li < lines.len(),
                line == &lines[li as int],
                lx == line@.map_values(|p: (u64, u64)| p.0),
                ly == line@.map_values(|p: (u64, u64)| p.1),
                min_x == min_from(running_min(before_x), lx.take(k as int)),
                max_x == max_from(running_max(before_x), lx.take(k as int)),
                min_y == min_from(running_min(before_y), ly.take(k as int)),
                max_y == max_from(running_max(before_y), ly.take(k as int)),
                found <==> before_x.len() + k > 0,
            decreases line.len() - k,
        {
            let (lon, lat) = line[k];
            proof {
                assert(lx.take(k + 1).drop_last() =~= lx.take(k as int));
                assert(ly.take(k + 1).drop_last() =~= ly.take(k as int));
                assert(lx.take(k + 1).last() == lon);
                assert(ly.take(k + 1).last() == lat);
            }
            found = true;
            if lt(lon, min_x) {
                min_x = lon;
            }
            if lt(max_x, lon) {
                max_x = lon;
            }
            if lt(lat, min_y) {
                min_y = lat;
            }
            if lt(max_y, lat) {
                max_y = lat;
            }
            k = k + 1;
        }
        proof {
            assert(lx.take(k as int) =~= lx);
            assert(ly.take(k as int) =~= ly);
            lemma_min_from_concat(before_x, lx);
            lemma_min_from_concat(before_y, ly);
            let t = lv.take(li + 1);
            assert(t.drop_last() =~= lv.take(li as int));
            assert(t.last() == line@);
            assert(all_lons(t) == before_x + lx);
            assert(all_lats(t) == before_y + ly);
        }
        li = li + 1;
    }
    proof {
        assert(lv.take(lines.len() as int) =~= lv);
        lemma_all_len(lv);
    }
    if found {
        Some((min_x, min_y, max_x, max_y))
    } else {
        None
    }
}

} // verus!
