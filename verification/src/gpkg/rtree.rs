//! R-tree spatial index of GeoPackage feature tables: the virtual table and
//! the eight synchronisation triggers of GeoPackage Annex F.3. The triggers
//! call the session functions `ST_MinX`, `ST_MaxX`, `ST_MinY`, `ST_MaxY` and
//! `ST_IsEmpty`, which read the blob envelope with the
//! [`crate::gpkg::binary`] parsers.

use vstd::prelude::*;
use vstd::string::*;
use crate::chars::ends_with;

verus! {

/// Registration of the R-tree extension of a geometry column in
/// `gpkg_extensions` (`?1` = table, `?2` = geometry column), so that GIS
/// software uses the spatial index.
pub const REGISTER_RTREE_EXTENSION_SQL: &'static str = "INSERT OR IGNORE INTO gpkg_extensions (table_name, column_name, extension_name, definition, scope) VALUES (?1, ?2, 'gpkg_rtree_index', 'http://www.geopackage.org/spec/#extension_rtree', 'write-only')";

/// DDL of the R*Tree virtual table `rtree_<table>_<geom_col>`.
pub open spec fn spec_rtree_table_sql(table: Seq<char>, geom_col: Seq<char>) -> Seq<char> {
    "CREATE VIRTUAL TABLE IF NOT EXISTS rtree_"@
        + table
        + "_"@
        + geom_col
        + " USING rtree(id, minx, maxx, miny, maxy);"@
}

/// DDL of the R*Tree virtual table `rtree_<table>_<geom_col>`.
pub fn rtree_table_sql(table: &str, geom_col: &str) -> (sql: String)
    ensures
        sql@ == spec_rtree_table_sql(table@, geom_col@),
{
    proof {
        reveal_strlit(" USING rtree(id, minx, maxx, miny, maxy);");
        reveal_strlit("CREATE VIRTUAL TABLE IF NOT EXISTS rtree_");
        reveal_strlit("_");
    }
    let mut s = String::new();
    s.append("CREATE VIRTUAL TABLE IF NOT EXISTS rtree_");
    s.append(table);
    s.append("_");
    s.append(geom_col);
    s.append(" USING rtree(id, minx, maxx, miny, maxy);");
    assert(s@ =~= spec_rtree_table_sql(table@, geom_col@));
    s
}

pub open spec fn trigger_part_0(t: Seq<char>, c: Seq<char>, i: Seq<char>) -> Seq<char> {
    Seq::<char>::empty()
        + "\n"@
}

fn build_trigger_part_0(t: &str, c: &str, i: &str) -> (s: String)
    ensures
        s@ == trigger_part_0(t@, c@, i@),
{
    let mut s = String::new();
    s.append("\n");
    s
}

pub open spec fn trigger_part_1(t: Seq<char>, c: Seq<char>, i: Seq<char>) -> Seq<char> {
    Seq::<char>::empty()
        + "-- 1. INSERT: new row with non-null, non-empty geometry\nCREATE TRIGGER IF NOT EXISTS rtree_"@
        + t
        + "_"@
        + c
        + "_insert AFTER INSERT ON "@
        + t
        + "\nWHEN NEW."@
        + c
        + " NOT NULL AND NOT ST_IsEmpty(NEW."@
        + c
        + ")\nBEGIN\n  INSERT INTO rtree_"@
        + t
        + "_"@
        + c
        + " VALUES (\n    NEW."@
        + i
        + ",\n    ST_MinX(NEW."@
        + c
        + "), ST_MaxX(NEW."@
        + c
        + "),\n    ST_MinY(NEW."@
        + c
        + "), ST_MaxY(NEW."@
        + c
        + "));\nEND;\n\n"@
}

fn build_trigger_part_1(t: &str, c: &str, i: &str) -> (s: String)
    ensures
        s@ == trigger_part_1(t@, c@, i@),
{
    let mut s = String::new();
    s.append("-- 1. INSERT: new row with non-null, non-empty geometry\nCREATE TRIGGER IF NOT EXISTS rtree_");
    s.append(t);
    s.append("_");
    s.append(c);
    s.append("_insert AFTER INSERT ON ");
    s.append(t);
    s.append("\nWHEN NEW.");
    s.append(c);
    s.append(" NOT NULL AND NOT ST_IsEmpty(NEW.");
    s.append(c);
    s.append(")\nBEGIN\n  INSERT INTO rtree_");
    s.append(t);
    s.append("_");
    s.append(c);
    s.append(" VALUES (\n    NEW.");
    s.append(i);
    s.append(",\n    ST_MinX(NEW.");
    s.append(c);
    s.append("), ST_MaxX(NEW.");
    s.append(c);
    s.append("),\n    ST_MinY(NEW.");
    s.append(c);
    s.append("), ST_MaxY(NEW.");
    s.append(c);
    s.append("));\nEND;\n\n");
    s
}

pub open spec fn trigger_part_2(t: Seq<char>, c: Seq<char>, i: Seq<char>) -> Seq<char> {
    Seq::<char>::empty()
        + "-- 2. UPDATE1: geometry changed, PK unchanged, both non-null and non-empty\nCREATE TRIGGER IF NOT EXISTS rtree_"@
        + t
        + "_"@
        + c
        + "_update1 AFTER UPDATE OF "@
        + c
        + " ON "@
        + t
        + "\nWHEN OLD."@
        + i
        + " = NEW."@
        + i
        + "\n  AND NEW."@
        + c
        + " NOT NULL AND NOT ST_IsEmpty(NEW."@
        + c
        + ")\n  AND OLD."@
        + c
        + " NOT NULL AND NOT ST_IsEmpty(OLD."@
        + c
        + ")\nBEGIN\n  UPDATE rtree_"@
        + t
        + "_"@
        + c
        + " SET\n    minx = ST_MinX(NEW."@
        + c
        + "), maxx = ST_MaxX(NEW."@
        + c
        + "),\n    miny = ST_MinY(NEW."@
        + c
        + "), maxy = ST_MaxY(NEW."@
        + c
        + ")\n  WHERE id = NEW."@
        + i
        + ";\nEND;\n\n"@
}

fn build_trigger_part_2(t: &str, c: &str, i: &str) -> (s: String)
    ensures
        s@ == trigger_part_2(t@, c@, i@),
{
    let mut s = String::new();
    s.append("-- 2. UPDATE1: geometry changed, PK unchanged, both non-null and non-empty\nCREATE TRIGGER IF NOT EXISTS rtree_");
    s.append(t);
    s.append("_");
    s.append(c);
    s.append("_update1 AFTER UPDATE OF ");
    s.append(c);
    s.append(" ON ");
    s.append(t);
    s.append("\nWHEN OLD.");
    s.append(i);
    s.append(" = NEW.");
    s.append(i);
    s.append("\n  AND NEW.");
    s.append(c);
    s.append(" NOT NULL AND NOT ST_IsEmpty(NEW.");
    s.append(c);
    s.append(")\n  AND OLD.");
    s.append(c);
    s.append(" NOT NULL AND NOT ST_IsEmpty(OLD.");
    s.append(c);
    s.append(")\nBEGIN\n  UPDATE rtree_");
    s.append(t);
    s.append("_");
    s.append(c);
    s.append(" SET\n    minx = ST_MinX(NEW.");
    s.append(c);
    s.append("), maxx = ST_MaxX(NEW.");
    s.append(c);
    s.append("),\n    miny = ST_MinY(NEW.");
    s.append(c);
    s.append("), maxy = ST_MaxY(NEW.");
    s.append(c);
    s.append(")\n  WHERE id = NEW.");
    s.append(i);
    s.append(";\nEND;\n\n");
    s
}

pub open spec fn trigger_part_3(t: Seq<char>, c: Seq<char>, i: Seq<char>) -> Seq<char> {
    Seq::<char>::empty()
        + "-- 3. UPDATE2: PK changed, both geometries non-null and non-empty\nCREATE TRIGGER IF NOT EXISTS rtree_"@
        + t
        + "_"@
        + c
        + "_update2 AFTER UPDATE OF "@
        + c
        + " ON "@
        + t
        + "\nWHEN OLD."@
        + i
        + " != NEW."@
        + i
        + "\n  AND NEW."@
        + c
        + " NOT NULL AND NOT ST_IsEmpty(NEW."@
        + c
        + ")\n  AND OLD."@
        + c
        + " NOT NULL AND NOT ST_IsEmpty(OLD."@
        + c
        + ")\nBEGIN\n  DELETE FROM rtree_"@
        + t
        + "_"@
        + c
        + " WHERE id = OLD."@
        + i
        + ";\n  INSERT INTO rtree_"@
        + t
        + "_"@
        + c
        + " VALUES (\n    NEW."@
        + i
        + ",\n    ST_MinX(NEW."@
        + c
        + "), ST_MaxX(NEW."@
        + c
        + "),\n    ST_MinY(NEW."@
        + c
        + "), ST_MaxY(NEW."@
        + c
        + "));\nEND;\n\n"@
}

fn build_trigger_part_3(t: &str, c: &str, i: &str) -> (s: String)
    ensures
        s@ == trigger_part_3(t@, c@, i@),
{
    let mut s = String::new();
    s.append("-- 3. UPDATE2: PK changed, both geometries non-null and non-empty\nCREATE TRIGGER IF NOT EXISTS rtree_");
    s.append(t);
    s.append("_");
    s.append(c);
    s.append("_update2 AFTER UPDATE OF ");
    s.append(c);
    s.append(" ON ");
    s.append(t);
    s.append("\nWHEN OLD.");
    s.append(i);
    s.append(" != NEW.");
    s.append(i);
    s.append("\n  AND NEW.");
    s.append(c);
    s.append(" NOT NULL AND NOT ST_IsEmpty(NEW.");
    s.append(c);
    s.append(")\n  AND OLD.");
    s.append(c);
    s.append(" NOT NULL AND NOT ST_IsEmpty(OLD.");
    s.append(c);
    s.append(")\nBEGIN\n  DELETE FROM rtree_");
    s.append(t);
    s.append("_");
    s.append(c);
    s.append(" WHERE id = OLD.");
    s.append(i);
    s.append(";\n  INSERT INTO rtree_");
    s.append(t);
    s.append("_");
    s.append(c);
    s.append(" VALUES (\n    NEW.");
    s.append(i);
    s.append(",\n    ST_MinX(NEW.");
    s.append(c);
    s.append("), ST_MaxX(NEW.");
    s.append(c);
    s.append("),\n    ST_MinY(NEW.");
    s.append(c);
    s.append("), ST_MaxY(NEW.");
    s.append(c);
    s.append("));\nEND;\n\n");
    s
}

pub open spec fn trigger_part_4(t: Seq<char>, c: Seq<char>, i: Seq<char>) -> Seq<char> {
    Seq::<char>::empty()
        + "-- 4. UPDATE3: PK changed, new geometry non-null/non-empty, old was null/empty\nCREATE TRIGGER IF NOT EXISTS rtree_"@
        + t
        + "_"@
        + c
        + "_update3 AFTER UPDATE OF "@
        + c
        + " ON "@
        + t
        + "\nWHEN OLD."@
        + i
        + " != NEW."@
        + i
        + "\n  AND NEW."@
        + c
        + " NOT NULL AND NOT ST_IsEmpty(NEW."@
        + c
        + ")\n  AND (OLD."@
        + c
        + " IS NULL OR ST_IsEmpty(OLD."@
        + c
        + "))\nBEGIN\n  INSERT INTO rtree_"@
        + t
        + "_"@
        + c
        + " VALUES (\n    NEW."@
        + i
        + ",\n    ST_MinX(NEW."@
        + c
        + "), ST_MaxX(NEW."@
        + c
        + "),\n    ST_MinY(NEW."@
        + c
        + "), ST_MaxY(NEW."@
        + c
        + "));\nEND;\n\n"@
}

fn build_trigger_part_4(t: &str, c: &str, i: &str) -> (s: String)
    ensures
        s@ == trigger_part_4(t@, c@, i@),
{
    let mut s = String::new();
    s.append("-- 4. UPDATE3: PK changed, new geometry non-null/non-empty, old was null/empty\nCREATE TRIGGER IF NOT EXISTS rtree_");
    s.append(t);
    s.append("_");
    s.append(c);
    s.append("_update3 AFTER UPDATE OF ");
    s.append(c);
    s.append(" ON ");
    s.append(t);
    s.append("\nWHEN OLD.");
    s.append(i);
    s.append(" != NEW.");
    s.append(i);
    s.append("\n  AND NEW.");
    s.append(c);
    s.append(" NOT NULL AND NOT ST_IsEmpty(NEW.");
    s.append(c);
    s.append(")\n  AND (OLD.");
    s.append(c);
    s.append(" IS NULL OR ST_IsEmpty(OLD.");
    s.append(c);
    s.append("))\nBEGIN\n  INSERT INTO rtree_");
    s.append(t);
    s.append("_");
    s.append(c);
    s.append(" VALUES (\n    NEW.");
    s.append(i);
    s.append(",\n    ST_MinX(NEW.");
    s.append(c);
    s.append("), ST_MaxX(NEW.");
    s.append(c);
    s.append("),\n    ST_MinY(NEW.");
    s.append(c);
    s.append("), ST_MaxY(NEW.");
    s.append(c);
    s.append("));\nEND;\n\n");
    s
}

pub open spec fn trigger_part_5(t: Seq<char>, c: Seq<char>, i: Seq<char>) -> Seq<char> {
    Seq::<char>::empty()
        + "-- 5. UPDATE4: PK changed, old geometry non-null/non-empty, new is null/empty\nCREATE TRIGGER IF NOT EXISTS rtree_"@
        + t
        + "_"@
        + c
        + "_update4 AFTER UPDATE OF "@
        + c
        + " ON "@
        + t
        + "\nWHEN OLD."@
        + i
        + " != NEW."@
        + i
        + "\n  AND OLD."@
        + c
        + " NOT NULL AND NOT ST_IsEmpty(OLD."@
        + c
        + ")\n  AND (NEW."@
        + c
        + " IS NULL OR ST_IsEmpty(NEW."@
        + c
        + "))\nBEGIN\n  DELETE FROM rtree_"@
        + t
        + "_"@
        + c
        + " WHERE id = OLD."@
        + i
        + ";\nEND;\n\n"@
}

fn build_trigger_part_5(t: &str, c: &str, i: &str) -> (s: String)
    ensures
        s@ == trigger_part_5(t@, c@, i@),
{
    let mut s = String::new();
    s.append("-- 5. UPDATE4: PK changed, old geometry non-null/non-empty, new is null/empty\nCREATE TRIGGER IF NOT EXISTS rtree_");
    s.append(t);
    s.append("_");
    s.append(c);
    s.append("_update4 AFTER UPDATE OF ");
    s.append(c);
    s.append(" ON ");
    s.append(t);
    s.append("\nWHEN OLD.");
    s.append(i);
    s.append(" != NEW.");
    s.append(i);
    s.append("\n  AND OLD.");
    s.append(c);
    s.append(" NOT NULL AND NOT ST_IsEmpty(OLD.");
    s.append(c);
    s.append(")\n  AND (NEW.");
    s.append(c);
    s.append(" IS NULL OR ST_IsEmpty(NEW.");
    s.append(c);
    s.append("))\nBEGIN\n  DELETE FROM rtree_");
    s.append(t);
    s.append("_");
    s.append(c);
    s.append(" WHERE id = OLD.");
    s.append(i);
    s.append(";\nEND;\n\n");
    s
}

pub open spec fn trigger_part_6(t: Seq<char>, c: Seq<char>, i: Seq<char>) -> Seq<char> {
    Seq::<char>::empty()
        + "-- 6. UPDATE5 (spec): PK unchanged, old was null/empty, new geometry is valid\n--    This is the \"fill in geometry later\" pattern. Without this trigger the\n--    R-tree never gets an entry for rows whose geometry column is populated\n--    after the initial insert, producing silently incorrect spatial queries.\nCREATE TRIGGER IF NOT EXISTS rtree_"@
        + t
        + "_"@
        + c
        + "_update5 AFTER UPDATE OF "@
        + c
        + " ON "@
        + t
        + "\nWHEN OLD."@
        + i
        + " = NEW."@
        + i
        + "\n  AND NEW."@
        + c
        + " NOT NULL AND NOT ST_IsEmpty(NEW."@
        + c
        + ")\n  AND (OLD."@
        + c
        + " IS NULL OR ST_IsEmpty(OLD."@
        + c
        + "))\nBEGIN\n  INSERT INTO rtree_"@
        + t
        + "_"@
        + c
        + " VALUES (\n    NEW."@
        + i
        + ",\n    ST_MinX(NEW."@
        + c
        + "), ST_MaxX(NEW."@
        + c
        + "),\n    ST_MinY(NEW."@
        + c
        + "), ST_MaxY(NEW."@
        + c
        + "));\nEND;\n\n"@
}

fn build_trigger_part_6(t: &str, c: &str, i: &str) -> (s: String)
    ensures
        s@ == trigger_part_6(t@, c@, i@),
{
    let mut s = String::new();
    s.append("-- 6. UPDATE5 (spec): PK unchanged, old was null/empty, new geometry is valid\n--    This is the \"fill in geometry later\" pattern. Without this trigger the\n--    R-tree never gets an entry for rows whose geometry column is populated\n--    after the initial insert, producing silently incorrect spatial queries.\nCREATE TRIGGER IF NOT EXISTS rtree_");
    s.append(t);
    s.append("_");
    s.append(c);
    s.append("_update5 AFTER UPDATE OF ");
    s.append(c);
    s.append(" ON ");
    s.append(t);
    s.append("\nWHEN OLD.");
    s.append(i);
    s.append(" = NEW.");
    s.append(i);
    s.append("\n  AND NEW.");
    s.append(c);
    s.append(" NOT NULL AND NOT ST_IsEmpty(NEW.");
    s.append(c);
    s.append(")\n  AND (OLD.");
    s.append(c);
    s.append(" IS NULL OR ST_IsEmpty(OLD.");
    s.append(c);
    s.append("))\nBEGIN\n  INSERT INTO rtree_");
    s.append(t);
    s.append("_");
    s.append(c);
    s.append(" VALUES (\n    NEW.");
    s.append(i);
    s.append(",\n    ST_MinX(NEW.");
    s.append(c);
    s.append("), ST_MaxX(NEW.");
    s.append(c);
    s.append("),\n    ST_MinY(NEW.");
    s.append(c);
    s.append("), ST_MaxY(NEW.");
    s.append(c);
    s.append("));\nEND;\n\n");
    s
}

pub open spec fn trigger_part_7(t: Seq<char>, c: Seq<char>, i: Seq<char>) -> Seq<char> {
    Seq::<char>::empty()
        + "-- 7. UPDATE6 (spec): PK unchanged, geometry set to null or empty, old was valid\nCREATE TRIGGER IF NOT EXISTS rtree_"@
        + t
        + "_"@
        + c
        + "_update6 AFTER UPDATE OF "@
        + c
        + " ON "@
        + t
        + "\nWHEN OLD."@
        + i
        + " = NEW."@
        + i
        + "\n  AND (NEW."@
        + c
        + " IS NULL OR ST_IsEmpty(NEW."@
        + c
        + "))\n  AND OLD."@
        + c
        + " NOT NULL AND NOT ST_IsEmpty(OLD."@
        + c
        + ")\nBEGIN\n  DELETE FROM rtree_"@
        + t
        + "_"@
        + c
        + " WHERE id = OLD."@
        + i
        + ";\nEND;\n\n"@
}

fn build_trigger_part_7(t: &str, c: &str, i: &str) -> (s: String)
    ensures
        s@ == trigger_part_7(t@, c@, i@),
{
    let mut s = String::new();
    s.append("-- 7. UPDATE6 (spec): PK unchanged, geometry set to null or empty, old was valid\nCREATE TRIGGER IF NOT EXISTS rtree_");
    s.append(t);
    s.append("_");
    s.append(c);
    s.append("_update6 AFTER UPDATE OF ");
    s.append(c);
    s.append(" ON ");
    s.append(t);
    s.append("\nWHEN OLD.");
    s.append(i);
    s.append(" = NEW.");
    s.append(i);
    s.append("\n  AND (NEW.");
    s.append(c);
    s.append(" IS NULL OR ST_IsEmpty(NEW.");
    s.append(c);
    s.append("))\n  AND OLD.");
    s.append(c);
    s.append(" NOT NULL AND NOT ST_IsEmpty(OLD.");
    s.append(c);
    s.append(")\nBEGIN\n  DELETE FROM rtree_");
    s.append(t);
    s.append("_");
    s.append(c);
    s.append(" WHERE id = OLD.");
    s.append(i);
    s.append(";\nEND;\n\n");
    s
}

pub open spec fn trigger_part_8(t: Seq<char>, c: Seq<char>, i: Seq<char>) -> Seq<char> {
    Seq::<char>::empty()
        + "-- 8. DELETE: row removed with a valid geometry\nCREATE TRIGGER IF NOT EXISTS rtree_"@
        + t
        + "_"@
        + c
        + "_delete AFTER DELETE ON "@
        + t
        + "\nWHEN OLD."@
        + c
        + " NOT NULL AND NOT ST_IsEmpty(OLD."@
        + c
        + ")\nBEGIN\n  DELETE FROM rtree_"@
        + t
        + "_"@
        + c
        + " WHERE id = OLD."@
        + i
        + ";\nEND;\n"@
}

fn build_trigger_part_8(t: &str, c: &str, i: &str) -> (s: String)
    ensures
        s@ == trigger_part_8(t@, c@, i@),
{
    let mut s = String::new();
    s.append("-- 8. DELETE: row removed with a valid geometry\nCREATE TRIGGER IF NOT EXISTS rtree_");
    s.append(t);
    s.append("_");
    s.append(c);
    s.append("_delete AFTER DELETE ON ");
    s.append(t);
    s.append("\nWHEN OLD.");
    s.append(c);
    s.append(" NOT NULL AND NOT ST_IsEmpty(OLD.");
    s.append(c);
    s.append(")\nBEGIN\n  DELETE FROM rtree_");
    s.append(t);
    s.append("_");
    s.append(c);
    s.append(" WHERE id = OLD.");
    s.append(i);
    s.append(";\nEND;\n");
    s
}

/// Text of the eight R-tree synchronisation triggers for table `t`,
/// geometry column `c` and primary key `i`.
pub open spec fn spec_trigger_sql(t: Seq<char>, c: Seq<char>, i: Seq<char>) -> Seq<char> {
    trigger_part_0(t, c, i)
        + trigger_part_1(t, c, i)
        + trigger_part_2(t, c, i)
        + trigger_part_3(t, c, i)
        + trigger_part_4(t, c, i)
        + trigger_part_5(t, c, i)
        + trigger_part_6(t, c, i)
        + trigger_part_7(t, c, i)
        + trigger_part_8(t, c, i)
}

/// Produce the SQL for all 8 GeoPackage R-tree synchronisation triggers
/// (GeoPackage Annex F.3) for table `t`, geometry column `c` and primary key `i`.
pub fn build_trigger_sql(t: &str, c: &str, i: &str) -> (sql: String)
    ensures
        sql@ == spec_trigger_sql(t@, c@, i@),
{
    let mut s = String::new();
    let p = build_trigger_part_0(t, c, i);
    s.append(p.as_str());
    let p = build_trigger_part_1(t, c, i);
    s.append(p.as_str());
    let p = build_trigger_part_2(t, c, i);
    s.append(p.as_str());
    let p = build_trigger_part_3(t, c, i);
    s.append(p.as_str());
    let p = build_trigger_part_4(t, c, i);
    s.append(p.as_str());
    let p = build_trigger_part_5(t, c, i);
    s.append(p.as_str());
    let p = build_trigger_part_6(t, c, i);
    s.append(p.as_str());
    let p = build_trigger_part_7(t, c, i);
    s.append(p.as_str());
    let p = build_trigger_part_8(t, c, i);
    s.append(p.as_str());
    assert(s@ =~= spec_trigger_sql(t@, c@, i@));
    s
}

// ---------------------------------------------------------------------------
// Laws of the R-tree index
// ---------------------------------------------------------------------------

/// The columns of the R-tree table, in order: the row id and the bounding
/// box.
pub open spec fn rtree_columns() -> Seq<Seq<char>> {
    seq!["id"@, "minx"@, "maxx"@, "miny"@, "maxy"@]
}

/// The envelope function that gives a bounding-box column its value.
pub open spec fn envelope_fn(col: Seq<char>) -> Seq<char> {
    if col == "minx"@ {
        "ST_MinX"@
    } else if col == "maxx"@ {
        "ST_MaxX"@
    } else if col == "miny"@ {
        "ST_MinY"@
    } else {
        "ST_MaxY"@
    }
}

/// The value a trigger stores in column `k` for the new row: its key for
/// the id, the matching envelope function of its geometry for the others.
pub open spec fn column_value(k: int, c: Seq<char>, i: Seq<char>) -> Seq<char> {
    if k == 0 {
        "NEW."@ + i
    } else {
        envelope_fn(rtree_columns()[k]) + "(NEW."@ + c + ")"@
    }
}

/// `INSERT INTO rtree_<t>_<c> VALUES (...)` with one value per column of
/// the R-tree table, in column order.
pub open spec fn rtree_insert(t: Seq<char>, c: Seq<char>, i: Seq<char>) -> Seq<char> {
    "INSERT INTO rtree_"@ + t + "_"@ + c + " VALUES (\n    "@ + column_value(0, c, i) + ",\n    "@
        + column_value(1, c, i) + ", "@ + column_value(2, c, i) + ",\n    "@ + column_value(
        3,
        c,
        i,
    ) + ", "@ + column_value(4, c, i) + ");"@
}

/// The R-tree table has the columns `id, minx, maxx, miny, maxy`, in that
/// order.
pub proof fn law_rtree_table_columns(t: Seq<char>, g: Seq<char>)
    ensures
        spec_rtree_table_sql(t, g) == "CREATE VIRTUAL TABLE IF NOT EXISTS rtree_"@ + t + "_"@ + g
            + " USING rtree("@ + rtree_columns()[0] + ", "@ + rtree_columns()[1] + ", "@
            + rtree_columns()[2] + ", "@ + rtree_columns()[3] + ", "@ + rtree_columns()[4] + ");"@,
{
    reveal_strlit(" USING rtree(id, minx, maxx, miny, maxy);");
    reveal_strlit(" USING rtree(");
    reveal_strlit(", ");
    reveal_strlit(");");
    reveal_strlit("id");
    reveal_strlit("minx");
    reveal_strlit("maxx");
    reveal_strlit("miny");
    reveal_strlit("maxy");
    let pre = "CREATE VIRTUAL TABLE IF NOT EXISTS rtree_"@ + t + "_"@ + g;
    assert(" USING rtree("@ + "id"@ + ", "@ + "minx"@ + ", "@ + "maxx"@ + ", "@ + "miny"@ + ", "@
        + "maxy"@ + ");"@ =~= " USING rtree(id, minx, maxx, miny, maxy);"@);
    assert(pre + " USING rtree("@ + "id"@ + ", "@ + "minx"@ + ", "@ + "maxx"@ + ", "@ + "miny"@
        + ", "@ + "maxy"@ + ");"@ =~= pre + (" USING rtree("@ + "id"@ + ", "@ + "minx"@ + ", "@
        + "maxx"@ + ", "@ + "miny"@ + ", "@ + "maxy"@ + ");"@));
}

proof fn lemma_ends_with_concat(p: Seq<char>, q: Seq<char>)
    ensures
        ends_with(p + q, q),
{
    assert((p + q).skip(p.len() as int) =~= q);
}

/// Text that ends, in the chunks the triggers are written in, with
/// `<joined>t_c VALUES (NEW.i, ST_MinX(NEW.c), …));\nEND;\n\n`.
spec fn insert_tail(x: Seq<char>, joined: Seq<char>, t: Seq<char>, c: Seq<char>, i: Seq<char>) -> Seq<char> {
    x + joined + t + "_"@ + c + " VALUES (\n    NEW."@ + i + ",\n    ST_MinX(NEW."@ + c
        + "), ST_MaxX(NEW."@ + c + "),\n    ST_MinY(NEW."@ + c + "), ST_MaxY(NEW."@ + c
        + "));\nEND;\n\n"@
}

#[verifier::rlimit(50)]
proof fn lemma_insert_tail(x: Seq<char>, joined: Seq<char>, head: Seq<char>, t: Seq<char>, c: Seq<char>, i: Seq<char>)
    requires
        joined == head + "INSERT INTO rtree_"@,
    ensures
        ends_with(insert_tail(x, joined, t, c, i), rtree_insert(t, c, i) + "\nEND;\n\n"@),
{
    lemma_insert_literals();
    assert(insert_tail(x, joined, t, c, i) =~= (x + head) + (rtree_insert(t, c, i) + "\nEND;\n\n"@));
    lemma_ends_with_concat(x + head, rtree_insert(t, c, i) + "\nEND;\n\n"@);
}

/// Every trigger that adds a row to the R-tree (on insert, and on the
/// updates that give a row a new key or a first geometry) stores the row's
/// key and the envelope of its new geometry: `ST_MinX` in `minx`, `ST_MaxX`
/// in `maxx`, `ST_MinY` in `miny` and `ST_MaxY` in `maxy`.
pub proof fn law_insert_triggers_fill_each_column(t: Seq<char>, c: Seq<char>, i: Seq<char>)
    ensures
        ends_with(trigger_part_1(t, c, i), rtree_insert(t, c, i) + "\nEND;\n\n"@),
        ends_with(trigger_part_3(t, c, i), rtree_insert(t, c, i) + "\nEND;\n\n"@),
        ends_with(trigger_part_4(t, c, i), rtree_insert(t, c, i) + "\nEND;\n\n"@),
        ends_with(trigger_part_6(t, c, i), rtree_insert(t, c, i) + "\nEND;\n\n"@),
{
    lemma_insert_literals();
    let p1 = Seq::<char>::empty()
        + "-- 1. INSERT: new row with non-null, non-empty geometry\nCREATE TRIGGER IF NOT EXISTS rtree_"@
        + t + "_"@ + c + "_insert AFTER INSERT ON "@ + t + "\nWHEN NEW."@ + c
        + " NOT NULL AND NOT ST_IsEmpty(NEW."@ + c;
    assert(trigger_part_1(t, c, i) == insert_tail(p1, ")\nBEGIN\n  INSERT INTO rtree_"@, t, c, i));
    lemma_insert_tail(p1, ")\nBEGIN\n  INSERT INTO rtree_"@, ")\nBEGIN\n  "@, t, c, i);
    let p3 = Seq::<char>::empty()
        + "-- 3. UPDATE2: PK changed, both geometries non-null and non-empty\nCREATE TRIGGER IF NOT EXISTS rtree_"@
        + t + "_"@ + c + "_update2 AFTER UPDATE OF "@ + c + " ON "@ + t + "\nWHEN OLD."@ + i
        + " != NEW."@ + i + "\n  AND NEW."@ + c + " NOT NULL AND NOT ST_IsEmpty(NEW."@ + c
        + ")\n  AND OLD."@ + c + " NOT NULL AND NOT ST_IsEmpty(OLD."@ + c
        + ")\nBEGIN\n  DELETE FROM rtree_"@ + t + "_"@ + c + " WHERE id = OLD."@ + i;
    assert(trigger_part_3(t, c, i) == insert_tail(p3, ";\n  INSERT INTO rtree_"@, t, c, i));
    lemma_insert_tail(p3, ";\n  INSERT INTO rtree_"@, ";\n  "@, t, c, i);
    let p4 = Seq::<char>::empty()
        + "-- 4. UPDATE3: PK changed, new geometry non-null/non-empty, old was null/empty\nCREATE TRIGGER IF NOT EXISTS rtree_"@
        + t + "_"@ + c + "_update3 AFTER UPDATE OF "@ + c + " ON "@ + t + "\nWHEN OLD."@ + i
        + " != NEW."@ + i + "\n  AND NEW."@ + c + " NOT NULL AND NOT ST_IsEmpty(NEW."@ + c
        + ")\n  AND (OLD."@ + c + " IS NULL OR ST_IsEmpty(OLD."@ + c;
    assert(trigger_part_4(t, c, i) == insert_tail(p4, "))\nBEGIN\n  INSERT INTO rtree_"@, t, c, i));
    lemma_insert_tail(p4, "))\nBEGIN\n  INSERT INTO rtree_"@, "))\nBEGIN\n  "@, t, c, i);
    let p6 = Seq::<char>::empty()
        + "-- 6. UPDATE5 (spec): PK unchanged, old was null/empty, new geometry is valid\n--    This is the \"fill in geometry later\" pattern. Without this trigger the\n--    R-tree never gets an entry for rows whose geometry column is populated\n--    after the initial insert, producing silently incorrect spatial queries.\nCREATE TRIGGER IF NOT EXISTS rtree_"@
        + t + "_"@ + c + "_update5 AFTER UPDATE OF "@ + c + " ON "@ + t + "\nWHEN OLD."@ + i
        + " = NEW."@ + i + "\n  AND NEW."@ + c + " NOT NULL AND NOT ST_IsEmpty(NEW."@ + c
        + ")\n  AND (OLD."@ + c + " IS NULL OR ST_IsEmpty(OLD."@ + c;
    assert(trigger_part_6(t, c, i) == insert_tail(p6, "))\nBEGIN\n  INSERT INTO rtree_"@, t, c, i));
    lemma_insert_tail(p6, "))\nBEGIN\n  INSERT INTO rtree_"@, "))\nBEGIN\n  "@, t, c, i);
}

/// `DELETE FROM rtree_<t>_<c> WHERE id = OLD.<i>;`: the R-tree row of the
/// old key is removed.
pub open spec fn rtree_delete(t: Seq<char>, c: Seq<char>, i: Seq<char>) -> Seq<char> {
    "DELETE FROM rtree_"@ + t + "_"@ + c + " WHERE "@ + rtree_columns()[0] + " = OLD."@ + i + ";"@
}

/// `UPDATE rtree_<t>_<c> SET minx = ST_MinX(NEW.c), … WHERE id = NEW.i;`:
/// every bounding-box column of the row's entry set from the matching
/// envelope function of the new geometry.
pub open spec fn rtree_update(t: Seq<char>, c: Seq<char>, i: Seq<char>) -> Seq<char> {
    "UPDATE rtree_"@ + t + "_"@ + c + " SET\n    "@ + rtree_columns()[1] + " = "@ + column_value(1, c, i)
        + ", "@ + rtree_columns()[2] + " = "@ + column_value(2, c, i) + ",\n    "@
        + rtree_columns()[3] + " = "@ + column_value(3, c, i) + ", "@ + rtree_columns()[4] + " = "@
        + column_value(4, c, i) + "\n  WHERE "@ + rtree_columns()[0] + " = "@ + column_value(0, c, i)
        + ";"@
}

/// Text that ends, in the chunks the triggers are written in, with
/// `<joined>t_c WHERE id = OLD.i<end>`.
spec fn delete_tail(x: Seq<char>, joined: Seq<char>, t: Seq<char>, c: Seq<char>, i: Seq<char>, end: Seq<char>) -> Seq<char> {
    x + joined + t + "_"@ + c + " WHERE id = OLD."@ + i + end
}

proof fn lemma_delete_tail(
    x: Seq<char>,
    joined: Seq<char>,
    head: Seq<char>,
    t: Seq<char>,
    c: Seq<char>,
    i: Seq<char>,
    end: Seq<char>,
    fin: Seq<char>,
)
    requires
        joined == head + "DELETE FROM rtree_"@,
        end == ";"@ + fin,
    ensures
        ends_with(delete_tail(x, joined, t, c, i, end), rtree_delete(t, c, i) + fin),
{
    reveal_strlit(" WHERE id = OLD.");
    reveal_strlit(" WHERE ");
    reveal_strlit("id");
    reveal_strlit(" = OLD.");
    assert(" WHERE id = OLD."@ =~= " WHERE "@ + "id"@ + " = OLD."@);
    assert(delete_tail(x, joined, t, c, i, end) =~= (x + head) + (rtree_delete(t, c, i) + fin));
    lemma_ends_with_concat(x + head, rtree_delete(t, c, i) + fin);
}

/// Every trigger that drops a row from the R-tree (a row deleted, its
/// geometry emptied, or its key changed away from a geometry) removes the
/// entry of the row's old key.
pub proof fn law_delete_triggers_remove_the_old_key(t: Seq<char>, c: Seq<char>, i: Seq<char>)
    ensures
        ends_with(trigger_part_5(t, c, i), rtree_delete(t, c, i) + "\nEND;\n\n"@),
        ends_with(trigger_part_7(t, c, i), rtree_delete(t, c, i) + "\nEND;\n\n"@),
        ends_with(trigger_part_8(t, c, i), rtree_delete(t, c, i) + "\nEND;\n"@),
{
    reveal_strlit("))\nBEGIN\n  DELETE FROM rtree_");
    reveal_strlit(")\nBEGIN\n  DELETE FROM rtree_");
    reveal_strlit("))\nBEGIN\n  ");
    reveal_strlit(")\nBEGIN\n  ");
    reveal_strlit("DELETE FROM rtree_");
    reveal_strlit(";\nEND;\n\n");
    reveal_strlit(";\nEND;\n");
    reveal_strlit(";");
    reveal_strlit("\nEND;\n\n");
    reveal_strlit("\nEND;\n");
    assert("))\nBEGIN\n  DELETE FROM rtree_"@ =~= "))\nBEGIN\n  "@ + "DELETE FROM rtree_"@);
    assert(")\nBEGIN\n  DELETE FROM rtree_"@ =~= ")\nBEGIN\n  "@ + "DELETE FROM rtree_"@);
    assert(";\nEND;\n\n"@ =~= ";"@ + "\nEND;\n\n"@);
    assert(";\nEND;\n"@ =~= ";"@ + "\nEND;\n"@);
    let p5 = Seq::<char>::empty()
        + "-- 5. UPDATE4: PK changed, old geometry non-null/non-empty, new is null/empty\nCREATE TRIGGER IF NOT EXISTS rtree_"@
        + t + "_"@ + c + "_update4 AFTER UPDATE OF "@ + c + " ON "@ + t + "\nWHEN OLD."@ + i
        + " != NEW."@ + i + "\n  AND OLD."@ + c + " NOT NULL AND NOT ST_IsEmpty(OLD."@ + c
        + ")\n  AND (NEW."@ + c + " IS NULL OR ST_IsEmpty(NEW."@ + c;
    assert(trigger_part_5(t, c, i) == delete_tail(p5, "))\nBEGIN\n  DELETE FROM rtree_"@, t, c, i, ";\nEND;\n\n"@));
    lemma_delete_tail(p5, "))\nBEGIN\n  DELETE FROM rtree_"@, "))\nBEGIN\n  "@, t, c, i, ";\nEND;\n\n"@, "\nEND;\n\n"@);
    let p7 = Seq::<char>::empty()
        + "-- 7. UPDATE6 (spec): PK unchanged, geometry set to null or empty, old was valid\nCREATE TRIGGER IF NOT EXISTS rtree_"@
        + t + "_"@ + c + "_update6 AFTER UPDATE OF "@ + c + " ON "@ + t + "\nWHEN OLD."@ + i
        + " = NEW."@ + i + "\n  AND (NEW."@ + c + " IS NULL OR ST_IsEmpty(NEW."@ + c
        + "))\n  AND OLD."@ + c + " NOT NULL AND NOT ST_IsEmpty(OLD."@ + c;
    assert(trigger_part_7(t, c, i) == delete_tail(p7, ")\nBEGIN\n  DELETE FROM rtree_"@, t, c, i, ";\nEND;\n\n"@));
    lemma_delete_tail(p7, ")\nBEGIN\n  DELETE FROM rtree_"@, ")\nBEGIN\n  "@, t, c, i, ";\nEND;\n\n"@, "\nEND;\n\n"@);
    let p8 = Seq::<char>::empty()
        + "-- 8. DELETE: row removed with a valid geometry\nCREATE TRIGGER IF NOT EXISTS rtree_"@ + t + "_"@
        + c + "_delete AFTER DELETE ON "@ + t + "\nWHEN OLD."@ + c
        + " NOT NULL AND NOT ST_IsEmpty(OLD."@ + c;
    assert(trigger_part_8(t, c, i) == delete_tail(p8, ")\nBEGIN\n  DELETE FROM rtree_"@, t, c, i, ";\nEND;\n"@));
    lemma_delete_tail(p8, ")\nBEGIN\n  DELETE FROM rtree_"@, ")\nBEGIN\n  "@, t, c, i, ";\nEND;\n"@, "\nEND;\n"@);
}

/// Text that ends, in the chunks the update trigger is written in, with its
/// `UPDATE` statement.
spec fn update_tail(x: Seq<char>, t: Seq<char>, c: Seq<char>, i: Seq<char>) -> Seq<char> {
    x + ")\nBEGIN\n  UPDATE rtree_"@ + t + "_"@ + c + " SET\n    minx = ST_MinX(NEW."@ + c
        + "), maxx = ST_MaxX(NEW."@ + c + "),\n    miny = ST_MinY(NEW."@ + c
        + "), maxy = ST_MaxY(NEW."@ + c + ")\n  WHERE id = NEW."@ + i + ";\nEND;\n\n"@
}

#[verifier::rlimit(50)]
proof fn lemma_update_tail(x: Seq<char>, t: Seq<char>, c: Seq<char>, i: Seq<char>)
    ensures
        ends_with(update_tail(x, t, c, i), rtree_update(t, c, i) + "\nEND;\n\n"@),
{
    lemma_insert_literals();
    reveal_strlit(")\nBEGIN\n  UPDATE rtree_");
    reveal_strlit(")\nBEGIN\n  ");
    reveal_strlit("minx");
    reveal_strlit("maxx");
    reveal_strlit("miny");
    reveal_strlit("maxy");
    reveal_strlit("ST_MinX");
    reveal_strlit("ST_MaxX");
    reveal_strlit("ST_MinY");
    reveal_strlit("ST_MaxY");
    reveal_strlit("(NEW.");
    reveal_strlit(")");
    reveal_strlit(", ");
    reveal_strlit(",\n    ");
    reveal_strlit("NEW.");
    reveal_strlit("UPDATE rtree_");
    reveal_strlit(" SET\n    minx = ST_MinX(NEW.");
    reveal_strlit(" SET\n    ");
    reveal_strlit(" = ");
    reveal_strlit("), maxx = ST_MaxX(NEW.");
    reveal_strlit("),\n    miny = ST_MinY(NEW.");
    reveal_strlit("), maxy = ST_MaxY(NEW.");
    reveal_strlit(")\n  WHERE id = NEW.");
    reveal_strlit("\n  WHERE ");
    reveal_strlit("id");
    reveal_strlit(";\nEND;\n\n");
    reveal_strlit(";");
    reveal_strlit("\nEND;\n\n");
    assert(")\nBEGIN\n  UPDATE rtree_"@ =~= ")\nBEGIN\n  "@ + "UPDATE rtree_"@);
    assert(" SET\n    minx = ST_MinX(NEW."@ =~= " SET\n    "@ + "minx"@ + " = "@ + "ST_MinX"@ + "(NEW."@);
    assert("), maxx = ST_MaxX(NEW."@ =~= ")"@ + ", "@ + "maxx"@ + " = "@ + "ST_MaxX"@ + "(NEW."@);
    assert("),\n    miny = ST_MinY(NEW."@ =~= ")"@ + ",\n    "@ + "miny"@ + " = "@ + "ST_MinY"@ + "(NEW."@);
    assert("), maxy = ST_MaxY(NEW."@ =~= ")"@ + ", "@ + "maxy"@ + " = "@ + "ST_MaxY"@ + "(NEW."@);
    assert(")\n  WHERE id = NEW."@ =~= ")"@ + "\n  WHERE "@ + "id"@ + " = "@ + "NEW."@);
    assert(";\nEND;\n\n"@ =~= ";"@ + "\nEND;\n\n"@);
    assert(update_tail(x, t, c, i) =~= (x + ")\nBEGIN\n  "@) + (rtree_update(t, c, i) + "\nEND;\n\n"@));
    lemma_ends_with_concat(x + ")\nBEGIN\n  "@, rtree_update(t, c, i) + "\nEND;\n\n"@);
}

/// The trigger for a geometry changed under the same key updates the
/// row's entry: every bounding-box column from the matching envelope
/// function of the new geometry, for the entry of that key.
pub proof fn law_update_trigger_refreshes_each_column(t: Seq<char>, c: Seq<char>, i: Seq<char>)
    ensures
        ends_with(trigger_part_2(t, c, i), rtree_update(t, c, i) + "\nEND;\n\n"@),
{
    let p2 = Seq::<char>::empty()
        + "-- 2. UPDATE1: geometry changed, PK unchanged, both non-null and non-empty\nCREATE TRIGGER IF NOT EXISTS rtree_"@
        + t + "_"@ + c + "_update1 AFTER UPDATE OF "@ + c + " ON "@ + t + "\nWHEN OLD."@ + i
        + " = NEW."@ + i + "\n  AND NEW."@ + c + " NOT NULL AND NOT ST_IsEmpty(NEW."@ + c
        + ")\n  AND OLD."@ + c + " NOT NULL AND NOT ST_IsEmpty(OLD."@ + c;
    assert(trigger_part_2(t, c, i) == update_tail(p2, t, c, i));
    lemma_update_tail(p2, t, c, i);
}

proof fn lemma_insert_literals()
    ensures
        ")\nBEGIN\n  INSERT INTO rtree_"@ == ")\nBEGIN\n  "@ + "INSERT INTO rtree_"@,
        "))\nBEGIN\n  INSERT INTO rtree_"@ == "))\nBEGIN\n  "@ + "INSERT INTO rtree_"@,
        ";\n  INSERT INTO rtree_"@ == ";\n  "@ + "INSERT INTO rtree_"@,
        " VALUES (\n    NEW."@ == " VALUES (\n    "@ + "NEW."@,
        ",\n    ST_MinX(NEW."@ == ",\n    "@ + "ST_MinX"@ + "(NEW."@,
        "), ST_MaxX(NEW."@ == ")"@ + ", "@ + "ST_MaxX"@ + "(NEW."@,
        "),\n    ST_MinY(NEW."@ == ")"@ + ",\n    "@ + "ST_MinY"@ + "(NEW."@,
        "), ST_MaxY(NEW."@ == ")"@ + ", "@ + "ST_MaxY"@ + "(NEW."@,
        "));\nEND;\n\n"@ == ")"@ + ");"@ + "\nEND;\n\n"@,
        envelope_fn(rtree_columns()[1]) == "ST_MinX"@,
        envelope_fn(rtree_columns()[2]) == "ST_MaxX"@,
        envelope_fn(rtree_columns()[3]) == "ST_MinY"@,
        envelope_fn(rtree_columns()[4]) == "ST_MaxY"@,
{
    reveal_strlit(")\nBEGIN\n  INSERT INTO rtree_");
    reveal_strlit("))\nBEGIN\n  INSERT INTO rtree_");
    reveal_strlit(";\n  INSERT INTO rtree_");
    reveal_strlit(")\nBEGIN\n  ");
    reveal_strlit("))\nBEGIN\n  ");
    reveal_strlit(";\n  ");
    reveal_strlit("INSERT INTO rtree_");
    reveal_strlit(" VALUES (\n    NEW.");
    reveal_strlit(" VALUES (\n    ");
    reveal_strlit("NEW.");
    reveal_strlit(",\n    ST_MinX(NEW.");
    reveal_strlit(",\n    ");
    reveal_strlit("ST_MinX");
    reveal_strlit("(NEW.");
    reveal_strlit("), ST_MaxX(NEW.");
    reveal_strlit(")");
    reveal_strlit(", ");
    reveal_strlit("ST_MaxX");
    reveal_strlit("),\n    ST_MinY(NEW.");
    reveal_strlit("ST_MinY");
    reveal_strlit("), ST_MaxY(NEW.");
    reveal_strlit("ST_MaxY");
    reveal_strlit("));\nEND;\n\n");
    reveal_strlit(");");
    reveal_strlit("\nEND;\n\n");
    reveal_strlit("minx");
    reveal_strlit("maxx");
    reveal_strlit("miny");
    reveal_strlit("maxy");
    assert(")\nBEGIN\n  INSERT INTO rtree_"@ =~= ")\nBEGIN\n  "@ + "INSERT INTO rtree_"@);
    assert("))\nBEGIN\n  INSERT INTO rtree_"@ =~= "))\nBEGIN\n  "@ + "INSERT INTO rtree_"@);
    assert(";\n  INSERT INTO rtree_"@ =~= ";\n  "@ + "INSERT INTO rtree_"@);
    assert(" VALUES (\n    NEW."@ =~= " VALUES (\n    "@ + "NEW."@);
    assert(",\n    ST_MinX(NEW."@ =~= ",\n    "@ + "ST_MinX"@ + "(NEW."@);
    assert("), ST_MaxX(NEW."@ =~= ")"@ + ", "@ + "ST_MaxX"@ + "(NEW."@);
    assert("),\n    ST_MinY(NEW."@ =~= ")"@ + ",\n    "@ + "ST_MinY"@ + "(NEW."@);
    assert("), ST_MaxY(NEW."@ =~= ")"@ + ", "@ + "ST_MaxY"@ + "(NEW."@);
    assert("));\nEND;\n\n"@ =~= ")"@ + ");"@ + "\nEND;\n\n"@);
    assert("minx"@[1] != "maxx"@[1] && "minx"@[3] != "miny"@[3] && "minx"@[1] != "maxy"@[1]);
    assert("maxx"@[1] != "miny"@[1] && "maxx"@[3] != "maxy"@[3] && "miny"@[1] != "maxy"@[1]);
}

} // verus!
