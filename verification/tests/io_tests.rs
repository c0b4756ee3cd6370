use irontrack::error::IoError;
use irontrack::io::dji;
use irontrack::io::kml::{
    coordinate_texts, kml_polygon_texts, kml_polygons_from_tokens, local_name, KmlCollector, KmlToken,
};
use irontrack::io::qgc::{
    self, mission_items, waypoint_frame, ItemKind, LineShape, MAV_CMD_DO_SET_CAM_TRIGG_DIST,
    MAV_CMD_NAV_WAYPOINT, MAV_FRAME_GLOBAL, MAV_FRAME_GLOBAL_RELATIVE_ALT, MAV_FRAME_MISSION,
};
use irontrack::types::{is_corridor_mode, AltitudeDatum};

fn serialization_message(r: Result<(), IoError>) -> Option<String> {
    match r {
        Err(IoError::Serialization(m)) => Some(m),
        _ => None,
    }
}

#[test]
fn local_name_strips_namespace_prefix() {
    assert_eq!(local_name(b"kml:Polygon"), "Polygon");
    assert_eq!(local_name(b"coordinates"), "coordinates");
    assert_eq!(local_name(b"a:b:c"), "c");
    assert_eq!(local_name(&[0xff, 0xfe]), "");
}

#[test]
fn coordinate_text_tuples_are_lon_lat() {
    let t = coordinate_texts("\n  -0.1,51.5,0 0.0,51.5\t7 0.0,51.6,0,9\n");
    assert_eq!(
        t,
        vec![
            ("-0.1".to_string(), "51.5".to_string()),
            ("0.0".to_string(), "51.5".to_string()),
            ("0.0".to_string(), "51.6".to_string()),
        ]
    );
    assert!(coordinate_texts("   ").is_empty());
}

/// Feed the element events of a KML document to the collector, the way the
/// reader does: start/end tags by local name, coordinate text while inside
/// `<coordinates>`.
enum Ev<'a> {
    Start(&'a str),
    End(&'a str),
    Text(&'a str),
}

fn collect(events: &[Ev]) -> Vec<(Vec<(String, String)>, Vec<Vec<(String, String)>>)> {
    let mut k: KmlCollector<(String, String)> = KmlCollector::new();
    for e in events {
        match e {
            Ev::Start(n) => k.start_element(n),
            Ev::End(n) => k.end_element(n),
            Ev::Text(t) => {
                if k.in_coordinates() {
                    for c in coordinate_texts(t) {
                        k.push_coordinate(c);
                    }
                }
            }
        }
    }
    k.into_polygons()
        .into_iter()
        .map(|p| (p.exterior, p.interiors))
        .collect()
}

#[test]
fn collector_reads_polygon_with_hole() {
    let polys = collect(&[
        Ev::Start("Document"),
        Ev::Start("Polygon"),
        Ev::Start("outerBoundaryIs"),
        Ev::Start("LinearRing"),
        Ev::Start("coordinates"),
        Ev::Text("0,0 1,0 1,1 0,0"),
        Ev::End("coordinates"),
        Ev::End("LinearRing"),
        Ev::End("outerBoundaryIs"),
        Ev::Start("innerBoundaryIs"),
        Ev::Start("LinearRing"),
        Ev::Start("coordinates"),
        Ev::Text("0.2,0.2 0.4,0.2 0.2,0.4 0.2,0.2"),
        Ev::End("coordinates"),
        Ev::End("LinearRing"),
        Ev::End("innerBoundaryIs"),
        Ev::End("Polygon"),
        Ev::Text("9,9"),
        Ev::End("Document"),
    ]);
    assert_eq!(polys.len(), 1);
    assert_eq!(polys[0].0.len(), 4);
    assert_eq!(polys[0].0[1], ("1".to_string(), "0".to_string()));
    assert_eq!(polys[0].1.len(), 1);
    assert_eq!(polys[0].1[0].len(), 4);
}

#[test]
fn collector_skips_polygon_without_exterior() {
    let polys = collect(&[
        Ev::Start("Polygon"),
        Ev::Start("coordinates"),
        Ev::Text("0,0 1,1"),
        Ev::End("coordinates"),
        Ev::End("Polygon"),
        Ev::Start("Polygon"),
        Ev::Start("outerBoundaryIs"),
        Ev::Start("coordinates"),
        Ev::Text("5,5 6,5 6,6"),
        Ev::End("coordinates"),
        Ev::End("outerBoundaryIs"),
        Ev::End("Polygon"),
    ]);
    assert_eq!(polys.len(), 1);
    assert_eq!(polys[0].0[0], ("5".to_string(), "5".to_string()));
}

#[test]
fn qgc_datum_rules() {
    assert!(qgc::validate_datum(&[]).is_ok());
    assert!(qgc::validate_datum(&[AltitudeDatum::Wgs84Ellipsoidal, AltitudeDatum::Wgs84Ellipsoidal]).is_ok());
    assert!(qgc::validate_datum(&[AltitudeDatum::Agl]).is_ok());
    assert_eq!(
        serialization_message(qgc::validate_datum(&[AltitudeDatum::Egm2008])).as_deref(),
        Some("QGC export requires WGS84 ellipsoidal or AGL altitudes, but plan uses egm2008. Convert with FlightLine::to_datum() before export.")
    );
    assert_eq!(
        serialization_message(qgc::validate_datum(&[AltitudeDatum::Agl, AltitudeDatum::Wgs84Ellipsoidal])).as_deref(),
        Some("QGC export requires all flight lines to share the same altitude datum")
    );
    assert_eq!(waypoint_frame(&[AltitudeDatum::Agl]), MAV_FRAME_GLOBAL_RELATIVE_ALT);
    assert_eq!(waypoint_frame(&[AltitudeDatum::Wgs84Ellipsoidal]), MAV_FRAME_GLOBAL);
    assert!(qgc::needs_conversion(&[AltitudeDatum::Egm96]));
    assert!(!qgc::needs_conversion(&[AltitudeDatum::Agl]));
    assert!(qgc::needs_conversion(&[]));
}

#[test]
fn dji_datum_rules() {
    assert!(dji::validate_datum(&[]).is_ok());
    assert!(dji::validate_datum(&[AltitudeDatum::Egm96, AltitudeDatum::Egm96]).is_ok());
    assert_eq!(
        serialization_message(dji::validate_datum(&[AltitudeDatum::Wgs84Ellipsoidal])).as_deref(),
        Some("DJI export requires EGM96 altitudes, but plan uses ellipsoidal. Convert with FlightLine::to_datum(AltitudeDatum::Egm96) before export.")
    );
    assert_eq!(
        serialization_message(dji::validate_datum(&[AltitudeDatum::Egm96, AltitudeDatum::Egm2008])).as_deref(),
        Some("DJI export requires all flight lines to share the same altitude datum")
    );
    assert!(!dji::needs_conversion(&[AltitudeDatum::Egm96]));
    assert!(dji::needs_conversion(&[AltitudeDatum::Egm2008]));
}

#[test]
fn mission_items_bracket_survey_lines_with_triggers() {
    let lines = [
        LineShape { len: 2, is_transit: false },
        LineShape { len: 1, is_transit: true },
        LineShape { len: 0, is_transit: false },
        LineShape { len: 1, is_transit: false },
    ];
    let items = mission_items(&lines, MAV_FRAME_GLOBAL);
    let kinds: Vec<ItemKind> = items.iter().map(|i| i.kind).collect();
    assert_eq!(
        kinds,
        vec![
            ItemKind::TriggerStart,
            ItemKind::Waypoint { line: 0, index: 0 },
            ItemKind::Waypoint { line: 0, index: 1 },
            ItemKind::TriggerStop,
            ItemKind::Waypoint { line: 1, index: 0 },
            ItemKind::TriggerStart,
            ItemKind::Waypoint { line: 3, index: 0 },
            ItemKind::TriggerStop,
        ]
    );
    for (k, item) in items.iter().enumerate() {
        assert_eq!(item.seq as usize, k + 1);
        match item.kind {
            ItemKind::Waypoint { .. } => {
                assert_eq!(item.command, MAV_CMD_NAV_WAYPOINT);
                assert_eq!(item.frame, MAV_FRAME_GLOBAL);
            }
            _ => {
                assert_eq!(item.command, MAV_CMD_DO_SET_CAM_TRIGG_DIST);
                assert_eq!(item.frame, MAV_FRAME_MISSION);
            }
        }
    }
    assert!(mission_items(&[], MAV_FRAME_GLOBAL).is_empty());
}

#[test]
fn datum_names_parse_case_insensitively() {
    assert_eq!(AltitudeDatum::parse_name("EGM2008"), Some(AltitudeDatum::Egm2008));
    assert_eq!(AltitudeDatum::parse_name("wgs84"), Some(AltitudeDatum::Wgs84Ellipsoidal));
    assert_eq!(AltitudeDatum::parse_name("Ellipsoidal"), Some(AltitudeDatum::Wgs84Ellipsoidal));
    assert_eq!(AltitudeDatum::parse_name("agl"), Some(AltitudeDatum::Agl));
    assert_eq!(AltitudeDatum::parse_name("msl"), None);
    assert_eq!(AltitudeDatum::Egm96.as_str(), "egm96");
    assert!(is_corridor_mode("Corridor"));
    assert!(!is_corridor_mode("area"));
}

#[test]
fn template_kml_document() {
    let lines = vec![
        vec!["-0.100000000,51.500000000,100.000".to_string()],
        vec![],
    ];
    let bytes = dji::build_template_kml(&lines).ok().unwrap();
    let xml = String::from_utf8(bytes).unwrap();
    assert!(xml.starts_with("<?xml version=\"1.0\" encoding=\"UTF-8\"?>"));
    assert!(xml.contains(
        "<kml xmlns=\"http://www.opengis.net/kml/2.2\" xmlns:wpml=\"http://www.dji.com/wpmz/1.0.0\">"
    ));
    assert!(xml.contains("<wpml:finishAction>goHome</wpml:finishAction>"));
    assert!(xml.contains("<wpml:takeOffSecurityHeight>20.0</wpml:takeOffSecurityHeight>"));
    assert!(xml.contains("<wpml:executeHeightMode>EGM96</wpml:executeHeightMode>"));
    assert_eq!(xml.matches("<Folder>").count(), 2);
    assert!(xml.contains("<coordinates>-0.100000000,51.500000000,100.000</coordinates>"));
    assert!(xml.contains("<wpml:templateId>1</wpml:templateId>"));
}

#[test]
fn waylines_skip_empty_lines_and_number_action_groups() {
    let wp = |c: &str, h: &str| (c.to_string(), h.to_string());
    let lines = vec![
        vec![wp("0.0,51.0", "100.000"), wp("0.001,51.0", "100.000")],
        vec![],
        vec![wp("0.01,51.0", "110.000")],
    ];
    let ev = dji::waylines_wpml_events(&lines);
    let folders = ev
        .iter()
        .filter(|e| matches!(e, dji::XmlEvent::Start { name, .. } if name == "Folder"))
        .count();
    assert_eq!(folders, 2);
    let xml = String::from_utf8(dji::build_waylines_wpml(&lines).ok().unwrap()).unwrap();
    assert!(xml.contains("<wpml:actionGroupId>0</wpml:actionGroupId>"));
    assert!(xml.contains("<wpml:actionGroupId>1</wpml:actionGroupId>"));
    assert!(!xml.contains("<wpml:actionGroupId>2</wpml:actionGroupId>"));
    assert!(xml.contains("<wpml:waylineId>2</wpml:waylineId>"));
    assert!(xml.contains("<wpml:actionGroupEndIndex>1</wpml:actionGroupEndIndex>"));
    assert!(xml.contains("<wpml:executeHeight>110.000</wpml:executeHeight>"));
    assert_eq!(xml.matches("<wpml:actionActuatorFunc>takePhoto</wpml:actionActuatorFunc>").count(), 2);
}

#[test]
fn xml_text_is_escaped() {
    let ev = vec![
        dji::XmlEvent::Start { name: "a".to_string(), attrs: vec![] },
        dji::XmlEvent::Text("x < y & z".to_string()),
        dji::XmlEvent::End("a".to_string()),
    ];
    let xml = String::from_utf8(dji::write_xml(&ev).ok().unwrap()).unwrap();
    assert_eq!(xml, "<a>x &lt; y &amp; z</a>");
}

fn simple_kml() -> &'static str {
    r#"<?xml version="1.0" encoding="UTF-8"?>
<kml xmlns="http://www.opengis.net/kml/2.2">
  <Document>
    <Placemark>
      <Polygon>
        <outerBoundaryIs>
          <LinearRing>
            <coordinates>
              -0.1,51.5,0 0.0,51.5,0 0.0,51.6,0 -0.1,51.6,0 -0.1,51.5,0
            </coordinates>
          </LinearRing>
        </outerBoundaryIs>
      </Polygon>
    </Placemark>
  </Document>
</kml>"#
}

#[test]
fn parse_simple_polygon() {
    let polygons = kml_polygon_texts(simple_kml().as_bytes()).ok().unwrap();
    assert_eq!(polygons.len(), 1);
    // KML coordinates are lon,lat: the first vertex is lon=-0.1, lat=51.5.
    let ext = &polygons[0].exterior;
    assert!(ext.len() >= 4, "exterior ring should have >= 4 vertices");
    let lat: f64 = ext[0].1.parse().unwrap();
    let lon: f64 = ext[0].0.parse().unwrap();
    assert!((lat - 51.5).abs() < 1e-9, "first lat");
    assert!((lon - (-0.1)).abs() < 1e-9, "first lon");
}

#[test]
fn parse_polygon_with_hole() {
    let kml = r#"<?xml version="1.0" encoding="UTF-8"?>
<kml xmlns="http://www.opengis.net/kml/2.2">
  <Placemark>
    <Polygon>
      <outerBoundaryIs>
        <LinearRing>
          <coordinates>0,0 10,0 10,10 0,10 0,0</coordinates>
        </LinearRing>
      </outerBoundaryIs>
      <innerBoundaryIs>
        <LinearRing>
          <coordinates>3,3 7,3 7,7 3,7 3,3</coordinates>
        </LinearRing>
      </innerBoundaryIs>
    </Polygon>
  </Placemark>
</kml>"#;
    let polygons = kml_polygon_texts(kml.as_bytes()).ok().unwrap();
    assert_eq!(polygons.len(), 1);
    assert_eq!(polygons[0].interiors.len(), 1);
    assert_eq!(polygons[0].exterior.len(), 5);
    assert_eq!(polygons[0].interiors[0][1], ("7".to_string(), "3".to_string()));
}

#[test]
fn parse_multi_polygon() {
    let kml = r#"<?xml version="1.0" encoding="UTF-8"?>
<kml xmlns="http://www.opengis.net/kml/2.2">
  <Document>
    <Placemark>
      <Polygon>
        <outerBoundaryIs>
          <LinearRing><coordinates>0,0 1,0 1,1 0,1 0,0</coordinates></LinearRing>
        </outerBoundaryIs>
      </Polygon>
    </Placemark>
    <Placemark>
      <Polygon>
        <outerBoundaryIs>
          <LinearRing><coordinates>5,5 6,5 6,6 5,6 5,5</coordinates></LinearRing>
        </outerBoundaryIs>
      </Polygon>
    </Placemark>
  </Document>
</kml>"#;
    let polygons = kml_polygon_texts(kml.as_bytes()).ok().unwrap();
    assert_eq!(polygons.len(), 2);
}

#[test]
fn kml_prefixed_tags_and_escaped_text_are_read() {
    let kml = b"<k:Polygon><k:outerBoundaryIs><k:coordinates>1,2 3,&#52;</k:coordinates></k:outerBoundaryIs></k:Polygon>";
    let polygons = kml_polygon_texts(kml).ok().unwrap();
    assert_eq!(polygons.len(), 1);
    assert_eq!(
        polygons[0].exterior,
        vec![("1".to_string(), "2".to_string()), ("3".to_string(), "4".to_string())]
    );
}

#[test]
fn kml_polygon_without_outer_ring_is_dropped() {
    let kml = b"<Polygon><innerBoundaryIs><coordinates>1,2 3,4</coordinates></innerBoundaryIs></Polygon>";
    assert_eq!(kml_polygon_texts(kml).ok().unwrap().len(), 0);
}

#[test]
fn kml_malformed_document_is_a_parse_error() {
    let kml = b"<Polygon><outerBoundaryIs></Polygon>";
    match kml_polygon_texts(kml) {
        Err(IoError::Serialization(m)) => assert!(m.starts_with("KML parse error at position ")),
        _ => panic!("expected a parse error"),
    }
}

#[test]
fn kml_bad_escape_fails_only_inside_coordinates() {
    let outside = b"<Polygon><name>a &bogus; b</name></Polygon>";
    assert_eq!(kml_polygon_texts(outside).ok().unwrap().len(), 0);
    let inside = b"<Polygon><outerBoundaryIs><coordinates>1,2 &bogus;</coordinates></outerBoundaryIs></Polygon>";
    match kml_polygon_texts(inside) {
        Err(IoError::Serialization(m)) => assert!(m.starts_with("KML text error: ")),
        _ => panic!("expected a text error"),
    }
}

#[test]
fn kml_tokens_collect_in_order() {
    let tokens = vec![
        KmlToken::Start(b"Polygon".to_vec()),
        KmlToken::Start(b"outerBoundaryIs".to_vec()),
        KmlToken::Start(b"coordinates".to_vec()),
        KmlToken::Text("1,2 3,4,5 6".to_string()),
        KmlToken::Other,
        KmlToken::End(b"coordinates".to_vec()),
        KmlToken::End(b"outerBoundaryIs".to_vec()),
        KmlToken::End(b"Polygon".to_vec()),
    ];
    let polygons = kml_polygons_from_tokens(&tokens, &None).ok().unwrap();
    assert_eq!(polygons.len(), 1);
    assert_eq!(
        polygons[0].exterior,
        vec![("1".to_string(), "2".to_string()), ("3".to_string(), "4".to_string())]
    );
    match kml_polygons_from_tokens(&tokens, &Some((42, "boom".to_string()))) {
        Err(IoError::Serialization(m)) => assert_eq!(m, "KML parse error at position 42: boom"),
        _ => panic!("expected a parse error"),
    }
    let bad = vec![
        KmlToken::Start(b"Polygon".to_vec()),
        KmlToken::Start(b"outerBoundaryIs".to_vec()),
        KmlToken::Start(b"coordinates".to_vec()),
        KmlToken::BadText("x".to_string()),
    ];
    match kml_polygons_from_tokens(&bad, &Some((1, "later".to_string()))) {
        Err(IoError::Serialization(m)) => assert_eq!(m, "KML text error: x"),
        _ => panic!("expected a text error"),
    }
}
