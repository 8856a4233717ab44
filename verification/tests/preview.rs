use vibe_lights::importer::{XmlEvent, XmlTag};
use vibe_lights::preview::{
    has_preview_marker, parse_preview_xml, preview_from_events, CoordStep, ItemPixels, PreviewProbe, PreviewSearch,
    PreviewText, ProbeAnswer,
};

fn sep() -> char {
    std::path::MAIN_SEPARATOR
}

fn p(parts: &[&str]) -> String {
    parts.join(&sep().to_string())
}

/// Runs a search, answering each probe from `answer`, and returns the
/// probes asked and the result.
fn run(dir: &str, mut answer: impl FnMut(&PreviewProbe) -> ProbeAnswer) -> (Vec<String>, Option<String>) {
    let mut search = PreviewSearch::start(dir);
    let mut asked = Vec::new();
    loop {
        let probe = search.probe();
        match &probe {
            PreviewProbe::Done(r) => return (asked, r.clone()),
            PreviewProbe::MarkedFile(x) => asked.push(format!("file {x}")),
            PreviewProbe::Exists(x) => asked.push(format!("exists {x}")),
            PreviewProbe::IsDir(x) => asked.push(format!("dir {x}")),
            PreviewProbe::Scan(x) => asked.push(format!("scan {x}")),
        }
        let a = answer(&probe);
        search.answer(a);
    }
}

#[test]
fn module_store_found_first() {
    let (asked, r) = run("v", |_| ProbeAnswer::Yes);
    assert_eq!(asked, vec![format!("file {}", p(&["v", "SystemData", "ModuleStore.xml"]))]);
    assert_eq!(r, Some(p(&["v", "SystemData", "ModuleStore.xml"])));
}

#[test]
fn search_without_module_dir() {
    let (asked, r) = run("nope", |_| ProbeAnswer::No);
    assert_eq!(asked.len(), 2);
    assert_eq!(asked[1], format!("exists {}", p(&["nope", "Module Data Files"])));
    assert_eq!(r, None);
}

#[test]
fn standalone_data_file() {
    let (_, r) = run("v", |probe| match probe {
        PreviewProbe::Exists(_) => ProbeAnswer::Yes,
        PreviewProbe::MarkedFile(x) if x.ends_with("VixenPreviewData.xml") => ProbeAnswer::Yes,
        PreviewProbe::Scan(_) => ProbeAnswer::NotFound,
        _ => ProbeAnswer::No,
    });
    assert_eq!(r, Some(p(&["v", "Module Data Files", "VixenPreviewData.xml"])));
}

#[test]
fn preview_directory_scanned() {
    let found = p(&["v", "Module Data Files", "VixenPreview", "a.xml"]);
    let f2 = found.clone();
    let (asked, r) = run("v", move |probe| match probe {
        PreviewProbe::Exists(_) => ProbeAnswer::Yes,
        PreviewProbe::IsDir(x) if x.ends_with("VixenPreview") => ProbeAnswer::Yes,
        PreviewProbe::Scan(x) if x.ends_with("VixenPreview") => ProbeAnswer::Found(f2.clone()),
        PreviewProbe::Scan(_) => ProbeAnswer::NotFound,
        _ => ProbeAnswer::No,
    });
    assert_eq!(r, Some(found));
    assert_eq!(asked.len(), 7);
}

#[test]
fn whole_module_dir_scanned_last() {
    let (asked, r) = run("v", |probe| match probe {
        PreviewProbe::Exists(_) => ProbeAnswer::Yes,
        PreviewProbe::Scan(x) if x.ends_with("Module Data Files") => ProbeAnswer::Found("deep.xml".to_string()),
        PreviewProbe::Scan(_) => ProbeAnswer::NotFound,
        _ => ProbeAnswer::No,
    });
    assert_eq!(r, Some("deep.xml".to_string()));
    assert_eq!(asked.last().unwrap(), &format!("scan {}", p(&["v", "Module Data Files"])));
    assert_eq!(asked.len(), 7);
}

#[test]
fn nothing_found_anywhere() {
    let (asked, r) = run("v", |probe| match probe {
        PreviewProbe::Exists(_) | PreviewProbe::IsDir(_) => ProbeAnswer::Yes,
        PreviewProbe::Scan(_) => ProbeAnswer::NotFound,
        _ => ProbeAnswer::No,
    });
    assert_eq!(r, None);
    assert_eq!(asked.len(), 9);
}

#[test]
fn preview_markers() {
    assert!(has_preview_marker("<a:DisplayItem>"));
    assert!(has_preview_marker("xx VixenPreviewData yy"));
    assert!(!has_preview_marker("<Preview>"));
    assert!(!has_preview_marker(""));
}

fn text(t: &str) -> Vec<CoordStep> {
    vec![CoordStep::Text(t.to_string())]
}

fn attr(t: &str) -> Vec<CoordStep> {
    vec![CoordStep::Attr(t.to_string())]
}

/// The node ids and control points of an item whose pixels lie along its shape.
fn along(preview: &PreviewText, i: usize) -> (Vec<String>, Vec<(Vec<CoordStep>, Vec<CoordStep>)>) {
    match &preview.display_items[i].pixels {
        ItemPixels::Along(ids, points) => (ids.clone(), points.iter().map(|p| (p.x.clone(), p.y.clone())).collect()),
        ItemPixels::Placed(_) => panic!("expected pixels along the shape"),
    }
}

fn pixel_count(preview: &PreviewText, i: usize) -> usize {
    match &preview.display_items[i].pixels {
        ItemPixels::Along(ids, _) => ids.len(),
        ItemPixels::Placed(p) => p.len(),
    }
}

#[test]
fn test_parse_vixen3_module_store_format() {
    // This mimics the real Vixen 3 ModuleStore.xml format with namespace prefixes
    let xml = br#"<?xml version="1.0" encoding="utf-8"?>
<ModuleStore version="4">
  <ModuleData>
    <Module dataModelType="VixenModules.Preview.VixenPreview.VixenPreviewData, VixenPreview">
      <VixenPreviewData xmlns="http://schemas.datacontract.org/2004/07/VixenModules.Preview.VixenPreview" xmlns:i="http://www.w3.org/2001/XMLSchema-instance">
        <ModuleInstanceId xmlns="">test-id</ModuleInstanceId>
        <Height>1080</Height>
        <SetupWidth>1920</SetupWidth>
        <Width>1920</Width>
        <DisplayItems xmlns:a="http://schemas.datacontract.org/2004/07/VixenModules.Preview.VixenPreview.Shapes">
          <a:DisplayItem>
            <a:Shape i:type="a:PreviewLine">
              <a:PixelSize>3</a:PixelSize>
              <a:Pixels>
                <a:PreviewPixel>
                  <a:NodeId>guid-aaa</a:NodeId>
                </a:PreviewPixel>
                <a:PreviewPixel>
                  <a:NodeId>guid-bbb</a:NodeId>
                </a:PreviewPixel>
                <a:PreviewPixel>
                  <a:NodeId>guid-ccc</a:NodeId>
                </a:PreviewPixel>
              </a:Pixels>
              <a:_points>
                <a:PreviewPoint>
                  <a:X>100</a:X>
                  <a:Y>200</a:Y>
                </a:PreviewPoint>
                <a:PreviewPoint>
                  <a:X>500</a:X>
                  <a:Y>200</a:Y>
                </a:PreviewPoint>
              </a:_points>
            </a:Shape>
          </a:DisplayItem>
        </DisplayItems>
      </VixenPreviewData>
    </Module>
  </ModuleData>
</ModuleStore>"#;

    let preview = parse_preview_xml(xml).unwrap();
    assert_eq!(preview.width, 1920);
    assert_eq!(preview.height, 1080);
    assert_eq!(preview.display_items.len(), 1);

    let item = &preview.display_items[0];
    assert_eq!(item.shape_type, "PreviewLine");
    assert_eq!(pixel_count(&preview, 0), 3);

    // The pixels are spread along the control points (100,200) → (500,200);
    // the positions themselves are computed by the application.
    let (ids, points) = along(&preview, 0);
    assert_eq!(ids, vec!["guid-aaa", "guid-bbb", "guid-ccc"]);
    assert_eq!(points, vec![(text("100"), text("200")), (text("500"), text("200"))]);
}

#[test]
fn test_parse_polyline_shape() {
    let xml = br#"<?xml version="1.0"?>
<VixenPreviewData>
    <Width>1000</Width>
    <Height>1000</Height>
    <DisplayItems>
        <DisplayItem>
            <Shape i:type="PreviewPolyLine">
                <Pixels>
                    <PreviewPixel><NodeId>p1</NodeId></PreviewPixel>
                    <PreviewPixel><NodeId>p2</NodeId></PreviewPixel>
                    <PreviewPixel><NodeId>p3</NodeId></PreviewPixel>
                </Pixels>
                <_points>
                    <PreviewPoint><X>0</X><Y>0</Y></PreviewPoint>
                    <PreviewPoint><X>500</X><Y>0</Y></PreviewPoint>
                    <PreviewPoint><X>500</X><Y>500</Y></PreviewPoint>
                </_points>
            </Shape>
        </DisplayItem>
    </DisplayItems>
</VixenPreviewData>"#;

    let preview = parse_preview_xml(xml).unwrap();
    assert_eq!(preview.display_items.len(), 1);
    assert_eq!(pixel_count(&preview, 0), 3);

    // First pixel at start of polyline, last at its end.
    let (_, points) = along(&preview, 0);
    assert_eq!(points.first(), Some(&(text("0"), text("0"))));
    assert_eq!(points.last(), Some(&(text("500"), text("500"))));
    assert_eq!(points.len(), 3);
}

#[test]
fn test_parse_standalone_format_with_positions() {
    // Standalone format where pixels have direct X/Y attributes
    let xml = br#"<?xml version="1.0"?>
<Preview>
    <Width>1920</Width>
    <Height>1080</Height>
    <DisplayItems>
        <DisplayItem>
            <Name>Roofline</Name>
            <Shape i:type="PreviewLine">
                <PreviewPixel NodeId="aaa-111" X="100" Y="200"/>
                <PreviewPixel NodeId="bbb-222" X="300" Y="200"/>
                <PreviewPixel NodeId="ccc-333" X="500" Y="200"/>
            </Shape>
        </DisplayItem>
    </DisplayItems>
</Preview>"#;

    let preview = parse_preview_xml(xml).unwrap();
    assert_eq!(preview.width, 1920);
    assert_eq!(preview.display_items.len(), 1);

    let item = &preview.display_items[0];
    assert_eq!(item.shape_type, "PreviewLine");
    assert_eq!(pixel_count(&preview, 0), 3);
    match &item.pixels {
        ItemPixels::Placed(p) => {
            assert_eq!(p[0].node_id, "aaa-111");
            assert_eq!(p[0].x, attr("100"));
        },
        ItemPixels::Along(..) => panic!("expected placed pixels"),
    }
}

#[test]
fn test_multiple_preview_sections() {
    // ModuleStore.xml can have multiple VixenPreviewData sections
    // (multiple display configurations). Each section contains the full
    // fixture set for its own canvas size. We pick the section with the
    // most display items to avoid duplicating fixtures.
    let xml = br#"<?xml version="1.0"?>
<ModuleStore>
  <ModuleData>
    <Module>
      <VixenPreviewData>
        <Width>800</Width>
        <Height>600</Height>
        <DisplayItems>
          <DisplayItem>
            <Shape i:type="PreviewLine">
              <Pixels>
                <PreviewPixel><NodeId>a1</NodeId></PreviewPixel>
              </Pixels>
              <_points>
                <PreviewPoint><X>10</X><Y>20</Y></PreviewPoint>
                <PreviewPoint><X>30</X><Y>40</Y></PreviewPoint>
              </_points>
            </Shape>
          </DisplayItem>
        </DisplayItems>
      </VixenPreviewData>
    </Module>
    <Module>
      <VixenPreviewData>
        <Width>1920</Width>
        <Height>1080</Height>
        <DisplayItems>
          <DisplayItem>
            <Shape i:type="PreviewLine">
              <Pixels>
                <PreviewPixel><NodeId>b1</NodeId></PreviewPixel>
                <PreviewPixel><NodeId>b2</NodeId></PreviewPixel>
              </Pixels>
              <_points>
                <PreviewPoint><X>100</X><Y>200</Y></PreviewPoint>
                <PreviewPoint><X>300</X><Y>400</Y></PreviewPoint>
              </_points>
            </Shape>
          </DisplayItem>
        </DisplayItems>
      </VixenPreviewData>
    </Module>
  </ModuleData>
</ModuleStore>"#;

    let preview = parse_preview_xml(xml).unwrap();
    // Tied sections both have 1 item; the second wins via max_by_key tie-breaking.
    assert_eq!(preview.width, 1920);
    assert_eq!(preview.height, 1080);
    // Only items from the chosen section (not merged)
    assert_eq!(preview.display_items.len(), 1);
    assert_eq!(pixel_count(&preview, 0), 2);
}

#[test]
fn preview_defaults_canvas_and_names_items() {
    let xml = br#"<DisplayItems>
  <DisplayItem><PreviewPixel NodeId="n1"/></DisplayItem>
  <DisplayItem><Shape type="x:Star"/></DisplayItem>
  <DisplayItem><LightNode nodeId="n2"/><LightNode nodeId="n3" x="5"/></DisplayItem>
</DisplayItems>"#;
    let preview = parse_preview_xml(xml).unwrap();
    assert_eq!((preview.width, preview.height), (1920, 1080));
    // The middle item has no pixels and is left out; numbering follows the kept items.
    let names: Vec<&str> = preview.display_items.iter().map(|i| i.name.as_str()).collect();
    assert_eq!(names, vec!["Item 1", "Item 2"]);
    match &preview.display_items[1].pixels {
        ItemPixels::Placed(p) => {
            assert_eq!(p.len(), 1);
            assert_eq!(p[0].node_id, "n3");
            assert_eq!(p[0].x, attr("5"));
            assert!(p[0].y.is_empty());
        },
        ItemPixels::Along(..) => panic!("placed pixels win over node ids"),
    }
}

#[test]
fn preview_largest_section_wins() {
    let xml = br#"<Root>
  <Preview><Width>640</Width><DisplayItems>
    <DisplayItem><Pixel Node="a"/></DisplayItem><DisplayItem><Pixel Node="b"/></DisplayItem>
  </DisplayItems></Preview>
  <Preview><Width>2000</Width><Height>+900</Height><Height>70000000000</Height><DisplayItems>
    <DisplayItem><Pixel Node="c"/></DisplayItem>
  </DisplayItems></Preview>
</Root>"#;
    let preview = parse_preview_xml(xml).unwrap();
    assert_eq!(preview.width, 640);
    assert_eq!(preview.height, 1080);
    assert_eq!(preview.display_items.len(), 2);
}

#[test]
fn preview_width_is_largest_number() {
    let xml = br#"<VixenPreviewData><SetupWidth> 300 </SetupWidth><Width>200</Width><Height>+77</Height><Height>x</Height>
<DisplayItems><DisplayItem><Pixel Node="a"/></DisplayItem></DisplayItems></VixenPreviewData>"#;
    let preview = parse_preview_xml(xml).unwrap();
    assert_eq!((preview.width, preview.height), (300, 77));
}

#[test]
fn preview_text_coordinates_follow_attributes() {
    let xml = br#"<Preview><DisplayItem><PreviewPixel NodeId="a" X="1"><X>bad</X><Y> 7 </Y></PreviewPixel></DisplayItem></Preview>"#;
    let preview = parse_preview_xml(xml).unwrap();
    match &preview.display_items[0].pixels {
        ItemPixels::Placed(p) => {
            assert_eq!(p[0].x, vec![CoordStep::Attr("1".to_string()), CoordStep::Text("bad".to_string())]);
            assert_eq!(p[0].y, text("7"));
        },
        ItemPixels::Along(..) => panic!("expected placed pixels"),
    }
}

#[test]
fn preview_malformed_xml_is_an_error() {
    assert!(parse_preview_xml(b"<Preview><DisplayItem></Preview>").is_err());
}

#[test]
fn preview_events_stop_at_end_of_document() {
    let tag = |n: &str, a: &[(&str, &str)]| XmlTag {
        name: n.to_string(),
        attributes: a.iter().map(|(k, v)| (k.to_string(), v.to_string())).collect(),
    };
    let events = vec![
        XmlEvent::Start(tag("Preview", &[])),
        XmlEvent::Start(tag("Width", &[])),
        XmlEvent::Text("1234".to_string()),
        XmlEvent::End("Width".to_string()),
        XmlEvent::Start(tag("DisplayItem", &[])),
        XmlEvent::Empty(tag("Pixel", &[("a:NodeId", "z")])),
        XmlEvent::End("DisplayItem".to_string()),
        XmlEvent::Eof,
        XmlEvent::Start(tag("DisplayItem", &[])),
        XmlEvent::Empty(tag("Pixel", &[("NodeId", "y")])),
        XmlEvent::End("DisplayItem".to_string()),
    ];
    let preview = preview_from_events(&events);
    assert_eq!(preview.width, 1234);
    assert_eq!(preview.display_items.len(), 1);
    match &preview.display_items[0].pixels {
        ItemPixels::Along(ids, points) => {
            assert_eq!(ids, &vec!["z".to_string()]);
            assert!(points.is_empty());
        },
        ItemPixels::Placed(_) => panic!("expected node ids"),
    }
}
