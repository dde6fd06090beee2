use curvesvg::convert_session;
use curvesvg::error::{Label, SessionError};
use curvesvg::render_payload;
use curvesvg::xml::{locate_payloads, SessionPayload, XmlNode};

fn encode_f32(values: &[f32]) -> String {
    let mut bytes: Vec<u8> = Vec::new();
    for v in values {
        bytes.extend_from_slice(&v.to_bits().to_le_bytes());
    }
    base64::encode(&bytes)
}

fn encode_i32(values: &[i32]) -> String {
    let mut bytes: Vec<u8> = Vec::new();
    for v in values {
        bytes.extend_from_slice(&v.to_le_bytes());
    }
    base64::encode(&bytes)
}

fn encode_u32(values: &[u32]) -> String {
    let mut bytes: Vec<u8> = Vec::new();
    for v in values {
        bytes.extend_from_slice(&v.to_le_bytes());
    }
    base64::encode(&bytes)
}

fn session_xml(entries: &[(&str, String)]) -> String {
    let mut body = String::new();
    for (label, payload) in entries {
        body.push_str(&format!("<key>{}</key>\n<data>{}</data>\n", label, payload));
    }
    format!("<plist><dict>\n{}</dict></plist>", body)
}

#[test]
fn full_pipeline_single_curve() {
    let text = session_xml(&[
        ("curvesnumpoints", encode_i32(&[3])),
        ("curvespoints", encode_f32(&[0.0, 0.0, 10.0, 0.0, 10.0, 10.0])),
        ("curveswidth", encode_f32(&[2.0])),
        ("curvescolors", encode_u32(&[0x000000FF])),
    ]);
    let d = convert_session(&text).unwrap();
    assert_eq!(d.canvas_width, 565);
    assert_eq!(d.paths.len(), 1);
    let p = &d.paths[0];
    assert_eq!(p.cmds.len(), 3);
    assert!(p.cmds[0].is_move);
    assert!(!p.cmds[1].is_move && !p.cmds[2].is_move);
    assert_eq!(f32::from_bits(p.cmds[2].x_bits), 10.0);
    assert_eq!(f32::from_bits(p.cmds[2].y_bits), 10.0);
    assert_eq!(f32::from_bits(d.max_y_bits), 10.0);
    assert_eq!((p.red, p.green, p.blue, p.alpha), (255, 0, 0, 0));
}

#[test]
fn wrapped_payload_is_cleaned() {
    let points = encode_f32(&[0.0, 0.0, 10.0, 0.0, 10.0, 10.0]);
    let (a, b) = points.split_at(6);
    let wrapped = format!("  {}\n\t{}  ", a, b);
    let text = session_xml(&[
        ("curvesnumpoints", encode_i32(&[3])),
        ("curvespoints", wrapped),
        ("curveswidth", encode_f32(&[2.0])),
        ("curvescolors", encode_u32(&[0xFF0000FF])),
    ]);
    let d = convert_session(&text).unwrap();
    assert_eq!(d.paths.len(), 1);
    assert_eq!(d.paths[0].cmds.len(), 3);
}

#[test]
fn unicode_whitespace_is_trimmed() {
    let s = format!("\u{a0}\u{2003} AQID\n\tBA== \u{3000}\u{85}").into_bytes();
    let cleaned = curvesvg::xml::clean_payload(&s);
    assert_eq!(cleaned, b"AQIDBA==".to_vec());
}

#[test]
fn nbsp_wrapped_payload_decodes() {
    let points = encode_f32(&[0.0, 0.0, 10.0, 0.0, 10.0, 10.0]);
    let wrapped = format!("\u{a0}{}\u{a0}", points);
    let text = session_xml(&[
        ("curvesnumpoints", encode_i32(&[3])),
        ("curvespoints", wrapped),
        ("curveswidth", encode_f32(&[2.0])),
        ("curvescolors", encode_u32(&[0xFF0000FF])),
    ]);
    let d = convert_session(&text).unwrap();
    assert_eq!(d.paths.len(), 1);
    assert_eq!(d.paths[0].cmds.len(), 3);
}

#[test]
fn repeated_label_last_occurrence_wins() {
    let text = session_xml(&[
        ("curvesnumpoints", encode_i32(&[3])),
        ("curvespoints", encode_f32(&[9.0, 9.0])),
        ("curvespoints", encode_f32(&[0.0, 0.0, 10.0, 0.0, 10.0, 10.0])),
        ("curveswidth", encode_f32(&[2.0])),
        ("curvescolors", encode_u32(&[0xFF0000FF])),
    ]);
    let d = convert_session(&text).unwrap();
    assert_eq!(d.paths[0].cmds.len(), 3);
    assert_eq!(f32::from_bits(d.max_y_bits), 10.0);
}

#[test]
fn missing_width_label_is_fatal() {
    let text = session_xml(&[
        ("curvesnumpoints", encode_i32(&[1])),
        ("curvespoints", encode_f32(&[1.0, 2.0])),
        ("curvescolors", encode_u32(&[0xFF0000FF])),
    ]);
    let r = convert_session(&text);
    assert_eq!(r.err(), Some(SessionError::MissingLabel(Label::Widths)));
}

#[test]
fn broken_layout_is_fatal() {
    let text = format!(
        "<plist><dict>\n<key>curvesnumpoints</key>\n<data>{}</data>\n<key>curveswidth</key>\n</dict></plist>",
        encode_i32(&[1])
    );
    let r = convert_session(&text);
    assert_eq!(r.err(), Some(SessionError::BrokenPath(Label::Widths)));
}

#[test]
fn later_broken_duplicate_is_fatal() {
    // the first curvespoints entry is fine; a second occurrence with no value
    // after it still stops the conversion
    let text = format!(
        "<plist><dict>\n<key>curvesnumpoints</key>\n<data>{}</data>\n<key>curvespoints</key>\n<data>{}</data>\n<key>curveswidth</key>\n<data>{}</data>\n<key>curvescolors</key>\n<data>{}</data>\n<key>curvespoints</key>\n</dict></plist>",
        encode_i32(&[1]),
        encode_f32(&[1.0, 2.0]),
        encode_f32(&[2.0]),
        encode_u32(&[0xFF0000FF])
    );
    let r = convert_session(&text);
    assert_eq!(r.err(), Some(SessionError::BrokenPath(Label::Points)));
}

#[test]
fn malformed_xml_is_fatal() {
    let r = convert_session("<plist><dict></plist>");
    assert_eq!(r.err(), Some(SessionError::XmlParse));
}

#[test]
fn invalid_base64_is_fatal() {
    let text = session_xml(&[
        ("curvesnumpoints", encode_i32(&[1])),
        ("curvespoints", String::from("!!!not-base64!!!")),
        ("curveswidth", encode_f32(&[2.0])),
        ("curvescolors", encode_u32(&[0xFF0000FF])),
    ]);
    let r = convert_session(&text);
    assert_eq!(r.err(), Some(SessionError::InvalidBase64(Label::Points)));
}

#[test]
fn inconsistent_counts_are_fatal() {
    let text = session_xml(&[
        ("curvesnumpoints", encode_i32(&[2])),
        ("curvespoints", encode_f32(&[0.0, 0.0, 10.0, 0.0, 10.0, 10.0])),
        ("curveswidth", encode_f32(&[2.0])),
        ("curvescolors", encode_u32(&[0xFF0000FF])),
    ]);
    let r = convert_session(&text);
    assert_eq!(r.err(), Some(SessionError::InvalidCurveData));
}

#[test]
fn render_payload_single_curve() {
    let payload = SessionPayload {
        points: encode_f32(&[1.0, 2.0, 3.0, 4.0]).into_bytes(),
        point_counts: encode_i32(&[2]).into_bytes(),
        widths: encode_f32(&[0.5]).into_bytes(),
        colors: encode_u32(&[0x80FF0000]).into_bytes(),
    };
    let d = render_payload(&payload).unwrap();
    assert_eq!(d.paths.len(), 1);
    assert_eq!(d.paths[0].cmds.len(), 2);
    assert_eq!(f32::from_bits(d.paths[0].width_bits), 0.5);
    assert_eq!(d.paths[0].alpha, 0x80);
    assert_eq!(d.paths[0].blue, 0xFF);
    assert_eq!(f32::from_bits(d.max_y_bits), 4.0);
}

#[test]
fn render_payload_reports_counts_payload_first() {
    let bad = b"***".to_vec();
    let payload = SessionPayload {
        points: bad.clone(),
        point_counts: bad.clone(),
        widths: bad.clone(),
        colors: bad,
    };
    let r = render_payload(&payload);
    assert_eq!(r.err(), Some(SessionError::InvalidBase64(Label::PointCounts)));
}

#[test]
fn locator_reports_point_counts_first() {
    let tree: Vec<XmlNode> = Vec::new();
    let r = locate_payloads(&tree);
    assert_eq!(r.err(), Some(SessionError::MissingLabel(Label::PointCounts)));
}

#[test]
fn locator_on_hand_built_tree() {
    // a label text node (1) under a key element (0), a separator (2), a value
    // element (3) with a text child (4)
    let tree = vec![
        XmlNode {
            is_text: false,
            text: None,
            parent: None,
            next_sibling: Some(2),
            first_child: Some(1),
        },
        XmlNode {
            is_text: true,
            text: Some(b"curvesnumpoints".to_vec()),
            parent: Some(0),
            next_sibling: None,
            first_child: None,
        },
        XmlNode {
            is_text: true,
            text: Some(b"\n".to_vec()),
            parent: None,
            next_sibling: Some(3),
            first_child: None,
        },
        XmlNode {
            is_text: false,
            text: Some(b" AQAAAA== ".to_vec()),
            parent: None,
            next_sibling: None,
            first_child: Some(4),
        },
        XmlNode {
            is_text: true,
            text: Some(b" AQAAAA== ".to_vec()),
            parent: Some(3),
            next_sibling: None,
            first_child: None,
        },
    ];
    let r = locate_payloads(&tree);
    // counts resolves; the other three labels never occur, points reported next
    assert_eq!(r.err(), Some(SessionError::MissingLabel(Label::Points)));
}
