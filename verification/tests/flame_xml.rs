use fractal_core::flame_xml::{
    element_role, flame_attr, parse_flame_text, walk_flame_events, xform_attr, ElementRole,
    FlameAttr, FlameField, XformAttr, XmlEvent,
};
use fractal_core::io::ParseError;
use fractal_core::variations::Variation;

#[test]
fn element_roles() {
    assert_eq!(element_role("flame", false), ElementRole::FlameHeader);
    assert_eq!(element_role("flame", true), ElementRole::Skipped);
    assert_eq!(element_role("xform", false), ElementRole::Branch);
    assert_eq!(element_role("xform", true), ElementRole::Branch);
    assert_eq!(element_role("palette", false), ElementRole::Skipped);
    assert_eq!(element_role("Flame", false), ElementRole::Skipped);
}

#[test]
fn flame_attributes() {
    assert_eq!(flame_attr("name"), FlameAttr::Name);
    assert_eq!(flame_attr("version"), FlameAttr::Version);
    assert_eq!(flame_attr("size"), FlameAttr::Size);
    assert_eq!(flame_attr("center"), FlameAttr::Center);
    assert_eq!(flame_attr("scale"), FlameAttr::Scale);
    assert_eq!(flame_attr("zoom"), FlameAttr::Zoom);
    assert_eq!(flame_attr("rotate"), FlameAttr::Rotate);
    assert_eq!(flame_attr("background"), FlameAttr::Background);
    assert_eq!(flame_attr("brightness"), FlameAttr::Brightness);
    assert_eq!(flame_attr("gamma"), FlameAttr::Gamma);
    assert_eq!(flame_attr("vibrancy"), FlameAttr::Vibrancy);
    assert_eq!(flame_attr("oversample"), FlameAttr::Unknown);
    assert_eq!(flame_attr(""), FlameAttr::Unknown);
}

#[test]
fn xform_attributes() {
    assert_eq!(xform_attr("weight"), XformAttr::Weight);
    assert_eq!(xform_attr("color"), XformAttr::Color);
    assert_eq!(xform_attr("f9k_color2"), XformAttr::Color2);
    assert_eq!(xform_attr("coefs"), XformAttr::Coefs);
    assert_eq!(xform_attr("post"), XformAttr::Post);
    assert_eq!(xform_attr("linear"), XformAttr::Variation(Variation::Linear));
    assert_eq!(xform_attr("julia"), XformAttr::Variation(Variation::Julia));
    assert_eq!(xform_attr("symmetry"), XformAttr::Unknown);
}

fn describe(fields: &[FlameField]) -> Vec<String> {
    fields.iter().map(|f| format!("{:?}", f)).collect()
}

#[test]
fn block_fields_in_document_order() {
    let xml = r#"<flame name="a&amp;b" brightness="1.5">
        <xform weight="1" linear="1" coefs="0.5 0 0 0.5 0 0"/>
        <palette count="3"/>
        <xform weight="2"></xform>
    </flame>"#;
    let text = parse_flame_text(xml);
    assert!(text.error.is_none());
    assert_eq!(
        describe(&text.fields),
        vec![
            r#"Header(Name, "a&b")"#,
            r#"Header(Brightness, "1.5")"#,
            "BranchStart",
            r#"Branch(Weight, "1")"#,
            r#"Branch(Variation(Linear), "1")"#,
            r#"Branch(Coefs, "0.5 0 0 0.5 0 0")"#,
            "BranchEnd",
            "BranchStart",
            r#"Branch(Weight, "2")"#,
            "BranchEnd",
        ]
    );
}

#[test]
fn syntax_error_keeps_fields_before_it() {
    let text = parse_flame_text(r#"<flame name="x"><xform weight="1"/></flam>"#);
    assert_eq!(
        describe(&text.fields),
        vec![r#"Header(Name, "x")"#, "BranchStart", r#"Branch(Weight, "1")"#, "BranchEnd"]
    );
    match text.error {
        Some(ParseError::Xml(m)) => assert!(m.starts_with("XML parse error: "), "{}", m),
        other => panic!("unexpected {:?}", other),
    }
}

#[test]
fn unreadable_attribute_stops_the_block() {
    let text = parse_flame_text(r#"<flame name="x"><xform weight="1" weight="2"/><xform/></flame>"#);
    assert_eq!(describe(&text.fields), vec![r#"Header(Name, "x")"#, "BranchStart", r#"Branch(Weight, "1")"#]);
    match text.error {
        Some(ParseError::Xml(m)) => assert!(!m.starts_with("XML parse error: "), "{}", m),
        other => panic!("unexpected {:?}", other),
    }
}

fn tag(empty: bool, name: &str) -> XmlEvent {
    XmlEvent::Tag { empty, name: name.to_string(), tag: name.to_string() }
}

fn kv(k: &str, v: &str) -> Result<(String, String), String> {
    Ok((k.to_string(), v.to_string()))
}

#[test]
fn walk_over_given_events() {
    let events = vec![tag(false, "flame"), XmlEvent::Other, tag(true, "xform"), tag(false, "palette"), tag(true, "flame")];
    let attrs = vec![
        vec![kv("gamma", "2.2"), kv("oversample", "3")],
        vec![],
        vec![kv("post", "1 0 0 1 0 0"), kv("spherical", "0.5")],
        vec![kv("weight", "9")],
        vec![kv("name", "ignored")],
    ];
    let text = walk_flame_events(&events, &attrs, None);
    assert!(text.error.is_none());
    assert_eq!(
        describe(&text.fields),
        vec![
            r#"Header(Gamma, "2.2")"#,
            r#"Header(Unknown, "3")"#,
            "BranchStart",
            r#"Branch(Post, "1 0 0 1 0 0")"#,
            r#"Branch(Variation(Spherical), "0.5")"#,
            "BranchEnd",
        ]
    );
}

#[test]
fn walk_reports_first_error() {
    let events = vec![tag(true, "xform"), tag(true, "xform")];
    let attrs = vec![vec![kv("weight", "1"), Err("bad attribute".to_string()), kv("color", "0")], vec![]];
    let text = walk_flame_events(&events, &attrs, Some("unexpected end".to_string()));
    assert_eq!(describe(&text.fields), vec!["BranchStart", r#"Branch(Weight, "1")"#]);
    match text.error {
        Some(ParseError::Xml(m)) => assert_eq!(m, "bad attribute"),
        other => panic!("unexpected {:?}", other),
    }
    let text = walk_flame_events(&events[..1].to_vec(), &vec![vec![]], Some("unexpected end".to_string()));
    assert_eq!(describe(&text.fields), vec!["BranchStart", "BranchEnd"]);
    match text.error {
        Some(ParseError::Xml(m)) => assert_eq!(m, "XML parse error: unexpected end"),
        other => panic!("unexpected {:?}", other),
    }
}

#[test]
fn parse_error_messages() {
    assert_eq!(ParseError::Xml("x".to_string()).message(), "XML error: x");
    assert_eq!(ParseError::InvalidData("y".to_string()).message(), "Invalid data: y");
    assert_eq!(ParseError::MissingField("z".to_string()).message(), "Missing field: z");
}
