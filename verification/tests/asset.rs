use collada::number::Real;
use collada::records::AltitudeMode;
use collada::records::Asset;
use collada::records::Contributor;
use collada::records::Extra;
use collada::records::Location;
use collada::records::Unit;
use collada::records::UpAxis;
use collada::ColladaError;
use collada::XmlConversion;
use xmltree::Element;

fn number(x: f32) -> Real {
    Real::parse(&x.to_string()).unwrap()
}

fn float(x: &Real) -> f32 {
    x.literal().parse::<f32>().unwrap()
}

fn refusal(data: &str) -> ColladaError {
    let e = Element::parse(data.as_bytes()).unwrap();
    let mut a = Asset::new();
    a.parse(&e).unwrap_err()
}

#[test]
fn test_asset_parse() {
    let data = r#"
        <asset>
            <contributor>
                <author>John Smith</author>
            </contributor>
            <coverage>
                <geographic_location>
                    <longitude>50.0</longitude>
                    <latitude>50.0</latitude>
                    <altitude mode="absolute">50.0</altitude>
                </geographic_location>
            </coverage>
            <created>2008-01-28T20:51:36Z</created>
            <keywords>foo bar baz</keywords>
            <modified>2008-01-28T20:51:36Z</modified>
            <revision>rev_v5</revision>
            <title>my sweet asset</title>
            <unit meter="1.33" name="meter" />
            <up_axis>Z_UP</up_axis>
            <extra>
                <technique profile="foo">
                    <foo>bar</foo>
                </technique>
            </extra>
        </asset>"#;
    let e = Element::parse(data.as_bytes()).unwrap();
    let mut a = Asset::new();
    match a.parse(&e) {
        Ok(_) => assert!(true),
        Err(e) => {
            println!("{}", e.to_string());
            assert!(false)
        }
    }

    assert_eq!(a.contributors.len(), 1);
    assert_eq!(a.contributors[0].author, Some("John Smith".to_string()));
    let l = a.location.unwrap();
    assert_eq!(float(&l.longitude), 50.0);
    assert_eq!(float(&l.latitude), 50.0);
    assert_eq!(float(&l.altitude), 50.0);
    match l.mode {
        AltitudeMode::Absolute => assert!(true),
        _ => assert!(false),
    };
    assert_eq!(a.created.as_str(), "2008-01-28T20:51:36Z");
    assert_eq!(a.keywords.len(), 3);
    assert_eq!(a.keywords[0], "foo".to_string());
    assert_eq!(a.keywords[1], "bar".to_string());
    assert_eq!(a.keywords[2], "baz".to_string());
    assert_eq!(a.modified.as_str(), "2008-01-28T20:51:36Z");
    assert_eq!(a.revision.unwrap().as_str(), "rev_v5");
    assert_eq!(a.title.unwrap().as_str(), "my sweet asset");
    let u = a.unit.unwrap();
    assert_eq!(u.name, Some("meter".to_string()));
    assert_eq!(u.meter.map(|m| float(&m)), Some(1.33));
    match a.up_axis.unwrap() {
        UpAxis::ZUP => assert!(true),
        _ => assert!(false),
    }
    assert_eq!(a.extras.len(), 1);
    assert_eq!(a.extras[0].techniques.len(), 1);
    assert_eq!(a.extras[0].techniques[0].profile.as_str(), "foo");
    assert_eq!(a.extras[0].techniques[0].data.name.as_str(), "technique");
}

#[test]
fn test_asset_encode() {
    let mut asset = Asset::new();
    asset.contributors.push(Contributor::new());
    asset.contributors[0].author = Some("John Smith".to_string());

    let mut location = Location::new();
    location.longitude = number(50.0);
    location.latitude = number(50.0);
    location.altitude = number(50.0);
    asset.location = Some(location);

    asset.created = "2008-01-28T20:51:36Z".to_string();
    asset.keywords = vec!["foo".to_string(), "bar".to_string(), "baz".to_string()];
    asset.modified = "2008-01-28T20:51:36Z".to_string();
    asset.revision = Some("rev_v5".to_string());
    asset.title = Some("my sweet asset".to_string());

    let mut unit = Unit::new();
    unit.name = Some("meter".to_string());
    unit.meter = Some(number(1.33));
    asset.unit = Some(unit);

    asset.up_axis = Some(UpAxis::ZUP);
    asset.extras = vec![Extra::new()];

    let e = asset.encode();
    assert_eq!(e.name, "asset");
    assert_eq!(e.children[0].name, "contributor");
    assert_eq!(e.children[1].name, "coverage");
    assert_eq!(e.children[2].name, "created");
    assert_eq!(e.children[2].text, Some("2008-01-28T20:51:36Z".to_string()));
    assert_eq!(e.children[3].name, "keywords");
    assert_eq!(e.children[3].text, Some("foo bar baz".to_string()));
    assert_eq!(e.children[4].name, "modified");
    assert_eq!(e.children[4].text, Some("2008-01-28T20:51:36Z".to_string()));
    assert_eq!(e.children[5].name, "revision");
    assert_eq!(e.children[5].text, Some("rev_v5".to_string()));
    assert_eq!(e.children[6].name, "title");
    assert_eq!(e.children[6].text, Some("my sweet asset".to_string()));
    assert_eq!(e.children[7].name, "unit");
    assert_eq!(e.children[7].attributes.get("name"), Some(&"meter".to_string()));
    assert_eq!(e.children[7].attributes.get("meter"), Some(&"1.33".to_string()));
    assert_eq!(e.children[8].name, "up_axis");
    assert_eq!(e.children[8].text, Some("Z_UP".to_string()));
    assert_eq!(e.children[9].name, "extra");
}

#[test]
fn asset_new_is_empty() {
    let a = Asset::new();
    assert!(a.contributors.is_empty());
    assert!(a.location.is_none());
    assert_eq!(a.created, "");
    assert!(a.keywords.is_empty());
    assert_eq!(a.modified, "");
    assert_eq!(a.revision, None);
    assert_eq!(a.subject, None);
    assert_eq!(a.title, None);
    assert!(a.unit.is_none());
    assert!(a.up_axis.is_none());
    assert!(a.extras.is_empty());
}

#[test]
fn asset_new_encodes_the_three_children_that_are_always_there() {
    let e = Asset::new().encode();
    assert_eq!(e.name, "asset");
    assert_eq!(e.children.len(), 3);
    assert_eq!(e.children[0].name, "created");
    assert_eq!(e.children[0].text, Some(String::new()));
    assert_eq!(e.children[1].name, "keywords");
    assert_eq!(e.children[1].text, Some(String::new()));
    assert_eq!(e.children[2].name, "modified");
    assert_eq!(e.children[2].text, Some(String::new()));
    assert!(e.attributes.is_empty());
    assert_eq!(e.text, None);
}

#[test]
fn unit_new_is_the_meter() {
    let u = Unit::new();
    assert_eq!(u.name, Some("meter".to_string()));
    assert_eq!(u.meter.map(|m| float(&m)), Some(1.0));
}

#[test]
fn unit_scenario() {
    let e = Element::parse(
        r#"<asset><created>c</created><modified>m</modified><unit meter="1.33" name="meter" /></asset>"#
            .as_bytes(),
    )
    .unwrap();
    let mut a = Asset::new();
    assert!(a.parse(&e).is_ok());
    let u = a.unit.as_ref().unwrap();
    assert_eq!(u.name, Some("meter".to_string()));
    assert_eq!(u.meter.as_ref().map(|m| float(m)), Some(1.33));
    let out = a.encode();
    let unit = out.get_child("unit").unwrap();
    assert_eq!(unit.attributes.len(), 2);
    assert_eq!(unit.attributes.get("name"), Some(&"meter".to_string()));
    assert_eq!(unit.attributes.get("meter"), Some(&"1.33".to_string()));
    assert_eq!(unit.text, None);
    assert!(unit.children.is_empty());
}

#[test]
fn unit_without_attributes() {
    let e = Element::parse(
        "<asset><created>c</created><modified>m</modified><unit/></asset>".as_bytes(),
    )
    .unwrap();
    let mut a = Asset::new();
    assert!(a.parse(&e).is_ok());
    let u = a.unit.as_ref().unwrap();
    assert_eq!(u.name, None);
    assert!(u.meter.is_none());
    let out = a.encode();
    assert!(out.get_child("unit").unwrap().attributes.is_empty());
}

#[test]
fn unit_scale_that_is_no_number_is_refused() {
    assert!(matches!(
        refusal(r#"<asset><unit meter="a lot" name="meter" /></asset>"#),
        ColladaError::ParseError
    ));
}

#[test]
fn keywords_scenario() {
    let e = Element::parse(
        "<asset><created>c</created><keywords>foo bar baz</keywords><modified>m</modified></asset>"
            .as_bytes(),
    )
    .unwrap();
    let mut a = Asset::new();
    assert!(a.parse(&e).is_ok());
    assert_eq!(a.keywords, vec!["foo".to_string(), "bar".to_string(), "baz".to_string()]);
    let out = a.encode();
    assert_eq!(out.get_child("keywords").unwrap().text, Some("foo bar baz".to_string()));
}

#[test]
fn keywords_lose_their_spacing() {
    let mut e = Element::new("asset");
    for name in ["created", "modified"] {
        let mut date = Element::new(name);
        date.text = Some(String::new());
        e.children.push(date);
    }
    let mut k = Element::new("keywords");
    k.text = Some(" \t foo\u{a0}\u{3000}bar\n\nbaz  ".to_string());
    e.children.push(k);
    let mut k2 = Element::new("keywords");
    k2.text = Some("qux".to_string());
    e.children.push(k2);
    let mut a = Asset::new();
    assert!(a.parse(&e).is_ok());
    assert_eq!(a.keywords, vec!["foo", "bar", "baz", "qux"]);
    let out = a.encode();
    assert_eq!(out.get_child("keywords").unwrap().text, Some("foo bar baz qux".to_string()));
}

#[test]
fn up_axis_literals() {
    assert_eq!(UpAxis::XUP.to_string(), "X_UP");
    assert_eq!(UpAxis::YUP.to_string(), "Y_UP");
    assert_eq!(UpAxis::ZUP.to_string(), "Z_UP");
    assert!(matches!(UpAxis::from_literal("X_UP"), Some(UpAxis::XUP)));
    assert!(matches!(UpAxis::from_literal("Y_UP"), Some(UpAxis::YUP)));
    assert!(matches!(UpAxis::from_literal("Z_UP"), Some(UpAxis::ZUP)));
    assert!(UpAxis::from_literal("z_up").is_none());
    assert!(UpAxis::from_literal("Z_UP ").is_none());
    assert!(UpAxis::from_literal("").is_none());
}

#[test]
fn up_axis_round_trip_through_an_asset() {
    for literal in ["X_UP", "Y_UP", "Z_UP"] {
        let data = format!(
            "<asset><created>c</created><modified>m</modified><up_axis>{}</up_axis></asset>",
            literal
        );
        let e = Element::parse(data.as_bytes()).unwrap();
        let mut a = Asset::new();
        assert!(a.parse(&e).is_ok());
        let out = a.encode();
        assert_eq!(out.get_child("up_axis").unwrap().text, Some(literal.to_string()));
    }
}

#[test]
fn up_axis_unknown_literal_is_refused() {
    match refusal("<asset><up_axis>W_UP</up_axis></asset>") {
        ColladaError::InvalidData { elem, data } => {
            assert_eq!(elem, "up_axis");
            assert_eq!(data, "W_UP");
        }
        _ => assert!(false),
    }
}

#[test]
fn asset_child_without_text_is_refused() {
    for name in ["created", "keywords", "modified", "revision", "subject", "title", "up_axis"] {
        let data = format!("<asset><created>c</created><{}/></asset>", name);
        match refusal(&data) {
            ColladaError::MissingData { elem } => assert_eq!(elem, name),
            _ => assert!(false),
        }
    }
}

#[test]
fn asset_unknown_child_is_refused() {
    match refusal("<asset><created>c</created><owner>me</owner></asset>") {
        ColladaError::InvalidChild { child, parent } => {
            assert_eq!(child, "owner");
            assert_eq!(parent, "asset");
        }
        _ => assert!(false),
    }
}

#[test]
fn asset_unknown_child_is_refused_whatever_it_holds() {
    for data in [
        "<asset><owner/></asset>",
        "<asset><created>c</created><modified>m</modified><bogus/></asset>",
        "<asset><bogus a='b'><created>c</created></bogus><created>c</created></asset>",
    ] {
        let e = Element::parse(data.as_bytes()).unwrap();
        let name = e.children.iter().find(|c| c.name != "created" && c.name != "modified");
        match refusal(data) {
            ColladaError::InvalidChild { child, parent } => {
                assert_eq!(child, name.unwrap().name);
                assert_eq!(parent, "asset");
            }
            _ => assert!(false),
        }
    }
}

#[test]
fn asset_without_created_is_refused() {
    for data in [
        "<asset><modified>2008-01-28T20:51:36Z</modified></asset>",
        "<asset/>",
        "<asset><title>t</title></asset>",
    ] {
        match refusal(data) {
            ColladaError::MissingElement { structure, elem } => {
                assert_eq!(structure, "asset");
                assert_eq!(elem, "created");
            }
            _ => assert!(false),
        }
    }
}

#[test]
fn asset_without_modified_is_refused() {
    match refusal("<asset><created>2008-01-28T20:51:36Z</created><title>t</title></asset>") {
        ColladaError::MissingElement { structure, elem } => {
            assert_eq!(structure, "asset");
            assert_eq!(elem, "modified");
        }
        _ => assert!(false),
    }
}

#[test]
fn asset_failure_of_a_child_comes_before_a_missing_date() {
    match refusal("<asset><title/></asset>") {
        ColladaError::MissingData { elem } => assert_eq!(elem, "title"),
        _ => assert!(false),
    }
    match refusal("<asset><modified>m</modified><owner>me</owner></asset>") {
        ColladaError::InvalidChild { child, parent } => {
            assert_eq!(child, "owner");
            assert_eq!(parent, "asset");
        }
        _ => assert!(false),
    }
}

#[test]
fn asset_with_its_dates_alone_is_read() {
    let e = Element::parse("<asset><modified>m</modified><created>c</created></asset>".as_bytes())
        .unwrap();
    let mut a = Asset::new();
    assert!(a.parse(&e).is_ok());
    assert_eq!(a.created, "c");
    assert_eq!(a.modified, "m");
}

#[test]
fn asset_failure_leaves_the_record_as_it_was() {
    let e = Element::parse("<asset><title>new</title><owner>me</owner></asset>".as_bytes())
        .unwrap();
    let mut a = Asset::new();
    a.title = Some("old".to_string());
    a.keywords.push("kept".to_string());
    assert!(a.parse(&e).is_err());
    assert_eq!(a.title, Some("old".to_string()));
    assert_eq!(a.keywords, vec!["kept"]);
}

#[test]
fn asset_failure_of_a_nested_record_is_passed_on() {
    match refusal("<asset><contributor><author/></contributor></asset>") {
        ColladaError::MissingData { elem } => assert_eq!(elem, "author"),
        _ => assert!(false),
    }
    match refusal("<asset><extra/></asset>") {
        ColladaError::MissingElement { structure, elem } => {
            assert_eq!(structure, "extra");
            assert_eq!(elem, "technique");
        }
        _ => assert!(false),
    }
    match refusal("<asset><coverage/></asset>") {
        ColladaError::MissingElement { structure, elem } => {
            assert_eq!(structure, "location");
            assert_eq!(elem, "geographic_location");
        }
        _ => assert!(false),
    }
}

#[test]
fn asset_round_trip() {
    let data = r#"
        <asset>
            <up_axis>Y_UP</up_axis>
            <extra><technique profile="one"><x/></technique></extra>
            <title>t</title>
            <contributor><author>A</author></contributor>
            <keywords>  foo   bar </keywords>
            <coverage>
                <geographic_location>
                    <altitude mode="absolute">49.9</altitude>
                    <latitude>-1e1</latitude>
                    <longitude>.5</longitude>
                </geographic_location>
            </coverage>
            <contributor><comments>second</comments></contributor>
            <unit meter="0.01" />
            <subject>s</subject>
            <modified>m</modified>
            <extra id="two"><technique profile="two"/><asset><created>a</created><revision>r</revision><modified>b</modified></asset></extra>
            <created>c</created>
        </asset>"#;
    let e = Element::parse(data.as_bytes()).unwrap();
    let mut a = Asset::new();
    assert!(a.parse(&e).is_ok());
    let out = a.encode();
    let names: Vec<&str> = out.children.iter().map(|c| c.name.as_str()).collect();
    assert_eq!(
        names,
        vec![
            "contributor",
            "contributor",
            "coverage",
            "created",
            "keywords",
            "modified",
            "subject",
            "title",
            "unit",
            "up_axis",
            "extra",
            "extra"
        ]
    );
    let mut back = Asset::new();
    assert!(back.parse(&out).is_ok());
    assert_eq!(back.contributors.len(), 2);
    assert_eq!(back.contributors[0].author, Some("A".to_string()));
    assert_eq!(back.contributors[1].comments, Some("second".to_string()));
    let l = back.location.as_ref().unwrap();
    assert_eq!(l.longitude.literal(), ".5");
    assert_eq!(l.latitude.literal(), "-1e1");
    assert_eq!(l.altitude.literal(), "49");
    assert!(matches!(l.mode, AltitudeMode::Absolute));
    assert_eq!(back.created, "c");
    assert_eq!(back.modified, "m");
    assert_eq!(back.keywords, vec!["foo", "bar"]);
    assert_eq!(back.revision, None);
    assert_eq!(back.subject, Some("s".to_string()));
    assert_eq!(back.title, Some("t".to_string()));
    assert_eq!(back.unit.as_ref().unwrap().name, None);
    assert_eq!(back.unit.as_ref().unwrap().meter.as_ref().unwrap().literal(), "0.01");
    assert!(matches!(back.up_axis, Some(UpAxis::YUP)));
    assert_eq!(back.extras.len(), 2);
    assert_eq!(back.extras[1].id, Some("two".to_string()));
    assert_eq!(back.extras[1].asset.as_ref().unwrap().revision, Some("r".to_string()));
    assert_eq!(back.encode(), out);
}

#[test]
fn unit_scenario_on_the_element_itself() {
    let e = Element::parse(r#"<unit meter="1.33" name="meter" />"#.as_bytes()).unwrap();
    let mut u = Unit::new();
    u.name = None;
    assert!(u.parse(&e).is_ok());
    assert_eq!(u.name, Some("meter".to_string()));
    assert_eq!(u.meter.as_ref().map(|m| float(m)), Some(1.33));
    let out = u.encode();
    assert_eq!(out.name, "unit");
    assert_eq!(out.attributes.len(), 2);
    assert_eq!(out.attributes.get("name"), Some(&"meter".to_string()));
    assert_eq!(out.attributes.get("meter"), Some(&"1.33".to_string()));
    assert_eq!(out.text, None);
    assert_eq!(out, e);
}

#[test]
fn unit_failure_leaves_the_unit_as_it_was() {
    let e = Element::parse(r#"<unit meter="1,33" name="inch" />"#.as_bytes()).unwrap();
    let mut u = Unit::new();
    assert!(matches!(u.parse(&e), Err(ColladaError::ParseError)));
    assert_eq!(u.name, Some("meter".to_string()));
    assert_eq!(u.meter.as_ref().map(|m| m.literal().to_string()), Some("1".to_string()));
}
