use collada::records::Technique;
use collada::ColladaError;
use collada::XmlConversion;
use std::collections::HashMap;
use xmltree::Element;

#[test]
fn test_technique_parse() {
    let data = r#"
        <technique profile="Max" xmlns:max="some/max/schema">
            <param name="wow" sid="animated" type="string">
                A validated string parameter from the COLLADA scheme.
            </param>
            <max:someElement>defined in the Max schema and validated.</max:someElement>
            <uhoh>something well-formed and level, but that can't be validated
            because there is no schema for it!</uhoh>
        </technique>"#;
    let e = Element::parse(data.as_bytes()).unwrap();
    let mut t = Technique::new();
    match t.parse(&e) {
        Ok(_) => assert!(true),
        Err(_) => assert!(false),
    }
    assert_eq!(t.profile.as_str(), "Max");
    let d = &t.data;
    assert_eq!(d.name, "technique");
    assert_eq!(d.children.len(), 3);
    assert_eq!(d.children[0].name.as_str(), "param");
    assert_eq!(d.children[2].name.as_str(), "uhoh");
}

#[test]
fn test_technique_encode() {
    let mut data = Element {
        prefix: None,
        namespace: None,
        namespaces: None,
        name: String::from("technique"),
        attributes: HashMap::new(),
        children: vec![
            Element {
                prefix: None,
                namespace: None,
                namespaces: None,
                name: String::from("max:SomeElement"),
                attributes: HashMap::new(),
                children: Vec::new(),
                text: Some(String::from("defined in the Max schema and validated.")),
            },
            Element {
                prefix: None,
                namespace: None,
                namespaces: None,
                name: String::from("uhoh"),
                attributes: HashMap::new(),
                children: Vec::new(),
                text: Some(String::from("some string")),
            },
        ],
        text: None,
    };
    data.attributes.insert("profile".to_owned(), "max".to_owned());
    data.attributes.insert("xmlns:max".to_owned(), "some/max/schema".to_owned());

    let mut t = Technique::new();
    match t.parse(&data) {
        Ok(_) => assert!(true),
        Err(_) => assert!(false),
    }

    let e = t.encode();
    assert_eq!(e.name, "technique");
    assert_eq!(e.children.len(), 2);
    assert_eq!(e.attributes.get("profile"), Some(&String::from("max")));
}

#[test]
fn technique_new_is_empty() {
    let t = Technique::new();
    assert_eq!(t.profile, "");
    assert_eq!(t.xmlns, None);
    assert_eq!(t.data, Element::new("technique"));
}

#[test]
fn technique_keeps_its_payload() {
    let data = r#"
        <technique profile="Max" xmlns:max="some/max/schema" odd="1">
            text of the technique
            <max:someElement deep="yes"><inner><innermost a="b">x</innermost></inner></max:someElement>
            <uhoh/>
        </technique>"#;
    let e = Element::parse(data.as_bytes()).unwrap();
    let mut t = Technique::new();
    assert!(t.parse(&e).is_ok());
    assert_eq!(t.data, e);
    assert_eq!(t.encode(), e);
    assert_eq!(t.xmlns, None);
    let mut again = Technique::new();
    assert!(again.parse(&t.encode()).is_ok());
    assert_eq!(again.profile, t.profile);
    assert_eq!(again.data, t.data);
}

#[test]
fn technique_without_profile_is_refused() {
    let e = Element::parse("<technique><foo>bar</foo></technique>".as_bytes()).unwrap();
    let mut t = Technique::new();
    match t.parse(&e) {
        Err(ColladaError::MissingAttr { elem, attr }) => {
            assert_eq!(elem, "technique");
            assert_eq!(attr, "profile");
        }
        _ => assert!(false),
    }
    assert_eq!(t.profile, "");
    assert_eq!(t.data, Element::new("technique"));
}

#[test]
fn technique_wrong_tag_is_refused() {
    let e = Element::parse(r#"<technic profile="x"/>"#.as_bytes()).unwrap();
    let mut t = Technique::new();
    match t.parse(&e) {
        Err(ColladaError::MissingElement { structure, elem }) => {
            assert_eq!(structure, "technique");
            assert_eq!(elem, "technique");
        }
        _ => assert!(false),
    }
}
