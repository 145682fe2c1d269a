use collada::records::Asset;
use collada::records::Extra;
use collada::records::Technique;
use collada::ColladaError;
use collada::XmlConversion;
use xmltree::Element;

#[test]
fn test_extra_parse() {
    let data = r#"
        <extra id='some-id' name='some-name' type='basic'>
            <asset>
                <created>2005-06-27T21:00:00z</created>
                <modified>2005-06-27T21:00:00z</modified>
            </asset>
            <technique profile='lolo'>
                <oh>fo fo fo</oh>
            </technique>
            <technique profile='lala'>
                <ah>fa fa fa</ah>
            </technique>
        </extra>"#;
    let e = Element::parse(data.as_bytes()).unwrap();
    let mut x = Extra::new();
    match x.parse(&e) {
        Ok(_) => assert!(true),
        Err(_) => assert!(false),
    }
    assert_eq!(x.id.unwrap().as_str(), "some-id");
    assert_eq!(x.name.unwrap().as_str(), "some-name");
    assert_eq!(x.typ.unwrap().as_str(), "basic");
    assert_eq!(x.asset.is_some(), true);
    let asset = x.asset.unwrap();
    assert_eq!(asset.created, "2005-06-27T21:00:00z");
    assert_eq!(asset.modified, "2005-06-27T21:00:00z");
    assert_eq!(x.techniques.len(), 2);
    assert_eq!(x.techniques[0].profile, "lolo");
    assert_eq!(x.techniques[1].profile, "lala");
}

#[test]
fn test_extra_encode() {
    let mut x = Extra::new();
    x.id = Some(String::from("some-id"));
    x.name = Some(String::from("some-name"));
    x.typ = Some(String::from("basic"));

    let mut a = Asset::new();
    a.created = "2005-06-27T21:00:00z".to_owned();
    a.modified = "2005-06-27T21:00:00z".to_owned();
    x.asset = Some(a);

    let mut t = Technique::new();
    t.profile = "foo".to_owned();
    x.techniques.push(t);

    let e = x.encode();
    assert_eq!(e.name, "extra");
    assert_eq!(e.attributes.get("id"), Some(&String::from("some-id")));
    assert_eq!(e.attributes.get("name"), Some(&String::from("some-name")));
    assert_eq!(e.attributes.get("type"), Some(&String::from("basic")));
    assert_eq!(e.children.len(), 2);
    assert_eq!(e.children[0].name, "asset");
    assert_eq!(e.children[0].children.len(), 3);
    assert_eq!(e.children[1].name, "technique");
}

#[test]
fn extra_new_is_empty() {
    let x = Extra::new();
    assert_eq!(x.id, None);
    assert_eq!(x.name, None);
    assert_eq!(x.typ, None);
    assert!(x.asset.is_none());
    assert!(x.techniques.is_empty());
    let e = x.encode();
    assert_eq!(e, Element::new("extra"));
}

#[test]
fn extra_without_technique_is_refused() {
    let e = Element::parse(
        "<extra id='x'><asset><created>c</created><modified>m</modified></asset></extra>"
            .as_bytes(),
    )
    .unwrap();
    let mut x = Extra::new();
    match x.parse(&e) {
        Err(ColladaError::MissingElement { structure, elem }) => {
            assert_eq!(structure, "extra");
            assert_eq!(elem, "technique");
        }
        _ => assert!(false),
    }
    assert_eq!(x.id, None);
}

#[test]
fn extra_with_no_child_at_all_is_refused() {
    let e = Element::new("extra");
    let mut x = Extra::new();
    match x.parse(&e) {
        Err(ColladaError::MissingElement { structure, elem }) => {
            assert_eq!(structure, "extra");
            assert_eq!(elem, "technique");
        }
        _ => assert!(false),
    }
}

#[test]
fn extra_unknown_child_is_refused() {
    let e = Element::parse(
        "<extra><technique profile='a'/><bonus/><technique profile='b'/></extra>".as_bytes(),
    )
    .unwrap();
    let mut x = Extra::new();
    match x.parse(&e) {
        Err(ColladaError::InvalidChild { child, parent }) => {
            assert_eq!(child, "bonus");
            assert_eq!(parent, "extra");
        }
        _ => assert!(false),
    }
}

#[test]
fn extra_failure_of_the_asset_comes_first() {
    let e = Element::parse("<extra><bonus/><asset><nonsense>1</nonsense></asset></extra>".as_bytes())
        .unwrap();
    let mut x = Extra::new();
    match x.parse(&e) {
        Err(ColladaError::InvalidChild { child, parent }) => {
            assert_eq!(child, "nonsense");
            assert_eq!(parent, "asset");
        }
        _ => assert!(false),
    }
}

#[test]
fn extra_technique_without_profile_is_refused() {
    let e = Element::parse("<extra><technique profile='a'/><technique/></extra>".as_bytes())
        .unwrap();
    let mut x = Extra::new();
    match x.parse(&e) {
        Err(ColladaError::MissingAttr { elem, attr }) => {
            assert_eq!(elem, "technique");
            assert_eq!(attr, "profile");
        }
        _ => assert!(false),
    }
}

#[test]
fn extra_reads_the_first_asset_only() {
    let e = Element::parse(
        "<extra><technique profile='a'/><asset><created>c</created><modified>m</modified><title>one</title></asset><asset><title>two</title></asset></extra>"
            .as_bytes(),
    )
    .unwrap();
    let mut x = Extra::new();
    assert!(x.parse(&e).is_ok());
    assert_eq!(x.asset.unwrap().title, Some("one".to_string()));
    assert_eq!(x.techniques.len(), 1);
    assert_eq!(x.id, None);
}

#[test]
fn extra_round_trip() {
    let data = r#"
        <extra id='i' type='t'>
            <technique profile='lolo'><oh>fo fo fo</oh></technique>
            <asset>
                <created>c</created>
                <modified>m</modified>
                <keywords>  a   b </keywords>
                <extra><technique profile='deep'/></extra>
            </asset>
            <technique profile='lala'><ah>fa fa fa</ah></technique>
        </extra>"#;
    let e = Element::parse(data.as_bytes()).unwrap();
    let mut x = Extra::new();
    assert!(x.parse(&e).is_ok());
    let out = x.encode();
    assert_eq!(out.children.len(), 3);
    assert_eq!(out.children[0].name, "asset");
    assert_eq!(out.children[1], e.children[0]);
    assert_eq!(out.children[2], e.children[2]);
    assert_eq!(out.attributes.len(), 2);
    let mut back = Extra::new();
    assert!(back.parse(&out).is_ok());
    assert_eq!(back.id, x.id);
    assert_eq!(back.name, None);
    assert_eq!(back.typ, x.typ);
    assert_eq!(back.techniques.len(), 2);
    assert_eq!(back.techniques[0].data, x.techniques[0].data);
    assert_eq!(back.techniques[1].data, x.techniques[1].data);
    let inner = back.asset.as_ref().unwrap();
    assert_eq!(inner.keywords, vec!["a".to_string(), "b".to_string()]);
    assert_eq!(inner.extras.len(), 1);
    assert_eq!(inner.extras[0].techniques[0].profile, "deep");
    assert_eq!(back.encode(), out);
}

#[test]
fn extra_with_an_asset_without_dates_is_refused() {
    let e = Element::parse(
        "<extra><technique profile='a'/><asset><title>t</title></asset></extra>".as_bytes(),
    )
    .unwrap();
    let mut x = Extra::new();
    match x.parse(&e) {
        Err(ColladaError::MissingElement { structure, elem }) => {
            assert_eq!(structure, "asset");
            assert_eq!(elem, "created");
        }
        _ => assert!(false),
    }
}
