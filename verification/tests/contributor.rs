use collada::records::Contributor;
use collada::ColladaError;
use collada::XmlConversion;
use xmltree::Element;

#[test]
fn test_contributor_parse() {
    let data = r#"
        <contributor>
            <author>Bob the artist</author>
            <author_email>bob@bobartist.com</author_email>
            <author_website>http://www.bobartist.com</author_website>
            <authoring_tool>Super3DmodelMaker3000</authoring_tool>
            <comments>This is a big Tank</comments>
            <copyright>Bob's game shack: all rights reserved</copyright>
            <source_data>c:/models/tanks.s3d</source_data>
        </contributor>"#;
    let e = Element::parse(data.as_bytes()).unwrap();
    let mut c = Contributor::new();
    match c.parse(&e) {
        Ok(_) => assert!(true),
        Err(_) => assert!(false),
    }
    assert_eq!(c.author.unwrap().as_str(), "Bob the artist");
    assert_eq!(c.author_email.unwrap().as_str(), "bob@bobartist.com");
    assert_eq!(c.author_website.unwrap().as_str(), "http://www.bobartist.com");
    assert_eq!(c.authoring_tool.unwrap().as_str(), "Super3DmodelMaker3000");
    assert_eq!(c.comments.unwrap().as_str(), "This is a big Tank");
    assert_eq!(c.copyright.unwrap().as_str(), "Bob's game shack: all rights reserved");
    assert_eq!(c.source_data.unwrap().as_str(), "c:/models/tanks.s3d");
}

#[test]
fn test_contributor_partial_parse() {
    let data = r#"
        <contributor>
            <author>Master of disaster</author>
            <copyright>Disaster Dungeon (c) 2016</copyright>
        </contributor>"#;
    let e = Element::parse(data.as_bytes()).unwrap();
    let mut c = Contributor::new();
    match c.parse(&e) {
        Ok(_) => assert!(true),
        Err(_) => assert!(false),
    }
    assert_eq!(c.author.unwrap().as_str(), "Master of disaster");
    assert_eq!(c.author_email, None);
    assert_eq!(c.author_website, None);
    assert_eq!(c.authoring_tool, None);
    assert_eq!(c.comments, None);
    assert_eq!(c.copyright.unwrap().as_str(), "Disaster Dungeon (c) 2016");
    assert_eq!(c.source_data, None);
}

#[test]
fn test_contributor_encode() {
    let mut c = Contributor::new();
    c.author = Some("Bob the artist".to_owned());
    c.author_email = Some("bob@bobartist.com".to_owned());
    c.author_website = Some("http://www.bobartist.com".to_owned());
    c.authoring_tool = Some("Super3DmodelMaker3000".to_owned());
    c.comments = Some("This is a big tank".to_owned());
    c.copyright = Some("Bob's game shack: all rights reserved".to_owned());
    c.source_data = Some("c:/models/tanks.s3d".to_owned());

    let e = c.encode();
    assert_eq!(e.name, "contributor");
    for ch in &e.children {
        match ch.name.as_str() {
            "author" => assert_eq!(ch.text, Some("Bob the artist".to_owned())),
            "author_email" => assert_eq!(ch.text, Some("bob@bobartist.com".to_owned())),
            "author_website" => assert_eq!(ch.text, Some("http://www.bobartist.com".to_owned())),
            "authoring_tool" => assert_eq!(ch.text, Some("Super3DmodelMaker3000".to_owned())),
            "comments" => assert_eq!(ch.text, Some("This is a big tank".to_owned())),
            "copyright" => {
                assert_eq!(ch.text, Some("Bob's game shack: all rights reserved".to_owned()))
            }
            "source_data" => assert_eq!(ch.text, Some("c:/models/tanks.s3d".to_owned())),
            _ => assert!(false),
        }
    }
}

#[test]
fn test_contributor_partial_encode() {
    let mut c = Contributor::new();
    c.author = Some("Master of disaster".to_owned());
    c.copyright = Some("Disaster Dungeon (c) 2016".to_owned());

    let e = c.encode();
    assert_eq!(e.name, "contributor");

    for ch in &e.children {
        match ch.name.as_str() {
            "author" => assert_eq!(ch.text, Some("Master of disaster".to_owned())),
            "author_email" => assert_eq!(ch.text, None),
            "autor_website" => assert_eq!(ch.text, None),
            "authoring_tool" => assert_eq!(ch.text, None),
            "commments" => assert_eq!(ch.text, None),
            "copyright" => assert_eq!(ch.text, Some("Disaster Dungeon (c) 2016".to_owned())),
            "source_data" => assert_eq!(ch.text, None),
            _ => assert!(false),
        }
    }
}

#[test]
fn contributor_encode_keeps_the_order_of_the_fields() {
    let mut c = Contributor::new();
    c.source_data = Some("s".to_owned());
    c.comments = Some("c".to_owned());
    c.author = Some("a".to_owned());
    c.author_email = Some("b".to_owned());
    c.author_website = Some("w".to_owned());
    c.authoring_tool = Some("t".to_owned());
    c.copyright = Some("r".to_owned());
    let e = c.encode();
    let names: Vec<&str> = e.children.iter().map(|ch| ch.name.as_str()).collect();
    assert_eq!(
        names,
        vec![
            "author",
            "author_email",
            "author_website",
            "authoring_tool",
            "comments",
            "copyright",
            "source_data"
        ]
    );
    assert!(e.attributes.is_empty());
    assert_eq!(e.text, None);
}

#[test]
fn contributor_round_trip() {
    let mut c = Contributor::new();
    c.author = Some("Ada".to_owned());
    c.comments = Some("".to_owned());
    let e = c.encode();
    let mut back = Contributor::new();
    assert!(back.parse(&e).is_ok());
    assert_eq!(back.author, Some("Ada".to_owned()));
    assert_eq!(back.comments, Some("".to_owned()));
    assert_eq!(back.author_email, None);
    assert_eq!(back.encode(), e);
}

#[test]
fn contributor_wrong_tag_is_refused() {
    let e = Element::new("contributors");
    let mut c = Contributor::new();
    match c.parse(&e) {
        Err(ColladaError::MissingElement { structure, elem }) => {
            assert_eq!(structure, "contributor");
            assert_eq!(elem, "contributor");
        }
        _ => assert!(false),
    }
}

#[test]
fn contributor_child_without_text_is_refused() {
    let e = Element::parse("<contributor><author>A</author><comments/></contributor>".as_bytes())
        .unwrap();
    let mut c = Contributor::new();
    match c.parse(&e) {
        Err(ColladaError::MissingData { elem }) => assert_eq!(elem, "comments"),
        _ => assert!(false),
    }
    assert_eq!(c.author, None);
}

#[test]
fn contributor_unknown_child_is_refused() {
    let e = Element::parse(
        "<contributor><author>A</author><editor>E</editor><comments/></contributor>".as_bytes(),
    )
    .unwrap();
    let mut c = Contributor::new();
    match c.parse(&e) {
        Err(ColladaError::InvalidChild { child, parent }) => {
            assert_eq!(child, "editor");
            assert_eq!(parent, "contributor");
        }
        _ => assert!(false),
    }
}

#[test]
fn contributor_later_child_counts() {
    let e = Element::parse(
        "<contributor><author>A</author><author>B</author></contributor>".as_bytes(),
    )
    .unwrap();
    let mut c = Contributor::new();
    assert!(c.parse(&e).is_ok());
    assert_eq!(c.author, Some("B".to_owned()));
}

#[test]
fn contributor_parse_replaces_the_record() {
    let e = Element::parse("<contributor><author>A</author></contributor>".as_bytes()).unwrap();
    let mut c = Contributor::new();
    c.comments = Some("old".to_owned());
    assert!(c.parse(&e).is_ok());
    assert_eq!(c.author, Some("A".to_owned()));
    assert_eq!(c.comments, None);
}
