use collada::records::AssetChild;
use collada::records::AssetText;
use collada::records::ContributorField;
use collada::records::Coordinate;
use collada::records::ExtraChild;

#[test]
fn the_children_of_a_contributor() {
    assert!(matches!(ContributorField::of("author"), Some(ContributorField::Author)));
    assert!(matches!(ContributorField::of("author_email"), Some(ContributorField::AuthorEmail)));
    assert!(matches!(
        ContributorField::of("author_website"),
        Some(ContributorField::AuthorWebsite)
    ));
    assert!(matches!(
        ContributorField::of("authoring_tool"),
        Some(ContributorField::AuthoringTool)
    ));
    assert!(matches!(ContributorField::of("comments"), Some(ContributorField::Comments)));
    assert!(matches!(ContributorField::of("copyright"), Some(ContributorField::Copyright)));
    assert!(matches!(ContributorField::of("source_data"), Some(ContributorField::SourceData)));
    assert!(ContributorField::of("Author").is_none());
    assert!(ContributorField::of("authors").is_none());
    assert!(ContributorField::of("").is_none());
}

#[test]
fn the_children_of_a_geographic_location() {
    assert!(matches!(Coordinate::of("longitude"), Some(Coordinate::Longitude)));
    assert!(matches!(Coordinate::of("latitude"), Some(Coordinate::Latitude)));
    assert!(matches!(Coordinate::of("altitude"), Some(Coordinate::Altitude)));
    assert!(Coordinate::of("attitude").is_none());
    assert!(Coordinate::of("mode").is_none());
}

#[test]
fn the_children_of_an_extra() {
    assert!(matches!(ExtraChild::of("technique"), Some(ExtraChild::Technique)));
    assert!(matches!(ExtraChild::of("asset"), Some(ExtraChild::Asset)));
    assert!(ExtraChild::of("extra").is_none());
    assert!(ExtraChild::of("technique ").is_none());
}

#[test]
fn the_children_of_an_asset() {
    assert!(matches!(AssetChild::of("contributor"), Some(AssetChild::Contributor)));
    assert!(matches!(AssetChild::of("coverage"), Some(AssetChild::Coverage)));
    assert!(matches!(AssetChild::of("extra"), Some(AssetChild::Extra)));
    assert!(matches!(AssetChild::of("unit"), Some(AssetChild::Unit)));
    assert!(matches!(AssetChild::of("created"), Some(AssetChild::Text(AssetText::Created))));
    assert!(matches!(AssetChild::of("keywords"), Some(AssetChild::Text(AssetText::Keywords))));
    assert!(matches!(AssetChild::of("modified"), Some(AssetChild::Text(AssetText::Modified))));
    assert!(matches!(AssetChild::of("revision"), Some(AssetChild::Text(AssetText::Revision))));
    assert!(matches!(AssetChild::of("subject"), Some(AssetChild::Text(AssetText::Subject))));
    assert!(matches!(AssetChild::of("title"), Some(AssetChild::Text(AssetText::Title))));
    assert!(matches!(AssetChild::of("up_axis"), Some(AssetChild::Text(AssetText::UpAxis))));
    assert!(AssetChild::of("asset").is_none());
    assert!(AssetChild::of("technique").is_none());
    assert!(AssetChild::of("UP_AXIS").is_none());
}
