//! The records of the asset block.

pub mod asset;
pub mod contributor;
pub mod extra;
pub mod location;
pub mod technique;

pub use self::asset::Asset;
pub use self::asset::AssetChild;
pub use self::asset::AssetText;
pub use self::asset::AssetView;
pub use self::asset::Unit;
pub use self::asset::UnitView;
pub use self::asset::UpAxis;
pub use self::contributor::Contributor;
pub use self::contributor::ContributorField;
pub use self::contributor::ContributorView;
pub use self::extra::Extra;
pub use self::extra::ExtraChild;
pub use self::extra::ExtraView;
pub use self::location::AltitudeMode;
pub use self::location::Coordinate;
pub use self::location::Location;
pub use self::location::LocationView;
pub use self::technique::Technique;
pub use self::technique::TechniqueView;
