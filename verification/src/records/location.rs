//! Where on earth an asset lies.

use crate::error::ColladaError;
use crate::error::Failure;
use crate::number::integer_string;
use crate::number::integer_text;
use crate::number::is_real;
use crate::number::truncation;
use crate::number::Real;
use crate::text::same;
use crate::traits::XmlConversion;
use crate::xml::attribute;
use crate::xml::bare;
use crate::xml::children;
use crate::xml::element;
use crate::xml::first_child;
use crate::xml::has_child;
use crate::xml::leaf;
use crate::xml::node;
use crate::xml::nodes;
use crate::xml::push_child;
use crate::xml::set_attribute;
use crate::xml::tag;
use crate::xml::text;
use crate::xml::text_element;
use crate::xml::walk;
use crate::xml::Node;
use vstd::prelude::*;
use vstd::string::StringExecFns;
use xmltree::Element;

verus! {

/// Whether an altitude counts from sea level or from the ground at that
/// latitude and longitude.
#[derive(Copy, Clone, Debug)]
pub enum AltitudeMode {
    /// The altitude is a distance in meters from ground level.
    RelativeToGround,
    /// The altitude is a distance in meters from sea level.
    Absolute,
}

impl AltitudeMode {
    /// The literal that stands for the mode.
    pub open spec fn literal(self) -> Seq<char> {
        match self {
            AltitudeMode::RelativeToGround => "relativeToGround"@,
            AltitudeMode::Absolute => "absolute"@,
        }
    }

    /// The mode that a literal stands for, if it stands for one.
    pub open spec fn named(s: Seq<char>) -> Option<AltitudeMode> {
        if s == "absolute"@ {
            Some(AltitudeMode::Absolute)
        } else if s == "relativeToGround"@ {
            Some(AltitudeMode::RelativeToGround)
        } else {
            None
        }
    }

    /// The literal that stands for the mode.
    pub fn to_string(&self) -> (r: String)
        ensures
            r@ == self.literal(),
    {
        match self {
            AltitudeMode::RelativeToGround => String::from_str("relativeToGround"),
            AltitudeMode::Absolute => String::from_str("absolute"),
        }
    }

    /// The mode that a literal stands for, if it stands for one.
    pub fn from_literal(s: &str) -> (r: Option<AltitudeMode>)
        ensures
            r == AltitudeMode::named(s@),
    {
        if same(s, "absolute") {
            Some(AltitudeMode::Absolute)
        } else if same(s, "relativeToGround") {
            Some(AltitudeMode::RelativeToGround)
        } else {
            None
        }
    }
}

/// The children that a `geographic_location` may hold.
#[derive(Clone, Copy, Debug)]
pub enum Coordinate {
    Longitude,
    Latitude,
    Altitude,
}

impl Coordinate {
    /// The child that a tag names, if it names one.
    pub open spec fn named(name: Seq<char>) -> Option<Coordinate> {
        if name == "longitude"@ {
            Some(Coordinate::Longitude)
        } else if name == "latitude"@ {
            Some(Coordinate::Latitude)
        } else if name == "altitude"@ {
            Some(Coordinate::Altitude)
        } else {
            None
        }
    }

    /// The child that a tag names, if it names one.
    pub fn of(name: &str) -> (r: Option<Coordinate>)
        ensures
            r == Coordinate::named(name@),
    {
        if same(name, "longitude") {
            Some(Coordinate::Longitude)
        } else if same(name, "latitude") {
            Some(Coordinate::Latitude)
        } else if same(name, "altitude") {
            Some(Coordinate::Altitude)
        } else {
            None
        }
    }
}

/// Geographic location of an asset.
#[derive(Debug)]
pub struct Location {
    pub longitude: Real,
    pub latitude: Real,
    pub altitude: Real,
    pub mode: AltitudeMode,
}

/// A location as a mathematical value: each number by its literal.
pub struct LocationView {
    pub longitude: Seq<char>,
    pub latitude: Seq<char>,
    pub altitude: Seq<char>,
    pub mode: AltitudeMode,
}

impl View for Location {
    type V = LocationView;

    open spec fn view(&self) -> LocationView {
        LocationView {
            longitude: self.longitude@,
            latitude: self.latitude@,
            altitude: self.altitude@,
            mode: self.mode,
        }
    }
}

/// The sentence that refuses a `geographic_location` with more children than
/// the three coordinates.
pub open spec fn three_children() -> Seq<char> {
    "<geographic_location> element must have 3 children: \
    <longitude>, <latitude>, <altitude>"@
}

impl LocationView {
    /// The point at zero longitude, latitude and altitude above the ground.
    pub open spec fn origin() -> LocationView {
        LocationView {
            longitude: integer_text(0),
            latitude: integer_text(0),
            altitude: integer_text(0),
            mode: AltitudeMode::RelativeToGround,
        }
    }

    /// Whether the three numbers are literals.
    pub open spec fn well_formed(self) -> bool {
        is_real(self.longitude) && is_real(self.latitude) && is_real(self.altitude)
    }

    /// The location as it is written: its altitude cut off at the point.
    pub open spec fn written(self) -> LocationView {
        LocationView { altitude: integer_text(truncation(self.altitude)), ..self }
    }

    /// The mode that an `altitude` element carries, or why it carries none:
    /// the attribute `mode` is missing, or its value is the literal of no
    /// mode, which is invalid data of the element.
    pub open spec fn mode_of(c: Node) -> Result<AltitudeMode, Failure> {
        if !c.attributes.contains_key("mode"@) {
            Err(Failure::MissingAttr { elem: "altitude"@, attr: "mode"@ })
        } else {
            match AltitudeMode::named(c.attributes["mode"@]) {
                Some(mode) => Ok(mode),
                None => Err(
                    Failure::InvalidData { elem: "altitude"@, data: c.attributes["mode"@] },
                ),
            }
        }
    }

    /// Reads one child of `geographic_location` into the location: a child
    /// needs a tag that names a coordinate, whatever else it holds, then a
    /// text, which must be a number, and an altitude needs its mode.
    pub open spec fn step(self, c: Node) -> Result<LocationView, Failure> {
        match Coordinate::named(c.name) {
            None => Err(Failure::InvalidChild { child: c.name, parent: "geographic_location"@ }),
            Some(coordinate) => match c.text {
                None => Err(Failure::MissingData { elem: c.name }),
                Some(t) => if !is_real(t) {
                    Err(Failure::ParseError)
                } else {
                    match coordinate {
                        Coordinate::Longitude => Ok(LocationView { longitude: t, ..self }),
                        Coordinate::Latitude => Ok(LocationView { latitude: t, ..self }),
                        Coordinate::Altitude => match LocationView::mode_of(c) {
                            Ok(mode) => Ok(LocationView { altitude: t, mode, ..self }),
                            Err(f) => Err(f),
                        },
                    }
                },
            },
        }
    }

    /// The first of `longitude`, `latitude` and `altitude`, in this order,
    /// that a `geographic_location` has no child for, if there is one.
    pub open spec fn lacking(geo: Node) -> Option<Seq<char>> {
        if !has_child(geo, "longitude"@) {
            Some("longitude"@)
        } else if !has_child(geo, "latitude"@) {
            Some("latitude"@)
        } else if !has_child(geo, "altitude"@) {
            Some("altitude"@)
        } else {
            None
        }
    }

    /// The location that a `geographic_location` describes. Its children are
    /// read in document order, and the first that fails decides. Where all
    /// are read, each of the three coordinates must be among them, and then
    /// there must be three children and no more.
    pub open spec fn located(geo: Node) -> Result<LocationView, Failure> {
        match walk(
            geo.children,
            0,
            LocationView::origin(),
            |s: LocationView, c: Node| s.step(c),
        ) {
            Err(f) => Err(f),
            Ok(v) => match LocationView::lacking(geo) {
                Some(name) => Err(Failure::MissingElement { structure: "location"@, elem: name }),
                None => if geo.children.len() != 3 {
                    Err(Failure::Invalid { msg: three_children() })
                } else {
                    Ok(v)
                },
            },
        }
    }

    /// The `altitude` element of the location: the altitude cut off at the
    /// point, and the mode as an attribute.
    pub open spec fn altitude_node(self) -> Node {
        Node {
            attributes: Map::empty().insert("mode"@, self.mode.literal()),
            ..leaf("altitude"@, integer_text(truncation(self.altitude)))
        }
    }

    /// The `geographic_location` element of the location.
    pub open spec fn geographic(self) -> Node {
        Node {
            children: seq![
                leaf("longitude"@, self.longitude),
                leaf("latitude"@, self.latitude),
                self.altitude_node(),
            ],
            ..bare("geographic_location"@)
        }
    }
}

impl Location {
    /// The point at zero longitude, latitude and altitude above the ground.
    pub fn new() -> (r: Location)
        ensures
            r@ == LocationView::origin(),
    {
        Location {
            longitude: Real::from_integer(0),
            latitude: Real::from_integer(0),
            altitude: Real::from_integer(0),
            mode: AltitudeMode::RelativeToGround,
        }
    }

    /// Reads one child of `geographic_location` into the location.
    fn take(&mut self, c: &Element) -> (r: Result<(), ColladaError>)
        ensures
            match old(self)@.step(node(*c)) {
                Ok(v) => r is Ok && final(self)@ == v,
                Err(f) => r is Err && r->Err_0@ == f,
            },
    {
        let name = tag(c);
        let coordinate = match Coordinate::of(name) {
            Some(coordinate) => coordinate,
            None => {
                return Err(
                    ColladaError::InvalidChild {
                        child: String::from_str(name),
                        parent: String::from_str("geographic_location"),
                    },
                );
            },
        };
        let content = match text(c) {
            Some(t) => t,
            None => {
                return Err(ColladaError::MissingData { elem: String::from_str(name) });
            },
        };
        let number = match Real::parse(content.as_str()) {
            Some(x) => x,
            None => {
                return Err(ColladaError::ParseError);
            },
        };
        match coordinate {
            Coordinate::Longitude => {
                self.longitude = number;
            },
            Coordinate::Latitude => {
                self.latitude = number;
            },
            Coordinate::Altitude => {
                let mode = match attribute(c, "mode") {
                    Some(m) => match AltitudeMode::from_literal(m.as_str()) {
                        Some(mode) => mode,
                        None => {
                            return Err(
                                ColladaError::InvalidData {
                                    elem: String::from_str("altitude"),
                                    data: m.clone(),
                                },
                            );
                        },
                    },
                    None => {
                        return Err(
                            ColladaError::MissingAttr {
                                elem: String::from_str("altitude"),
                                attr: String::from_str("mode"),
                            },
                        );
                    },
                };
                self.altitude = number;
                self.mode = mode;
            },
        }
        Ok(())
    }

    /// The location that `e` describes.
    pub(crate) fn read(e: &Element) -> (r: Result<Location, ColladaError>)
        ensures
            match Location::decoded(node(*e)) {
                Ok(v) => r is Ok && r->Ok_0@ == v,
                Err(f) => r is Err && r->Err_0@ == f,
            },
    {
        if !same(tag(e), "coverage") {
            return Err(
                ColladaError::MissingElement {
                    structure: String::from_str("location"),
                    elem: String::from_str("coverage"),
                },
            );
        }
        let outer = children(e);
        assert(outer.len() > 0 ==> nodes(outer@)[0] == node(outer@[0]));
        if outer.len() != 1 || !same(tag(&outer[0]), "geographic_location") {
            return Err(
                ColladaError::MissingElement {
                    structure: String::from_str("location"),
                    elem: String::from_str("geographic_location"),
                },
            );
        }
        let geo = &outer[0];
        let cs = children(geo);
        let ghost step = |s: LocationView, c: Node| s.step(c);
        let ghost run = walk(node(*geo).children, 0, LocationView::origin(), step);
        let mut rec = Location::new();
        let mut i: usize = 0;
        while i < cs.len()
            invariant
                i <= cs.len(),
                nodes(cs@) == node(*geo).children,
                step == |s: LocationView, c: Node| s.step(c),
                run == walk(node(*geo).children, 0, LocationView::origin(), step),
                run is Err ==> Location::decoded(node(*e)) == Err::<LocationView, Failure>(
                    run->Err_0,
                ),
                walk(nodes(cs@), i as int, rec@, step) == run,
            decreases cs.len() - i,
        {
            assert(nodes(cs@)[i as int] == node(cs@[i as int]));
            match rec.take(&cs[i]) {
                Ok(_) => {},
                Err(err) => {
                    return Err(err);
                },
            }
            i = i + 1;
        }
        if first_child(geo, "longitude").is_none() {
            return Err(Location::lacks("longitude"));
        }
        if first_child(geo, "latitude").is_none() {
            return Err(Location::lacks("latitude"));
        }
        if first_child(geo, "altitude").is_none() {
            return Err(Location::lacks("altitude"));
        }
        if cs.len() != 3 {
            return Err(
                ColladaError::Invalid {
                    msg: String::from_str(
                        "<geographic_location> element must have 3 children: \
                        <longitude>, <latitude>, <altitude>",
                    ),
                },
            );
        }
        Ok(rec)
    }

    /// The failure for a coordinate that is not there.
    fn lacks(name: &str) -> (r: ColladaError)
        ensures
            r@ == (Failure::MissingElement { structure: "location"@, elem: name@ }),
    {
        ColladaError::MissingElement {
            structure: String::from_str("location"),
            elem: String::from_str(name),
        }
    }
}

impl XmlConversion for Location {
    /// A `coverage` element whose only child is a `geographic_location` with
    /// three children: a `longitude`, a `latitude` and an `altitude`, in any
    /// order, each with a number. The failures come in this order: the tag,
    /// the `geographic_location`, the first child that fails, the first
    /// coordinate that is not there, the number of children.
    open spec fn decoded(n: Node) -> Result<LocationView, Failure> {
        if n.name != "coverage"@ {
            Err(Failure::MissingElement { structure: "location"@, elem: "coverage"@ })
        } else if n.children.len() != 1 || n.children[0].name != "geographic_location"@ {
            Err(Failure::MissingElement { structure: "location"@, elem: "geographic_location"@ })
        } else {
            LocationView::located(n.children[0])
        }
    }

    open spec fn encoded(v: LocationView) -> Node {
        Node { children: seq![v.geographic()], ..bare("coverage"@) }
    }

    fn parse(&mut self, e: &Element) -> (r: Result<(), ColladaError>) {
        match Location::read(e) {
            Ok(rec) => {
                *self = rec;
                Ok(())
            },
            Err(err) => Err(err),
        }
    }

    fn encode(&self) -> (e: Element) {
        let longitude = text_element("longitude", String::from_str(self.longitude.literal()));
        let latitude = text_element("latitude", String::from_str(self.latitude.literal()));
        let mut altitude = text_element("altitude", integer_string(self.altitude.truncate()));
        set_attribute(&mut altitude, "mode", self.mode.to_string());
        let mut geo = element("geographic_location");
        push_child(&mut geo, longitude);
        push_child(&mut geo, latitude);
        push_child(&mut geo, altitude);
        assert(node(geo).children =~= self@.geographic().children);
        let mut root = element("coverage");
        push_child(&mut root, geo);
        assert(node(root).children =~= seq![self@.geographic()]);
        root
    }
}

} // verus!
