//! The asset block: authorship, dates, units and orientation of a document.

use crate::error::ColladaError;
use crate::error::Failure;
use crate::number::integer_text;
use crate::number::is_real;
use crate::number::Real;
use crate::records::contributor::Contributor;
use crate::records::contributor::ContributorView;
use crate::records::extra::extra_decoded;
use crate::records::extra::extra_encoded;
use crate::records::extra::extra_view;
use crate::records::extra::Extra;
use crate::records::extra::ExtraView;
use crate::records::location::Location;
use crate::records::location::LocationView;
use crate::text::join;
use crate::text::joined;
use crate::text::optional;
use crate::text::same;
use crate::text::split_into;
use crate::text::texts;
use crate::text::words;
use crate::traits::XmlConversion;
use crate::xml::attribute;
use crate::xml::attribute_copy;
use crate::xml::attribute_of;
use crate::xml::bare;
use crate::xml::children;
use crate::xml::element;
use crate::xml::first_child;
use crate::xml::has_child;
use crate::xml::leaf;
use crate::xml::node;
use crate::xml::nodes;
use crate::xml::optional_leaf;
use crate::xml::optional_node;
use crate::xml::push_child;
use crate::xml::push_optional;
use crate::xml::set_attribute;
use crate::xml::set_optional;
use crate::xml::tag;
use crate::xml::text;
use crate::xml::text_element;
use crate::xml::walk;
use crate::xml::with_optional;
use crate::xml::Node;
use vstd::prelude::*;
use vstd::string::StringExecFns;
use xmltree::Element;

verus! {

/// The distance unit of an asset.
#[derive(Debug)]
pub struct Unit {
    /// Name of the distance unit; it need not be a real-world measure.
    pub name: Option<String>,
    /// How many real-world meters make one distance unit.
    pub meter: Option<Real>,
}

/// A unit as a mathematical value: the scale by its literal.
pub struct UnitView {
    pub name: Option<Seq<char>>,
    pub meter: Option<Seq<char>>,
}

impl View for Unit {
    type V = UnitView;

    open spec fn view(&self) -> UnitView {
        UnitView {
            name: optional(self.name),
            meter: match self.meter {
                Some(m) => Some(m@),
                None => None,
            },
        }
    }
}

impl UnitView {
    /// The meter.
    pub open spec fn meter() -> UnitView {
        UnitView { name: Some("meter"@), meter: Some(integer_text(1)) }
    }

    /// Whether the scale, where there is one, is a literal.
    pub open spec fn well_formed(self) -> bool {
        self.meter matches Some(m) ==> is_real(m)
    }

    /// The unit that a `unit` element describes: its attributes `name` and
    /// `meter`, of which the second must be a number where it is there.
    pub open spec fn decoded(c: Node) -> Result<UnitView, Failure> {
        match attribute_of(c, "meter"@) {
            Some(m) => if is_real(m) {
                Ok(UnitView { name: attribute_of(c, "name"@), meter: Some(m) })
            } else {
                Err(Failure::ParseError)
            },
            None => Ok(UnitView { name: attribute_of(c, "name"@), meter: None }),
        }
    }

    /// The `unit` element of the unit: an attribute for each field that is
    /// set, and no text.
    pub open spec fn encoded(self) -> Node {
        Node {
            attributes: with_optional(
                with_optional(Map::empty(), "name"@, self.name),
                "meter"@,
                self.meter,
            ),
            ..bare("unit"@)
        }
    }
}

impl Unit {
    /// The meter.
    pub fn new() -> (r: Unit)
        ensures
            r@ == UnitView::meter(),
    {
        Unit { name: Some(String::from_str("meter")), meter: Some(Real::from_integer(1)) }
    }

    /// The unit that `e` describes.
    pub(crate) fn read(e: &Element) -> (r: Result<Unit, ColladaError>)
        ensures
            match UnitView::decoded(node(*e)) {
                Ok(v) => r is Ok && r->Ok_0@ == v,
                Err(f) => r is Err && r->Err_0@ == f,
            },
    {
        let name = attribute_copy(e, "name");
        let meter = match attribute(e, "meter") {
            Some(m) => match Real::parse(m.as_str()) {
                Some(x) => Some(x),
                None => {
                    return Err(ColladaError::ParseError);
                },
            },
            None => None,
        };
        Ok(Unit { name, meter })
    }

    /// The element that stands for the unit.
    pub(crate) fn write(&self) -> (e: Element)
        ensures
            node(e) == self@.encoded(),
    {
        let mut u = element("unit");
        set_optional(&mut u, "name", &self.name);
        match &self.meter {
            Some(m) => {
                set_attribute(&mut u, "meter", String::from_str(m.literal()));
            },
            None => {},
        }
        u
    }
}

impl XmlConversion for Unit {
    /// The attributes `name` and `meter` of the node, whatever its tag.
    open spec fn decoded(n: Node) -> Result<UnitView, Failure> {
        UnitView::decoded(n)
    }

    open spec fn encoded(v: UnitView) -> Node {
        v.encoded()
    }

    fn parse(&mut self, e: &Element) -> (r: Result<(), ColladaError>) {
        match Unit::read(e) {
            Ok(rec) => {
                *self = rec;
                Ok(())
            },
            Err(err) => Err(err),
        }
    }

    fn encode(&self) -> (e: Element) {
        self.write()
    }
}

/// Which axis points up in the right-handed coordinate system of an asset.
///
/// | Value | Right axis | Up axis    | In axis    |
/// | :---: | :--------: | :--------: | :--------: |
/// | X_UP  | Negative Y | Positive X | Positive Z |
/// | Y_UP  | Positive X | Positive Y | Positive Z |
/// | Z_UP  | Positive X | Positive Z | Negative Y |
#[derive(Debug)]
pub enum UpAxis {
    XUP,
    YUP,
    ZUP,
}

impl UpAxis {
    /// The literal that stands for the axis.
    pub open spec fn literal(self) -> Seq<char> {
        match self {
            UpAxis::XUP => "X_UP"@,
            UpAxis::YUP => "Y_UP"@,
            UpAxis::ZUP => "Z_UP"@,
        }
    }

    /// The axis that a literal stands for, if it stands for one.
    pub open spec fn named(s: Seq<char>) -> Option<UpAxis> {
        if s == "X_UP"@ {
            Some(UpAxis::XUP)
        } else if s == "Y_UP"@ {
            Some(UpAxis::YUP)
        } else if s == "Z_UP"@ {
            Some(UpAxis::ZUP)
        } else {
            None
        }
    }

    /// The literal that stands for the axis.
    pub fn to_string(&self) -> (r: String)
        ensures
            r@ == self.literal(),
    {
        match self {
            UpAxis::XUP => String::from_str("X_UP"),
            UpAxis::YUP => String::from_str("Y_UP"),
            UpAxis::ZUP => String::from_str("Z_UP"),
        }
    }

    /// The axis that a literal stands for, if it stands for one.
    pub fn from_literal(s: &str) -> (r: Option<UpAxis>)
        ensures
            r == UpAxis::named(s@),
    {
        if same(s, "X_UP") {
            Some(UpAxis::XUP)
        } else if same(s, "Y_UP") {
            Some(UpAxis::YUP)
        } else if same(s, "Z_UP") {
            Some(UpAxis::ZUP)
        } else {
            None
        }
    }
}

/// The children of an asset that carry a text.
#[derive(Clone, Copy, Debug)]
pub enum AssetText {
    Created,
    Keywords,
    Modified,
    Revision,
    Subject,
    Title,
    UpAxis,
}

/// The children that an asset may hold: four records of their own, and
/// those that carry a text.
#[derive(Clone, Copy, Debug)]
pub enum AssetChild {
    Contributor,
    Coverage,
    Extra,
    Unit,
    Text(AssetText),
}

impl AssetChild {
    /// The child that a tag names, if it names one.
    pub open spec fn named(name: Seq<char>) -> Option<AssetChild> {
        if name == "contributor"@ {
            Some(AssetChild::Contributor)
        } else if name == "coverage"@ {
            Some(AssetChild::Coverage)
        } else if name == "extra"@ {
            Some(AssetChild::Extra)
        } else if name == "unit"@ {
            Some(AssetChild::Unit)
        } else if name == "created"@ {
            Some(AssetChild::Text(AssetText::Created))
        } else if name == "keywords"@ {
            Some(AssetChild::Text(AssetText::Keywords))
        } else if name == "modified"@ {
            Some(AssetChild::Text(AssetText::Modified))
        } else if name == "revision"@ {
            Some(AssetChild::Text(AssetText::Revision))
        } else if name == "subject"@ {
            Some(AssetChild::Text(AssetText::Subject))
        } else if name == "title"@ {
            Some(AssetChild::Text(AssetText::Title))
        } else if name == "up_axis"@ {
            Some(AssetChild::Text(AssetText::UpAxis))
        } else {
            None
        }
    }

    /// Whether a child with the tag `name` is read for its text: one of the
    /// seven children of an asset that are no records of their own.
    pub open spec fn needs_text(name: Seq<char>) -> bool {
        AssetChild::named(name) matches Some(AssetChild::Text(_))
    }

    /// The child that a tag names, if it names one.
    pub fn of(name: &str) -> (r: Option<AssetChild>)
        ensures
            r == AssetChild::named(name@),
    {
        if same(name, "contributor") {
            Some(AssetChild::Contributor)
        } else if same(name, "coverage") {
            Some(AssetChild::Coverage)
        } else if same(name, "extra") {
            Some(AssetChild::Extra)
        } else if same(name, "unit") {
            Some(AssetChild::Unit)
        } else if same(name, "created") {
            Some(AssetChild::Text(AssetText::Created))
        } else if same(name, "keywords") {
            Some(AssetChild::Text(AssetText::Keywords))
        } else if same(name, "modified") {
            Some(AssetChild::Text(AssetText::Modified))
        } else if same(name, "revision") {
            Some(AssetChild::Text(AssetText::Revision))
        } else if same(name, "subject") {
            Some(AssetChild::Text(AssetText::Subject))
        } else if same(name, "title") {
            Some(AssetChild::Text(AssetText::Title))
        } else if same(name, "up_axis") {
            Some(AssetChild::Text(AssetText::UpAxis))
        } else {
            None
        }
    }
}

/// Asset information for the parent element.
#[derive(Debug)]
pub struct Asset {
    pub contributors: Vec<Contributor>,
    pub location: Option<Location>,
    pub created: String,
    pub keywords: Vec<String>,
    pub modified: String,
    pub revision: Option<String>,
    pub subject: Option<String>,
    pub title: Option<String>,
    pub unit: Option<Unit>,
    pub up_axis: Option<UpAxis>,
    pub extras: Vec<Extra>,
}

/// An asset as a mathematical value.
pub struct AssetView {
    pub contributors: Seq<ContributorView>,
    pub location: Option<LocationView>,
    pub created: Seq<char>,
    pub keywords: Seq<Seq<char>>,
    pub modified: Seq<char>,
    pub revision: Option<Seq<char>>,
    pub subject: Option<Seq<char>>,
    pub title: Option<Seq<char>>,
    pub unit: Option<UnitView>,
    pub up_axis: Option<UpAxis>,
    pub extras: Seq<ExtraView>,
}

/// The views of the extras from index `i` on.
pub open spec fn extras_view(xs: Seq<Extra>, i: int) -> Seq<ExtraView>
    decreases xs, xs.len() - i,
{
    if 0 <= i < xs.len() {
        seq![extra_view(xs[i])] + extras_view(xs, i + 1)
    } else {
        Seq::empty()
    }
}

/// The view of an asset.
pub open spec fn asset_view(a: Asset) -> AssetView
    decreases a, 0int,
{
    AssetView {
        contributors: a.contributors@.map_values(|c: Contributor| c@),
        location: match a.location {
            Some(l) => Some(l@),
            None => None,
        },
        created: a.created@,
        keywords: texts(a.keywords@),
        modified: a.modified@,
        revision: optional(a.revision),
        subject: optional(a.subject),
        title: optional(a.title),
        unit: match a.unit {
            Some(u) => Some(u@),
            None => None,
        },
        up_axis: a.up_axis,
        extras: extras_view(a.extras@, 0),
    }
}

impl View for Asset {
    type V = AssetView;

    open spec fn view(&self) -> AssetView {
        asset_view(*self)
    }
}

impl AssetView {
    /// The asset of which nothing is known.
    pub open spec fn empty() -> AssetView {
        AssetView {
            contributors: Seq::empty(),
            location: None,
            created: Seq::empty(),
            keywords: Seq::empty(),
            modified: Seq::empty(),
            revision: None,
            subject: None,
            title: None,
            unit: None,
            up_axis: None,
            extras: Seq::empty(),
        }
    }

    /// Reads the text of a child into the asset: what the text is depends on
    /// the child, and that of an `up_axis` must be the literal of an axis.
    pub open spec fn with_text(self, child: AssetText, t: Seq<char>) -> Result<
        AssetView,
        Failure,
    > {
        match child {
            AssetText::Created => Ok(AssetView { created: t, ..self }),
            AssetText::Keywords => Ok(AssetView { keywords: self.keywords + words(t), ..self }),
            AssetText::Modified => Ok(AssetView { modified: t, ..self }),
            AssetText::Revision => Ok(AssetView { revision: Some(t), ..self }),
            AssetText::Subject => Ok(AssetView { subject: Some(t), ..self }),
            AssetText::Title => Ok(AssetView { title: Some(t), ..self }),
            AssetText::UpAxis => match UpAxis::named(t) {
                Some(axis) => Ok(AssetView { up_axis: Some(axis), ..self }),
                None => Err(Failure::InvalidData { elem: "up_axis"@, data: t }),
            },
        }
    }
}

/// Reads one child into the asset. A child needs a tag that names a child
/// of an asset, whatever else it holds. A `contributor`, a `coverage`, an
/// `extra` or a `unit` is a record of its own; any other child needs a text.
pub open spec fn asset_step(s: AssetView, c: Node) -> Result<AssetView, Failure>
    decreases c, 1int,
{
    match AssetChild::named(c.name) {
        Some(AssetChild::Contributor) => match Contributor::decoded(c) {
            Ok(x) => Ok(AssetView { contributors: s.contributors.push(x), ..s }),
            Err(f) => Err(f),
        },
        Some(AssetChild::Coverage) => match Location::decoded(c) {
            Ok(l) => Ok(AssetView { location: Some(l), ..s }),
            Err(f) => Err(f),
        },
        Some(AssetChild::Extra) => match extra_decoded(c) {
            Ok(x) => Ok(AssetView { extras: s.extras.push(x), ..s }),
            Err(f) => Err(f),
        },
        Some(AssetChild::Unit) => match UnitView::decoded(c) {
            Ok(u) => Ok(AssetView { unit: Some(u), ..s }),
            Err(f) => Err(f),
        },
        Some(AssetChild::Text(child)) => match c.text {
            None => Err(Failure::MissingData { elem: c.name }),
            Some(t) => s.with_text(child, t),
        },
        None => Err(Failure::InvalidChild { child: c.name, parent: "asset"@ }),
    }
}

/// Reads the children from index `i` on into the asset `s`, in document
/// order: the asset after the last child, or the first failure. This is
/// `walk` with `asset_step`, see `lemma_asset_walk`.
pub open spec fn asset_walk(children: Seq<Node>, i: int, s: AssetView) -> Result<
    AssetView,
    Failure,
>
    decreases children, children.len() - i,
{
    if 0 <= i < children.len() {
        match asset_step(s, children[i]) {
            Ok(next) => asset_walk(children, i + 1, next),
            Err(f) => Err(f),
        }
    } else {
        Ok(s)
    }
}

/// Reading children into an asset is a walk that takes each child through
/// `asset_step`.
pub proof fn lemma_asset_walk(children: Seq<Node>, i: int, s: AssetView)
    ensures
        asset_walk(children, i, s) == walk(
            children,
            i,
            s,
            |s: AssetView, c: Node| asset_step(s, c),
        ),
    decreases children.len() - i,
{
    if 0 <= i < children.len() {
        match asset_step(s, children[i]) {
            Ok(next) => lemma_asset_walk(children, i + 1, next),
            Err(_) => {},
        }
    }
}

/// The date, `created` or `modified` in this order, that a node has no child
/// for, if there is one.
pub open spec fn undated(n: Node) -> Option<Seq<char>> {
    if !has_child(n, "created"@) {
        Some("created"@)
    } else if !has_child(n, "modified"@) {
        Some("modified"@)
    } else {
        None
    }
}

/// The asset that a node describes, whatever the tag of the node. Its
/// children are read in document order, and the first that fails decides.
/// Where all are read, there must be a `created` among them, and then a
/// `modified`. Where a child occurs twice, the later one counts, but for the
/// contributors, the keywords and the extras, which add up.
pub open spec fn asset_decoded(n: Node) -> Result<AssetView, Failure>
    decreases n, 0int,
{
    match asset_walk(n.children, 0, AssetView::empty()) {
        Err(f) => Err(f),
        Ok(v) => match undated(n) {
            Some(name) => Err(Failure::MissingElement { structure: "asset"@, elem: name }),
            None => Ok(v),
        },
    }
}

/// The nodes that stand for the extras from index `i` on.
pub open spec fn extras_encoded(xs: Seq<ExtraView>, i: int) -> Seq<Node>
    decreases xs, xs.len() - i,
{
    if 0 <= i < xs.len() {
        seq![extra_encoded(xs[i])] + extras_encoded(xs, i + 1)
    } else {
        Seq::empty()
    }
}

/// The node that stands for an asset. Its children come in a fixed order:
/// the contributors, the location, `created`, `keywords`, `modified`, then
/// `revision`, `subject`, `title`, the unit and `up_axis` as far as they are
/// set, then the extras.
pub open spec fn asset_encoded(v: AssetView) -> Node
    decreases v, 0int,
{
    Node {
        children: v.contributors.map_values(|c: ContributorView| Contributor::encoded(c))
            + optional_node(
            match v.location {
                Some(l) => Some(Location::encoded(l)),
                None => None,
            },
        ) + seq![
            leaf("created"@, v.created),
            leaf("keywords"@, joined(v.keywords)),
            leaf("modified"@, v.modified),
        ] + optional_leaf("revision"@, v.revision) + optional_leaf("subject"@, v.subject)
            + optional_leaf("title"@, v.title) + optional_node(
            match v.unit {
                Some(u) => Some(u.encoded()),
                None => None,
            },
        ) + optional_leaf(
            "up_axis"@,
            match v.up_axis {
                Some(axis) => Some(axis.literal()),
                None => None,
            },
        ) + extras_encoded(v.extras, 0),
        ..bare("asset"@)
    }
}

/// `extras_view` item by item.
pub proof fn lemma_extras_view(xs: Seq<Extra>, i: int)
    requires
        0 <= i <= xs.len(),
    ensures
        extras_view(xs, i).len() == xs.len() - i,
        forall|j: int|
            0 <= j < xs.len() - i ==> #[trigger] extras_view(xs, i)[j] == extra_view(xs[i + j]),
    decreases xs.len() - i,
{
    if i < xs.len() {
        lemma_extras_view(xs, i + 1);
        assert forall|j: int| 0 <= j < xs.len() - i implies #[trigger] extras_view(xs, i)[j]
            == extra_view(xs[i + j]) by {
            if j > 0 {
                assert(extras_view(xs, i)[j] == extras_view(xs, i + 1)[j - 1]);
            }
        }
    }
}

/// `extras_encoded` item by item.
pub proof fn lemma_extras_encoded(xs: Seq<ExtraView>, i: int)
    requires
        0 <= i <= xs.len(),
    ensures
        extras_encoded(xs, i).len() == xs.len() - i,
        forall|j: int|
            0 <= j < xs.len() - i ==> #[trigger] extras_encoded(xs, i)[j] == extra_encoded(
                xs[i + j],
            ),
    decreases xs.len() - i,
{
    if i < xs.len() {
        lemma_extras_encoded(xs, i + 1);
        assert forall|j: int| 0 <= j < xs.len() - i implies #[trigger] extras_encoded(xs, i)[j]
            == extra_encoded(xs[i + j]) by {
            if j > 0 {
                assert(extras_encoded(xs, i)[j] == extras_encoded(xs, i + 1)[j - 1]);
            }
        }
    }
}

impl Asset {
    /// An asset of which nothing is known.
    pub fn new() -> (r: Asset)
        ensures
            r@ == AssetView::empty(),
    {
        let r = Asset {
            contributors: Vec::new(),
            location: None,
            created: String::new(),
            keywords: Vec::new(),
            modified: String::new(),
            revision: None,
            subject: None,
            title: None,
            unit: None,
            up_axis: None,
            extras: Vec::new(),
        };
        assert(r@.contributors =~= Seq::empty());
        assert(r@.keywords =~= Seq::empty());
        r
    }

    /// Reads the text of a child into the asset.
    fn take_text(&mut self, child: AssetText, t: &String) -> (r: Result<(), ColladaError>)
        ensures
            match old(self)@.with_text(child, t@) {
                Ok(v) => r is Ok && final(self)@ == v,
                Err(f) => r is Err && r->Err_0@ == f,
            },
    {
        match child {
            AssetText::Created => {
                self.created = t.clone();
            },
            AssetText::Keywords => {
                split_into(t.as_str(), &mut self.keywords);
            },
            AssetText::Modified => {
                self.modified = t.clone();
            },
            AssetText::Revision => {
                self.revision = Some(t.clone());
            },
            AssetText::Subject => {
                self.subject = Some(t.clone());
            },
            AssetText::Title => {
                self.title = Some(t.clone());
            },
            AssetText::UpAxis => match UpAxis::from_literal(t.as_str()) {
                Some(axis) => {
                    self.up_axis = Some(axis);
                },
                None => {
                    return Err(
                        ColladaError::InvalidData {
                            elem: String::from_str("up_axis"),
                            data: t.clone(),
                        },
                    );
                },
            },
        }
        Ok(())
    }

    /// Reads one child into the asset.
    fn take(&mut self, c: &Element) -> (r: Result<(), ColladaError>)
        ensures
            match asset_step(old(self)@, node(*c)) {
                Ok(v) => r is Ok && final(self)@ == v,
                Err(f) => r is Err && r->Err_0@ == f,
            },
        decreases node(*c), 1int,
    {
        let name = tag(c);
        match AssetChild::of(name) {
            Some(AssetChild::Contributor) => match Contributor::read(c) {
                Ok(x) => {
                    assert(self.contributors@.push(x).map_values(|c: Contributor| c@)
                        =~= self.contributors@.map_values(|c: Contributor| c@).push(x@));
                    self.contributors.push(x);
                    Ok(())
                },
                Err(err) => Err(err),
            },
            Some(AssetChild::Coverage) => match Location::read(c) {
                Ok(l) => {
                    self.location = Some(l);
                    Ok(())
                },
                Err(err) => Err(err),
            },
            Some(AssetChild::Extra) => match Extra::read(c) {
                Ok(x) => {
                    proof {
                        let before = self.extras@;
                        let after = before.push(x);
                        lemma_extras_view(before, 0);
                        lemma_extras_view(after, 0);
                        assert(extras_view(after, 0) =~= extras_view(before, 0).push(x@));
                    }
                    self.extras.push(x);
                    Ok(())
                },
                Err(err) => Err(err),
            },
            Some(AssetChild::Unit) => match Unit::read(c) {
                Ok(u) => {
                    self.unit = Some(u);
                    Ok(())
                },
                Err(err) => Err(err),
            },
            Some(AssetChild::Text(child)) => match text(c) {
                Some(t) => self.take_text(child, t),
                None => Err(ColladaError::MissingData { elem: String::from_str(name) }),
            },
            None => Err(
                ColladaError::InvalidChild {
                    child: String::from_str(name),
                    parent: String::from_str("asset"),
                },
            ),
        }
    }

    /// The asset that `e` describes.
    pub(crate) fn read(e: &Element) -> (r: Result<Asset, ColladaError>)
        ensures
            match asset_decoded(node(*e)) {
                Ok(v) => r is Ok && r->Ok_0@ == v,
                Err(f) => r is Err && r->Err_0@ == f,
            },
        decreases node(*e), 2int,
    {
        let cs = children(e);
        let ghost run = asset_walk(node(*e).children, 0, AssetView::empty());
        let mut rec = Asset::new();
        let mut i: usize = 0;
        while i < cs.len()
            invariant
                i <= cs.len(),
                nodes(cs@) == node(*e).children,
                run == asset_walk(node(*e).children, 0, AssetView::empty()),
                asset_walk(node(*e).children, i as int, rec@) == run,
            decreases cs.len() - i,
        {
            assert(nodes(cs@)[i as int] == node(cs@[i as int]));
            match rec.take(&cs[i]) {
                Ok(_) => {},
                Err(err) => {
                    return Err(err);
                },
            }
            i = i + 1;
        }
        if first_child(e, "created").is_none() {
            return Err(Asset::lacks("created"));
        }
        if first_child(e, "modified").is_none() {
            return Err(Asset::lacks("modified"));
        }
        Ok(rec)
    }

    /// The failure for a date that is not there.
    fn lacks(name: &str) -> (r: ColladaError)
        ensures
            r@ == (Failure::MissingElement { structure: "asset"@, elem: name@ }),
    {
        ColladaError::MissingElement {
            structure: String::from_str("asset"),
            elem: String::from_str(name),
        }
    }

    /// The element that stands for the asset.
    pub(crate) fn write(&self) -> (e: Element)
        ensures
            node(e) == asset_encoded(self@),
        decreases self, 1int,
    {
        let mut a = element("asset");
        let ghost people = self@.contributors.map_values(
            |c: ContributorView| Contributor::encoded(c),
        );
        let mut i: usize = 0;
        assert(people.take(0) =~= Seq::<Node>::empty());
        while i < self.contributors.len()
            invariant
                i <= self.contributors.len(),
                people == self@.contributors.map_values(
                    |c: ContributorView| Contributor::encoded(c),
                ),
                node(a) == (Node { children: people.take(i as int), ..bare("asset"@) }),
            decreases self.contributors.len() - i,
        {
            let child = self.contributors[i].encode();
            assert(people.take(i + 1) =~= people.take(i as int).push(node(child)));
            push_child(&mut a, child);
            i = i + 1;
        }
        assert(people.take(i as int) =~= people);
        let ghost place = optional_node(
            match self@.location {
                Some(l) => Some(Location::encoded(l)),
                None => None,
            },
        );
        match &self.location {
            Some(l) => {
                let child = l.encode();
                push_child(&mut a, child);
            },
            None => {},
        }
        assert(node(a).children =~= people + place);
        let ghost dates = seq![
            leaf("created"@, self@.created),
            leaf("keywords"@, joined(self@.keywords)),
            leaf("modified"@, self@.modified),
        ];
        push_child(&mut a, text_element("created", self.created.clone()));
        push_child(&mut a, text_element("keywords", join(&self.keywords)));
        push_child(&mut a, text_element("modified", self.modified.clone()));
        assert(node(a).children =~= people + place + dates);
        push_optional(&mut a, "revision", &self.revision);
        push_optional(&mut a, "subject", &self.subject);
        push_optional(&mut a, "title", &self.title);
        let ghost measure = optional_node(
            match self@.unit {
                Some(u) => Some(u.encoded()),
                None => None,
            },
        );
        let ghost before_unit = node(a).children;
        match &self.unit {
            Some(u) => {
                let child = u.write();
                push_child(&mut a, child);
            },
            None => {},
        }
        assert(node(a).children =~= before_unit + measure);
        let axis = match &self.up_axis {
            Some(axis) => Some(axis.to_string()),
            None => None,
        };
        push_optional(&mut a, "up_axis", &axis);
        let ghost front = node(a).children;
        let ghost rest = extras_encoded(self@.extras, 0);
        proof {
            lemma_extras_view(self.extras@, 0);
            lemma_extras_encoded(self@.extras, 0);
        }
        let mut j: usize = 0;
        while j < self.extras.len()
            invariant
                j <= self.extras.len(),
                rest == extras_encoded(self@.extras, 0),
                rest.len() == self.extras.len(),
                forall|k: int|
                    0 <= k < self.extras.len() ==> #[trigger] rest[k] == extra_encoded(
                        extra_view(self.extras@[k]),
                    ),
                node(a) == (Node { children: front + rest.take(j as int), ..bare("asset"@) }),
            decreases self.extras.len() - j,
        {
            let child = self.extras[j].write();
            assert(rest.take(j + 1) =~= rest.take(j as int).push(node(child)));
            push_child(&mut a, child);
            assert(front + rest.take(j as int).push(node(child)) =~= (front + rest.take(
                j as int,
            )).push(node(child)));
            j = j + 1;
        }
        assert(rest.take(j as int) =~= rest);
        a
    }
}

impl XmlConversion for Asset {
    /// The asset that a node describes, see `asset_decoded`.
    open spec fn decoded(n: Node) -> Result<AssetView, Failure> {
        asset_decoded(n)
    }

    open spec fn encoded(v: AssetView) -> Node {
        asset_encoded(v)
    }

    fn parse(&mut self, e: &Element) -> (r: Result<(), ColladaError>) {
        match Asset::read(e) {
            Ok(rec) => {
                *self = rec;
                Ok(())
            },
            Err(err) => Err(err),
        }
    }

    fn encode(&self) -> (e: Element) {
        self.write()
    }
}

} // verus!
