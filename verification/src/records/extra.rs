//! Additional information attached to an asset, for particular platforms.

use crate::error::ColladaError;
use crate::error::Failure;
use crate::records::asset::asset_encoded;
use crate::records::asset::asset_view;
use crate::records::asset::asset_decoded;
use crate::records::asset::Asset;
use crate::records::asset::AssetView;
use crate::records::technique::Technique;
use crate::records::technique::TechniqueView;
use crate::text::optional;
use crate::text::same;
use crate::traits::XmlConversion;
use crate::xml::attribute_copy;
use crate::xml::attribute_of;
use crate::xml::bare;
use crate::xml::children;
use crate::xml::element;
use crate::xml::first_child;
use crate::xml::has_child;
use crate::xml::node;
use crate::xml::nodes;
use crate::xml::optional_node;
use crate::xml::position;
use crate::xml::push_child;
use crate::xml::set_optional;
use crate::xml::tag;
use crate::xml::walk;
use crate::xml::with_optional;
use crate::xml::Node;
use vstd::prelude::*;
use vstd::string::StringExecFns;
use xmltree::Element;

verus! {

/// Provides arbitrary additional information about or related to its parent.
#[derive(Debug)]
pub struct Extra {
    pub id: Option<String>,
    pub name: Option<String>,
    pub typ: Option<String>,
    pub asset: Option<Asset>,
    pub techniques: Vec<Technique>,
}

/// An extra as a mathematical value.
pub struct ExtraView {
    pub id: Option<Seq<char>>,
    pub name: Option<Seq<char>>,
    pub typ: Option<Seq<char>>,
    pub asset: Option<AssetView>,
    pub techniques: Seq<TechniqueView>,
}

/// The view of an extra.
pub open spec fn extra_view(x: Extra) -> ExtraView
    decreases x, 0int,
{
    ExtraView {
        id: optional(x.id),
        name: optional(x.name),
        typ: optional(x.typ),
        asset: match x.asset {
            Some(a) => Some(asset_view(a)),
            None => None,
        },
        techniques: x.techniques@.map_values(|t: Technique| t@),
    }
}

impl View for Extra {
    type V = ExtraView;

    open spec fn view(&self) -> ExtraView {
        extra_view(*self)
    }
}

/// The children that an `extra` may hold.
#[derive(Clone, Copy, Debug)]
pub enum ExtraChild {
    Technique,
    Asset,
}

impl ExtraChild {
    /// The child that a tag names, if it names one.
    pub open spec fn named(name: Seq<char>) -> Option<ExtraChild> {
        if name == "technique"@ {
            Some(ExtraChild::Technique)
        } else if name == "asset"@ {
            Some(ExtraChild::Asset)
        } else {
            None
        }
    }

    /// The child that a tag names, if it names one.
    pub fn of(name: &str) -> (r: Option<ExtraChild>)
        ensures
            r == ExtraChild::named(name@),
    {
        if same(name, "technique") {
            Some(ExtraChild::Technique)
        } else if same(name, "asset") {
            Some(ExtraChild::Asset)
        } else {
            None
        }
    }
}

/// Reads one child of an `extra` into its techniques: a `technique` joins
/// them, an `asset` is passed over, and nothing else may stand there.
pub open spec fn technique_step(acc: Seq<TechniqueView>, c: Node) -> Result<
    Seq<TechniqueView>,
    Failure,
> {
    match ExtraChild::named(c.name) {
        Some(ExtraChild::Technique) => match Technique::decoded(c) {
            Ok(t) => Ok(acc.push(t)),
            Err(f) => Err(f),
        },
        Some(ExtraChild::Asset) => Ok(acc),
        None => Err(Failure::InvalidChild { child: c.name, parent: "extra"@ }),
    }
}

/// The extra that a node describes, whatever the tag of the node: its
/// attributes `id`, `name` and `type`, the asset of its first `asset` child,
/// and its `technique` children, of which there must be one at least. The
/// asset is read first, so its failure comes before the lack of a technique,
/// and that before the failure of a child.
pub open spec fn extra_decoded(n: Node) -> Result<ExtraView, Failure>
    decreases n, 0int,
{
    let k = position(n.children, "asset"@, 0);
    let asset = if 0 <= k < n.children.len() {
        match asset_decoded(n.children[k]) {
            Ok(a) => Ok(Some(a)),
            Err(f) => Err(f),
        }
    } else {
        Ok(None)
    };
    match asset {
        Err(f) => Err(f),
        Ok(a) => if !has_child(n, "technique"@) {
            Err(Failure::MissingElement { structure: "extra"@, elem: "technique"@ })
        } else {
            match walk(
                n.children,
                0,
                Seq::empty(),
                |acc: Seq<TechniqueView>, c: Node| technique_step(acc, c),
            ) {
                Ok(techniques) => Ok(
                    ExtraView {
                        id: attribute_of(n, "id"@),
                        name: attribute_of(n, "name"@),
                        typ: attribute_of(n, "type"@),
                        asset: a,
                        techniques,
                    },
                ),
                Err(f) => Err(f),
            }
        },
    }
}

/// The node that stands for an extra: the attributes that are set, then the
/// asset if there is one, then the techniques in their order.
pub open spec fn extra_encoded(x: ExtraView) -> Node
    decreases x, 0int,
{
    Node {
        attributes: with_optional(
            with_optional(with_optional(Map::empty(), "id"@, x.id), "name"@, x.name),
            "type"@,
            x.typ,
        ),
        children: optional_node(
            match x.asset {
                Some(a) => Some(asset_encoded(a)),
                None => None,
            },
        ) + x.techniques.map_values(|t: TechniqueView| t.data),
        ..bare("extra"@)
    }
}

impl ExtraView {
    /// The extra without attributes, asset or techniques.
    pub open spec fn empty() -> ExtraView {
        ExtraView { id: None, name: None, typ: None, asset: None, techniques: Seq::empty() }
    }
}

impl Extra {
    /// An extra without attributes, asset or techniques.
    pub fn new() -> (r: Extra)
        ensures
            r@ == ExtraView::empty(),
    {
        let r = Extra { id: None, name: None, typ: None, asset: None, techniques: Vec::new() };
        assert(r@.techniques =~= Seq::empty());
        r
    }

    /// The extra that `e` describes.
    pub(crate) fn read(e: &Element) -> (r: Result<Extra, ColladaError>)
        ensures
            match extra_decoded(node(*e)) {
                Ok(v) => r is Ok && r->Ok_0@ == v,
                Err(f) => r is Err && r->Err_0@ == f,
            },
        decreases node(*e), 0int,
    {
        let id = attribute_copy(e, "id");
        let name = attribute_copy(e, "name");
        let typ = attribute_copy(e, "type");
        let asset = match first_child(e, "asset") {
            Some(inner) => match Asset::read(inner) {
                Ok(a) => Some(a),
                Err(err) => {
                    return Err(err);
                },
            },
            None => None,
        };
        if first_child(e, "technique").is_none() {
            return Err(
                ColladaError::MissingElement {
                    structure: String::from_str("extra"),
                    elem: String::from_str("technique"),
                },
            );
        }
        let cs = children(e);
        let ghost step = |acc: Seq<TechniqueView>, c: Node| technique_step(acc, c);
        let ghost whole = walk(nodes(cs@), 0, Seq::<TechniqueView>::empty(), step);
        let mut techniques: Vec<Technique> = Vec::new();
        let mut i: usize = 0;
        assert(techniques@.map_values(|t: Technique| t@) =~= Seq::<TechniqueView>::empty());
        while i < cs.len()
            invariant
                i <= cs.len(),
                step == |acc: Seq<TechniqueView>, c: Node| technique_step(acc, c),
                walk(nodes(cs@), i as int, techniques@.map_values(|t: Technique| t@), step)
                    == whole,
                whole is Err ==> extra_decoded(node(*e)) == Err::<ExtraView, Failure>(
                    whole->Err_0,
                ),
            decreases cs.len() - i,
        {
            let c = &cs[i];
            assert(nodes(cs@)[i as int] == node(*c));
            let name = tag(c);
            match ExtraChild::of(name) {
                Some(ExtraChild::Technique) => match Technique::read(c) {
                    Ok(t) => {
                        assert(techniques@.push(t).map_values(|t: Technique| t@)
                            =~= techniques@.map_values(|t: Technique| t@).push(t@));
                        techniques.push(t);
                    },
                    Err(err) => {
                        return Err(err);
                    },
                },
                Some(ExtraChild::Asset) => {},
                None => {
                    return Err(
                        ColladaError::InvalidChild {
                            child: String::from_str(name),
                            parent: String::from_str("extra"),
                        },
                    );
                },
            }
            i = i + 1;
        }
        Ok(Extra { id, name, typ, asset, techniques })
    }

    /// The element that stands for the extra.
    pub(crate) fn write(&self) -> (e: Element)
        ensures
            node(e) == extra_encoded(self@),
        decreases self, 0int,
    {
        let mut ext = element("extra");
        set_optional(&mut ext, "id", &self.id);
        set_optional(&mut ext, "name", &self.name);
        set_optional(&mut ext, "type", &self.typ);
        match &self.asset {
            Some(a) => {
                push_child(&mut ext, a.write());
            },
            None => {},
        }
        let ghost front = node(ext).children;
        let ghost data = self@.techniques.map_values(|t: TechniqueView| t.data);
        assert(front =~= optional_node(
            match self@.asset {
                Some(a) => Some(asset_encoded(a)),
                None => None,
            },
        ));
        let mut i: usize = 0;
        while i < self.techniques.len()
            invariant
                i <= self.techniques.len(),
                data == self@.techniques.map_values(|t: TechniqueView| t.data),
                node(ext) == (Node { children: front + data.take(i as int), ..node(ext) }),
                node(ext).attributes == extra_encoded(self@).attributes,
                node(ext) == (Node {
                    attributes: node(ext).attributes,
                    children: node(ext).children,
                    ..bare("extra"@)
                }),
            decreases self.techniques.len() - i,
        {
            let child = self.techniques[i].encode();
            assert(data.take(i + 1) =~= data.take(i as int).push(node(child)));
            push_child(&mut ext, child);
            assert(front + data.take(i as int).push(node(child)) =~= (front + data.take(
                i as int,
            )).push(node(child)));
            i = i + 1;
        }
        assert(data.take(i as int) =~= data);
        ext
    }
}

impl XmlConversion for Extra {
    open spec fn decoded(n: Node) -> Result<ExtraView, Failure> {
        extra_decoded(n)
    }

    open spec fn encoded(v: ExtraView) -> Node {
        extra_encoded(v)
    }

    fn parse(&mut self, e: &Element) -> (r: Result<(), ColladaError>) {
        match Extra::read(e) {
            Ok(rec) => {
                *self = rec;
                Ok(())
            },
            Err(err) => Err(err),
        }
    }

    fn encode(&self) -> (e: Element) {
        self.write()
    }
}

} // verus!
