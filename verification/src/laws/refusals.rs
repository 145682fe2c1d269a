//! What a record needs, and what it does not take: the failure that follows
//! where a node that reads well loses a part or gains a stranger.

use crate::error::Failure;
use crate::laws::tags::lemma_tags;
use crate::records::asset::asset_step;
use crate::records::asset::lemma_asset_walk;
use crate::records::asset::Asset;
use crate::records::asset::AssetChild;
use crate::records::asset::AssetView;
use crate::records::contributor::Contributor;
use crate::records::contributor::ContributorField;
use crate::records::contributor::ContributorView;
use crate::records::extra::technique_step;
use crate::records::extra::Extra;
use crate::records::extra::ExtraChild;
use crate::records::location::Coordinate;
use crate::records::location::Location;
use crate::records::location::LocationView;
use crate::records::technique::Technique;
use crate::records::technique::TechniqueView;
use crate::traits::XmlConversion;
use crate::xml::decides_by_child;
use crate::xml::has_child;
use crate::xml::lemma_has_child;
use crate::xml::lemma_walk_without;
use crate::xml::lemma_walk_refused;
use crate::xml::position;
use crate::xml::Node;
use vstd::prelude::*;

verus! {

/// The node `n` with other children.
pub open spec fn with_children(n: Node, children: Seq<Node>) -> Node {
    Node { children, ..n }
}

/// The node `n` without its text.
pub open spec fn without_text(n: Node) -> Node {
    Node { text: None, ..n }
}

/// The node `n` without the attribute `key`.
pub open spec fn without_attribute(n: Node, key: Seq<char>) -> Node {
    Node { attributes: n.attributes.remove(key), ..n }
}

/// A contributor needs the tag `contributor`.
pub proof fn lemma_contributor_needs_tag(n: Node)
    requires
        n.name != "contributor"@,
    ensures
        Contributor::decoded(n) == Err::<ContributorView, Failure>(
            Failure::MissingElement { structure: "contributor"@, elem: "contributor"@ },
        ),
{
}

/// In a contributor every child needs a text: where a node that reads well
/// loses the text of one child, it is refused for the data that this child
/// is missing.
pub proof fn lemma_contributor_needs_text(n: Node, k: int)
    requires
        Contributor::decoded(n) is Ok,
        0 <= k < n.children.len(),
    ensures
        Contributor::decoded(
            with_children(n, n.children.update(k, without_text(n.children[k]))),
        ) == Err::<ContributorView, Failure>(Failure::MissingData { elem: n.children[k].name }),
{
    lemma_walk_refused(
        n.children,
        n.children.update(k, without_text(n.children[k])),
        k,
        Failure::MissingData { elem: n.children[k].name },
        0,
        ContributorView::empty(),
        |s: ContributorView, c: Node| s.step(c),
    );
}

/// A contributor takes no child but the seven that it knows: where a node
/// that reads well gains, at any place, a child with a text and another
/// tag, it is refused for that child.
pub proof fn lemma_contributor_unknown_child(n: Node, k: int, c: Node)
    requires
        Contributor::decoded(n) is Ok,
        0 <= k <= n.children.len(),
        ContributorField::named(c.name) is None,
        c.text is Some,
    ensures
        Contributor::decoded(with_children(n, n.children.insert(k, c))) == Err::<
            ContributorView,
            Failure,
        >(Failure::InvalidChild { child: c.name, parent: "contributor"@ }),
{
    lemma_walk_refused(
        n.children,
        n.children.insert(k, c),
        k,
        Failure::InvalidChild { child: c.name, parent: "contributor"@ },
        0,
        ContributorView::empty(),
        |s: ContributorView, c: Node| s.step(c),
    );
}

/// A technique needs the tag `technique`.
pub proof fn lemma_technique_needs_tag(n: Node)
    requires
        n.name != "technique"@,
    ensures
        Technique::decoded(n) == Err::<TechniqueView, Failure>(
            Failure::MissingElement { structure: "technique"@, elem: "technique"@ },
        ),
{
}

/// A technique needs its profile: where a node that reads well loses the
/// attribute `profile`, it is refused for that attribute.
pub proof fn lemma_technique_needs_profile(n: Node)
    requires
        Technique::decoded(n) is Ok,
    ensures
        Technique::decoded(without_attribute(n, "profile"@)) == Err::<TechniqueView, Failure>(
            Failure::MissingAttr { elem: "technique"@, attr: "profile"@ },
        ),
{
}

/// A location needs the tag `coverage`.
pub proof fn lemma_location_needs_tag(n: Node)
    requires
        n.name != "coverage"@,
    ensures
        Location::decoded(n) == Err::<LocationView, Failure>(
            Failure::MissingElement { structure: "location"@, elem: "coverage"@ },
        ),
{
}

/// A location needs its `geographic_location`: where a node that reads well
/// loses its child, it is refused for that element.
pub proof fn lemma_location_needs_geographic_location(n: Node)
    requires
        Location::decoded(n) is Ok,
    ensures
        Location::decoded(with_children(n, Seq::empty())) == Err::<LocationView, Failure>(
            Failure::MissingElement { structure: "location"@, elem: "geographic_location"@ },
        ),
{
}

/// The node `n`, a `coverage`, with other children in its
/// `geographic_location`.
pub open spec fn with_coordinates(n: Node, children: Seq<Node>) -> Node {
    with_children(n, seq![with_children(n.children[0], children)])
}

/// In a `geographic_location` every coordinate needs a text: where a node
/// that reads well loses the text of one of the three, it is refused for the
/// data that this child is missing.
pub proof fn lemma_location_needs_text(n: Node, k: int)
    requires
        Location::decoded(n) is Ok,
        0 <= k < 3,
    ensures
        ({
            let geo = n.children[0];
            Location::decoded(
                with_coordinates(n, geo.children.update(k, without_text(geo.children[k]))),
            ) == Err::<LocationView, Failure>(Failure::MissingData { elem: geo.children[k].name })
        }),
{
    let geo = n.children[0];
    let step = |s: LocationView, c: Node| s.step(c);
    lemma_walk_prefix(geo.children, k, 0, LocationView::origin(), step);
    lemma_walk_refused(
        geo.children,
        geo.children.update(k, without_text(geo.children[k])),
        k,
        Failure::MissingData { elem: geo.children[k].name },
        0,
        LocationView::origin(),
        step,
    );
}

/// An altitude needs its mode: where a node that reads well loses the
/// attribute `mode` of an `altitude`, it is refused for that attribute.
pub proof fn lemma_location_needs_mode(n: Node, k: int)
    requires
        Location::decoded(n) is Ok,
        0 <= k < 3,
        n.children[0].children[k].name == "altitude"@,
    ensures
        ({
            let geo = n.children[0];
            Location::decoded(
                with_coordinates(
                    n,
                    geo.children.update(k, without_attribute(geo.children[k], "mode"@)),
                ),
            ) == Err::<LocationView, Failure>(
                Failure::MissingAttr { elem: "altitude"@, attr: "mode"@ },
            )
        }),
{
    lemma_tags();
    let geo = n.children[0];
    let step = |s: LocationView, c: Node| s.step(c);
    let changed = geo.children.update(k, without_attribute(geo.children[k], "mode"@));
    lemma_walk_prefix(geo.children, k, 0, LocationView::origin(), step);
    lemma_walk_refused(
        geo.children,
        changed,
        k,
        Failure::MissingAttr { elem: "altitude"@, attr: "mode"@ },
        0,
        LocationView::origin(),
        step,
    );
}

/// A location needs each of its three coordinates: where a node that reads
/// well loses one of the three children of its `geographic_location`, it is
/// refused for the element that is missing, by its name.
pub proof fn lemma_location_needs_coordinate(n: Node, k: int)
    requires
        Location::decoded(n) is Ok,
        0 <= k < 3,
    ensures
        ({
            let geo = n.children[0];
            Location::decoded(with_coordinates(n, geo.children.remove(k))) == Err::<
                LocationView,
                Failure,
            >(Failure::MissingElement { structure: "location"@, elem: geo.children[k].name })
        }),
{
    lemma_tags();
    let geo = n.children[0];
    let step = |s: LocationView, c: Node| s.step(c);
    let rest = geo.children.remove(k);
    let left = with_children(geo, rest);
    assert(decides_by_child(step));
    lemma_walk_without(geo.children, k, 0, LocationView::origin(), LocationView::origin(), step);
    lemma_walk_prefix(geo.children, k, 0, LocationView::origin(), step);
    lemma_has_child(geo, "longitude"@);
    lemma_has_child(geo, "latitude"@);
    lemma_has_child(geo, "altitude"@);
    lemma_has_child(left, "longitude"@);
    lemma_has_child(left, "latitude"@);
    lemma_has_child(left, "altitude"@);
    let a = choose|j: int| 0 <= j < 3 && (#[trigger] geo.children[j]).name == "longitude"@;
    let b = choose|j: int| 0 <= j < 3 && (#[trigger] geo.children[j]).name == "latitude"@;
    let c = choose|j: int| 0 <= j < 3 && (#[trigger] geo.children[j]).name == "altitude"@;
    assert(a != b && b != c && a != c);
    assert(rest.len() == 2);
    assert(rest[0] == geo.children[if k == 0 { 1int } else { 0int }]);
    assert(rest[1] == geo.children[if k == 2 { 1int } else { 2int }]);
}

/// A `geographic_location` takes no child but the three that it knows: where
/// a node that reads well gains there, at any place, a child with another
/// tag, it is refused for that child, whatever the child holds.
pub proof fn lemma_location_unknown_child(n: Node, k: int, c: Node)
    requires
        Location::decoded(n) is Ok,
        0 <= k <= 3,
        Coordinate::named(c.name) is None,
    ensures
        Location::decoded(with_coordinates(n, n.children[0].children.insert(k, c))) == Err::<
            LocationView,
            Failure,
        >(Failure::InvalidChild { child: c.name, parent: "geographic_location"@ }),
{
    let geo = n.children[0];
    lemma_walk_refused(
        geo.children,
        geo.children.insert(k, c),
        k,
        Failure::InvalidChild { child: c.name, parent: "geographic_location"@ },
        0,
        LocationView::origin(),
        |s: LocationView, c: Node| s.step(c),
    );
}

/// Where a reading does not fail, the child at `k` is not refused in the
/// state that the reading has reached there.
proof fn lemma_walk_prefix<S>(
    children: Seq<Node>,
    k: int,
    i: int,
    s: S,
    step: spec_fn(S, Node) -> Result<S, Failure>,
)
    requires
        0 <= i <= k < children.len(),
        crate::xml::walk(children, i, s, step) is Ok,
    ensures
        exists|t: S| (#[trigger] step(t, children[k])) is Ok,
    decreases k - i,
{
    if i < k {
        lemma_walk_prefix(children, k, i + 1, step(s, children[i])->Ok_0, step);
    } else {
        assert(step(s, children[k]) is Ok);
    }
}

/// An extra needs a technique: a node without a `technique` child, whose
/// first `asset` child, if it has one, reads well, is refused for that
/// element.
pub proof fn lemma_extra_needs_technique(n: Node)
    requires
        !has_child(n, "technique"@),
        has_child(n, "asset"@) ==> Asset::decoded(
            n.children[position(n.children, "asset"@, 0)],
        ) is Ok,
    ensures
        Extra::decoded(n) == Err::<crate::records::extra::ExtraView, Failure>(
            Failure::MissingElement { structure: "extra"@, elem: "technique"@ },
        ),
{
}

/// What `position` finds lies at or behind the index from which it seeks.
proof fn lemma_position_bounds(children: Seq<Node>, name: Seq<char>, from: int)
    requires
        0 <= from <= children.len(),
    ensures
        from <= position(children, name, from) <= children.len(),
    decreases children.len() - from,
{
    if from < children.len() && children[from].name != name {
        lemma_position_bounds(children, name, from + 1);
    }
}

/// Behind a child that was put in at `k`, everything is found one place
/// further on.
proof fn lemma_position_behind(children: Seq<Node>, name: Seq<char>, k: int, c: Node, from: int)
    requires
        0 <= k <= from,
        k <= children.len(),
    ensures
        position(children.insert(k, c), name, from + 1) == position(children, name, from) + 1,
    decreases children.len() - from,
{
    let longer = children.insert(k, c);
    if from < children.len() {
        assert(longer[from + 1] == children[from]);
        if children[from].name != name {
            lemma_position_behind(children, name, k, c, from + 1);
        }
    }
}

/// Where the first child with a tag is sought, a child with another tag
/// that is put in at `k` moves what is found behind it one place further
/// on, and changes nothing else.
proof fn lemma_position_insert(children: Seq<Node>, name: Seq<char>, k: int, c: Node, from: int)
    requires
        0 <= from <= k <= children.len(),
        c.name != name,
    ensures
        position(children.insert(k, c), name, from) == if position(children, name, from) < k {
            position(children, name, from)
        } else {
            position(children, name, from) + 1
        },
    decreases k - from,
{
    let longer = children.insert(k, c);
    if from < k {
        assert(longer[from] == children[from]);
        if children[from].name != name {
            lemma_position_insert(children, name, k, c, from + 1);
        }
    } else {
        assert(longer[k] == c);
        lemma_position_behind(children, name, k, c, k);
        lemma_position_bounds(children, name, k);
    }
}

/// An extra takes no child but techniques and assets: where a node that
/// reads well gains, at any place, a child with another tag, it is refused
/// for that child.
pub proof fn lemma_extra_unknown_child(n: Node, k: int, c: Node)
    requires
        Extra::decoded(n) is Ok,
        0 <= k <= n.children.len(),
        ExtraChild::named(c.name) is None,
    ensures
        Extra::decoded(with_children(n, n.children.insert(k, c))) == Err::<
            crate::records::extra::ExtraView,
            Failure,
        >(Failure::InvalidChild { child: c.name, parent: "extra"@ }),
{
    let longer = n.children.insert(k, c);
    lemma_position_insert(n.children, "asset"@, k, c, 0);
    lemma_position_insert(n.children, "technique"@, k, c, 0);
    let p = position(n.children, "asset"@, 0);
    if 0 <= p < n.children.len() {
        if p < k {
            assert(longer[p] == n.children[p]);
        } else {
            assert(longer[p + 1] == n.children[p]);
        }
    }
    lemma_walk_refused(
        n.children,
        longer,
        k,
        Failure::InvalidChild { child: c.name, parent: "extra"@ },
        0,
        Seq::<TechniqueView>::empty(),
        |acc: Seq<TechniqueView>, c: Node| technique_step(acc, c),
    );
}

/// In an asset each of the seven children that are no records of their own
/// needs a text: where a node that reads well loses the text of such a
/// child, it is refused for the data that this child is missing.
pub proof fn lemma_asset_needs_text(n: Node, k: int)
    requires
        Asset::decoded(n) is Ok,
        0 <= k < n.children.len(),
        AssetChild::needs_text(n.children[k].name),
    ensures
        Asset::decoded(with_children(n, n.children.update(k, without_text(n.children[k]))))
            == Err::<AssetView, Failure>(Failure::MissingData { elem: n.children[k].name }),
{
    let changed = n.children.update(k, without_text(n.children[k]));
    lemma_asset_walk(n.children, 0, AssetView::empty());
    lemma_asset_walk(changed, 0, AssetView::empty());
    lemma_walk_refused(
        n.children,
        changed,
        k,
        Failure::MissingData { elem: n.children[k].name },
        0,
        AssetView::empty(),
        |s: AssetView, c: Node| asset_step(s, c),
    );
}

/// An asset needs its two dates: where a node that reads well loses its
/// only `created`, or its only `modified`, it is refused for the element that
/// is missing, by its name.
pub proof fn lemma_asset_needs_date(n: Node, k: int)
    requires
        Asset::decoded(n) is Ok,
        0 <= k < n.children.len(),
        n.children[k].name == "created"@ || n.children[k].name == "modified"@,
        forall|j: int|
            0 <= j < n.children.len() && j != k ==> (#[trigger] n.children[j]).name
                != n.children[k].name,
    ensures
        Asset::decoded(with_children(n, n.children.remove(k))) == Err::<AssetView, Failure>(
            Failure::MissingElement { structure: "asset"@, elem: n.children[k].name },
        ),
{
    lemma_tags();
    let step = |s: AssetView, c: Node| asset_step(s, c);
    let rest = n.children.remove(k);
    let left = with_children(n, rest);
    assert(decides_by_child(step));
    lemma_asset_walk(n.children, 0, AssetView::empty());
    lemma_asset_walk(rest, 0, AssetView::empty());
    lemma_walk_without(n.children, k, 0, AssetView::empty(), AssetView::empty(), step);
    lemma_has_child(n, "created"@);
    lemma_has_child(n, "modified"@);
    lemma_has_child(left, "created"@);
    lemma_has_child(left, "modified"@);
    assert forall|j: int| 0 <= j < rest.len() implies (#[trigger] rest[j]).name
        != n.children[k].name by {
        if j < k {
            assert(rest[j] == n.children[j]);
        } else {
            assert(rest[j] == n.children[j + 1]);
        }
    }
    if n.children[k].name == "modified"@ {
        let a = choose|j: int|
            0 <= j < n.children.len() && (#[trigger] n.children[j]).name == "created"@;
        if a < k {
            assert(rest[a] == n.children[a]);
        } else {
            assert(rest[a - 1] == n.children[a]);
        }
    }
}

/// An asset takes no child but the eleven that it knows: where a node that
/// reads well gains, at any place, a child with another tag, it is refused
/// for that child, whatever the child holds.
pub proof fn lemma_asset_unknown_child(n: Node, k: int, c: Node)
    requires
        Asset::decoded(n) is Ok,
        0 <= k <= n.children.len(),
        AssetChild::named(c.name) is None,
    ensures
        Asset::decoded(with_children(n, n.children.insert(k, c))) == Err::<AssetView, Failure>(
            Failure::InvalidChild { child: c.name, parent: "asset"@ },
        ),
{
    let longer = n.children.insert(k, c);
    lemma_asset_walk(n.children, 0, AssetView::empty());
    lemma_asset_walk(longer, 0, AssetView::empty());
    lemma_walk_refused(
        n.children,
        longer,
        k,
        Failure::InvalidChild { child: c.name, parent: "asset"@ },
        0,
        AssetView::empty(),
        |s: AssetView, c: Node| asset_step(s, c),
    );
}

} // verus!
