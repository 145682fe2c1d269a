//! Writing a record and reading the result.

use crate::error::Failure;
use crate::laws::tags::lemma_tags;
use crate::number::lemma_integer_text;
use crate::number::truncation;
use crate::records::asset::asset_decoded;
use crate::records::asset::asset_encoded;
use crate::records::asset::asset_step;
use crate::records::asset::asset_walk;
use crate::records::asset::extras_encoded;
use crate::records::asset::lemma_asset_walk;
use crate::records::asset::undated;
use crate::records::asset::lemma_extras_encoded;
use crate::records::asset::Asset;
use crate::records::asset::AssetView;
use crate::records::asset::UnitView;
use crate::records::extra::extra_decoded;
use crate::records::extra::extra_encoded;
use crate::records::extra::technique_step;
use crate::records::extra::Extra;
use crate::records::extra::ExtraView;
use crate::text::is_word;
use crate::text::joined;
use crate::text::lemma_words_are_words;
use crate::text::lemma_words_of_joined;
use crate::text::words;
use crate::xml::leaf;
use crate::xml::lemma_walk_one;
use crate::xml::optional_node;
use crate::xml::position;
use crate::records::location::Location;
use crate::records::location::LocationView;
use crate::records::contributor::Contributor;
use crate::records::contributor::ContributorView;
use crate::records::technique::Technique;
use crate::records::technique::TechniqueView;
use crate::traits::XmlConversion;
use crate::xml::lemma_walk_concat;
use crate::xml::lemma_walk_keeps;
use crate::xml::lemma_walk_optional;
use crate::xml::optional_leaf;
use crate::xml::walk;
use crate::xml::Node;
use vstd::prelude::*;

verus! {

/// Writing a contributor and reading the result gives the contributor back.
pub proof fn lemma_contributor_round_trip(v: ContributorView)
    ensures
        Contributor::decoded(Contributor::encoded(v)) == Ok::<ContributorView, Failure>(v),
{
    lemma_tags();
    let step = |s: ContributorView, c: Node| s.step(c);
    let author = optional_leaf("author"@, v.author);
    let email = optional_leaf("author_email"@, v.author_email);
    let website = optional_leaf("author_website"@, v.author_website);
    let tool = optional_leaf("authoring_tool"@, v.authoring_tool);
    let comments = optional_leaf("comments"@, v.comments);
    let copyright = optional_leaf("copyright"@, v.copyright);
    let source = optional_leaf("source_data"@, v.source_data);
    let s0 = ContributorView::empty();
    let s1 = ContributorView { author: v.author, ..s0 };
    let s2 = ContributorView { author_email: v.author_email, ..s1 };
    let s3 = ContributorView { author_website: v.author_website, ..s2 };
    let s4 = ContributorView { authoring_tool: v.authoring_tool, ..s3 };
    let s5 = ContributorView { comments: v.comments, ..s4 };
    let s6 = ContributorView { copyright: v.copyright, ..s5 };
    let ok = |s: ContributorView| Ok::<ContributorView, Failure>(s);
    lemma_walk_optional("author"@, v.author, s0, step);
    assert(walk(author, 0, s0, step) == ok(s1));
    let two = author + email;
    lemma_walk_optional("author_email"@, v.author_email, s1, step);
    lemma_walk_concat(author, email, 0, s0, step);
    assert(walk(two, 0, s0, step) == ok(s2));
    let three = two + website;
    lemma_walk_optional("author_website"@, v.author_website, s2, step);
    lemma_walk_concat(two, website, 0, s0, step);
    assert(walk(three, 0, s0, step) == ok(s3));
    let four = three + tool;
    lemma_walk_optional("authoring_tool"@, v.authoring_tool, s3, step);
    lemma_walk_concat(three, tool, 0, s0, step);
    assert(walk(four, 0, s0, step) == ok(s4));
    let five = four + comments;
    lemma_walk_optional("comments"@, v.comments, s4, step);
    lemma_walk_concat(four, comments, 0, s0, step);
    assert(walk(five, 0, s0, step) == ok(s5));
    let six = five + copyright;
    lemma_walk_optional("copyright"@, v.copyright, s5, step);
    lemma_walk_concat(five, copyright, 0, s0, step);
    assert(walk(six, 0, s0, step) == ok(s6));
    lemma_walk_optional("source_data"@, v.source_data, s6, step);
    lemma_walk_concat(six, source, 0, s0, step);
}

impl TechniqueView {
    /// What holds of a technique that was read from a node: its data is a
    /// `technique` element whose `profile` attribute is the profile, and it
    /// has no namespace.
    pub open spec fn faithful(self) -> bool {
        &&& self.data.name == "technique"@
        &&& self.data.attributes.contains_key("profile"@)
        &&& self.data.attributes["profile"@] == self.profile
        &&& self.xmlns is None
    }
}

/// The technique that was read from a node holds that node, so that writing
/// it gives the node back, whatever the node holds.
pub proof fn lemma_technique_fidelity(n: Node)
    requires
        Technique::decoded(n) is Ok,
    ensures
        Technique::encoded(Technique::decoded(n)->Ok_0) == n,
        Technique::decoded(n)->Ok_0.faithful(),
{
}

/// Writing a technique that was read from a node, and reading the result,
/// gives the technique back.
pub proof fn lemma_technique_round_trip(v: TechniqueView)
    requires
        v.faithful(),
    ensures
        Technique::decoded(Technique::encoded(v)) == Ok::<TechniqueView, Failure>(v),
{
}

/// The numbers of a location that was read from a node are literals.
pub proof fn lemma_location_well_formed(n: Node)
    requires
        Location::decoded(n) is Ok,
    ensures
        Location::decoded(n)->Ok_0.well_formed(),
{
    lemma_integer_text(0);
    lemma_walk_keeps(
        n.children[0].children,
        0,
        LocationView::origin(),
        |s: LocationView, c: Node| s.step(c),
        |s: LocationView| s.well_formed(),
    );
}

/// Writing a location and reading the result gives the location back, but
/// for its altitude, of which the part before the point is left.
pub proof fn lemma_location_round_trip(v: LocationView)
    requires
        v.well_formed(),
    ensures
        Location::decoded(Location::encoded(v)) == Ok::<LocationView, Failure>(v.written()),
        v.written().well_formed(),
        v.written().written() == v.written(),
{
    lemma_tags();
    lemma_integer_text(truncation(v.altitude));
    reveal_with_fuel(walk, 4);
    reveal_with_fuel(position, 4);
    let geo = v.geographic();
    assert(Location::encoded(v).children[0] == geo);
    assert(v.altitude_node().attributes.contains_key("mode"@));
    assert(LocationView::lacking(geo) is None);
}

/// Writing a unit and reading the result gives the unit back.
pub proof fn lemma_unit_round_trip(u: UnitView)
    requires
        u.well_formed(),
    ensures
        UnitView::decoded(u.encoded()) == Ok::<UnitView, Failure>(u),
{
    lemma_tags();
}

/// What holds of an asset that was read from a node: its keywords are
/// words, its numbers are literals, and its extras are sound.
pub open spec fn asset_sound(v: AssetView) -> bool
    decreases v, 0int,
{
    &&& forall|i: int| 0 <= i < v.keywords.len() ==> is_word(#[trigger] v.keywords[i])
    &&& v.location matches Some(l) ==> l.well_formed()
    &&& v.unit matches Some(u) ==> u.well_formed()
    &&& forall|i: int| 0 <= i < v.extras.len() ==> extra_sound(#[trigger] v.extras[i])
}

/// What holds of an extra that was read from a node: it has a technique,
/// its techniques are faithful, and its asset is sound.
pub open spec fn extra_sound(x: ExtraView) -> bool
    decreases x, 0int,
{
    &&& x.techniques.len() > 0
    &&& forall|i: int| 0 <= i < x.techniques.len() ==> (#[trigger] x.techniques[i]).faithful()
    &&& x.asset matches Some(a) ==> asset_sound(a)
}

/// The asset as it is written: each altitude in it cut off at the point.
pub open spec fn asset_written(v: AssetView) -> AssetView
    decreases v, 0int,
{
    AssetView {
        location: match v.location {
            Some(l) => Some(l.written()),
            None => None,
        },
        extras: extras_written(v.extras, 0),
        ..v
    }
}

/// The extras from index `i` on as they are written.
pub open spec fn extras_written(xs: Seq<ExtraView>, i: int) -> Seq<ExtraView>
    decreases xs, xs.len() - i,
{
    if 0 <= i < xs.len() {
        seq![extra_written(xs[i])] + extras_written(xs, i + 1)
    } else {
        Seq::empty()
    }
}

/// The extra as it is written: each altitude in it cut off at the point.
pub open spec fn extra_written(x: ExtraView) -> ExtraView
    decreases x, 0int,
{
    ExtraView {
        asset: match x.asset {
            Some(a) => Some(asset_written(a)),
            None => None,
        },
        ..x
    }
}

/// Where the child at `k` has the tag and none before it from `from` on,
/// `position` finds it.
proof fn lemma_position_found(children: Seq<Node>, name: Seq<char>, k: int, from: int)
    requires
        0 <= from <= k < children.len(),
        children[k].name == name,
        forall|j: int| from <= j < k ==> (#[trigger] children[j]).name != name,
    ensures
        position(children, name, from) == k,
    decreases k - from,
{
    if from < k {
        lemma_position_found(children, name, k, from + 1);
    }
}

/// Where no child from `from` on has the tag, `position` finds none.
proof fn lemma_position_none(children: Seq<Node>, name: Seq<char>, from: int)
    requires
        0 <= from,
        forall|j: int| from <= j < children.len() ==> (#[trigger] children[j]).name != name,
    ensures
        position(children, name, from) == children.len(),
    decreases children.len() - from,
{
    if from < children.len() {
        lemma_position_none(children, name, from + 1);
    }
}

/// Reading the data of faithful techniques gives the techniques.
proof fn lemma_walk_techniques(ts: Seq<TechniqueView>, i: int, acc: Seq<TechniqueView>)
    requires
        0 <= i <= ts.len(),
        forall|j: int| 0 <= j < ts.len() ==> (#[trigger] ts[j]).faithful(),
    ensures
        walk(
            ts.map_values(|t: TechniqueView| t.data),
            i,
            acc,
            |acc: Seq<TechniqueView>, c: Node| technique_step(acc, c),
        ) == Ok::<Seq<TechniqueView>, Failure>(acc + ts.skip(i)),
    decreases ts.len() - i,
{
    if i < ts.len() {
        assert(ts[i].faithful());
        lemma_walk_techniques(ts, i + 1, acc.push(ts[i]));
        assert(acc.push(ts[i]) + ts.skip(i + 1) =~= acc + ts.skip(i));
    } else {
        assert(acc + ts.skip(i) =~= acc);
    }
}

/// Reading the written contributors gives the contributors.
proof fn lemma_walk_contributors(cs: Seq<ContributorView>, i: int, s: AssetView)
    requires
        0 <= i <= cs.len(),
    ensures
        walk(
            cs.map_values(|c: ContributorView| Contributor::encoded(c)),
            i,
            s,
            |s: AssetView, c: Node| asset_step(s, c),
        ) == Ok::<AssetView, Failure>(
            AssetView { contributors: s.contributors + cs.skip(i), ..s },
        ),
    decreases cs.len() - i,
{
    if i < cs.len() {
        lemma_contributor_round_trip(cs[i]);
        let next = AssetView { contributors: s.contributors.push(cs[i]), ..s };
        lemma_walk_contributors(cs, i + 1, next);
        assert(s.contributors.push(cs[i]) + cs.skip(i + 1) =~= s.contributors + cs.skip(i));
    } else {
        assert(s.contributors + cs.skip(i) =~= s.contributors);
    }
}

/// `extras_written` item by item.
proof fn lemma_extras_written(xs: Seq<ExtraView>, i: int)
    requires
        0 <= i <= xs.len(),
    ensures
        extras_written(xs, i).len() == xs.len() - i,
        forall|j: int|
            0 <= j < xs.len() - i ==> #[trigger] extras_written(xs, i)[j] == extra_written(
                xs[i + j],
            ),
    decreases xs.len() - i,
{
    if i < xs.len() {
        lemma_extras_written(xs, i + 1);
        assert forall|j: int| 0 <= j < xs.len() - i implies #[trigger] extras_written(xs, i)[j]
            == extra_written(xs[i + j]) by {
            if j > 0 {
                assert(extras_written(xs, i)[j] == extras_written(xs, i + 1)[j - 1]);
            }
        }
    }
}

/// Reading the written extras gives the extras as they are written.
proof fn lemma_walk_extras(xs: Seq<ExtraView>, i: int, s: AssetView)
    requires
        0 <= i <= xs.len(),
        forall|j: int| 0 <= j < xs.len() ==> extra_sound(#[trigger] xs[j]),
    ensures
        walk(extras_encoded(xs, 0), i, s, |s: AssetView, c: Node| asset_step(s, c)) == Ok::<
            AssetView,
            Failure,
        >(AssetView { extras: s.extras + extras_written(xs, 0).skip(i), ..s }),
    decreases xs, xs.len() - i,
{
    lemma_extras_encoded(xs, 0);
    lemma_extras_written(xs, 0);
    lemma_tags();
    if i < xs.len() {
        assert(extra_sound(xs[i]));
        lemma_extra_round_trip(xs[i]);
        assert(extras_encoded(xs, 0)[i] == extra_encoded(xs[i]));
        let next = AssetView { extras: s.extras.push(extra_written(xs[i])), ..s };
        lemma_walk_extras(xs, i + 1, next);
        assert(s.extras.push(extra_written(xs[i])) + extras_written(xs, 0).skip(i + 1)
            =~= s.extras + extras_written(xs, 0).skip(i));
    } else {
        assert(s.extras + extras_written(xs, 0).skip(i) =~= s.extras);
    }
}

/// Writing a sound extra and reading the result gives the extra back as it
/// is written.
pub proof fn lemma_extra_round_trip(x: ExtraView)
    requires
        extra_sound(x),
    ensures
        extra_decoded(extra_encoded(x)) == Ok::<ExtraView, Failure>(extra_written(x)),
    decreases x, 0int,
{
    lemma_tags();
    let n = extra_encoded(x);
    let data = x.techniques.map_values(|t: TechniqueView| t.data);
    let step = |acc: Seq<TechniqueView>, c: Node| technique_step(acc, c);
    assert(x.techniques[0].faithful());
    assert forall|j: int| 0 <= j < data.len() implies (#[trigger] data[j]).name
        == "technique"@ by {
        assert(x.techniques[j].faithful());
    }
    lemma_walk_techniques(x.techniques, 0, Seq::empty());
    assert(Seq::<TechniqueView>::empty() + x.techniques.skip(0) =~= x.techniques);
    match x.asset {
        Some(a) => {
            lemma_asset_round_trip(a);
            let first = seq![asset_encoded(a)];
            assert(n.children =~= first + data);
            assert(n.children[0] == asset_encoded(a));
            assert(n.children[1] == data[0]);
            assert(position(n.children, "asset"@, 0) == 0);
            assert(position(n.children, "technique"@, 1) == 1);
            assert(position(n.children, "technique"@, 0) == 1);
            lemma_walk_one(asset_encoded(a), Seq::<TechniqueView>::empty(), step);
            lemma_walk_concat(first, data, 0, Seq::<TechniqueView>::empty(), step);
        },
        None => {
            assert(n.children =~= data);
            lemma_position_none(n.children, "asset"@, 0);
            assert(position(n.children, "technique"@, 0) == 0);
        },
    }
}

/// The node that is written for an asset has both dates.
proof fn lemma_asset_encoded_dated(v: AssetView)
    ensures
        undated(asset_encoded(v)) is None,
{
    lemma_tags();
    let people = v.contributors.map_values(|c: ContributorView| Contributor::encoded(c));
    let place = optional_node(
        match v.location {
            Some(l) => Some(Location::encoded(l)),
            None => None,
        },
    );
    let dates = seq![
        leaf("created"@, v.created),
        leaf("keywords"@, joined(v.keywords)),
        leaf("modified"@, v.modified),
    ];
    let children = asset_encoded(v).children;
    let k: int = (people.len() + place.len()) as int;
    assert forall|j: int| 0 <= j < k + 3 implies #[trigger] children[j] == (people + place
        + dates)[j] by {}
    assert forall|j: int| 0 <= j < k implies (#[trigger] children[j]).name != "created"@
        && children[j].name != "modified"@ by {
        if j < people.len() {
            assert(children[j] == people[j]);
        } else {
            assert(children[j] == place[j - people.len()]);
        }
    }
    assert(children[k] == dates[0]);
    assert(children[k + 1] == dates[1]);
    assert(children[k + 2] == dates[2]);
    lemma_position_found(children, "created"@, k, 0);
    lemma_position_found(children, "modified"@, k + 2, 0);
}

/// Writing a sound asset and reading the result gives the asset back as it
/// is written.
pub proof fn lemma_asset_round_trip(v: AssetView)
    requires
        asset_sound(v),
    ensures
        asset_decoded(asset_encoded(v)) == Ok::<AssetView, Failure>(asset_written(v)),
    decreases v, 2int,
{
    lemma_asset_children_round_trip(v);
    lemma_asset_encoded_dated(v);
}

/// Reading the children that are written for a sound asset gives the asset
/// back as it is written.
proof fn lemma_asset_children_round_trip(v: AssetView)
    requires
        asset_sound(v),
    ensures
        asset_walk(asset_encoded(v).children, 0, AssetView::empty()) == Ok::<AssetView, Failure>(
            asset_written(v),
        ),
    decreases v, 1int,
{
    lemma_tags();
    let step = |s: AssetView, c: Node| asset_step(s, c);
    let people = v.contributors.map_values(|c: ContributorView| Contributor::encoded(c));
    let place = optional_node(
        match v.location {
            Some(l) => Some(Location::encoded(l)),
            None => None,
        },
    );
    let dates = seq![
        leaf("created"@, v.created),
        leaf("keywords"@, joined(v.keywords)),
        leaf("modified"@, v.modified),
    ];
    let revision = optional_leaf("revision"@, v.revision);
    let subject = optional_leaf("subject"@, v.subject);
    let title = optional_leaf("title"@, v.title);
    let measure = optional_node(
        match v.unit {
            Some(u) => Some(u.encoded()),
            None => None,
        },
    );
    let axis = optional_leaf(
        "up_axis"@,
        match v.up_axis {
            Some(axis) => Some(axis.literal()),
            None => None,
        },
    );
    let extras = extras_encoded(v.extras, 0);
    let s0 = AssetView::empty();
    let s1 = AssetView { contributors: v.contributors, ..s0 };
    let s2 = AssetView { location: asset_written(v).location, ..s1 };
    let s3 = AssetView { created: v.created, keywords: v.keywords, modified: v.modified, ..s2 };
    let s4 = AssetView { revision: v.revision, ..s3 };
    let s5 = AssetView { subject: v.subject, ..s4 };
    let s6 = AssetView { title: v.title, ..s5 };
    let s7 = AssetView { unit: v.unit, ..s6 };
    let s8 = AssetView { up_axis: v.up_axis, ..s7 };
    let s9 = AssetView { extras: extras_written(v.extras, 0), ..s8 };

    lemma_walk_contributors(v.contributors, 0, s0);
    assert(s0.contributors + v.contributors.skip(0) =~= v.contributors);
    assert(walk(people, 0, s0, step) == Ok::<AssetView, Failure>(s1));

    match v.location {
        Some(l) => {
            lemma_location_round_trip(l);
            lemma_walk_one(Location::encoded(l), s1, step);
        },
        None => {},
    }
    assert(walk(place, 0, s1, step) == Ok::<AssetView, Failure>(s2));
    lemma_walk_concat(people, place, 0, s0, step);

    lemma_words_of_joined(v.keywords);
    assert(s2.keywords + v.keywords =~= v.keywords);
    assert(walk(dates, 0, s2, step) == Ok::<AssetView, Failure>(s3)) by {
        reveal_with_fuel(walk, 4);
    }
    lemma_walk_concat(people + place, dates, 0, s0, step);

    lemma_walk_optional("revision"@, v.revision, s3, step);
    lemma_walk_concat(people + place + dates, revision, 0, s0, step);
    lemma_walk_optional("subject"@, v.subject, s4, step);
    lemma_walk_concat(people + place + dates + revision, subject, 0, s0, step);
    lemma_walk_optional("title"@, v.title, s5, step);
    lemma_walk_concat(people + place + dates + revision + subject, title, 0, s0, step);
    assert(walk(people + place + dates + revision + subject + title, 0, s0, step) == Ok::<
        AssetView,
        Failure,
    >(s6));

    match v.unit {
        Some(u) => {
            lemma_unit_round_trip(u);
            lemma_walk_one(u.encoded(), s6, step);
        },
        None => {},
    }
    assert(walk(measure, 0, s6, step) == Ok::<AssetView, Failure>(s7));
    lemma_walk_concat(people + place + dates + revision + subject + title, measure, 0, s0, step);

    lemma_walk_optional(
        "up_axis"@,
        match v.up_axis {
            Some(axis) => Some(axis.literal()),
            None => None,
        },
        s7,
        step,
    );
    assert(walk(axis, 0, s7, step) == Ok::<AssetView, Failure>(s8));
    lemma_walk_concat(
        people + place + dates + revision + subject + title + measure,
        axis,
        0,
        s0,
        step,
    );

    lemma_walk_extras(v.extras, 0, s8);
    assert(s8.extras + extras_written(v.extras, 0).skip(0) =~= extras_written(v.extras, 0));
    lemma_walk_concat(
        people + place + dates + revision + subject + title + measure + axis,
        extras,
        0,
        s0,
        step,
    );
    lemma_asset_walk(asset_encoded(v).children, 0, s0);
    assert(s9 == asset_written(v));
}

/// Reading children as techniques drops none of the techniques that were
/// read before, keeps them faithful, and adds one where a child from `i` on
/// is a `technique`.
proof fn lemma_techniques_read(children: Seq<Node>, i: int, acc: Seq<TechniqueView>)
    requires
        0 <= i,
        forall|j: int| 0 <= j < acc.len() ==> (#[trigger] acc[j]).faithful(),
        walk(children, i, acc, |acc: Seq<TechniqueView>, c: Node| technique_step(acc, c)) is Ok,
    ensures
        ({
            let ts = walk(
                children,
                i,
                acc,
                |acc: Seq<TechniqueView>, c: Node| technique_step(acc, c),
            )->Ok_0;
            &&& ts.len() >= acc.len()
            &&& position(children, "technique"@, i) < children.len() ==> ts.len() > acc.len()
            &&& forall|j: int| 0 <= j < ts.len() ==> (#[trigger] ts[j]).faithful()
        }),
    decreases children.len() - i,
{
    if i < children.len() {
        let c = children[i];
        let next = technique_step(acc, c)->Ok_0;
        if c.name == "technique"@ {
            let t = Technique::decoded(c)->Ok_0;
            assert(t.faithful());
            assert forall|j: int| 0 <= j < next.len() implies (#[trigger] next[j]).faithful() by {
                if j < acc.len() {
                    assert(next[j] == acc[j]);
                }
            }
        }
        lemma_techniques_read(children, i + 1, next);
    }
}

/// An extra that was read from a node is sound.
pub proof fn lemma_extra_sound(n: Node)
    requires
        extra_decoded(n) is Ok,
    ensures
        extra_sound(extra_decoded(n)->Ok_0),
    decreases n, 0int,
{
    let k = position(n.children, "asset"@, 0);
    if 0 <= k < n.children.len() {
        lemma_asset_sound(n.children[k].children, 0, AssetView::empty());
    }
    lemma_techniques_read(n.children, 0, Seq::empty());
}

/// Reading children into a sound asset leaves a sound asset.
pub proof fn lemma_asset_sound(children: Seq<Node>, i: int, s: AssetView)
    requires
        asset_sound(s),
        asset_walk(children, i, s) is Ok,
    ensures
        asset_sound(asset_walk(children, i, s)->Ok_0),
    decreases children, children.len() - i,
{
    if 0 <= i < children.len() {
        let c = children[i];
        let next = asset_step(s, c)->Ok_0;
        if c.name == "contributor"@ {
        } else if c.name == "coverage"@ {
            lemma_location_well_formed(c);
        } else if c.name == "extra"@ {
            lemma_extra_sound(c);
            let x = extra_decoded(c)->Ok_0;
            assert forall|j: int| 0 <= j < next.extras.len() implies extra_sound(
                #[trigger] next.extras[j],
            ) by {
                if j < s.extras.len() {
                    assert(next.extras[j] == s.extras[j]);
                }
            }
        } else if c.name == "unit"@ {
        } else {
            let t = c.text->Some_0;
            if c.name == "keywords"@ {
                lemma_words_are_words(t, 0);
                assert forall|j: int| 0 <= j < next.keywords.len() implies is_word(
                    #[trigger] next.keywords[j],
                ) by {
                    if j < s.keywords.len() {
                        assert(next.keywords[j] == s.keywords[j]);
                    } else {
                        assert(next.keywords[j] == words(t)[j - s.keywords.len()]);
                    }
                }
            }
        }
        assert(asset_sound(next));
        lemma_asset_sound(children, i + 1, next);
    }
}

/// Reading a node as an asset, writing the asset and reading what was
/// written gives the asset back as it is written: the same in every field,
/// but that each altitude in it is cut off at the point. The keywords come
/// back as they were read, whatever spacing the node had.
pub proof fn lemma_asset_parse_round_trip(n: Node)
    requires
        Asset::decoded(n) is Ok,
    ensures
        Asset::decoded(Asset::encoded(Asset::decoded(n)->Ok_0)) == Ok::<AssetView, Failure>(
            asset_written(Asset::decoded(n)->Ok_0),
        ),
{
    lemma_asset_sound(n.children, 0, AssetView::empty());
    lemma_asset_round_trip(Asset::decoded(n)->Ok_0);
}

/// Reading a node as an extra, writing the extra and reading what was
/// written gives the extra back as it is written.
pub proof fn lemma_extra_parse_round_trip(n: Node)
    requires
        Extra::decoded(n) is Ok,
    ensures
        Extra::decoded(Extra::encoded(Extra::decoded(n)->Ok_0)) == Ok::<ExtraView, Failure>(
            extra_written(Extra::decoded(n)->Ok_0),
        ),
{
    lemma_extra_sound(n);
    lemma_extra_round_trip(Extra::decoded(n)->Ok_0);
}

/// Reading a node as a location, writing the location and reading what was
/// written gives the location back, but for its altitude, of which the part
/// before the point is left.
pub proof fn lemma_location_parse_round_trip(n: Node)
    requires
        Location::decoded(n) is Ok,
    ensures
        Location::decoded(Location::encoded(Location::decoded(n)->Ok_0)) == Ok::<
            LocationView,
            Failure,
        >(Location::decoded(n)->Ok_0.written()),
{
    lemma_location_well_formed(n);
    lemma_location_round_trip(Location::decoded(n)->Ok_0);
}

/// Reading a node as a technique, writing the technique and reading what
/// was written gives the technique back.
pub proof fn lemma_technique_parse_round_trip(n: Node)
    requires
        Technique::decoded(n) is Ok,
    ensures
        Technique::decoded(Technique::encoded(Technique::decoded(n)->Ok_0)) == Technique::decoded(
            n,
        ),
{
}

/// Reading a node as a contributor, writing the contributor and reading
/// what was written gives the contributor back.
pub proof fn lemma_contributor_parse_round_trip(n: Node)
    requires
        Contributor::decoded(n) is Ok,
    ensures
        Contributor::decoded(Contributor::encoded(Contributor::decoded(n)->Ok_0))
            == Contributor::decoded(n),
{
    lemma_contributor_round_trip(Contributor::decoded(n)->Ok_0);
}

} // verus!
