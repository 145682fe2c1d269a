//! The narrow interface to the generic XML tree.
//!
//! Records never look inside an [`Element`] themselves. They read and build
//! elements through the handful of operations below, and every contract in the
//! crate speaks of an element through its mathematical model, a [`Node`].

use crate::error::Failure;
use crate::text::optional;
use vstd::prelude::*;
use xmltree::Element;

verus! {

/// `xmltree::Element`, the element type of the XML tree library. Verified code
/// reaches its content through the operations of this module only.
#[verifier::external_type_specification]
#[verifier::external_body]
pub struct ExElement(Element);

/// The mathematical model of an element: all that an element holds, as plain
/// values.
pub struct Node {
    /// Namespace prefix of the tag, if any.
    pub prefix: Option<Seq<char>>,
    /// Namespace of the tag, if any.
    pub namespace: Option<Seq<char>>,
    /// Namespace declarations in scope, from prefix to URI, if any.
    pub namespaces: Option<Map<Seq<char>, Seq<char>>>,
    /// Tag name, without namespace information.
    pub name: Seq<char>,
    /// Attributes, from name to value.
    pub attributes: Map<Seq<char>, Seq<char>>,
    /// Child elements, in document order.
    pub children: Seq<Node>,
    /// Text content, if any.
    pub text: Option<Seq<char>>,
}

/// What an `xmltree::Element` holds, field by field: `prefix`, `namespace`,
/// `namespaces` (there a map from prefix to URI), `name`, `attributes`,
/// `children` (each child taken in the same way) and `text`.
pub uninterp spec fn node(e: Element) -> Node;

/// The nodes of a sequence of elements.
pub open spec fn nodes(s: Seq<Element>) -> Seq<Node> {
    s.map_values(|e: Element| node(e))
}

/// The node with the given tag and nothing else.
pub open spec fn bare(name: Seq<char>) -> Node {
    Node {
        prefix: None,
        namespace: None,
        namespaces: None,
        name,
        attributes: Map::empty(),
        children: Seq::empty(),
        text: None,
    }
}

/// The node with the given tag and text, and nothing else.
pub open spec fn leaf(name: Seq<char>, text: Seq<char>) -> Node {
    Node { text: Some(text), ..bare(name) }
}

/// Index of the first child at or after `from` whose tag is `name`; the number
/// of children when there is none.
pub open spec fn position(children: Seq<Node>, name: Seq<char>, from: int) -> int
    decreases children.len() - from,
{
    if 0 <= from < children.len() {
        if children[from].name == name {
            from
        } else {
            position(children, name, from + 1)
        }
    } else {
        children.len() as int
    }
}

/// Whether some child carries the tag `name`.
pub open spec fn has_child(n: Node, name: Seq<char>) -> bool {
    0 <= position(n.children, name, 0) < n.children.len()
}

/// The value of an attribute, if the node has the attribute.
pub open spec fn attribute_of(n: Node, key: Seq<char>) -> Option<Seq<char>> {
    if n.attributes.contains_key(key) {
        Some(n.attributes[key])
    } else {
        None
    }
}

/// The attributes `m` and, where there is a value, `key` with that value.
pub open spec fn with_optional(
    m: Map<Seq<char>, Seq<char>>,
    key: Seq<char>,
    value: Option<Seq<char>>,
) -> Map<Seq<char>, Seq<char>> {
    match value {
        Some(v) => m.insert(key, v),
        None => m,
    }
}

/// At most one node: the given one, where there is one.
pub open spec fn optional_node(n: Option<Node>) -> Seq<Node> {
    match n {
        Some(c) => seq![c],
        None => Seq::empty(),
    }
}

/// At most one text-only node: one with the given tag where there is a text,
/// none where there is not.
pub open spec fn optional_leaf(name: Seq<char>, content: Option<Seq<char>>) -> Seq<Node> {
    match content {
        Some(t) => seq![leaf(name, t)],
        None => Seq::empty(),
    }
}

/// Reads the children from index `i` on, in document order, each through
/// `step`, starting from the state `s`: the state after the last child, or the
/// first failure, at which reading stops.
pub open spec fn walk<S>(
    children: Seq<Node>,
    i: int,
    s: S,
    step: spec_fn(S, Node) -> Result<S, Failure>,
) -> Result<S, Failure>
    decreases children.len() - i,
{
    if 0 <= i < children.len() {
        match step(s, children[i]) {
            Ok(next) => walk(children, i + 1, next, step),
            Err(f) => Err(f),
        }
    } else {
        Ok(s)
    }
}

/// Reading `a` and then `b` is reading `a + b`.
pub proof fn lemma_walk_concat<S>(
    a: Seq<Node>,
    b: Seq<Node>,
    i: int,
    s: S,
    step: spec_fn(S, Node) -> Result<S, Failure>,
)
    requires
        0 <= i <= a.len(),
    ensures
        walk(a + b, i, s, step) == match walk(a, i, s, step) {
            Ok(mid) => walk(b, 0, mid, step),
            Err(f) => Err(f),
        },
    decreases a.len() - i,
{
    if i < a.len() {
        assert((a + b)[i] == a[i]);
        match step(s, a[i]) {
            Ok(next) => lemma_walk_concat(a, b, i + 1, next, step),
            Err(_) => {},
        }
    } else {
        lemma_walk_shift(a, b, 0, s, step);
    }
}

/// Reading `b` behind a prefix that was read already is reading `b`.
pub proof fn lemma_walk_shift<S>(
    a: Seq<Node>,
    b: Seq<Node>,
    j: int,
    s: S,
    step: spec_fn(S, Node) -> Result<S, Failure>,
)
    requires
        0 <= j <= b.len(),
    ensures
        walk(a + b, a.len() + j, s, step) == walk(b, j, s, step),
    decreases b.len() - j,
{
    if j < b.len() {
        assert((a + b)[a.len() + j] == b[j]);
        match step(s, b[j]) {
            Ok(next) => lemma_walk_shift(a, b, j + 1, next, step),
            Err(_) => {},
        }
    }
}

/// Where the children `changed` are read like the children `valid` up to the
/// index `k`, the reading of `valid` does not fail, and `step` refuses
/// `changed[k]` in every state, the reading of `changed` fails with that
/// refusal.
pub proof fn lemma_walk_refused<S>(
    valid: Seq<Node>,
    changed: Seq<Node>,
    k: int,
    f: Failure,
    i: int,
    s: S,
    step: spec_fn(S, Node) -> Result<S, Failure>,
)
    requires
        0 <= i <= k < changed.len(),
        k <= valid.len(),
        forall|j: int| i <= j < k ==> changed[j] == valid[j],
        walk(valid, i, s, step) is Ok,
        forall|t: S| #[trigger] step(t, changed[k]) == Err::<S, Failure>(f),
    ensures
        walk(changed, i, s, step) == Err::<S, Failure>(f),
    decreases k - i,
{
    if i < k {
        match step(s, valid[i]) {
            Ok(next) => lemma_walk_refused(valid, changed, k, f, i + 1, next, step),
            Err(_) => {},
        }
    }
}

/// Whether `step` takes or refuses a child whatever the state.
pub open spec fn decides_by_child<S>(step: spec_fn(S, Node) -> Result<S, Failure>) -> bool {
    forall|a: S, b: S, c: Node| (#[trigger] step(a, c)) is Ok ==> (#[trigger] step(b, c)) is Ok
}

/// Where `step` decides by the child, a reading that does not fail behind
/// the child at `k` does not fail where that child is left out.
pub proof fn lemma_walk_behind<S>(
    children: Seq<Node>,
    k: int,
    i: int,
    s: S,
    t: S,
    step: spec_fn(S, Node) -> Result<S, Failure>,
)
    requires
        0 <= k <= i,
        k < children.len(),
        decides_by_child(step),
        walk(children, i + 1, s, step) is Ok,
    ensures
        walk(children.remove(k), i, t, step) is Ok,
    decreases children.len() - i,
{
    let shorter = children.remove(k);
    if i + 1 < children.len() {
        assert(shorter[i] == children[i + 1]);
        assert(step(s, children[i + 1]) is Ok);
        assert(step(t, children[i + 1]) is Ok);
        lemma_walk_behind(
            children,
            k,
            i + 1,
            step(s, children[i + 1])->Ok_0,
            step(t, children[i + 1])->Ok_0,
            step,
        );
    }
}

/// Where `step` decides by the child, a reading that does not fail does not
/// fail either where one child is left out.
pub proof fn lemma_walk_without<S>(
    children: Seq<Node>,
    k: int,
    i: int,
    s: S,
    t: S,
    step: spec_fn(S, Node) -> Result<S, Failure>,
)
    requires
        0 <= i <= k < children.len(),
        decides_by_child(step),
        walk(children, i, s, step) is Ok,
    ensures
        walk(children.remove(k), i, t, step) is Ok,
    decreases k - i,
{
    let shorter = children.remove(k);
    assert(step(s, children[i]) is Ok);
    if i < k {
        assert(shorter[i] == children[i]);
        assert(step(t, children[i]) is Ok);
        lemma_walk_without(
            children,
            k,
            i + 1,
            step(s, children[i])->Ok_0,
            step(t, children[i])->Ok_0,
            step,
        );
    } else {
        lemma_walk_behind(children, k, k, step(s, children[k])->Ok_0, t, step);
    }
}

/// A node has a child with a tag exactly where one of its children carries
/// the tag.
pub proof fn lemma_has_child(n: Node, name: Seq<char>)
    ensures
        has_child(n, name) <==> exists|j: int|
            0 <= j < n.children.len() && (#[trigger] n.children[j]).name == name,
{
    lemma_position_finds(n.children, name, 0);
}

/// What `position` finds carries the tag, and nothing from `from` up to it
/// does; where it finds nothing, no child from `from` on carries the tag.
pub proof fn lemma_position_finds(children: Seq<Node>, name: Seq<char>, from: int)
    requires
        0 <= from <= children.len(),
    ensures
        from <= position(children, name, from) <= children.len(),
        position(children, name, from) < children.len() ==> children[position(
            children,
            name,
            from,
        )].name == name,
        forall|j: int|
            from <= j < position(children, name, from) ==> (#[trigger] children[j]).name != name,
    decreases children.len() - from,
{
    if from < children.len() && children[from].name != name {
        lemma_position_finds(children, name, from + 1);
    }
}

/// What holds of the first state and is kept by every step holds of the last
/// state.
pub proof fn lemma_walk_keeps<S>(
    children: Seq<Node>,
    i: int,
    s: S,
    step: spec_fn(S, Node) -> Result<S, Failure>,
    holds: spec_fn(S) -> bool,
)
    requires
        holds(s),
        forall|t: S, c: Node| holds(t) && (#[trigger] step(t, c)) is Ok ==> holds(step(t, c)->Ok_0),
    ensures
        walk(children, i, s, step) matches Ok(last) ==> holds(last),
    decreases children.len() - i,
{
    if 0 <= i < children.len() {
        match step(s, children[i]) {
            Ok(next) => lemma_walk_keeps(children, i + 1, next, step, holds),
            Err(_) => {},
        }
    }
}

/// Reading a single child is one step.
pub proof fn lemma_walk_one<S>(c: Node, s: S, step: spec_fn(S, Node) -> Result<S, Failure>)
    ensures
        walk(seq![c], 0, s, step) == step(s, c),
{
    match step(s, c) {
        Ok(next) => {
            assert(walk(seq![c], 1, next, step) == Ok::<S, Failure>(next));
        },
        Err(_) => {},
    }
}

/// Reading a text-only child that may be missing is one step, or none.
pub proof fn lemma_walk_optional<S>(
    name: Seq<char>,
    content: Option<Seq<char>>,
    s: S,
    step: spec_fn(S, Node) -> Result<S, Failure>,
)
    ensures
        walk(optional_leaf(name, content), 0, s, step) == match content {
            Some(t) => step(s, leaf(name, t)),
            None => Ok(s),
        },
{
    match content {
        Some(t) => lemma_walk_one(leaf(name, t), s, step),
        None => {},
    }
}

/// Reads the `name` field of an `xmltree::Element`: the tag of the element.
#[verifier::external_body]
pub(crate) fn tag(e: &Element) -> (r: &str)
    ensures
        r@ == node(*e).name,
{
    e.name.as_str()
}

/// Reads the `text` field of an `xmltree::Element`: the text content, or
/// `None` where the element has none.
#[verifier::external_body]
pub(crate) fn text(e: &Element) -> (r: Option<&String>)
    ensures
        match r {
            Some(t) => node(*e).text == Some(t@),
            None => node(*e).text is None,
        },
{
    e.text.as_ref()
}

/// Looks `key` up in the `attributes` field of an `xmltree::Element`, a hash
/// map from attribute name to value: the value stored under `key`, or `None`
/// where the map has no such key.
#[verifier::external_body]
pub(crate) fn attribute<'a>(e: &'a Element, key: &str) -> (r: Option<&'a String>)
    ensures
        match r {
            Some(v) => node(*e).attributes.contains_key(key@) && node(*e).attributes[key@] == v@,
            None => !node(*e).attributes.contains_key(key@),
        },
{
    e.attributes.get(key)
}

/// Reads the `children` field of an `xmltree::Element`: the child elements in
/// document order.
#[verifier::external_body]
pub(crate) fn children(e: &Element) -> (r: &Vec<Element>)
    ensures
        nodes(r@) == node(*e).children,
{
    &e.children
}

/// `xmltree::Element::get_child` with a tag name: the first child, in document
/// order, whose `name` equals `name`, or `None` where no child has that name.
#[verifier::external_body]
pub(crate) fn first_child<'a>(e: &'a Element, name: &str) -> (r: Option<&'a Element>)
    ensures
        match r {
            Some(c) => has_child(node(*e), name@) && node(*c) == node(*e).children[position(
                node(*e).children,
                name@,
                0,
            )],
            None => !has_child(node(*e), name@),
        },
{
    e.get_child(name)
}

/// `xmltree::Element::new`: an element with the given tag, no namespace
/// information, no attributes, no children and no text.
#[verifier::external_body]
pub(crate) fn element(name: &str) -> (r: Element)
    ensures
        node(r) == bare(name@),
{
    Element::new(name)
}

/// Stores `Some(text)` in the `text` field of an `xmltree::Element` and leaves
/// the other fields as they are.
#[verifier::external_body]
pub(crate) fn set_text(e: &mut Element, text: String)
    ensures
        node(*final(e)) == (Node { text: Some(text@), ..node(*old(e)) }),
{
    e.text = Some(text);
}

/// Inserts `value` under `key` into the `attributes` field of an
/// `xmltree::Element`, replacing the value that `key` had, and leaves the
/// other fields as they are.
#[verifier::external_body]
pub(crate) fn set_attribute(e: &mut Element, key: &str, value: String)
    ensures
        node(*final(e)) == (Node {
            attributes: node(*old(e)).attributes.insert(key@, value@),
            ..node(*old(e))
        }),
{
    e.attributes.insert(key.to_string(), value);
}

/// Appends `child` to the `children` field of an `xmltree::Element` and leaves
/// the other fields as they are.
#[verifier::external_body]
pub(crate) fn push_child(e: &mut Element, child: Element)
    ensures
        node(*final(e)) == (Node {
            children: node(*old(e)).children.push(node(child)),
            ..node(*old(e))
        }),
{
    e.children.push(child);
}

/// The derived `Clone` of `xmltree::Element`: a copy that holds the same node.
#[verifier::external_body]
pub(crate) fn duplicate(e: &Element) -> (r: Element)
    ensures
        node(r) == node(*e),
{
    e.clone()
}

/// A text-only element: the given tag and text, nothing else.
pub(crate) fn text_element(name: &str, content: String) -> (r: Element)
    ensures
        node(r) == leaf(name@, content@),
{
    let mut e = element(name);
    set_text(&mut e, content);
    e
}

/// The value of an attribute, copied, if the element has the attribute.
pub(crate) fn attribute_copy(e: &Element, key: &str) -> (r: Option<String>)
    ensures
        optional(r) == attribute_of(node(*e), key@),
{
    match attribute(e, key) {
        Some(v) => Some(v.clone()),
        None => None,
    }
}

/// Sets the attribute `key` where there is a value, and nothing where there
/// is none.
pub(crate) fn set_optional(e: &mut Element, key: &str, value: &Option<String>)
    ensures
        node(*final(e)) == (Node {
            attributes: with_optional(node(*old(e)).attributes, key@, optional(*value)),
            ..node(*old(e))
        }),
{
    match value {
        Some(v) => {
            set_attribute(e, key, v.clone());
        },
        None => {},
    }
}

/// Appends a text-only child with the given tag where there is a text, and
/// nothing where there is none.
pub(crate) fn push_optional(e: &mut Element, name: &str, content: &Option<String>)
    ensures
        node(*final(e)) == (Node {
            children: node(*old(e)).children + optional_leaf(name@, optional(*content)),
            ..node(*old(e))
        }),
{
    match content {
        Some(t) => {
            let child = text_element(name, t.clone());
            push_child(e, child);
            assert(node(*old(e)).children.push(leaf(name@, t@)) =~= node(*old(e)).children
                + optional_leaf(name@, optional(*content)));
        },
        None => {
            assert(node(*old(e)).children =~= node(*old(e)).children + optional_leaf(
                name@,
                optional(*content),
            ));
        },
    }
}

} // verus!
