//! Who worked on an asset, and with what.

use crate::error::ColladaError;
use crate::error::Failure;
use crate::text::optional;
use crate::text::same;
use crate::traits::XmlConversion;
use crate::xml::bare;
use crate::xml::children;
use crate::xml::element;
use crate::xml::node;
use crate::xml::nodes;
use crate::xml::optional_leaf;
use crate::xml::push_optional;
use crate::xml::tag;
use crate::xml::text;
use crate::xml::walk;
use crate::xml::Node;
use vstd::prelude::*;
use vstd::string::StringExecFns;
use xmltree::Element;

verus! {

/// Contributor for an asset.
#[derive(Debug)]
pub struct Contributor {
    pub author: Option<String>,
    pub author_email: Option<String>,
    pub author_website: Option<String>,
    pub authoring_tool: Option<String>,
    pub comments: Option<String>,
    pub copyright: Option<String>,
    pub source_data: Option<String>,
}

/// A contributor as a mathematical value.
pub struct ContributorView {
    pub author: Option<Seq<char>>,
    pub author_email: Option<Seq<char>>,
    pub author_website: Option<Seq<char>>,
    pub authoring_tool: Option<Seq<char>>,
    pub comments: Option<Seq<char>>,
    pub copyright: Option<Seq<char>>,
    pub source_data: Option<Seq<char>>,
}

impl View for Contributor {
    type V = ContributorView;

    open spec fn view(&self) -> ContributorView {
        ContributorView {
            author: optional(self.author),
            author_email: optional(self.author_email),
            author_website: optional(self.author_website),
            authoring_tool: optional(self.authoring_tool),
            comments: optional(self.comments),
            copyright: optional(self.copyright),
            source_data: optional(self.source_data),
        }
    }
}

/// The children that a contributor may hold, each a field of the record.
#[derive(Clone, Copy, Debug)]
pub enum ContributorField {
    Author,
    AuthorEmail,
    AuthorWebsite,
    AuthoringTool,
    Comments,
    Copyright,
    SourceData,
}

impl ContributorField {
    /// The child that a tag names, if it names one.
    pub open spec fn named(name: Seq<char>) -> Option<ContributorField> {
        if name == "author"@ {
            Some(ContributorField::Author)
        } else if name == "author_email"@ {
            Some(ContributorField::AuthorEmail)
        } else if name == "author_website"@ {
            Some(ContributorField::AuthorWebsite)
        } else if name == "authoring_tool"@ {
            Some(ContributorField::AuthoringTool)
        } else if name == "comments"@ {
            Some(ContributorField::Comments)
        } else if name == "copyright"@ {
            Some(ContributorField::Copyright)
        } else if name == "source_data"@ {
            Some(ContributorField::SourceData)
        } else {
            None
        }
    }

    /// The child that a tag names, if it names one.
    pub fn of(name: &str) -> (r: Option<ContributorField>)
        ensures
            r == ContributorField::named(name@),
    {
        if same(name, "author") {
            Some(ContributorField::Author)
        } else if same(name, "author_email") {
            Some(ContributorField::AuthorEmail)
        } else if same(name, "author_website") {
            Some(ContributorField::AuthorWebsite)
        } else if same(name, "authoring_tool") {
            Some(ContributorField::AuthoringTool)
        } else if same(name, "comments") {
            Some(ContributorField::Comments)
        } else if same(name, "copyright") {
            Some(ContributorField::Copyright)
        } else if same(name, "source_data") {
            Some(ContributorField::SourceData)
        } else {
            None
        }
    }
}

impl ContributorView {
    /// The contributor of whom nothing is known.
    pub open spec fn empty() -> ContributorView {
        ContributorView {
            author: None,
            author_email: None,
            author_website: None,
            authoring_tool: None,
            comments: None,
            copyright: None,
            source_data: None,
        }
    }

    /// The contributor with the text `t` in the given field.
    pub open spec fn with(self, field: ContributorField, t: Seq<char>) -> ContributorView {
        match field {
            ContributorField::Author => ContributorView { author: Some(t), ..self },
            ContributorField::AuthorEmail => ContributorView { author_email: Some(t), ..self },
            ContributorField::AuthorWebsite => ContributorView { author_website: Some(t), ..self },
            ContributorField::AuthoringTool => ContributorView { authoring_tool: Some(t), ..self },
            ContributorField::Comments => ContributorView { comments: Some(t), ..self },
            ContributorField::Copyright => ContributorView { copyright: Some(t), ..self },
            ContributorField::SourceData => ContributorView { source_data: Some(t), ..self },
        }
    }

    /// Reads one child into the contributor: a child needs a text, and its tag
    /// decides which field takes the text.
    pub open spec fn step(self, c: Node) -> Result<ContributorView, Failure> {
        match c.text {
            None => Err(Failure::MissingData { elem: c.name }),
            Some(t) => match ContributorField::named(c.name) {
                Some(field) => Ok(self.with(field, t)),
                None => Err(Failure::InvalidChild { child: c.name, parent: "contributor"@ }),
            },
        }
    }

    /// The children of the element that stands for the contributor: one for
    /// each field that is set, in the fixed order of the fields.
    pub open spec fn children(self) -> Seq<Node> {
        optional_leaf("author"@, self.author) + optional_leaf("author_email"@, self.author_email)
            + optional_leaf("author_website"@, self.author_website) + optional_leaf(
            "authoring_tool"@,
            self.authoring_tool,
        ) + optional_leaf("comments"@, self.comments) + optional_leaf(
            "copyright"@,
            self.copyright,
        ) + optional_leaf("source_data"@, self.source_data)
    }
}

impl Contributor {
    /// A contributor of whom nothing is known.
    pub fn new() -> (r: Contributor)
        ensures
            r@ == ContributorView::empty(),
    {
        Contributor {
            author: None,
            author_email: None,
            author_website: None,
            authoring_tool: None,
            comments: None,
            copyright: None,
            source_data: None,
        }
    }

    /// Reads one child into the contributor.
    fn take(&mut self, c: &Element) -> (r: Result<(), ColladaError>)
        ensures
            match old(self)@.step(node(*c)) {
                Ok(v) => r is Ok && final(self)@ == v,
                Err(f) => r is Err && r->Err_0@ == f,
            },
    {
        let name = tag(c);
        let content = match text(c) {
            Some(t) => t.clone(),
            None => {
                return Err(ColladaError::MissingData { elem: String::from_str(name) });
            },
        };
        match ContributorField::of(name) {
            Some(ContributorField::Author) => {
                self.author = Some(content);
            },
            Some(ContributorField::AuthorEmail) => {
                self.author_email = Some(content);
            },
            Some(ContributorField::AuthorWebsite) => {
                self.author_website = Some(content);
            },
            Some(ContributorField::AuthoringTool) => {
                self.authoring_tool = Some(content);
            },
            Some(ContributorField::Comments) => {
                self.comments = Some(content);
            },
            Some(ContributorField::Copyright) => {
                self.copyright = Some(content);
            },
            Some(ContributorField::SourceData) => {
                self.source_data = Some(content);
            },
            None => {
                return Err(
                    ColladaError::InvalidChild {
                        child: String::from_str(name),
                        parent: String::from_str("contributor"),
                    },
                );
            },
        }
        Ok(())
    }

    /// The contributor that `e` describes.
    pub(crate) fn read(e: &Element) -> (r: Result<Contributor, ColladaError>)
        ensures
            match Contributor::decoded(node(*e)) {
                Ok(v) => r is Ok && r->Ok_0@ == v,
                Err(f) => r is Err && r->Err_0@ == f,
            },
    {
        if !same(tag(e), "contributor") {
            return Err(
                ColladaError::MissingElement {
                    structure: String::from_str("contributor"),
                    elem: String::from_str("contributor"),
                },
            );
        }
        let cs = children(e);
        let ghost step = |s: ContributorView, c: Node| s.step(c);
        let mut rec = Contributor::new();
        let mut i: usize = 0;
        while i < cs.len()
            invariant
                i <= cs.len(),
                nodes(cs@) == node(*e).children,
                node(*e).name == "contributor"@,
                step == |s: ContributorView, c: Node| s.step(c),
                walk(nodes(cs@), i as int, rec@, step) == walk(
                    nodes(cs@),
                    0,
                    ContributorView::empty(),
                    step,
                ),
            decreases cs.len() - i,
        {
            assert(nodes(cs@)[i as int] == node(cs@[i as int]));
            match rec.take(&cs[i]) {
                Ok(_) => {},
                Err(err) => {
                    return Err(err);
                },
            }
            i = i + 1;
        }
        Ok(rec)
    }
}

impl XmlConversion for Contributor {
    /// A `contributor` element whose children each carry a text and one of the
    /// seven tags. Where a tag occurs twice, the later child counts.
    open spec fn decoded(n: Node) -> Result<ContributorView, Failure> {
        if n.name != "contributor"@ {
            Err(Failure::MissingElement { structure: "contributor"@, elem: "contributor"@ })
        } else {
            walk(n.children, 0, ContributorView::empty(), |s: ContributorView, c: Node| s.step(c))
        }
    }

    open spec fn encoded(v: ContributorView) -> Node {
        Node { children: v.children(), ..bare("contributor"@) }
    }

    fn parse(&mut self, e: &Element) -> (r: Result<(), ColladaError>) {
        match Contributor::read(e) {
            Ok(rec) => {
                *self = rec;
                Ok(())
            },
            Err(err) => Err(err),
        }
    }

    fn encode(&self) -> (e: Element) {
        let mut root = element("contributor");
        push_optional(&mut root, "author", &self.author);
        push_optional(&mut root, "author_email", &self.author_email);
        push_optional(&mut root, "author_website", &self.author_website);
        push_optional(&mut root, "authoring_tool", &self.authoring_tool);
        push_optional(&mut root, "comments", &self.comments);
        push_optional(&mut root, "copyright", &self.copyright);
        push_optional(&mut root, "source_data", &self.source_data);
        assert(node(root).children =~= self@.children());
        root
    }
}

} // verus!
