//! A parsed page as a flat list of nodes in document order.
//!
//! Each node names its parent by offset, and a parent stands before its
//! children. Everything a harvest asks of a page (children, descendants,
//! text, attributes, classes) is defined over that list.

use scraper::Html;
use scraper::Node::{Comment, Element, Text};
use std::collections::HashMap;
use vstd::prelude::*;
use vstd::utf8::encode_utf8;
use crate::error::{Error, ErrorView};
use crate::text::{chars_match_at, occurs_at, str_eq, to_chars};

verus! {

/// What a node holds.
#[derive(Debug, Clone, PartialEq, Eq)]
pub enum NodeData {
    /// A run of text.
    Text(String),
    /// An element with its tag name and its attributes. A page that is read
    /// has them in the order of their names, each name once.
    Element { name: String, attributes: Vec<(String, String)> },
    /// A comment.
    Comment(String),
    /// Anything else, such as a document type.
    Other,
}

/// One node of a page.
#[derive(Debug, Clone, PartialEq, Eq)]
pub struct Node {
    /// Offset of the parent; `None` at the top of the page.
    pub parent: Option<usize>,
    pub data: NodeData,
}

/// A page: its nodes in document order.
#[derive(Debug, Clone, PartialEq, Eq)]
pub struct Document {
    pub nodes: Vec<Node>,
}

/// Mathematical content of a [`NodeData`].
pub enum NodeDataView {
    Text(Seq<char>),
    Element { name: Seq<char>, attributes: Seq<(Seq<char>, Seq<char>)> },
    Comment(Seq<char>),
    Other,
}

/// Mathematical content of a [`Node`].
pub struct NodeView {
    pub parent: Option<usize>,
    pub data: NodeDataView,
}

impl View for NodeData {
    type V = NodeDataView;

    open spec fn view(&self) -> NodeDataView {
        match self {
            NodeData::Text(text) => NodeDataView::Text(text@),
            NodeData::Element { name, attributes } => NodeDataView::Element {
                name: name@,
                attributes: attributes.deep_view(),
            },
            NodeData::Comment(text) => NodeDataView::Comment(text@),
            NodeData::Other => NodeDataView::Other,
        }
    }
}

impl View for Node {
    type V = NodeView;

    open spec fn view(&self) -> NodeView {
        NodeView { parent: self.parent, data: self.data@ }
    }
}

impl View for Document {
    type V = Seq<NodeView>;

    open spec fn view(&self) -> Seq<NodeView> {
        node_views(self.nodes@)
    }
}

/// The most bytes that a page may have: a third of `u32::MAX`, which is all
/// that the parser can take. It holds every text, attribute and comment in a
/// buffer of at most `u32::MAX` bytes, and writes up to three bytes there
/// for one byte of the page (a NUL byte becomes U+FFFD).
pub const MAX_PAGE_BYTES: usize = 1431655765;

/// The page text is short enough to be read.
pub open spec fn fits_a_page(html: Seq<char>) -> bool {
    encode_utf8(html).len() <= MAX_PAGE_BYTES
}

/// Every node that names a parent stands behind it.
pub open spec fn parents_first(doc: Seq<NodeView>) -> bool {
    forall|i: int|
        0 <= i < doc.len() ==> ((#[trigger] doc[i]).parent matches Some(p) ==> p < i)
}

/// The failure for a page that is too long to be read.
pub open spec fn too_long() -> ErrorView {
    ErrorView::UnableToRetrieve("page too long"@)
}

/// The content of each node of `nodes`.
pub open spec fn node_views(nodes: Seq<Node>) -> Seq<NodeView> {
    Seq::new(nodes.len(), |i: int| nodes[i]@)
}

/// The nodes of the tree that `scraper` parses the page text `html` into,
/// in document order, the root first.
pub uninterp spec fn html_nodes(html: Seq<char>) -> Seq<NodeView>;

/// A pair of texts, each as a text of its own.
fn owned(pair: (&str, &str)) -> (copy: (String, String))
    ensures
        copy.0@ == pair.0@,
        copy.1@ == pair.1@,
{
    (String::from_str(pair.0), String::from_str(pair.1))
}

/// Parses a page with `scraper::Html::parse_document` and lists the nodes
/// of the tree as `ego_tree`'s `descendants` hands them out from the root.
///
/// Not verified. Only a text of at most [`MAX_PAGE_BYTES`] bytes is
/// admitted: beyond it a buffer of the parser may overflow, which makes it
/// panic. The contract claims that the list of nodes is a function of the
/// page text alone, of which `html_nodes` is the name, and that a parent
/// stands before its children, as it does in a walk from the root. A node's
/// parent is named by its place in the list, and its attributes come sorted
/// by name, as `scraper` keeps them.
#[verifier::external_body]
fn parse_document(html: &str) -> (nodes: Vec<Node>)
    requires
        fits_a_page(html@),
    ensures
        node_views(nodes@) == html_nodes(html@),
        parents_first(node_views(nodes@)),
{
    let page = Html::parse_document(html);
    let root = page.tree.root();
    let places: HashMap<_, usize> = root.descendants().map(|n| n.id()).zip(0..).collect();
    root.descendants().map(|n| Node {
        parent: n.parent().map(|p| places[&p.id()]),
        data: match n.value() {
            Text(text) => NodeData::Text(text.to_string()),
            Comment(text) => NodeData::Comment(text.to_string()),
            Element(e) => NodeData::Element {
                name: e.name().to_string(),
                attributes: e.attrs().map(owned).collect(),
            },
            _ => NodeData::Other,
        },
    }).collect()
}

/// Reads a page: its nodes in document order, or a failure where the text
/// has more than [`MAX_PAGE_BYTES`] bytes.
pub fn read_page(html: &str) -> (r: Result<Document, Error>)
    ensures
        match r {
            Ok(document) => fits_a_page(html@) && document@ == html_nodes(html@) && parents_first(
                document@,
            ),
            Err(e) => !fits_a_page(html@) && e@ == too_long(),
        },
{
    if html.as_bytes().len() > MAX_PAGE_BYTES {
        Err(Error::UnableToRetrieve(String::from_str("page too long")))
    } else {
        Ok(Document { nodes: parse_document(html) })
    }
}

/// The offsets below `n` that `keep` accepts, in rising order.
pub open spec fn positions(n: nat, keep: spec_fn(int) -> bool) -> Seq<usize>
    decreases n,
{
    if n == 0 {
        Seq::empty()
    } else {
        let rest = positions((n - 1) as nat, keep);
        if keep(n - 1) {
            rest.push((n - 1) as usize)
        } else {
            rest
        }
    }
}

/// `positions` holds exactly the accepted offsets, each once, in rising order.
pub proof fn lemma_positions(n: nat, keep: spec_fn(int) -> bool)
    requires
        n <= usize::MAX,
    ensures
        positions(n, keep).len() <= n,
        forall|k: int|
            0 <= k < positions(n, keep).len() ==> (#[trigger] positions(n, keep)[k]) < n && keep(
                positions(n, keep)[k] as int,
            ),
        forall|a: int, b: int|
            0 <= a < b < positions(n, keep).len() ==> positions(n, keep)[a] < positions(
                n,
                keep,
            )[b],
        forall|j: int| 0 <= j < n && #[trigger] keep(j) ==> positions(n, keep).contains(j as usize),
    decreases n,
{
    if n > 0 {
        let rest = positions((n - 1) as nat, keep);
        lemma_positions((n - 1) as nat, keep);
        let all = positions(n, keep);
        assert forall|j: int| 0 <= j < n && #[trigger] keep(j) implies all.contains(j as usize) by {
            if j < n - 1 {
                let k = choose|k: int| 0 <= k < rest.len() && rest[k] == j as usize;
                assert(all[k] == j as usize);
            } else {
                assert(all[all.len() - 1] == j as usize);
            }
        }
    }
}

/// The value of the first attribute called `name`.
pub open spec fn find_attribute(
    attributes: Seq<(Seq<char>, Seq<char>)>,
    name: Seq<char>,
) -> Option<Seq<char>>
    decreases attributes.len(),
{
    if attributes.len() == 0 {
        None
    } else if attributes[0].0 == name {
        Some(attributes[0].1)
    } else {
        find_attribute(attributes.drop_first(), name)
    }
}

/// The value of the node's attribute `name`; `None` for what is no element.
pub open spec fn attribute_of(node: NodeView, name: Seq<char>) -> Option<Seq<char>> {
    match node.data {
        NodeDataView::Element { attributes, .. } => find_attribute(attributes, name),
        _ => None,
    }
}

/// The node is an element with the tag `name`.
pub open spec fn is_named(node: NodeView, name: Seq<char>) -> bool {
    match node.data {
        NodeDataView::Element { name: tag, .. } => tag == name,
        _ => false,
    }
}

/// The text that the node itself holds; none for what is no text node.
pub open spec fn own_text(node: NodeView) -> Seq<char> {
    match node.data {
        NodeDataView::Text(text) => text,
        _ => Seq::empty(),
    }
}

/// One of the characters that part the words of an attribute: the white
/// space of Unicode.
pub open spec fn is_space(c: char) -> bool {
    let code = c as u32;
    ||| 9 <= code <= 13
    ||| code == 32
    ||| code == 133
    ||| code == 160
    ||| code == 5760
    ||| 8192 <= code <= 8202
    ||| code == 8232
    ||| code == 8233
    ||| code == 8239
    ||| code == 8287
    ||| code == 12288
}

/// `word` stands in `list` at `at`, with a space or an end on either side.
pub open spec fn is_word_at(list: Seq<char>, word: Seq<char>, at: int) -> bool {
    &&& occurs_at(list, word, at)
    &&& (at == 0 || is_space(list[at - 1]))
    &&& (at + word.len() == list.len() || is_space(list[at + word.len()]))
}

/// `word` is one of the words of `list`, which spaces part.
pub open spec fn names_word(list: Seq<char>, word: Seq<char>) -> bool {
    &&& word.len() > 0
    &&& forall|i: int| 0 <= i < word.len() ==> !is_space(#[trigger] word[i])
    &&& exists|at: int| is_word_at(list, word, at)
}

/// The node's `class` attribute names `class`.
pub open spec fn has_class(node: NodeView, class: Seq<char>) -> bool {
    match attribute_of(node, "class"@) {
        Some(list) => names_word(list, class),
        None => false,
    }
}

/// Node `j` lies below node `root`: its chain of parents, each before its
/// child, reaches `root`.
pub open spec fn is_under(doc: Seq<NodeView>, j: int, root: int) -> bool
    decreases j,
{
    if 0 <= j < doc.len() {
        match doc[j].parent {
            Some(p) => p < j && (p == root || is_under(doc, p as int, root)),
            None => false,
        }
    } else {
        false
    }
}

/// Node `j` lies below a node whose class names `class` and which is
/// `root` or lies below it.
pub open spec fn is_below_class(doc: Seq<NodeView>, j: int, root: int, class: Seq<char>) -> bool
    decreases j,
{
    if 0 <= j < doc.len() {
        match doc[j].parent {
            Some(p) => p < j && ((has_class(doc[p as int], class) && (p == root || is_under(
                doc,
                p as int,
                root,
            ))) || is_below_class(doc, p as int, root, class)),
            None => false,
        }
    } else {
        false
    }
}

/// Accepts the elements with the tag `name` that lie below a node whose
/// class names `class` and which is `root` or lies below it.
pub open spec fn named_below_class(
    doc: Seq<NodeView>,
    root: usize,
    class: Seq<char>,
    name: Seq<char>,
) -> spec_fn(int) -> bool {
    |j: int| is_below_class(doc, j, root as int, class) && is_named(doc[j], name)
}

/// Accepts the children of `parent`.
pub open spec fn child_of(doc: Seq<NodeView>, parent: usize) -> spec_fn(int) -> bool {
    |j: int| doc[j].parent == Some(parent)
}

/// Accepts the elements below `root` with the tag `name`.
pub open spec fn named_under(doc: Seq<NodeView>, root: usize, name: Seq<char>) -> spec_fn(
    int,
) -> bool {
    |j: int| is_under(doc, j, root as int) && is_named(doc[j], name)
}

/// Accepts the children of `parent` that are elements with the tag `name`.
pub open spec fn named_child_of(doc: Seq<NodeView>, parent: usize, name: Seq<char>) -> spec_fn(
    int,
) -> bool {
    |j: int| doc[j].parent == Some(parent) && is_named(doc[j], name)
}

/// Accepts the nodes below `root` whose class names `class`.
pub open spec fn classed_under(doc: Seq<NodeView>, root: usize, class: Seq<char>) -> spec_fn(
    int,
) -> bool {
    |j: int| is_under(doc, j, root as int) && has_class(doc[j], class)
}

/// Accepts the nodes whose attribute `name` is `value`.
pub open spec fn with_attribute(doc: Seq<NodeView>, name: Seq<char>, value: Seq<char>) -> spec_fn(
    int,
) -> bool {
    |j: int| attribute_of(doc[j], name) == Some(value)
}

/// Accepts the nodes whose class names `class`.
pub open spec fn with_class(doc: Seq<NodeView>, class: Seq<char>) -> spec_fn(int) -> bool {
    |j: int| has_class(doc[j], class)
}

/// Accepts the children of the nodes whose class names `class`.
pub open spec fn child_of_class(doc: Seq<NodeView>, class: Seq<char>) -> spec_fn(int) -> bool {
    |j: int|
        match doc[j].parent {
            Some(p) => p < doc.len() && has_class(doc[p as int], class),
            None => false,
        }
}

/// The children of `parent`, in document order.
pub open spec fn children(doc: Seq<NodeView>, parent: usize) -> Seq<usize> {
    positions(doc.len(), child_of(doc, parent))
}

/// The first of `list`, if it has one.
pub open spec fn first(list: Seq<usize>) -> Option<usize> {
    if list.len() > 0 {
        Some(list[0])
    } else {
        None
    }
}

/// The text of the nodes before `n` that are `root` or lie below it.
pub open spec fn text_upto(doc: Seq<NodeView>, root: usize, n: nat) -> Seq<char>
    decreases n,
{
    if n == 0 {
        Seq::empty()
    } else {
        let rest = text_upto(doc, root, (n - 1) as nat);
        if n - 1 == root || is_under(doc, n - 1, root as int) {
            rest + own_text(doc[n - 1])
        } else {
            rest
        }
    }
}

/// All the text of `root` and of the nodes below it, in document order.
pub open spec fn text_of(doc: Seq<NodeView>, root: usize) -> Seq<char> {
    text_upto(doc, root, doc.len())
}

proof fn lemma_find_attribute_skip(
    attributes: Seq<(Seq<char>, Seq<char>)>,
    name: Seq<char>,
    k: int,
)
    requires
        0 <= k < attributes.len(),
        attributes[k].0 != name,
    ensures
        find_attribute(attributes.skip(k), name) == find_attribute(attributes.skip(k + 1), name),
{
    assert(attributes.skip(k).drop_first() =~= attributes.skip(k + 1));
}

fn is_space_char(c: char) -> (space: bool)
    ensures
        space == is_space(c),
{
    let code = c as u32;
    (9 <= code && code <= 13) || code == 32 || code == 133 || code == 160 || code == 5760 || (8192
        <= code && code <= 8202) || code == 8232 || code == 8233 || code == 8239 || code == 8287
        || code == 12288
}

/// Whether `word` is one of the words of `list`, which spaces part.
pub fn list_names_word(list: &str, word: &str) -> (found: bool)
    ensures
        found == names_word(list@, word@),
{
    let hay = to_chars(list);
    let pat = to_chars(word);
    if pat.len() == 0 || pat.len() > hay.len() {
        return false;
    }
    let mut k: usize = 0;
    while k < pat.len()
        invariant
            k <= pat.len(),
            pat@ == word@,
            forall|i: int| 0 <= i < k ==> !is_space(#[trigger] pat@[i]),
        decreases pat.len() - k,
    {
        if is_space_char(pat[k]) {
            assert(is_space(word@[k as int]));
            return false;
        }
        k += 1;
    }
    let last: usize = hay.len() - pat.len();
    let mut at: usize = 0;
    loop
        invariant
            hay@ == list@,
            pat@ == word@,
            last == hay.len() - pat.len(),
            at <= last,
            pat.len() > 0,
            forall|i: int| 0 <= i < pat.len() ==> !is_space(#[trigger] pat@[i]),
            forall|j: int| 0 <= j < at ==> !is_word_at(hay@, pat@, j),
        decreases last - at,
    {
        let left = at == 0 || is_space_char(hay[at - 1]);
        let right = at == last || is_space_char(hay[at + pat.len()]);
        if left && right && chars_match_at(&hay, &pat, at) {
            assert(is_word_at(hay@, pat@, at as int));
            return true;
        }
        if at == last {
            return false;
        }
        at += 1;
    }
}

impl Node {
    /// The value of the attribute `name`, if the node is an element that has it.
    pub fn attribute(&self, name: &str) -> (value: Option<String>)
        ensures
            value.deep_view() == attribute_of(self@, name@),
    {
        match &self.data {
            NodeData::Element { name: _, attributes } => {
                let mut k: usize = 0;
                assert(attributes.deep_view().skip(0) =~= attributes.deep_view());
                while k < attributes.len()
                    invariant
                        k <= attributes.len(),
                        attribute_of(self@, name@) == find_attribute(
                            attributes.deep_view(),
                            name@,
                        ),
                        find_attribute(attributes.deep_view(), name@) == find_attribute(
                            attributes.deep_view().skip(k as int),
                            name@,
                        ),
                    decreases attributes.len() - k,
                {
                    let ghost pairs = attributes.deep_view();
                    assert(pairs.skip(k as int)[0] == pairs[k as int]);
                    assert(pairs[k as int] == attributes@[k as int].deep_view());
                    if str_eq(attributes[k].0.as_str(), name) {
                        return Some(attributes[k].1.clone());
                    }
                    proof {
                        lemma_find_attribute_skip(attributes.deep_view(), name@, k as int);
                    }
                    k += 1;
                }
                None
            },
            _ => None,
        }
    }

    /// Whether the node is an element with the tag `name`.
    pub fn has_name(&self, name: &str) -> (named: bool)
        ensures
            named == is_named(self@, name@),
    {
        match &self.data {
            NodeData::Element { name: tag, attributes: _ } => str_eq(tag.as_str(), name),
            _ => false,
        }
    }

    /// Whether the node's `class` attribute names `class`.
    pub fn has_class(&self, class: &str) -> (found: bool)
        ensures
            found == has_class(self@, class@),
    {
        match self.attribute("class") {
            Some(list) => list_names_word(list.as_str(), class),
            None => false,
        }
    }
}

impl Document {
    /// For each node, whether it lies below `root`.
    fn under_flags(&self, root: usize) -> (flags: Vec<bool>)
        ensures
            flags.len() == self.nodes.len(),
            forall|j: int| 0 <= j < flags.len() ==> flags[j] == is_under(self@, j, root as int),
    {
        let mut flags: Vec<bool> = Vec::new();
        let mut j: usize = 0;
        while j < self.nodes.len()
            invariant
                j <= self.nodes.len(),
                flags.len() == j,
                forall|k: int| 0 <= k < j ==> flags[k] == is_under(self@, k, root as int),
            decreases self.nodes.len() - j,
        {
            let flag = match self.nodes[j].parent {
                Some(p) => p < j && (p == root || flags[p]),
                None => false,
            };
            flags.push(flag);
            j += 1;
        }
        flags
    }

    /// The children of `parent`, in document order.
    pub fn children(&self, parent: usize) -> (list: Vec<usize>)
        ensures
            list@ == children(self@, parent),
            forall|k: int| 0 <= k < list.len() ==> list[k] < self.nodes.len(),
    {
        let mut list: Vec<usize> = Vec::new();
        let mut j: usize = 0;
        while j < self.nodes.len()
            invariant
                j <= self.nodes.len(),
                list@ == positions(j as nat, child_of(self@, parent)),
            decreases self.nodes.len() - j,
        {
            if self.nodes[j].parent == Some(parent) {
                list.push(j);
            }
            j += 1;
        }
        proof {
            lemma_positions(self@.len(), child_of(self@, parent));
        }
        list
    }

    /// The children of `parent` that are elements with the tag `name`, in
    /// document order.
    pub fn children_named(&self, parent: usize, name: &str) -> (list: Vec<usize>)
        ensures
            list@ == positions(self@.len(), named_child_of(self@, parent, name@)),
            forall|k: int| 0 <= k < list.len() ==> list[k] < self.nodes.len(),
    {
        let mut list: Vec<usize> = Vec::new();
        let mut j: usize = 0;
        while j < self.nodes.len()
            invariant
                j <= self.nodes.len(),
                list@ == positions(j as nat, named_child_of(self@, parent, name@)),
            decreases self.nodes.len() - j,
        {
            if self.nodes[j].parent == Some(parent) && self.nodes[j].has_name(name) {
                list.push(j);
            }
            j += 1;
        }
        proof {
            lemma_positions(self@.len(), named_child_of(self@, parent, name@));
        }
        list
    }

    /// The first child of `parent`.
    pub fn first_child(&self, parent: usize) -> (child: Option<usize>)
        ensures
            child == first(children(self@, parent)),
            child matches Some(c) ==> c < self.nodes.len(),
    {
        let list = self.children(parent);
        if list.len() > 0 {
            Some(list[0])
        } else {
            None
        }
    }

    /// The elements below `root` with the tag `name`, in document order.
    pub fn elements_under(&self, root: usize, name: &str) -> (list: Vec<usize>)
        ensures
            list@ == positions(self@.len(), named_under(self@, root, name@)),
            forall|k: int| 0 <= k < list.len() ==> list[k] < self.nodes.len(),
    {
        let flags = self.under_flags(root);
        let mut list: Vec<usize> = Vec::new();
        let mut j: usize = 0;
        while j < self.nodes.len()
            invariant
                j <= self.nodes.len(),
                flags.len() == self.nodes.len(),
                forall|k: int| 0 <= k < flags.len() ==> flags[k] == is_under(self@, k, root as int),
                list@ == positions(j as nat, named_under(self@, root, name@)),
            decreases self.nodes.len() - j,
        {
            if flags[j] && self.nodes[j].has_name(name) {
                list.push(j);
            }
            j += 1;
        }
        proof {
            lemma_positions(self@.len(), named_under(self@, root, name@));
        }
        list
    }

    /// The nodes below `root` whose class names `class`, in document order.
    pub fn classed_under(&self, root: usize, class: &str) -> (list: Vec<usize>)
        ensures
            list@ == positions(self@.len(), classed_under(self@, root, class@)),
            forall|k: int| 0 <= k < list.len() ==> list[k] < self.nodes.len(),
    {
        let flags = self.under_flags(root);
        let mut list: Vec<usize> = Vec::new();
        let mut j: usize = 0;
        while j < self.nodes.len()
            invariant
                j <= self.nodes.len(),
                flags.len() == self.nodes.len(),
                forall|k: int| 0 <= k < flags.len() ==> flags[k] == is_under(self@, k, root as int),
                list@ == positions(j as nat, classed_under(self@, root, class@)),
            decreases self.nodes.len() - j,
        {
            if flags[j] && self.nodes[j].has_class(class) {
                list.push(j);
            }
            j += 1;
        }
        proof {
            lemma_positions(self@.len(), classed_under(self@, root, class@));
        }
        list
    }

    /// The elements with the tag `name` that lie below a node whose class
    /// names `class` and which is `root` or lies below it, in document
    /// order.
    pub fn elements_below_class(&self, root: usize, class: &str, name: &str) -> (list: Vec<usize>)
        ensures
            list@ == positions(self@.len(), named_below_class(self@, root, class@, name@)),
            forall|k: int| 0 <= k < list.len() ==> list[k] < self.nodes.len(),
    {
        let flags = self.under_flags(root);
        let mut marked: Vec<bool> = Vec::new();
        let mut inside: Vec<bool> = Vec::new();
        let mut list: Vec<usize> = Vec::new();
        let mut j: usize = 0;
        while j < self.nodes.len()
            invariant
                j <= self.nodes.len(),
                flags.len() == self.nodes.len(),
                marked.len() == j,
                inside.len() == j,
                forall|k: int| 0 <= k < flags.len() ==> flags[k] == is_under(self@, k, root as int),
                forall|k: int|
                    0 <= k < j ==> marked[k] == (has_class(self@[k], class@) && (k == root
                        || is_under(self@, k, root as int))),
                forall|k: int|
                    0 <= k < j ==> inside[k] == is_below_class(self@, k, root as int, class@),
                list@ == positions(j as nat, named_below_class(self@, root, class@, name@)),
            decreases self.nodes.len() - j,
        {
            let below = match self.nodes[j].parent {
                Some(p) => p < j && (marked[p] || inside[p]),
                None => false,
            };
            let mark = (j == root || flags[j]) && self.nodes[j].has_class(class);
            if below && self.nodes[j].has_name(name) {
                list.push(j);
            }
            marked.push(mark);
            inside.push(below);
            j += 1;
        }
        proof {
            lemma_positions(self@.len(), named_below_class(self@, root, class@, name@));
        }
        list
    }

    /// The nodes whose attribute `name` is `value`, in document order.
    pub fn with_attribute(&self, name: &str, value: &str) -> (list: Vec<usize>)
        ensures
            list@ == positions(self@.len(), with_attribute(self@, name@, value@)),
            forall|k: int| 0 <= k < list.len() ==> list[k] < self.nodes.len(),
    {
        let mut list: Vec<usize> = Vec::new();
        let mut j: usize = 0;
        while j < self.nodes.len()
            invariant
                j <= self.nodes.len(),
                list@ == positions(j as nat, with_attribute(self@, name@, value@)),
            decreases self.nodes.len() - j,
        {
            let found = match self.nodes[j].attribute(name) {
                Some(held) => str_eq(held.as_str(), value),
                None => false,
            };
            if found {
                list.push(j);
            }
            j += 1;
        }
        proof {
            lemma_positions(self@.len(), with_attribute(self@, name@, value@));
        }
        list
    }

    /// The nodes whose class names `class`, in document order.
    pub fn with_class(&self, class: &str) -> (list: Vec<usize>)
        ensures
            list@ == positions(self@.len(), with_class(self@, class@)),
            forall|k: int| 0 <= k < list.len() ==> list[k] < self.nodes.len(),
    {
        let mut list: Vec<usize> = Vec::new();
        let mut j: usize = 0;
        while j < self.nodes.len()
            invariant
                j <= self.nodes.len(),
                list@ == positions(j as nat, with_class(self@, class@)),
            decreases self.nodes.len() - j,
        {
            if self.nodes[j].has_class(class) {
                list.push(j);
            }
            j += 1;
        }
        proof {
            lemma_positions(self@.len(), with_class(self@, class@));
        }
        list
    }

    /// The children of the nodes whose class names `class`, in document
    /// order.
    pub fn children_of_class(&self, class: &str) -> (list: Vec<usize>)
        ensures
            list@ == positions(self@.len(), child_of_class(self@, class@)),
            forall|k: int| 0 <= k < list.len() ==> list[k] < self.nodes.len(),
    {
        let mut marked: Vec<bool> = Vec::new();
        let mut i: usize = 0;
        while i < self.nodes.len()
            invariant
                i <= self.nodes.len(),
                marked.len() == i,
                forall|k: int| 0 <= k < i ==> marked[k] == has_class(self@[k], class@),
            decreases self.nodes.len() - i,
        {
            marked.push(self.nodes[i].has_class(class));
            i += 1;
        }
        let mut list: Vec<usize> = Vec::new();
        let mut j: usize = 0;
        while j < self.nodes.len()
            invariant
                j <= self.nodes.len(),
                marked.len() == self.nodes.len(),
                forall|k: int| 0 <= k < marked.len() ==> marked[k] == has_class(self@[k], class@),
                list@ == positions(j as nat, child_of_class(self@, class@)),
            decreases self.nodes.len() - j,
        {
            let child = match self.nodes[j].parent {
                Some(p) => p < self.nodes.len() && marked[p],
                None => false,
            };
            if child {
                list.push(j);
            }
            j += 1;
        }
        proof {
            lemma_positions(self@.len(), child_of_class(self@, class@));
        }
        list
    }

    /// All the text of `root` and of the nodes below it, in document order.
    pub fn text(&self, root: usize) -> (text: String)
        ensures
            text@ == text_of(self@, root),
    {
        let flags = self.under_flags(root);
        let mut text = String::new();
        let mut j: usize = 0;
        while j < self.nodes.len()
            invariant
                j <= self.nodes.len(),
                flags.len() == self.nodes.len(),
                forall|k: int| 0 <= k < flags.len() ==> flags[k] == is_under(self@, k, root as int),
                text@ == text_upto(self@, root, j as nat),
            decreases self.nodes.len() - j,
        {
            if j == root || flags[j] {
                match &self.nodes[j].data {
                    NodeData::Text(own) => {
                        text.append(own.as_str());
                    },
                    _ => {
                        assert(text@ + own_text(self@[j as int]) =~= text@);
                    },
                }
            }
            j += 1;
        }
        text
    }
}

} // verus!
