//! The HTML component tree and its string renderer. Pages are built from
//! elements with ordered attributes and ordered children; rendering is a
//! pure function of the tree: normal elements produce `<tag ...>children</tag>`,
//! void elements produce `<tag ... />`, and text nodes appear verbatim.

use vstd::prelude::*;

verus! {

/// An element: a tag, whether it is a void element (self-closing, no
/// children rendered), its attributes in insertion order, and its children
/// in insertion order.
pub struct Element {
    pub tag: String,
    pub void: bool,
    pub attrs: Vec<(String, String)>,
    pub children: Vec<Node>,
}

/// One node of the tree: verbatim text, or an element.
pub enum Node {
    Text(String),
    Elem(Element),
}

/// The mathematical shadow of an element.
pub struct ElemV {
    pub tag: Seq<char>,
    pub void: bool,
    pub attrs: Seq<(Seq<char>, Seq<char>)>,
    pub children: Seq<NodeV>,
}

/// The mathematical shadow of a node.
pub enum NodeV {
    Text(Seq<char>),
    Elem(ElemV),
}

/// The models of a sequence of attributes.
pub open spec fn attrs_view(ats: Seq<(String, String)>) -> Seq<(Seq<char>, Seq<char>)> {
    ats.map_values(|a: (String, String)| (a.0@, a.1@))
}

/// The model of a node.
pub open spec fn node_view(n: Node) -> NodeV
    decreases n,
{
    match n {
        Node::Text(s) => NodeV::Text(s@),
        Node::Elem(e) => NodeV::Elem(elem_view(e)),
    }
}

/// The model of an element.
pub open spec fn elem_view(e: Element) -> ElemV
    decreases e,
{
    ElemV {
        tag: e.tag@,
        void: e.void,
        attrs: attrs_view(e.attrs@),
        children: nodes_view(e.children@),
    }
}

/// The models of a sequence of nodes.
pub open spec fn nodes_view(ns: Seq<Node>) -> Seq<NodeV>
    decreases ns,
{
    if ns.len() == 0 {
        Seq::empty()
    } else {
        seq![node_view(ns[0])] + nodes_view(ns.drop_first())
    }
}

/// Pointwise reading of `nodes_view`.
pub proof fn lemma_nodes_view(ns: Seq<Node>)
    ensures
        nodes_view(ns).len() == ns.len(),
        forall|i: int| 0 <= i < ns.len() ==> #[trigger] nodes_view(ns)[i] == node_view(ns[i]),
    decreases ns.len(),
{
    if ns.len() > 0 {
        lemma_nodes_view(ns.drop_first());
    }
}

/// Appending one node to a node sequence appends its model to the models.
pub proof fn lemma_nodes_view_push(ns: Seq<Node>, n: Node)
    ensures
        nodes_view(ns.push(n)) == nodes_view(ns).push(node_view(n)),
    decreases ns.len(),
{
    reveal_with_fuel(nodes_view, 3);
    if ns.len() == 0 {
        assert(ns.push(n).drop_first() =~= Seq::<Node>::empty());
        assert(nodes_view(ns.push(n)) =~= nodes_view(ns).push(node_view(n)));
    } else {
        assert(ns.push(n).drop_first() =~= ns.drop_first().push(n));
        lemma_nodes_view_push(ns.drop_first(), n);
        assert(nodes_view(ns.push(n)) =~= nodes_view(ns).push(node_view(n)));
    }
}

/// The rendering of one attribute: a leading space, then `key="value"`.
pub open spec fn spec_render_attr(a: (Seq<char>, Seq<char>)) -> Seq<char> {
    seq![' '] + a.0 + seq!['=', '"'] + a.1 + seq!['"']
}

/// The rendering of an attribute list, in order.
pub open spec fn spec_render_attrs(ats: Seq<(Seq<char>, Seq<char>)>) -> Seq<char>
    decreases ats.len(),
{
    if ats.len() == 0 {
        Seq::empty()
    } else {
        spec_render_attr(ats[0]) + spec_render_attrs(ats.drop_first())
    }
}

/// The rendering of a node: text verbatim; a void element as
/// `<tag attrs />`; any other element as `<tag attrs>children</tag>`.
pub open spec fn spec_render(n: NodeV) -> Seq<char>
    decreases n,
{
    match n {
        NodeV::Text(s) => s,
        NodeV::Elem(e) => if e.void {
            seq!['<'] + e.tag + spec_render_attrs(e.attrs) + seq![' ', '/', '>']
        } else {
            seq!['<'] + e.tag + spec_render_attrs(e.attrs) + seq!['>'] + spec_render_nodes(
                e.children,
            ) + seq!['<', '/'] + e.tag + seq!['>']
        },
    }
}

/// The concatenated renderings of a node sequence, in order.
pub open spec fn spec_render_nodes(ns: Seq<NodeV>) -> Seq<char>
    decreases ns,
{
    if ns.len() == 0 {
        Seq::empty()
    } else {
        spec_render(ns[0]) + spec_render_nodes(ns.drop_first())
    }
}

/// One more attribute at the end extends the rendering at the end.
proof fn lemma_render_attrs_snoc(ats: Seq<(Seq<char>, Seq<char>)>, a: (Seq<char>, Seq<char>))
    ensures
        spec_render_attrs(ats.push(a)) == spec_render_attrs(ats) + spec_render_attr(a),
    decreases ats.len(),
{
    reveal_with_fuel(spec_render_attrs, 3);
    if ats.len() == 0 {
        assert(ats.push(a).drop_first() =~= Seq::<(Seq<char>, Seq<char>)>::empty());
        assert(spec_render_attrs(ats.push(a)) =~= spec_render_attrs(ats) + spec_render_attr(a));
    } else {
        assert(ats.push(a).drop_first() =~= ats.drop_first().push(a));
        lemma_render_attrs_snoc(ats.drop_first(), a);
        assert(spec_render_attrs(ats.push(a)) =~= spec_render_attrs(ats) + spec_render_attr(a));
    }
}

/// One more node at the end extends the rendering at the end.
proof fn lemma_render_nodes_snoc(ns: Seq<NodeV>, n: NodeV)
    ensures
        spec_render_nodes(ns.push(n)) == spec_render_nodes(ns) + spec_render(n),
    decreases ns.len(),
{
    reveal_with_fuel(spec_render_nodes, 3);
    if ns.len() == 0 {
        assert(ns.push(n).drop_first() =~= Seq::<NodeV>::empty());
        assert(spec_render_nodes(ns.push(n)) =~= spec_render_nodes(ns) + spec_render(n));
    } else {
        assert(ns.push(n).drop_first() =~= ns.drop_first().push(n));
        lemma_render_nodes_snoc(ns.drop_first(), n);
        assert(spec_render_nodes(ns.push(n)) =~= spec_render_nodes(ns) + spec_render(n));
    }
}

/// Appends the rendering of `n` to `out`.
#[verifier::loop_isolation(false)]
#[verifier::rlimit(50)]
fn push_render_node(n: &Node, out: &mut String)
    ensures
        final(out)@ == old(out)@ + spec_render(node_view(*n)),
    decreases *n,
{
    match n {
        Node::Text(s) => {
            out.append(s.as_str());
        },
        Node::Elem(e) => {
            out.append("<");
            out.append(e.tag.as_str());
            let ghost avs = attrs_view(e.attrs@);
            let ghost after_tag = out@;
            let mut i: usize = 0;
            while i < e.attrs.len()
                invariant
                    i <= e.attrs@.len(),
                    avs == attrs_view(e.attrs@),
                    out@ == after_tag + spec_render_attrs(avs.take(i as int)),
                decreases e.attrs@.len() - i,
            {
                let ghost before = out@;
                out.append(" ");
                out.append(e.attrs[i].0.as_str());
                out.append("=\"");
                out.append(e.attrs[i].1.as_str());
                out.append("\"");
                proof {
                    reveal_strlit(" ");
                    reveal_strlit("=\"");
                    reveal_strlit("\"");
                    assert(out@ =~= before + spec_render_attr(avs[i as int]));
                    assert(avs.take(i + 1) =~= avs.take(i as int).push(avs[i as int]));
                    lemma_render_attrs_snoc(avs.take(i as int), avs[i as int]);
                }
                i = i + 1;
            }
            proof {
                assert(avs.take(avs.len() as int) =~= avs);
            }
            if e.void {
                out.append(" />");
                proof {
                    reveal_strlit("<");
                    reveal_strlit(" />");
                    assert(out@ =~= old(out)@ + spec_render(node_view(*n)));
                }
            } else {
                out.append(">");
                let ghost cvs = nodes_view(e.children@);
                let ghost after_open = out@;
                let mut j: usize = 0;
                while j < e.children.len()
                    invariant
                        j <= e.children@.len(),
                        cvs == nodes_view(e.children@),
                        out@ == after_open + spec_render_nodes(cvs.take(j as int)),
                    decreases e.children@.len() - j,
                {
                    proof {
                        lemma_nodes_view(e.children@);
                        assert(decreases_to!(*n => (*n)->Elem_0));
                        assert((*n)->Elem_0 == *e);
                        assert(decreases_to!(*e => e.children));
                        assert(decreases_to!(e.children => e.children@));
                        assert(decreases_to!(e.children@ => e.children@[j as int]));
                    }
                    let ghost before = out@;
                    push_render_node(&e.children[j], out);
                    proof {
                        assert(cvs.take(j + 1) =~= cvs.take(j as int).push(cvs[j as int]));
                        lemma_render_nodes_snoc(cvs.take(j as int), cvs[j as int]);
                    }
                    j = j + 1;
                }
                proof {
                    lemma_nodes_view(e.children@);
                    assert(cvs.take(cvs.len() as int) =~= cvs);
                }
                out.append("</");
                out.append(e.tag.as_str());
                out.append(">");
                proof {
                    reveal_strlit("<");
                    reveal_strlit(">");
                    reveal_strlit("</");
                    let t = e.tag@;
                    assert("<"@ =~= seq!['<']);
                    assert(">"@ =~= seq!['>']);
                    assert("</"@ =~= seq!['<', '/']);
                    assert(out@ =~= after_open + spec_render_nodes(cvs) + seq!['<', '/'] + t
                        + seq!['>']);
                    assert(after_open =~= old(out)@ + seq!['<'] + t + spec_render_attrs(avs)
                        + seq!['>']);
                    assert(spec_render(node_view(*n)) == seq!['<'] + t + spec_render_attrs(avs)
                        + seq!['>'] + spec_render_nodes(cvs) + seq!['<', '/'] + t + seq!['>']);
                    assert(out@ =~= old(out)@ + spec_render(node_view(*n)));
                }
            }
        },
    }
}

/// Copies a node; the copy has the same model.
fn duplicate_node(n: &Node) -> (r: Node)
    ensures
        node_view(r) == node_view(*n),
    decreases *n,
{
    match n {
        Node::Text(s) => Node::Text(s.clone()),
        Node::Elem(e) => {
            proof {
                assert(decreases_to!(*n => (*n)->Elem_0));
                assert((*n)->Elem_0 == *e);
            }
            Node::Elem(duplicate_elem(e))
        },
    }
}

/// Copies an element; the copy has the same model.
fn duplicate_elem(e: &Element) -> (r: Element)
    ensures
        elem_view(r) == elem_view(*e),
    decreases *e,
{
    let mut attrs: Vec<(String, String)> = Vec::new();
    let mut i: usize = 0;
    while i < e.attrs.len()
        invariant
            i <= e.attrs@.len(),
            attrs@.len() == i,
            forall|k: int|
                0 <= k < i ==> (#[trigger] attrs@[k]).0@ == e.attrs@[k].0@ && attrs@[k].1@
                    == e.attrs@[k].1@,
        decreases e.attrs@.len() - i,
    {
        attrs.push((e.attrs[i].0.clone(), e.attrs[i].1.clone()));
        i = i + 1;
    }
    let mut children: Vec<Node> = Vec::new();
    let mut j: usize = 0;
    while j < e.children.len()
        invariant
            j <= e.children@.len(),
            children@.len() == j,
            forall|k: int|
                0 <= k < j ==> node_view(#[trigger] children@[k]) == node_view(e.children@[k]),
        decreases e.children@.len() - j,
    {
        proof {
            assert(decreases_to!(*e => e.children));
            assert(decreases_to!(e.children => e.children@));
            assert(decreases_to!(e.children@ => e.children@[j as int]));
        }
        children.push(duplicate_node(&e.children[j]));
        j = j + 1;
    }
    let r = Element { tag: e.tag.clone(), void: e.void, attrs, children };
    proof {
        assert(attrs_view(r.attrs@) =~= attrs_view(e.attrs@));
        lemma_nodes_view(r.children@);
        lemma_nodes_view(e.children@);
        assert(nodes_view(r.children@) =~= nodes_view(e.children@));
    }
    r
}

/// Anything that can stand in a component tree: an element, a node, or
/// plain text. Its model is a node; turning it into a `Node` value — or
/// copying it into one — preserves that model.
pub trait Component: Sized {
    /// The node this component stands for.
    spec fn component_view(&self) -> NodeV;

    /// Turns the component into a tree node with the same model.
    fn to_node(self) -> (n: Node)
        ensures
            node_view(n) == self.component_view(),
    ;

    /// Copies the component into a tree node with the same model.
    fn duplicate(&self) -> (n: Node)
        ensures
            node_view(n) == self.component_view(),
    ;
}

impl Component for Element {
    open spec fn component_view(&self) -> NodeV {
        NodeV::Elem(elem_view(*self))
    }

    fn to_node(self) -> (n: Node) {
        Node::Elem(self)
    }

    fn duplicate(&self) -> (n: Node) {
        Node::Elem(duplicate_elem(self))
    }
}

impl Component for Node {
    open spec fn component_view(&self) -> NodeV {
        node_view(*self)
    }

    fn to_node(self) -> (n: Node) {
        self
    }

    fn duplicate(&self) -> (n: Node) {
        duplicate_node(self)
    }
}

impl Component for String {
    open spec fn component_view(&self) -> NodeV {
        NodeV::Text(self@)
    }

    fn to_node(self) -> (n: Node) {
        Node::Text(self)
    }

    fn duplicate(&self) -> (n: Node) {
        Node::Text(self.clone())
    }
}

impl Component for &str {
    open spec fn component_view(&self) -> NodeV {
        NodeV::Text(self@)
    }

    fn to_node(self) -> (n: Node) {
        Node::Text(self.to_owned())
    }

    fn duplicate(&self) -> (n: Node) {
        Node::Text((*self).to_owned())
    }
}

/// An element model extended by one attribute at the end.
pub open spec fn with_attr(e: ElemV, k: Seq<char>, v: Seq<char>) -> ElemV {
    ElemV { tag: e.tag, void: e.void, attrs: e.attrs.push((k, v)), children: e.children }
}

/// An element model extended by one child at the end.
pub open spec fn with_extra_child(e: ElemV, c: NodeV) -> ElemV {
    ElemV { tag: e.tag, void: e.void, attrs: e.attrs, children: e.children.push(c) }
}

impl Element {
    /// Adds an attribute (fluently), keeping insertion order.
    pub fn set_attribute(self, key: &str, value: &str) -> (r: Element)
        ensures
            elem_view(r) == with_attr(elem_view(self), key@, value@),
    {
        let ghost before = elem_view(self);
        let mut s = self;
        s.attrs.push((key.to_owned(), value.to_owned()));
        proof {
            assert(attrs_view(s.attrs@) =~= before.attrs.push((key@, value@)));
        }
        s
    }

    /// Adds a `class` attribute (fluently).
    pub fn class(self, value: &str) -> (r: Element)
        ensures
            elem_view(r) == with_attr(elem_view(self), "class"@, value@),
    {
        self.set_attribute("class", value)
    }

    /// Appends a child component (fluently).
    pub fn with_child<C: Component>(self, c: C) -> (r: Element)
        ensures
            elem_view(r) == with_extra_child(elem_view(self), c.component_view()),
    {
        let ghost before = elem_view(self);
        let ghost cv = c.component_view();
        let mut s = self;
        let n = c.to_node();
        proof {
            lemma_nodes_view_push(s.children@, n);
        }
        s.children.push(n);
        proof {
            assert(nodes_view(s.children@) =~= before.children.push(cv));
        }
        s
    }

    /// Appends a child component in place.
    pub fn child<C: Component>(&mut self, c: C)
        ensures
            elem_view(*final(self)) == with_extra_child(elem_view(*old(self)), c.component_view()),
    {
        let ghost before = elem_view(*old(self));
        let ghost cv = c.component_view();
        let n = c.to_node();
        proof {
            lemma_nodes_view_push(self.children@, n);
        }
        self.children.push(n);
        proof {
            assert(nodes_view(self.children@) =~= before.children.push(cv));
        }
    }
}

/// A fresh element with the given tag, no attributes and no children;
/// `void` marks the self-closing elements.
fn make_element(tag: &str, void: bool) -> (e: Element)
    ensures
        elem_view(e) == (ElemV { tag: tag@, void: void, attrs: Seq::empty(), children: Seq::empty() }),
{
    let e = Element { tag: tag.to_owned(), void, attrs: Vec::new(), children: Vec::new() };
    proof {
        assert(attrs_view(e.attrs@) =~= Seq::<(Seq<char>, Seq<char>)>::empty());
        assert(nodes_view(e.children@) =~= Seq::<NodeV>::empty());
    }
    e
}

/// A `<div>` element.
pub fn div() -> (e: Element)
    ensures
        elem_view(e) == (ElemV { tag: "div"@, void: false, attrs: Seq::empty(), children: Seq::empty() }),
{
    make_element("div", false)
}

/// A `<p>` element.
pub fn p() -> (e: Element)
    ensures
        elem_view(e) == (ElemV { tag: "p"@, void: false, attrs: Seq::empty(), children: Seq::empty() }),
{
    make_element("p", false)
}

/// A `<span>` element.
pub fn span() -> (e: Element)
    ensures
        elem_view(e) == (ElemV { tag: "span"@, void: false, attrs: Seq::empty(), children: Seq::empty() }),
{
    make_element("span", false)
}

/// A `<button>` element.
pub fn button() -> (e: Element)
    ensures
        elem_view(e) == (ElemV { tag: "button"@, void: false, attrs: Seq::empty(), children: Seq::empty() }),
{
    make_element("button", false)
}

/// An `<html>` element.
pub fn html() -> (e: Element)
    ensures
        elem_view(e) == (ElemV { tag: "html"@, void: false, attrs: Seq::empty(), children: Seq::empty() }),
{
    make_element("html", false)
}

/// A `<head>` element.
pub fn head() -> (e: Element)
    ensures
        elem_view(e) == (ElemV { tag: "head"@, void: false, attrs: Seq::empty(), children: Seq::empty() }),
{
    make_element("head", false)
}

/// A `<body>` element.
pub fn body() -> (e: Element)
    ensures
        elem_view(e) == (ElemV { tag: "body"@, void: false, attrs: Seq::empty(), children: Seq::empty() }),
{
    make_element("body", false)
}

/// A `<title>` element.
pub fn title() -> (e: Element)
    ensures
        elem_view(e) == (ElemV { tag: "title"@, void: false, attrs: Seq::empty(), children: Seq::empty() }),
{
    make_element("title", false)
}

/// A `<style>` element.
pub fn style() -> (e: Element)
    ensures
        elem_view(e) == (ElemV { tag: "style"@, void: false, attrs: Seq::empty(), children: Seq::empty() }),
{
    make_element("style", false)
}

/// A `<br />` void element.
pub fn br() -> (e: Element)
    ensures
        elem_view(e) == (ElemV { tag: "br"@, void: true, attrs: Seq::empty(), children: Seq::empty() }),
{
    make_element("br", true)
}

/// An `<img />` void element.
pub fn img() -> (e: Element)
    ensures
        elem_view(e) == (ElemV { tag: "img"@, void: true, attrs: Seq::empty(), children: Seq::empty() }),
{
    make_element("img", true)
}

/// A `<meta />` void element.
pub fn meta() -> (e: Element)
    ensures
        elem_view(e) == (ElemV { tag: "meta"@, void: true, attrs: Seq::empty(), children: Seq::empty() }),
{
    make_element("meta", true)
}

/// Renders a component tree to its HTML string.
pub fn render_to_string<C: Component>(c: &C) -> (r: String)
    ensures
        r@ == spec_render(c.component_view()),
{
    let n = c.duplicate();
    let mut out = String::new();
    push_render_node(&n, &mut out);
    out
}

} // verus!
