//! The document tree and its serializer.
//!
//! A [`Node`] is the abstract node tree that the view layer produces: text,
//! or an element with attributes and children. Its mathematical model is
//! [`NodeModel`], a tree over sequences of characters, and [`markup`] says
//! what serialized form a model has. [`render_node`] is the server-side
//! renderer: it is proved to produce exactly that form.

use vstd::prelude::*;

verus! {

/// One attribute of an element: a name and a value.
pub struct Attr {
    pub name: String,
    pub value: String,
}

/// An element: a tag, its attributes, and its child nodes in order.
pub struct Element {
    pub tag: String,
    pub attrs: Vec<Attr>,
    pub children: Vec<Node>,
}

/// A node of the document tree: text (escaped when serialized) or an element.
pub enum Node {
    Text(String),
    Element(Element),
}

/// Mathematical model of an attribute.
pub struct AttrModel {
    pub name: Seq<char>,
    pub value: Seq<char>,
}

/// Mathematical model of a node: the same tree, over sequences of characters.
pub enum NodeModel {
    Text(Seq<char>),
    Element { tag: Seq<char>, attrs: Seq<AttrModel>, children: Seq<NodeModel> },
}

pub open spec fn attr_model(a: Attr) -> AttrModel {
    AttrModel { name: a.name@, value: a.value@ }
}

/// The model of a node: views in place of strings, element by element.
pub open spec fn node_model(n: Node) -> NodeModel
    decreases n,
{
    match n {
        Node::Text(s) => NodeModel::Text(s@),
        Node::Element(e) => NodeModel::Element {
            tag: e.tag@,
            attrs: e.attrs@.map_values(|a: Attr| attr_model(a)),
            children: node_models(e.children@),
        },
    }
}

pub open spec fn node_models(ns: Seq<Node>) -> Seq<NodeModel>
    decreases ns,
{
    if ns.len() == 0 {
        Seq::empty()
    } else {
        seq![node_model(ns[0])] + node_models(ns.drop_first())
    }
}

/// Appending a node to a list appends its model to the list's model.
pub proof fn lemma_node_models_push(ns: Seq<Node>, n: Node)
    ensures
        node_models(ns.push(n)) == node_models(ns) + seq![node_model(n)],
    decreases ns.len(),
{
    if ns.len() == 0 {
        assert(ns.push(n)[0] == n);
        assert(node_models(Seq::<Node>::empty()) =~= Seq::<NodeModel>::empty());
        assert(ns =~= Seq::<Node>::empty());
        assert(ns.push(n).drop_first() =~= Seq::<Node>::empty());
        assert(node_models(ns.push(n)) =~= node_models(ns) + seq![node_model(n)]);
    } else {
        lemma_node_models_push(ns.drop_first(), n);
        assert(ns.push(n)[0] == ns[0]);
        assert(ns.push(n).drop_first() =~= ns.drop_first().push(n));
        assert(node_models(ns.push(n)) =~= node_models(ns) + seq![node_model(n)]);
    }
}

/// The model list has one model per node, in order.
pub proof fn lemma_node_models_index(ns: Seq<Node>)
    ensures
        node_models(ns).len() == ns.len(),
        forall|i: int| 0 <= i < ns.len() ==> node_models(ns)[i] == node_model(ns[i]),
    decreases ns.len(),
{
    if ns.len() == 0 {
    } else {
        lemma_node_models_index(ns.drop_first());
        assert forall|i: int| 0 <= i < ns.len() implies node_models(ns)[i] == node_model(
            ns[i],
        ) by {
            if i > 0 {
                assert(node_models(ns)[i] == node_models(ns.drop_first())[i - 1]);
                assert(ns.drop_first()[i - 1] == ns[i]);
            }
        }
    }
}

/// The escaping applied to text and to attribute values when serializing:
/// the four markup-significant characters become character references.
pub open spec fn escaped_char(c: char) -> Seq<char> {
    if c == '&' {
        "&amp;"@
    } else if c == '<' {
        "&lt;"@
    } else if c == '>' {
        "&gt;"@
    } else if c == '"' {
        "&quot;"@
    } else {
        seq![c]
    }
}

/// A text escaped character by character.
pub open spec fn escaped(s: Seq<char>) -> Seq<char>
    decreases s.len(),
{
    if s.len() == 0 {
        Seq::empty()
    } else {
        escaped_char(s[0]) + escaped(s.drop_first())
    }
}

/// Serialized form of one attribute: a space, the name, `="`, the escaped
/// value, and a closing quote.
pub open spec fn attr_markup(a: AttrModel) -> Seq<char> {
    " "@ + a.name + "=\""@ + escaped(a.value) + "\""@
}

pub open spec fn attrs_markup(attrs: Seq<AttrModel>) -> Seq<char>
    decreases attrs.len(),
{
    if attrs.len() == 0 {
        Seq::empty()
    } else {
        attr_markup(attrs[0]) + attrs_markup(attrs.drop_first())
    }
}

/// Serialized form of a node: escaped text, or an open tag with attributes,
/// the children in order, and the matching close tag.
pub open spec fn markup(n: NodeModel) -> Seq<char>
    decreases n,
{
    match n {
        NodeModel::Text(t) => escaped(t),
        NodeModel::Element { tag, attrs, children } => "<"@ + tag + attrs_markup(attrs) + ">"@
            + markup_nodes(children) + "</"@ + tag + ">"@,
    }
}

pub open spec fn markup_nodes(ns: Seq<NodeModel>) -> Seq<char>
    decreases ns,
{
    if ns.len() == 0 {
        Seq::empty()
    } else {
        markup(ns[0]) + markup_nodes(ns.drop_first())
    }
}

/// Escape a text for inclusion in markup.
pub fn escape_text(s: &str) -> (out: String)
    ensures
        out@ == escaped(s@),
{
    let len: usize = s.unicode_len();
    let mut out = String::new();
    let mut i: usize = 0;
    proof {
        assert(out@ + escaped(s@.subrange(0, len as int)) =~= escaped(s@.subrange(0, len as int)));
        assert(s@.subrange(0, len as int) =~= s@);
    }
    while i < len
        invariant
            len == s@.len(),
            i <= len,
            out@ + escaped(s@.subrange(i as int, len as int)) == escaped(s@),
        decreases len - i,
    {
        let ghost suffix = s@.subrange(i as int, len as int);
        let ghost rest = s@.subrange(i + 1, len as int);
        proof {
            assert(suffix[0] == s@[i as int]);
            assert(suffix.drop_first() =~= rest);
            assert(escaped(suffix) == escaped_char(s@[i as int]) + escaped(rest));
        }
        let c = s.get_char(i);
        if c == '&' {
            out.append("&amp;");
        } else if c == '<' {
            out.append("&lt;");
        } else if c == '>' {
            out.append("&gt;");
        } else if c == '"' {
            out.append("&quot;");
        } else {
            let piece = s.substring_char(i, i + 1);
            proof {
                assert(piece@ =~= seq![s@[i as int]]);
            }
            out.append(piece);
        }
        proof {
            assert(out@ + escaped(rest) =~= escaped(s@));
        }
        i = i + 1;
    }
    proof {
        assert(s@.subrange(len as int, len as int) =~= Seq::<char>::empty());
        assert(out@ =~= escaped(s@));
    }
    out
}

/// `needle` occurs contiguously somewhere in `text`.
pub open spec fn contains_text(text: Seq<char>, needle: Seq<char>) -> bool {
    exists|k: int|
        0 <= k && k + needle.len() <= text.len() && #[trigger] text.subrange(k, k + needle.len())
            == needle
}

/// A text contains itself.
pub proof fn lemma_contains_self(s: Seq<char>)
    ensures
        contains_text(s, s),
{
    let k: int = 0;
    assert(s.subrange(k, k + s.len()) =~= s);
}

/// An occurrence survives prepending.
pub proof fn lemma_contains_prepend(prefix: Seq<char>, s: Seq<char>, needle: Seq<char>)
    requires
        contains_text(s, needle),
    ensures
        contains_text(prefix + s, needle),
{
    let k = choose|k: int|
        0 <= k && k + needle.len() <= s.len() && #[trigger] s.subrange(k, k + needle.len())
            == needle;
    let j = prefix.len() + k;
    assert((prefix + s).subrange(j, j + needle.len()) =~= s.subrange(k, k + needle.len()));
}

/// An occurrence survives appending.
pub proof fn lemma_contains_append(s: Seq<char>, suffix: Seq<char>, needle: Seq<char>)
    requires
        contains_text(s, needle),
    ensures
        contains_text(s + suffix, needle),
{
    let k = choose|k: int|
        0 <= k && k + needle.len() <= s.len() && #[trigger] s.subrange(k, k + needle.len())
            == needle;
    assert((s + suffix).subrange(k, k + needle.len()) =~= s.subrange(k, k + needle.len()));
}

/// Texts without markup-significant characters are unchanged by escaping.
pub proof fn lemma_escaped_plain(s: Seq<char>)
    requires
        forall|i: int|
            0 <= i < s.len() ==> s[i] != '&' && s[i] != '<' && s[i] != '>' && s[i] != '"',
    ensures
        escaped(s) == s,
    decreases s.len(),
{
    if s.len() == 0 {
        assert(escaped(s) =~= s);
    } else {
        lemma_escaped_plain(s.drop_first());
        assert(escaped(s) =~= s);
    }
}

/// Serialize one attribute.
fn render_attr(a: &Attr) -> (out: String)
    ensures
        out@ == attr_markup(attr_model(*a)),
{
    let mut out = String::from_str(" ");
    out.append(a.name.as_str());
    out.append("=\"");
    let v = escape_text(a.value.as_str());
    out.append(v.as_str());
    out.append("\"");
    proof {
        assert(out@ =~= attr_markup(attr_model(*a)));
    }
    out
}

/// Serialize an attribute list, in order.
fn render_attrs(attrs: &Vec<Attr>) -> (out: String)
    ensures
        out@ == attrs_markup(attrs@.map_values(|a: Attr| attr_model(a))),
{
    let ghost ms = attrs@.map_values(|a: Attr| attr_model(a));
    let mut out = String::new();
    let mut j: usize = 0;
    proof {
        assert(out@ + attrs_markup(ms.subrange(0, ms.len() as int)) =~= attrs_markup(
            ms.subrange(0, ms.len() as int),
        ));
        assert(ms.subrange(0, ms.len() as int) =~= ms);
    }
    while j < attrs.len()
        invariant
            ms == attrs@.map_values(|a: Attr| attr_model(a)),
            j <= attrs.len(),
            out@ + attrs_markup(ms.subrange(j as int, ms.len() as int)) == attrs_markup(ms),
        decreases attrs.len() - j,
    {
        let ghost suffix = ms.subrange(j as int, ms.len() as int);
        let ghost rest = ms.subrange(j + 1, ms.len() as int);
        proof {
            assert(suffix[0] == ms[j as int]);
            assert(suffix.drop_first() =~= rest);
        }
        let piece = render_attr(&attrs[j]);
        out.append(piece.as_str());
        proof {
            assert(out@ + attrs_markup(rest) =~= attrs_markup(ms));
        }
        j = j + 1;
    }
    proof {
        assert(ms.subrange(ms.len() as int, ms.len() as int) =~= Seq::<AttrModel>::empty());
        assert(out@ =~= attrs_markup(ms));
    }
    out
}

/// Serialize a node to markup text: the server-side renderer.
pub fn render_node(n: &Node) -> (out: String)
    ensures
        out@ == markup(node_model(*n)),
    decreases n,
{
    match n {
        Node::Text(s) => escape_text(s.as_str()),
        Node::Element(e) => {
            let mut out = String::from_str("<");
            out.append(e.tag.as_str());
            let attrs = render_attrs(&e.attrs);
            out.append(attrs.as_str());
            out.append(">");
            let children = render_children(&e.children);
            out.append(children.as_str());
            out.append("</");
            out.append(e.tag.as_str());
            out.append(">");
            proof {
                assert(out@ =~= markup(node_model(*n)));
            }
            out
        },
    }
}

/// Serialize a list of nodes, in order.
fn render_children(cs: &Vec<Node>) -> (out: String)
    ensures
        out@ == markup_nodes(node_models(cs@)),
    decreases cs,
{
    let mut out = String::new();
    let mut j: usize = 0;
    proof {
        assert(out@ + markup_nodes(node_models(cs@.subrange(j as int, cs@.len() as int)))
            =~= markup_nodes(node_models(cs@.subrange(j as int, cs@.len() as int))));
        assert(cs@.subrange(0, cs@.len() as int) =~= cs@);
    }
    while j < cs.len()
        invariant
            j <= cs.len(),
            out@ + markup_nodes(node_models(cs@.subrange(j as int, cs@.len() as int)))
                == markup_nodes(node_models(cs@)),
        decreases cs.len() - j,
    {
        let ghost suffix = cs@.subrange(j as int, cs@.len() as int);
        let ghost rest = cs@.subrange(j + 1, cs@.len() as int);
        proof {
            assert(suffix[0] == cs@[j as int]);
            assert(suffix.drop_first() =~= rest);
            assert(node_models(suffix) == seq![node_model(cs@[j as int])] + node_models(rest));
            assert(node_models(suffix)[0] == node_model(cs@[j as int]));
            assert(node_models(suffix).drop_first() =~= node_models(rest));
        }
        let piece = render_node(&cs[j]);
        out.append(piece.as_str());
        proof {
            assert(out@ + markup_nodes(node_models(rest)) =~= markup_nodes(node_models(cs@)));
        }
        j = j + 1;
    }
    proof {
        assert(cs@.subrange(cs@.len() as int, cs@.len() as int) =~= Seq::<Node>::empty());
        assert(out@ =~= markup_nodes(node_models(cs@)));
    }
    out
}

} // verus!


