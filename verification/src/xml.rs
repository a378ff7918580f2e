//! An XML document as a tree of elements, text and other nodes, with the
//! queries and edits that project files need.
use vstd::prelude::*;
use crate::text::{chars_equal, chars_of, join_seq, string_of, trim_chars, trim_seq, append_chars};

verus! {

/// A node of an XML document.
#[derive(Debug)]
pub enum XmlNode {
    Element(XmlElement),
    Text(String),
    CData(String),
    Comment(String),
    Instruction(String, Option<String>),
}

/// An XML element: its name, its attributes in document order (each name
/// once), its child nodes, and the namespace details it carries.
#[derive(Debug)]
pub struct XmlElement {
    pub name: String,
    pub attributes: Vec<(String, String)>,
    pub children: Vec<XmlNode>,
    pub namespace: XmlNamespace,
}

/// The namespace details of an element, which the project logic never
/// looks at and carries through unchanged: the name's prefix, its
/// namespace URI, and the namespace declarations in scope (prefix, URI).
#[derive(Debug, Clone)]
pub struct XmlNamespace {
    pub prefix: Option<String>,
    pub uri: Option<String>,
    pub declarations: Option<Vec<(String, String)>>,
}

/// No prefix, no namespace, no declarations.
pub fn no_namespace() -> (r: XmlNamespace)
    ensures
        r.prefix is None,
        r.uri is None,
        r.declarations is None,
        namespace_view(r) == no_namespace_v(),
{
    XmlNamespace { prefix: None, uri: None, declarations: None }
}

/// The value of a node, as text.
pub enum NodeV {
    Element(ElementV),
    Text(Seq<char>),
    CData(Seq<char>),
    Comment(Seq<char>),
    Instruction(Seq<char>, Option<Seq<char>>),
}

/// The value of an element, as text.
pub struct ElementV {
    pub name: Seq<char>,
    pub attributes: Seq<(Seq<char>, Seq<char>)>,
    pub children: Seq<NodeV>,
    pub namespace: NamespaceV,
}

/// The value of an element's namespace details, as text.
pub struct NamespaceV {
    pub prefix: Option<Seq<char>>,
    pub uri: Option<Seq<char>>,
    pub declarations: Option<Seq<(Seq<char>, Seq<char>)>>,
}

pub open spec fn opt_text_view(o: Option<String>) -> Option<Seq<char>> {
    match o {
        Some(x) => Some(x@),
        None => None,
    }
}

pub open spec fn namespace_view(n: XmlNamespace) -> NamespaceV {
    NamespaceV {
        prefix: opt_text_view(n.prefix),
        uri: opt_text_view(n.uri),
        declarations: match n.declarations {
            Some(d) => Some(attrs_view(d@)),
            None => None,
        },
    }
}

/// No prefix, no namespace URI, no declarations.
pub open spec fn no_namespace_v() -> NamespaceV {
    NamespaceV { prefix: None, uri: None, declarations: None }
}

pub open spec fn attrs_view(a: Seq<(String, String)>) -> Seq<(Seq<char>, Seq<char>)> {
    a.map_values(|p: (String, String)| (p.0@, p.1@))
}

pub open spec fn element_view(e: XmlElement) -> ElementV
    decreases e, 0nat,
{
    ElementV {
        name: e.name@,
        attributes: attrs_view(e.attributes@),
        children: nodes_view(e.children@),
        namespace: namespace_view(e.namespace),
    }
}

pub open spec fn nodes_view(ns: Seq<XmlNode>) -> Seq<NodeV>
    decreases ns, ns.len(),
{
    if ns.len() == 0 {
        seq![]
    } else {
        nodes_view(ns.drop_last()).push(node_view(ns.last()))
    }
}

pub open spec fn node_view(n: XmlNode) -> NodeV
    decreases n, 0nat,
{
    match n {
        XmlNode::Element(e) => NodeV::Element(element_view(e)),
        XmlNode::Text(t) => NodeV::Text(t@),
        XmlNode::CData(t) => NodeV::CData(t@),
        XmlNode::Comment(t) => NodeV::Comment(t@),
        XmlNode::Instruction(a, b) => NodeV::Instruction(a@, match b { Some(x) => Some(x@), None => None }),
    }
}


pub proof fn lemma_nodes_view(ns: Seq<XmlNode>)
    ensures
        nodes_view(ns).len() == ns.len(),
        forall|i: int| 0 <= i < ns.len() ==> #[trigger] nodes_view(ns)[i] == node_view(ns[i]),
    decreases ns.len(),
{
    if ns.len() > 0 {
        lemma_nodes_view(ns.drop_last());
        assert forall|i: int| 0 <= i < ns.len() implies #[trigger] nodes_view(ns)[i] == node_view(ns[i]) by {
            if i < ns.len() - 1 {
                assert(ns.drop_last()[i] == ns[i]);
            }
        }
    }
}

pub proof fn lemma_nodes_view_push(ns: Seq<XmlNode>, n: XmlNode)
    ensures
        nodes_view(ns.push(n)) == nodes_view(ns).push(node_view(n)),
{
    assert(ns.push(n).drop_last() =~= ns);
}

pub proof fn lemma_attrs_view_push(a: Seq<(String, String)>, p: (String, String))
    ensures
        attrs_view(a.push(p)) == attrs_view(a).push((p.0@, p.1@)),
{
    assert(attrs_view(a.push(p)) =~= attrs_view(a).push((p.0@, p.1@)));
}

// ---------------------------------------------------------------------------
// Queries
// ---------------------------------------------------------------------------

/// The first element named `name`, in document order, the element itself first.
pub open spec fn find_v(e: ElementV, name: Seq<char>) -> Option<ElementV>
    decreases e, 0nat,
{
    if e.name == name {
        Some(e)
    } else {
        find_nodes_v(e.children, 0, name)
    }
}

pub open spec fn find_nodes_v(ns: Seq<NodeV>, i: int, name: Seq<char>) -> Option<ElementV>
    decreases ns, ns.len() - i,
{
    if i < 0 || i >= ns.len() {
        None
    } else {
        match ns[i] {
            NodeV::Element(c) => match find_v(c, name) {
                Some(x) => Some(x),
                None => find_nodes_v(ns, i + 1, name),
            },
            _ => find_nodes_v(ns, i + 1, name),
        }
    }
}

/// Whether a text or CDATA node occurs from index `i` on.
pub open spec fn has_text_from(ns: Seq<NodeV>, i: int) -> bool
    decreases ns.len() - i,
{
    if i < 0 || i >= ns.len() {
        false
    } else {
        match ns[i] {
            NodeV::Text(_) => true,
            NodeV::CData(_) => true,
            _ => has_text_from(ns, i + 1),
        }
    }
}

/// The texts of the text and CDATA nodes from index `i` on, concatenated.
pub open spec fn text_from(ns: Seq<NodeV>, i: int) -> Seq<char>
    decreases ns.len() - i,
{
    if i < 0 || i >= ns.len() {
        seq![]
    } else {
        match ns[i] {
            NodeV::Text(t) => t + text_from(ns, i + 1),
            NodeV::CData(t) => t + text_from(ns, i + 1),
            _ => text_from(ns, i + 1),
        }
    }
}

/// The element's text and CDATA children, concatenated; `None` when it has none.
pub open spec fn text_v(e: ElementV) -> Option<Seq<char>> {
    if has_text_from(e.children, 0) {
        Some(text_from(e.children, 0))
    } else {
        None
    }
}

/// The first child element named `name`.
pub open spec fn child_from(ns: Seq<NodeV>, i: int, name: Seq<char>) -> Option<ElementV>
    decreases ns.len() - i,
{
    if i < 0 || i >= ns.len() {
        None
    } else {
        match ns[i] {
            NodeV::Element(c) => if c.name == name {
                Some(c)
            } else {
                child_from(ns, i + 1, name)
            },
            _ => child_from(ns, i + 1, name),
        }
    }
}

/// The value of the attribute `key`.
pub open spec fn attr_from(a: Seq<(Seq<char>, Seq<char>)>, i: int, key: Seq<char>) -> Option<Seq<char>>
    decreases a.len() - i,
{
    if i < 0 || i >= a.len() {
        None
    } else if a[i].0 == key {
        Some(a[i].1)
    } else {
        attr_from(a, i + 1, key)
    }
}

pub open spec fn attr_v(e: ElementV, key: Seq<char>) -> Option<Seq<char>> {
    attr_from(e.attributes, 0, key)
}

/// The trimmed text of the first child element named `name`.
pub open spec fn child_text_v(e: ElementV, name: Seq<char>) -> Option<Seq<char>> {
    match child_from(e.children, 0, name) {
        Some(c) => match text_v(c) {
            Some(t) => Some(trim_seq(t)),
            None => None,
        },
        None => None,
    }
}

/// The trimmed text of the first element named `name`.
pub open spec fn element_text_v(e: ElementV, name: Seq<char>) -> Option<Seq<char>> {
    match find_v(e, name) {
        Some(x) => match text_v(x) {
            Some(t) => Some(trim_seq(t)),
            None => None,
        },
        None => None,
    }
}

/// The values of attribute `attr` of every element named `ename`, in document order.
pub open spec fn collect_v(e: ElementV, ename: Seq<char>, attr: Seq<char>) -> Seq<Seq<char>>
    decreases e, 0nat,
{
    let own: Seq<Seq<char>> = if e.name == ename {
        match attr_v(e, attr) {
            Some(v) => seq![v],
            None => seq![],
        }
    } else {
        seq![]
    };
    own + collect_nodes_v(e.children, 0, ename, attr)
}

pub open spec fn collect_nodes_v(ns: Seq<NodeV>, i: int, ename: Seq<char>, attr: Seq<char>) -> Seq<Seq<char>>
    decreases ns, ns.len() - i,
{
    if i < 0 || i >= ns.len() {
        seq![]
    } else {
        let here: Seq<Seq<char>> = match ns[i] {
            NodeV::Element(c) => collect_v(c, ename, attr),
            _ => seq![],
        };
        here + collect_nodes_v(ns, i + 1, ename, attr)
    }
}

/// A copy of an element.
pub fn copy_element(e: &XmlElement) -> (r: XmlElement)
    ensures
        element_view(r) == element_view(*e),
    decreases e, 0nat,
{
    let mut attributes: Vec<(String, String)> = Vec::new();
    let mut i: usize = 0;
    while i < e.attributes.len()
        invariant
            i <= e.attributes.len(),
            attrs_view(attributes@) == attrs_view(e.attributes@.take(i as int)),
        decreases e.attributes.len() - i,
    {
        let p = (e.attributes[i].0.clone(), e.attributes[i].1.clone());
        proof {
            lemma_attrs_view_push(attributes@, p);
            lemma_attrs_view_push(e.attributes@.take(i as int), e.attributes@[i as int]);
            assert(e.attributes@.take(i + 1) =~= e.attributes@.take(i as int).push(e.attributes@[i as int]));
        }
        attributes.push(p);
        i += 1;
    }
    assert(e.attributes@.take(e.attributes.len() as int) =~= e.attributes@);
    let children = copy_nodes(&e.children);
    XmlElement { name: e.name.clone(), attributes, children, namespace: copy_namespace(&e.namespace) }
}

fn copy_text(o: &Option<String>) -> (r: Option<String>)
    ensures
        opt_text_view(r) == opt_text_view(*o),
{
    match o {
        Some(x) => Some(x.clone()),
        None => None,
    }
}

fn copy_pairs(a: &Vec<(String, String)>) -> (r: Vec<(String, String)>)
    ensures
        attrs_view(r@) == attrs_view(a@),
{
    let mut r: Vec<(String, String)> = Vec::new();
    let mut i: usize = 0;
    while i < a.len()
        invariant
            i <= a.len(),
            attrs_view(r@) == attrs_view(a@.take(i as int)),
        decreases a.len() - i,
    {
        let p = (a[i].0.clone(), a[i].1.clone());
        proof {
            lemma_attrs_view_push(r@, p);
            lemma_attrs_view_push(a@.take(i as int), a@[i as int]);
            assert(a@.take(i + 1) =~= a@.take(i as int).push(a@[i as int]));
        }
        r.push(p);
        i += 1;
    }
    assert(a@.take(a.len() as int) =~= a@);
    r
}

/// A copy of an element's namespace details.
pub fn copy_namespace(n: &XmlNamespace) -> (r: XmlNamespace)
    ensures
        namespace_view(r) == namespace_view(*n),
{
    let declarations = match &n.declarations {
        Some(d) => Some(copy_pairs(d)),
        None => None,
    };
    XmlNamespace { prefix: copy_text(&n.prefix), uri: copy_text(&n.uri), declarations }
}

pub fn copy_node(n: &XmlNode) -> (r: XmlNode)
    ensures
        node_view(r) == node_view(*n),
    decreases n, 0nat,
{
    match n {
        XmlNode::Element(c) => XmlNode::Element(copy_element(c)),
        XmlNode::Text(t) => XmlNode::Text(t.clone()),
        XmlNode::CData(t) => XmlNode::CData(t.clone()),
        XmlNode::Comment(t) => XmlNode::Comment(t.clone()),
        XmlNode::Instruction(a, b) => XmlNode::Instruction(
            a.clone(),
            match b {
                Some(x) => Some(x.clone()),
                None => None,
            },
        ),
    }
}

pub fn copy_nodes(ns: &Vec<XmlNode>) -> (r: Vec<XmlNode>)
    ensures
        nodes_view(r@) == nodes_view(ns@),
    decreases ns, 1nat,
{
    let mut r: Vec<XmlNode> = Vec::new();
    let mut i: usize = 0;
    while i < ns.len()
        invariant
            i <= ns.len(),
            nodes_view(r@) == nodes_view(ns@.take(i as int)),
        decreases ns.len() - i,
    {
        let n = copy_node(&ns[i]);
        proof {
            lemma_nodes_view_push(r@, n);
            lemma_nodes_view_push(ns@.take(i as int), ns@[i as int]);
            assert(ns@.take(i + 1) =~= ns@.take(i as int).push(ns@[i as int]));
        }
        r.push(n);
        i += 1;
    }
    assert(ns@.take(ns.len() as int) =~= ns@);
    r
}


fn name_is(e: &XmlElement, name: &Vec<char>) -> (r: bool)
    ensures
        r == (e.name@ == name@),
{
    chars_equal(&chars_of(e.name.as_str()), name)
}

/// The first element named `name`, in document order, `e` itself first.
pub fn find_element<'a>(e: &'a XmlElement, name: &Vec<char>) -> (r: Option<&'a XmlElement>)
    ensures
        match r {
            Some(x) => find_v(element_view(*e), name@) == Some(element_view(*x)),
            None => find_v(element_view(*e), name@) is None,
        },
    decreases e, 0nat,
{
    if name_is(e, name) {
        return Some(e);
    }
    find_in_nodes(&e.children, name)
}

fn find_in_nodes<'a>(ns: &'a Vec<XmlNode>, name: &Vec<char>) -> (r: Option<&'a XmlElement>)
    ensures
        match r {
            Some(x) => find_nodes_v(nodes_view(ns@), 0, name@) == Some(element_view(*x)),
            None => find_nodes_v(nodes_view(ns@), 0, name@) is None,
        },
    decreases ns, 1nat,
{
    let ghost nv = nodes_view(ns@);
    proof {
        lemma_nodes_view(ns@);
    }
    let mut i: usize = 0;
    while i < ns.len()
        invariant
            i <= ns.len(),
            nv == nodes_view(ns@),
            nv.len() == ns@.len(),
            forall|k: int| 0 <= k < ns@.len() ==> #[trigger] nv[k] == node_view(ns@[k]),
            find_nodes_v(nv, 0, name@) == find_nodes_v(nv, i as int, name@),
        decreases ns.len() - i,
    {
        assert(nv[i as int] == node_view(ns@[i as int]));
        match &ns[i] {
            XmlNode::Element(c) => {
                match find_element(c, name) {
                    Some(x) => {
                        return Some(x);
                    },
                    None => {},
                }
            },
            _ => {},
        }
        i += 1;
    }
    None
}

/// The text and CDATA children of `e`, concatenated.
pub fn element_get_text(e: &XmlElement) -> (r: Option<Vec<char>>)
    ensures
        match r {
            Some(t) => text_v(element_view(*e)) == Some(t@),
            None => text_v(element_view(*e)) is None,
        },
{
    let ns = &e.children;
    let ghost nv = nodes_view(ns@);
    proof {
        lemma_nodes_view(ns@);
    }
    let mut acc: Vec<char> = Vec::new();
    let mut found = false;
    let mut i: usize = 0;
    while i < ns.len()
        invariant
            i <= ns.len(),
            nv == nodes_view(ns@),
            nv.len() == ns@.len(),
            forall|k: int| 0 <= k < ns@.len() ==> #[trigger] nv[k] == node_view(ns@[k]),
            text_from(nv, 0) == acc@ + text_from(nv, i as int),
            has_text_from(nv, 0) == (found || has_text_from(nv, i as int)),
        decreases ns.len() - i,
    {
        assert(nv[i as int] == node_view(ns@[i as int]));
        match &ns[i] {
            XmlNode::Text(t) => {
                append_chars(&mut acc, &chars_of(t.as_str()));
                found = true;
            },
            XmlNode::CData(t) => {
                append_chars(&mut acc, &chars_of(t.as_str()));
                found = true;
            },
            _ => {},
        }
        i += 1;
    }
    if found {
        assert(acc@ + seq![] =~= acc@);
        Some(acc)
    } else {
        None
    }
}

/// The first child element of `e` named `name`.
pub fn get_child<'a>(e: &'a XmlElement, name: &Vec<char>) -> (r: Option<&'a XmlElement>)
    ensures
        match r {
            Some(x) => child_from(element_view(*e).children, 0, name@) == Some(element_view(*x)),
            None => child_from(element_view(*e).children, 0, name@) is None,
        },
{
    let ns = &e.children;
    let ghost nv = nodes_view(ns@);
    proof {
        lemma_nodes_view(ns@);
    }
    let mut i: usize = 0;
    while i < ns.len()
        invariant
            i <= ns.len(),
            nv == nodes_view(ns@),
            nv.len() == ns@.len(),
            forall|k: int| 0 <= k < ns@.len() ==> #[trigger] nv[k] == node_view(ns@[k]),
            child_from(nv, 0, name@) == child_from(nv, i as int, name@),
            nv == element_view(*e).children,
        decreases ns.len() - i,
    {
        assert(nv[i as int] == node_view(ns@[i as int]));
        match &ns[i] {
            XmlNode::Element(c) => {
                if name_is(c, name) {
                    assert(nv[i as int] == NodeV::Element(element_view(*c)));
                    assert(element_view(*c).name == c.name@);
                    assert(child_from(nv, i as int, name@) == Some(element_view(*c)));
                    return Some(c);
                }
            },
            _ => {},
        }
        i += 1;
    }
    None
}

/// The value of the attribute `key` of `e`.
pub fn attribute(e: &XmlElement, key: &Vec<char>) -> (r: Option<String>)
    ensures
        match r {
            Some(v) => attr_v(element_view(*e), key@) == Some(v@),
            None => attr_v(element_view(*e), key@) is None,
        },
{
    let a = &e.attributes;
    let ghost av = attrs_view(a@);
    let mut i: usize = 0;
    while i < a.len()
        invariant
            i <= a.len(),
            av == attrs_view(a@),
            attr_from(av, 0, key@) == attr_from(av, i as int, key@),
            av == element_view(*e).attributes,
        decreases a.len() - i,
    {
        assert(av[i as int] == (a@[i as int].0@, a@[i as int].1@));
        if chars_equal(&chars_of(a[i].0.as_str()), key) {
            let v = a[i].1.clone();
            assert(av[i as int].0 == key@);
            assert(attr_from(av, i as int, key@) == Some(av[i as int].1));
            assert(element_view(*e).attributes == av);
            return Some(v);
        }
        i += 1;
    }
    None
}

/// The trimmed text of the first child element named `name`.
pub fn child_text(e: &XmlElement, name: &Vec<char>) -> (r: Option<Vec<char>>)
    ensures
        match r {
            Some(t) => child_text_v(element_view(*e), name@) == Some(t@),
            None => child_text_v(element_view(*e), name@) is None,
        },
{
    match get_child(e, name) {
        Some(c) => match element_get_text(c) {
            Some(t) => Some(trim_chars(&t)),
            None => None,
        },
        None => None,
    }
}

/// The trimmed text of the first element named `name`.
pub fn element_text(e: &XmlElement, name: &Vec<char>) -> (r: Option<Vec<char>>)
    ensures
        match r {
            Some(t) => element_text_v(element_view(*e), name@) == Some(t@),
            None => element_text_v(element_view(*e), name@) is None,
        },
{
    match find_element(e, name) {
        Some(x) => match element_get_text(x) {
            Some(t) => Some(trim_chars(&t)),
            None => None,
        },
        None => None,
    }
}

/// Appends the values of attribute `attr` of every element named `ename`.
pub fn collect_attribute(e: &XmlElement, ename: &Vec<char>, attr: &Vec<char>, values: &mut Vec<String>)
    ensures
        crate::text::string_views(final(values)@) == crate::text::string_views(old(values)@) + collect_v(
            element_view(*e),
            ename@,
            attr@,
        ),
    decreases e, 0nat,
{
    let ghost before = crate::text::string_views(values@);
    if name_is(e, ename) {
        match attribute(e, attr) {
            Some(v) => {
                values.push(v);
            },
            None => {},
        }
    }
    assert(crate::text::string_views(values@) =~= before + (if e.name@ == ename@ {
        match attr_v(element_view(*e), attr@) {
            Some(v) => seq![v],
            None => Seq::<Seq<char>>::empty(),
        }
    } else {
        Seq::<Seq<char>>::empty()
    }));
    collect_in_nodes(&e.children, ename, attr, values);
}

fn collect_in_nodes(ns: &Vec<XmlNode>, ename: &Vec<char>, attr: &Vec<char>, values: &mut Vec<String>)
    ensures
        crate::text::string_views(final(values)@) == crate::text::string_views(old(values)@)
            + collect_nodes_v(nodes_view(ns@), 0, ename@, attr@),
    decreases ns, 1nat,
{
    let ghost nv = nodes_view(ns@);
    let ghost start = crate::text::string_views(values@);
    proof {
        lemma_nodes_view(ns@);
    }
    let mut i: usize = 0;
    assert(start + collect_nodes_v(nv, 0, ename@, attr@) =~= start + collect_nodes_v(nv, 0, ename@, attr@));
    while i < ns.len()
        invariant
            i <= ns.len(),
            nv == nodes_view(ns@),
            nv.len() == ns@.len(),
            forall|k: int| 0 <= k < ns@.len() ==> #[trigger] nv[k] == node_view(ns@[k]),
            start + collect_nodes_v(nv, 0, ename@, attr@) == crate::text::string_views(values@)
                + collect_nodes_v(nv, i as int, ename@, attr@),
        decreases ns.len() - i,
    {
        assert(nv[i as int] == node_view(ns@[i as int]));
        let ghost mid = crate::text::string_views(values@);
        match &ns[i] {
            XmlNode::Element(c) => {
                collect_attribute(c, ename, attr, values);
            },
            _ => {},
        }
        i += 1;
        assert(mid + collect_nodes_v(nv, (i - 1) as int, ename@, attr@) =~= crate::text::string_views(values@)
            + collect_nodes_v(nv, i as int, ename@, attr@));
    }
    assert(crate::text::string_views(values@) + collect_nodes_v(nv, i as int, ename@, attr@)
        =~= crate::text::string_views(values@));
}


// ---------------------------------------------------------------------------
// Edits
// ---------------------------------------------------------------------------

/// A change to one element.
pub enum XmlEdit {
    /// Remove the text children and put this text first.
    SetText(String),
    /// Set an attribute, in place when it exists, else at the end.
    SetAttribute(String, String),
    /// Replace all children.
    ReplaceChildren(Vec<XmlNode>),
    /// Remove the child elements with this name.
    RemoveChildElements(String),
    /// Append these children.
    AppendChildren(Vec<XmlNode>),
    /// Insert a child right after the first child element with this name, or
    /// first when there is none.
    InsertChildAfter(String, XmlNode),
}

pub enum EditV {
    SetText(Seq<char>),
    SetAttribute(Seq<char>, Seq<char>),
    ReplaceChildren(Seq<NodeV>),
    RemoveChildElements(Seq<char>),
    AppendChildren(Seq<NodeV>),
    InsertChildAfter(Seq<char>, NodeV),
}

pub open spec fn edit_view(ed: XmlEdit) -> EditV {
    match ed {
        XmlEdit::SetText(t) => EditV::SetText(t@),
        XmlEdit::SetAttribute(k, v) => EditV::SetAttribute(k@, v@),
        XmlEdit::ReplaceChildren(ns) => EditV::ReplaceChildren(nodes_view(ns@)),
        XmlEdit::RemoveChildElements(n) => EditV::RemoveChildElements(n@),
        XmlEdit::AppendChildren(ns) => EditV::AppendChildren(nodes_view(ns@)),
        XmlEdit::InsertChildAfter(n, node) => EditV::InsertChildAfter(n@, node_view(node)),
    }
}

/// The nodes without the text nodes.
pub open spec fn without_texts(ns: Seq<NodeV>) -> Seq<NodeV>
    decreases ns.len(),
{
    if ns.len() == 0 {
        seq![]
    } else {
        let rest = without_texts(ns.drop_last());
        match ns.last() {
            NodeV::Text(_) => rest,
            _ => rest.push(ns.last()),
        }
    }
}

/// The nodes without the elements named `name`.
pub open spec fn without_elements(ns: Seq<NodeV>, name: Seq<char>) -> Seq<NodeV>
    decreases ns.len(),
{
    if ns.len() == 0 {
        seq![]
    } else {
        let rest = without_elements(ns.drop_last(), name);
        match ns.last() {
            NodeV::Element(c) => if c.name == name {
                rest
            } else {
                rest.push(ns.last())
            },
            _ => rest.push(ns.last()),
        }
    }
}

/// Index of the first attribute named `key` from index `i` on, or the length.
pub open spec fn attr_index_from(a: Seq<(Seq<char>, Seq<char>)>, i: int, key: Seq<char>) -> int
    decreases a.len() - i,
{
    if i < 0 || i >= a.len() {
        a.len() as int
    } else if a[i].0 == key {
        i
    } else {
        attr_index_from(a, i + 1, key)
    }
}

pub open spec fn set_attr_v(a: Seq<(Seq<char>, Seq<char>)>, key: Seq<char>, value: Seq<char>) -> Seq<(Seq<char>, Seq<char>)> {
    let k = attr_index_from(a, 0, key);
    if 0 <= k < a.len() {
        a.update(k, (key, value))
    } else {
        a.push((key, value))
    }
}

/// Index of the first child element named `name` from index `i` on, or -1.
pub open spec fn child_index_from(ns: Seq<NodeV>, i: int, name: Seq<char>) -> int
    decreases ns.len() - i,
{
    if i < 0 || i >= ns.len() {
        -1
    } else {
        match ns[i] {
            NodeV::Element(c) => if c.name == name {
                i
            } else {
                child_index_from(ns, i + 1, name)
            },
            _ => child_index_from(ns, i + 1, name),
        }
    }
}

pub open spec fn apply_edit_v(e: ElementV, ed: EditV) -> ElementV {
    match ed {
        EditV::SetText(t) => ElementV { children: seq![NodeV::Text(t)] + without_texts(e.children), ..e },
        EditV::SetAttribute(k, v) => ElementV { attributes: set_attr_v(e.attributes, k, v), ..e },
        EditV::ReplaceChildren(ns) => ElementV { children: ns, ..e },
        EditV::RemoveChildElements(n) => ElementV { children: without_elements(e.children, n), ..e },
        EditV::AppendChildren(ns) => ElementV { children: e.children + ns, ..e },
        EditV::InsertChildAfter(n, node) => ElementV {
            children: e.children.insert(child_index_from(e.children, 0, n) + 1, node),
            ..e
        },
    }
}

/// The first element named `name`, in document order, changed by `ed`; and
/// whether there was one.
pub open spec fn edit_first_v(e: ElementV, name: Seq<char>, ed: EditV) -> (ElementV, bool)
    decreases e, 0nat,
{
    if e.name == name {
        (apply_edit_v(e, ed), true)
    } else {
        let r = edit_nodes_v(e.children, 0, name, ed);
        (ElementV { children: r.0, ..e }, r.1)
    }
}

/// The nodes from index `i` on, with the first element named `name` below
/// them changed.
pub open spec fn edit_nodes_v(ns: Seq<NodeV>, i: int, name: Seq<char>, ed: EditV) -> (Seq<NodeV>, bool)
    decreases ns, ns.len() - i,
{
    if i < 0 || i >= ns.len() {
        (seq![], false)
    } else {
        match ns[i] {
            NodeV::Element(c) => {
                let r = edit_first_v(c, name, ed);
                if r.1 {
                    (seq![NodeV::Element(r.0)] + ns.skip(i + 1), true)
                } else {
                    let rest = edit_nodes_v(ns, i + 1, name, ed);
                    (seq![ns[i]] + rest.0, rest.1)
                }
            },
            _ => {
                let rest = edit_nodes_v(ns, i + 1, name, ed);
                (seq![ns[i]] + rest.0, rest.1)
            },
        }
    }
}

/// An edit finds its element exactly when the element exists.
pub proof fn lemma_edit_finds(e: ElementV, name: Seq<char>, ed: EditV)
    ensures
        edit_first_v(e, name, ed).1 == (find_v(e, name) is Some),
        !edit_first_v(e, name, ed).1 ==> edit_first_v(e, name, ed).0 == e,
    decreases e, 0nat,
{
    if e.name != name {
        lemma_edit_nodes_finds(e.children, 0, name, ed);
        if !edit_first_v(e, name, ed).1 {
            assert(e.children.skip(0) =~= e.children);
        }
    }
}

pub proof fn lemma_edit_nodes_finds(ns: Seq<NodeV>, i: int, name: Seq<char>, ed: EditV)
    requires
        0 <= i <= ns.len(),
    ensures
        edit_nodes_v(ns, i, name, ed).1 == (find_nodes_v(ns, i, name) is Some),
        !edit_nodes_v(ns, i, name, ed).1 ==> edit_nodes_v(ns, i, name, ed).0 == ns.skip(i),
    decreases ns, ns.len() - i,
{
    if i < ns.len() {
        lemma_edit_nodes_finds(ns, i + 1, name, ed);
        match ns[i] {
            NodeV::Element(c) => {
                lemma_edit_finds(c, name, ed);
            },
            _ => {},
        }
        assert(seq![ns[i]] + ns.skip(i + 1) =~= ns.skip(i));
    } else {
        assert(ns.skip(i) =~= Seq::<NodeV>::empty());
    }
}

fn without_texts_exec(ns: Vec<XmlNode>) -> (r: Vec<XmlNode>)
    ensures
        nodes_view(r@) == without_texts(nodes_view(ns@)),
{
    let ghost orig = ns@;
    let n0 = ns.len();
    let mut r: Vec<XmlNode> = Vec::new();
    let mut rest = ns;
    let mut i: usize = 0;
    proof {
        lemma_nodes_view(orig);
    }
    while rest.len() > 0
        invariant
            i <= orig.len(),
            orig.len() <= usize::MAX,
            rest@ == orig.skip(i as int),
            nodes_view(r@) == without_texts(nodes_view(orig.take(i as int))),
        decreases rest.len(),
    {
        let node = rest.remove(0);
        assert(node == orig[i as int]);
        proof {
            let t = orig.take(i + 1);
            assert(t.drop_last() =~= orig.take(i as int));
            lemma_nodes_view(t);
            lemma_nodes_view(t.drop_last());
            assert(nodes_view(t).drop_last() =~= nodes_view(t.drop_last()));
            assert(nodes_view(t).last() == node_view(node));
        }
        match node {
            XmlNode::Text(_) => {},
            other => {
                proof {
                    lemma_nodes_view_push(r@, other);
                }
                r.push(other);
            },
        }
        i += 1;
        assert(rest@ =~= orig.skip(i as int));
    }
    assert(orig.take(i as int) =~= orig);
    r
}

fn without_elements_exec(ns: Vec<XmlNode>, name: &Vec<char>) -> (r: Vec<XmlNode>)
    ensures
        nodes_view(r@) == without_elements(nodes_view(ns@), name@),
{
    let ghost orig = ns@;
    let n0 = ns.len();
    let mut r: Vec<XmlNode> = Vec::new();
    let mut rest = ns;
    let mut i: usize = 0;
    while rest.len() > 0
        invariant
            i <= orig.len(),
            orig.len() <= usize::MAX,
            rest@ == orig.skip(i as int),
            nodes_view(r@) == without_elements(nodes_view(orig.take(i as int)), name@),
        decreases rest.len(),
    {
        let node = rest.remove(0);
        assert(node == orig[i as int]);
        proof {
            let t = orig.take(i + 1);
            assert(t.drop_last() =~= orig.take(i as int));
            lemma_nodes_view(t);
            lemma_nodes_view(t.drop_last());
            assert(nodes_view(t).drop_last() =~= nodes_view(t.drop_last()));
            assert(nodes_view(t).last() == node_view(node));
        }
        let keep = match &node {
            XmlNode::Element(c) => !name_is(c, name),
            _ => true,
        };
        if keep {
            proof {
                lemma_nodes_view_push(r@, node);
            }
            r.push(node);
        }
        i += 1;
        assert(rest@ =~= orig.skip(i as int));
    }
    assert(orig.take(i as int) =~= orig);
    r
}

fn set_attribute_exec(a: &mut Vec<(String, String)>, key: &String, value: &String)
    ensures
        attrs_view(final(a)@) == set_attr_v(attrs_view(old(a)@), key@, value@),
{
    let ghost av = attrs_view(a@);
    let mut i: usize = 0;
    while i < a.len()
        invariant
            i <= a.len(),
            av == attrs_view(a@),
            a@ == old(a)@,
            attr_index_from(av, 0, key@) == attr_index_from(av, i as int, key@),
        decreases a.len() - i,
    {
        assert(av[i as int] == (a@[i as int].0@, a@[i as int].1@));
        if chars_equal(&chars_of(a[i].0.as_str()), &chars_of(key.as_str())) {
            a.set(i, (key.clone(), value.clone()));
            assert(attrs_view(a@) =~= av.update(i as int, (key@, value@)));
            return;
        }
        i += 1;
    }
    let p = (key.clone(), value.clone());
    proof {
        lemma_attrs_view_push(a@, p);
    }
    a.push(p);
}

fn child_index(ns: &Vec<XmlNode>, name: &Vec<char>) -> (r: Option<usize>)
    ensures
        match r {
            Some(k) => child_index_from(nodes_view(ns@), 0, name@) == k as int && k < ns.len(),
            None => child_index_from(nodes_view(ns@), 0, name@) == -1,
        },
{
    let ghost nv = nodes_view(ns@);
    proof {
        lemma_nodes_view(ns@);
    }
    let mut i: usize = 0;
    while i < ns.len()
        invariant
            i <= ns.len(),
            nv == nodes_view(ns@),
            nv.len() == ns@.len(),
            forall|k: int| 0 <= k < ns@.len() ==> #[trigger] nv[k] == node_view(ns@[k]),
            child_index_from(nv, 0, name@) == child_index_from(nv, i as int, name@),
        decreases ns.len() - i,
    {
        assert(nv[i as int] == node_view(ns@[i as int]));
        match &ns[i] {
            XmlNode::Element(c) => {
                if name_is(c, name) {
                    return Some(i);
                }
            },
            _ => {},
        }
        i += 1;
    }
    None
}

/// `e` changed by `ed`.
pub fn apply_edit(e: XmlElement, ed: &XmlEdit) -> (r: XmlElement)
    ensures
        element_view(r) == apply_edit_v(element_view(e), edit_view(*ed)),
{
    let XmlElement { name, mut attributes, children, namespace } = e;
    match ed {
        XmlEdit::SetText(t) => {
            let mut kids: Vec<XmlNode> = Vec::new();
            kids.push(XmlNode::Text(t.clone()));
            let rest = without_texts_exec(children);
            let ghost k0 = kids@;
            let mut rest_mut = rest;
            let ghost rv = rest_mut@;
            kids.append(&mut rest_mut);
            proof {
                lemma_nodes_view(k0);
                lemma_nodes_view(rv);
                lemma_nodes_view(kids@);
                assert(nodes_view(kids@) =~= seq![NodeV::Text(t@)] + nodes_view(rv));
            }
            XmlElement { name, attributes, children: kids, namespace }
        },
        XmlEdit::SetAttribute(k, v) => {
            set_attribute_exec(&mut attributes, k, v);
            XmlElement { name, attributes, children, namespace }
        },
        XmlEdit::ReplaceChildren(ns) => {
            XmlElement { name, attributes, children: copy_nodes(ns), namespace }
        },
        XmlEdit::RemoveChildElements(n) => {
            let kids = without_elements_exec(children, &chars_of(n.as_str()));
            XmlElement { name, attributes, children: kids, namespace }
        },
        XmlEdit::AppendChildren(ns) => {
            let mut kids = children;
            let ghost k0 = kids@;
            let mut extra = copy_nodes(ns);
            let ghost ev = extra@;
            kids.append(&mut extra);
            proof {
                lemma_nodes_view(k0);
                lemma_nodes_view(ev);
                lemma_nodes_view(ns@);
                lemma_nodes_view(kids@);
                assert(nodes_view(kids@) =~= nodes_view(k0) + nodes_view(ns@));
            }
            XmlElement { name, attributes, children: kids, namespace }
        },
        XmlEdit::InsertChildAfter(n, node) => {
            let mut kids = children;
            let ghost k0 = kids@;
            let pos = match child_index(&kids, &chars_of(n.as_str())) {
                Some(k) => k + 1,
                None => 0,
            };
            let c = copy_node(node);
            kids.insert(pos, c);
            proof {
                lemma_nodes_view(k0);
                lemma_nodes_view(kids@);
                assert(nodes_view(kids@) =~= nodes_view(k0).insert(pos as int, node_view(*node)));
            }
            XmlElement { name, attributes, children: kids, namespace }
        },
    }
}

/// Changes the first element named `name`, in document order, by `ed`;
/// whether there was one.
pub fn edit_first(e: XmlElement, name: &Vec<char>, ed: &XmlEdit) -> (r: (XmlElement, bool))
    ensures
        (element_view(r.0), r.1) == edit_first_v(element_view(e), name@, edit_view(*ed)),
    decreases element_view(e), 0nat,
{
    if name_is(&e, name) {
        return (apply_edit(e, ed), true);
    }
    let ghost ev = element_view(e);
    let XmlElement { name: n, attributes, children, namespace } = e;
    proof {
        assert(ev.children == nodes_view(children@));
        assert(decreases_to!(ev => nodes_view(children@)));
    }
    let (kids, found) = edit_nodes(children, name, ed);
    (XmlElement { name: n, attributes, children: kids, namespace }, found)
}

fn edit_nodes(ns: Vec<XmlNode>, name: &Vec<char>, ed: &XmlEdit) -> (r: (Vec<XmlNode>, bool))
    ensures
        (nodes_view(r.0@), r.1) == edit_nodes_v(nodes_view(ns@), 0, name@, edit_view(*ed)),
    decreases nodes_view(ns@), 1nat,
{
    let ghost orig = ns@;
    let n0 = ns.len();
    let ghost ns0 = ns;
    let ghost nv = nodes_view(orig);
    let ghost edv = edit_view(*ed);
    proof {
        lemma_nodes_view(orig);
    }
    let mut out: Vec<XmlNode> = Vec::new();
    let mut rest = ns;
    let mut i: usize = 0;
    assert(nodes_view(out@) =~= nv.take(0));
    while rest.len() > 0
        invariant
            i <= orig.len(),
            orig.len() <= usize::MAX,
            ns0@ == orig,
            orig == ns@,
            edv == edit_view(*ed),
            nv == nodes_view(orig),
            nv.len() == orig.len(),
            forall|k: int| 0 <= k < orig.len() ==> #[trigger] nv[k] == node_view(orig[k]),
            rest@ == orig.skip(i as int),
            nodes_view(out@) == nv.take(i as int),
            edit_nodes_v(nv, 0, name@, edv) == (nv.take(i as int) + edit_nodes_v(nv, i as int, name@, edv).0,
                edit_nodes_v(nv, i as int, name@, edv).1),
        decreases rest.len(),
    {
        let node = rest.remove(0);
        assert(node == orig[i as int]);
        assert(nv[i as int] == node_view(node));
        let ghost before = out@;
        match node {
            XmlNode::Element(c) => {
                let ghost cv = element_view(c);
                proof {
                    assert(ns0@[i as int] == XmlNode::Element(c));
                    assert(nv[i as int] == NodeV::Element(element_view(c)));
                    assert(decreases_to!(nv => element_view(c)));
                }
                let (c2, found) = edit_first(c, name, ed);
                if found {
                    assert(edit_first_v(cv, name@, edv) == (element_view(c2), true));
                    assert(edit_nodes_v(nv, i as int, name@, edv) == (
                        seq![NodeV::Element(element_view(c2))] + nv.skip(i + 1),
                        true,
                    ));
                    let mut tail = rest;
                    let ghost tv = tail@;
                    proof {
                        lemma_nodes_view_push(out@, XmlNode::Element(c2));
                    }
                    out.push(XmlNode::Element(c2));
                    let ghost ov = out@;
                    out.append(&mut tail);
                    proof {
                        lemma_nodes_view(ov);
                        lemma_nodes_view(tv);
                        lemma_nodes_view(out@);
                        assert(nodes_view(out@) =~= nodes_view(ov) + nodes_view(tv));
                        assert(tv =~= orig.skip(i + 1));
                        lemma_nodes_view(orig.skip(i + 1));
                        assert(nodes_view(orig.skip(i + 1)) =~= nv.skip(i + 1));
                        assert(nv.take(i as int) + (seq![NodeV::Element(element_view(c2))] + nv.skip(i + 1))
                            =~= nodes_view(out@));
                    }
                    return (out, true);
                }
                proof {
                    lemma_edit_finds(cv, name@, edv);
                    assert(element_view(c2) == cv);
                    assert(node_view(XmlNode::Element(c2)) == nv[i as int]);
                    lemma_nodes_view_push(out@, XmlNode::Element(c2));
                    assert(edit_nodes_v(nv, i as int, name@, edv) == (
                        seq![nv[i as int]] + edit_nodes_v(nv, i + 1, name@, edv).0,
                        edit_nodes_v(nv, i + 1, name@, edv).1,
                    ));
                }
                out.push(XmlNode::Element(c2));
            },
            other => {
                proof {
                    lemma_nodes_view_push(out@, other);
                    assert(node_view(other) == nv[i as int]);
                }
                out.push(other);
            },
        }
        proof {
            assert(nv.take(i + 1) =~= nv.take(i as int).push(nv[i as int]));
            assert(nv.take(i as int) + (seq![nv[i as int]] + edit_nodes_v(nv, i + 1, name@, edv).0)
                =~= nv.take(i + 1) + edit_nodes_v(nv, i + 1, name@, edv).0);
        }
        i += 1;
        assert(rest@ =~= orig.skip(i as int));
    }
    proof {
        assert(nv.take(i as int) =~= nv);
        assert(nv + seq![] =~= nv);
    }
    (out, false)
}


/// An element holding one text node.
pub fn text_element(name: &str, value: &Vec<char>) -> (r: XmlElement)
    ensures
        element_view(r) == (ElementV {
            name: name@,
            attributes: seq![],
            children: seq![NodeV::Text(value@)],
            namespace: no_namespace_v(),
        }),
{
    let mut children: Vec<XmlNode> = Vec::new();
    let t = XmlNode::Text(string_of(value));
    proof {
        lemma_nodes_view_push(children@, t);
    }
    children.push(t);
    let r = XmlElement { name: string_of(&chars_of(name)), attributes: Vec::new(), children, namespace: no_namespace() };
    assert(attrs_view(r.attributes@) =~= seq![]);
    assert(nodes_view(r.children@) =~= seq![NodeV::Text(value@)]);
    r
}

} // verus!
