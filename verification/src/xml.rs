use vstd::prelude::*;

use crate::text::{chars_eq, chars_of, text_eq};

verus! {

/// One node of a parsed XML document, in document order.
///
/// A document is held as the list of all its nodes in document order
/// (the root node first); a node's position in the list is its id, and
/// `parent` is the id of its parent.
pub struct XmlNode {
    pub is_element: bool,
    pub parent: Option<usize>,
    /// Local tag name ("" for nodes that are not elements).
    pub tag: String,
    /// The attributes `(local name, value)`, in document order.
    pub attributes: Vec<(String, String)>,
    /// The node's text: for an element, the text of its first child if that child is text.
    pub text: Option<String>,
}

/// The mathematical value of an [`XmlNode`].
pub struct XmlNodeView {
    pub is_element: bool,
    pub parent: Option<usize>,
    pub tag: Seq<char>,
    pub attributes: Seq<(Seq<char>, Seq<char>)>,
    pub text: Option<Seq<char>>,
}

pub open spec fn opt_view(o: Option<String>) -> Option<Seq<char>> {
    match o {
        Some(t) => Some(t@),
        None => None,
    }
}

impl View for XmlNode {
    type V = XmlNodeView;

    open spec fn view(&self) -> XmlNodeView {
        XmlNodeView {
            is_element: self.is_element,
            parent: self.parent,
            tag: self.tag@,
            attributes: self.attributes@.map_values(|a: (String, String)| (a.0@, a.1@)),
            text: opt_view(self.text),
        }
    }
}

pub open spec fn nodes_view(v: Seq<XmlNode>) -> Seq<XmlNodeView> {
    v.map_values(|n: XmlNode| n@)
}

/// The nodes of the document that roxmltree reads from `text`, or its error message.
pub uninterp spec fn xml_document(text: Seq<char>) -> Result<Seq<XmlNodeView>, Seq<char>>;

/// The shape of every document roxmltree builds: the root node comes first, every other node
/// comes after its parent, and the root has an element child (the root element).
pub open spec fn tree_shaped(s: Seq<XmlNodeView>) -> bool {
    &&& s.len() > 0
    &&& !s[0].is_element
    &&& s[0].parent is None
    &&& forall|i: int|
        #![trigger s[i].parent]
        0 < i < s.len() ==> (s[i].parent matches Some(p) && p < i)
    &&& exists|i: int| 0 < i < s.len() && is_child(s, 0, i)
}

/// `roxmltree::Document::parse`, with every node of the document (`Document::descendants`)
/// copied into an [`XmlNode`]. The parse itself is not restated here: its result is named by
/// [`xml_document`]. What is stated besides is the shape of the node list, which the crate's
/// source shows: nodes are stored in document order, each after its parent, the root node
/// first, and a document without an element is refused.
#[verifier::external_body]
fn parse_xml_nodes(text: &str) -> (r: Result<Vec<XmlNode>, String>)
    ensures
        match r {
            Ok(v) => xml_document(text@) == Ok::<Seq<XmlNodeView>, Seq<char>>(nodes_view(v@))
                && tree_shaped(nodes_view(v@)),
            Err(m) => xml_document(text@) == Err::<Seq<XmlNodeView>, Seq<char>>(m@),
        },
{
    match roxmltree::Document::parse(text) {
        Ok(doc) => Ok(doc.descendants().map(|n| XmlNode {
            is_element: n.is_element(),
            parent: n.parent().map(|p| p.id().get_usize()),
            tag: n.tag_name().name().to_string(),
            attributes: n.attributes().map(|a| (a.name().to_string(), a.value().to_string())).collect(),
            text: n.text().map(|t| t.to_string()),
        }).collect()),
        Err(e) => Err(e.to_string()),
    }
}

/// A parsed XML document.
pub struct XmlDoc {
    pub nodes: Vec<XmlNode>,
}

impl XmlDoc {
    pub open spec fn spec_nodes(&self) -> Seq<XmlNodeView> {
        nodes_view(self.nodes@)
    }

    pub open spec fn wf(&self) -> bool {
        tree_shaped(self.spec_nodes())
    }

    /// Parses `text` as XML.
    pub fn parse(text: &str) -> (r: Result<XmlDoc, String>)
        ensures
            match r {
                Ok(d) => xml_document(text@) == Ok::<Seq<XmlNodeView>, Seq<char>>(d.spec_nodes())
                    && d.wf(),
                Err(m) => xml_document(text@) == Err::<Seq<XmlNodeView>, Seq<char>>(m@),
            },
    {
        match parse_xml_nodes(text) {
            Ok(nodes) => Ok(XmlDoc { nodes }),
            Err(m) => Err(m),
        }
    }
}

// ------------------------------------------------------------------
// Queries, as spec functions over the node list
// ------------------------------------------------------------------

/// `j` is an element child of `k`.
pub open spec fn is_child(s: Seq<XmlNodeView>, k: int, j: int) -> bool {
    0 <= j < s.len() && s[j].is_element && s[j].parent == Some(k as usize)
}

/// `j` is an element named `t` (`Node::has_tag_name`).
pub open spec fn has_tag(s: Seq<XmlNodeView>, j: int, t: Seq<char>) -> bool {
    0 <= j < s.len() && s[j].is_element && s[j].tag == t
}

/// The first value among `attrs` whose name is `name`.
pub open spec fn first_attr(attrs: Seq<(Seq<char>, Seq<char>)>, name: Seq<char>) -> Option<
    Seq<char>,
>
    decreases attrs.len(),
{
    if attrs.len() == 0 {
        None
    } else if attrs[0].0 == name {
        Some(attrs[0].1)
    } else {
        first_attr(attrs.drop_first(), name)
    }
}

/// `Node::attribute(name)` of node `j`.
pub open spec fn attr(s: Seq<XmlNodeView>, j: int, name: Seq<char>) -> Option<Seq<char>> {
    first_attr(s[j].attributes, name)
}

/// The element children of `k` named `t` among the nodes before `n`, in document order.
pub open spec fn tagged_children_upto(s: Seq<XmlNodeView>, k: int, t: Seq<char>, n: int) -> Seq<
    int,
>
    decreases n,
{
    if n <= 0 {
        Seq::empty()
    } else {
        let before = tagged_children_upto(s, k, t, n - 1);
        if is_child(s, k, n - 1) && has_tag(s, n - 1, t) {
            before.push(n - 1)
        } else {
            before
        }
    }
}

/// The element children of `k` named `t`, in document order (`children().filter(has_tag_name)`).
pub open spec fn tagged_children(s: Seq<XmlNodeView>, k: int, t: Seq<char>) -> Seq<int> {
    tagged_children_upto(s, k, t, s.len() as int)
}

/// The element children of the root node.
pub open spec fn root_children(s: Seq<XmlNodeView>, n: int) -> Seq<int>
    decreases n,
{
    if n <= 0 {
        Seq::empty()
    } else if is_child(s, 0, n - 1) {
        root_children(s, n - 1).push(n - 1)
    } else {
        root_children(s, n - 1)
    }
}

/// `Document::root_element`: the first element child of the root node.
pub open spec fn root_element(s: Seq<XmlNodeView>) -> int {
    root_children(s, s.len() as int)[0]
}

/// `j` is `k` or one of its descendants.
pub open spec fn in_subtree(s: Seq<XmlNodeView>, k: int, j: int) -> bool
    decreases j,
{
    if j == k {
        true
    } else if 0 <= j < s.len() {
        match s[j].parent {
            Some(p) => k <= p < j && in_subtree(s, k, p as int),
            None => false,
        }
    } else {
        false
    }
}

/// The `<property>` nodes in the subtree of `k` among the nodes from `j` on, in document order.
pub open spec fn properties_from(s: Seq<XmlNodeView>, k: int, j: int) -> Seq<int>
    decreases s.len() - j,
{
    if j >= s.len() || j < 0 {
        Seq::empty()
    } else {
        let rest = properties_from(s, k, j + 1);
        if in_subtree(s, k, j) && has_tag(s, j, seq!['p', 'r', 'o', 'p', 'e', 'r', 't', 'y']) {
            seq![j] + rest
        } else {
            rest
        }
    }
}

/// The `<property>` elements among `k` and its descendants, in document order.
pub open spec fn subtree_properties(s: Seq<XmlNodeView>, k: int) -> Seq<int> {
    properties_from(s, k, k)
}

/// The first of `props` whose `name` attribute is `name`.
pub open spec fn first_named(s: Seq<XmlNodeView>, props: Seq<int>, name: Seq<char>) -> Option<int>
    decreases props.len(),
{
    if props.len() == 0 {
        None
    } else if attr(s, props[0], seq!['n', 'a', 'm', 'e']) == Some(name) {
        Some(props[0])
    } else {
        first_named(s, props.drop_first(), name)
    }
}

/// `descendants().find(property named name).and_then(attribute("value"))`.
pub open spec fn property_value(s: Seq<XmlNodeView>, k: int, name: Seq<char>) -> Option<
    Seq<char>,
> {
    match first_named(s, subtree_properties(s, k), name) {
        Some(j) => attr(s, j, seq!['v', 'a', 'l', 'u', 'e']),
        None => None,
    }
}

// ------------------------------------------------------------------
// Queries, executable
// ------------------------------------------------------------------

impl XmlDoc {
    /// `Node::attribute(name)` of node `j`.
    pub fn attribute(&self, j: usize, name: &str) -> (r: Option<String>)
        requires
            j < self.nodes@.len(),
        ensures
            opt_view(r) == attr(self.spec_nodes(), j as int, name@),
    {
        let attrs = &self.nodes[j].attributes;
        let ghost sa = self.spec_nodes()[j as int].attributes;
        assert(sa == attrs@.map_values(|a: (String, String)| (a.0@, a.1@)));
        assert(sa.subrange(0, sa.len() as int) == sa);
        let mut i: usize = 0;
        while i < attrs.len()
            invariant
                0 <= i <= attrs@.len(),
                j < self.nodes@.len(),
                sa == self.spec_nodes()[j as int].attributes,
                sa == attrs@.map_values(|a: (String, String)| (a.0@, a.1@)),
                first_attr(sa, name@) == first_attr(sa.subrange(i as int, sa.len() as int), name@),
            decreases attrs.len() - i,
        {
            let ghost rest = sa.subrange(i as int, sa.len() as int);
            assert(rest.len() > 0);
            assert(rest[0] == sa[i as int]);
            assert(sa[i as int] == (attrs@[i as int].0@, attrs@[i as int].1@));
            if text_eq(attrs[i].0.as_str(), name) {
                let v = attrs[i].1.clone();
                assert(first_attr(rest, name@) == Some(rest[0].1));
                assert(v@ == rest[0].1);
                assert(opt_view(Some(v)) == Some(v@));
                assert(first_attr(sa, name@) == Some(v@));
                return Some(v);
            }
            assert(rest.drop_first() == sa.subrange(i + 1, sa.len() as int));
            i = i + 1;
        }
        None
    }

    /// Whether node `j` is an element named `t`.
    pub fn has_tag_name(&self, j: usize, t: &str) -> (r: bool)
        requires
            j < self.nodes@.len(),
        ensures
            r == has_tag(self.spec_nodes(), j as int, t@),
    {
        self.nodes[j].is_element && text_eq(self.nodes[j].tag.as_str(), t)
    }

    /// `Document::root_element`.
    pub fn root_element(&self) -> (r: usize)
        requires
            self.wf(),
        ensures
            r == root_element(self.spec_nodes()),
            is_child(self.spec_nodes(), 0, r as int),
    {
        let ghost s = self.spec_nodes();
        let mut i: usize = 1;
        proof {
            let w = choose|w: int| 0 < w < s.len() && is_child(s, 0, w);
            assert(root_children(s, 1) == Seq::<int>::empty()) by {
                assert(!is_child(s, 0, 0));
                assert(root_children(s, 0) == Seq::<int>::empty());
            }
        }
        while i < self.nodes.len()
            invariant
                s == self.spec_nodes(),
                self.wf(),
                1 <= i <= s.len(),
                root_children(s, i as int) == Seq::<int>::empty(),
            decreases self.nodes.len() - i,
        {
            if self.nodes[i].is_element && self.nodes[i].parent == Some(0usize) {
                assert(is_child(s, 0, i as int));
                proof {
                    lemma_root_children_extend(s, i as int + 1, s.len() as int);
                }
                return i;
            }
            i = i + 1;
        }
        proof {
            let w = choose|w: int| 0 < w < s.len() && is_child(s, 0, w);
            lemma_root_children_has(s, w, s.len() as int);
        }
        0
    }

    /// The element children of `k` named `t`, in document order.
    pub fn children_named(&self, k: usize, t: &str) -> (r: Vec<usize>)
        ensures
            r@.map_values(|j: usize| j as int) == tagged_children(self.spec_nodes(), k as int, t@),
    {
        let ghost s = self.spec_nodes();
        let tv = chars_of(t);
        let mut r: Vec<usize> = Vec::new();
        let mut i: usize = 0;
        while i < self.nodes.len()
            invariant
                s == self.spec_nodes(),
                tv@ == t@,
                0 <= i <= s.len(),
                r@.map_values(|j: usize| j as int) == tagged_children_upto(s, k as int, t@, i as int),
            decreases self.nodes.len() - i,
        {
            let n = &self.nodes[i];
            if n.is_element && n.parent == Some(k) && chars_eq(&chars_of(n.tag.as_str()), &tv) {
                r.push(i);
                assert(r@.map_values(|j: usize| j as int) == tagged_children_upto(s, k as int, t@, i as int).push(i as int));
            }
            i = i + 1;
        }
        r
    }

    /// The first element child of `k` named `t`.
    pub fn first_child_named(&self, k: usize, t: &str) -> (r: Option<usize>)
        ensures
            match r {
                Some(j) => tagged_children(self.spec_nodes(), k as int, t@).len() > 0
                    && tagged_children(self.spec_nodes(), k as int, t@)[0] == j,
                None => tagged_children(self.spec_nodes(), k as int, t@).len() == 0,
            },
    {
        let v = self.children_named(k, t);
        if v.len() > 0 {
            Some(v[0])
        } else {
            None
        }
    }

    /// Whether `j` is `k` or a descendant of `k`.
    pub fn is_in_subtree(&self, k: usize, j: usize) -> (r: bool)
        requires
            j < self.nodes@.len(),
        ensures
            r == in_subtree(self.spec_nodes(), k as int, j as int),
        decreases j,
    {
        if j == k {
            return true;
        }
        match self.nodes[j].parent {
            Some(p) => {
                if k <= p && p < j {
                    self.is_in_subtree(k, p)
                } else {
                    false
                }
            },
            None => false,
        }
    }

    /// The `<property>` elements among `k` and its descendants, in document order.
    pub fn subtree_properties(&self, k: usize) -> (r: Vec<usize>)
        ensures
            r@.map_values(|j: usize| j as int) == subtree_properties(self.spec_nodes(), k as int),
            forall|m: int| 0 <= m < r@.len() ==> #[trigger] r@[m] < self.nodes@.len(),
    {
        let ghost s = self.spec_nodes();
        let mut r: Vec<usize> = Vec::new();
        if k >= self.nodes.len() {
            return r;
        }
        let mut i = k;
        proof { reveal_strlit("property"); }
        while i < self.nodes.len()
            invariant
                s == self.spec_nodes(),
                k <= i <= s.len(),
                r@.map_values(|j: usize| j as int) + properties_from(s, k as int, i as int)
                    == properties_from(s, k as int, k as int),
                forall|m: int| 0 <= m < r@.len() ==> #[trigger] r@[m] < s.len(),
            decreases self.nodes.len() - i,
        {
            let ghost old_r = r@.map_values(|j: usize| j as int);
            proof {
                reveal_strlit("property");
                assert("property"@ =~= seq!['p', 'r', 'o', 'p', 'e', 'r', 't', 'y']);
            }
            if self.is_in_subtree(k, i) && self.has_tag_name(i, "property") {
                r.push(i);
                assert(r@.map_values(|j: usize| j as int) == old_r.push(i as int));
                assert(old_r.push(i as int) + properties_from(s, k as int, i + 1) == old_r + (seq![i as int] + properties_from(s, k as int, i + 1)));
            }
            i = i + 1;
        }
        assert(properties_from(s, k as int, i as int) == Seq::<int>::empty());
        assert(r@.map_values(|j: usize| j as int) + Seq::<int>::empty() == r@.map_values(|j: usize| j as int));
        r
    }

    /// `descendants().find(property named name).and_then(attribute("value"))` for node `k`.
    pub fn property_value(&self, k: usize, name: &str) -> (r: Option<String>)
        requires
            k < self.nodes@.len(),
        ensures
            opt_view(r) == property_value(self.spec_nodes(), k as int, name@),
    {
        let ghost s = self.spec_nodes();
        let props = self.subtree_properties(k);
        let ghost ps = props@.map_values(|j: usize| j as int);
        assert(ps.subrange(0, ps.len() as int) == ps);
        assert forall|m: int| 0 <= m < ps.len() implies 0 <= #[trigger] ps[m] < s.len() by {
            assert(ps[m] == props@[m] as int);
        }
        let mut i: usize = 0;
        while i < props.len()
            invariant
                s == self.spec_nodes(),
                ps == props@.map_values(|j: usize| j as int),
                ps == subtree_properties(s, k as int),
                0 <= i <= ps.len(),
                forall|m: int| 0 <= m < ps.len() ==> 0 <= #[trigger] ps[m] < s.len(),
                first_named(s, ps, name@) == first_named(s, ps.subrange(i as int, ps.len() as int), name@),
            decreases props.len() - i,
        {
            let j = props[i];
            let ghost rest = ps.subrange(i as int, ps.len() as int);
            assert(rest.len() > 0);
            assert(ps[i as int] == j as int);
            assert(rest[0] == j as int);
            let nm = self.attribute(j, "name");
            proof {
                reveal_strlit("name");
                assert("name"@ =~= seq!['n', 'a', 'm', 'e']);
            }
            let hit = match &nm {
                Some(v) => text_eq(v.as_str(), name),
                None => false,
            };
            if hit {
                proof {
                    reveal_strlit("value");
                    assert("value"@ =~= seq!['v', 'a', 'l', 'u', 'e']);
                }
                assert(attr(s, j as int, seq!['n', 'a', 'm', 'e']) == Some(name@));
                assert(first_named(s, rest, name@) == Some(j as int));
                return self.attribute(j, "value");
            }
            assert(first_named(s, rest, name@) == first_named(s, rest.drop_first(), name@));
            assert(rest.drop_first() == ps.subrange(i + 1, ps.len() as int));
            i = i + 1;
        }
        None
    }
}

proof fn lemma_root_children_extend(s: Seq<XmlNodeView>, a: int, n: int)
    requires
        1 <= a <= n,
        root_children(s, a - 1) == Seq::<int>::empty(),
        is_child(s, 0, a - 1),
    ensures
        root_children(s, n).len() > 0,
        root_children(s, n)[0] == a - 1,
    decreases n - a,
{
    if n > a {
        lemma_root_children_extend(s, a, n - 1);
    }
}

proof fn lemma_root_children_has(s: Seq<XmlNodeView>, w: int, n: int)
    requires
        0 <= w < n,
        is_child(s, 0, w),
    ensures
        root_children(s, n).len() > 0,
    decreases n,
{
    if n - 1 != w {
        lemma_root_children_has(s, w, n - 1);
    }
}

/// Every index that `tagged_children` lists is a node of the document.
pub proof fn lemma_tagged_children_in_range(s: Seq<XmlNodeView>, k: int, t: Seq<char>)
    ensures
        forall|m: int|
            0 <= m < tagged_children(s, k, t).len() ==> 0 <= #[trigger] tagged_children(s, k, t)[m]
                < s.len(),
{
    lemma_tagged_children_upto_in_range(s, k, t, s.len() as int);
}

proof fn lemma_tagged_children_upto_in_range(s: Seq<XmlNodeView>, k: int, t: Seq<char>, n: int)
    ensures
        forall|m: int|
            0 <= m < tagged_children_upto(s, k, t, n).len() ==> 0 <= #[trigger] tagged_children_upto(
                s,
                k,
                t,
                n,
            )[m] < n,
    decreases n,
{
    if n > 0 {
        lemma_tagged_children_upto_in_range(s, k, t, n - 1);
        let prev = tagged_children_upto(s, k, t, n - 1);
        let cur = tagged_children_upto(s, k, t, n);
        assert forall|m: int| 0 <= m < cur.len() implies 0 <= #[trigger] cur[m] < n by {
            if is_child(s, k, n - 1) && has_tag(s, n - 1, t) {
                assert(cur == prev.push(n - 1));
                if m < prev.len() {
                    assert(cur[m] == prev[m]);
                }
            } else {
                assert(cur == prev);
            }
        }
    }
}

} // verus!
