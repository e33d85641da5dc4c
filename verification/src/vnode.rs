use vstd::prelude::*;

verus! {

/// The kinds of node a user interface tree is built from.
#[derive(Debug, Clone, Copy, PartialEq, Eq, Structural)]
pub enum NodeType {
    View,
    Text,
    TextInput,
    Pressable,
    SafeAreaView,
    NavigationContainer,
    StackNavigator,
    StackScreen,
}

/// The mathematical value of a node: every string taken by its characters.
#[verifier::ext_equal]
pub struct NodeView {
    pub tag: NodeType,
    pub children: Seq<NodeView>,
    pub text_content: Option<Seq<char>>,
    pub style_raw: Seq<char>,
    pub attributes: Seq<(Seq<char>, Seq<char>)>,
}

/// A node of the user interface tree.
#[derive(Debug)]
pub struct VNode {
    pub tag: NodeType,
    pub children: Vec<VNode>,
    pub text_content: Option<String>,
    pub style_raw: String,
    pub attributes: Vec<(String, String)>,
}

pub open spec fn opt_string_view(o: Option<String>) -> Option<Seq<char>> {
    match o {
        Some(s) => Some(s@),
        None => None,
    }
}

pub open spec fn attrs_view(a: Seq<(String, String)>) -> Seq<(Seq<char>, Seq<char>)> {
    a.map_values(|p: (String, String)| (p.0@, p.1@))
}

pub open spec fn node_view(n: VNode) -> NodeView
    decreases n,
{
    NodeView {
        tag: n.tag,
        children: children_view(n.children@),
        text_content: opt_string_view(n.text_content),
        style_raw: n.style_raw@,
        attributes: attrs_view(n.attributes@),
    }
}

pub open spec fn children_view(s: Seq<VNode>) -> Seq<NodeView>
    decreases s,
{
    if s.len() == 0 {
        Seq::empty()
    } else {
        children_view(s.drop_last()).push(node_view(s.last()))
    }
}

impl View for VNode {
    type V = NodeView;

    open spec fn view(&self) -> NodeView {
        node_view(*self)
    }
}

} // verus!

verus! {

/// The position of the first attribute whose key is `key`, searching from `i`.
pub open spec fn key_index_from(a: Seq<(Seq<char>, Seq<char>)>, key: Seq<char>, i: int) -> Option<int>
    decreases a.len() - i,
{
    if i < 0 || i >= a.len() {
        None
    } else if a[i].0 == key {
        Some(i)
    } else {
        key_index_from(a, key, i + 1)
    }
}

/// The position of the first attribute whose key is `key`.
pub open spec fn key_index(a: Seq<(Seq<char>, Seq<char>)>, key: Seq<char>) -> Option<int> {
    key_index_from(a, key, 0)
}

/// The value of the first attribute whose key is `key`.
pub open spec fn attr_lookup(a: Seq<(Seq<char>, Seq<char>)>, key: Seq<char>) -> Option<Seq<char>> {
    match key_index(a, key) {
        Some(i) => Some(a[i].1),
        None => None,
    }
}

/// The attribute list after giving `key` the value `value`: the first entry with that key
/// has its value replaced in place; without one, the pair is appended.
pub open spec fn attrs_set(a: Seq<(Seq<char>, Seq<char>)>, key: Seq<char>, value: Seq<char>) -> Seq<(Seq<char>, Seq<char>)> {
    match key_index(a, key) {
        Some(i) => a.update(i, (key, value)),
        None => a.push((key, value)),
    }
}

/// No key occurs twice.
pub open spec fn keys_unique(a: Seq<(Seq<char>, Seq<char>)>) -> bool {
    forall|i: int, j: int| 0 <= i < a.len() && 0 <= j < a.len() && i != j ==> a[i].0 != a[j].0
}

pub proof fn lemma_key_index_from(a: Seq<(Seq<char>, Seq<char>)>, key: Seq<char>, i: int)
    requires
        0 <= i <= a.len(),
    ensures
        match key_index_from(a, key, i) {
            Some(k) => i <= k < a.len() && a[k].0 == key && forall|j: int| i <= j < k ==> a[j].0 != key,
            None => forall|j: int| i <= j < a.len() ==> a[j].0 != key,
        },
    decreases a.len() - i,
{
    if i < a.len() && a[i].0 != key {
        lemma_key_index_from(a, key, i + 1);
    }
}

pub proof fn lemma_key_index(a: Seq<(Seq<char>, Seq<char>)>, key: Seq<char>)
    ensures
        match key_index(a, key) {
            Some(k) => 0 <= k < a.len() && a[k].0 == key && forall|j: int| 0 <= j < k ==> a[j].0 != key,
            None => forall|j: int| 0 <= j < a.len() ==> a[j].0 != key,
        },
{
    lemma_key_index_from(a, key, 0);
}

/// The position characterised by `lemma_key_index` is the only one with that property.
pub proof fn lemma_key_index_unique(a: Seq<(Seq<char>, Seq<char>)>, key: Seq<char>, k: int)
    requires
        0 <= k < a.len(),
        a[k].0 == key,
        forall|j: int| 0 <= j < k ==> a[j].0 != key,
    ensures
        key_index(a, key) == Some(k),
{
    lemma_key_index(a, key);
}

pub proof fn lemma_key_index_none(a: Seq<(Seq<char>, Seq<char>)>, key: Seq<char>)
    requires
        forall|j: int| 0 <= j < a.len() ==> a[j].0 != key,
    ensures
        key_index(a, key) == None::<int>,
{
    lemma_key_index(a, key);
}

pub proof fn lemma_children_view(s: Seq<VNode>)
    ensures
        children_view(s).len() == s.len(),
        forall|i: int| 0 <= i < s.len() ==> #[trigger] children_view(s)[i] == node_view(s[i]),
    decreases s.len(),
{
    if s.len() > 0 {
        lemma_children_view(s.drop_last());
    }
}

impl VNode {
    /// A node of the given kind, with no children, text, style or attributes.
    pub fn new(tag: NodeType) -> (res: Self)
        ensures
            res@ == (NodeView {
                tag,
                children: Seq::empty(),
                text_content: None,
                style_raw: Seq::empty(),
                attributes: Seq::empty(),
            }),
    {
        let res = VNode {
            tag,
            children: Vec::new(),
            text_content: None,
            style_raw: String::new(),
            attributes: Vec::new(),
        };
        assert(attrs_view(res.attributes@) =~= Seq::empty());
        res
    }

    /// Gives the attribute `key` the value `value`: an existing entry keeps its place and
    /// takes the new value; otherwise the pair is appended.
    pub fn set_attr(&mut self, key: &str, value: &str)
        ensures
            final(self)@ == (NodeView { attributes: attrs_set(old(self)@.attributes, key@, value@), ..old(self)@ }),
    {
        let ghost a = attrs_view(self.attributes@);
        let n = self.attributes.len();
        let mut i: usize = 0;
        while i < n
            invariant
                n == self.attributes@.len(),
                a == attrs_view(self.attributes@),
                *self == *old(self),
                i <= n,
                forall|j: int| 0 <= j < i ==> a[j].0 != key@,
            decreases n - i,
        {
            if crate::text::str_eq(self.attributes[i].0.as_str(), key) {
                proof {
                    lemma_key_index_unique(a, key@, i as int);
                }
                let ghost old_self = *self;
                self.attributes.set(i, (crate::text::owned(key), crate::text::owned(value)));
                assert(attrs_view(self.attributes@) =~= a.update(i as int, (key@, value@)));
                assert(self@ == (NodeView { attributes: attrs_set(old_self@.attributes, key@, value@), ..old_self@ }));
                return;
            }
            i = i + 1;
        }
        proof {
            lemma_key_index_none(a, key@);
        }
        self.attributes.push((crate::text::owned(key), crate::text::owned(value)));
        assert(attrs_view(self.attributes@) =~= a.push((key@, value@)));
    }

    /// The value of the first attribute named `key`, if any.
    pub fn attr(&self, key: &str) -> (res: Option<&str>)
        ensures
            match res {
                Some(v) => attr_lookup(self@.attributes, key@) == Some(v@),
                None => attr_lookup(self@.attributes, key@) == None::<Seq<char>>,
            },
    {
        let ghost a = attrs_view(self.attributes@);
        let n = self.attributes.len();
        let mut i: usize = 0;
        while i < n
            invariant
                n == self.attributes@.len(),
                a == attrs_view(self.attributes@),
                i <= n,
                forall|j: int| 0 <= j < i ==> a[j].0 != key@,
            decreases n - i,
        {
            if crate::text::str_eq(self.attributes[i].0.as_str(), key) {
                proof {
                    lemma_key_index_unique(a, key@, i as int);
                }
                return Some(self.attributes[i].1.as_str());
            }
            i = i + 1;
        }
        proof {
            lemma_key_index_none(a, key@);
        }
        None
    }
}

} // verus!

verus! {

impl Clone for VNode {
    /// A deep copy: the copy has the same value as the node it copies.
    fn clone(&self) -> (res: Self)
        ensures
            res@ == self@,
        decreases self,
    {
        let n = self.children.len();
        let mut children: Vec<VNode> = Vec::new();
        let mut i: usize = 0;
        while i < n
            invariant
                n == self.children@.len(),
                i <= n,
                children@.len() == i,
                forall|j: int| 0 <= j < i ==> #[trigger] node_view(children@[j]) == node_view(self.children@[j]),
            decreases n - i,
        {
            assert(decreases_to!(self => self.children@[i as int]));
            let c = self.children[i].clone();
            children.push(c);
            i = i + 1;
        }
        let m = self.attributes.len();
        let mut attributes: Vec<(String, String)> = Vec::new();
        let mut k: usize = 0;
        while k < m
            invariant
                m == self.attributes@.len(),
                k <= m,
                attributes@.len() == k,
                forall|j: int| 0 <= j < k ==> #[trigger] attributes@[j] == self.attributes@[j],
            decreases m - k,
        {
            let key = self.attributes[k].0.clone();
            let value = self.attributes[k].1.clone();
            attributes.push((key, value));
            k = k + 1;
        }
        let text_content = match &self.text_content {
            Some(t) => Some(t.clone()),
            None => None,
        };
        let res = VNode { tag: self.tag, children, text_content, style_raw: self.style_raw.clone(), attributes };
        proof {
            lemma_children_view(res.children@);
            lemma_children_view(self.children@);
            assert(children_view(res.children@) =~= children_view(self.children@));
            assert(res.attributes@ =~= self.attributes@);
        }
        res
    }
}

impl Default for NodeType {
    fn default() -> (res: Self)
        ensures
            res == NodeType::View,
    {
        NodeType::View
    }
}

impl Default for VNode {
    /// The empty `View` node.
    fn default() -> (res: Self)
        ensures
            res@ == (NodeView {
                tag: NodeType::View,
                children: Seq::empty(),
                text_content: None,
                style_raw: Seq::empty(),
                attributes: Seq::empty(),
            }),
    {
        VNode::new(NodeType::View)
    }
}

} // verus!

verus! {

/// Reading an attribute right after setting it gives the value that was set.
pub proof fn law_attr_after_set(a: Seq<(Seq<char>, Seq<char>)>, key: Seq<char>, value: Seq<char>)
    ensures
        attr_lookup(attrs_set(a, key, value), key) == Some(value),
{
    lemma_key_index(a, key);
    let b = attrs_set(a, key, value);
    match key_index(a, key) {
        Some(i) => {
            lemma_key_index_unique(b, key, i);
        },
        None => {
            lemma_key_index_unique(b, key, a.len() as int);
        },
    }
}

/// Setting one attribute leaves what every other key reads unchanged.
pub proof fn law_set_attr_keeps_other_keys(
    a: Seq<(Seq<char>, Seq<char>)>,
    key: Seq<char>,
    value: Seq<char>,
    other: Seq<char>,
)
    requires
        other != key,
    ensures
        attr_lookup(attrs_set(a, key, value), other) == attr_lookup(a, other),
{
    lemma_key_index(a, key);
    lemma_key_index(a, other);
    let b = attrs_set(a, key, value);
    match key_index(a, other) {
        Some(i) => {
            lemma_key_index_unique(b, other, i);
        },
        None => {
            lemma_key_index_none(b, other);
        },
    }
}

/// Setting the same attribute twice is the same as setting it once to the second value.
pub proof fn law_set_attr_overwrites(
    a: Seq<(Seq<char>, Seq<char>)>,
    key: Seq<char>,
    v1: Seq<char>,
    v2: Seq<char>,
)
    ensures
        attrs_set(attrs_set(a, key, v1), key, v2) == attrs_set(a, key, v2),
{
    lemma_key_index(a, key);
    let b = attrs_set(a, key, v1);
    match key_index(a, key) {
        Some(i) => {
            lemma_key_index_unique(b, key, i);
            assert(b.update(i, (key, v2)) =~= a.update(i, (key, v2)));
        },
        None => {
            lemma_key_index_unique(b, key, a.len() as int);
            assert(b.update(a.len() as int, (key, v2)) =~= a.push((key, v2)));
        },
    }
}

/// Setting an attribute that is present keeps the number of attributes; setting one that is
/// absent adds exactly one.
pub proof fn law_set_attr_len(a: Seq<(Seq<char>, Seq<char>)>, key: Seq<char>, value: Seq<char>)
    ensures
        attrs_set(a, key, value).len() == a.len() + (if attr_lookup(a, key) is Some { 0int } else { 1int }),
{
    lemma_key_index(a, key);
}

/// Setting an attribute to the value it already reads changes nothing.
pub proof fn law_set_attr_same_value(a: Seq<(Seq<char>, Seq<char>)>, key: Seq<char>, value: Seq<char>)
    requires
        attr_lookup(a, key) == Some(value),
    ensures
        attrs_set(a, key, value) == a,
{
    lemma_key_index(a, key);
    let i = key_index(a, key).unwrap();
    assert(a.update(i, (key, value)) =~= a);
}

/// A list without repeated keys keeps that property when an attribute is set.
pub proof fn law_set_attr_keeps_keys_unique(a: Seq<(Seq<char>, Seq<char>)>, key: Seq<char>, value: Seq<char>)
    requires
        keys_unique(a),
    ensures
        keys_unique(attrs_set(a, key, value)),
{
    lemma_key_index(a, key);
}

} // verus!

verus! {

/// An element: kind, style, attributes and children.
pub open spec fn element_view(
    tag: NodeType,
    style: Seq<char>,
    attributes: Seq<(Seq<char>, Seq<char>)>,
    children: Seq<NodeView>,
) -> NodeView {
    NodeView { tag, children, text_content: None, style_raw: style, attributes }
}

/// A piece of text: a `Text` node that holds it.
pub open spec fn text_view(t: Seq<char>) -> NodeView {
    NodeView {
        tag: NodeType::Text,
        children: Seq::empty(),
        text_content: Some(t),
        style_raw: Seq::empty(),
        attributes: Seq::empty(),
    }
}

/// A new node of the given kind with the given style and children (the start of turning a
/// markup tag into a node; its attributes are then set one by one).
pub fn element(tag: NodeType, style: &str, children: Vec<VNode>) -> (res: VNode)
    ensures
        res@.tag == tag,
        res@.style_raw == style@,
        res@.text_content == None::<Seq<char>>,
        res@.attributes == Seq::<(Seq<char>, Seq<char>)>::empty(),
        res@.children.len() == children@.len(),
        forall|i: int| 0 <= i < children@.len() ==> #[trigger] res@.children[i] == children@[i]@,
{
    let mut node = VNode::new(tag);
    node.style_raw = crate::text::owned(style);
    node.children = children;
    proof {
        lemma_children_view(node.children@);
    }
    node
}

/// A `Text` node holding `t`.
pub fn text_node(t: &str) -> (res: VNode)
    ensures
        res@ == text_view(t@),
{
    let mut node = VNode::new(NodeType::Text);
    node.text_content = Some(crate::text::owned(t));
    node
}

} // verus!
