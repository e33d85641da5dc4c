use vstd::prelude::*;
use vstd::string::*;
use crate::css::{opt_view, spec_default_style, spec_style_to_css, default_style_for_node, style_to_css};
use crate::text::{owned, str_eq};
use crate::vnode::{NodeType, NodeView, VNode, attr_lookup, node_view, lemma_children_view};

verus! {

/// The element kind a node is shown as in a web page.
pub open spec fn spec_html_tag(t: NodeType) -> Seq<char> {
    match t {
        NodeType::Pressable => "button"@,
        NodeType::TextInput => "input"@,
        _ => "div"@,
    }
}

pub fn html_tag(t: NodeType) -> (res: &'static str)
    ensures
        res@ == spec_html_tag(t),
{
    match t {
        NodeType::Pressable => "button",
        NodeType::TextInput => "input",
        _ => "div",
    }
}

/// How a text field is set up in the page.
pub struct InputPlan {
    /// `password` for secret entries, `text` otherwise.
    pub input_type: &'static str,
    /// The initial value.
    pub value: Option<String>,
    /// The name under which the field's current value is kept.
    pub state_key: Option<String>,
    /// The handler named for changes.
    pub change_handler: Option<String>,
}

pub struct InputView {
    pub input_type: Seq<char>,
    pub value: Option<Seq<char>>,
    pub state_key: Option<Seq<char>>,
    pub change_handler: Option<Seq<char>>,
}

impl View for InputPlan {
    type V = InputView;

    open spec fn view(&self) -> InputView {
        InputView {
            input_type: self.input_type@,
            value: opt_view(self.value),
            state_key: opt_view(self.state_key),
            change_handler: opt_view(self.change_handler),
        }
    }
}

/// The page element that shows a node, in the order the page builds it: tag, inline
/// style, placeholder attribute, click action, text-field set-up, text, children.
pub struct DomPlan {
    pub tag: &'static str,
    pub style: String,
    /// Attribute name and value of the placeholder.
    pub placeholder: Option<(&'static str, String)>,
    /// The action run on a click, also kept in `data-onclick`.
    pub action: Option<String>,
    pub input: Option<InputPlan>,
    pub text: Option<String>,
    pub children: Vec<DomPlan>,
}

pub struct DomView {
    pub tag: Seq<char>,
    pub style: Seq<char>,
    pub placeholder: Option<(Seq<char>, Seq<char>)>,
    pub action: Option<Seq<char>>,
    pub input: Option<InputView>,
    pub text: Option<Seq<char>>,
    pub children: Seq<DomView>,
}

pub open spec fn placeholder_view(p: Option<(&'static str, String)>) -> Option<(Seq<char>, Seq<char>)> {
    match p {
        Some((a, v)) => Some((a@, v@)),
        None => None,
    }
}

pub open spec fn input_view(p: Option<InputPlan>) -> Option<InputView> {
    match p {
        Some(i) => Some(i@),
        None => None,
    }
}

pub open spec fn dom_view(d: DomPlan) -> DomView
    decreases d,
{
    DomView {
        tag: d.tag@,
        style: d.style@,
        placeholder: placeholder_view(d.placeholder),
        action: opt_view(d.action),
        input: input_view(d.input),
        text: opt_view(d.text),
        children: dom_children_view(d.children@),
    }
}

pub open spec fn dom_children_view(s: Seq<DomPlan>) -> Seq<DomView>
    decreases s,
{
    if s.len() == 0 {
        Seq::empty()
    } else {
        dom_children_view(s.drop_last()).push(dom_view(s.last()))
    }
}

impl View for DomPlan {
    type V = DomView;

    open spec fn view(&self) -> DomView {
        dom_view(*self)
    }
}

/// The key under which a text field's value is kept: its `testID`, else `name`, else `id`.
pub open spec fn spec_input_state_key(v: NodeView) -> Option<Seq<char>> {
    match attr_lookup(v.attributes, "testID"@) {
        Some(k) => Some(k),
        None => match attr_lookup(v.attributes, "name"@) {
            Some(k) => Some(k),
            None => attr_lookup(v.attributes, "id"@),
        },
    }
}

pub fn input_state_key(node: &VNode) -> (res: Option<String>)
    ensures
        opt_view(res) == spec_input_state_key(node@),
{
    match node.attr("testID") {
        Some(k) => Some(owned(k)),
        None => match node.attr("name") {
            Some(k) => Some(owned(k)),
            None => match node.attr("id") {
                Some(k) => Some(owned(k)),
                None => None,
            },
        },
    }
}

/// Placeholder text: a real `placeholder` on text fields, `data-placeholder` elsewhere.
pub open spec fn spec_placeholder(v: NodeView) -> Option<(Seq<char>, Seq<char>)> {
    match attr_lookup(v.attributes, "placeholder"@) {
        Some(p) => if v.tag == NodeType::TextInput {
            Some(("placeholder"@, p))
        } else {
            Some(("data-placeholder"@, p))
        },
        None => None,
    }
}

/// The click action: the `onclick` handler, else navigation to the `to` route.
pub open spec fn spec_action(v: NodeView) -> Option<Seq<char>> {
    match attr_lookup(v.attributes, "onclick"@) {
        Some(a) => Some(a),
        None => match attr_lookup(v.attributes, "to"@) {
            Some(r) => Some("navigate:"@ + r),
            None => None,
        },
    }
}

/// How a text field is set up; other nodes are no text fields.
pub open spec fn spec_input(v: NodeView) -> Option<InputView> {
    if v.tag == NodeType::TextInput {
        Some(InputView {
            input_type: if attr_lookup(v.attributes, "secureTextEntry"@) == Some("true"@) {
                "password"@
            } else {
                "text"@
            },
            value: attr_lookup(v.attributes, "value"@),
            state_key: spec_input_state_key(v),
            change_handler: attr_lookup(v.attributes, "onChangeText"@),
        })
    } else {
        None
    }
}

/// The route a stack navigator shows: `activeRoute`, else `initialRouteName`.
pub open spec fn selected_route(v: NodeView) -> Option<Seq<char>> {
    match attr_lookup(v.attributes, "activeRoute"@) {
        Some(r) => Some(r),
        None => attr_lookup(v.attributes, "initialRouteName"@),
    }
}

/// The first stack screen at or after `i` whose `name` is `route`.
pub open spec fn screen_index_from(s: Seq<NodeView>, route: Seq<char>, i: int) -> Option<int>
    decreases s.len() - i,
{
    if i < 0 || i >= s.len() {
        None
    } else if s[i].tag == NodeType::StackScreen && attr_lookup(s[i].attributes, "name"@) == Some(route) {
        Some(i)
    } else {
        screen_index_from(s, route, i + 1)
    }
}

pub proof fn lemma_screen_index_from(s: Seq<NodeView>, route: Seq<char>, i: int)
    requires
        0 <= i <= s.len(),
    ensures
        match screen_index_from(s, route, i) {
            Some(k) => i <= k < s.len() && s[k].tag == NodeType::StackScreen
                && attr_lookup(s[k].attributes, "name"@) == Some(route),
            None => true,
        },
    decreases s.len() - i,
{
    if i < s.len() && !(s[i].tag == NodeType::StackScreen && attr_lookup(s[i].attributes, "name"@) == Some(route)) {
        lemma_screen_index_from(s, route, i + 1);
    }
}

/// The nodes shown inside an element: for a stack navigator whose selected route names
/// one of its screens, that screen's children; otherwise the node's own children.
pub open spec fn shown_children(v: NodeView) -> Seq<NodeView> {
    if v.tag == NodeType::StackNavigator {
        match selected_route(v) {
            Some(r) => match screen_index_from(v.children, r, 0) {
                Some(i) => v.children[i].children,
                None => v.children,
            },
            None => v.children,
        }
    } else {
        v.children
    }
}

pub proof fn lemma_shown_children_smaller(v: NodeView)
    ensures
        decreases_to!(v => shown_children(v)),
{
    assert(decreases_to!(v => v.children));
    if v.tag == NodeType::StackNavigator {
        if let Some(r) = selected_route(v) {
            if let Some(i) = screen_index_from(v.children, r, 0) {
                lemma_screen_index_from(v.children, r, 0);
                assert(decreases_to!(v.children => v.children[i]));
                assert(decreases_to!(v.children[i] => v.children[i].children));
                assert(decreases_to!(v => v.children[i].children));
            }
        }
    }
}

/// The page element for a node.
pub open spec fn spec_dom(v: NodeView) -> DomView
    decreases v,
{
    proof {
        lemma_shown_children_smaller(v);
    }
    DomView {
        tag: spec_html_tag(v.tag),
        style: spec_default_style(v.tag) + spec_style_to_css(v.style_raw),
        placeholder: spec_placeholder(v),
        action: spec_action(v),
        input: spec_input(v),
        text: v.text_content,
        children: spec_dom_all(shown_children(v)),
    }
}

pub open spec fn spec_dom_all(s: Seq<NodeView>) -> Seq<DomView>
    decreases s,
{
    if s.len() == 0 {
        Seq::empty()
    } else {
        spec_dom_all(s.drop_last()).push(spec_dom(s.last()))
    }
}

} // verus!

verus! {

fn plan_placeholder(node: &VNode) -> (res: Option<(&'static str, String)>)
    ensures
        placeholder_view(res) == spec_placeholder(node@),
{
    match node.attr("placeholder") {
        Some(p) => if node.tag == NodeType::TextInput {
            Some(("placeholder", owned(p)))
        } else {
            Some(("data-placeholder", owned(p)))
        },
        None => None,
    }
}

fn plan_action(node: &VNode) -> (res: Option<String>)
    ensures
        opt_view(res) == spec_action(node@),
{
    match node.attr("onclick") {
        Some(a) => Some(owned(a)),
        None => match node.attr("to") {
            Some(r) => {
                let mut s = owned("navigate:");
                s.append(r);
                Some(s)
            },
            None => None,
        },
    }
}

fn plan_input(node: &VNode) -> (res: Option<InputPlan>)
    ensures
        input_view(res) == spec_input(node@),
{
    if node.tag == NodeType::TextInput {
        let secure = match node.attr("secureTextEntry") {
            Some(v) => str_eq(v, "true"),
            None => false,
        };
        let input_type = if secure { "password" } else { "text" };
        let value = match node.attr("value") {
            Some(v) => Some(owned(v)),
            None => None,
        };
        let change_handler = match node.attr("onChangeText") {
            Some(v) => Some(owned(v)),
            None => None,
        };
        let res = InputPlan { input_type, value, state_key: input_state_key(node), change_handler };
        proof {
            if attr_lookup(node@.attributes, "secureTextEntry"@) == Some("true"@) {
                assert(secure);
            }
        }
        Some(res)
    } else {
        None
    }
}

fn selected_route_of(node: &VNode) -> (res: Option<&str>)
    ensures
        match res {
            Some(r) => selected_route(node@) == Some(r@),
            None => selected_route(node@) == None::<Seq<char>>,
        },
{
    match node.attr("activeRoute") {
        Some(r) => Some(r),
        None => node.attr("initialRouteName"),
    }
}

fn find_screen(children: &Vec<VNode>, route: &str) -> (res: Option<usize>)
    ensures
        ({
            let s = crate::vnode::children_view(children@);
            match res {
                Some(i) => screen_index_from(s, route@, 0) == Some(i as int) && i < children@.len(),
                None => screen_index_from(s, route@, 0) == None::<int>,
            }
        }),
{
    let ghost s = crate::vnode::children_view(children@);
    proof {
        lemma_children_view(children@);
    }
    let n = children.len();
    let mut j: usize = 0;
    while j < n
        invariant
            n == children@.len(),
            s == crate::vnode::children_view(children@),
            s.len() == n,
            forall|k: int| 0 <= k < n ==> #[trigger] s[k] == node_view(children@[k]),
            j <= n,
            screen_index_from(s, route@, 0) == screen_index_from(s, route@, j as int),
        decreases n - j,
    {
        let c = &children[j];
        let hit = c.tag == NodeType::StackScreen && match c.attr("name") {
            Some(nm) => str_eq(nm, route),
            None => false,
        };
        if hit {
            return Some(j);
        }
        j = j + 1;
    }
    None
}

/// Works out the page element that shows `node` and, below it, the elements of the nodes
/// it shows.
pub fn plan_dom(node: &VNode) -> (res: DomPlan)
    ensures
        res@ == spec_dom(node@),
    decreases node,
{
    let ghost v = node@;
    proof {
        lemma_children_view(node.children@);
    }
    let mut style = default_style_for_node(&node.tag);
    let extra = style_to_css(node.style_raw.as_str());
    style.append(extra.as_str());
    let placeholder = plan_placeholder(node);
    let action = plan_action(node);
    let input = plan_input(node);
    let text = match &node.text_content {
        Some(t) => Some(owned(t.as_str())),
        None => None,
    };
    let mut screen: Option<usize> = None;
    if node.tag == NodeType::StackNavigator {
        if let Some(r) = selected_route_of(node) {
            screen = find_screen(&node.children, r);
        }
    }
    let shown: &Vec<VNode> = match screen {
        Some(i) => &node.children[i].children,
        None => &node.children,
    };
    proof {
        lemma_children_view(shown@);
        if let Some(i) = screen {
            lemma_children_view(node.children@[i as int].children@);
            assert(decreases_to!(node => node.children@[i as int]));
            assert(decreases_to!(node.children@[i as int] => node.children@[i as int].children@));
        }
    }
    let ghost sv = crate::vnode::children_view(shown@);
    assert(sv == shown_children(v));
    let n = shown.len();
    let mut children: Vec<DomPlan> = Vec::new();
    let mut j: usize = 0;
    while j < n
        invariant
            n == shown@.len(),
            sv == crate::vnode::children_view(shown@),
            sv.len() == n,
            forall|k: int| 0 <= k < n ==> #[trigger] sv[k] == node_view(shown@[k]),
            forall|k: int| 0 <= k < n ==> decreases_to!(node => #[trigger] shown@[k]),
            j <= n,
            dom_children_view(children@) == spec_dom_all(sv.take(j as int)),
        decreases n - j,
    {
        let c = plan_dom(&shown[j]);
        let ghost before = children@;
        children.push(c);
        proof {
            assert(children@.drop_last() =~= before);
            assert(sv.take(j + 1).drop_last() =~= sv.take(j as int));
        }
        j = j + 1;
    }
    assert(sv.take(n as int) =~= sv);
    DomPlan { tag: html_tag(node.tag), style, placeholder, action, input, text, children }
}

} // verus!

verus! {

/// A stack navigator shows only the screen its route selects: the route is `activeRoute`,
/// or `initialRouteName` when there is none, and the page element of the navigator holds
/// the elements of the children of the first stack screen of that name.
pub proof fn law_navigator_shows_selected_screen(v: NodeView, r: Seq<char>, i: int)
    requires
        v.tag == NodeType::StackNavigator,
        attr_lookup(v.attributes, "activeRoute"@) == Some(r) || (attr_lookup(v.attributes, "activeRoute"@) is None
            && attr_lookup(v.attributes, "initialRouteName"@) == Some(r)),
        screen_index_from(v.children, r, 0) == Some(i),
    ensures
        0 <= i < v.children.len(),
        v.children[i].tag == NodeType::StackScreen,
        attr_lookup(v.children[i].attributes, "name"@) == Some(r),
        spec_dom(v).children == spec_dom_all(v.children[i].children),
{
    lemma_screen_index_from(v.children, r, 0);
}

/// A stack navigator without a route, or whose route names none of its stack screens,
/// shows all of its children.
pub proof fn law_navigator_without_match_shows_all(v: NodeView)
    requires
        v.tag == NodeType::StackNavigator,
        forall|r: Seq<char>|
            (attr_lookup(v.attributes, "activeRoute"@) == Some(r) || (attr_lookup(v.attributes, "activeRoute"@) is None
                && attr_lookup(v.attributes, "initialRouteName"@) == Some(r))) ==> #[trigger] screen_index_from(
                v.children,
                r,
                0,
            ) is None,
    ensures
        spec_dom(v).children == spec_dom_all(v.children),
{
    match selected_route(v) {
        Some(r) => {
            assert(screen_index_from(v.children, r, 0) is None);
        },
        None => {},
    }
}

} // verus!
