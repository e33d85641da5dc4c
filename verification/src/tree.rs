use vstd::prelude::*;
use vstd::string::*;
use crate::text::{spaces, trim_end, push_spaces, str_trim_end};
use crate::vnode::{NodeType, NodeView, VNode, node_view, children_view, attrs_view, lemma_children_view};

verus! {

/// The name under which a node kind is printed (its variant name).
pub open spec fn node_type_name(t: NodeType) -> Seq<char> {
    match t {
        NodeType::View => "View"@,
        NodeType::Text => "Text"@,
        NodeType::TextInput => "TextInput"@,
        NodeType::Pressable => "Pressable"@,
        NodeType::SafeAreaView => "SafeAreaView"@,
        NodeType::NavigationContainer => "NavigationContainer"@,
        NodeType::StackNavigator => "StackNavigator"@,
        NodeType::StackScreen => "StackScreen"@,
    }
}

pub fn kind_name(t: NodeType) -> (res: &'static str)
    ensures
        res@ == node_type_name(t),
{
    match t {
        NodeType::View => "View",
        NodeType::Text => "Text",
        NodeType::TextInput => "TextInput",
        NodeType::Pressable => "Pressable",
        NodeType::SafeAreaView => "SafeAreaView",
        NodeType::NavigationContainer => "NavigationContainer",
        NodeType::StackNavigator => "StackNavigator",
        NodeType::StackScreen => "StackScreen",
    }
}

/// One `attr key="value"` line per attribute, in order.
pub open spec fn attr_lines(a: Seq<(Seq<char>, Seq<char>)>, pad: Seq<char>) -> Seq<char>
    decreases a.len(),
{
    if a.len() == 0 {
        Seq::empty()
    } else {
        attr_lines(a.drop_last(), pad) + pad + "  attr "@ + a.last().0 + "=\""@ + a.last().1 + "\"\n"@
    }
}

/// The `text: "..."` line of a node that has text.
pub open spec fn text_line(t: Option<Seq<char>>, pad: Seq<char>) -> Seq<char> {
    match t {
        Some(t) => pad + "  text: \""@ + t + "\"\n"@,
        None => Seq::empty(),
    }
}

/// The outline of a node indented by `indent` spaces: its own line, its attributes,
/// its text, then each child indented two spaces further.
pub open spec fn render(v: NodeView, indent: nat) -> Seq<char>
    decreases v,
{
    spaces(indent) + node_type_name(v.tag) + " (style: "@ + v.style_raw + ")\n"@
        + attr_lines(v.attributes, spaces(indent)) + text_line(v.text_content, spaces(indent))
        + render_all(v.children, indent + 2)
}

pub open spec fn render_all(s: Seq<NodeView>, indent: nat) -> Seq<char>
    decreases s,
{
    if s.len() == 0 {
        Seq::empty()
    } else {
        render_all(s.drop_last(), indent) + render(s.last(), indent)
    }
}

/// The number of levels of a tree (a leaf has depth one).
pub open spec fn depth(v: NodeView) -> nat
    decreases v,
{
    1 + depth_all(v.children)
}

pub open spec fn depth_all(s: Seq<NodeView>) -> nat
    decreases s,
{
    if s.len() == 0 {
        0
    } else {
        let a = depth_all(s.drop_last());
        let b = depth(s.last());
        if a >= b { a } else { b }
    }
}

pub proof fn lemma_depth_all(s: Seq<NodeView>, i: int)
    requires
        0 <= i < s.len(),
    ensures
        depth(s[i]) <= depth_all(s),
    decreases s.len(),
{
    if i < s.len() - 1 {
        lemma_depth_all(s.drop_last(), i);
    }
}

/// The outline of a whole tree, without the line break that ends it.
pub open spec fn spec_tree_text(root: NodeView) -> Seq<char> {
    trim_end(render(root, 0))
}

fn format_node(node: &VNode, indent: usize, out: &mut String)
    requires
        indent + 2 * depth(node@) <= usize::MAX,
    ensures
        final(out)@ == old(out)@ + render(node@, indent as nat),
    decreases node,
{
    let ghost v = node@;
    proof {
        lemma_children_view(node.children@);
    }
    push_spaces(out, indent);
    out.append(kind_name(node.tag));
    out.append(" (style: ");
    out.append(node.style_raw.as_str());
    out.append(")\n");
    let ghost head = out@;
    let n = node.attributes.len();
    let mut i: usize = 0;
    while i < n
        invariant
            n == node.attributes@.len(),
            i <= n,
            out@ == head + attr_lines(attrs_view(node.attributes@).take(i as int), spaces(indent as nat)),
        decreases n - i,
    {
        let ghost before = out@;
        push_spaces(out, indent);
        out.append("  attr ");
        out.append(node.attributes[i].0.as_str());
        out.append("=\"");
        out.append(node.attributes[i].1.as_str());
        out.append("\"\n");
        proof {
            let a = attrs_view(node.attributes@);
            assert(a.take(i + 1).drop_last() =~= a.take(i as int));
            assert(out@ =~= head + attr_lines(a.take(i + 1), spaces(indent as nat)));
        }
        i = i + 1;
    }
    proof {
        assert(attrs_view(node.attributes@).take(n as int) =~= attrs_view(node.attributes@));
    }
    if let Some(text) = &node.text_content {
        push_spaces(out, indent);
        out.append("  text: \"");
        out.append(text.as_str());
        out.append("\"\n");
    }
    let ghost mid = out@;
    assert(mid == old(out)@ + spaces(indent as nat) + node_type_name(v.tag) + " (style: "@ + v.style_raw + ")\n"@
        + attr_lines(v.attributes, spaces(indent as nat)) + text_line(v.text_content, spaces(indent as nat)));
    let m = node.children.len();
    let mut j: usize = 0;
    while j < m
        invariant
            m == node.children@.len(),
            v == node@,
            j <= m,
            indent + 2 * depth(v) <= usize::MAX,
            children_view(node.children@).len() == m,
            forall|k: int| 0 <= k < m ==> #[trigger] children_view(node.children@)[k] == node_view(node.children@[k]),
            out@ == mid + render_all(v.children.take(j as int), (indent + 2) as nat),
        decreases m - j,
    {
        proof {
            lemma_depth_all(v.children, j as int);
            assert(decreases_to!(node => node.children@[j as int]));
        }
        format_node(&node.children[j], indent + 2, out);
        proof {
            assert(v.children.take(j + 1).drop_last() =~= v.children.take(j as int));
            assert(out@ =~= mid + render_all(v.children.take(j + 1), (indent + 2) as nat));
        }
        j = j + 1;
    }
    proof {
        assert(v.children.take(m as int) =~= v.children);
    }
}

/// The indented outline of a tree: one line per node (kind and style), one per attribute,
/// one for the text, children two spaces deeper; trailing whitespace removed.
pub fn tree_text(root: &VNode) -> (res: String)
    requires
        2 * depth(root@) <= usize::MAX,
    ensures
        res@ == spec_tree_text(root@),
{
    let mut out = String::new();
    format_node(root, 0, &mut out);
    assert(out@ =~= render(root@, 0));
    owned_trimmed(out.as_str())
}

fn owned_trimmed(s: &str) -> (res: String)
    ensures
        res@ == trim_end(s@),
{
    crate::text::owned(str_trim_end(s))
}

} // verus!

verus! {

pub open spec fn capped(n: nat) -> nat {
    if n <= usize::MAX { n } else { usize::MAX as nat }
}

/// The depth of a tree (a leaf has depth one), or `usize::MAX` for a deeper one: what a
/// caller of `tree_text` checks against `usize::MAX / 2`.
pub fn tree_depth(node: &VNode) -> (res: usize)
    ensures
        res as nat == capped(depth(node@)),
    decreases node,
{
    let ghost v = node@;
    proof {
        lemma_children_view(node.children@);
    }
    let n = node.children.len();
    let mut d: usize = 0;
    let mut j: usize = 0;
    while j < n
        invariant
            n == node.children@.len(),
            v == node@,
            children_view(node.children@).len() == n,
            forall|k: int| 0 <= k < n ==> #[trigger] children_view(node.children@)[k] == node_view(node.children@[k]),
            j <= n,
            d as nat == capped(depth_all(v.children.take(j as int))),
        decreases n - j,
    {
        proof {
            assert(decreases_to!(node => node.children@[j as int]));
        }
        let c = tree_depth(&node.children[j]);
        if c > d {
            d = c;
        }
        assert(v.children.take(j + 1).drop_last() =~= v.children.take(j as int));
        j = j + 1;
    }
    assert(v.children.take(n as int) =~= v.children);
    if d == usize::MAX {
        usize::MAX
    } else {
        d + 1
    }
}

} // verus!

verus! {

/// `r` ends with a line break preceded by a character that is no whitespace.
pub open spec fn ends_with_closed_line(r: Seq<char>) -> bool {
    r.len() >= 2 && r.last() == '\n' && !crate::text::is_ws(r[r.len() - 2])
}

proof fn lemma_closed_line_append(a: Seq<char>, b: Seq<char>)
    requires
        ends_with_closed_line(b),
    ensures
        ends_with_closed_line(a + b),
{
    assert((a + b).last() == b.last());
    assert((a + b)[(a + b).len() - 2] == b[b.len() - 2]);
}

proof fn lemma_attr_lines_closed(a: Seq<(Seq<char>, Seq<char>)>, pad: Seq<char>)
    requires
        a.len() > 0,
    ensures
        ends_with_closed_line(attr_lines(a, pad)),
{
    reveal_strlit("\"\n");
    let x = attr_lines(a.drop_last(), pad) + pad + "  attr "@ + a.last().0 + "=\""@ + a.last().1;
    lemma_closed_line_append(x, "\"\n"@);
}

proof fn lemma_render_closed(v: NodeView, indent: nat)
    ensures
        ends_with_closed_line(render(v, indent)),
    decreases v,
{
    reveal_strlit(")\n");
    reveal_strlit("\"\n");
    let pad = spaces(indent);
    let head = pad + node_type_name(v.tag) + " (style: "@ + v.style_raw;
    let a = head + ")\n"@;
    let b = a + attr_lines(v.attributes, pad);
    let c = b + text_line(v.text_content, pad);
    lemma_closed_line_append(head, ")\n"@);
    if v.attributes.len() > 0 {
        lemma_attr_lines_closed(v.attributes, pad);
        lemma_closed_line_append(a, attr_lines(v.attributes, pad));
    } else {
        assert(b =~= a);
    }
    match v.text_content {
        Some(t) => {
            let x = pad + "  text: \""@ + t;
            lemma_closed_line_append(x, "\"\n"@);
            lemma_closed_line_append(b, text_line(v.text_content, pad));
        },
        None => {
            assert(c =~= b);
        },
    }
    if v.children.len() > 0 {
        lemma_render_all_closed(v.children, indent + 2);
        lemma_closed_line_append(c, render_all(v.children, indent + 2));
    } else {
        assert(render(v, indent) =~= c);
    }
}

proof fn lemma_render_all_closed(s: Seq<NodeView>, indent: nat)
    requires
        s.len() > 0,
    ensures
        ends_with_closed_line(render_all(s, indent)),
    decreases s,
{
    lemma_render_closed(s.last(), indent);
    lemma_closed_line_append(render_all(s.drop_last(), indent), render(s.last(), indent));
}

/// The outline ends with its last line's line break, and trimming removes exactly that
/// line break.
pub proof fn law_tree_text_drops_final_line_break(root: NodeView)
    ensures
        spec_tree_text(root) == render(root, 0).drop_last(),
{
    let r = render(root, 0);
    lemma_render_closed(root, 0);
    reveal_with_fuel(trim_end, 2);
    assert(r.drop_last().last() == r[r.len() - 2]);
}

} // verus!

verus! {

/// No line break in the text.
pub open spec fn one_line(x: Seq<char>) -> bool {
    forall|k: int| 0 <= k < x.len() ==> x[k] != '\n'
}

/// No key or value of the attributes holds a line break.
pub open spec fn attrs_one_line(a: Seq<(Seq<char>, Seq<char>)>) -> bool {
    forall|k: int| 0 <= k < a.len() ==> one_line(#[trigger] a[k].0) && one_line(a[k].1)
}

spec fn attr_line(pad: Seq<char>, x: (Seq<char>, Seq<char>)) -> Seq<char> {
    pad + "  attr "@ + x.0 + "=\""@ + x.1 + "\""@
}

proof fn lemma_attr_line_one_line(pad: Seq<char>, x: (Seq<char>, Seq<char>))
    requires
        one_line(pad),
        one_line(x.0),
        one_line(x.1),
    ensures
        one_line(attr_line(pad, x)),
{
    reveal_strlit("  attr ");
    reveal_strlit("=\"");
    reveal_strlit("\"");
    let l = attr_line(pad, x);
    assert forall|k: int| 0 <= k < l.len() implies l[k] != '\n' by {
        let p1 = pad + "  attr "@;
        let p2 = p1 + x.0;
        let p3 = p2 + "=\""@;
        let p4 = p3 + x.1;
        assert(l == p4 + "\""@);
        if k < pad.len() {
            assert(l[k] == pad[k]);
        } else if k < p1.len() {
            assert(l[k] == "  attr "@[k - pad.len()]);
        } else if k < p2.len() {
            assert(l[k] == x.0[k - p1.len()]);
        } else if k < p3.len() {
            assert(l[k] == "=\""@[k - p2.len()]);
        } else if k < p4.len() {
            assert(l[k] == x.1[k - p3.len()]);
        } else {
            assert(l[k] == "\""@[k - p4.len()]);
        }
    }
}

proof fn lemma_split_attr_lines(a: Seq<(Seq<char>, Seq<char>)>, pad: Seq<char>, y: Seq<char>)
    requires
        one_line(pad),
        attrs_one_line(a),
    ensures
        crate::text::split(attr_lines(a, pad) + y, '\n') == Seq::new(a.len(), |k: int| attr_line(pad, a[k]))
            + crate::text::split(y, '\n'),
    decreases a.len(),
{
    reveal_strlit("\"\n");
    reveal_strlit("\"");
    if a.len() == 0 {
        assert(attr_lines(a, pad) + y =~= y);
        assert(Seq::new(a.len(), |k: int| attr_line(pad, a[k])) + crate::text::split(y, '\n') =~= crate::text::split(
            y,
            '\n',
        ));
    } else {
        let a0 = a.drop_last();
        let x = a.last();
        assert(attrs_one_line(a0)) by {
            assert forall|k: int| 0 <= k < a0.len() implies one_line(#[trigger] a0[k].0) && one_line(a0[k].1) by {
                assert(a0[k] == a[k]);
            }
        }
        assert(one_line(x.0) && one_line(x.1)) by {
            assert(x == a[a.len() - 1]);
        }
        let l = attr_line(pad, x);
        lemma_attr_line_one_line(pad, x);
        let y2 = l + seq!['\n'] + y;
        lemma_split_attr_lines(a0, pad, y2);
        assert(attr_lines(a, pad) + y =~= attr_lines(a0, pad) + y2);
        crate::text::lemma_split_join(l, y, '\n');
        crate::text::lemma_split_no_sep(l, '\n');
        assert(Seq::new(a.len(), |k: int| attr_line(pad, a[k])) =~= Seq::new(a0.len(), |k: int| attr_line(pad, a0[k])).push(l));
        assert(crate::text::split(attr_lines(a, pad) + y, '\n') =~= Seq::new(a.len(), |k: int| attr_line(pad, a[k]))
            + crate::text::split(y, '\n'));
    }
}

/// The outline of a node starts with the node's own line, indented by `indent` spaces,
/// and goes on with one line per attribute, in order, each indented two spaces further:
/// `attr key="value"`.
pub proof fn law_outline_lines_are_indented(v: NodeView, indent: nat)
    requires
        one_line(v.style_raw),
        attrs_one_line(v.attributes),
    ensures
        crate::text::split(render(v, indent), '\n')[0] == spaces(indent) + node_type_name(v.tag) + " (style: "@
            + v.style_raw + ")"@,
        forall|k: int|
            0 <= k < v.attributes.len() ==> crate::text::split(render(v, indent), '\n')[k + 1] == spaces(indent + 2)
                + "attr "@ + (#[trigger] v.attributes[k]).0 + "=\""@ + v.attributes[k].1 + "\""@,
{
    reveal_strlit(")\n");
    reveal_strlit(")");
    reveal_strlit(" (style: ");
    reveal_strlit("  attr ");
    reveal_strlit("attr ");
    reveal_strlit("View");
    reveal_strlit("Text");
    reveal_strlit("TextInput");
    reveal_strlit("Pressable");
    reveal_strlit("SafeAreaView");
    reveal_strlit("NavigationContainer");
    reveal_strlit("StackNavigator");
    reveal_strlit("StackScreen");
    let pad = spaces(indent);
    let name = node_type_name(v.tag);
    let h = pad + name + " (style: "@ + v.style_raw + ")"@;
    let tail = text_line(v.text_content, pad) + render_all(v.children, indent + 2);
    let a = v.attributes;
    assert(render(v, indent) =~= h + seq!['\n'] + (attr_lines(a, pad) + tail));
    assert(one_line(h)) by {
        assert forall|k: int| 0 <= k < h.len() implies h[k] != '\n' by {
            let p1 = pad + name;
            let p2 = p1 + " (style: "@;
            let p3 = p2 + v.style_raw;
            if k < pad.len() {
                assert(h[k] == pad[k]);
            } else if k < p1.len() {
                assert(h[k] == name[k - pad.len()]);
            } else if k < p2.len() {
                assert(h[k] == " (style: "@[k - p1.len()]);
            } else if k < p3.len() {
                assert(h[k] == v.style_raw[k - p2.len()]);
            } else {
                assert(h[k] == ")"@[k - p3.len()]);
            }
        }
    }
    assert(one_line(pad));
    crate::text::lemma_split_join(h, attr_lines(a, pad) + tail, '\n');
    crate::text::lemma_split_no_sep(h, '\n');
    lemma_split_attr_lines(a, pad, tail);
    crate::text::lemma_split_nonempty(tail, '\n');
    let lines = Seq::new(a.len(), |k: int| attr_line(pad, a[k]));
    let all = crate::text::split(render(v, indent), '\n');
    assert(all =~= seq![h] + lines + crate::text::split(tail, '\n'));
    assert forall|k: int| 0 <= k < a.len() implies all[k + 1] == spaces(indent + 2) + "attr "@ + (#[trigger] a[k]).0
        + "=\""@ + a[k].1 + "\""@ by {
        assert(all[k + 1] == lines[k]);
        assert(pad + "  attr "@ =~= spaces(indent + 2) + "attr "@);
        assert(lines[k] == attr_line(pad, a[k]));
        assert(attr_line(pad, a[k]) =~= spaces(indent + 2) + "attr "@ + a[k].0 + "=\""@ + a[k].1 + "\""@);
    }
}

} // verus!
