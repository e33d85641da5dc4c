use oxidact::tree::tree_text;
use oxidact::vnode::{NodeType, VNode};

#[test]
fn new_node_is_empty() {
    let n = VNode::new(NodeType::Pressable);
    assert_eq!(n.tag, NodeType::Pressable);
    assert!(n.children.is_empty());
    assert!(n.text_content.is_none());
    assert_eq!(n.style_raw, "");
    assert!(n.attributes.is_empty());
    assert_eq!(n.attr("anything"), None);
}

#[test]
fn default_node_is_an_empty_view() {
    let n = VNode::default();
    assert_eq!(n.tag, NodeType::View);
    assert!(n.children.is_empty());
    assert_eq!(NodeType::default(), NodeType::View);
}

#[test]
fn attr_after_set_attr_reads_the_value() {
    let mut n = VNode::new(NodeType::View);
    n.set_attr("placeholder", "Senha");
    assert_eq!(n.attr("placeholder"), Some("Senha"));
    assert_eq!(n.attr("Placeholder"), None);
}

#[test]
fn set_attr_overwrites_in_place() {
    let mut n = VNode::new(NodeType::View);
    n.set_attr("a", "1");
    n.set_attr("b", "2");
    n.set_attr("a", "3");
    assert_eq!(n.attributes.len(), 2);
    assert_eq!(n.attributes[0], ("a".to_string(), "3".to_string()));
    assert_eq!(n.attributes[1], ("b".to_string(), "2".to_string()));
    assert_eq!(n.attr("a"), Some("3"));
    assert_eq!(n.attr("b"), Some("2"));
}

#[test]
fn set_attr_leaves_other_keys() {
    let mut n = VNode::new(NodeType::Text);
    n.set_attr("x", "1");
    let before = n.attr("x").map(|s| s.to_string());
    n.set_attr("y", "2");
    assert_eq!(n.attr("x").map(|s| s.to_string()), before);
}

#[test]
fn set_attr_same_value_changes_nothing() {
    let mut n = VNode::new(NodeType::Text);
    n.set_attr("x", "1");
    n.set_attr("y", "2");
    let before = n.attributes.clone();
    n.set_attr("x", "1");
    assert_eq!(n.attributes, before);
}

#[test]
fn attr_reads_the_first_of_repeated_keys() {
    let mut n = VNode::new(NodeType::View);
    n.attributes.push(("k".to_string(), "first".to_string()));
    n.attributes.push(("k".to_string(), "second".to_string()));
    assert_eq!(n.attr("k"), Some("first"));
    n.set_attr("k", "new");
    assert_eq!(n.attributes[0].1, "new");
    assert_eq!(n.attributes[1].1, "second");
}

#[test]
fn clone_is_deep() {
    let mut child = VNode::new(NodeType::Text);
    child.text_content = Some("hi".to_string());
    let mut root = VNode::new(NodeType::View);
    root.style_raw = "a".to_string();
    root.set_attr("k", "v");
    root.children.push(child);
    let copy = root.clone();
    assert_eq!(tree_text(&copy), tree_text(&root));
    assert_eq!(copy.children[0].text_content.as_deref(), Some("hi"));
}

#[test]
fn tree_text_of_a_small_tree() {
    let mut child = VNode::new(NodeType::Text);
    child.text_content = Some("hi".to_string());
    let mut root = VNode::new(NodeType::View);
    root.style_raw = "a".to_string();
    root.set_attr("k", "v");
    root.children.push(child);
    assert_eq!(tree_text(&root), "View (style: a)\n  attr k=\"v\"\n  Text (style: )\n    text: \"hi\"");
}

#[test]
fn tree_text_of_a_single_node_has_no_line_break() {
    let n = VNode::new(NodeType::StackNavigator);
    assert_eq!(tree_text(&n), "StackNavigator (style: )");
}

#[test]
fn tree_text_keeps_spaces_inside_the_last_line() {
    let mut n = VNode::new(NodeType::TextInput);
    n.text_content = Some("  ".to_string());
    assert_eq!(tree_text(&n), "TextInput (style: )\n  text: \"  \"");
}

#[test]
fn tree_text_indents_each_level_by_two() {
    let mut leaf = VNode::new(NodeType::Text);
    leaf.style_raw = "c".to_string();
    let mut mid = VNode::new(NodeType::Pressable);
    mid.children.push(leaf);
    let mut root = VNode::new(NodeType::SafeAreaView);
    root.children.push(mid);
    root.children.push(VNode::new(NodeType::NavigationContainer));
    assert_eq!(
        tree_text(&root),
        "SafeAreaView (style: )\n  Pressable (style: )\n    Text (style: c)\n  NavigationContainer (style: )"
    );
}
