use oxidact::rsx::{build_code, generate_node, map_tag, parse_rsx, parse_rsx_judged, rsx, rsx_to_vnode, AttrValue, RsxCode, RsxError, RsxItem};
use oxidact::vnode::VNode;
use oxidact::screens::{build_cadastro_screen, build_login_screen};
use oxidact::tree::tree_text;
use oxidact::vnode::NodeType;

const LOGIN_MARKUP: &str = r##"
        <SafeAreaView style="flex: 1; background: #121212">
            <View style="padding: 20; justify-content: center">
                <Text style="font-size: 24; color: #FFFFFF">"Login"</Text>
                <Text style="color: #94a3b8; margin-top: 8">"Entre para continuar"</Text>

                <TextInput
                    placeholder="Seu e-mail"
                    style="border: 1px solid #333; margin-top: 16; padding: 12; radius: 10; color: #e2e8f0"
                />

                <TextInput
                    placeholder="Senha"
                    style="border: 1px solid #333; margin-top: 10; padding: 12; radius: 10; color: #e2e8f0"
                />

                <Pressable
                    onclick="handle_login"
                    style="background: #007AFF; border-radius: 8; margin-top: 20; padding: 12"
                >
                    <Text style="color: #ffffff">"Entrar"</Text>
                </Pressable>
            </View>
        </SafeAreaView>
"##;

const CADASTRO_MARKUP: &str = r##"
        <SafeAreaView style="flex: 1; background: #0b1220">
            <View style="padding: 20; justify-content: center">
                <Text style="font-size: 24; color: #FFFFFF">"Criar conta"</Text>
                <Text style="color: #94a3b8; margin-top: 8">"Leva menos de 1 minuto"</Text>

                <TextInput
                    placeholder="Nome completo"
                    style="border: 1px solid #334155; margin-top: 16; padding: 12; radius: 10; color: #e2e8f0"
                />

                <TextInput
                    placeholder="Seu e-mail"
                    style="border: 1px solid #334155; margin-top: 10; padding: 12; radius: 10; color: #e2e8f0"
                />

                <TextInput
                    placeholder="Senha"
                    style="border: 1px solid #334155; margin-top: 10; padding: 12; radius: 10; color: #e2e8f0"
                />

                <Pressable
                    onclick="handle_signup"
                    style="background: #0ea5e9; border-radius: 8; margin-top: 20; padding: 12"
                >
                    <Text style="color: #ffffff">"Criar conta"</Text>
                </Pressable>
            </View>
        </SafeAreaView>
"##;

fn build(src: &str) -> VNode {
    rsx_to_vnode(&parse_rsx(src).unwrap()).unwrap()
}

#[test]
fn markup_of_the_login_screen_builds_it() {
    let n = build(LOGIN_MARKUP);
    assert_eq!(tree_text(&n), tree_text(&build_login_screen()));
}

#[test]
fn markup_of_the_cadastro_screen_builds_it() {
    let n = build(CADASTRO_MARKUP);
    assert_eq!(tree_text(&n), tree_text(&build_cadastro_screen()));
}

#[test]
fn readme_example() {
    let src = r##"<SafeAreaView style="flex: 1; background: #121212">
            <View style="padding: 20; justify-content: center">
                <Text style="font-size: 24; color: #FFFFFF">"Login"</Text>
                <TextInput placeholder="Seu e-mail" style="border: 1px solid #333; margin-top: 10" />
                <Pressable onclick="handle_login" style="background: #007AFF; border-radius: 8; margin-top: 20">
                    <Text>"Entrar"</Text>
                </Pressable>
            </View>
        </SafeAreaView>"##;
    let n = build(src);
    assert_eq!(n.tag, NodeType::SafeAreaView);
    let view = &n.children[0];
    assert_eq!(view.children.len(), 3);
    assert_eq!(view.children[1].tag, NodeType::TextInput);
    assert_eq!(view.children[1].attr("placeholder"), Some("Seu e-mail"));
    assert_eq!(view.children[2].attr("onclick"), Some("handle_login"));
    assert_eq!(view.children[2].children[0].style_raw, "");
}

#[test]
fn parse_keeps_attribute_order_and_expressions() {
    let e = parse_rsx(r#"<StackScreen name="Login" style={ "flex: 1" } route={route}>{crate::screens::build()} "x"</StackScreen>"#).unwrap();
    assert_eq!(e.tag, "StackScreen");
    assert_eq!(e.attributes.len(), 3);
    assert_eq!(e.attributes[0].0, "name");
    assert!(matches!(&e.attributes[0].1, AttrValue::Literal(v) if v == "Login"));
    assert!(matches!(&e.attributes[1].1, AttrValue::Expr(v) if v == "\"flex: 1\""));
    assert!(matches!(&e.attributes[2].1, AttrValue::Expr(v) if v == "route"));
    assert_eq!(e.children.len(), 2);
    assert!(matches!(&e.children[0], RsxItem::Expr(v) if v == "crate::screens::build()"));
    assert!(matches!(&e.children[1], RsxItem::Text(v) if v == "x"));
    assert!(rsx_to_vnode(&e).is_none());
}

#[test]
fn string_escapes() {
    let n = build(r#"<Text>"a\"b\\c\nd"</Text>"#);
    assert_eq!(n.children[0].text_content.as_deref(), Some("a\"b\\c\nd"));
    assert_eq!(rsx(r#"<Text>"a\qb"</Text>"#).unwrap_err(), RsxError::Syntax);
}

#[test]
fn braces_inside_strings_do_not_count() {
    let e = parse_rsx(r#"<View a={ f("}", {1}) }/>"#).unwrap();
    assert!(matches!(&e.attributes[0].1, AttrValue::Expr(v) if v == "f(\"}\", {1})"));
}

#[test]
fn rsx_errors() {
    assert_eq!(rsx("<View></Text>").unwrap_err(), RsxError::ClosingTag);
    assert_eq!(rsx("<View style=1/>").unwrap_err(), RsxError::AttributeValue);
    assert_eq!(rsx("<View/> x").unwrap_err(), RsxError::Trailing);
    assert_eq!(rsx("<type/>").unwrap_err(), RsxError::Syntax);
    assert_eq!(rsx("<View>\"open</View>").unwrap_err(), RsxError::Syntax);
    assert_eq!(rsx("<View a={}/>").unwrap_err(), RsxError::Syntax);
    assert_eq!(rsx("View").unwrap_err(), RsxError::Syntax);
    assert_eq!(RsxError::ClosingTag.message(), "tag de fechamento diferente da tag de abertura");
    assert_eq!(RsxError::AttributeValue.message(), "atributo RSX deve ser string literal ou expressao entre chaves");
}

#[test]
fn style_and_repeated_attributes() {
    let n = build(r#"<Pressable style="a" to="x" style="b" to="y" />"#);
    assert_eq!(n.style_raw, "a");
    assert_eq!(n.attributes, vec![("to".to_string(), "y".to_string())]);
    let m = build(r#"  <  View  /  >  "#);
    assert_eq!(m.tag, NodeType::View);
}

#[test]
fn tags() {
    assert_eq!(map_tag("Text"), NodeType::Text);
    assert_eq!(map_tag("TextInput"), NodeType::TextInput);
    assert_eq!(map_tag("StackScreen"), NodeType::StackScreen);
    assert_eq!(map_tag("Image"), NodeType::View);
    assert_eq!(map_tag("text"), NodeType::View);
}

fn text_of(src: &str) -> String {
    build(src).children[0].text_content.clone().unwrap()
}

#[test]
fn rsx_expands_expressions_into_code() {
    let code = rsx(r#"<StackScreen to="a" style={s} name={n} style="x" to="b">{child()} "t" <Text/></StackScreen>"#).unwrap();
    match code {
        RsxCode::Node { kind, style, attrs, children } => {
            assert_eq!(kind, NodeType::StackScreen);
            assert!(matches!(style, Some(AttrValue::Expr(v)) if v == "s"));
            assert_eq!(attrs.len(), 3);
            assert_eq!(attrs[0].0, "to");
            assert!(matches!(&attrs[0].1, AttrValue::Literal(v) if v == "a"));
            assert_eq!(attrs[1].0, "name");
            assert!(matches!(&attrs[1].1, AttrValue::Expr(v) if v == "n"));
            assert!(matches!(&attrs[2].1, AttrValue::Literal(v) if v == "b"));
            assert_eq!(children.len(), 3);
            assert!(matches!(&children[0], RsxCode::Expr(v) if v == "child()"));
            assert!(matches!(&children[1], RsxCode::Text(v) if v == "t"));
            assert!(matches!(&children[2], RsxCode::Node { kind: NodeType::Text, style: None, .. }));
        }
        _ => panic!("expected a node"),
    }
}

#[test]
fn generate_node_of_items() {
    assert!(matches!(generate_node(&RsxItem::Text("a".to_string())), RsxCode::Text(v) if v == "a"));
    assert!(matches!(generate_node(&RsxItem::Expr("x + 1".to_string())), RsxCode::Expr(v) if v == "x + 1"));
    let e = parse_rsx("<Image/>").unwrap();
    assert!(matches!(generate_node(&RsxItem::Element(e)), RsxCode::Node { kind: NodeType::View, style: None, .. }));
}

#[test]
fn comments_are_whitespace() {
    let n = build("<View // a line comment\n style=\"s\" /* a /* nested */ block */ >\n // ok\n <Text/> </View>");
    assert_eq!(n.style_raw, "s");
    assert_eq!(n.children.len(), 1);
    let m = build("<View /**/ a=\"1\" /***/ //// four slashes\n/>");
    assert_eq!(m.attr("a"), Some("1"));
}

#[test]
fn doc_comments_are_refused() {
    assert!(rsx("<View /// doc\n/>").is_err());
    assert!(rsx("<View //! doc\n/>").is_err());
    assert!(rsx("<View /** doc */ />").is_err());
    assert!(rsx("<View /*! doc */ />").is_err());
    assert!(rsx("<View /* open />").is_err());
}

#[test]
fn string_literal_forms() {
    assert_eq!(text_of(r#"<Text>"\x41\u{1F600}\u{4_1}"</Text>"#), "A\u{1F600}A");
    assert_eq!(text_of("<Text>\"a\\\n    b\"</Text>"), "ab");
    assert_eq!(text_of(r###"<Text>r#"say "hi" \n"#</Text>"###), "say \"hi\" \\n");
    assert_eq!(text_of(r#"<Text>r"plain"</Text>"#), "plain");
    assert_eq!(text_of(r#"<Text>"suffixed"sfx</Text>"#), "suffixed");
    assert_eq!(rsx(r#"<Text>"\x80"</Text>"#).unwrap_err(), RsxError::Syntax);
    assert_eq!(rsx(r#"<Text>"\u{D800}"</Text>"#).unwrap_err(), RsxError::Syntax);
    assert_eq!(rsx(r#"<Text>"\u{}"</Text>"#).unwrap_err(), RsxError::Syntax);
    assert_eq!(rsx(r#"<Text>"\u{1234567}"</Text>"#).unwrap_err(), RsxError::Syntax);
    assert_eq!(rsx("<Text>\"a\rb\"</Text>").unwrap_err(), RsxError::Syntax);
    assert_eq!(rsx(r##"<Text>r#"open"</Text>"##).unwrap_err(), RsxError::Syntax);
}

#[test]
fn identifier_forms() {
    let e = parse_rsx(r#"<r#type r#match="x" café="y" _a="z"></r#type>"#).unwrap();
    assert_eq!(e.tag, "r#type");
    assert_eq!(e.attributes[0].0, "r#match");
    assert_eq!(e.attributes[1].0, "café");
    assert_eq!(e.attributes[2].0, "_a");
    assert_eq!(map_tag(&e.tag), NodeType::View);
    assert_eq!(rsx("<r#type></type>").unwrap_err(), RsxError::Syntax);
    assert_eq!(rsx("<r#Text></Text>").unwrap_err(), RsxError::ClosingTag);
    assert_eq!(rsx("<r#self/>").unwrap_err(), RsxError::Syntax);
    assert_eq!(rsx("<_/>").unwrap_err(), RsxError::Syntax);
    assert_eq!(rsx("<1a/>").unwrap_err(), RsxError::Syntax);
}

#[test]
fn expressions_skip_literals_and_comments() {
    let e = parse_rsx(r##"<View a={ f('{', '\u{7D}', b'}', 'x: loop { break 'x; }) } b={ r#"}"# } c={ g(/* } */ 1) // }
    } d={ x as &'static str }/>"##).unwrap();
    assert!(matches!(&e.attributes[0].1, AttrValue::Expr(v) if v == r"f('{', '\u{7D}', b'}', 'x: loop { break 'x; })"));
    assert!(matches!(&e.attributes[1].1, AttrValue::Expr(v) if v == r##"r#"}"#"##));
    assert!(matches!(&e.attributes[2].1, AttrValue::Expr(v) if v == "g(/* } */ 1) // }"));
    assert!(matches!(&e.attributes[3].1, AttrValue::Expr(v) if v == "x as &'static str"));
    assert_eq!(rsx("<View a={ (1] }/>").unwrap_err(), RsxError::Syntax);
    assert_eq!(rsx("<View a={ /* only */ }/>").unwrap_err(), RsxError::Syntax);
    assert_eq!(rsx("<View a={ [1, 2 }/>").unwrap_err(), RsxError::Syntax);
}

#[test]
fn braced_parts_must_be_expressions() {
    assert_eq!(rsx("<View a={ a b }/>").unwrap_err(), RsxError::Expression);
    assert_eq!(rsx("<View>{ let x = 1; }</View>").unwrap_err(), RsxError::Expression);
    assert_eq!(rsx("<View a={ &'static str }/>").unwrap_err(), RsxError::Expression);
    assert!(rsx("<View a={ if c { 1 } else { 2 } } b={ |x| x + 1 } c={ S { f: 1 } }/>").is_ok());
    assert_eq!(RsxError::Expression.message(), "expressao Rust invalida entre chaves");
}

#[test]
fn judged_parse_takes_the_given_verdicts() {
    let yes = vec![("a b".to_string(), true)];
    let e = parse_rsx_judged("<View a={ a b }/>", &yes).unwrap();
    assert!(matches!(&e.attributes[0].1, AttrValue::Expr(v) if v == "a b"));
    let no = vec![("a b".to_string(), false), ("a b".to_string(), true)];
    assert_eq!(parse_rsx_judged("<View a={ a b }/>", &no).unwrap_err(), RsxError::Expression);
    assert_eq!(parse_rsx_judged("<View a={ x }/>", &vec![]).unwrap_err(), RsxError::Expression);
    assert!(parse_rsx_judged("<View a=\"x\"/>", &vec![]).is_ok());
}

#[test]
fn build_code_takes_expression_values() {
    let code = rsx(r#"<Pressable onclick={action} style={s} label="x">{child}"t"</Pressable>"#).unwrap();
    let values = vec![("action".to_string(), "go".to_string()), ("s".to_string(), "color: red".to_string())];
    let child = VNode::new(NodeType::View);
    let nodes = vec![("child".to_string(), child)];
    let n = build_code(&code, &values, &nodes).unwrap();
    assert_eq!(n.tag, NodeType::Pressable);
    assert_eq!(n.style_raw, "color: red");
    assert_eq!(n.attr("onclick"), Some("go"));
    assert_eq!(n.attr("label"), Some("x"));
    assert_eq!(n.children.len(), 2);
    assert_eq!(n.children[0].tag, NodeType::View);
    assert_eq!(n.children[1].text_content.as_deref(), Some("t"));
    assert!(build_code(&code, &vec![], &nodes).is_none());
    assert!(build_code(&code, &values, &vec![]).is_none());
}

#[test]
fn build_code_of_literal_markup_matches_the_tree() {
    let code = rsx(LOGIN_MARKUP).unwrap();
    let n = build_code(&code, &vec![], &vec![]).unwrap();
    assert_eq!(tree_text(&n), tree_text(&build_login_screen()));
    let values = vec![("style".to_string(), "ignored".to_string())];
    let nodes = vec![("x".to_string(), VNode::new(NodeType::Text))];
    let m = build_code(&code, &values, &nodes).unwrap();
    assert_eq!(tree_text(&m), tree_text(&build(LOGIN_MARKUP)));
}
