use vstd::prelude::*;
use crate::vnode::{NodeType, NodeView, VNode, attrs_set, element, element_view, text_node, text_view};

pub mod cadastro;
pub mod login;
pub mod perfil;

verus! {

/// An element that holds one piece of text.
pub open spec fn text_element(style: Seq<char>, text: Seq<char>) -> NodeView {
    element_view(NodeType::Text, style, Seq::empty(), seq![text_view(text)])
}

pub fn text_element_node(style: &str, text: &str) -> (res: VNode)
    ensures
        res@ == text_element(style@, text@),
{
    let t = text_node(text);
    let r = element(NodeType::Text, style, vec![t]);
    assert(r@.children =~= seq![text_view(text@)]);
    assert(r@ =~= text_element(style@, text@));
    r
}

/// One attribute.
pub open spec fn attr1(k: Seq<char>, v: Seq<char>) -> Seq<(Seq<char>, Seq<char>)> {
    attrs_set(Seq::empty(), k, v)
}

/// The login screen without navigation bar.
pub open spec fn spec_login_screen() -> NodeView {
    element_view(NodeType::SafeAreaView, "flex: 1; background: #121212"@, Seq::empty(), seq![
        element_view(NodeType::View, "padding: 20; justify-content: center"@, Seq::empty(), seq![
            text_element("font-size: 24; color: #FFFFFF"@, "Login"@),
            text_element("color: #94a3b8; margin-top: 8"@, "Entre para continuar"@),
            element_view(NodeType::TextInput, "border: 1px solid #333; margin-top: 16; padding: 12; radius: 10; color: #e2e8f0"@,
                attr1("placeholder"@, "Seu e-mail"@), Seq::empty()),
            element_view(NodeType::TextInput, "border: 1px solid #333; margin-top: 10; padding: 12; radius: 10; color: #e2e8f0"@,
                attr1("placeholder"@, "Senha"@), Seq::empty()),
            element_view(NodeType::Pressable, "background: #007AFF; border-radius: 8; margin-top: 20; padding: 12"@,
                attr1("onclick"@, "handle_login"@), seq![text_element("color: #ffffff"@, "Entrar"@)]),
        ]),
    ])
}

pub fn build_login_screen() -> (res: VNode)
    ensures
        res@ == spec_login_screen(),
{
    let title = text_element_node("font-size: 24; color: #FFFFFF", "Login");
    let subtitle = text_element_node("color: #94a3b8; margin-top: 8", "Entre para continuar");
    let mut email = element(NodeType::TextInput, "border: 1px solid #333; margin-top: 16; padding: 12; radius: 10; color: #e2e8f0", vec![]);
    email.set_attr("placeholder", "Seu e-mail");
    let mut password = element(NodeType::TextInput, "border: 1px solid #333; margin-top: 10; padding: 12; radius: 10; color: #e2e8f0", vec![]);
    password.set_attr("placeholder", "Senha");
    let label = text_element_node("color: #ffffff", "Entrar");
    let mut submit = element(NodeType::Pressable, "background: #007AFF; border-radius: 8; margin-top: 20; padding: 12", vec![label]);
    submit.set_attr("onclick", "handle_login");
    let ghost kids = seq![title@, subtitle@, email@, password@, submit@];
    assert(submit@.children =~= seq![text_element("color: #ffffff"@, "Entrar"@)]);
    let content = element(NodeType::View, "padding: 20; justify-content: center", vec![title, subtitle, email, password, submit]);
    assert(content@.children =~= kids);
    let ghost cv = content@;
    let res = element(NodeType::SafeAreaView, "flex: 1; background: #121212", vec![content]);
    assert(res@.children =~= seq![cv]);
    assert(res@ =~~= spec_login_screen());
    res
}

} // verus!

verus! {

/// The sign-up screen without navigation bar.
pub open spec fn spec_cadastro_screen() -> NodeView {
    element_view(NodeType::SafeAreaView, "flex: 1; background: #0b1220"@, Seq::empty(), seq![
        element_view(NodeType::View, "padding: 20; justify-content: center"@, Seq::empty(), seq![
            text_element("font-size: 24; color: #FFFFFF"@, "Criar conta"@),
            text_element("color: #94a3b8; margin-top: 8"@, "Leva menos de 1 minuto"@),
            element_view(NodeType::TextInput, "border: 1px solid #334155; margin-top: 16; padding: 12; radius: 10; color: #e2e8f0"@,
                attr1("placeholder"@, "Nome completo"@), Seq::empty()),
            element_view(NodeType::TextInput, "border: 1px solid #334155; margin-top: 10; padding: 12; radius: 10; color: #e2e8f0"@,
                attr1("placeholder"@, "Seu e-mail"@), Seq::empty()),
            element_view(NodeType::TextInput, "border: 1px solid #334155; margin-top: 10; padding: 12; radius: 10; color: #e2e8f0"@,
                attr1("placeholder"@, "Senha"@), Seq::empty()),
            element_view(NodeType::Pressable, "background: #0ea5e9; border-radius: 8; margin-top: 20; padding: 12"@,
                attr1("onclick"@, "handle_signup"@), seq![text_element("color: #ffffff"@, "Criar conta"@)]),
        ]),
    ])
}

pub fn build_cadastro_screen() -> (res: VNode)
    ensures
        res@ == spec_cadastro_screen(),
{
    let title = text_element_node("font-size: 24; color: #FFFFFF", "Criar conta");
    let subtitle = text_element_node("color: #94a3b8; margin-top: 8", "Leva menos de 1 minuto");
    let mut name = element(NodeType::TextInput, "border: 1px solid #334155; margin-top: 16; padding: 12; radius: 10; color: #e2e8f0", vec![]);
    name.set_attr("placeholder", "Nome completo");
    let mut email = element(NodeType::TextInput, "border: 1px solid #334155; margin-top: 10; padding: 12; radius: 10; color: #e2e8f0", vec![]);
    email.set_attr("placeholder", "Seu e-mail");
    let mut password = element(NodeType::TextInput, "border: 1px solid #334155; margin-top: 10; padding: 12; radius: 10; color: #e2e8f0", vec![]);
    password.set_attr("placeholder", "Senha");
    let label = text_element_node("color: #ffffff", "Criar conta");
    let ghost lv = label@;
    let mut submit = element(NodeType::Pressable, "background: #0ea5e9; border-radius: 8; margin-top: 20; padding: 12", vec![label]);
    submit.set_attr("onclick", "handle_signup");
    assert(submit@.children =~= seq![lv]);
    let ghost kids = seq![title@, subtitle@, name@, email@, password@, submit@];
    let content = element(NodeType::View, "padding: 20; justify-content: center", vec![title, subtitle, name, email, password, submit]);
    assert(content@.children =~= kids);
    let ghost cv = content@;
    let res = element(NodeType::SafeAreaView, "flex: 1; background: #0b1220", vec![content]);
    assert(res@.children =~= seq![cv]);
    assert(res@ =~~= spec_cadastro_screen());
    res
}

} // verus!
