use vstd::prelude::*;
use crate::components::bottom_nav::{build_bottom_nav, spec_bottom_nav};
use crate::navigation::Screen;
use crate::screens::{attr1, text_element, text_element_node};
use crate::styles::auth::{AUTH, CADASTRO};
use crate::vnode::{NodeType, NodeView, VNode, attrs_set, element, element_view, lemma_children_view};

verus! {

/// The sign-up screen: title, subtitle, name, e-mail and password fields, the submit
/// button, and the navigation bar with the sign-up entry active.
pub open spec fn spec_cadastro_screen() -> NodeView {
    element_view(NodeType::SafeAreaView, "flex: 1; background: #0b1220; position: relative"@, Seq::empty(), seq![
        element_view(NodeType::View, "padding: 20; justify-content: center; padding-bottom: 96"@, Seq::empty(), seq![
            text_element("font-size: 24; color: #FFFFFF"@, "Criar conta"@),
            text_element("color: #94a3b8; margin-top: 8"@, "Leva menos de 1 minuto"@),
            element_view(NodeType::TextInput, "border: 1px solid #334155; margin-top: 16; padding: 12; radius: 10; color: #e2e8f0"@,
                attrs_set(attrs_set(attr1("testID"@, "signup_name"@), "placeholder"@, "Nome completo"@),
                    "onChangeText"@, "set_signup_name"@), Seq::empty()),
            element_view(NodeType::TextInput, "border: 1px solid #334155; margin-top: 10; padding: 12; radius: 10; color: #e2e8f0"@,
                attrs_set(attrs_set(attr1("testID"@, "signup_email"@), "placeholder"@, "Seu e-mail"@),
                    "onChangeText"@, "set_signup_email"@), Seq::empty()),
            element_view(NodeType::TextInput, "border: 1px solid #334155; margin-top: 10; padding: 12; radius: 10; color: #e2e8f0"@,
                attrs_set(attrs_set(attrs_set(attr1("testID"@, "signup_password"@), "placeholder"@, "Senha"@),
                    "secureTextEntry"@, "true"@), "onChangeText"@, "set_signup_password"@), Seq::empty()),
            element_view(NodeType::Pressable, "background: #0ea5e9; border-radius: 8; margin-top: 20; padding: 12"@,
                attr1("onclick"@, "handle_signup"@), seq![text_element("color: #ffffff"@, "Criar conta"@)]),
        ]),
        spec_bottom_nav(Screen::Cadastro),
    ])
}

pub fn build_cadastro_screen() -> (res: VNode)
    ensures
        res@ == spec_cadastro_screen(),
{
    let title = text_element_node(CADASTRO.title(), "Criar conta");
    let subtitle = text_element_node(CADASTRO.subtitle(), "Leva menos de 1 minuto");
    let mut name = element(NodeType::TextInput, CADASTRO.name_input(), vec![]);
    name.set_attr("testID", "signup_name");
    name.set_attr("placeholder", "Nome completo");
    name.set_attr("onChangeText", "set_signup_name");
    let mut email = element(NodeType::TextInput, CADASTRO.email_input(), vec![]);
    email.set_attr("testID", "signup_email");
    email.set_attr("placeholder", "Seu e-mail");
    email.set_attr("onChangeText", "set_signup_email");
    let mut password = element(NodeType::TextInput, CADASTRO.password_input(), vec![]);
    password.set_attr("testID", "signup_password");
    password.set_attr("placeholder", "Senha");
    password.set_attr("secureTextEntry", "true");
    password.set_attr("onChangeText", "set_signup_password");
    let label = text_element_node(CADASTRO.submit_label(), "Criar conta");
    let ghost lv = label@;
    let mut submit = element(NodeType::Pressable, CADASTRO.submit_button(), vec![label]);
    submit.set_attr("onclick", "handle_signup");
    assert(submit@.children =~= seq![lv]);
    let ghost kids = seq![title@, subtitle@, name@, email@, password@, submit@];
    let content = element(NodeType::View, AUTH.content(), vec![title, subtitle, name, email, password, submit]);
    assert(content@.children =~= kids);
    let ghost cv = content@;
    let mut screen = element(NodeType::SafeAreaView, CADASTRO.container(), vec![content]);
    let nav = build_bottom_nav(Screen::Cadastro);
    let ghost nv = nav@;
    let ghost old_kids = screen.children@;
    proof {
        lemma_children_view(old_kids);
        assert(screen@.children[0] == cv);
        assert(crate::vnode::node_view(old_kids[0]) == cv);
    }
    screen.children.push(nav);
    assert(screen.children@ =~= old_kids.push(nav));
    proof {
        lemma_children_view(screen.children@);
    }
    assert(screen@.children =~= seq![cv, nv]);
    assert(screen@ =~~= spec_cadastro_screen());
    screen
}

} // verus!
