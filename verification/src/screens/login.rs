use vstd::prelude::*;
use crate::components::bottom_nav::{build_bottom_nav, spec_bottom_nav};
use crate::navigation::Screen;
use crate::screens::{attr1, text_element, text_element_node};
use crate::styles::auth::{AUTH, LOGIN};
use crate::vnode::{NodeType, NodeView, VNode, attrs_set, element, element_view, lemma_children_view};

verus! {

/// The login screen: title, subtitle, e-mail and password fields, the submit button, and
/// the navigation bar with the login entry active.
pub open spec fn spec_login_screen() -> NodeView {
    element_view(NodeType::SafeAreaView, "flex: 1; background: #121212; position: relative"@, Seq::empty(), seq![
        element_view(NodeType::View, "padding: 20; justify-content: center; padding-bottom: 96"@, Seq::empty(), seq![
            text_element("font-size: 24; color: #FFFFFF"@, "Login"@),
            text_element("color: #94a3b8; margin-top: 8"@, "Entre para continuar"@),
            element_view(NodeType::TextInput, "border: 1px solid #333; margin-top: 16; padding: 12; radius: 10; color: #e2e8f0"@,
                attrs_set(attrs_set(attr1("testID"@, "login_email"@), "placeholder"@, "Seu e-mail"@),
                    "onChangeText"@, "set_login_email"@), Seq::empty()),
            element_view(NodeType::TextInput, "border: 1px solid #333; margin-top: 10; padding: 12; radius: 10; color: #e2e8f0"@,
                attrs_set(attrs_set(attrs_set(attr1("testID"@, "login_password"@), "placeholder"@, "Senha"@),
                    "secureTextEntry"@, "true"@), "onChangeText"@, "set_login_password"@), Seq::empty()),
            element_view(NodeType::Pressable, "background: #007AFF; border-radius: 8; margin-top: 20; padding: 12"@,
                attr1("onclick"@, "handle_login"@), seq![text_element("color: #ffffff"@, "Entrar"@)]),
        ]),
        spec_bottom_nav(Screen::Login),
    ])
}

pub fn build_login_screen() -> (res: VNode)
    ensures
        res@ == spec_login_screen(),
{
    let title = text_element_node(LOGIN.title(), "Login");
    let subtitle = text_element_node(LOGIN.subtitle(), "Entre para continuar");
    let mut email = element(NodeType::TextInput, LOGIN.email_input(), vec![]);
    email.set_attr("testID", "login_email");
    email.set_attr("placeholder", "Seu e-mail");
    email.set_attr("onChangeText", "set_login_email");
    let mut password = element(NodeType::TextInput, LOGIN.password_input(), vec![]);
    password.set_attr("testID", "login_password");
    password.set_attr("placeholder", "Senha");
    password.set_attr("secureTextEntry", "true");
    password.set_attr("onChangeText", "set_login_password");
    let label = text_element_node(LOGIN.submit_label(), "Entrar");
    let ghost lv = label@;
    let mut submit = element(NodeType::Pressable, LOGIN.submit_button(), vec![label]);
    submit.set_attr("onclick", "handle_login");
    assert(submit@.children =~= seq![lv]);
    let ghost kids = seq![title@, subtitle@, email@, password@, submit@];
    let content = element(NodeType::View, AUTH.content(), vec![title, subtitle, email, password, submit]);
    assert(content@.children =~= kids);
    let ghost cv = content@;
    let mut screen = element(NodeType::SafeAreaView, LOGIN.container(), vec![content]);
    let nav = build_bottom_nav(Screen::Login);
    let ghost nv = nav@;
    let ghost old_kids = screen.children@;
    proof {
        lemma_children_view(old_kids);
        assert(screen@.children[0] == cv);
        assert(crate::vnode::node_view(old_kids[0]) == cv);
    }
    screen.children.push(nav);
    assert(screen.children@ =~= old_kids.push(nav));
    proof {
        lemma_children_view(screen.children@);
    }
    assert(screen@.children =~= seq![cv, nv]);
    assert(screen@ =~~= spec_login_screen());
    screen
}

} // verus!
