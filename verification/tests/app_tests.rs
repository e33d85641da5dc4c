use oxidact::components::bottom_nav::build_bottom_nav;
use oxidact::dom::{html_tag, input_state_key, plan_dom};
use oxidact::navigation::{build_stack_navigator, initial_route_name, route_name, screen_from_search, screen_query};
use oxidact::screens;
use oxidact::styles::auth::{AUTH, CADASTRO, LOGIN};
use oxidact::styles::bottom_nav::BOTTOM_NAV;
use oxidact::tree::tree_text;
use oxidact::vnode::{NodeType, VNode};
use oxidact::wasm_internal::{get_selected_screen, web_tabs};
use oxidact::{build_app, get_cadastro_form, get_login_form, CadastroForm, LoginForm, Screen};

#[test]
fn routes_and_queries() {
    assert_eq!(initial_route_name(), "Login");
    assert_eq!(route_name(Screen::Login), "Login");
    assert_eq!(route_name(Screen::Cadastro), "Cadastro");
    assert_eq!(screen_query(Screen::Login), "?screen=login");
    assert_eq!(screen_query(Screen::Cadastro), "?screen=cadastro");
}

#[test]
fn screen_from_search_ignores_letter_case() {
    assert_eq!(screen_from_search("?screen=cadastro"), Screen::Cadastro);
    assert_eq!(screen_from_search("?x=1&SCREEN=Cadastro"), Screen::Cadastro);
    assert_eq!(screen_from_search("?screen=login"), Screen::Login);
    assert_eq!(screen_from_search(""), Screen::Login);
    assert_eq!(screen_from_search("?screen=cadastr"), Screen::Login);
}

#[test]
fn screen_query_round_trips() {
    assert_eq!(screen_from_search(screen_query(Screen::Login)), Screen::Login);
    assert_eq!(screen_from_search(screen_query(Screen::Cadastro)), Screen::Cadastro);
}

#[test]
fn styles() {
    assert_eq!(AUTH.content(), "padding: 20; justify-content: center; padding-bottom: 96");
    assert_eq!(LOGIN.container(), "flex: 1; background: #121212; position: relative");
    assert_eq!(CADASTRO.submit_button(), "background: #0ea5e9; border-radius: 8; margin-top: 20; padding: 12");
    assert_eq!(
        BOTTOM_NAV.item_for(Screen::Login, Screen::Login),
        "align-items: center; padding-vertical: 8; padding-horizontal: 10; border-radius: 8; background: #1e3a8a"
    );
    assert_eq!(BOTTOM_NAV.item_for(Screen::Cadastro, Screen::Login), BOTTOM_NAV.item());
    assert_eq!(
        BOTTOM_NAV.label_for(Screen::Cadastro, Screen::Cadastro),
        "font-size: 10; color: #94a3b8; margin-top: 4; color: #38bdf8; font-weight: 600"
    );
    let e = BOTTOM_NAV.entry_for(Screen::Login, Screen::Cadastro);
    assert_eq!(e.item, BOTTOM_NAV.item());
    assert_eq!(e.label, BOTTOM_NAV.label());
}

#[test]
fn perfil_screen_outline() {
    assert_eq!(
        tree_text(&screens::perfil::build_perfil_screen()),
        "SafeAreaView (style: flex: 1; background: #0f172a)\n  View (style: padding: 20; justify-content: center)\n    Text (style: font-size: 24; color: #ffffff)\n      Text (style: )\n        text: \"Perfil\""
    );
}

#[test]
fn bottom_nav_marks_the_active_entry() {
    let nav = build_bottom_nav(Screen::Cadastro);
    assert_eq!(nav.tag, NodeType::View);
    assert_eq!(nav.children.len(), 2);
    assert_eq!(nav.children[0].attr("to"), Some("login"));
    assert_eq!(nav.children[0].style_raw, BOTTOM_NAV.item());
    assert_eq!(nav.children[1].attr("to"), Some("cadastro"));
    assert_eq!(nav.children[1].style_raw, BOTTOM_NAV.item_for(Screen::Cadastro, Screen::Cadastro));
    assert_eq!(nav.children[1].children[0].children[0].text_content.as_deref(), Some("Cadastro"));
}

#[test]
fn login_screen_with_bar() {
    let s = screens::login::build_login_screen();
    assert_eq!(s.tag, NodeType::SafeAreaView);
    assert_eq!(s.children.len(), 2);
    let content = &s.children[0];
    assert_eq!(content.children.len(), 5);
    let password = &content.children[3];
    assert_eq!(password.attr("testID"), Some("login_password"));
    assert_eq!(password.attr("secureTextEntry"), Some("true"));
    assert_eq!(password.attributes.len(), 4);
    assert_eq!(s.children[1].children[0].style_raw, BOTTOM_NAV.item_for(Screen::Login, Screen::Login));
}

#[test]
fn cadastro_screen_with_bar() {
    let s = screens::cadastro::build_cadastro_screen();
    assert_eq!(s.children.len(), 2);
    assert_eq!(s.children[0].children.len(), 6);
    assert_eq!(s.children[0].children[2].attr("testID"), Some("signup_name"));
    assert_eq!(s.children[0].children[5].attr("onclick"), Some("handle_signup"));
}

#[test]
fn navigator_lists_both_screens() {
    let app = build_stack_navigator(Screen::Cadastro);
    assert_eq!(app.tag, NodeType::NavigationContainer);
    let nav = &app.children[0];
    assert_eq!(nav.tag, NodeType::StackNavigator);
    assert_eq!(nav.attr("initialRouteName"), Some("Login"));
    assert_eq!(nav.attr("activeRoute"), Some("Cadastro"));
    assert_eq!(nav.children[0].attr("name"), Some("Login"));
    assert_eq!(nav.children[1].attr("route"), Some("cadastro"));
    assert_eq!(nav.children[1].attr("headerShown"), Some("false"));
    assert_eq!(tree_text(&nav.children[1].children[0]), tree_text(&screens::build_cadastro_screen()));
    assert_eq!(tree_text(&build_app(Screen::Login)), tree_text(&oxidact::app::build_app(Screen::Login)));
}

#[test]
fn dom_plan_shows_only_the_active_screen() {
    let app = build_app(Screen::Cadastro);
    let plan = plan_dom(&app);
    assert_eq!(plan.tag, "div");
    assert_eq!(plan.style, "display:flex;flex-direction:column;flex:1;");
    let nav = &plan.children[0];
    assert_eq!(nav.children.len(), 1);
    let screen = &nav.children[0];
    assert!(screen.style.starts_with("display:flex;flex-direction:column;min-height:560px;border-radius:14px;"));
    let content = &screen.children[0];
    let name_field = &content.children[2];
    assert_eq!(name_field.tag, "input");
    assert_eq!(name_field.placeholder.as_ref().map(|(a, v)| (*a, v.as_str())), Some(("placeholder", "Nome completo")));
    let submit = &content.children[5];
    assert_eq!(submit.tag, "button");
    assert_eq!(submit.action.as_deref(), Some("handle_signup"));
    assert_eq!(submit.children[0].children[0].text.as_deref(), Some("Criar conta"));
}

#[test]
fn dom_plan_of_text_fields_and_links() {
    let s = screens::login::build_login_screen();
    let plan = plan_dom(&s);
    let password = &plan.children[0].children[3];
    let input = password.input.as_ref().unwrap();
    assert_eq!(input.input_type, "password");
    assert_eq!(input.state_key.as_deref(), Some("login_password"));
    assert_eq!(input.change_handler.as_deref(), Some("set_login_password"));
    assert_eq!(input.value, None);
    let email = &plan.children[0].children[2];
    assert_eq!(email.input.as_ref().unwrap().input_type, "text");
    let link = &plan.children[1].children[1];
    assert_eq!(link.action.as_deref(), Some("navigate:cadastro"));
    assert!(plan.children[0].children[0].input.is_none());
}

#[test]
fn dom_plan_falls_back_to_all_children() {
    let mut nav = VNode::new(NodeType::StackNavigator);
    nav.set_attr("activeRoute", "Missing");
    nav.children.push(VNode::new(NodeType::StackScreen));
    nav.children.push(VNode::new(NodeType::Text));
    assert_eq!(plan_dom(&nav).children.len(), 2);
    let mut view = VNode::new(NodeType::View);
    view.set_attr("placeholder", "p");
    assert_eq!(plan_dom(&view).placeholder.map(|(a, v)| (a, v)), Some(("data-placeholder", "p".to_string())));
}

#[test]
fn input_keys_and_tags() {
    let mut n = VNode::new(NodeType::TextInput);
    assert_eq!(input_state_key(&n), None);
    n.set_attr("id", "c");
    assert_eq!(input_state_key(&n).as_deref(), Some("c"));
    n.set_attr("name", "b");
    assert_eq!(input_state_key(&n).as_deref(), Some("b"));
    n.set_attr("testID", "a");
    assert_eq!(input_state_key(&n).as_deref(), Some("a"));
    assert_eq!(html_tag(NodeType::Pressable), "button");
    assert_eq!(html_tag(NodeType::Text), "div");
}

#[test]
fn forms_read_the_fields() {
    let mut values = oxidact::web::WebInputValues::new();
    oxidact::web::set_web_input_value(&mut values, "login_email", "a@b.c");
    let f: LoginForm = get_login_form(&values, 3);
    assert_eq!(f.tentativas, 3);
    assert_eq!(f.email, "a@b.c");
    assert_eq!(f.senha, "");
    oxidact::web::set_web_input_value(&mut values, "signup_name", "Ana");
    let c: CadastroForm = get_cadastro_form(&values, 1);
    assert_eq!(c.nome, "Ana");
    assert_eq!(c.email, "");
    let d = LoginForm::default();
    assert_eq!(d.tentativas, 0);
    assert_eq!(CadastroForm::default().nome, "");
}

#[test]
fn web_tabs_and_selected_screen() {
    let tabs = web_tabs(Screen::Cadastro);
    assert_eq!(tabs[0].label, "Tela Login");
    assert_eq!(tabs[0].href, "?screen=login");
    assert!(!tabs[0].active);
    assert!(tabs[1].active);
    assert_eq!(tabs[1].active_color, "#0ea5e9");
    assert_eq!(get_selected_screen(), Screen::Login);
}
