use vstd::prelude::*;
use crate::vnode::{NodeType, NodeView, VNode, attrs_set, element, element_view};

verus! {

/// The screens of the app.
#[derive(Clone, Copy, Debug, PartialEq, Eq, Structural)]
pub enum Screen {
    Login,
    Cadastro,
}

/// The route name of the first screen.
pub fn initial_route_name() -> (res: &'static str)
    ensures
        res@ == "Login"@,
{
    "Login"
}

pub open spec fn spec_route_name(screen: Screen) -> Seq<char> {
    match screen {
        Screen::Login => "Login"@,
        Screen::Cadastro => "Cadastro"@,
    }
}

/// The route name of a screen.
pub fn route_name(screen: Screen) -> (res: &'static str)
    ensures
        res@ == spec_route_name(screen),
{
    match screen {
        Screen::Login => "Login",
        Screen::Cadastro => "Cadastro",
    }
}

pub open spec fn spec_screen_query(screen: Screen) -> Seq<char> {
    match screen {
        Screen::Login => "?screen=login"@,
        Screen::Cadastro => "?screen=cadastro"@,
    }
}

/// The query string that selects a screen in the web preview.
pub fn screen_query(screen: Screen) -> (res: &'static str)
    ensures
        res@ == spec_screen_query(screen),
{
    match screen {
        Screen::Login => "?screen=login",
        Screen::Cadastro => "?screen=cadastro",
    }
}

} // verus!

verus! {

/// A search string selects the sign-up screen when it contains `screen=cadastro` in any
/// letter case, the login screen otherwise. (Lower-casing the search string can only turn
/// an ASCII capital into one of that text's characters, so comparing with ASCII letters
/// lower-cased decides the same as lower-casing the whole string.)
pub open spec fn spec_screen_from_search(search: Seq<char>) -> Screen {
    if crate::text::contains_lowered(search, "screen=cadastro"@) {
        Screen::Cadastro
    } else {
        Screen::Login
    }
}

pub fn screen_from_search(search: &str) -> (res: Screen)
    ensures
        res == spec_screen_from_search(search@),
{
    if crate::text::str_contains_lowered(search, "screen=cadastro") {
        Screen::Cadastro
    } else {
        Screen::Login
    }
}

/// The stack screen for a route: its name, route and hidden header, holding the screen.
pub open spec fn stack_screen(name: Seq<char>, route: Seq<char>, screen: NodeView) -> NodeView {
    element_view(NodeType::StackScreen, ""@, attrs_set(attrs_set(crate::screens::attr1("name"@, name), "route"@, route),
        "headerShown"@, "false"@), seq![screen])
}

/// The app tree: a navigation container holding a stack navigator with one screen per
/// route; the navigator starts at `Login` and shows the active screen's route.
pub open spec fn spec_stack_navigator(active: Screen) -> NodeView {
    element_view(NodeType::NavigationContainer, "flex: 1"@, Seq::empty(), seq![
        element_view(NodeType::StackNavigator, "flex: 1"@,
            attrs_set(crate::screens::attr1("initialRouteName"@, "Login"@), "activeRoute"@, spec_route_name(active)), seq![
            stack_screen("Login"@, "login"@, crate::screens::spec_login_screen()),
            stack_screen("Cadastro"@, "cadastro"@, crate::screens::spec_cadastro_screen()),
        ]),
    ])
}

pub fn build_stack_navigator(active_screen: Screen) -> (res: VNode)
    ensures
        res@ == spec_stack_navigator(active_screen),
{
    let login = crate::screens::build_login_screen();
    let ghost lv = login@;
    let mut login_screen = element(NodeType::StackScreen, "", vec![login]);
    login_screen.set_attr("name", "Login");
    login_screen.set_attr("route", "login");
    login_screen.set_attr("headerShown", "false");
    assert(login_screen@.children =~= seq![lv]);
    let cadastro = crate::screens::build_cadastro_screen();
    let ghost cv = cadastro@;
    let mut cadastro_screen = element(NodeType::StackScreen, "", vec![cadastro]);
    cadastro_screen.set_attr("name", "Cadastro");
    cadastro_screen.set_attr("route", "cadastro");
    cadastro_screen.set_attr("headerShown", "false");
    assert(cadastro_screen@.children =~= seq![cv]);
    let ghost kids = seq![login_screen@, cadastro_screen@];
    let mut navigator = element(NodeType::StackNavigator, "flex: 1", vec![login_screen, cadastro_screen]);
    navigator.set_attr("initialRouteName", initial_route_name());
    navigator.set_attr("activeRoute", route_name(active_screen));
    assert(navigator@.children =~= kids);
    let ghost nv = navigator@;
    let res = element(NodeType::NavigationContainer, "flex: 1", vec![navigator]);
    assert(res@.children =~= seq![nv]);
    assert(res@ =~~= spec_stack_navigator(active_screen));
    res
}

} // verus!

verus! {

/// The query string of a screen selects that same screen.
pub proof fn law_screen_query_round_trip(screen: Screen)
    ensures
        spec_screen_from_search(spec_screen_query(screen)) == screen,
{
    reveal_strlit("?screen=login");
    reveal_strlit("?screen=cadastro");
    reveal_strlit("screen=cadastro");
    let p = "screen=cadastro"@;
    match screen {
        Screen::Login => {
            assert forall|i: int| !crate::text::occurs_lowered_at("?screen=login"@, p, i) by {}
        },
        Screen::Cadastro => {
            let s = "?screen=cadastro"@;
            assert forall|k: int| 0 <= k < p.len() implies crate::text::lower_code(#[trigger] s[1 + k]) == p[k] as u32 by {
                assert(s[1 + k] == p[k]);
            }
            assert(crate::text::occurs_lowered_at(s, p, 1));
        },
    }
}

} // verus!
