use vstd::prelude::*;
use crate::navigation::Screen;
use crate::screens::{attr1, text_element, text_element_node};
use crate::styles::bottom_nav::{BOTTOM_NAV, nav_container_style, spec_item_for, spec_label_for};
use crate::vnode::{NodeType, NodeView, VNode, element, element_view};

verus! {

/// The navigation bar: one entry per screen, the active one highlighted.
pub open spec fn spec_bottom_nav(active: Screen) -> NodeView {
    element_view(NodeType::View, nav_container_style(), Seq::empty(), seq![
        element_view(NodeType::Pressable, spec_item_for(active, Screen::Login), attr1("to"@, "login"@),
            seq![text_element(spec_label_for(active, Screen::Login), "Login"@)]),
        element_view(NodeType::Pressable, spec_item_for(active, Screen::Cadastro), attr1("to"@, "cadastro"@),
            seq![text_element(spec_label_for(active, Screen::Cadastro), "Cadastro"@)]),
    ])
}

pub fn build_bottom_nav(active_screen: Screen) -> (res: VNode)
    ensures
        res@ == spec_bottom_nav(active_screen),
{
    let login_styles = BOTTOM_NAV.entry_for(active_screen, Screen::Login);
    let cadastro_styles = BOTTOM_NAV.entry_for(active_screen, Screen::Cadastro);
    let login_label = text_element_node(login_styles.label.as_str(), "Login");
    let ghost llv = login_label@;
    let mut login = element(NodeType::Pressable, login_styles.item.as_str(), vec![login_label]);
    login.set_attr("to", "login");
    assert(login@.children =~= seq![llv]);
    let cadastro_label = text_element_node(cadastro_styles.label.as_str(), "Cadastro");
    let ghost clv = cadastro_label@;
    let mut cadastro = element(NodeType::Pressable, cadastro_styles.item.as_str(), vec![cadastro_label]);
    cadastro.set_attr("to", "cadastro");
    assert(cadastro@.children =~= seq![clv]);
    let ghost kids = seq![login@, cadastro@];
    let res = element(NodeType::View, BOTTOM_NAV.container(), vec![login, cadastro]);
    assert(res@.children =~= kids);
    assert(res@ =~~= spec_bottom_nav(active_screen));
    res
}

} // verus!
