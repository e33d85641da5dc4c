use vstd::prelude::*;
use crate::screens::{text_element, text_element_node};
use crate::vnode::{NodeType, NodeView, VNode, element, element_view};

verus! {

/// The profile screen.
pub open spec fn spec_perfil_screen() -> NodeView {
    element_view(NodeType::SafeAreaView, "flex: 1; background: #0f172a"@, Seq::empty(), seq![
        element_view(NodeType::View, "padding: 20; justify-content: center"@, Seq::empty(), seq![
            text_element("font-size: 24; color: #ffffff"@, "Perfil"@),
        ]),
    ])
}

pub fn build_perfil_screen() -> (res: VNode)
    ensures
        res@ == spec_perfil_screen(),
{
    let title = text_element_node("font-size: 24; color: #ffffff", "Perfil");
    let ghost tv = title@;
    let content = element(NodeType::View, "padding: 20; justify-content: center", vec![title]);
    assert(content@.children =~= seq![tv]);
    let ghost cv = content@;
    let res = element(NodeType::SafeAreaView, "flex: 1; background: #0f172a", vec![content]);
    assert(res@.children =~= seq![cv]);
    assert(res@ =~~= spec_perfil_screen());
    res
}

} // verus!
