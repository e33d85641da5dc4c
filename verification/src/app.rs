use vstd::prelude::*;
use crate::navigation::{Screen, build_stack_navigator, spec_stack_navigator};
use crate::vnode::VNode;

verus! {

/// The whole app with `screen` as the active route.
pub fn build_app(screen: Screen) -> (res: VNode)
    ensures
        res@ == spec_stack_navigator(screen),
{
    build_stack_navigator(screen)
}

} // verus!
