use vstd::prelude::*;
use crate::navigation::{Screen, screen_query, spec_screen_query};
use crate::web::WebPreviewTab;

verus! {

/// The two tabs of the web preview, one per screen, the shown screen's tab active.
pub fn web_tabs(screen: Screen) -> (res: [WebPreviewTab<'static>; 2])
    ensures
        res[0].label@ == "Tela Login"@,
        res[0].href@ == spec_screen_query(Screen::Login),
        res[0].active == (screen == Screen::Login),
        res[0].active_color@ == "#2563eb"@,
        res[1].label@ == "Tela Cadastro"@,
        res[1].href@ == spec_screen_query(Screen::Cadastro),
        res[1].active == (screen == Screen::Cadastro),
        res[1].active_color@ == "#0ea5e9"@,
{
    [
        WebPreviewTab {
            label: "Tela Login",
            href: screen_query(Screen::Login),
            active: screen == Screen::Login,
            active_color: "#2563eb",
        },
        WebPreviewTab {
            label: "Tela Cadastro",
            href: screen_query(Screen::Cadastro),
            active: screen == Screen::Cadastro,
            active_color: "#0ea5e9",
        },
    ]
}

/// Outside a browser there is no address to read: the login screen is shown.
pub fn get_selected_screen() -> (res: Screen)
    ensures
        res == Screen::Login,
{
    Screen::Login
}

} // verus!
