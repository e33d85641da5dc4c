use vstd::prelude::*;
use vstd::string::*;
use crate::navigation::Screen;
use crate::text::owned;

verus! {

/// Styles of the bottom navigation bar.
pub struct BottomNavStyles;

pub const BOTTOM_NAV: BottomNavStyles = BottomNavStyles;

/// The styles of one entry of the bar: its pressable area and its label.
pub struct BottomNavEntryStyles {
    pub item: String,
    pub label: String,
}

pub open spec fn nav_container_style() -> Seq<char> {
    "position: absolute; bottom: 0; left: 0; right: 0; background: #0f172a; flex-direction: row; justify-content: space-around; padding-top: 8; padding-bottom: 12; border-top: 1px solid #334155; shadow: 0 -2 12 rgba(2,6,23,0.30)"@
}

pub open spec fn nav_item_style() -> Seq<char> {
    "align-items: center; padding-vertical: 8; padding-horizontal: 10; border-radius: 8"@
}

pub open spec fn nav_label_style() -> Seq<char> {
    "font-size: 10; color: #94a3b8; margin-top: 4"@
}

/// What is added to an entry's area when its screen is the active one.
pub open spec fn item_active_style(screen: Screen) -> Seq<char> {
    match screen {
        Screen::Login => "background: #1e3a8a"@,
        Screen::Cadastro => "background: #0c4a6e"@,
    }
}

/// What is added to an entry's label when its screen is the active one.
pub open spec fn label_active_style(screen: Screen) -> Seq<char> {
    match screen {
        Screen::Login => "color: #60a5fa; font-weight: 600"@,
        Screen::Cadastro => "color: #38bdf8; font-weight: 600"@,
    }
}

/// A base style, extended by `; ` and the active style when the entry is the active one.
pub open spec fn with_active(base: Seq<char>, active: bool, extra: Seq<char>) -> Seq<char> {
    if active {
        base + "; "@ + extra
    } else {
        base
    }
}

pub open spec fn spec_item_for(active_screen: Screen, screen: Screen) -> Seq<char> {
    with_active(nav_item_style(), active_screen == screen, item_active_style(screen))
}

pub open spec fn spec_label_for(active_screen: Screen, screen: Screen) -> Seq<char> {
    with_active(nav_label_style(), active_screen == screen, label_active_style(screen))
}

impl BottomNavStyles {
    pub fn container(&self) -> (res: &'static str)
        ensures
            res@ == nav_container_style(),
    {
        "position: absolute; bottom: 0; left: 0; right: 0; background: #0f172a; flex-direction: row; justify-content: space-around; padding-top: 8; padding-bottom: 12; border-top: 1px solid #334155; shadow: 0 -2 12 rgba(2,6,23,0.30)"
    }

    pub fn item(&self) -> (res: &'static str)
        ensures
            res@ == nav_item_style(),
    {
        "align-items: center; padding-vertical: 8; padding-horizontal: 10; border-radius: 8"
    }

    pub fn label(&self) -> (res: &'static str)
        ensures
            res@ == nav_label_style(),
    {
        "font-size: 10; color: #94a3b8; margin-top: 4"
    }

    /// Both styles of the entry for `screen` while `active_screen` is shown.
    pub fn entry_for(&self, active_screen: Screen, screen: Screen) -> (res: BottomNavEntryStyles)
        ensures
            res.item@ == spec_item_for(active_screen, screen),
            res.label@ == spec_label_for(active_screen, screen),
    {
        BottomNavEntryStyles {
            item: self.item_for(active_screen, screen),
            label: self.label_for(active_screen, screen),
        }
    }

    /// The area style of the entry for `screen`: the base style, plus the screen's
    /// highlight when it is the active one.
    pub fn item_for(&self, active_screen: Screen, screen: Screen) -> (res: String)
        ensures
            res@ == spec_item_for(active_screen, screen),
    {
        let base = self.item();
        if active_screen == screen {
            let mut s = owned(base);
            s.append("; ");
            match screen {
                Screen::Login => s.append(self.login_item_active()),
                Screen::Cadastro => s.append(self.cadastro_item_active()),
            }
            s
        } else {
            owned(base)
        }
    }

    /// The label style of the entry for `screen`: the base style, plus the screen's
    /// highlight when it is the active one.
    pub fn label_for(&self, active_screen: Screen, screen: Screen) -> (res: String)
        ensures
            res@ == spec_label_for(active_screen, screen),
    {
        let base = self.label();
        if active_screen == screen {
            let mut s = owned(base);
            s.append("; ");
            match screen {
                Screen::Login => s.append(self.login_label_active()),
                Screen::Cadastro => s.append(self.cadastro_label_active()),
            }
            s
        } else {
            owned(base)
        }
    }

    fn login_item_active(&self) -> (res: &'static str)
        ensures
            res@ == item_active_style(Screen::Login),
    {
        "background: #1e3a8a"
    }

    fn login_label_active(&self) -> (res: &'static str)
        ensures
            res@ == label_active_style(Screen::Login),
    {
        "color: #60a5fa; font-weight: 600"
    }

    fn cadastro_item_active(&self) -> (res: &'static str)
        ensures
            res@ == item_active_style(Screen::Cadastro),
    {
        "background: #0c4a6e"
    }

    fn cadastro_label_active(&self) -> (res: &'static str)
        ensures
            res@ == label_active_style(Screen::Cadastro),
    {
        "color: #38bdf8; font-weight: 600"
    }
}

} // verus!
