use crate::icon::Icon;
use crate::menu::Menu;
use vstd::prelude::*;

verus! {

/// What a tray icon is made from: a menu, a tooltip and an icon, each of
/// which may be missing.
#[derive(Debug, Clone, PartialEq, Eq)]
pub struct TrayIconBuilder<T> {
    pub menu: Option<Menu<T>>,
    pub tooltip: Option<String>,
    pub icon: Option<Icon>,
}

impl<T> TrayIconBuilder<T> {
    /// A builder without menu, tooltip and icon.
    pub fn new() -> (builder: Self)
        ensures
            builder.menu is None,
            builder.tooltip is None,
            builder.icon is None,
    {
        TrayIconBuilder { menu: None, tooltip: None, icon: None }
    }

    /// Sets the menu of the tray icon. Without one the tray icon has no menu.
    pub fn with_menu(self, menu: Menu<T>) -> (builder: Self)
        ensures
            builder.menu == Some(menu),
            builder.tooltip == self.tooltip,
            builder.icon == self.icon,
    {
        TrayIconBuilder { menu: Some(menu), tooltip: self.tooltip, icon: self.icon }
    }

    /// Sets the tooltip that appears when the pointer rests on the tray icon.
    pub fn with_tooltip(self, tooltip: &str) -> (builder: Self)
        ensures
            builder.menu == self.menu,
            builder.tooltip is Some,
            builder.tooltip->0@ == tooltip@,
            builder.icon == self.icon,
    {
        TrayIconBuilder { menu: self.menu, tooltip: Some(tooltip.to_owned()), icon: self.icon }
    }

    /// Sets the icon of the tray icon.
    pub fn with_icon(self, icon: Icon) -> (builder: Self)
        ensures
            builder.menu == self.menu,
            builder.tooltip == self.tooltip,
            builder.icon == Some(icon),
    {
        TrayIconBuilder { menu: self.menu, tooltip: self.tooltip, icon: Some(icon) }
    }
}

} // verus!
