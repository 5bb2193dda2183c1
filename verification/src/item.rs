use crate::icon::NativeIcon;
use crate::menu::{ClickType, Menu, TrayEvent};
use vstd::prelude::*;
use vstd::string::StringExecFns;

verus! {

/// The character of a digit.
pub open spec fn digit(d: nat) -> char {
    if d == 0 {
        '0'
    } else if d == 1 {
        '1'
    } else if d == 2 {
        '2'
    } else if d == 3 {
        '3'
    } else if d == 4 {
        '4'
    } else if d == 5 {
        '5'
    } else if d == 6 {
        '6'
    } else if d == 7 {
        '7'
    } else if d == 8 {
        '8'
    } else {
        '9'
    }
}

/// The digits of a number in base ten, without leading zeros.
pub open spec fn decimal(n: nat) -> Seq<char>
    decreases n,
{
    if n < 10 {
        seq![digit(n)]
    } else {
        decimal(n / 10).push(digit(n % 10))
    }
}

/// The text of a digit.
fn digit_str(d: u32) -> (text: &'static str)
    requires
        d < 10,
    ensures
        text@ == seq![digit(d as nat)],
{
    proof {
        reveal_strlit("0");
        reveal_strlit("1");
        reveal_strlit("2");
        reveal_strlit("3");
        reveal_strlit("4");
        reveal_strlit("5");
        reveal_strlit("6");
        reveal_strlit("7");
        reveal_strlit("8");
        reveal_strlit("9");
    }
    let text = if d == 0 {
        "0"
    } else if d == 1 {
        "1"
    } else if d == 2 {
        "2"
    } else if d == 3 {
        "3"
    } else if d == 4 {
        "4"
    } else if d == 5 {
        "5"
    } else if d == 6 {
        "6"
    } else if d == 7 {
        "7"
    } else if d == 8 {
        "8"
    } else {
        "9"
    };
    text
}

/// A number in base ten.
pub fn decimal_string(n: u32) -> (text: String)
    ensures
        text@ == decimal(n as nat),
    decreases n,
{
    if n < 10 {
        digit_str(n).to_owned()
    } else {
        let mut text = decimal_string(n / 10);
        text.append(digit_str(n % 10));
        text
    }
}

/// The name under which the item of process `pid` with the number `id`
/// registers.
pub open spec fn service_name_of(pid: u32, id: u32) -> Seq<char> {
    "org.kde.StatusNotifierItem-"@ + decimal(pid as nat) + "-"@ + decimal(id as nat)
}

/// The name under which the item of process `pid` with the number `id`
/// registers.
pub fn service_name(pid: u32, id: u32) -> (name: String)
    ensures
        name@ == service_name_of(pid, id),
{
    let mut name = "org.kde.StatusNotifierItem-".to_owned();
    name.append(decimal_string(pid).as_str());
    name.append("-");
    name.append(decimal_string(id).as_str());
    name
}

/// The path of the file in the directory `base` that holds the icon with
/// the number `counter` of the item of process `pid` with the number `id`.
pub open spec fn tmp_icon_path_of(base: Seq<char>, pid: u32, id: u32, counter: u32) -> Seq<char> {
    base + "/icon-"@ + decimal(pid as nat) + "-"@ + decimal(id as nat) + "-"@ + decimal(
        counter as nat,
    ) + ".png"@
}

/// The path of the file in the directory `base` that holds the icon with
/// the number `counter` of the item `id`.
pub fn get_tmp_icon_path(base: &str, id: (u32, u32), counter: u32) -> (path: String)
    ensures
        path@ == tmp_icon_path_of(base@, id.0, id.1, counter),
{
    let mut path = base.to_owned();
    path.append("/icon-");
    path.append(decimal_string(id.0).as_str());
    path.append("-");
    path.append(decimal_string(id.1).as_str());
    path.append("-");
    path.append(decimal_string(counter).as_str());
    path.append(".png");
    path
}

impl NativeIcon {
    /// Where the desktop finds the icon, and the bytes that have to be
    /// written there first, if any. The file of an icon is used as it is.
    /// Pixels go to a new file in `base`, numbered by `counter`, which then
    /// goes up by one, and from the largest number back to 0.
    pub fn write_to_disk<'a>(&'a self, base: &str, id: (u32, u32), counter: &mut u32) -> (file: (
        String,
        Option<&'a Vec<u8>>,
    ))
        ensures
            self@ is Path ==> file.0@ == self@->Path_0 && file.1 is None && *final(counter) == *old(
                counter,
            ),
            self@ is Pixels ==> file.0@ == tmp_icon_path_of(base@, id.0, id.1, *old(counter)),
            self@ is Pixels ==> file.1 is Some && file.1->0@ == self@->Pixels_0,
            self@ is Pixels ==> *final(counter) == (if *old(counter) == u32::MAX {
                0
            } else {
                *old(counter) + 1
            }),
    {
        match self {
            NativeIcon::Path(path) => (path.clone(), None),
            NativeIcon::Pixels(pixels) => {
                let path = get_tmp_icon_path(base, id, *counter);
                *counter = counter.wrapping_add(1);
                (path, Some(pixels))
            },
        }
    }
}

/// What the owner of a tray icon asks the served item to change.
#[derive(Debug)]
pub enum TrayUpdate<T> {
    Menu(Menu<T>),
    Tooltip(String),
    Icon(String),
}

impl<T> TrayUpdate<T> {
    /// The change to the tooltip `tooltip`; no tooltip is the empty one.
    pub fn tooltip(tooltip: Option<String>) -> (update: Self)
        ensures
            update is Tooltip,
            update->Tooltip_0@ == (match tooltip {
                Some(t) => t@,
                None => Seq::<char>::empty(),
            }),
    {
        match tooltip {
            Some(text) => TrayUpdate::Tooltip(text),
            None => TrayUpdate::Tooltip(String::new()),
        }
    }

    /// The change to the menu `menu`; no menu is the empty one.
    pub fn menu(menu: Option<Menu<T>>) -> (update: Self)
        ensures
            update is Menu,
            update->Menu_0@ == (match menu {
                Some(m) => m@,
                None => Seq::empty(),
            }),
    {
        match menu {
            Some(shown) => TrayUpdate::Menu(shown),
            None => TrayUpdate::Menu(Menu::empty()),
        }
    }

    /// The change to the icon at `path`; no icon is the empty path.
    pub fn icon(path: Option<String>) -> (update: Self)
        ensures
            update is Icon,
            update->Icon_0@ == (match path {
                Some(p) => p@,
                None => Seq::<char>::empty(),
            }),
    {
        match path {
            Some(text) => TrayUpdate::Icon(text),
            None => TrayUpdate::Icon(String::new()),
        }
    }
}

/// The item of a tray icon as others see it.
#[derive(Debug)]
pub struct StatusNotifierItem {
    first_activate: bool,
    tooltip: String,
    icon: String,
}

impl StatusNotifierItem {
    /// Whether the item has not been activated yet.
    pub closed spec fn untouched(&self) -> bool {
        self.first_activate
    }

    /// The tooltip.
    pub closed spec fn tooltip(&self) -> Seq<char> {
        self.tooltip@
    }

    /// The name or path of the icon.
    pub closed spec fn icon(&self) -> Seq<char> {
        self.icon@
    }

    /// An item with this icon and tooltip that has not been activated yet.
    pub fn new(icon: String, tooltip: String) -> (item: Self)
        ensures
            item.untouched(),
            item.icon() == icon@,
            item.tooltip() == tooltip@,
    {
        StatusNotifierItem { first_activate: true, tooltip, icon }
    }

    /// Sets the tooltip.
    pub fn update_tooltip(&mut self, tooltip: String)
        ensures
            final(self).tooltip() == tooltip@,
            final(self).icon() == old(self).icon(),
            final(self).untouched() == old(self).untouched(),
    {
        self.tooltip = tooltip;
    }

    /// Sets the icon.
    pub fn update_icon(&mut self, icon: String)
        ensures
            final(self).icon() == icon@,
            final(self).tooltip() == old(self).tooltip(),
            final(self).untouched() == old(self).untouched(),
    {
        self.icon = icon;
    }

    /// What an activation of the item calls for. The first one builds the
    /// menu and calls for nothing; every later one is a double click.
    pub fn activate<T>(&mut self, _x: i32, _y: i32) -> (answer: Option<TrayEvent<T>>)
        ensures
            !final(self).untouched(),
            final(self).tooltip() == old(self).tooltip(),
            final(self).icon() == old(self).icon(),
            answer == (if old(self).untouched() {
                None
            } else {
                Some(TrayEvent::<T>::Tray(ClickType::Double))
            }),
    {
        let first = self.first_activate;
        self.first_activate = false;
        if first {
            None
        } else {
            Some(TrayEvent::Tray(ClickType::Double))
        }
    }

    /// The name of the attention icon: none.
    pub fn attention_icon_name(&self) -> (name: String)
        ensures
            name@.len() == 0,
    {
        String::new()
    }

    /// The images of the attention icon: none.
    pub fn attention_icon_pixmap(&self) -> (pixmap: Vec<(i32, i32, Vec<u8>)>)
        ensures
            pixmap@.len() == 0,
    {
        Vec::new()
    }

    /// The name of the attention movie: none.
    pub fn attention_movie_name(&self) -> (name: String)
        ensures
            name@.len() == 0,
    {
        String::new()
    }

    /// The category of the item.
    pub fn category(&self) -> (category: String)
        ensures
            category@ == "ApplicationStatus"@,
    {
        "ApplicationStatus".to_owned()
    }

    /// The name or path of the icon.
    pub fn icon_name(&self) -> (name: String)
        ensures
            name@ == self.icon(),
    {
        self.icon.clone()
    }

    /// The images of the icon: none, the icon goes by its name.
    pub fn icon_pixmap(&self) -> (pixmap: Vec<(i32, i32, Vec<u8>)>)
        ensures
            pixmap@.len() == 0,
    {
        Vec::new()
    }

    /// The place in which icons are looked for: none.
    pub fn icon_theme_path(&self) -> (path: String)
        ensures
            path@.len() == 0,
    {
        String::new()
    }

    /// The identifier of the application.
    pub fn id(&self) -> (id: String)
        ensures
            id@ == "betrayer"@,
    {
        "betrayer".to_owned()
    }

    /// Whether the item is a menu only: it is not.
    pub fn item_is_menu(&self) -> (only_menu: bool)
        ensures
            !only_menu,
    {
        false
    }

    /// The path under which the menu is served.
    pub fn menu(&self) -> (path: String)
        ensures
            path@ == "/MenuBar"@,
    {
        "/MenuBar".to_owned()
    }

    /// The name of the overlay icon: none.
    pub fn overlay_icon_name(&self) -> (name: String)
        ensures
            name@.len() == 0,
    {
        String::new()
    }

    /// The state of the item.
    pub fn status(&self) -> (status: String)
        ensures
            status@ == "Active"@,
    {
        "Active".to_owned()
    }

    /// The title of the item.
    pub fn title(&self) -> (title: String)
        ensures
            title@ == "CHECKED!"@,
    {
        "CHECKED!".to_owned()
    }

    /// The images of the overlay icon: none.
    pub fn overlay_icon_pixmap(&self) -> (pixmap: Vec<(i32, i32, Vec<u8>)>)
        ensures
            pixmap@.len() == 0,
    {
        Vec::new()
    }

    /// The tooltip: no icon name, no image, the text, no description.
    pub fn tool_tip(&self) -> (tip: (String, Vec<(i32, i32, Vec<u8>)>, String, String))
        ensures
            tip.0@.len() == 0,
            tip.1@.len() == 0,
            tip.2@ == self.tooltip(),
            tip.3@.len() == 0,
    {
        (String::new(), Vec::new(), self.tooltip.clone(), String::new())
    }

    /// The window of the item: none.
    pub fn window_id(&self) -> (id: i32)
        ensures
            id == 0,
    {
        0
    }
}

} // verus!
