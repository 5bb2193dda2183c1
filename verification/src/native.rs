use crate::menu::{items_view, lemma_items_view, ClickType, ItemView, Menu, MenuItem, TrayEvent};
use crate::windows::{click_of, LOWORD, MF_CHECKED, MF_POPUP, MF_SEPARATOR, MF_STRING};
use vstd::prelude::*;

verus! {

/// An item of a menu as the platform builds it. A button has the number under
/// which the platform reports a click on it.
#[derive(Debug, PartialEq, Eq)]
pub enum NativeItem {
    Separator,
    Button { name: String, checked: bool, id: usize },
    Menu { name: String, children: Vec<NativeItem> },
}

/// The mathematical value of a [`NativeItem`].
pub ghost enum NativeItemView {
    Separator,
    Button { name: Seq<char>, checked: bool, id: int },
    Menu { name: Seq<char>, children: Seq<NativeItemView> },
}

/// The values of a list of native items, in order.
pub open spec fn native_view(items: Seq<NativeItem>) -> Seq<NativeItemView>
    decreases items,
{
    if items.len() == 0 {
        Seq::empty()
    } else {
        native_view(items.drop_last()).push(items.last().view())
    }
}

impl View for NativeItem {
    type V = NativeItemView;

    open spec fn view(&self) -> NativeItemView
        decreases self,
    {
        match self {
            NativeItem::Separator => NativeItemView::Separator,
            NativeItem::Button { name, checked, id } => NativeItemView::Button {
                name: name@,
                checked: *checked,
                id: *id as int,
            },
            NativeItem::Menu { name, children } => NativeItemView::Menu {
                name: name@,
                children: native_view(children@),
            },
        }
    }
}

/// The flags with which an item is appended to a menu of the platform.
pub open spec fn append_flags_of(item: NativeItemView) -> u32 {
    match item {
        NativeItemView::Separator => MF_SEPARATOR,
        NativeItemView::Button { checked, .. } => if checked {
            MF_CHECKED
        } else {
            MF_STRING
        },
        NativeItemView::Menu { .. } => MF_POPUP,
    }
}

impl NativeItem {
    /// The flags with which the item is appended to a menu of the platform:
    /// a button shows its text, with a checkmark where it is checked.
    pub fn append_flags(&self) -> (flags: u32)
        ensures
            flags == append_flags_of(self@),
    {
        match self {
            NativeItem::Separator => MF_SEPARATOR,
            NativeItem::Button { checked, .. } => {
                if *checked {
                    assert(MF_STRING | MF_CHECKED == MF_CHECKED) by (bit_vector);
                    MF_STRING | MF_CHECKED
                } else {
                    MF_STRING
                }
            },
            NativeItem::Menu { .. } => MF_POPUP,
        }
    }
}

/// The signal tokens of the buttons in and below `items`, in the order in
/// which the menu shows them from top to bottom, submenus unfolded.
pub open spec fn button_signals<T>(items: Seq<ItemView<T>>) -> Seq<T>
    decreases items,
{
    if items.len() == 0 {
        Seq::empty()
    } else {
        button_signals(items.drop_last()) + (match items.last() {
            ItemView::Separator => Seq::empty(),
            ItemView::Button { signal, .. } => seq![signal],
            ItemView::Menu { children, .. } => button_signals(children),
        })
    }
}

/// The items `items` as the platform builds them, where the first button in
/// them gets the number `first` and every further one the next number.
pub open spec fn numbered<T>(items: Seq<ItemView<T>>, first: int) -> Seq<NativeItemView>
    decreases items,
{
    if items.len() == 0 {
        Seq::empty()
    } else {
        let before = items.drop_last();
        let next = first + button_signals(before).len();
        numbered(before, first).push(
            match items.last() {
                ItemView::Separator => NativeItemView::Separator,
                ItemView::Button { name, checked, .. } => NativeItemView::Button {
                    name,
                    checked: checked == Some(true),
                    id: next,
                },
                ItemView::Menu { name, children } => NativeItemView::Menu {
                    name,
                    children: numbered(children, next),
                },
            },
        )
    }
}

/// Numbers the buttons of `items` and moves their signal tokens to the end
/// of `signals`: the number of a button is the place of its token.
pub fn add_all<T>(signals: &mut Vec<T>, items: Vec<MenuItem<T>>) -> (native: Vec<NativeItem>)
    ensures
        final(signals)@ == old(signals)@ + button_signals(items_view(items@)),
        native_view(native@) == numbered(items_view(items@), old(signals)@.len() as int),
    decreases items,
{
    let ghost first = signals@.len() as int;
    let ghost before = signals@;
    let ghost views = items_view(items@);
    let ghost all = items@;
    proof {
        lemma_items_view(items@);
    }
    let mut native: Vec<NativeItem> = Vec::new();
    for item in it: items
        invariant
            it.seq() == all,
            views == items_view(all),
            views.len() == all.len(),
            forall|j: int| 0 <= j < all.len() ==> #[trigger] views[j] == all[j]@,
            first == before.len(),
            signals@ == before + button_signals(views.take(it.index() as int)),
            native_view(native@) == numbered(views.take(it.index() as int), first),
    {
        let ghost i = it.index() as int;
        let ghost done = views.take(i);
        proof {
            assert(views.take(i + 1).drop_last() =~= done);
        }
        let ghost native_before = native@;
        match item {
            MenuItem::Separator => {
                native.push(NativeItem::Separator);
            },
            MenuItem::Button { name, signal, checked } => {
                let id = signals.len();
                let on = match checked {
                    Some(on) => on,
                    None => false,
                };
                signals.push(signal);
                native.push(NativeItem::Button { name, checked: on, id });
            },
            MenuItem::Menu { name, children } => {
                let below = add_all(signals, children);
                native.push(NativeItem::Menu { name, children: below });
            },
        }
        proof {
            assert(native@.drop_last() =~= native_before);
            assert(native_view(native@) == native_view(native_before).push(native@.last()@));
        }
    }
    proof {
        assert(views.take(all.len() as int) =~= views);
    }
    native
}

/// The items of `menu` as the platform builds them, and the signal tokens of
/// their buttons: the number of a button is the place of its token.
pub fn construct_native_menu<T>(menu: Menu<T>) -> (built: (Vec<NativeItem>, Vec<T>))
    ensures
        native_view(built.0@) == numbered(menu@, 0),
        built.1@ == button_signals(menu@),
{
    let mut signals: Vec<T> = Vec::new();
    let native = add_all(&mut signals, menu.into_items());
    (native, signals)
}

/// What a command of the menu calls for: the signal token whose place is
/// the low half of `wparam`, where there is one.
pub fn command_event<T: Clone>(signals: &Vec<T>, wparam: u32) -> (answer: Option<TrayEvent<T>>)
    ensures
        match answer {
            Some(TrayEvent::Menu(token)) => wparam % 0x1_0000 < signals@.len() && cloned(
                signals@[(wparam % 0x1_0000) as int],
                token,
            ),
            Some(TrayEvent::Tray(_)) => false,
            None => wparam % 0x1_0000 >= signals@.len(),
        },
{
    let id = LOWORD(wparam) as usize;
    if id < signals.len() {
        Some(TrayEvent::Menu(signals[id].clone()))
    } else {
        None
    }
}

/// What a message of the mouse over the tray icon calls for: the click that
/// it stands for, and whether the menu is to be shown, which a right click
/// asks for.
pub fn tray_message<T>(lparam: isize) -> (answer: (Option<TrayEvent<T>>, bool))
    ensures
        answer.0 == (match click_of(lparam as u32) {
            Some(click) => Some(TrayEvent::<T>::Tray(click)),
            None => None,
        }),
        answer.1 == (click_of(lparam as u32) == Some(ClickType::Right)),
{
    match ClickType::from_lparam(lparam) {
        Some(ClickType::Right) => (Some(TrayEvent::Tray(ClickType::Right)), true),
        Some(click) => (Some(TrayEvent::Tray(click)), false),
        None => (None, false),
    }
}

/// What a control with the tag `tag` calls for: the tag -1 is that of the
/// tray icon itself and stands for a left click; any other tag is the place
/// of the signal token of a button, where a menu is shown and has that
/// place.
pub fn tag_event<T: Clone>(signals: Option<&Vec<T>>, tag: isize) -> (answer: Option<TrayEvent<T>>)
    ensures
        tag == -1 ==> answer == Some(TrayEvent::<T>::Tray(ClickType::Left)),
        tag != -1 ==> match answer {
            Some(TrayEvent::Menu(token)) => signals is Some && 0 <= tag < signals->0@.len()
                && cloned(signals->0@[tag as int], token),
            Some(TrayEvent::Tray(_)) => false,
            None => signals is None || tag < 0 || tag >= signals->0@.len(),
        },
{
    if tag == -1 {
        return Some(TrayEvent::Tray(ClickType::Left));
    }
    match signals {
        Some(tokens) => {
            if tag >= 0 && (tag as usize) < tokens.len() {
                Some(TrayEvent::Menu(tokens[tag as usize].clone()))
            } else {
                None
            }
        },
        None => None,
    }
}

} // verus!
