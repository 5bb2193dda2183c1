use crate::diff::{
    changed_root, generate_diff, removals_view, removed_rows, updated_rows, updates_view,
};
use crate::entry::{
    breadth_first, build_menu, is_layout, layout, lemma_layout_in_range, table_view, EntryView,
    MenuEntry,
};
use crate::menu::{forest_size, ClickType, ItemView, Menu, TrayEvent};
use crate::property::{lookup, strs_view, PropertyMap, PropertyValue};
use crate::query::{
    get_group_properties, get_layout, get_property, is_named, node_of, row_of, row_properties,
    rows_view, LayoutNode,
};
use vstd::prelude::*;

verus! {

/// Whether `answer` is what an event on row `id` calls for: a click on a
/// button calls for its signal token, the opening of the root for a click on
/// the tray icon, and anything else for nothing.
pub open spec fn is_answer<T: Clone>(
    table: Seq<EntryView<T>>,
    id: int,
    event_id: Seq<char>,
    answer: Option<TrayEvent<T>>,
) -> bool {
    if event_id == "clicked"@ {
        if 0 <= id < table.len() && table[id].signal is Some {
            answer matches Some(TrayEvent::Menu(token)) && cloned(table[id].signal->0, token)
        } else {
            answer is None
        }
    } else if event_id == "opened"@ && id == 0 {
        answer == Some(TrayEvent::<T>::Tray(ClickType::Left))
    } else {
        answer is None
    }
}

/// What an event on row `id` calls for. A click on a button calls for a copy
/// of its signal token; a click on a separator, on a submenu or on no row
/// calls for nothing. The opening of the root counts as a click on the tray
/// icon. Every other event calls for nothing.
pub fn event<T: Clone>(entries: &Vec<MenuEntry<T>>, id: i32, event_id: &str, _timestamp: u32) -> (answer:
    Option<TrayEvent<T>>)
    ensures
        is_answer(table_view(entries@), id as int, event_id@, answer),
{
    proof {
        reveal_strlit("clicked");
        reveal_strlit("opened");
    }
    if event_id.eq("clicked") {
        match row_of(entries, id) {
            None => None,
            Some(row) => match &entries[row].signal {
                Some(signal) => Some(TrayEvent::Menu(signal.clone())),
                None => None,
            },
        }
    } else if event_id.eq("opened") && id == 0 {
        Some(TrayEvent::Tray(ClickType::Left))
    } else {
        None
    }
}

/// What each of `events` calls for, in order.
pub fn event_group<T: Clone>(entries: &Vec<MenuEntry<T>>, events: &Vec<(i32, &str, u32)>) -> (answers:
    Vec<Option<TrayEvent<T>>>)
    ensures
        answers@.len() == events@.len(),
        forall|k: int|
            0 <= k < events@.len() ==> is_answer(
                table_view(entries@),
                events@[k].0 as int,
                events@[k].1@,
                #[trigger] answers@[k],
            ),
{
    let mut answers: Vec<Option<TrayEvent<T>>> = Vec::new();
    let mut k: usize = 0;
    while k < events.len()
        invariant
            k <= events@.len(),
            answers@.len() == k,
            forall|j: int|
                0 <= j < k ==> is_answer(
                    table_view(entries@),
                    events@[j].0 as int,
                    events@[j].1@,
                    #[trigger] answers@[j],
                ),
        decreases events@.len() - k,
    {
        let answer = event(entries, events[k].0, events[k].1, events[k].2);
        answers.push(answer);
        k += 1;
    }
    answers
}

/// In the table of a menu, an event on the root, on a separator or on a
/// submenu calls for no signal token, whatever the event is.
pub proof fn lemma_only_buttons_answer<T: Clone>(
    menu: Seq<ItemView<T>>,
    id: int,
    event_id: Seq<char>,
    answer: Option<TrayEvent<T>>,
)
    requires
        is_answer(layout(menu), id, event_id, answer),
        0 <= id < layout(menu).len(),
        id == 0 || !(breadth_first(menu)[id - 1] is Button),
    ensures
        !(answer matches Some(TrayEvent::Menu(_))),
{
}

/// In the table of a menu, a click on a button calls for a copy of the signal
/// token that the button was given.
pub proof fn lemma_click_answers_with_token<T: Clone>(
    menu: Seq<ItemView<T>>,
    id: int,
    answer: Option<TrayEvent<T>>,
)
    requires
        is_answer(layout(menu), id, "clicked"@, answer),
        0 < id < layout(menu).len(),
        breadth_first(menu)[id - 1] is Button,
    ensures
        answer matches Some(TrayEvent::Menu(token)) && cloned(
            breadth_first(menu)[id - 1]->Button_signal,
            token,
        ),
{
}

/// What has to be sent after a menu was replaced.
#[derive(Debug)]
pub struct MenuUpdate {
    /// The new revision and the row whose structure changed, where one did.
    pub layout: Option<(u32, usize)>,
    /// The rows with the properties that are new or have another value.
    pub updated: Vec<(usize, PropertyMap)>,
    /// The rows with the keys that are gone.
    pub removed: Vec<(usize, Vec<String>)>,
}

impl MenuUpdate {
    /// Whether properties have to be reported.
    pub fn has_property_changes(&self) -> (any: bool)
        ensures
            any == (self.updated@.len() > 0 || self.removed@.len() > 0),
    {
        self.updated.len() > 0 || self.removed.len() > 0
    }
}

/// The menu of a tray icon as others see it: the table of its rows and the
/// revision of its layout.
pub struct DBusMenu<T> {
    revision: u32,
    entries: Vec<MenuEntry<T>>,
}

impl<T> DBusMenu<T> {
    #[verifier::type_invariant]
    spec fn laid_out(&self) -> bool {
        is_layout(table_view(self.entries@))
    }

    /// The table of the menu.
    pub closed spec fn table(&self) -> Seq<EntryView<T>> {
        table_view(self.entries@)
    }

    /// The revision of the layout.
    pub closed spec fn revision(&self) -> u32 {
        self.revision
    }

    /// The menu `menu` at revision 0.
    pub fn new(menu: Menu<T>) -> (served: Self)
        requires
            forest_size(menu@) < usize::MAX,
        ensures
            served.table() == layout(menu@),
            served.revision() == 0,
    {
        DBusMenu { revision: 0, entries: build_menu(menu) }
    }

    /// The rows of the menu.
    pub fn entries(&self) -> (entries: &Vec<MenuEntry<T>>)
        ensures
            table_view(entries@) == self.table(),
            is_layout(self.table()),
    {
        proof {
            use_type_invariant(self);
        }
        &self.entries
    }

    /// The revision of the layout.
    pub fn current_revision(&self) -> (revision: u32)
        ensures
            revision == self.revision(),
    {
        self.revision
    }

    /// Replaces the menu by `menu` and tells what has to be sent to those who
    /// know the menu as it was. The revision goes up by one, and from the
    /// largest back to 0, where a row changed in its structure; else it stays.
    pub fn update_menu(&mut self, menu: Menu<T>) -> (update: MenuUpdate)
        requires
            forest_size(menu@) < usize::MAX,
        ensures
            final(self).table() == layout(menu@),
            match changed_root(old(self).table(), layout(menu@)) {
                Some(parent) => final(self).revision() == (if old(self).revision() == u32::MAX {
                    0
                } else {
                    old(self).revision() + 1
                }) && update.layout == Some((final(self).revision(), parent)),
                None => final(self).revision() == old(self).revision() && update.layout
                    == None::<(u32, usize)>,
            },
            updates_view(update.updated@) == updated_rows(old(self).table(), layout(menu@)),
            removals_view(update.removed@) == removed_rows(old(self).table(), layout(menu@)),
    {
        proof {
            use_type_invariant(&*self);
        }
        let entries = build_menu(menu);
        let (root, updated, removed) = generate_diff(&entries, &self.entries);
        let layout = match root {
            Some(parent) => {
                let revision = self.revision.wrapping_add(1);
                self.revision = revision;
                Some((revision, parent))
            },
            None => None,
        };
        self.entries = entries;
        MenuUpdate { layout, updated, removed }
    }

    /// The revision, and row `parent_id` with the properties among
    /// `property_names` and the rows below it down to `recursion_depth`
    /// levels, all of them where `recursion_depth` is negative; `None` where
    /// `parent_id` names no row.
    pub fn get_layout(&self, parent_id: i32, recursion_depth: i32, property_names: &[&str]) -> (layout:
        Option<(u32, LayoutNode)>)
        ensures
            match layout {
                Some((revision, node)) => revision == self.revision() && 0 <= parent_id
                    < self.table().len() && node@ == node_of(
                    self.table(),
                    parent_id as usize,
                    strs_view(property_names@),
                    if recursion_depth < 0 {
                        u32::MAX as nat
                    } else {
                        recursion_depth as nat
                    },
                ),
                None => parent_id < 0 || parent_id >= self.table().len(),
            },
    {
        proof {
            use_type_invariant(self);
            lemma_layout_in_range(self.table());
        }
        match get_layout(&self.entries, parent_id, recursion_depth, property_names) {
            Some(node) => Some((self.revision, node)),
            None => None,
        }
    }

    /// The rows that `ids` names, every row where `ids` is empty, each with
    /// its properties among `property_names`.
    pub fn get_group_properties(&self, ids: &Vec<i32>, property_names: &[&str]) -> (group: Vec<
        (usize, PropertyMap),
    >)
        ensures
            rows_view(group@) == row_properties(
                self.table(),
                strs_view(property_names@),
                self.table().len(),
            ).filter(is_named(ids@)),
    {
        get_group_properties(&self.entries, ids, property_names)
    }

    /// The value that row `id` gives to the property `name`; `None` where
    /// `id` names no row or the row lacks the property.
    pub fn get_property(&self, id: i32, name: &str) -> (value: Option<PropertyValue>)
        ensures
            match value {
                Some(v) => 0 <= id < self.table().len() && lookup(
                    self.table()[id as int].properties,
                    name@,
                ) == Some(v@),
                None => id < 0 || id >= self.table().len() || lookup(
                    self.table()[id as int].properties,
                    name@,
                ) is None,
            },
    {
        get_property(&self.entries, id, name)
    }

    /// Whether the menu has to be updated before row `id` is shown: never.
    pub fn about_to_show(&self, _id: i32) -> (update: bool)
        ensures
            !update,
    {
        false
    }

    /// The rows among `ids` that have to be updated before they are shown,
    /// and those that were not found: none of either.
    pub fn about_to_show_group(&self, _ids: &Vec<i32>) -> (answer: (Vec<i32>, Vec<i32>))
        ensures
            answer.0@.len() == 0,
            answer.1@.len() == 0,
    {
        (Vec::new(), Vec::new())
    }

    /// The places in which icons are looked for: none.
    pub fn icon_theme_path(&self) -> (path: Vec<String>)
        ensures
            path@.len() == 0,
    {
        Vec::new()
    }

    /// The state of the menu.
    pub fn status(&self) -> (status: String)
        ensures
            status@ == "normal"@,
    {
        "normal".to_owned()
    }

    /// The direction in which the labels are read.
    pub fn text_direction(&self) -> (direction: String)
        ensures
            direction@ == "ltr"@,
    {
        "ltr".to_owned()
    }

    /// The version of the protocol that is spoken.
    pub fn version(&self) -> (version: u32)
        ensures
            version == 3,
    {
        3
    }
}

impl<T: Clone> DBusMenu<T> {
    /// What an event on row `id` calls for.
    pub fn event(&self, id: i32, event_id: &str, timestamp: u32) -> (answer: Option<TrayEvent<T>>)
        ensures
            is_answer(self.table(), id as int, event_id@, answer),
    {
        event(&self.entries, id, event_id, timestamp)
    }

    /// What each of `events` calls for, in order.
    pub fn event_group(&self, events: &Vec<(i32, &str, u32)>) -> (answers: Vec<
        Option<TrayEvent<T>>,
    >)
        ensures
            answers@.len() == events@.len(),
            forall|k: int|
                0 <= k < events@.len() ==> is_answer(
                    self.table(),
                    events@[k].0 as int,
                    events@[k].1@,
                    #[trigger] answers@[k],
                ),
    {
        event_group(&self.entries, events)
    }
}

} // verus!
