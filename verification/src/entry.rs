use crate::menu::{
    children_of, forest_size, items_view, lemma_forest_size_add, lemma_forest_size_first,
    lemma_items_view, lemma_items_view_add, ItemView, Menu, MenuItem,
};
use crate::property::{lemma_put_new, Pairs, PropertyMap, PropertyValue, ValueView};
use std::collections::VecDeque;
use vstd::prelude::*;

verus! {

/// One row of the flat table that stands for a menu: the properties of an
/// item, the rows of its children and, for a button, its signal token.
#[derive(Debug, Clone)]
pub struct MenuEntry<T> {
    pub properties: PropertyMap,
    pub children: Vec<usize>,
    pub signal: Option<T>,
}

/// The mathematical value of a [`MenuEntry`].
pub ghost struct EntryView<T> {
    pub properties: Pairs,
    pub children: Seq<usize>,
    pub signal: Option<T>,
}

impl<T> View for MenuEntry<T> {
    type V = EntryView<T>;

    open spec fn view(&self) -> EntryView<T> {
        EntryView { properties: self.properties@, children: self.children@, signal: self.signal }
    }
}

/// The values of the rows of a table, in order.
pub open spec fn table_view<T>(entries: Seq<MenuEntry<T>>) -> Seq<EntryView<T>> {
    entries.map_values(|e: MenuEntry<T>| e@)
}

/// The `count` indices that begin at `start`.
pub open spec fn index_range(start: int, count: nat) -> Seq<usize> {
    Seq::new(count, |i: int| (start + i) as usize)
}

/// The properties that describe an item.
pub open spec fn item_properties<T>(item: ItemView<T>) -> Pairs {
    match item {
        ItemView::Separator => seq![("type"@, ValueView::Text("separator"@))],
        ItemView::Button { name, checked: Some(on), .. } => seq![
            ("label"@, ValueView::Text(name)),
            ("toggle-type"@, ValueView::Text("checkmark"@)),
            ("toggle-state"@, ValueView::Int(if on { 1i32 } else { 0i32 })),
        ],
        ItemView::Button { name, checked: None, .. } => seq![("label"@, ValueView::Text(name))],
        ItemView::Menu { name, .. } => seq![
            ("label"@, ValueView::Text(name)),
            ("children-display"@, ValueView::Text("submenu"@)),
        ],
    }
}

/// The signal token of a button; nothing for a separator or a submenu.
pub open spec fn item_signal<T>(item: ItemView<T>) -> Option<T> {
    match item {
        ItemView::Button { signal, .. } => Some(signal),
        _ => None,
    }
}

/// The row of an item whose children, if it has any, begin at row
/// `first_child`.
pub open spec fn item_entry<T>(item: ItemView<T>, first_child: int) -> EntryView<T> {
    EntryView {
        properties: item_properties(item),
        children: index_range(first_child, children_of(item).len()),
        signal: item_signal(item),
    }
}

/// The row that stands for the menu itself. Its children are the `top`
/// top-level items, in rows 1 to `top`.
pub open spec fn root_entry<T>(top: nat) -> EntryView<T> {
    EntryView {
        properties: seq![("children-display"@, ValueView::Text("submenu"@))],
        children: index_range(1, top),
        signal: None,
    }
}

/// The items in and below `queue` in breadth-first order: the first item of
/// the queue, then what follows once its children have joined the end of
/// the queue.
pub open spec fn breadth_first<T>(queue: Seq<ItemView<T>>) -> Seq<ItemView<T>>
    decreases forest_size(queue),
    via breadth_first_decreases::<T>
{
    if queue.len() == 0 {
        Seq::empty()
    } else {
        seq![queue[0]] + breadth_first(queue.drop_first() + children_of(queue[0]))
    }
}

#[via_fn]
proof fn breadth_first_decreases<T>(queue: Seq<ItemView<T>>) {
    if queue.len() > 0 {
        lemma_forest_size_first(queue);
        lemma_forest_size_add(queue.drop_first(), children_of(queue[0]));
    }
}

/// The number of rows that are taken once the first `n` items of `order`
/// have their rows: the root, the `top` top-level items and the children of
/// those `n` items.
pub open spec fn rows_taken<T>(top: nat, order: Seq<ItemView<T>>, n: int) -> int
    decreases n,
{
    if n <= 0 {
        1 + top as int
    } else {
        rows_taken(top, order, n - 1) + children_of(order[n - 1]).len()
    }
}

/// The table of a menu. Row 0 is the root. The items follow in
/// breadth-first order, and the children of each item take the next free
/// rows, in order.
pub open spec fn layout<T>(menu: Seq<ItemView<T>>) -> Seq<EntryView<T>> {
    let order = breadth_first(menu);
    Seq::new(
        1 + order.len(),
        |i: int|
            if i == 0 {
                root_entry(menu.len())
            } else {
                item_entry(order[i - 1], rows_taken(menu.len(), order, i - 1))
            },
    )
}

/// Breadth-first order lists every item once.
pub proof fn lemma_breadth_first_len<T>(queue: Seq<ItemView<T>>)
    ensures
        breadth_first(queue).len() == forest_size(queue),
    decreases forest_size(queue),
{
    if queue.len() > 0 {
        lemma_forest_size_first(queue);
        lemma_forest_size_add(queue.drop_first(), children_of(queue[0]));
        lemma_breadth_first_len(queue.drop_first() + children_of(queue[0]));
    }
}

/// A list of items is no longer than its size.
pub proof fn lemma_forest_size_len<T>(items: Seq<ItemView<T>>)
    ensures
        items.len() <= forest_size(items),
    decreases items.len(),
{
    if items.len() > 0 {
        lemma_forest_size_len(items.drop_last());
    }
}

/// The vector of the `count` indices that begin at `start`.
pub fn index_vec(start: usize, count: usize) -> (indices: Vec<usize>)
    requires
        start + count <= usize::MAX,
    ensures
        indices@ == index_range(start as int, count as nat),
{
    let mut indices: Vec<usize> = Vec::new();
    let mut i: usize = 0;
    while i < count
        invariant
            i <= count,
            start + count <= usize::MAX,
            indices@ == index_range(start as int, i as nat),
        decreases count - i,
    {
        indices.push(start + i);
        i += 1;
    }
    indices
}

/// Moves `items` to the end of `queue`, in order.
fn enqueue<T>(queue: &mut VecDeque<MenuItem<T>>, items: Vec<MenuItem<T>>)
    ensures
        final(queue)@ == old(queue)@ + items@,
{
    let ghost before = queue@;
    for item in it: items
        invariant
            queue@ == before + it.seq().take(it.index() as int),
            it.seq() == items@,
    {
        queue.push_back(item);
    }
}

/// The keys of the properties differ from one another.
pub proof fn lemma_keys_differ()
    ensures
        "type"@.len() == 4,
        "label"@.len() == 5,
        "toggle-type"@.len() == 11,
        "toggle-state"@.len() == 12,
        "children-display"@.len() == 16,
{
    reveal_strlit("type");
    reveal_strlit("label");
    reveal_strlit("toggle-type");
    reveal_strlit("toggle-state");
    reveal_strlit("children-display");
}

/// The properties of the root row.
fn root_properties() -> (properties: PropertyMap)
    ensures
        properties@ == root_entry::<()>(0).properties,
{
    let mut properties = PropertyMap::new();
    properties.insert("children-display".to_owned(), PropertyValue::Text("submenu".to_owned()));
    properties
}

/// The properties of a separator.
fn separator_properties() -> (properties: PropertyMap)
    ensures
        properties@ == item_properties(ItemView::<()>::Separator),
{
    let mut properties = PropertyMap::new();
    properties.insert("type".to_owned(), PropertyValue::Text("separator".to_owned()));
    properties
}

/// The properties of a button with this name and checkmark.
fn button_properties(name: String, checked: Option<bool>) -> (properties: PropertyMap)
    ensures
        properties@ == item_properties(ItemView::Button { name: name@, signal: (), checked }),
{
    let mut properties = PropertyMap::new();
    properties.insert("label".to_owned(), PropertyValue::Text(name));
    match checked {
        Some(on) => {
            let state: i32 = if on {
                1
            } else {
                0
            };
            proof {
                lemma_keys_differ();
                lemma_put_new(properties@, "toggle-type"@, ValueView::Text("checkmark"@));
            }
            properties.insert(
                "toggle-type".to_owned(),
                PropertyValue::Text("checkmark".to_owned()),
            );
            proof {
                lemma_put_new(properties@, "toggle-state"@, ValueView::Int(state));
            }
            properties.insert("toggle-state".to_owned(), PropertyValue::Int(state));
        },
        None => {},
    }
    properties
}

/// The properties of a submenu with this name.
fn submenu_properties(name: String) -> (properties: PropertyMap)
    ensures
        properties@ == item_properties(
            ItemView::<()>::Menu { name: name@, children: Seq::empty() },
        ),
{
    let mut properties = PropertyMap::new();
    properties.insert("label".to_owned(), PropertyValue::Text(name));
    proof {
        lemma_keys_differ();
        lemma_put_new(properties@, "children-display"@, ValueView::Text("submenu"@));
    }
    properties.insert("children-display".to_owned(), PropertyValue::Text("submenu".to_owned()));
    properties
}

/// The row at which the children of row `i` begin in a table that is laid
/// out breadth first: the row behind the root and the children of all rows
/// before `i`.
pub open spec fn first_child<T>(table: Seq<EntryView<T>>, i: int) -> int
    decreases i,
{
    if i <= 0 {
        1
    } else {
        first_child(table, i - 1) + table[i - 1].children.len()
    }
}

/// Whether `table` has the shape of a menu laid out breadth first: the
/// children of each row stand in adjacent rows behind it, the children of a
/// later row behind those of an earlier one, and every row but the root is
/// the child of one row.
pub open spec fn is_layout<T>(table: Seq<EntryView<T>>) -> bool {
    &&& 0 < table.len() <= usize::MAX
    &&& first_child(table, table.len() as int) == table.len()
    &&& forall|i: int|
        0 <= i < table.len() ==> i < #[trigger] first_child(table, i) && table[i].children
            == index_range(first_child(table, i), table[i].children.len())
}

/// Whether every row that `table` names as a child lies behind its parent and
/// within the table.
pub open spec fn children_in_range<T>(table: Seq<EntryView<T>>) -> bool {
    forall|i: int, k: int|
        0 <= i < table.len() && 0 <= k < table[i].children.len() ==> i < (
        #[trigger] table[i].children[k]) < table.len()
}

/// The children of a later row begin no earlier than those of an earlier row.
pub proof fn lemma_first_child_grows<T>(table: Seq<EntryView<T>>, i: int, j: int)
    requires
        0 <= i <= j,
    ensures
        first_child(table, i) <= first_child(table, j),
    decreases j - i,
{
    if i < j {
        lemma_first_child_grows(table, i, j - 1);
    }
}

/// In a table that is laid out breadth first, the children of every row lie
/// behind it and within the table.
pub proof fn lemma_layout_in_range<T>(table: Seq<EntryView<T>>)
    requires
        is_layout(table),
    ensures
        children_in_range(table),
{
    assert forall|i: int, k: int|
        0 <= i < table.len() && 0 <= k < table[i].children.len() implies i < (
    #[trigger] table[i].children[k]) < table.len() by {
        assert(i < first_child(table, i));
        lemma_first_child_grows(table, i + 1, table.len() as int);
    }
}

/// While a menu is laid out, the rows that are taken stay ahead of the items
/// that have their rows: an item gets its row only once its parent has one.
proof fn lemma_rows_taken<T>(
    top: nat,
    order: Seq<ItemView<T>>,
    done: Seq<ItemView<T>>,
    queue: Seq<ItemView<T>>,
)
    requires
        done + breadth_first(queue) == order,
        rows_taken(top, order, done.len() as int) == 1 + done.len() + queue.len(),
    ensures
        rows_taken(top, order, order.len() as int) == 1 + order.len(),
        forall|n: int| done.len() <= n < order.len() ==> n + 1 < #[trigger] rows_taken(top, order, n),
    decreases forest_size(queue),
{
    if queue.len() == 0 {
    } else {
        let next = queue.drop_first() + children_of(queue[0]);
        lemma_forest_size_first(queue);
        lemma_forest_size_add(queue.drop_first(), children_of(queue[0]));
        assert(done.push(queue[0]) + breadth_first(next) =~= done + breadth_first(queue));
        lemma_rows_taken(top, order, done.push(queue[0]), next);
    }
}

/// The table of a menu is laid out breadth first.
pub proof fn lemma_layout_is_layout<T>(menu: Seq<ItemView<T>>)
    requires
        forest_size(menu) < usize::MAX,
    ensures
        is_layout(layout(menu)),
        children_in_range(layout(menu)),
        layout(menu).len() == 1 + forest_size(menu),
{
    let table = layout(menu);
    let order = breadth_first(menu);
    let top = menu.len();
    lemma_breadth_first_len(menu);
    lemma_rows_taken(top, order, Seq::empty(), menu);
    assert forall|i: int| 1 <= i <= table.len() implies #[trigger] first_child(table, i)
        == rows_taken(top, order, i - 1) by {
        lemma_first_child_of_layout(menu, i);
    }
    lemma_layout_in_range(table);
}

/// In the table of a menu, the children of row `i` begin where the rows end
/// that were taken before the item of row `i` got its children.
proof fn lemma_first_child_of_layout<T>(menu: Seq<ItemView<T>>, i: int)
    requires
        1 <= i <= layout(menu).len(),
    ensures
        first_child(layout(menu), i) == rows_taken(menu.len(), breadth_first(menu), i - 1),
    decreases i,
{
    let table = layout(menu);
    if i == 1 {
        assert(first_child(table, 0) == 1);
    } else {
        lemma_first_child_of_layout(menu, i - 1);
    }
}

/// Lays a menu out as a table. Row 0 is the root; the items follow in
/// breadth-first order, so that the children of an item stand in adjacent
/// rows behind the row of the item.
pub fn build_menu<T>(menu: Menu<T>) -> (entries: Vec<MenuEntry<T>>)
    requires
        forest_size(menu@) < usize::MAX,
    ensures
        table_view(entries@) == layout(menu@),
        is_layout(table_view(entries@)),
        children_in_range(table_view(entries@)),
{
    proof {
        lemma_layout_is_layout(menu@);
    }
    let ghost top = menu@.len();
    let ghost order = breadth_first(menu@);
    let ghost table = layout(menu@);
    let items = menu.into_items();
    proof {
        lemma_forest_size_len(menu@);
        lemma_items_view(items@);
    }
    let mut entries: Vec<MenuEntry<T>> = Vec::new();
    entries.push(
        MenuEntry { properties: root_properties(), children: index_vec(1, items.len()), signal: None },
    );
    let mut queue: VecDeque<MenuItem<T>> = VecDeque::new();
    enqueue(&mut queue, items);
    let ghost mut done: Seq<ItemView<T>> = Seq::empty();
    while queue.len() > 0
        invariant
            top == menu@.len(),
            order == breadth_first(menu@),
            table == layout(menu@),
            order.len() == forest_size(menu@),
            order.len() < usize::MAX,
            done + breadth_first(items_view(queue@)) == order,
            entries@.len() == 1 + done.len(),
            table_view(entries@) == table.take(1 + done.len() as int),
            1 + done.len() + queue@.len() == rows_taken(top, order, done.len() as int),
        decreases order.len() - done.len(),
    {
        let ghost waiting = items_view(queue@);
        let ghost n = done.len() as int;
        proof {
            lemma_items_view(queue@);
        }
        let item = queue.pop_front().unwrap();
        let ghost rest = items_view(queue@);
        let ghost next = rest + children_of(item@);
        proof {
            lemma_items_view(queue@);
            assert(rest =~= waiting.drop_first());
            lemma_breadth_first_len(next);
            lemma_forest_size_len(next);
        }
        let entry = match item {
            MenuItem::Separator => MenuEntry {
                properties: separator_properties(),
                children: Vec::new(),
                signal: None,
            },
            MenuItem::Button { name, signal, checked } => MenuEntry {
                properties: button_properties(name, checked),
                children: Vec::new(),
                signal: Some(signal),
            },
            MenuItem::Menu { name, children } => {
                let start = 1 + entries.len() + queue.len();
                let count = children.len();
                proof {
                    lemma_items_view(children@);
                    lemma_items_view_add(queue@, children@);
                }
                enqueue(&mut queue, children);
                MenuEntry {
                    properties: submenu_properties(name),
                    children: index_vec(start, count),
                    signal: None,
                }
            },
        };
        proof {
            assert(entry@.children =~= index_range(
                rows_taken(top, order, n),
                children_of(item@).len(),
            ));
        }
        let ghost before = entries@;
        entries.push(entry);
        proof {
            done = done.push(item@);
        }
    }
    entries
}

} // verus!
