use vstd::prelude::*;

verus! {

/// How the user clicked on the tray icon.
#[derive(Debug, Copy, Clone, PartialEq, Eq, Structural)]
pub enum ClickType {
    Left,
    Right,
    Double,
}

/// What the user did with the tray icon or with its menu.
///
/// `Menu` carries a copy of the signal token of the item that was activated.
#[derive(Debug, Copy, Clone, PartialEq, Eq)]
pub enum TrayEvent<T> {
    Tray(ClickType),
    Menu(T),
}

/// One item of a menu.
#[derive(Debug, PartialEq, Eq)]
pub enum MenuItem<T> {
    Separator,
    Button { name: String, signal: T, checked: Option<bool> },
    Menu { name: String, children: Vec<MenuItem<T>> },
}

/// The mathematical value of a [`MenuItem`]: names are character sequences
/// and child lists are sequences.
pub ghost enum ItemView<T> {
    Separator,
    Button { name: Seq<char>, signal: T, checked: Option<bool> },
    Menu { name: Seq<char>, children: Seq<ItemView<T>> },
}

/// The values of a list of items, in order.
pub open spec fn items_view<T>(items: Seq<MenuItem<T>>) -> Seq<ItemView<T>>
    decreases items,
{
    if items.len() == 0 {
        Seq::empty()
    } else {
        items_view(items.drop_last()).push(items.last().view())
    }
}

impl<T> View for MenuItem<T> {
    type V = ItemView<T>;

    open spec fn view(&self) -> ItemView<T>
        decreases self,
    {
        match self {
            MenuItem::Separator => ItemView::Separator,
            MenuItem::Button { name, signal, checked } => ItemView::Button {
                name: name@,
                signal: *signal,
                checked: *checked,
            },
            MenuItem::Menu { name, children } => ItemView::Menu {
                name: name@,
                children: items_view(children@),
            },
        }
    }
}

/// The values of a list of items are the values of its items, place by place.
pub proof fn lemma_items_view<T>(items: Seq<MenuItem<T>>)
    ensures
        items_view(items).len() == items.len(),
        forall|i: int| 0 <= i < items.len() ==> (#[trigger] items_view(items)[i]) == items[i]@,
    decreases items.len(),
{
    if items.len() > 0 {
        let front = items.drop_last();
        lemma_items_view(front);
        assert(items_view(items) == items_view(front).push(items.last()@));
    }
}

/// The values of the first `n + 1` items are those of the first `n` and that
/// of the item at place `n`.
pub proof fn lemma_items_view_take<T>(items: Seq<MenuItem<T>>, n: int)
    requires
        0 <= n < items.len(),
    ensures
        items_view(items.take(n + 1)) == items_view(items.take(n)).push(items[n]@),
{
    assert(items.take(n + 1).drop_last() =~= items.take(n));
}

/// The items below `item`: the children of a submenu, nothing for a button
/// or a separator.
pub open spec fn children_of<T>(item: ItemView<T>) -> Seq<ItemView<T>> {
    match item {
        ItemView::Menu { children, .. } => children,
        _ => Seq::empty(),
    }
}

/// The number of items in `items` and below them.
pub open spec fn forest_size<T>(items: Seq<ItemView<T>>) -> nat
    decreases items,
{
    if items.len() == 0 {
        0
    } else {
        forest_size(items.drop_last()) + 1 + match items.last() {
            ItemView::Menu { children, .. } => forest_size(children),
            _ => 0,
        }
    }
}

/// The size of a list is that of its last item, with what lies below it, and
/// of the items before it.
pub proof fn lemma_forest_size_last<T>(items: Seq<ItemView<T>>)
    requires
        items.len() > 0,
    ensures
        forest_size(items) == forest_size(items.drop_last()) + 1 + forest_size(
            children_of(items.last()),
        ),
{
}

/// The size of two lists of items is the sum of their sizes.
pub proof fn lemma_forest_size_add<T>(a: Seq<ItemView<T>>, b: Seq<ItemView<T>>)
    ensures
        forest_size(a + b) == forest_size(a) + forest_size(b),
    decreases b.len(),
{
    if b.len() == 0 {
    } else {
        assert((a + b).drop_last() =~= a + b.drop_last());
        lemma_forest_size_add(a, b.drop_last());
    }
}

/// The size of a list is that of its first item, with what lies below it,
/// and of the rest.
pub proof fn lemma_forest_size_first<T>(items: Seq<ItemView<T>>)
    requires
        items.len() > 0,
    ensures
        forest_size(items) == 1 + forest_size(children_of(items[0])) + forest_size(
            items.drop_first(),
        ),
{
    assert(items =~= seq![items[0]] + items.drop_first());
    lemma_forest_size_add(seq![items[0]], items.drop_first());
    lemma_forest_size_last(seq![items[0]]);
}

impl<T> MenuItem<T> {
    /// A separator.
    pub fn separator() -> (item: Self)
        ensures
            item@ == ItemView::<T>::Separator,
    {
        MenuItem::Separator
    }

    /// A clickable item without a checkmark. A click on it is reported with
    /// `signal`.
    pub fn button(name: &str, signal: T) -> (item: Self)
        ensures
            item@ == (ItemView::Button { name: name@, signal, checked: None }),
    {
        MenuItem::Button { name: name.to_owned(), signal, checked: None }
    }

    /// A clickable item with a checkmark that is set or not. A click on it is
    /// reported with `signal`.
    pub fn check_button(name: &str, signal: T, checked: bool) -> (item: Self)
        ensures
            item@ == (ItemView::Button { name: name@, signal, checked: Some(checked) }),
    {
        MenuItem::Button { name: name.to_owned(), signal, checked: Some(checked) }
    }

    /// A submenu with the given items.
    pub fn menu(name: &str, children: Vec<MenuItem<T>>) -> (item: Self)
        ensures
            item@ == (ItemView::Menu { name: name@, children: items_view(children@) }),
    {
        MenuItem::Menu { name: name.to_owned(), children }
    }
}

/// Copies of `items`, in order.
fn clone_items<T: Clone>(items: &Vec<MenuItem<T>>) -> (copies: Vec<MenuItem<T>>)
    ensures
        copies@.len() == items@.len(),
    decreases items,
{
    let mut copies: Vec<MenuItem<T>> = Vec::new();
    let mut i: usize = 0;
    while i < items.len()
        invariant
            i <= items@.len(),
            copies@.len() == i,
        decreases items@.len() - i,
    {
        let copy = match &items[i] {
            MenuItem::Separator => MenuItem::Separator,
            MenuItem::Button { name, signal, checked } => MenuItem::Button {
                name: name.clone(),
                signal: signal.clone(),
                checked: *checked,
            },
            MenuItem::Menu { name, children } => MenuItem::Menu {
                name: name.clone(),
                children: clone_items(children),
            },
        };
        copies.push(copy);
        i += 1;
    }
    copies
}

impl<T: Clone> Clone for MenuItem<T> {
    fn clone(&self) -> (copy: Self) {
        match self {
            MenuItem::Separator => MenuItem::Separator,
            MenuItem::Button { name, signal, checked } => MenuItem::Button {
                name: name.clone(),
                signal: signal.clone(),
                checked: *checked,
            },
            MenuItem::Menu { name, children } => MenuItem::Menu {
                name: name.clone(),
                children: clone_items(children),
            },
        }
    }
}

impl<T: Clone> Clone for Menu<T> {
    fn clone(&self) -> (copy: Self) {
        Menu { items: clone_items(&self.items) }
    }
}

/// The layout of a tray icon's menu: its top-level items, in order.
#[derive(Debug, PartialEq, Eq)]
pub struct Menu<T> {
    items: Vec<MenuItem<T>>,
}

impl<T> View for Menu<T> {
    type V = Seq<ItemView<T>>;

    closed spec fn view(&self) -> Seq<ItemView<T>> {
        items_view(self.items@)
    }
}

impl<T> Menu<T> {
    /// A menu with the given top-level items.
    pub fn new(items: Vec<MenuItem<T>>) -> (menu: Self)
        ensures
            menu@ == items_view(items@),
    {
        Menu { items }
    }

    /// A menu without items.
    pub fn empty() -> (menu: Self)
        ensures
            menu@ == Seq::<ItemView<T>>::empty(),
    {
        Menu { items: Vec::new() }
    }

    /// The top-level items.
    pub fn into_items(self) -> (items: Vec<MenuItem<T>>)
        ensures
            items_view(items@) == self@,
    {
        self.items
    }

    /// Whether a table has room for the menu: a row for every item and one
    /// for the root.
    pub fn fits_table(&self) -> (fits: bool)
        ensures
            fits == (forest_size(self@) < usize::MAX),
    {
        match count_items(&self.items) {
            Some(n) => n < usize::MAX,
            None => false,
        }
    }

    /// The number of items in the menu, submenus and their items included;
    /// `None` where it does not fit the machine's word.
    pub fn item_count(&self) -> (count: Option<usize>)
        ensures
            match count {
                Some(n) => n == forest_size(self@),
                None => forest_size(self@) > usize::MAX,
            },
    {
        count_items(&self.items)
    }
}

/// The number of items in `items` and below them; `None` where it does not
/// fit the machine's word.
pub fn count_items<T>(items: &Vec<MenuItem<T>>) -> (count: Option<usize>)
    ensures
        match count {
            Some(n) => n == forest_size(items_view(items@)),
            None => forest_size(items_view(items@)) > usize::MAX,
        },
    decreases items,
{
    let mut total: usize = 0;
    let mut i: usize = 0;
    while i < items.len()
        invariant
            i <= items.len(),
            total == forest_size(items_view(items@.take(i as int))),
        decreases items.len() - i,
    {
        proof {
            lemma_items_view(items@);
            lemma_items_view_take(items@, i as int);
            lemma_items_view_prefix(items@, i as int + 1);
            lemma_forest_size_prefix(items_view(items@), i as int + 1);
            assert(items_view(items@.take(i as int + 1)).drop_last() =~= items_view(
                items@.take(i as int),
            ));
        }
        let below: usize = match &items[i] {
            MenuItem::Menu { children, .. } => match count_items(children) {
                Some(n) => n,
                None => {
                    return None;
                },
            },
            _ => 0,
        };
        if below == usize::MAX || total > usize::MAX - below - 1 {
            return None;
        }
        total = total + below + 1;
        i += 1;
    }
    assert(items@.take(i as int) =~= items@);
    Some(total)
}

/// The values of two lists, one behind the other.
pub proof fn lemma_items_view_add<T>(a: Seq<MenuItem<T>>, b: Seq<MenuItem<T>>)
    ensures
        items_view(a + b) == items_view(a) + items_view(b),
{
    lemma_items_view(a);
    lemma_items_view(b);
    lemma_items_view(a + b);
}

/// The values of the first `n` items are the first `n` values.
pub proof fn lemma_items_view_prefix<T>(items: Seq<MenuItem<T>>, n: int)
    requires
        0 <= n <= items.len(),
    ensures
        items_view(items.take(n)) == items_view(items).take(n),
{
    lemma_items_view(items);
    lemma_items_view(items.take(n));
}

/// A list is at least as large as each of its prefixes.
pub proof fn lemma_forest_size_prefix<T>(items: Seq<ItemView<T>>, n: int)
    requires
        0 <= n <= items.len(),
    ensures
        forest_size(items.take(n)) <= forest_size(items),
{
    assert(items =~= items.take(n) + items.skip(n));
    lemma_forest_size_add(items.take(n), items.skip(n));
}

} // verus!
