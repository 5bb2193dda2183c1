use crate::diff::{
    changed_root, common_root, has_keys, has_pairs, is_common_root, lemma_common_root_is_root,
    lemma_common_root_unique, removed_rows, row_removals, row_updates, rows_distinct, shared_rows,
    structure_changed, updated_rows,
};
use crate::entry::{is_layout, item_properties, lemma_keys_differ, EntryView};
use crate::menu::ItemView;
use crate::property::{
    differs_from, distinct_keys, lemma_filter_none, lemma_lookup_distinct, lemma_same_pairs,
    missing_in, removed_keys, updated_pairs, ValueView,
};
use vstd::prelude::*;

verus! {

/// The name of an item; a separator has none.
pub open spec fn name_of<T>(item: ItemView<T>) -> Option<Seq<char>> {
    match item {
        ItemView::Separator => None,
        ItemView::Button { name, .. } => Some(name),
        ItemView::Menu { name, .. } => Some(name),
    }
}

/// An item under another name; a separator stays what it is.
pub open spec fn renamed<T>(item: ItemView<T>, name: Seq<char>) -> ItemView<T> {
    match item {
        ItemView::Separator => ItemView::Separator,
        ItemView::Button { signal, checked, .. } => ItemView::Button { name, signal, checked },
        ItemView::Menu { children, .. } => ItemView::Menu { name, children },
    }
}

/// A list of which one element alone passes a test holds that element alone
/// once it is filtered.
pub proof fn lemma_filter_one<A>(s: Seq<A>, pred: spec_fn(A) -> bool, i: int)
    requires
        0 <= i < s.len(),
        pred(s[i]),
        forall|j: int| 0 <= j < s.len() && j != i ==> !pred(#[trigger] s[j]),
    ensures
        s.filter(pred) == seq![s[i]],
{
    let before = s.take(i);
    let after = s.skip(i + 1);
    lemma_filter_none(before, pred);
    lemma_filter_none(after, pred);
    before.lemma_filter_push(s[i], pred);
    Seq::filter_distributes_over_add(before.push(s[i]), after, pred);
    assert(before.push(s[i]) + after =~= s);
    assert(before.push(s[i]).filter(pred) + after.filter(pred) =~= seq![s[i]]);
}

/// Where an item gets another name, the property `label` alone has another
/// value, and no key is gone.
pub proof fn lemma_rename_updates_label<T>(item: ItemView<T>, name: Seq<char>)
    requires
        !(item is Separator),
        name_of(item) != Some(name),
    ensures
        updated_pairs(item_properties(item), item_properties(renamed(item, name))) == seq![
            ("label"@, ValueView::Text(name)),
        ],
        removed_keys(item_properties(item), item_properties(renamed(item, name))) == Seq::<
            Seq<char>,
        >::empty(),
{
    let old = item_properties(item);
    let new = item_properties(renamed(item, name));
    lemma_keys_differ();
    assert(old.len() == new.len());
    assert(distinct_keys(old));
    assert(distinct_keys(new));
    assert forall|j: int| 0 <= j < new.len() && j != 0 implies !differs_from(old)(
        #[trigger] new[j],
    ) by {
        lemma_lookup_distinct(old, j);
        assert(old[j] == new[j]);
    }
    assert(differs_from(old)(new[0])) by {
        lemma_lookup_distinct(old, 0);
    }
    lemma_filter_one(new, differs_from(old), 0);
    assert forall|j: int| 0 <= j < old.len() implies !missing_in(new)(#[trigger] old[j]) by {
        lemma_lookup_distinct(new, j);
        assert(old[j].0 == new[j].0);
    }
    lemma_filter_none(old, missing_in(new));
    assert(removed_keys(old, new) =~= Seq::<Seq<char>>::empty());
}

/// Where the lists of children of every row stay, no row is reported as
/// changed in its structure.
pub proof fn lemma_same_structure_is_no_signal<T>(old: Seq<EntryView<T>>, new: Seq<EntryView<T>>)
    requires
        forall|j: int|
            0 <= j < shared_rows(old, new) ==> (#[trigger] new[j]).children == old[j].children,
    ensures
        changed_root(old, new) == None::<usize>,
{
    assert(structure_changed(old, new) =~= Set::<usize>::empty());
}

/// Where the list of children of one row alone differs, that row is reported
/// as changed in its structure, not the root above it.
pub proof fn lemma_one_change_reports_its_row<T>(
    old: Seq<EntryView<T>>,
    new: Seq<EntryView<T>>,
    row: usize,
)
    requires
        row < shared_rows(old, new),
        new[row as int].children != old[row as int].children,
        forall|j: int|
            0 <= j < shared_rows(old, new) && j != row ==> (#[trigger] new[j]).children
                == old[j].children,
    ensures
        changed_root(old, new) == Some(row),
{
    let changed = structure_changed(old, new);
    assert(changed.contains(row));
    assert forall|a: usize| changed.contains(a) implies a == row by {
        if a != row {
            assert(new[a as int].children == old[a as int].children);
        }
    }
    assert(changed.contains(changed.choose()));
}

/// Where the lists of children of two rows or more differ, and the new table
/// is laid out breadth first, the root is reported as changed in its
/// structure: it is the first row that has them all in and below it.
pub proof fn lemma_several_changes_report_the_root<T>(
    old: Seq<EntryView<T>>,
    new: Seq<EntryView<T>>,
    a: usize,
    b: usize,
)
    requires
        is_layout(new),
        a < b < shared_rows(old, new),
        new[a as int].children != old[a as int].children,
        new[b as int].children != old[b as int].children,
    ensures
        changed_root(old, new) == Some(0usize),
{
    let changed = structure_changed(old, new);
    assert(changed.contains(a));
    assert(changed.contains(b));
    lemma_common_root_is_root(new, changed);
    assert(is_common_root(new, changed, 0usize as int));
    lemma_common_root_unique(new, changed, common_root(new, changed) as int, 0);
}

/// Where one row alone has other properties, and among them one that is new
/// or has another value, the rows to update are that row alone.
pub proof fn lemma_one_row_updated<T>(old: Seq<EntryView<T>>, new: Seq<EntryView<T>>, row: usize)
    requires
        rows_distinct(old),
        row < shared_rows(old, new),
        updated_pairs(old[row as int].properties, new[row as int].properties).len() > 0,
        forall|j: int|
            0 <= j < shared_rows(old, new) && j != row ==> (#[trigger] new[j]).properties
                == old[j].properties,
    ensures
        updated_rows(old, new) == seq![
            (row, updated_pairs(old[row as int].properties, new[row as int].properties)),
        ],
{
    let updates = row_updates(old, new, shared_rows(old, new));
    assert forall|j: int| 0 <= j < updates.len() && j != row implies !has_pairs()(
        #[trigger] updates[j],
    ) by {
        assert(new[j].properties == old[j].properties);
        assert(distinct_keys(old[j].properties));
        lemma_same_pairs(old[j].properties);
    }
    lemma_filter_one(updates, has_pairs(), row as int);
}

/// Where one row alone has other properties, and none of its keys is gone,
/// no row has keys to remove.
pub proof fn lemma_no_row_removed<T>(old: Seq<EntryView<T>>, new: Seq<EntryView<T>>, row: usize)
    requires
        rows_distinct(old),
        row < shared_rows(old, new),
        removed_keys(old[row as int].properties, new[row as int].properties).len() == 0,
        forall|j: int|
            0 <= j < shared_rows(old, new) && j != row ==> (#[trigger] new[j]).properties
                == old[j].properties,
    ensures
        removed_rows(old, new) == Seq::<(usize, Seq<Seq<char>>)>::empty(),
{
    let removals = row_removals(old, new, shared_rows(old, new));
    assert forall|j: int| 0 <= j < removals.len() implies !has_keys()(#[trigger] removals[j]) by {
        if j != row {
            assert(new[j].properties == old[j].properties);
            assert(distinct_keys(old[j].properties));
            lemma_same_pairs(old[j].properties);
        }
    }
    lemma_filter_none(removals, has_keys());
}

/// Where one item of a menu gets another name and all else stays, so that
/// the tables differ in the properties of its row alone: no row is reported
/// as changed in its structure, the one update is the new `label` of that
/// row, and no key is gone.
pub proof fn lemma_rename_is_one_update<T>(
    old: Seq<EntryView<T>>,
    new: Seq<EntryView<T>>,
    row: usize,
    item: ItemView<T>,
    name: Seq<char>,
)
    requires
        rows_distinct(old),
        old.len() == new.len(),
        row < old.len(),
        !(item is Separator),
        name_of(item) != Some(name),
        old[row as int].properties == item_properties(item),
        new[row as int].properties == item_properties(renamed(item, name)),
        forall|j: int|
            0 <= j < old.len() && j != row ==> (#[trigger] new[j]).properties == old[j].properties,
        forall|j: int| 0 <= j < old.len() ==> (#[trigger] new[j]).children == old[j].children,
    ensures
        changed_root(old, new) == None::<usize>,
        updated_rows(old, new) == seq![(row, seq![("label"@, ValueView::Text(name))])],
        removed_rows(old, new) == Seq::<(usize, Seq<Seq<char>>)>::empty(),
{
    lemma_rename_updates_label(item, name);
    lemma_same_structure_is_no_signal(old, new);
    lemma_one_row_updated(old, new, row);
    lemma_no_row_removed(old, new, row);
}

} // verus!
