use crate::entry::{
    children_in_range, first_child, is_layout, item_properties, layout, lemma_first_child_grows,
    lemma_keys_differ, lemma_layout_in_range, table_view, EntryView, MenuEntry,
};
use crate::menu::ItemView;
use crate::property::{
    differs_from, distinct_keys, lemma_filter_none, lemma_lookup_distinct, lemma_position_none,
    lemma_same_pairs, missing_in, removed_keys, strings_view, updated_pairs, Pairs, PropertyMap,
    ValueView,
};
use std::collections::HashSet;
use vstd::prelude::*;
use vstd::std_specs::hash::group_hash_axioms;

verus! {

broadcast use group_hash_axioms;

/// 1 where row `i` is one of `changed`, else 0.
pub open spec fn mark(changed: Set<usize>, i: int) -> nat {
    if 0 <= i <= usize::MAX && changed.contains(i as usize) {
        1
    } else {
        0
    }
}

/// The number of rows of `changed` among row `i` and the rows below it,
/// each counted once for every way that leads from row `i` down to it.
pub open spec fn weight<T>(table: Seq<EntryView<T>>, changed: Set<usize>, i: int) -> nat
    decreases table.len() - i, 1int, 0int,
{
    if 0 <= i < table.len() {
        mark(changed, i) + children_weight(table, changed, i, table[i].children.len() as int)
    } else {
        0
    }
}

/// The sum of the weights of the first `k` children of row `i`. A child that
/// does not lie behind its parent and within the table counts for nothing.
pub open spec fn children_weight<T>(
    table: Seq<EntryView<T>>,
    changed: Set<usize>,
    i: int,
    k: int,
) -> nat
    decreases table.len() - i, 0int, k,
{
    if 0 <= i < table.len() && 0 < k <= table[i].children.len() {
        let child = table[i].children[k - 1] as int;
        children_weight(table, changed, i, k - 1) + (if i < child < table.len() {
            weight(table, changed, child)
        } else {
            0
        })
    } else {
        0
    }
}

/// Whether `root` is the first row with more than one row of `changed` in
/// and below it.
pub open spec fn is_common_root<T>(
    table: Seq<EntryView<T>>,
    changed: Set<usize>,
    root: int,
) -> bool {
    &&& 0 <= root < table.len()
    &&& weight(table, changed, root) > 1
    &&& forall|j: int| 0 <= j < root ==> #[trigger] weight(table, changed, j) <= 1
}

/// The number of rows of `changed` from row `from` to the end of a table of
/// `len` rows.
pub open spec fn marks_from(changed: Set<usize>, from: int, len: int) -> nat
    decreases len - from,
{
    if from >= len {
        0
    } else {
        mark(changed, from) + marks_from(changed, from + 1, len)
    }
}

/// The sum of the weights of the rows from `from` up to `to`, `to` left out.
pub open spec fn range_weight<T>(
    table: Seq<EntryView<T>>,
    changed: Set<usize>,
    from: int,
    to: int,
) -> nat
    decreases to - from,
{
    if from >= to {
        0
    } else {
        range_weight(table, changed, from, to - 1) + weight(table, changed, to - 1)
    }
}

/// The weight of a range is the sum of the weights of its two parts.
proof fn lemma_range_weight_split<T>(
    table: Seq<EntryView<T>>,
    changed: Set<usize>,
    from: int,
    mid: int,
    to: int,
)
    requires
        from <= mid <= to,
    ensures
        range_weight(table, changed, from, to) == range_weight(table, changed, from, mid)
            + range_weight(table, changed, mid, to),
    decreases to - mid,
{
    if mid < to {
        lemma_range_weight_split(table, changed, from, mid, to - 1);
    }
}

/// In a table that is laid out breadth first, the first `k` children of a row
/// weigh what the `k` rows weigh with which its children begin.
proof fn lemma_children_weight_range<T>(
    table: Seq<EntryView<T>>,
    changed: Set<usize>,
    i: int,
    k: int,
)
    requires
        is_layout(table),
        0 <= i < table.len(),
        0 <= k <= table[i].children.len(),
    ensures
        children_weight(table, changed, i, k) == range_weight(
            table,
            changed,
            first_child(table, i),
            first_child(table, i) + k,
        ),
    decreases k,
{
    if k > 0 {
        lemma_children_weight_range(table, changed, i, k - 1);
        lemma_first_child_grows(table, i + 1, table.len() as int);
        let child = table[i].children[k - 1];
    }
}

/// In a table that is laid out breadth first, the rows from `k` up to the
/// first child of row `k` hold between them, in and below them, every row of
/// `changed` from row `k` on, each once.
proof fn lemma_frontier_weight<T>(table: Seq<EntryView<T>>, changed: Set<usize>, k: int)
    requires
        is_layout(table),
        0 <= k <= table.len(),
    ensures
        k < table.len() ==> k < first_child(table, k),
        range_weight(table, changed, k, first_child(table, k)) == marks_from(
            changed,
            k,
            table.len() as int,
        ),
    decreases table.len() - k,
{
    let len = table.len() as int;
    if k < len {
        let begin = first_child(table, k);
        let end = first_child(table, k + 1);
        lemma_frontier_weight(table, changed, k + 1);
        lemma_children_weight_range(table, changed, k, table[k].children.len() as int);
        lemma_range_weight_split(table, changed, k, k + 1, begin);
        lemma_range_weight_split(table, changed, k + 1, begin, end);
        assert(range_weight(table, changed, k, k + 1) == weight(table, changed, k)) by {
            assert(range_weight(table, changed, k, k) == 0);
        }
    }
}

/// There are no more rows of `changed` from a row on than rows.
proof fn lemma_marks_bound(changed: Set<usize>, from: int, len: int)
    requires
        from <= len,
    ensures
        marks_from(changed, from, len) <= len - from,
    decreases len - from,
{
    if from < len {
        lemma_marks_bound(changed, from + 1, len);
    }
}

/// A row of `changed` at or behind `from` is counted by `marks_from`, and so is
/// a second one.
proof fn lemma_marks_two(changed: Set<usize>, from: int, len: int, a: int, b: int)
    requires
        0 <= from <= a < b < len <= usize::MAX,
        changed.contains(a as usize),
        changed.contains(b as usize),
    ensures
        marks_from(changed, from, len) >= 2,
    decreases a - from,
{
    if from < a {
        lemma_marks_two(changed, from + 1, len, a, b);
    } else {
        lemma_marks_one(changed, from + 1, len, b);
    }
}

/// A row of `changed` at or behind `from` is counted by `marks_from`.
proof fn lemma_marks_one(changed: Set<usize>, from: int, len: int, a: int)
    requires
        0 <= from <= a < len <= usize::MAX,
        changed.contains(a as usize),
    ensures
        marks_from(changed, from, len) >= 1,
    decreases a - from,
{
    if from < a {
        lemma_marks_one(changed, from + 1, len, a);
    }
}

/// In a table that is laid out breadth first, a row weighs no more than there
/// are rows of `changed` from it on, and so do its first `k` children with
/// the row itself.
pub proof fn lemma_weight_bound<T>(table: Seq<EntryView<T>>, changed: Set<usize>, i: int, k: int)
    requires
        is_layout(table),
        0 <= i < table.len(),
        0 <= k <= table[i].children.len(),
    ensures
        mark(changed, i) + children_weight(table, changed, i, k) <= weight(table, changed, i),
        weight(table, changed, i) <= marks_from(changed, i, table.len() as int),
        marks_from(changed, i, table.len() as int) <= table.len() - i,
    decreases table[i].children.len() - k,
{
    lemma_marks_bound(changed, i, table.len() as int);
    lemma_frontier_weight(table, changed, i);
    lemma_range_weight_split(table, changed, i, i + 1, first_child(table, i));
    if k < table[i].children.len() {
        lemma_weight_bound(table, changed, i, k + 1);
    }
}

/// In a table that is laid out breadth first, the root weighs as much as
/// there are rows of `changed` in the table. So where two rows or more have
/// changed, the first row with more than one of them in and below it is the
/// root.
pub proof fn lemma_common_root_is_root<T>(table: Seq<EntryView<T>>, changed: Set<usize>)
    requires
        is_layout(table),
    ensures
        weight(table, changed, 0) == marks_from(changed, 0, table.len() as int),
        forall|a: usize, b: usize|
            a < b < table.len() && changed.contains(a) && changed.contains(b) ==> is_common_root(
                table,
                changed,
                0,
            ),
{
    lemma_frontier_weight(table, changed, 0);
    assert(range_weight(table, changed, 0, 1) == weight(table, changed, 0)) by {
        assert(range_weight(table, changed, 0, 0) == 0);
    }
    assert forall|a: usize, b: usize|
        a < b < table.len() && changed.contains(a) && changed.contains(b) implies is_common_root(
        table,
        changed,
        0,
    ) by {
        lemma_marks_two(changed, 0, table.len() as int, a as int, b as int);
    }
}

/// The first row of `entries` with more than one row of `changed` in and
/// below it: the narrowest part of the menu that holds them all, read from
/// the root down.
pub fn find_common_root<T>(entries: &Vec<MenuEntry<T>>, changed: &HashSet<usize>) -> (root: usize)
    requires
        is_layout(table_view(entries@)),
        exists|a: usize, b: usize|
            a < b < entries@.len() && changed@.contains(a) && changed@.contains(b),
    ensures
        is_common_root(table_view(entries@), changed@, root as int),
{
    let ghost table = table_view(entries@);
    let len = entries.len();
    proof {
        lemma_layout_in_range(table);
        lemma_common_root_is_root(table, changed@);
    }
    let mut cache: Vec<usize> = Vec::new();
    let mut n: usize = 0;
    while n < len
        invariant
            n <= len,
            cache@.len() == n,
        decreases len - n,
    {
        cache.push(0);
        n += 1;
    }
    let mut root: usize = len;
    let mut i: usize = len;
    while i > 0
        invariant
            table == table_view(entries@),
            is_layout(table),
            children_in_range(table),
            len == entries@.len(),
            cache@.len() == len,
            i <= len,
            forall|j: int| i <= j < len ==> cache@[j] == #[trigger] weight(table, changed@, j),
            root == len ==> forall|j: int|
                i <= j < len ==> #[trigger] weight(table, changed@, j) <= 1,
            root < len ==> i <= root && weight(table, changed@, root as int) > 1 && forall|j: int|
                i <= j < root ==> #[trigger] weight(table, changed@, j) <= 1,
            root <= len,
        decreases i,
    {
        i -= 1;
        let entry = &entries[i];
        let mut count: usize = if changed.contains(&i) {
            1
        } else {
            0
        };
        let mut k: usize = 0;
        while k < entry.children.len()
            invariant
                table == table_view(entries@),
                is_layout(table),
                children_in_range(table),
                len == entries@.len(),
                cache@.len() == len,
                i < len,
                *entry == entries@[i as int],
                k <= entry.children@.len(),
                forall|j: int| i < j < len ==> cache@[j] == #[trigger] weight(table, changed@, j),
                count == mark(changed@, i as int) + children_weight(
                    table,
                    changed@,
                    i as int,
                    k as int,
                ),
            decreases entry.children@.len() - k,
        {
            let child = entry.children[k];
            proof {
                assert(children_weight(table, changed@, i as int, k as int + 1)
                    == children_weight(table, changed@, i as int, k as int) + weight(
                    table,
                    changed@,
                    child as int,
                ));
                lemma_weight_bound(table, changed@, i as int, k as int + 1);
            }
            count = count + cache[child];
            k += 1;
        }
        cache.set(i, count);
        if count > 1 {
            root = i;
        }
    }
    root
}

/// The first row with more than one row of `changed` in and below it.
pub open spec fn common_root<T>(table: Seq<EntryView<T>>, changed: Set<usize>) -> usize {
    choose|root: usize| is_common_root(table, changed, root as int)
}

/// The rows that both tables have and whose lists of children differ.
pub open spec fn structure_changed<T>(old: Seq<EntryView<T>>, new: Seq<EntryView<T>>) -> Set<
    usize,
> {
    Set::new(
        |i: usize| i < old.len() && i < new.len() && old[i as int].children != new[i as int].children,
    )
}

/// The row to report as changed in its structure: none where no list of
/// children differs, the row itself where one differs, and the common root of
/// the rows where several differ.
pub open spec fn changed_root<T>(old: Seq<EntryView<T>>, new: Seq<EntryView<T>>) -> Option<
    usize,
> {
    let changed = structure_changed(old, new);
    if changed.is_empty() {
        None
    } else if forall|a: usize, b: usize| changed.contains(a) && changed.contains(b) ==> a == b {
        Some(changed.choose())
    } else {
        Some(common_root(new, changed))
    }
}

/// The number of rows that both tables have.
pub open spec fn shared_rows<T>(old: Seq<EntryView<T>>, new: Seq<EntryView<T>>) -> nat {
    if old.len() <= new.len() {
        old.len()
    } else {
        new.len()
    }
}

/// For each of the first `rows` rows, the properties that are new or have
/// another value.
pub open spec fn row_updates<T>(old: Seq<EntryView<T>>, new: Seq<EntryView<T>>, rows: nat) -> Seq<
    (usize, Pairs),
> {
    Seq::new(rows, |i: int| (i as usize, updated_pairs(old[i].properties, new[i].properties)))
}

/// For each of the first `rows` rows, the keys that are gone.
pub open spec fn row_removals<T>(
    old: Seq<EntryView<T>>,
    new: Seq<EntryView<T>>,
    rows: nat,
) -> Seq<(usize, Seq<Seq<char>>)> {
    Seq::new(rows, |i: int| (i as usize, removed_keys(old[i].properties, new[i].properties)))
}

/// Whether a row has properties to report.
pub open spec fn has_pairs() -> spec_fn((usize, Pairs)) -> bool {
    |e: (usize, Pairs)| e.1.len() > 0
}

/// Whether a row has keys to report.
pub open spec fn has_keys() -> spec_fn((usize, Seq<Seq<char>>)) -> bool {
    |e: (usize, Seq<Seq<char>>)| e.1.len() > 0
}

/// The rows that both tables have and in which a property is new or has
/// another value, each with those properties.
pub open spec fn updated_rows<T>(old: Seq<EntryView<T>>, new: Seq<EntryView<T>>) -> Seq<
    (usize, Pairs),
> {
    row_updates(old, new, shared_rows(old, new)).filter(has_pairs())
}

/// The rows that both tables have and in which a key is gone, each with those
/// keys.
pub open spec fn removed_rows<T>(old: Seq<EntryView<T>>, new: Seq<EntryView<T>>) -> Seq<
    (usize, Seq<Seq<char>>),
> {
    row_removals(old, new, shared_rows(old, new)).filter(has_keys())
}

/// The values of a list of rows with properties.
pub open spec fn updates_view(updates: Seq<(usize, PropertyMap)>) -> Seq<(usize, Pairs)> {
    updates.map_values(|e: (usize, PropertyMap)| (e.0, e.1@))
}

/// The values of a list of rows with keys.
pub open spec fn removals_view(removals: Seq<(usize, Vec<String>)>) -> Seq<
    (usize, Seq<Seq<char>>),
> {
    removals.map_values(|e: (usize, Vec<String>)| (e.0, strings_view(e.1@)))
}

/// A table has one common root at most.
pub proof fn lemma_common_root_unique<T>(
    table: Seq<EntryView<T>>,
    changed: Set<usize>,
    a: int,
    b: int,
)
    requires
        is_common_root(table, changed, a),
        is_common_root(table, changed, b),
    ensures
        a == b,
{
}

/// What has to be told to someone who knows the table `old`, so that they
/// know the table `new`: the row whose structure changed, if one did, and
/// for each row that both tables have the properties that are new or have
/// another value and the keys that are gone. Rows without such properties or
/// keys are left out.
pub fn generate_diff<T>(new: &Vec<MenuEntry<T>>, old: &Vec<MenuEntry<T>>) -> (diff: (
    Option<usize>,
    Vec<(usize, PropertyMap)>,
    Vec<(usize, Vec<String>)>,
))
    requires
        is_layout(table_view(new@)),
    ensures
        diff.0 == changed_root(table_view(old@), table_view(new@)),
        updates_view(diff.1@) == updated_rows(table_view(old@), table_view(new@)),
        removals_view(diff.2@) == removed_rows(table_view(old@), table_view(new@)),
{
    let ghost old_table = table_view(old@);
    let ghost new_table = table_view(new@);
    let rows = if old.len() <= new.len() {
        old.len()
    } else {
        new.len()
    };
    let mut updated: Vec<(usize, PropertyMap)> = Vec::new();
    let mut removed: Vec<(usize, Vec<String>)> = Vec::new();
    let mut changed: HashSet<usize> = HashSet::new();
    let mut first: Option<usize> = None;
    let mut several = false;
    let ghost mut other: usize = 0;
    let mut i: usize = 0;
    while i < rows
        invariant
            old_table == table_view(old@),
            new_table == table_view(new@),
            rows == shared_rows(old_table, new_table),
            i <= rows,
            updates_view(updated@) == row_updates(old_table, new_table, i as nat).filter(
                has_pairs(),
            ),
            removals_view(removed@) == row_removals(old_table, new_table, i as nat).filter(
                has_keys(),
            ),
            forall|j: usize|
                changed@.contains(j) <==> j < i && structure_changed(old_table, new_table).contains(
                    j,
                ),
            first is None ==> !several && forall|j: usize| !changed@.contains(j),
            first matches Some(a) ==> changed@.contains(a),
            first matches Some(a) ==> (several ==> a < other && changed@.contains(other)),
            first matches Some(a) ==> (!several ==> forall|j: usize|
                changed@.contains(j) ==> j == a),
        decreases rows - i,
    {
        let gone = old[i].properties.keys_missing_in(&new[i].properties);
        let fresh = new[i].properties.changed_from(&old[i].properties);
        proof {
            let all = row_removals(old_table, new_table, i as nat);
            let row = (i, removed_keys(old_table[i as int].properties, new_table[i as int].properties));
            assert(row_removals(old_table, new_table, (i + 1) as nat) =~= all.push(row));
            all.lemma_filter_push(row, has_keys());
            let all = row_updates(old_table, new_table, i as nat);
            let row = (i, updated_pairs(old_table[i as int].properties, new_table[i as int].properties));
            assert(row_updates(old_table, new_table, (i + 1) as nat) =~= all.push(row));
            all.lemma_filter_push(row, has_pairs());
        }
        if gone.len() > 0 {
            let ghost before = removed@;
            removed.push((i, gone));
        }
        if !fresh.is_empty() {
            let ghost before = updated@;
            updated.push((i, fresh));
        }
        if !same_indices(&new[i].children, &old[i].children) {
            let ghost before = changed@;
            changed.insert(i);
            match first {
                None => {
                    first = Some(i);
                },
                Some(a) => {
                    several = true;
                    proof {
                        other = i;
                    }
                },
            }
        }
        i += 1;
    }
    proof {
        assert(changed@ =~= structure_changed(old_table, new_table));
    }
    let root = match first {
        None => None,
        Some(a) => if several {
            let root = find_common_root(new, &changed);
            Some(root)
        } else {
            Some(a)
        },
    };
    (root, updated, removed)
}

/// Whether no key occurs twice in a row of `table`.
pub open spec fn rows_distinct<T>(table: Seq<EntryView<T>>) -> bool {
    forall|i: int| 0 <= i < table.len() ==> distinct_keys(#[trigger] table[i].properties)
}

/// Between a table and itself there is nothing to tell: no row has changed
/// in its structure, no property is new or has another value, and no key is
/// gone.
pub proof fn lemma_same_table_is_silent<T>(table: Seq<EntryView<T>>)
    requires
        rows_distinct(table),
    ensures
        changed_root(table, table) == None::<usize>,
        updated_rows(table, table) == Seq::<(usize, Pairs)>::empty(),
        removed_rows(table, table) == Seq::<(usize, Seq<Seq<char>>)>::empty(),
{
    let rows = shared_rows(table, table);
    let updates = row_updates(table, table, rows);
    let removals = row_removals(table, table, rows);
    assert forall|i: int| 0 <= i < updates.len() implies !has_pairs()(#[trigger] updates[i]) by {
        lemma_same_pairs(table[i].properties);
    }
    assert forall|i: int| 0 <= i < removals.len() implies !has_keys()(#[trigger] removals[i]) by {
        lemma_same_pairs(table[i].properties);
    }
    lemma_filter_none(updates, has_pairs());
    lemma_filter_none(removals, has_keys());
}

/// No key occurs twice in the properties of an item.
pub proof fn lemma_item_keys_distinct<T>(item: ItemView<T>)
    ensures
        distinct_keys(item_properties(item)),
{
    lemma_keys_differ();
}

/// No key occurs twice in a row of the table of a menu.
pub proof fn lemma_layout_rows_distinct<T>(menu: Seq<ItemView<T>>)
    ensures
        rows_distinct(layout(menu)),
{
    let table = layout(menu);
    assert forall|i: int| 0 <= i < table.len() implies distinct_keys(
        #[trigger] table[i].properties,
    ) by {
        if i > 0 {
            lemma_item_keys_distinct(crate::entry::breadth_first(menu)[i - 1]);
        }
    }
}

/// A menu that is laid out twice gives two tables between which there is
/// nothing to tell.
pub proof fn lemma_rebuild_is_silent<T>(menu: Seq<ItemView<T>>)
    ensures
        changed_root(layout(menu), layout(menu)) == None::<usize>,
        updated_rows(layout(menu), layout(menu)) == Seq::<(usize, Pairs)>::empty(),
        removed_rows(layout(menu), layout(menu)) == Seq::<(usize, Seq<Seq<char>>)>::empty(),
{
    lemma_layout_rows_distinct(menu);
    lemma_same_table_is_silent(layout(menu));
}

/// The number that stands for a checkmark: 1 where it is set, else 0.
pub open spec fn toggle_state(on: bool) -> i32 {
    if on {
        1
    } else {
        0
    }
}

/// Where the checkmark of a button is set or cleared and its name stays,
/// only the property `toggle-state` has another value, and no key is gone.
pub proof fn lemma_toggle_updates_state<T>(name: Seq<char>, before: T, after: T, on: bool)
    ensures
        updated_pairs(
            item_properties(ItemView::Button { name, signal: before, checked: Some(on) }),
            item_properties(ItemView::Button { name, signal: after, checked: Some(!on) }),
        ) == seq![("toggle-state"@, ValueView::Int(toggle_state(!on)))],
        removed_keys(
            item_properties(ItemView::Button { name, signal: before, checked: Some(on) }),
            item_properties(ItemView::Button { name, signal: after, checked: Some(!on) }),
        ) == Seq::<Seq<char>>::empty(),
{
    let old = item_properties(ItemView::Button { name, signal: before, checked: Some(on) });
    let new = item_properties(ItemView::Button { name, signal: after, checked: Some(!on) });
    lemma_keys_differ();
    lemma_lookup_distinct(old, 0);
    lemma_lookup_distinct(old, 1);
    lemma_lookup_distinct(old, 2);
    lemma_lookup_distinct(new, 0);
    lemma_lookup_distinct(new, 1);
    let differs = differs_from(old);
    let empty = Pairs::empty();
    empty.lemma_filter_push(new[0], differs);
    empty.push(new[0]).lemma_filter_push(new[1], differs);
    empty.push(new[0]).push(new[1]).lemma_filter_push(new[2], differs);
    assert(empty.push(new[0]).push(new[1]).push(new[2]) =~= new);
    lemma_filter_none(old, missing_in(new));
}

/// Where a button without a checkmark gets one and its name stays, the
/// properties `toggle-type` and `toggle-state` are new, and no key is gone.
pub proof fn lemma_checkmark_adds_keys<T>(name: Seq<char>, before: T, after: T, on: bool)
    ensures
        updated_pairs(
            item_properties(ItemView::Button { name, signal: before, checked: None }),
            item_properties(ItemView::Button { name, signal: after, checked: Some(on) }),
        ) == seq![
            ("toggle-type"@, ValueView::Text("checkmark"@)),
            ("toggle-state"@, ValueView::Int(toggle_state(on))),
        ],
        removed_keys(
            item_properties(ItemView::Button { name, signal: before, checked: None }),
            item_properties(ItemView::Button { name, signal: after, checked: Some(on) }),
        ) == Seq::<Seq<char>>::empty(),
{
    let old = item_properties(ItemView::Button { name, signal: before, checked: None });
    let new = item_properties(ItemView::Button { name, signal: after, checked: Some(on) });
    lemma_keys_differ();
    lemma_lookup_distinct(old, 0);
    lemma_position_none(old, "toggle-type"@);
    lemma_position_none(old, "toggle-state"@);
    lemma_lookup_distinct(new, 0);
    let differs = differs_from(old);
    let empty = Pairs::empty();
    empty.lemma_filter_push(new[0], differs);
    empty.push(new[0]).lemma_filter_push(new[1], differs);
    empty.push(new[0]).push(new[1]).lemma_filter_push(new[2], differs);
    assert(empty.push(new[0]).push(new[1]).push(new[2]) =~= new);
    lemma_filter_none(old, missing_in(new));
}

/// Whether two lists hold the same indices in the same order.
pub fn same_indices(a: &Vec<usize>, b: &Vec<usize>) -> (same: bool)
    ensures
        same == (a@ == b@),
{
    if a.len() != b.len() {
        return false;
    }
    let mut i: usize = 0;
    while i < a.len()
        invariant
            a@.len() == b@.len(),
            i <= a@.len(),
            forall|j: int| 0 <= j < i ==> a@[j] == b@[j],
        decreases a.len() - i,
    {
        if a[i] != b[i] {
            return false;
        }
        i += 1;
    }
    assert(a@ =~= b@);
    true
}

} // verus!
