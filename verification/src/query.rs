use crate::entry::{children_in_range, table_view, EntryView, MenuEntry};
use crate::property::{lookup, selected, strs_view, Pairs, PropertyMap, PropertyValue};
use vstd::prelude::*;

verus! {

/// A row of a table with its properties and, down to some depth, the rows
/// below it.
#[derive(Debug)]
pub struct LayoutNode {
    pub id: usize,
    pub properties: PropertyMap,
    pub children: Vec<LayoutNode>,
}

/// The mathematical value of a [`LayoutNode`].
pub ghost struct LayoutView {
    pub id: usize,
    pub properties: Pairs,
    pub children: Seq<LayoutView>,
}

/// The values of a list of nodes, in order.
pub open spec fn nodes_view(nodes: Seq<LayoutNode>) -> Seq<LayoutView>
    decreases nodes,
{
    if nodes.len() == 0 {
        Seq::empty()
    } else {
        nodes_view(nodes.drop_last()).push(nodes.last().view())
    }
}

impl View for LayoutNode {
    type V = LayoutView;

    open spec fn view(&self) -> LayoutView
        decreases self,
    {
        LayoutView {
            id: self.id,
            properties: self.properties@,
            children: nodes_view(self.children@),
        }
    }
}

/// Row `id` with the properties among `requested` (all where `requested` is
/// empty) and the rows below it down to `depth` levels.
pub open spec fn node_of<T>(
    table: Seq<EntryView<T>>,
    id: usize,
    requested: Seq<Seq<char>>,
    depth: nat,
) -> LayoutView
    decreases depth, 2nat, 0nat,
{
    LayoutView {
        id,
        properties: selected(table[id as int].properties, requested),
        children: subtree(table, table[id as int].children, requested, depth),
    }
}

/// The rows `ids`, each with the rows below it down to `depth - 1` further
/// levels; nothing where `depth` is 0.
pub open spec fn subtree<T>(
    table: Seq<EntryView<T>>,
    ids: Seq<usize>,
    requested: Seq<Seq<char>>,
    depth: nat,
) -> Seq<LayoutView>
    decreases depth, 1nat, ids.len(),
{
    if depth == 0 || ids.len() == 0 {
        Seq::empty()
    } else {
        subtree(table, ids.drop_last(), requested, depth).push(
            node_of(table, ids.last(), requested, (depth - 1) as nat),
        )
    }
}

impl<T> MenuEntry<T> {
    /// The properties of this row whose key is among `requested`; all of them
    /// where `requested` is empty.
    pub fn get_properties(&self, requested: &[&str]) -> (chosen: PropertyMap)
        ensures
            chosen@ == selected(self@.properties, strs_view(requested@)),
    {
        self.properties.select(requested)
    }
}

/// The rows `ids` of `entries`, each with the rows below it down to
/// `depth - 1` further levels; nothing where `depth` is 0. A depth beyond the
/// height of the menu gives the whole of it.
pub fn collect<T>(
    ids: &Vec<usize>,
    entries: &Vec<MenuEntry<T>>,
    property_names: &[&str],
    depth: u32,
) -> (nodes: Vec<LayoutNode>)
    requires
        children_in_range(table_view(entries@)),
        forall|k: int| 0 <= k < ids@.len() ==> ids@[k] < entries@.len(),
    ensures
        nodes_view(nodes@) == subtree(
            table_view(entries@),
            ids@,
            strs_view(property_names@),
            depth as nat,
        ),
    decreases depth,
{
    let ghost table = table_view(entries@);
    let ghost requested = strs_view(property_names@);
    let mut nodes: Vec<LayoutNode> = Vec::new();
    if depth == 0 {
        return nodes;
    }
    let mut k: usize = 0;
    while k < ids.len()
        invariant
            depth > 0,
            table == table_view(entries@),
            requested == strs_view(property_names@),
            children_in_range(table),
            forall|j: int| 0 <= j < ids@.len() ==> ids@[j] < entries@.len(),
            k <= ids@.len(),
            nodes_view(nodes@) == subtree(table, ids@.take(k as int), requested, depth as nat),
        decreases ids@.len() - k,
    {
        let id = ids[k];
        let entry = &entries[id];
        proof {
            assert(table[id as int].children == entry.children@);
        }
        let node = LayoutNode {
            id,
            properties: entry.get_properties(property_names),
            children: collect(&entry.children, entries, property_names, depth - 1),
        };
        proof {
            assert(ids@.take(k as int + 1).drop_last() =~= ids@.take(k as int));
            assert(node@ == node_of(table, id, requested, (depth - 1) as nat));
            assert(nodes@.push(node).drop_last() =~= nodes@);
        }
        nodes.push(node);
        k += 1;
    }
    assert(ids@.take(k as int) =~= ids@);
    nodes
}

/// The depth that a request for a layout asks for: a negative number asks
/// for the whole menu.
pub fn layout_depth(recursion_depth: i32) -> (depth: u32)
    ensures
        depth == if recursion_depth < 0 {
            u32::MAX as int
        } else {
            recursion_depth as int
        },
{
    if recursion_depth < 0 {
        u32::MAX
    } else {
        recursion_depth as u32
    }
}

/// The row that an identifier names, if it names one.
pub fn row_of<T>(entries: &Vec<MenuEntry<T>>, id: i32) -> (row: Option<usize>)
    ensures
        match row {
            Some(i) => i == id && i < entries@.len(),
            None => id < 0 || id >= entries@.len(),
        },
{
    if id < 0 {
        None
    } else if (id as usize) < entries.len() {
        Some(id as usize)
    } else {
        None
    }
}

/// Row `parent_id` with the properties among `property_names` and the rows
/// below it down to `recursion_depth` levels, all of them where
/// `recursion_depth` is negative; `None` where `parent_id` names no row.
pub fn get_layout<T>(
    entries: &Vec<MenuEntry<T>>,
    parent_id: i32,
    recursion_depth: i32,
    property_names: &[&str],
) -> (layout: Option<LayoutNode>)
    requires
        children_in_range(table_view(entries@)),
    ensures
        match layout {
            Some(node) => 0 <= parent_id < entries@.len() && node@ == node_of(
                table_view(entries@),
                parent_id as usize,
                strs_view(property_names@),
                if recursion_depth < 0 {
                    u32::MAX as nat
                } else {
                    recursion_depth as nat
                },
            ),
            None => parent_id < 0 || parent_id >= entries@.len(),
        },
{
    let depth = layout_depth(recursion_depth);
    match row_of(entries, parent_id) {
        None => None,
        Some(row) => {
            let entry = &entries[row];
            proof {
                let table = table_view(entries@);
                assert(table[row as int].children == entry.children@);
            }
            Some(
                LayoutNode {
                    id: row,
                    properties: entry.get_properties(property_names),
                    children: collect(&entry.children, entries, property_names, depth),
                },
            )
        },
    }
}

/// Whether `ids` names row `row`; an empty list names every row.
pub open spec fn names_row(ids: Seq<i32>, row: int) -> bool {
    ids.len() == 0 || exists|k: int| 0 <= k < ids.len() && #[trigger] ids[k] == row
}

/// Whether a row with its properties is one that `ids` names.
pub open spec fn is_named(ids: Seq<i32>) -> spec_fn((usize, Pairs)) -> bool {
    |e: (usize, Pairs)| names_row(ids, e.0 as int)
}

/// The first `rows` rows, each with its properties among `requested`.
pub open spec fn row_properties<T>(
    table: Seq<EntryView<T>>,
    requested: Seq<Seq<char>>,
    rows: nat,
) -> Seq<(usize, Pairs)> {
    Seq::new(rows, |i: int| (i as usize, selected(table[i].properties, requested)))
}

/// The values of a list of rows with properties.
pub open spec fn rows_view(rows: Seq<(usize, PropertyMap)>) -> Seq<(usize, Pairs)> {
    rows.map_values(|e: (usize, PropertyMap)| (e.0, e.1@))
}

/// Whether `ids` names row `row`; an empty list names every row.
pub fn is_row_named(ids: &Vec<i32>, row: usize) -> (named: bool)
    ensures
        named == names_row(ids@, row as int),
{
    if ids.len() == 0 {
        return true;
    }
    let mut k: usize = 0;
    while k < ids.len()
        invariant
            k <= ids@.len(),
            forall|j: int| 0 <= j < k ==> ids@[j] != row,
        decreases ids@.len() - k,
    {
        if ids[k] >= 0 && ids[k] as usize == row {
            return true;
        }
        k += 1;
    }
    false
}

/// The rows that `ids` names, every row where `ids` is empty, each with its
/// properties among `property_names`, in the order of the table.
pub fn get_group_properties<T>(
    entries: &Vec<MenuEntry<T>>,
    ids: &Vec<i32>,
    property_names: &[&str],
) -> (group: Vec<(usize, PropertyMap)>)
    ensures
        rows_view(group@) == row_properties(
            table_view(entries@),
            strs_view(property_names@),
            entries@.len(),
        ).filter(is_named(ids@)),
{
    let ghost table = table_view(entries@);
    let ghost requested = strs_view(property_names@);
    let ghost named = is_named(ids@);
    let mut group: Vec<(usize, PropertyMap)> = Vec::new();
    let mut i: usize = 0;
    while i < entries.len()
        invariant
            table == table_view(entries@),
            requested == strs_view(property_names@),
            named == is_named(ids@),
            i <= entries@.len(),
            rows_view(group@) == row_properties(table, requested, i as nat).filter(named),
        decreases entries@.len() - i,
    {
        proof {
            let all = row_properties(table, requested, i as nat);
            let row = (i, selected(table[i as int].properties, requested));
            assert(row_properties(table, requested, (i + 1) as nat) =~= all.push(row));
            all.lemma_filter_push(row, named);
        }
        if is_row_named(ids, i) {
            let chosen = entries[i].get_properties(property_names);
            group.push((i, chosen));
        }
        i += 1;
    }
    group
}

/// The value that row `id` gives to the property `name`; `None` where `id`
/// names no row or the row lacks the property.
pub fn get_property<T>(entries: &Vec<MenuEntry<T>>, id: i32, name: &str) -> (value: Option<
    PropertyValue,
>)
    ensures
        match value {
            Some(v) => 0 <= id < entries@.len() && lookup(
                table_view(entries@)[id as int].properties,
                name@,
            ) == Some(v@),
            None => id < 0 || id >= entries@.len() || lookup(
                table_view(entries@)[id as int].properties,
                name@,
            ) is None,
        },
{
    match row_of(entries, id) {
        None => None,
        Some(row) => match entries[row].properties.get(name) {
            Some(v) => Some(v.clone()),
            None => None,
        },
    }
}

} // verus!
