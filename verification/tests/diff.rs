use betrayer::diff::{find_common_root, generate_diff, same_indices};
use betrayer::entry::{build_menu, MenuEntry};
use betrayer::menu::{Menu, MenuItem};
use betrayer::property::{PropertyMap, PropertyValue};
use std::collections::HashSet;

fn text(value: &str) -> PropertyValue {
    PropertyValue::Text(value.to_string())
}

fn one(key: &str, value: PropertyValue) -> PropertyMap {
    let mut map = PropertyMap::new();
    map.insert(key.to_string(), value);
    map
}

fn two_buttons(first: &str) -> Menu<u32> {
    Menu::new(vec![MenuItem::button(first, 1), MenuItem::button("B", 2)])
}

/// The rows in and below `row`, the row itself included.
fn subtree(table: &Vec<MenuEntry<u32>>, row: usize, found: &mut Vec<usize>) {
    found.push(row);
    for child in &table[row].children {
        subtree(table, *child, found);
    }
}

/// The first row with more than one changed row in and below it, found by
/// walking the tree below every row.
fn common_root_by_search(table: &Vec<MenuEntry<u32>>, changed: &HashSet<usize>) -> Option<usize> {
    for row in 0..table.len() {
        let mut found = Vec::new();
        subtree(table, row, &mut found);
        if found.iter().filter(|r| changed.contains(r)).count() > 1 {
            return Some(row);
        }
    }
    None
}

#[test]
fn same_menu_built_twice_has_nothing_to_tell() {
    let menu = || {
        Menu::new(vec![
            MenuItem::menu(
                "Profiles",
                vec![MenuItem::check_button("One", 1u32, true), MenuItem::separator()],
            ),
            MenuItem::button("Open", 2),
        ])
    };
    let old = build_menu(menu());
    let new = build_menu(menu());
    let (root, updated, removed) = generate_diff(&new, &old);
    assert_eq!(root, None);
    assert!(updated.is_empty());
    assert!(removed.is_empty());
}

#[test]
fn changed_label_is_one_update_at_its_row() {
    let old = build_menu(two_buttons("A"));
    let new = build_menu(two_buttons("A2"));
    let (root, updated, removed) = generate_diff(&new, &old);
    assert_eq!(root, None);
    assert!(removed.is_empty());
    assert_eq!(updated.len(), 1);
    assert_eq!(updated[0].0, 1);
    assert!(updated[0].1 == one("label", text("A2")));
}

#[test]
fn appended_child_reports_its_submenu() {
    let menu = |more: bool| {
        let mut items = vec![MenuItem::button("x", 1u32), MenuItem::button("y", 2)];
        if more {
            items.push(MenuItem::button("z", 3));
        }
        Menu::new(vec![MenuItem::button("first", 0), MenuItem::menu("M", items)])
    };
    let old = build_menu(menu(false));
    let new = build_menu(menu(true));
    assert_eq!(old[0].children, new[0].children);
    let (root, updated, removed) = generate_diff(&new, &old);
    assert_eq!(root, Some(2));
    assert!(updated.is_empty());
    assert!(removed.is_empty());
}

#[test]
fn changes_in_two_submenus_report_the_root() {
    let menu = |a: usize, b: usize| {
        Menu::new(vec![
            MenuItem::menu("M1", (0..a).map(|i| MenuItem::button("a", i as u32)).collect()),
            MenuItem::menu("M2", (0..b).map(|i| MenuItem::button("b", i as u32)).collect()),
        ])
    };
    let old = build_menu(menu(1, 2));
    let new = build_menu(menu(2, 1));
    let (root, _, _) = generate_diff(&new, &old);
    assert_eq!(root, Some(0));

    let changed: HashSet<usize> = (0..old.len().min(new.len()))
        .filter(|i| old[*i].children != new[*i].children)
        .collect();
    assert_eq!(changed, HashSet::from([1, 2]));
    assert_eq!(find_common_root(&new, &changed), 0);
    assert_eq!(common_root_by_search(&new, &changed), Some(0));
}

#[test]
fn common_root_agrees_with_a_search_of_the_tree() {
    let table = build_menu(Menu::new(vec![
        MenuItem::menu(
            "a",
            vec![
                MenuItem::menu("b", vec![MenuItem::button("c", 1u32), MenuItem::button("d", 2)]),
                MenuItem::menu("e", vec![MenuItem::button("f", 3)]),
            ],
        ),
        MenuItem::menu("g", vec![MenuItem::button("h", 4)]),
    ]));
    for a in 0..table.len() {
        for b in (a + 1)..table.len() {
            let changed = HashSet::from([a, b]);
            let root = find_common_root(&table, &changed);
            assert_eq!(Some(root), common_root_by_search(&table, &changed));
            assert_eq!(root, 0);
        }
    }
}

#[test]
fn cleared_checkmark_updates_the_state_alone() {
    let menu = |on: bool| Menu::new(vec![MenuItem::check_button("Mute", 1u32, on)]);
    let (root, updated, removed) = generate_diff(&build_menu(menu(false)), &build_menu(menu(true)));
    assert_eq!(root, None);
    assert!(removed.is_empty());
    assert_eq!(updated.len(), 1);
    assert_eq!(updated[0].0, 1);
    assert!(updated[0].1 == one("toggle-state", PropertyValue::Int(0)));

    let (_, updated, removed) = generate_diff(&build_menu(menu(true)), &build_menu(menu(false)));
    assert!(removed.is_empty());
    assert!(updated[0].1 == one("toggle-state", PropertyValue::Int(1)));
}

#[test]
fn new_checkmark_adds_type_and_state() {
    let old = build_menu(Menu::new(vec![MenuItem::button("Mute", 1u32)]));
    let new = build_menu(Menu::new(vec![MenuItem::check_button("Mute", 1u32, false)]));
    let (root, updated, removed) = generate_diff(&new, &old);
    assert_eq!(root, None);
    assert!(removed.is_empty());
    assert_eq!(updated.len(), 1);
    let mut expected = PropertyMap::new();
    expected.insert("toggle-type".to_string(), text("checkmark"));
    expected.insert("toggle-state".to_string(), PropertyValue::Int(0));
    assert!(updated[0].1 == expected);
    assert!(!updated[0].1.contains_key("label"));
}

#[test]
fn dropped_checkmark_removes_type_and_state() {
    let old = build_menu(Menu::new(vec![MenuItem::check_button("Mute", 1u32, true)]));
    let new = build_menu(Menu::new(vec![MenuItem::button("Mute", 1u32)]));
    let (root, updated, removed) = generate_diff(&new, &old);
    assert_eq!(root, None);
    assert!(updated.is_empty());
    assert_eq!(removed, vec![(1, vec!["toggle-type".to_string(), "toggle-state".to_string()])]);
}

#[test]
fn button_that_becomes_a_separator_swaps_its_keys() {
    let old = build_menu(Menu::new(vec![MenuItem::button("Open", 1u32)]));
    let new = build_menu(Menu::<u32>::new(vec![MenuItem::separator()]));
    let (root, updated, removed) = generate_diff(&new, &old);
    assert_eq!(root, None);
    assert_eq!(removed, vec![(1, vec!["label".to_string()])]);
    assert_eq!(updated.len(), 1);
    assert!(updated[0].1 == one("type", text("separator")));
}

#[test]
fn rows_beyond_the_shorter_table_are_not_compared() {
    let old = build_menu(Menu::new(vec![MenuItem::button("A", 1u32)]));
    let new = build_menu(Menu::new(vec![MenuItem::button("A", 1u32), MenuItem::button("B", 2)]));
    let (root, updated, removed) = generate_diff(&new, &old);
    assert_eq!(root, Some(0));
    assert!(updated.is_empty());
    assert!(removed.is_empty());

    let (root, updated, removed) = generate_diff(&old, &new);
    assert_eq!(root, Some(0));
    assert!(updated.is_empty());
    assert!(removed.is_empty());
}

#[test]
fn same_indices_compares_by_value() {
    assert!(same_indices(&vec![1, 2, 3], &vec![1, 2, 3]));
    assert!(!same_indices(&vec![1, 2, 3], &vec![1, 2, 4]));
    assert!(!same_indices(&vec![1, 2], &vec![1, 2, 3]));
    assert!(same_indices(&vec![], &vec![]));
}
