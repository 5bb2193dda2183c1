use betrayer::entry::{build_menu, MenuEntry};
use betrayer::menu::{Menu, MenuItem};
use betrayer::property::{PropertyMap, PropertyValue};

fn text(value: &str) -> PropertyValue {
    PropertyValue::Text(value.to_string())
}

fn sample() -> Menu<u32> {
    Menu::new(vec![
        MenuItem::menu(
            "Profiles",
            vec![
                MenuItem::check_button("One", 1, true),
                MenuItem::check_button("Two", 2, false),
            ],
        ),
        MenuItem::separator(),
        MenuItem::button("Open", 10),
        MenuItem::menu("More", vec![MenuItem::button("Quit", 11)]),
    ])
}

fn children_of(table: &Vec<MenuEntry<u32>>) -> Vec<Vec<usize>> {
    table.iter().map(|e| e.children.clone()).collect()
}

#[test]
fn empty_menu_is_the_root_alone() {
    let table = build_menu(Menu::<u32>::empty());
    assert_eq!(table.len(), 1);
    assert!(table[0].children.is_empty());
    assert!(table[0].signal.is_none());
    assert_eq!(table[0].properties.len(), 1);
    assert_eq!(table[0].properties.get("children-display"), Some(&text("submenu")));
}

#[test]
fn rows_follow_breadth_first_order() {
    let table = build_menu(sample());
    assert_eq!(
        children_of(&table),
        vec![
            vec![1, 2, 3, 4],
            vec![5, 6],
            vec![],
            vec![],
            vec![7],
            vec![],
            vec![],
            vec![],
        ]
    );
    let labels: Vec<Option<&PropertyValue>> =
        table.iter().map(|e| e.properties.get("label")).collect();
    assert_eq!(
        labels,
        vec![
            None,
            Some(&text("Profiles")),
            None,
            Some(&text("Open")),
            Some(&text("More")),
            Some(&text("One")),
            Some(&text("Two")),
            Some(&text("Quit")),
        ]
    );
}

#[test]
fn children_lie_behind_their_parent_and_within_the_table() {
    let table = build_menu(sample());
    for (i, entry) in table.iter().enumerate() {
        for child in &entry.children {
            assert!(*child > i);
            assert!(*child < table.len());
        }
    }
}

#[test]
fn nested_submenus_take_the_next_free_rows() {
    let menu = Menu::new(vec![
        MenuItem::menu(
            "a",
            vec![MenuItem::menu("b", vec![MenuItem::button("c", 3u32)]), MenuItem::separator()],
        ),
        MenuItem::menu("d", vec![MenuItem::button("e", 5)]),
    ]);
    let table = build_menu(menu);
    assert_eq!(
        children_of(&table),
        vec![vec![1, 2], vec![3, 4], vec![5], vec![6], vec![], vec![], vec![]]
    );
    assert_eq!(table[6].signal, Some(3));
    assert_eq!(table[5].signal, Some(5));
}

#[test]
fn separator_has_its_type_alone() {
    let table = build_menu(Menu::<u32>::new(vec![MenuItem::separator()]));
    let mut expected = PropertyMap::new();
    expected.insert("type".to_string(), text("separator"));
    assert!(table[1].properties == expected);
    assert!(table[1].signal.is_none());
}

#[test]
fn plain_button_has_its_label_alone() {
    let table = build_menu(Menu::new(vec![MenuItem::button("Open", 7u32)]));
    let mut expected = PropertyMap::new();
    expected.insert("label".to_string(), text("Open"));
    assert!(table[1].properties == expected);
    assert!(!table[1].properties.contains_key("toggle-state"));
    assert!(!table[1].properties.contains_key("toggle-type"));
    assert_eq!(table[1].signal, Some(7));
}

#[test]
fn check_button_has_a_toggle_state() {
    let table = build_menu(Menu::new(vec![
        MenuItem::check_button("On", 1u32, true),
        MenuItem::check_button("Off", 2u32, false),
    ]));
    assert_eq!(table[1].properties.len(), 3);
    assert_eq!(table[1].properties.get("toggle-type"), Some(&text("checkmark")));
    assert_eq!(table[1].properties.get("toggle-state"), Some(&PropertyValue::Int(1)));
    assert_eq!(table[2].properties.get("toggle-state"), Some(&PropertyValue::Int(0)));
}

#[test]
fn submenu_is_displayed_as_submenu() {
    let table = build_menu(Menu::<u32>::new(vec![MenuItem::menu("More", vec![])]));
    let mut expected = PropertyMap::new();
    expected.insert("children-display".to_string(), text("submenu"));
    expected.insert("label".to_string(), text("More"));
    assert!(table[1].properties == expected);
    assert!(table[1].children.is_empty());
    assert!(table[1].signal.is_none());
}

#[test]
fn item_count_counts_every_item() {
    assert_eq!(sample().item_count(), Some(7));
    assert_eq!(Menu::<u32>::empty().item_count(), Some(0));
}
