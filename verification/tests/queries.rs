use betrayer::dbus_menu::{event, event_group, DBusMenu};
use betrayer::entry::build_menu;
use betrayer::menu::{ClickType, Menu, MenuItem, TrayEvent};
use betrayer::property::PropertyValue;
use betrayer::query::{
    collect, get_group_properties, get_layout, get_property, is_row_named, layout_depth, row_of,
    LayoutNode,
};

fn text(value: &str) -> PropertyValue {
    PropertyValue::Text(value.to_string())
}

fn sample() -> Menu<String> {
    Menu::new(vec![
        MenuItem::menu(
            "Profiles",
            vec![
                MenuItem::check_button("One", "one".to_string(), true),
                MenuItem::menu("Deep", vec![MenuItem::button("Leaf", "leaf".to_string())]),
            ],
        ),
        MenuItem::separator(),
        MenuItem::button("Quit", "quit".to_string()),
    ])
}

/// The rows of a node and of the nodes below it, with their depth.
fn shape(node: &LayoutNode, depth: usize, rows: &mut Vec<(usize, usize)>) {
    rows.push((depth, node.id));
    for child in &node.children {
        shape(child, depth + 1, rows);
    }
}

#[test]
fn layout_depth_takes_negative_for_everything() {
    assert_eq!(layout_depth(-1), u32::MAX);
    assert_eq!(layout_depth(i32::MIN), u32::MAX);
    assert_eq!(layout_depth(0), 0);
    assert_eq!(layout_depth(3), 3);
    assert_eq!(layout_depth(i32::MAX), 2147483647);
}

#[test]
fn row_of_rejects_what_is_no_row() {
    let table = build_menu(sample());
    assert_eq!(row_of(&table, 0), Some(0));
    assert_eq!(row_of(&table, 6), Some(6));
    assert_eq!(row_of(&table, 7), None);
    assert_eq!(row_of(&table, -1), None);
}

#[test]
fn whole_layout_holds_every_row() {
    let table = build_menu(sample());
    let root = get_layout(&table, 0, -1, &[]).unwrap();
    let mut rows = Vec::new();
    shape(&root, 0, &mut rows);
    assert_eq!(rows, vec![(0, 0), (1, 1), (2, 4), (2, 5), (3, 6), (1, 2), (1, 3)]);
    assert_eq!(root.properties.get("children-display"), Some(&text("submenu")));
}

#[test]
fn layout_stops_at_the_depth() {
    let table = build_menu(sample());
    let root = get_layout(&table, 0, 0, &[]).unwrap();
    assert!(root.children.is_empty());

    let root = get_layout(&table, 0, 1, &[]).unwrap();
    let mut rows = Vec::new();
    shape(&root, 0, &mut rows);
    assert_eq!(rows, vec![(0, 0), (1, 1), (1, 2), (1, 3)]);

    let root = get_layout(&table, 1, 2, &[]).unwrap();
    let mut rows = Vec::new();
    shape(&root, 0, &mut rows);
    assert_eq!(rows, vec![(0, 1), (1, 4), (1, 5), (2, 6)]);
}

#[test]
fn layout_beyond_the_height_is_the_whole_layout() {
    let table = build_menu(sample());
    let mut all = Vec::new();
    shape(&get_layout(&table, 0, -1, &[]).unwrap(), 0, &mut all);
    let mut deep = Vec::new();
    shape(&get_layout(&table, 0, 1000, &[]).unwrap(), 0, &mut deep);
    assert_eq!(all, deep);
}

#[test]
fn layout_of_no_row_is_none() {
    let table = build_menu(sample());
    assert!(get_layout(&table, 7, -1, &[]).is_none());
    assert!(get_layout(&table, -3, -1, &[]).is_none());
}

#[test]
fn layout_holds_the_requested_properties() {
    let table = build_menu(sample());
    let root = get_layout(&table, 1, 1, &["toggle-state"]).unwrap();
    assert!(root.properties.is_empty());
    assert_eq!(root.children[0].properties.len(), 1);
    assert_eq!(root.children[0].properties.get("toggle-state"), Some(&PropertyValue::Int(1)));
    assert!(root.children[1].properties.is_empty());
}

#[test]
fn collect_of_nothing_is_nothing() {
    let table = build_menu(sample());
    assert!(collect(&vec![], &table, &[], 5).is_empty());
    assert!(collect(&vec![1, 2], &table, &[], 0).is_empty());
    let nodes = collect(&vec![3, 1], &table, &[], 1);
    assert_eq!(nodes.len(), 2);
    assert_eq!(nodes[0].id, 3);
    assert_eq!(nodes[1].id, 1);
    assert!(nodes[1].children.is_empty());
}

#[test]
fn group_properties_of_named_rows() {
    let table = build_menu(sample());
    let all = get_group_properties(&table, &vec![], &[]);
    assert_eq!(all.iter().map(|r| r.0).collect::<Vec<_>>(), vec![0, 1, 2, 3, 4, 5, 6]);
    let some = get_group_properties(&table, &vec![6, -1, 3, 99], &["label"]);
    assert_eq!(some.iter().map(|r| r.0).collect::<Vec<_>>(), vec![3, 6]);
    assert_eq!(some[0].1.get("label"), Some(&text("Quit")));
    assert_eq!(some[1].1.get("label"), Some(&text("Leaf")));
    assert!(is_row_named(&vec![], 9));
    assert!(is_row_named(&vec![4, 9], 9));
    assert!(!is_row_named(&vec![4, -9], 9));
}

#[test]
fn property_of_a_row() {
    let table = build_menu(sample());
    assert_eq!(get_property(&table, 1, "label"), Some(text("Profiles")));
    assert_eq!(get_property(&table, 4, "toggle-state"), Some(PropertyValue::Int(1)));
    assert_eq!(get_property(&table, 2, "label"), None);
    assert_eq!(get_property(&table, 20, "label"), None);
    assert_eq!(get_property(&table, -1, "label"), None);
}

#[test]
fn click_on_a_button_gives_its_token() {
    let token = "quit".to_string();
    let menu = Menu::new(vec![
        MenuItem::separator(),
        MenuItem::menu("More", vec![]),
        MenuItem::button("Quit", token.clone()),
    ]);
    let mut caller_token = token;
    let table = build_menu(menu);
    caller_token.push_str(" changed");
    assert_eq!(event(&table, 3, "clicked", 0), Some(TrayEvent::Menu("quit".to_string())));
    assert_eq!(event(&table, 3, "clicked", 7), Some(TrayEvent::Menu("quit".to_string())));
    assert_eq!(caller_token, "quit changed");
}

#[test]
fn click_elsewhere_gives_nothing() {
    let table = build_menu(sample());
    assert_eq!(event(&table, 0, "clicked", 0), None);
    assert_eq!(event(&table, 1, "clicked", 0), None);
    assert_eq!(event(&table, 2, "clicked", 0), None);
    assert_eq!(event(&table, 99, "clicked", 0), None);
    assert_eq!(event(&table, -1, "clicked", 0), None);
}

#[test]
fn opening_the_root_is_a_left_click() {
    let table = build_menu(sample());
    assert_eq!(event(&table, 0, "opened", 0), Some(TrayEvent::Tray(ClickType::Left)));
    assert_eq!(event(&table, 1, "opened", 0), None);
    assert_eq!(event(&table, 0, "closed", 0), None);
    assert_eq!(event(&table, 3, "hovered", 0), None);
    assert_eq!(event(&table, 3, "", 0), None);
}

#[test]
fn events_of_a_group_are_answered_in_order() {
    let table = build_menu(sample());
    let answers = event_group(
        &table,
        &vec![(3, "clicked", 1), (2, "clicked", 2), (0, "opened", 3), (4, "clicked", 4)],
    );
    assert_eq!(
        answers,
        vec![
            Some(TrayEvent::Menu("quit".to_string())),
            None,
            Some(TrayEvent::Tray(ClickType::Left)),
            Some(TrayEvent::Menu("one".to_string())),
        ]
    );
    assert!(event_group(&table, &vec![]).is_empty());
}

#[test]
fn update_raises_the_revision_when_the_structure_changes() {
    let mut served = DBusMenu::new(Menu::new(vec![MenuItem::button("A", 1u32)]));
    assert_eq!(served.current_revision(), 0);
    assert_eq!(served.entries().len(), 2);

    let update = served.update_menu(Menu::new(vec![MenuItem::button("B", 1u32)]));
    assert_eq!(update.layout, None);
    assert!(update.has_property_changes());
    assert_eq!(update.updated.len(), 1);
    assert_eq!(update.updated[0].0, 1);
    assert_eq!(update.updated[0].1.get("label"), Some(&text("B")));
    assert!(update.removed.is_empty());
    assert_eq!(served.current_revision(), 0);

    let update = served.update_menu(Menu::new(vec![
        MenuItem::button("B", 1u32),
        MenuItem::button("C", 2u32),
    ]));
    assert_eq!(update.layout, Some((1, 0)));
    assert!(!update.has_property_changes());
    assert_eq!(served.current_revision(), 1);
    assert_eq!(served.entries().len(), 3);

    let update = served.update_menu(Menu::new(vec![
        MenuItem::button("B", 1u32),
        MenuItem::button("C", 2u32),
    ]));
    assert_eq!(update.layout, None);
    assert!(!update.has_property_changes());
    assert_eq!(served.current_revision(), 1);
}

#[test]
fn served_menu_answers_queries() {
    let served = DBusMenu::new(sample());
    let (revision, root) = served.get_layout(0, 1, &[]).unwrap();
    assert_eq!(revision, 0);
    assert_eq!(root.children.len(), 3);
    assert!(served.get_layout(9, 1, &[]).is_none());
    assert_eq!(served.get_group_properties(&vec![2], &[]).len(), 1);
    assert_eq!(served.get_property(3, "label"), Some(text("Quit")));
    assert_eq!(served.event(3, "clicked", 0), Some(TrayEvent::Menu("quit".to_string())));
    assert_eq!(served.event_group(&vec![(2, "clicked", 0)]), vec![None]);
    assert!(!served.about_to_show(1));
    assert_eq!(served.about_to_show_group(&vec![1, 2]), (vec![], vec![]));
    assert!(served.icon_theme_path().is_empty());
    assert_eq!(served.status(), "normal");
    assert_eq!(served.text_direction(), "ltr");
    assert_eq!(served.version(), 3);
}

#[test]
fn token_is_the_one_given_when_the_menu_was_built() {
    let mut token = String::from("first");
    let menu = Menu::new(vec![MenuItem::button("Go", token.clone())]);
    let served = DBusMenu::new(menu);
    token.push_str(", changed later");
    assert_eq!(served.event(1, "clicked", 0), Some(TrayEvent::Menu("first".to_string())));
    assert_eq!(served.event(1, "clicked", 7), Some(TrayEvent::Menu("first".to_string())));
    assert_eq!(token, "first, changed later");
}
