use betrayer::builder::TrayIconBuilder;
use betrayer::error::{ErrorSource, TrayError};
use betrayer::icon::{check_dimensions, Icon, NativeIcon};
use betrayer::item::{
    decimal_string, get_tmp_icon_path, service_name, StatusNotifierItem, TrayUpdate,
};
use betrayer::menu::{ClickType, Menu, MenuItem, TrayEvent};

const PNG_SIGNATURE: [u8; 8] = [137, 80, 78, 71, 13, 10, 26, 10];

fn pixels_of(icon: NativeIcon) -> Vec<u8> {
    match icon {
        NativeIcon::Pixels(bytes) => bytes,
        NativeIcon::Path(path) => panic!("unexpected path {path}"),
    }
}

/// The pixels and dimensions of a PNG file.
fn decode(bytes: &[u8]) -> (Vec<u8>, u32, u32) {
    let decoder = png::Decoder::new(bytes);
    let mut reader = decoder.read_info().unwrap();
    let mut buffer = vec![0; reader.output_buffer_size()];
    let info = reader.next_frame(&mut buffer).unwrap();
    buffer.truncate(info.buffer_size());
    (buffer, info.width, info.height)
}

#[test]
fn dimensions_have_to_fit_the_pixels() {
    assert!(check_dimensions(&vec![0; 16], 2, 2));
    assert!(check_dimensions(&vec![0; 24], 3, 2));
    assert!(!check_dimensions(&vec![0; 15], 2, 2));
    assert!(!check_dimensions(&vec![0; 16], 4, 4));
    assert!(!check_dimensions(&vec![], 0, 0));
    assert!(!check_dimensions(&vec![], 0, 5));
    assert!(!check_dimensions(&vec![], 65536, 16384));
    assert!(!check_dimensions(&vec![0; 4], u32::MAX, u32::MAX));
}

#[test]
fn rgba_becomes_a_png_file_of_the_same_pixels() {
    let rgba: Vec<u8> = (0..24).map(|i| (i * 10) as u8).collect();
    let bytes = pixels_of(NativeIcon::from_rgba(rgba.clone(), 3, 2).unwrap());
    assert_ne!(bytes, rgba);
    assert_eq!(&bytes[..8], &PNG_SIGNATURE);
    assert_eq!(decode(&bytes), (rgba, 3, 2));
}

#[test]
fn same_pixels_give_the_same_file() {
    let rgba = vec![255u8; 64];
    let first = pixels_of(NativeIcon::from_rgba(rgba.clone(), 4, 4).unwrap());
    let second = pixels_of(NativeIcon::from_rgba(rgba.clone(), 4, 4).unwrap());
    assert_eq!(first, second);
    let other = pixels_of(NativeIcon::from_rgba(rgba, 2, 8).unwrap());
    assert_ne!(first, other);
}

#[test]
fn wrong_dimensions_are_an_error() {
    let error = Icon::from_rgba(vec![0; 15], 2, 2).unwrap_err();
    assert_eq!(error.message(), "Invalid dimensions");
    assert!(matches!(error.source, ErrorSource::Custom(_)));
    let error = Icon::from_rgba(vec![], 0, 0).unwrap_err();
    assert_eq!(error.message(), "Invalid dimensions");
    let error = NativeIcon::from_rgba(vec![0; 4], 1, 2).unwrap_err();
    assert_eq!(error.message(), "Invalid dimensions");
}

#[test]
fn encoder_failure_is_an_error_of_the_library() {
    let error = NativeIcon::from_encoding(Err(png::EncodingError::LimitsExceeded)).unwrap_err();
    assert_eq!(error.message(), "Failed to encode the icon");
    assert_eq!(NativeIcon::from_encoding(Ok(vec![1, 2, 3])).unwrap(), NativeIcon::Pixels(vec![1, 2, 3]));
}

#[test]
fn png_bytes_are_taken_as_they_are() {
    let icon = Icon::from_png_bytes(&[1, 2, 3]).unwrap();
    assert_eq!(icon, Icon(NativeIcon::Pixels(vec![1, 2, 3])));
    assert_eq!(icon.into_native(), NativeIcon::Pixels(vec![1, 2, 3]));
    assert_eq!(NativeIcon::from_png_bytes(&[]).unwrap(), NativeIcon::Pixels(vec![]));
    let icon = Icon::from_rgba(vec![7; 4], 1, 1).unwrap();
    assert_eq!(decode(&pixels_of(icon.into_native())), (vec![7; 4], 1, 1));
}

#[test]
fn errors_keep_their_text() {
    assert_eq!(TrayError::custom("broken").message(), "broken");
    assert_eq!(TrayError::os("no bus").message(), "no bus");
    assert!(matches!(TrayError::os("no bus").source, ErrorSource::Os(_)));
}

#[test]
fn numbers_are_written_in_base_ten() {
    assert_eq!(decimal_string(0), "0");
    assert_eq!(decimal_string(7), "7");
    assert_eq!(decimal_string(10), "10");
    assert_eq!(decimal_string(1234567890), "1234567890");
    assert_eq!(decimal_string(u32::MAX), "4294967295");
}

#[test]
fn names_hold_the_process_and_the_number() {
    assert_eq!(service_name(4711, 2), "org.kde.StatusNotifierItem-4711-2");
    assert_eq!(get_tmp_icon_path("/run/user/1000/betrayer", (4711, 2), 0), "/run/user/1000/betrayer/icon-4711-2-0.png");
    assert_eq!(get_tmp_icon_path("", (0, 0), 13), "/icon-0-0-13.png");
}

#[test]
fn pixels_go_to_a_numbered_file() {
    let icon = NativeIcon::Pixels(vec![1, 2, 3]);
    let mut counter = 5;
    let (path, contents) = icon.write_to_disk("/tmp/b", (1, 2), &mut counter);
    assert_eq!(path, "/tmp/b/icon-1-2-5.png");
    assert_eq!(contents, Some(&vec![1, 2, 3]));
    assert_eq!(counter, 6);

    let mut counter = u32::MAX;
    let (path, _) = icon.write_to_disk("/tmp/b", (1, 2), &mut counter);
    assert_eq!(path, "/tmp/b/icon-1-2-4294967295.png");
    assert_eq!(counter, 0);
}

#[test]
fn icon_file_is_used_as_it_is() {
    let icon = NativeIcon::Path("/usr/share/icons/a.png".to_string());
    let mut counter = 5;
    let (path, contents) = icon.write_to_disk("/tmp/b", (1, 2), &mut counter);
    assert_eq!(path, "/usr/share/icons/a.png");
    assert_eq!(contents, None);
    assert_eq!(counter, 5);
}

#[test]
fn missing_values_of_an_update_are_empty() {
    assert!(matches!(TrayUpdate::<u32>::tooltip(None), TrayUpdate::Tooltip(t) if t.is_empty()));
    assert!(matches!(TrayUpdate::<u32>::tooltip(Some("tip".to_string())), TrayUpdate::Tooltip(t) if t == "tip"));
    assert!(matches!(TrayUpdate::<u32>::icon(None), TrayUpdate::Icon(t) if t.is_empty()));
    assert!(matches!(TrayUpdate::<u32>::icon(Some("a.png".to_string())), TrayUpdate::Icon(t) if t == "a.png"));
    assert!(matches!(TrayUpdate::<u32>::menu(None), TrayUpdate::Menu(m) if m == Menu::empty()));
    let menu = || Menu::new(vec![MenuItem::button("A", 1u32)]);
    assert!(matches!(TrayUpdate::menu(Some(menu())), TrayUpdate::Menu(m) if m == menu()));
}

#[test]
fn first_activation_is_silent() {
    let mut item = StatusNotifierItem::new("icon".to_string(), "tip".to_string());
    assert_eq!(item.activate::<u32>(0, 0), None);
    assert_eq!(item.activate::<u32>(3, 4), Some(TrayEvent::Tray(ClickType::Double)));
    assert_eq!(item.activate::<u32>(0, 0), Some(TrayEvent::Tray(ClickType::Double)));
}

#[test]
fn item_serves_its_properties() {
    let mut item = StatusNotifierItem::new("icon".to_string(), "tip".to_string());
    assert_eq!(item.icon_name(), "icon");
    assert_eq!(item.tool_tip(), (String::new(), vec![], "tip".to_string(), String::new()));
    item.update_icon("other".to_string());
    item.update_tooltip("hint".to_string());
    assert_eq!(item.icon_name(), "other");
    assert_eq!(item.tool_tip().2, "hint");
    assert_eq!(item.category(), "ApplicationStatus");
    assert_eq!(item.id(), "betrayer");
    assert_eq!(item.menu(), "/MenuBar");
    assert_eq!(item.status(), "Active");
    assert_eq!(item.title(), "CHECKED!");
    assert_eq!(item.window_id(), 0);
    assert!(!item.item_is_menu());
    assert!(item.attention_icon_name().is_empty());
    assert!(item.attention_movie_name().is_empty());
    assert!(item.overlay_icon_name().is_empty());
    assert!(item.icon_theme_path().is_empty());
}

#[test]
fn builder_collects_its_parts() {
    let builder = TrayIconBuilder::<u32>::new();
    assert!(builder.menu.is_none() && builder.tooltip.is_none() && builder.icon.is_none());
    let builder = builder
        .with_tooltip("tip")
        .with_menu(Menu::new(vec![MenuItem::separator()]))
        .with_icon(Icon(NativeIcon::Path("a.png".to_string())));
    assert_eq!(builder.tooltip, Some("tip".to_string()));
    assert_eq!(builder.menu, Some(Menu::new(vec![MenuItem::separator()])));
    assert_eq!(builder.icon, Some(Icon(NativeIcon::Path("a.png".to_string()))));
    let builder = builder.with_tooltip("other");
    assert_eq!(builder.tooltip, Some("other".to_string()));
    assert!(builder.menu.is_some());
}
