use betrayer::menu::ClickType;
use betrayer::windows::{
    bgra_and_mask, encode_wide, utf16_units, DataAction, TrayIconData, LOWORD, NIF_ICON, NIF_MESSAGE, NIF_TIP, TIP_LEN,
    WM_LBUTTONDBLCLK, WM_LBUTTONUP, WM_RBUTTONUP,
};

#[test]
fn loword_is_the_low_half() {
    assert_eq!(LOWORD(0), 0);
    assert_eq!(LOWORD(0x1234_5678), 0x5678);
    assert_eq!(LOWORD(0xFFFF_FFFF), 0xFFFF);
    assert_eq!(LOWORD(0x0001_0000), 0);
}

#[test]
fn mouse_messages_are_clicks() {
    assert_eq!(ClickType::from_lparam(WM_LBUTTONUP as isize), Some(ClickType::Left));
    assert_eq!(ClickType::from_lparam(WM_RBUTTONUP as isize), Some(ClickType::Right));
    assert_eq!(ClickType::from_lparam(WM_LBUTTONDBLCLK as isize), Some(ClickType::Double));
    assert_eq!(ClickType::from_lparam(0x0200), None);
    assert_eq!(ClickType::from_lparam(0), None);
    assert_eq!(ClickType::from_lparam(-1), None);
    assert_eq!(ClickType::from_lparam(0x1_0000_0202), Some(ClickType::Left));
}

#[test]
fn wide_text_ends_in_zero() {
    assert_eq!(encode_wide(""), vec![0]);
    assert_eq!(encode_wide("ab"), vec![0x61, 0x62, 0]);
    assert_eq!(encode_wide("\u{e9}\u{20ac}"), vec![0xE9, 0x20AC, 0]);
    assert_eq!(encode_wide("\u{1F600}"), vec![0xD83D, 0xDE00, 0]);
    assert_eq!(encode_wide("\u{10000}\u{10FFFF}"), vec![0xD800, 0xDC00, 0xDBFF, 0xDFFF, 0]);
}

#[test]
fn actions_have_their_numbers() {
    assert_eq!(DataAction::Add.message(), 0);
    assert_eq!(DataAction::Modify.message(), 1);
    assert_eq!(DataAction::Remove.message(), 2);
}

#[test]
fn new_data_sets_nothing() {
    let data = TrayIconData::new();
    assert_eq!(data.get_flags(), 0);
    assert_eq!(data.get_callback_message(), 0);
    assert_eq!(data.get_icon(), 0);
    assert_eq!(data.get_tip(), &vec![0u16; TIP_LEN]);
}

#[test]
fn data_collects_flags() {
    let data = TrayIconData::new().with_message(6002).with_icon(77);
    assert_eq!(data.get_flags(), NIF_MESSAGE | NIF_ICON);
    assert_eq!(data.get_callback_message(), 6002);
    assert_eq!(data.get_icon(), 77);
    let data = data.with_tooltip("hi");
    assert_eq!(data.get_flags(), NIF_MESSAGE | NIF_ICON | NIF_TIP);
    assert_eq!(&data.get_tip()[..3], &[0x68, 0x69, 0]);
    assert_eq!(data.get_tip().len(), TIP_LEN);
}

#[test]
fn long_tooltip_is_cut_before_the_last_place() {
    let long = "x".repeat(200);
    let data = TrayIconData::new().with_tooltip(&long);
    assert_eq!(data.get_tip().len(), TIP_LEN);
    assert!(data.get_tip()[..TIP_LEN - 1].iter().all(|c| *c == 0x78));
    assert_eq!(data.get_tip()[TIP_LEN - 1], 0);
}

#[test]
fn shorter_tooltip_leaves_the_rest() {
    let data = TrayIconData::new().with_tooltip("abcd").with_tooltip("xy");
    assert_eq!(&data.get_tip()[..5], &[0x78, 0x79, 0x63, 0x64, 0]);
}

#[test]
fn data_from_parts() {
    let data = TrayIconData::from_parts(None, None);
    assert_eq!(data.get_flags(), 0);
    let data = TrayIconData::from_parts(Some("t"), None);
    assert_eq!(data.get_flags(), NIF_TIP);
    assert_eq!(&data.get_tip()[..2], &[0x74, 0]);
    let data = TrayIconData::from_parts(None, Some(5));
    assert_eq!(data.get_flags(), NIF_ICON);
    assert_eq!(data.get_icon(), 5);
    let data = TrayIconData::from_parts(Some("t"), Some(5));
    assert_eq!(data.get_flags(), NIF_TIP | NIF_ICON);
    assert_eq!(data.get_callback_message(), 0);
}

#[test]
fn pixels_change_red_and_blue_and_give_their_mask() {
    let rgba = vec![1, 2, 3, 255, 10, 20, 30, 0, 7, 8, 9, 100];
    let (bgra, mask) = bgra_and_mask(rgba);
    assert_eq!(bgra, vec![3, 2, 1, 255, 30, 20, 10, 0, 9, 8, 7, 100]);
    assert_eq!(mask, vec![0, 255, 155]);
}

#[test]
fn bytes_that_make_no_pixel_stay() {
    let (bgra, mask) = bgra_and_mask(vec![1, 2, 3, 4, 5, 6, 7]);
    assert_eq!(bgra, vec![3, 2, 1, 4, 5, 6, 7]);
    assert_eq!(mask, vec![251]);
    let (bgra, mask) = bgra_and_mask(Vec::new());
    assert!(bgra.is_empty());
    assert!(mask.is_empty());
}

#[test]
fn code_units_are_those_of_utf16() {
    for text in ["", "tray", "\u{e9}t\u{e9}", "\u{20ac}5", "a\u{10000}b\u{10FFFF}", "\u{FFFF}\u{D7FF}\u{E000}"] {
        let expected: Vec<u16> = text.encode_utf16().collect();
        assert_eq!(utf16_units(text), expected);
    }
    assert_eq!(utf16_units("\u{10000}"), vec![0xD800, 0xDC00]);
    assert_eq!(utf16_units("\u{10FFFF}"), vec![0xDBFF, 0xDFFF]);
}
