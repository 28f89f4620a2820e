use winseek::icon::{decode_bgra, WindowIconError};
use winseek::inventory::{
    build_record, filter_windows, should_list_window, title_is_blank, RawWindow, WS_EX_TOOLWINDOW,
    WS_VISIBLE,
};

fn raw(handle: usize, style: u32, ex_style: u32, title: &str, class_name: &str) -> RawWindow {
    RawWindow {
        handle,
        style,
        ex_style,
        title: title.to_owned(),
        class_name: class_name.to_owned(),
    }
}

#[test]
fn blank_titles() {
    assert!(title_is_blank(""));
    assert!(title_is_blank("   "));
    assert!(title_is_blank(" \t\r\n"));
    assert!(!title_is_blank("a"));
    assert!(!title_is_blank("  a  "));
}

#[test]
fn policy_requires_visible_flag() {
    assert!(should_list_window(WS_VISIBLE, 0, &"Editor".to_owned(), &"EditorClass".to_owned()));
    assert!(!should_list_window(0, 0, &"Editor".to_owned(), &"EditorClass".to_owned()));
}

#[test]
fn policy_excludes_tool_windows() {
    assert!(!should_list_window(
        WS_VISIBLE,
        WS_EX_TOOLWINDOW,
        &"Palette".to_owned(),
        &"PaletteClass".to_owned()
    ));
}

#[test]
fn policy_excludes_blank_titles() {
    assert!(!should_list_window(WS_VISIBLE, 0, &"".to_owned(), &"SomeClass".to_owned()));
    assert!(!should_list_window(WS_VISIBLE, 0, &"   ".to_owned(), &"SomeClass".to_owned()));
}

#[test]
fn policy_excludes_shell_pseudo_windows() {
    assert!(!should_list_window(
        WS_VISIBLE,
        0,
        &"Search".to_owned(),
        &"Windows.UI.Core.CoreWindow".to_owned()
    ));
}

#[test]
fn filter_keeps_only_listed_windows_in_order() {
    let candidates = vec![
        raw(1, WS_VISIBLE, 0, "Visual Studio Code", "Chrome_WidgetWin_1"),
        raw(2, 0, 0, "Hidden", "SomeClass"),
        raw(3, WS_VISIBLE, WS_EX_TOOLWINDOW, "Palette", "SomeClass"),
        raw(4, WS_VISIBLE, 0, "", "SomeClass"),
        raw(5, WS_VISIBLE, 0, "  \t ", "SomeClass"),
        raw(6, WS_VISIBLE, 0, "Search", "Windows.UI.Core.CoreWindow"),
        raw(7, WS_VISIBLE, 0, "Slack", "SlackClass"),
    ];
    let kept = filter_windows(candidates);
    let handles: Vec<usize> = kept.iter().map(|w| w.handle).collect();
    assert_eq!(handles, vec![1, 7]);
    assert_eq!(kept[0].title, "Visual Studio Code");
    assert_eq!(kept[1].title, "Slack");
}

#[test]
fn record_keeps_extracted_icon() {
    let data = vec![1u8, 2, 3, 4];
    let icon = decode_bgra(&data, 1, 1).unwrap();
    let rec = build_record(42, "Editor".to_owned(), Ok(icon));
    assert_eq!(rec.handle, 42);
    assert_eq!(rec.title, "Editor");
    assert_eq!(rec.icon_size, Some((1, 1)));
    let kept = rec.icon.expect("icon is always present");
    assert_eq!(kept.width, 1);
    assert_eq!(kept.pixels.len(), 1);
}

#[test]
fn failed_extraction_yields_transparent_placeholder() {
    // Any failure variant is replaced by the 32x32 fully transparent icon.
    for err in [
        WindowIconError::NoIcon,
        WindowIconError::GetIconInfoFailed,
        WindowIconError::CreateDIBSectionFailed,
        WindowIconError::GetDIBitsFailed,
    ] {
        let rec = build_record(7, "Stubborn".to_owned(), Err(err));
        assert_eq!(rec.handle, 7);
        assert_eq!(rec.icon_size, Some((32, 32)));
        let icon = rec.icon.expect("icon is always present");
        assert_eq!(icon.width, 32);
        assert_eq!(icon.height, 32);
        assert_eq!(icon.pixels.len(), 32 * 32);
        assert!(icon.pixels.iter().all(|px| px.a == 0));
    }
}
