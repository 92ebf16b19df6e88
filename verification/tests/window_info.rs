use virtual_desktop_manager::config_window::{
    compare_cells, compare_rows, compare_text, configure_filters, create_window_with_position,
    create_window_with_size, fallback_column, get_selected_filter_index, get_sort_info,
    need_rebuild, next_arrow, parse_i64, save_position_and_size, selection_value,
    ConfigureAction, RowKey, RowOrder, SortArrow,
    COLUMN_FILTERS_INDEX, COLUMN_WINDOWS_INDEX, GROUP_FILTERS, GROUP_WINDOWS,
};
use virtual_desktop_manager::nwg_ext::number_select::{
    logical_to_physical, physical_to_logical, window_size,
};
use virtual_desktop_manager::nwg_ext::{
    flag, group_id_or_none, is_on, len_until_nul, ListViewGroupAlignment, ListViewGroupFlags,
    ListViewGroupInfo, WindowPlacement,
};
use virtual_desktop_manager::settings::ConfigWindowInfo;
use virtual_desktop_manager::vd::Desktop;
use virtual_desktop_manager::window_info::{
    get_process_name, GetAllError, VirtualDesktopInfo, WindowHandle, WindowInfo,
};

fn window(handle: isize, title: &str) -> WindowInfo {
    WindowInfo {
        handle: WindowHandle(handle),
        title: title.to_string(),
        process_id: 4,
        process_name: "explorer".to_string(),
        virtual_desktop: VirtualDesktopInfo::AtDesktop { desktop: Desktop::Index(0), index: 0 },
    }
}

#[test]
fn where_a_window_is_shown() {
    let at = VirtualDesktopInfo::AtDesktop { desktop: Desktop::Guid(7), index: 2 };
    assert!(VirtualDesktopInfo::WindowPinned.is_window_pinned());
    assert!(!VirtualDesktopInfo::WindowPinned.is_app_pinned());
    assert!(!VirtualDesktopInfo::WindowPinned.is_at_desktop());
    assert!(VirtualDesktopInfo::AppPinned.is_app_pinned());
    assert!(!VirtualDesktopInfo::AppPinned.is_window_pinned());
    assert!(at.is_at_desktop());
    assert!(!at.is_app_pinned());
    assert_eq!(VirtualDesktopInfo::WindowPinned.label(), "Pinned Window");
    assert_eq!(VirtualDesktopInfo::AppPinned.label(), "Pinned App");
    assert_eq!(at.label(), "3");
    assert_eq!(
        VirtualDesktopInfo::AtDesktop { desktop: Desktop::Index(0), index: u32::MAX }.label(),
        "4294967296"
    );
}

#[test]
fn a_pinned_program_counts_before_a_pinned_window() {
    let desktop = Desktop::Index(1);
    assert_eq!(
        VirtualDesktopInfo::from_answers(true, true, desktop, 1),
        VirtualDesktopInfo::AppPinned
    );
    assert_eq!(
        VirtualDesktopInfo::from_answers(false, true, desktop, 1),
        VirtualDesktopInfo::WindowPinned
    );
    assert_eq!(
        VirtualDesktopInfo::from_answers(false, false, desktop, 1),
        VirtualDesktopInfo::AtDesktop { desktop, index: 1 }
    );
}

#[test]
fn windows_that_could_not_be_read_are_left_out() {
    assert_eq!(WindowInfo::get_all(vec![]), vec![]);
    let all = WindowInfo::get_all(vec![
        Err(GetAllError::Title(5)),
        Ok(window(1, "first")),
        Err(GetAllError::ProcessId(6)),
        Err(GetAllError::ProcessName(7)),
        Ok(window(2, "second")),
        Err(GetAllError::VirtualDesktop(8)),
    ]);
    assert_eq!(all, vec![window(1, "first"), window(2, "second")]);
}

#[test]
fn the_name_of_a_program_is_cut_out_of_its_path() {
    assert_eq!(get_process_name("C:\\Windows\\explorer.exe"), "explorer");
    assert_eq!(get_process_name("C:/Program Files/App/app.exe"), "app");
    assert_eq!(get_process_name("C:\\mixed/path\\tool"), "tool");
    assert_eq!(get_process_name("notepad.exe"), "notepad");
    assert_eq!(get_process_name(".exe"), "");
    assert_eq!(get_process_name("exe"), "exe");
    assert_eq!(get_process_name("a.EXE"), "a.EXE");
    assert_eq!(get_process_name("dir.exe\\"), "");
    assert_eq!(get_process_name("dir.exe\\x"), "x");
    assert_eq!(get_process_name(""), "");
    assert_eq!(get_process_name("C:\\b\u{e5}t\\skrivbord\u{e5}.exe"), "skrivbord\u{e5}");
}

#[test]
fn pixels_are_scaled_by_the_resolution() {
    assert_eq!(logical_to_physical(100, 200, 96), (100, 200));
    assert_eq!(logical_to_physical(100, 200, 144), (150, 300));
    assert_eq!(logical_to_physical(1, 3, 144), (2, 5));
    assert_eq!(logical_to_physical(-1, -3, 144), (-2, -5));
    assert_eq!(logical_to_physical(7, -7, 0), (0, 0));
    assert_eq!(logical_to_physical(i32::MAX, i32::MIN, 192), (i32::MAX, i32::MIN));
    assert_eq!(logical_to_physical(i32::MIN, 5, 96), (i32::MIN, 5));
    assert_eq!(physical_to_logical(150, 300, 144), (100, 200));
    assert_eq!(physical_to_logical(1, 2, 192), (1, 1));
    assert_eq!(physical_to_logical(-1, 5, 192), (-1, 3));
    assert_eq!(physical_to_logical(100, -100, -96), (-100, 100));
    assert_eq!(physical_to_logical(i32::MAX, 3, 1), (i32::MAX, 288));
    assert_eq!(window_size((640, -1)), (640, u32::MAX));
}

#[test]
fn show_states_become_placements() {
    assert_eq!(WindowPlacement::from_show_cmd(1), WindowPlacement::Normal);
    assert_eq!(WindowPlacement::from_show_cmd(2), WindowPlacement::Minimized);
    assert_eq!(WindowPlacement::from_show_cmd(3), WindowPlacement::Maximized);
    assert_eq!(WindowPlacement::from_show_cmd(0), WindowPlacement::Normal);
    assert_eq!(WindowPlacement::from_show_cmd(9), WindowPlacement::Normal);
}

#[test]
fn a_text_from_the_system_ends_at_the_first_zero() {
    assert_eq!(len_until_nul(&vec![]), 0);
    assert_eq!(len_until_nul(&vec![0]), 0);
    assert_eq!(len_until_nul(&vec![65, 66, 0, 67, 0]), 2);
    assert_eq!(len_until_nul(&vec![65, 66]), 2);
}

fn plain_group() -> ListViewGroupInfo {
    ListViewGroupInfo {
        group_id: 2,
        create_new: false,
        header: None,
        subtitle: None,
        footer: None,
        task: None,
        description_top: None,
        description_bottom: None,
        header_alignment: None,
        footer_alignment: None,
        collapsed: None,
        hidden: None,
        no_header: None,
        collapsible: None,
        focused: None,
        selected: None,
        subseted: None,
        subset_link_focused: None,
    }
}

#[test]
fn a_group_is_described_by_bits() {
    assert_eq!(
        plain_group().flags(),
        ListViewGroupFlags { mask: 0, align: 0, state_mask: 0, state: 0 }
    );
    let new = ListViewGroupInfo {
        create_new: true,
        header: Some("Filters".to_string()),
        collapsible: Some(true),
        collapsed: Some(false),
        ..plain_group()
    };
    assert_eq!(
        new.flags(),
        ListViewGroupFlags { mask: 0x10 | 0x1 | 0x4, align: 0, state_mask: 0x8 | 0x1, state: 0x8 }
    );
    let texts = ListViewGroupInfo {
        footer: Some("f".to_string()),
        subtitle: Some("s".to_string()),
        task: Some("t".to_string()),
        description_top: Some("a".to_string()),
        description_bottom: Some("b".to_string()),
        ..plain_group()
    };
    assert_eq!(texts.flags().mask, 0x2 | 0x100 | 0x200 | 0x400 | 0x800);
    let footer_only = ListViewGroupInfo {
        footer_alignment: Some(ListViewGroupAlignment::Right),
        ..plain_group()
    };
    assert_eq!(footer_only.flags().mask, 0x8);
    assert_eq!(footer_only.flags().align, 0x1 | 0x20);
    let both = ListViewGroupInfo {
        header_alignment: Some(ListViewGroupAlignment::Center),
        footer_alignment: Some(ListViewGroupAlignment::Left),
        ..plain_group()
    };
    assert_eq!(both.flags().align, 0x2 | 0x8);
    let header_only = ListViewGroupInfo {
        header_alignment: Some(ListViewGroupAlignment::Right),
        ..plain_group()
    };
    assert_eq!(header_only.flags().align, 0x4);
    let states = ListViewGroupInfo {
        collapsed: Some(true),
        hidden: Some(true),
        no_header: Some(true),
        collapsible: Some(true),
        focused: Some(true),
        selected: Some(true),
        subseted: Some(true),
        subset_link_focused: Some(false),
        ..plain_group()
    };
    assert_eq!(states.flags().mask, 0x4);
    assert_eq!(states.flags().state_mask, 0xff);
    assert_eq!(states.flags().state, 0x7f);
    assert_eq!(ListViewGroupAlignment::default(), ListViewGroupAlignment::Left);
    assert_eq!(flag(true, 8), 8);
    assert_eq!(flag(false, 8), 0);
    assert!(is_on(Some(true)));
    assert!(!is_on(Some(false)));
    assert!(!is_on(None));
    assert_eq!(group_id_or_none(Some(3)), 3);
    assert_eq!(group_id_or_none(None), -2);
}

#[test]
fn a_click_on_a_header_turns_the_arrow() {
    assert_eq!(next_arrow(None, 0), Some(SortArrow::Down));
    assert_eq!(next_arrow(Some(SortArrow::Down), 0), Some(SortArrow::Up));
    assert_eq!(next_arrow(Some(SortArrow::Up), 0), None);
    assert_eq!(next_arrow(Some(SortArrow::Up), 3), Some(SortArrow::Down));
    assert_eq!(next_arrow(Some(SortArrow::Down), 3), Some(SortArrow::Up));
    assert_eq!(get_sort_info(&vec![]), (None, None));
    assert_eq!(get_sort_info(&vec![None, None]), (None, None));
    assert_eq!(
        get_sort_info(&vec![None, Some(SortArrow::Up), Some(SortArrow::Down)]),
        (Some(1), Some(SortArrow::Up))
    );
}

#[test]
fn numbers_are_read_as_the_standard_library_reads_them() {
    for text in [
        "", "0", "7", "-7", "+7", "007", "-0", "+", "-", "--1", "+-1", "1 ", " 1", "1_000",
        "12a", "a12", "9223372036854775807", "9223372036854775808", "-9223372036854775808",
        "-9223372036854775809", "18446744073709551616", "99999999999999999999999999",
        "000000000000000000000000000000012", "\u{663}",
    ] {
        assert_eq!(parse_i64(text), text.parse::<i64>().ok(), "for {:?}", text);
    }
    assert_eq!(parse_i64("42"), Some(42));
    assert_eq!(parse_i64("-9223372036854775808"), Some(i64::MIN));
    assert_eq!(parse_i64("9223372036854775808"), None);
}

#[test]
fn texts_are_ordered_as_the_standard_library_orders_them() {
    let texts = ["", "a", "ab", "b", "B", "10", "9", "\u{e5}", "z", "\u{10348}", "a\u{0}"];
    for a in texts {
        for b in texts {
            let expected = match a.cmp(b) {
                std::cmp::Ordering::Less => RowOrder::Less,
                std::cmp::Ordering::Equal => RowOrder::Equal,
                std::cmp::Ordering::Greater => RowOrder::Greater,
            };
            assert_eq!(compare_text(a, b), expected, "for {:?} and {:?}", a, b);
        }
    }
}

#[test]
fn cells_are_ordered_as_numbers_where_both_are_numbers() {
    assert_eq!(compare_cells("9", "10"), RowOrder::Less);
    assert_eq!(compare_cells("10", "9"), RowOrder::Greater);
    assert_eq!(compare_cells("07", "7"), RowOrder::Equal);
    assert_eq!(compare_cells("-1", "1"), RowOrder::Less);
    assert_eq!(compare_cells("9", "10a"), RowOrder::Greater);
    assert_eq!(compare_cells("abc", "abd"), RowOrder::Less);
    assert_eq!(RowOrder::Less.reverse(), RowOrder::Greater);
    assert_eq!(RowOrder::Equal.reverse(), RowOrder::Equal);
    assert_eq!(RowOrder::Greater.reverse(), RowOrder::Less);
}

fn row(group: i32, cell: Option<&str>, fallback: Option<&str>) -> RowKey {
    RowKey { group, cell: cell.map(str::to_string), fallback: fallback.map(str::to_string) }
}

#[test]
fn rows_are_ordered_by_group_then_column_then_position() {
    let down = Some(SortArrow::Down);
    let up = Some(SortArrow::Up);
    // The group decides first, whatever the arrow says.
    assert_eq!(
        compare_rows(&row(1, Some("z"), Some("9")), &row(2, Some("a"), Some("1")), true, up),
        RowOrder::Less
    );
    assert_eq!(
        compare_rows(&row(2, Some("a"), Some("1")), &row(1, Some("z"), Some("9")), true, down),
        RowOrder::Greater
    );
    // Then the column with the arrow.
    let a = row(1, Some("chrome"), Some("2"));
    let b = row(1, Some("explorer"), Some("1"));
    assert_eq!(compare_rows(&a, &b, true, down), RowOrder::Less);
    assert_eq!(compare_rows(&a, &b, true, up), RowOrder::Greater);
    assert_eq!(compare_rows(&a, &b, true, None), RowOrder::Less);
    // Equal cells: the position decides, never turned round.
    let c = row(1, Some("chrome"), Some("10"));
    assert_eq!(compare_rows(&a, &c, true, down), RowOrder::Less);
    assert_eq!(compare_rows(&a, &c, true, up), RowOrder::Less);
    assert_eq!(compare_rows(&a, &a, true, up), RowOrder::Equal);
    // No arrow: the position alone.
    assert_eq!(compare_rows(&a, &b, false, None), RowOrder::Greater);
    // An unreadable cell goes last.
    let unreadable = row(1, None, Some("0"));
    assert_eq!(compare_rows(&unreadable, &a, true, up), RowOrder::Greater);
    assert_eq!(compare_rows(&a, &unreadable, true, up), RowOrder::Less);
    assert_eq!(compare_rows(&unreadable, &unreadable, true, up), RowOrder::Equal);
    let lost = row(1, Some("chrome"), None);
    assert_eq!(compare_rows(&lost, &a, true, down), RowOrder::Greater);
    assert_eq!(compare_rows(&lost, &a, false, None), RowOrder::Greater);
}

#[test]
fn the_position_column_depends_on_the_group() {
    assert_eq!(fallback_column(GROUP_FILTERS, Some(2)), COLUMN_FILTERS_INDEX);
    assert_eq!(fallback_column(GROUP_WINDOWS, Some(2)), COLUMN_WINDOWS_INDEX);
    assert_eq!(fallback_column(9, Some(2)), 2);
    assert_eq!(fallback_column(9, None), 0);
    assert_eq!((COLUMN_WINDOWS_INDEX, COLUMN_FILTERS_INDEX), (0, 4));
}

#[test]
fn the_selection_box_counts_from_one() {
    assert_eq!(get_selected_filter_index(0), None);
    assert_eq!(get_selected_filter_index(-5), None);
    assert_eq!(get_selected_filter_index(1), Some(0));
    assert_eq!(get_selected_filter_index(12), Some(11));
    assert_eq!(selection_value(None), 0);
    assert_eq!(selection_value(Some(0)), 1);
    assert_eq!(selection_value(Some(11)), 12);
}

#[test]
fn the_window_comes_back_where_it_was() {
    let saved = ConfigWindowInfo { position: Some((5, -6)), size: (1200, 900), maximized: false };
    assert_eq!(create_window_with_size(saved), (1200, 1025));
    assert_eq!(
        create_window_with_size(ConfigWindowInfo { size: (100, 2000), ..saved }),
        (300, 2000)
    );
    assert_eq!(
        create_window_with_size(ConfigWindowInfo { size: (u32::MAX, u32::MAX), ..saved }),
        (300, 1025)
    );
    assert_eq!(create_window_with_position(Some(saved)), (5, -6));
    assert_eq!(
        create_window_with_position(Some(ConfigWindowInfo { position: None, ..saved })),
        (300, 300)
    );
    assert_eq!(create_window_with_position(None), (300, 300));
}

#[test]
fn moving_the_window_is_remembered_unless_it_is_minimized() {
    let before = ConfigWindowInfo { position: Some((1, 2)), size: (800, 600), maximized: false };
    assert_eq!(
        save_position_and_size(before, WindowPlacement::Normal, (30, 40), (900, 700)),
        ConfigWindowInfo { position: Some((30, 40)), size: (900, 700), maximized: false }
    );
    assert_eq!(
        save_position_and_size(before, WindowPlacement::Maximized, (0, 0), (1920, 1080)),
        ConfigWindowInfo { position: Some((1, 2)), size: (800, 600), maximized: true }
    );
    assert_eq!(
        save_position_and_size(before, WindowPlacement::Minimized, (-32000, -32000), (0, 0)),
        before
    );
}

#[test]
fn the_window_opens_when_it_is_asked_for() {
    assert!(need_rebuild(true, true));
    assert!(!need_rebuild(true, false));
    assert!(!need_rebuild(false, true));
    assert_eq!(configure_filters(true, false), ConfigureAction::OpenSoon);
    assert_eq!(configure_filters(true, true), ConfigureAction::OpenSoon);
    assert_eq!(configure_filters(false, true), ConfigureAction::SetAsForeground);
    assert_eq!(configure_filters(false, false), ConfigureAction::Close);
}
