use virtual_desktop_manager::nwg_ext::number_select::{
    accept_text, half, on_edit_message, on_message, NumberSelectAction, NumberSelectBuilder,
    NumberSelectData, NumberSelectLayout,
};
use virtual_desktop_manager::quick_shortcuts::{
    has_duplicates, parse_quick_shortcuts, same_key, QuickShortcut,
};
use virtual_desktop_manager::tray::{
    check_if_light_taskbar, decode_tray_event, light_taskbar_from_registry, menu_key_code,
    TrayEvent,
};

fn shortcut(key: &str, target: u32) -> QuickShortcut {
    QuickShortcut { key: key.chars().collect(), target }
}

/// The same reading of the text, made with the tools of the standard
/// library.
fn read_with_std(text: &str) -> (Vec<QuickShortcut>, bool) {
    let mut invalid = false;
    let shortcuts = text
        .split('\n')
        .filter_map(|text| {
            let text = text.trim_end_matches('\r');
            if text.contains('\r') {
                invalid = true;
            }
            let text = text.replace('\r', "");
            if text.is_empty() {
                return None;
            }
            let (target, key): (String, String) = text.chars().partition(char::is_ascii_digit);
            let target = if target.is_empty() {
                invalid = true;
                0
            } else {
                u32::try_from(
                    target
                        .parse::<i64>()
                        .unwrap_or_else(|_| {
                            invalid = true;
                            0
                        })
                        .abs(),
                )
                .unwrap_or_else(|_| {
                    invalid = true;
                    u32::MAX
                })
            };
            Some(QuickShortcut { key: key.chars().collect(), target })
        })
        .collect();
    (shortcuts, invalid)
}

#[test]
fn shortcuts_are_read_line_by_line() {
    assert_eq!(parse_quick_shortcuts(""), (vec![], false));
    assert_eq!(parse_quick_shortcuts(",0\r\n"), (vec![shortcut(",", 0)], false));
    assert_eq!(
        parse_quick_shortcuts("a1\r\nb22\r\n3c\r\n"),
        (vec![shortcut("a", 1), shortcut("b", 22), shortcut("c", 3)], false)
    );
    // Keys and digits may be mixed; the digits are read in their order.
    assert_eq!(parse_quick_shortcuts("1a2b3"), (vec![shortcut("ab", 123)], false));
    // No number is wrong and stands for the first desktop.
    assert_eq!(parse_quick_shortcuts("abc\n"), (vec![shortcut("abc", 0)], true));
    // A number that is too large is wrong.
    assert_eq!(parse_quick_shortcuts("a4294967295"), (vec![shortcut("a", u32::MAX)], false));
    assert_eq!(parse_quick_shortcuts("a4294967296"), (vec![shortcut("a", u32::MAX)], true));
    assert_eq!(parse_quick_shortcuts("a9223372036854775807"), (vec![shortcut("a", u32::MAX)], true));
    assert_eq!(parse_quick_shortcuts("a9223372036854775808"), (vec![shortcut("a", 0)], true));
    // Something behind a carriage return is wrong; carriage returns are
    // left out.
    assert_eq!(parse_quick_shortcuts("a1\rb\n"), (vec![shortcut("ab", 1)], true));
    assert_eq!(parse_quick_shortcuts("a1\r\r\n"), (vec![shortcut("a", 1)], false));
    assert_eq!(parse_quick_shortcuts("\r\n\r\n"), (vec![], false));
    // A number alone has no keys.
    assert_eq!(parse_quick_shortcuts("5"), (vec![shortcut("", 5)], false));
}

#[test]
fn shortcuts_are_read_as_the_standard_library_reads_them() {
    let texts = [
        "",
        "\n",
        "\r",
        "\r\n",
        "\n\n\n",
        "a1",
        "a1\n",
        "a1\r\n",
        "a1\r\nb2",
        "a1\n\rb2",
        "a\r1",
        "\ra1",
        "\r\ra1\r\r",
        "12",
        "a",
        "a0001",
        "0",
        "a1b2c3\r\nq9",
        "a99999999999999999999999999999",
        "a18446744073709551615",
        "a9223372036854775807\nb9223372036854775808",
        "a4294967295\nb4294967296",
        "\u{e5}7\r\n\u{663}8",
        "x1\r\nx2\r\nx1",
        "-5",
        " 7 ",
    ];
    for text in texts {
        assert_eq!(parse_quick_shortcuts(text), read_with_std(text), "for {:?}", text);
    }
}

#[test]
fn the_same_keys_twice_are_found() {
    assert!(!has_duplicates(&vec![]));
    assert!(!has_duplicates(&vec![shortcut("a", 1)]));
    assert!(!has_duplicates(&vec![shortcut("a", 1), shortcut("b", 1)]));
    assert!(has_duplicates(&vec![shortcut("a", 1), shortcut("b", 2), shortcut("a", 3)]));
    assert!(has_duplicates(&vec![shortcut("", 1), shortcut("", 1)]));
    assert!(same_key(&vec!['a', 'b'], &vec!['a', 'b']));
    assert!(!same_key(&vec!['a', 'b'], &vec!['a']));
    assert!(!same_key(&vec!['a', 'b'], &vec!['a', 'c']));
}

#[test]
fn tray_messages_are_taken_apart() {
    assert_eq!(decode_tray_event(0, 0), TrayEvent { event: 0, x: 0, y: 0 });
    assert_eq!(
        decode_tray_event(0x0123_4567, 0x0001_007B),
        TrayEvent { event: 0x7B, x: 0x4567, y: 0x0123 }
    );
    assert_eq!(decode_tray_event(0xFFFF_8000, -1), TrayEvent { event: 0xFFFF, x: -32768, y: -1 });
    assert_eq!(decode_tray_event(0x7FFF_FFFF, -65536), TrayEvent { event: 0, x: -1, y: 32767 });
    assert_eq!(menu_key_code(0x0002_0071), 0x71);
    assert_eq!(menu_key_code(usize::MAX), 0xFFFF);
}

#[test]
fn the_registry_says_whether_the_taskbar_is_light() {
    assert_eq!(light_taskbar_from_registry([0, 0, 0, 0]), Some(false));
    assert_eq!(light_taskbar_from_registry([1, 0, 0, 0]), Some(true));
    assert_eq!(light_taskbar_from_registry([2, 0, 0, 0]), None);
    assert_eq!(light_taskbar_from_registry([1, 0, 0, 1]), None);
    assert_eq!(light_taskbar_from_registry([0, 1, 0, 0]), None);
    assert_eq!(light_taskbar_from_registry([255, 255, 255, 255]), None);
    assert!(check_if_light_taskbar(Some([1, 0, 0, 0])));
    assert!(!check_if_light_taskbar(Some([0, 0, 0, 0])));
    assert!(!check_if_light_taskbar(Some([1, 1, 0, 0])));
    assert!(!check_if_light_taskbar(None));
}

#[test]
fn a_number_select_is_set_up_step_by_step() {
    let builder = NumberSelectBuilder::new();
    assert_eq!(builder.size, (100, 25));
    assert_eq!(builder.position, (0, 0));
    assert!(builder.enabled);
    assert_eq!(builder.flags, None);
    assert_eq!(builder.data, NumberSelectData::default());
    assert_eq!(
        NumberSelectData::default(),
        NumberSelectData::Int { value: 0, step: 1, max: i64::MAX, min: i64::MIN }
    );
    let set = builder.value_int(3).step_int(2).max_int(9).min_int(-9);
    assert_eq!(set.data, NumberSelectData::Int { value: 3, step: 2, max: 9, min: -9 });
    let float = NumberSelectBuilder { data: NumberSelectData::Float, ..builder };
    assert_eq!(
        float.value_int(3).data,
        NumberSelectData::Int { value: 3, step: 1, max: i64::MAX, min: i64::MIN }
    );
    assert_eq!(
        float.step_int(3).data,
        NumberSelectData::Int { value: 0, step: 3, max: i64::MAX, min: i64::MIN }
    );
    assert_eq!(
        float.max_int(3).data,
        NumberSelectData::Int { value: 0, step: 1, max: 3, min: i64::MIN }
    );
    assert_eq!(
        float.min_int(3).data,
        NumberSelectData::Int { value: 0, step: 1, max: i64::MAX, min: 3 }
    );
}

#[test]
fn the_parts_of_a_number_select_are_laid_out() {
    assert_eq!(
        NumberSelectBuilder::new().build(),
        NumberSelectLayout {
            flags: 0x1000_0000,
            tab_stop: false,
            edit_size: (81, 25),
            button_size: (20, 13),
            up_position: (80, -1),
            down_position: (80, 11),
        }
    );
    let tabbed = NumberSelectBuilder {
        size: (40, -7),
        flags: Some(0x1001_0000),
        ..NumberSelectBuilder::new()
    };
    assert_eq!(
        tabbed.build(),
        NumberSelectLayout {
            flags: 0x1001_0000,
            tab_stop: true,
            edit_size: (21, -7),
            button_size: (20, -2),
            up_position: (20, -1),
            down_position: (20, -4),
        }
    );
    assert_eq!(half(7), 3);
    assert_eq!(half(-7), -3);
    assert_eq!(half(i32::MIN), i32::MIN / 2);
}

#[test]
fn messages_move_the_number() {
    let plus = 11;
    let minus = 12;
    assert_eq!(on_message(0x0111, 0x0300_0000, 5, plus, minus), NumberSelectAction::TextChanged);
    assert_eq!(on_message(0x0111, 0x0000_0042, plus, plus, minus), NumberSelectAction::Increase);
    assert_eq!(on_message(0x0111, 0x0000_0042, minus, plus, minus), NumberSelectAction::Decrease);
    assert_eq!(on_message(0x0111, 0x0000_0042, 5, plus, minus), NumberSelectAction::Nothing);
    assert_eq!(on_message(0x0111, 0x0001_0000, plus, plus, minus), NumberSelectAction::Nothing);
    assert_eq!(on_message(0x020A, 0x0078_0000, 0, plus, minus), NumberSelectAction::Increase);
    assert_eq!(on_message(0x020A, 0xFF88_0000, 0, plus, minus), NumberSelectAction::Decrease);
    assert_eq!(on_message(0x020A, 0x0000_0008, 0, plus, minus), NumberSelectAction::Nothing);
    assert_eq!(on_message(0x0100, 0x0300_0000, plus, plus, minus), NumberSelectAction::Nothing);
    assert_eq!(on_edit_message(0x0100, 38), NumberSelectAction::Increase);
    assert_eq!(on_edit_message(0x0100, 40), NumberSelectAction::Decrease);
    assert_eq!(on_edit_message(0x0100, 39), NumberSelectAction::Nothing);
    assert_eq!(on_edit_message(0x0101, 38), NumberSelectAction::Nothing);
}

#[test]
fn a_number_in_the_text_box_is_taken_if_it_is_within_the_limits() {
    let data = NumberSelectData::Int { value: 1, step: 1, max: 10, min: 0 };
    assert_eq!(
        accept_text(data, "7"),
        Some(NumberSelectData::Int { value: 7, step: 1, max: 10, min: 0 })
    );
    assert_eq!(
        accept_text(data, "10"),
        Some(NumberSelectData::Int { value: 10, step: 1, max: 10, min: 0 })
    );
    assert_eq!(accept_text(data, "11"), None);
    assert_eq!(accept_text(data, "-1"), None);
    assert_eq!(accept_text(data, "seven"), None);
    assert_eq!(accept_text(data, ""), None);
    assert_eq!(accept_text(NumberSelectData::Float, "7"), None);
}
