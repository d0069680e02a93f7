use fwaifu::setting::{display_value, display_width, edit_bool, edit_int, edit_str, label_padding, menu_items, parse_menu_choice, EditOutcome, Kind, MenuChoice, SettingValue};

#[test]
fn widths() {
    assert_eq!(display_width("abc"), 3);
    assert_eq!(display_width("设置"), 4);
    assert_eq!(display_width("a，b"), 4);
    assert_eq!(display_width(""), 0);
    assert_eq!(label_padding("abc"), 27);
    assert_eq!(label_padding(&"x".repeat(40)), 1);
}

#[test]
fn menu() {
    let items = menu_items();
    assert_eq!(items.len(), 15);
    assert_eq!(items[8].section, Some("download"));
    assert_eq!(items[8].key, "batch_size");
    assert_eq!(items[12].kind, Kind::Bool);
    assert_eq!(items[14].label, "setting.menu_14");
}

#[test]
fn choices() {
    assert_eq!(parse_menu_choice("q\n", 15), MenuChoice::Quit);
    assert_eq!(parse_menu_choice("S", 15), MenuChoice::Save);
    assert_eq!(parse_menu_choice(" r ", 15), MenuChoice::Restore);
    assert_eq!(parse_menu_choice("1", 15), MenuChoice::Edit(0));
    assert_eq!(parse_menu_choice("15", 15), MenuChoice::Edit(14));
    assert_eq!(parse_menu_choice("16", 15), MenuChoice::Invalid);
    assert_eq!(parse_menu_choice("0", 15), MenuChoice::Invalid);
    assert_eq!(parse_menu_choice("x", 15), MenuChoice::Invalid);
}

#[test]
fn values_shown() {
    assert_eq!(display_value(Kind::Bool, &SettingValue::Bool(true), "-"), "true");
    assert_eq!(display_value(Kind::Int, &SettingValue::Int(-12), "-"), "-12");
    assert_eq!(display_value(Kind::Int, &SettingValue::Int(i64::MIN), "-"), i64::MIN.to_string());
    assert_eq!(display_value(Kind::Str, &SettingValue::Str(String::new()), "(unset)"), "(unset)");
    assert_eq!(display_value(Kind::Str, &SettingValue::Str("p".into()), "-"), "p");
    assert_eq!(display_value(Kind::Int, &SettingValue::Str("p".into()), "n/a"), "n/a");
    assert_eq!(display_value(Kind::Bool, &SettingValue::Unset, "n/a"), "n/a");
}

#[test]
fn edits() {
    assert!(matches!(edit_bool(&SettingValue::Bool(true), "y"), EditOutcome::Assign(SettingValue::Bool(false))));
    assert!(matches!(edit_bool(&SettingValue::Unset, "Y"), EditOutcome::Assign(SettingValue::Bool(true))));
    assert!(matches!(edit_bool(&SettingValue::Unset, "n"), EditOutcome::Unchanged));
    assert!(matches!(edit_int("  "), EditOutcome::Unchanged));
    assert!(matches!(edit_int(" 42 "), EditOutcome::Assign(SettingValue::Int(42))));
    assert!(matches!(edit_int("-1"), EditOutcome::InvalidInt));
    assert!(matches!(edit_int("x"), EditOutcome::InvalidInt));
    assert!(matches!(edit_str(""), EditOutcome::Remove));
    match edit_str("  ~/Pictures  ") {
        EditOutcome::Assign(SettingValue::Str(s)) => assert_eq!(s, "~/Pictures"),
        _ => panic!(),
    }
}
