use fwaifu::setting::{apply_edit, cleanup_empty_table, current_value, ensure_table, load_document, menu_items, remove_key, resolve, restore_defaults, set_value, EditOutcome, ItemRead, SettingValue};

#[test]
fn read_values_of_menu_items() {
    let doc = load_document(Some("proxy = \"http://p\"\ncrop = false\n[cache]\nmax_limit = 7\n")).unwrap();
    let items = menu_items();
    assert!(matches!(current_value(&doc, &items[2]), SettingValue::Str(ref s) if s == "http://p"));
    assert!(matches!(current_value(&doc, &items[3]), SettingValue::Bool(false)));
    assert!(matches!(current_value(&doc, &items[9]), SettingValue::Int(7)));
    assert!(matches!(current_value(&doc, &items[10]), SettingValue::Unset));
    assert!(matches!(resolve(&doc, &items[4]), ItemRead::Absent));
}

#[test]
fn wrong_kind_reads_unset() {
    let doc = load_document(Some("crop = \"yes\"\n")).unwrap();
    let items = menu_items();
    assert!(matches!(current_value(&doc, &items[3]), SettingValue::Unset));
    assert!(matches!(resolve(&doc, &items[3]), ItemRead::Str(_)));
}

#[test]
fn write_then_read() {
    let mut doc = load_document(None).unwrap();
    let items = menu_items();
    set_value(&mut doc, &items[8], &SettingValue::Int(12));
    set_value(&mut doc, &items[2], &SettingValue::Str("http://x".into()));
    assert!(matches!(current_value(&doc, &items[8]), SettingValue::Int(12)));
    let text = doc.to_string();
    assert!(text.contains("[download]") && text.contains("batch_size = 12") && text.contains("proxy = \"http://x\""));
    remove_key(&mut doc, &items[8]);
    assert!(matches!(resolve(&doc, &items[8]), ItemRead::Absent));
}

#[test]
fn edits_apply() {
    let mut doc = load_document(Some("[cache]\nclean_cache = true\n")).unwrap();
    let items = menu_items();
    apply_edit(&mut doc, &items[12], &EditOutcome::Assign(SettingValue::Bool(false)));
    assert!(matches!(current_value(&doc, &items[12]), SettingValue::Bool(false)));
    apply_edit(&mut doc, &items[12], &EditOutcome::Unchanged);
    assert!(matches!(current_value(&doc, &items[12]), SettingValue::Bool(false)));
    apply_edit(&mut doc, &items[12], &EditOutcome::Remove);
    assert!(matches!(current_value(&doc, &items[12]), SettingValue::Unset));
}

#[test]
fn restore_removes_menu_keys_and_empty_tables() {
    let mut doc = load_document(Some("proxy = \"p\"\nother = 1\n[download]\nbatch_size = 3\n[cache]\nmax_used = 2\nextra = 5\n")).unwrap();
    let items = menu_items();
    restore_defaults(&mut doc, &items);
    let text = doc.to_string();
    assert!(!text.contains("proxy") && !text.contains("[download]") && !text.contains("max_used"));
    assert!(text.contains("other = 1") && text.contains("[cache]") && text.contains("extra = 5"));
}

#[test]
fn tables_ensured_and_cleaned() {
    let mut doc = load_document(Some("download = 5\n")).unwrap();
    ensure_table(&mut doc, "download");
    ensure_table(&mut doc, "cache");
    assert!(doc.contains_table("download") && doc.contains_table("cache"));
    cleanup_empty_table(&mut doc, "cache");
    assert!(!doc.contains_key("cache"));
}

#[test]
fn invalid_document() {
    assert!(load_document(Some("[broken")).is_err());
}

#[test]
fn restore_unsets_every_item() {
    let mut doc = load_document(Some("term = true\nterm_width = 80\nproxy = \"http://p\"\ncrop = false\ncrop_width = 1\ncrop_height = 2\nlogo_width = 3\nwatch_interval = 4\nsave_path_sfw = \"a\"\nsave_path_nsfw = \"b\"\n[download]\nbatch_size = 5\n[cache]\nmax_limit = 6\nmin_trigger = 7\nmax_used = 8\nclean_cache = true\n")).unwrap();
    let items = menu_items();
    restore_defaults(&mut doc, &items);
    for item in items.iter() {
        assert!(matches!(resolve(&doc, item), ItemRead::Absent));
        assert!(matches!(current_value(&doc, item), SettingValue::Unset));
    }
    assert_eq!(doc.to_string().trim(), "");
}
