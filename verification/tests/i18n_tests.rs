use fwaifu::i18n::{detect_lang, flatten_entries, flatten_toml, t, tf, Lang, TomlEntry, Translations};

#[test]
fn lang_from_locale() {
    assert_eq!(detect_lang("zh_CN.UTF-8"), Lang::ZhCN);
    assert_eq!(detect_lang("zh_TW"), Lang::ZhCN);
    assert_eq!(detect_lang("en_US.utf8"), Lang::EnUS);
    assert_eq!(detect_lang(""), Lang::EnUS);
    assert_eq!(detect_lang("zh.UTF-8"), Lang::EnUS);
    assert_eq!(detect_lang("C"), Lang::EnUS);
}

#[test]
fn flatten_sections_and_top_level() {
    let raw = "greeting = \"hi\"\nnum = 3\n[msg]\nhello = \"Hello {0}\"\ncount = 2\n[error]\nbad = \"Bad: {0} {1}\"\n";
    let strings = flatten_toml(raw);
    assert_eq!(t(&strings, "greeting"), "hi");
    assert_eq!(t(&strings, "msg.hello"), "Hello {0}");
    assert_eq!(t(&strings, "msg.count"), "msg.count");
    assert_eq!(t(&strings, "num"), "num");
    assert_eq!(t(&strings, "missing.key"), "missing.key");
    assert_eq!(tf(&strings, "msg.hello", &["world"]), "Hello world");
    assert_eq!(tf(&strings, "error.bad", &["a", "b"]), "Bad: a b");
    assert_eq!(tf(&strings, "error.bad", &["a"]), "Bad: a {1}");
}

#[test]
fn invalid_toml_gives_empty_table() {
    let strings = flatten_toml("this is [not toml");
    assert_eq!(t(&strings, "x"), "x");
}

#[test]
fn fallback_key_is_filled_too() {
    let strings = Translations::empty();
    assert_eq!(tf(&strings, "raw {0}", &["v"]), "raw v");
    assert_eq!(tf(&strings, "{1}{0}", &["a", "{1}"]), "{1}a");
}

#[test]
fn later_entries_replace_earlier() {
    let doc = vec![
        ("a.b".to_string(), TomlEntry::Text("top".to_string())),
        ("a".to_string(), TomlEntry::Section(vec![("b".to_string(), Some("sub".to_string())), ("c".to_string(), None)])),
        ("z".to_string(), TomlEntry::Other),
    ];
    let strings = flatten_entries(&doc);
    assert_eq!(t(&strings, "a.b"), "sub");
    assert_eq!(t(&strings, "a.c"), "a.c");
    assert_eq!(t(&strings, "z"), "z");
}

#[test]
fn insert_and_lookup() {
    let mut s = Translations::empty();
    s.insert("k".to_string(), "v1".to_string());
    s.insert("k".to_string(), "v2".to_string());
    assert_eq!(s.lookup("k"), "v2");
}

#[test]
fn message_without_braces_is_kept() {
    let strings = flatten_toml("[msg]\nplain = \"Nothing to fill\"\n");
    assert_eq!(tf(&strings, "msg.plain", &["x", "y"]), "Nothing to fill");
    assert_eq!(tf(&strings, "msg.plain", &[]), "Nothing to fill");
}

#[test]
fn lone_placeholder_becomes_argument() {
    let strings = flatten_toml("[msg]\nonly = \"{0}\"\n");
    assert_eq!(tf(&strings, "msg.only", &["{0}x"]), "{0}x");
    assert_eq!(tf(&strings, "msg.only", &["abc"]), "abc");
}

#[test]
fn placeholders_filled_in_one_pass() {
    let strings = Translations::empty();
    assert_eq!(tf(&strings, "hi {0}, {1}", &["a", "b"]), "hi a, b");
    assert_eq!(tf(&strings, "{0}", &["{1}", "z"]), "{1}");
    assert_eq!(tf(&strings, "{1}-{0}-{1}", &["x", "y"]), "y-x-y");
    assert_eq!(tf(&strings, "{{0}}", &["q"]), "{q}");
    assert_eq!(tf(&strings, "{10}{1}", &["a", "b"]), "{10}b");
}
