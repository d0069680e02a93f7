//! The interactive settings menu: its items, how values are shown, and
//! what each answer of the user does.
use vstd::prelude::*;
use toml_edit::DocumentMut;
use crate::commands::yes;
use crate::text::{chars_of, numeral, parse_i64, parse_int, parse_usize, push_numeral, trim, trim_str};

verus! {

// ───────────────────────── display width ─────────────────────────

/// The columns a character takes on a terminal: 2 for the wide East Asian
/// ranges below, 1 for everything else.
pub open spec fn char_width(c: char) -> nat {
    if ('\u{1100}' <= c && c < '\u{115F}') || ('\u{2329}' <= c && c <= '\u{232A}') || (
    '\u{2E80}' <= c && c <= '\u{303E}') || ('\u{3040}' <= c && c <= '\u{A4CF}') || ('\u{AC00}'
        <= c && c <= '\u{D7A3}') || ('\u{F900}' <= c && c <= '\u{FAFF}') || ('\u{FE10}' <= c && c
        <= '\u{FE19}') || ('\u{FE30}' <= c && c <= '\u{FE6F}') || ('\u{FF00}' <= c && c
        <= '\u{FF60}') || ('\u{FFE0}' <= c && c <= '\u{FFE6}') || ('\u{20000}' <= c && c
        <= '\u{2FFFF}') || ('\u{30000}' <= c && c <= '\u{3FFFF}') {
        2
    } else {
        1
    }
}

/// The columns a string takes.
pub open spec fn columns(s: Seq<char>) -> nat
    decreases s.len(),
{
    if s.len() == 0 {
        0
    } else {
        columns(s.drop_last()) + char_width(s.last())
    }
}

proof fn lemma_columns_prefix(s: Seq<char>, i: int)
    requires
        0 <= i <= s.len(),
    ensures
        columns(s.take(i)) <= columns(s),
    decreases s.len() - i,
{
    if i < s.len() {
        lemma_columns_prefix(s, i + 1);
        assert(s.take(i + 1).drop_last() == s.take(i));
    } else {
        assert(s.take(i) == s);
    }
}

/// Count terminal display columns: CJK/punctuation = 2, ASCII = 1.
pub fn display_width(s: &str) -> (n: usize)
    requires
        columns(s@) <= usize::MAX,
    ensures
        n == columns(s@),
{
    let v = chars_of(s);
    let mut n: usize = 0;
    let mut i: usize = 0;
    assert(v@.take(0) =~= Seq::<char>::empty());
    while i < v.len()
        invariant
            i <= v.len(),
            v@ == s@,
            n == columns(v@.take(i as int)),
            columns(s@) <= usize::MAX,
        decreases v.len() - i,
    {
        let c = v[i];
        let w: usize = if ('\u{1100}' <= c && c < '\u{115F}') || ('\u{2329}' <= c && c <= '\u{232A}')
            || ('\u{2E80}' <= c && c <= '\u{303E}') || ('\u{3040}' <= c && c <= '\u{A4CF}') || (
        '\u{AC00}' <= c && c <= '\u{D7A3}') || ('\u{F900}' <= c && c <= '\u{FAFF}') || ('\u{FE10}'
            <= c && c <= '\u{FE19}') || ('\u{FE30}' <= c && c <= '\u{FE6F}') || ('\u{FF00}' <= c
            && c <= '\u{FF60}') || ('\u{FFE0}' <= c && c <= '\u{FFE6}') || ('\u{20000}' <= c && c
            <= '\u{2FFFF}') || ('\u{30000}' <= c && c <= '\u{3FFFF}') {
            2
        } else {
            1
        };
        assert(v@.take(i + 1).drop_last() == v@.take(i as int));
        assert(v@.take(i + 1).last() == c);
        proof {
            lemma_columns_prefix(v@, i + 1);
        }
        n = n + w;
        i += 1;
    }
    assert(v@.take(v@.len() as int) == v@);
    n
}

// ───────────────────────── the menu ─────────────────────────

/// The kind of value a menu item edits.
#[derive(Clone, Copy, Debug, PartialEq, Eq, Structural)]
pub enum Kind {
    Bool,
    Int,
    Str,
}

/// One line of the menu: its label key, the table (if any) and key it
/// edits, and the kind of value.
#[derive(Clone, Copy, Debug)]
pub struct MenuItem {
    pub label: &'static str,
    pub section: Option<&'static str>,
    pub key: &'static str,
    pub kind: Kind,
}

/// A menu item by its texts.
pub struct MenuItemView {
    pub label: Seq<char>,
    pub section: Option<Seq<char>>,
    pub key: Seq<char>,
    pub kind: Kind,
}

pub open spec fn item_view(m: MenuItem) -> MenuItemView {
    MenuItemView {
        label: m.label@,
        section: match m.section {
            Some(s) => Some(s@),
            None => None,
        },
        key: m.key@,
        kind: m.kind,
    }
}

pub open spec fn mi(label: Seq<char>, section: Option<Seq<char>>, key: Seq<char>, kind: Kind) -> MenuItemView {
    MenuItemView { label, section, key, kind }
}

/// The menu, in order.
pub open spec fn menu() -> Seq<MenuItemView> {
    seq![
        mi("setting.menu_0"@, None, "term"@, Kind::Bool),
        mi("setting.menu_1"@, None, "term_width"@, Kind::Int),
        mi("setting.menu_2"@, None, "proxy"@, Kind::Str),
        mi("setting.menu_3"@, None, "crop"@, Kind::Bool),
        mi("setting.menu_4"@, None, "crop_width"@, Kind::Int),
        mi("setting.menu_5"@, None, "crop_height"@, Kind::Int),
        mi("setting.menu_6"@, None, "logo_width"@, Kind::Int),
        mi("setting.menu_7"@, None, "watch_interval"@, Kind::Int),
        mi("setting.menu_8"@, Some("download"@), "batch_size"@, Kind::Int),
        mi("setting.menu_9"@, Some("cache"@), "max_limit"@, Kind::Int),
        mi("setting.menu_10"@, Some("cache"@), "min_trigger"@, Kind::Int),
        mi("setting.menu_11"@, Some("cache"@), "max_used"@, Kind::Int),
        mi("setting.menu_12"@, Some("cache"@), "clean_cache"@, Kind::Bool),
        mi("setting.menu_13"@, None, "save_path_sfw"@, Kind::Str),
        mi("setting.menu_14"@, None, "save_path_nsfw"@, Kind::Str),
    ]
}

fn item(label: &'static str, section: Option<&'static str>, key: &'static str, kind: Kind) -> (m:
    MenuItem)
    ensures
        m.label == label,
        m.section == section,
        m.key == key,
        m.kind == kind,
{
    MenuItem { label, section, key, kind }
}

/// The menu items, in order.
pub fn menu_items() -> (r: Vec<MenuItem>)
    ensures
        r@.map_values(|m: MenuItem| item_view(m)) == menu(),
{
    let mut v: Vec<MenuItem> = Vec::new();
    v.push(item("setting.menu_0", None, "term", Kind::Bool));
    v.push(item("setting.menu_1", None, "term_width", Kind::Int));
    v.push(item("setting.menu_2", None, "proxy", Kind::Str));
    v.push(item("setting.menu_3", None, "crop", Kind::Bool));
    v.push(item("setting.menu_4", None, "crop_width", Kind::Int));
    v.push(item("setting.menu_5", None, "crop_height", Kind::Int));
    v.push(item("setting.menu_6", None, "logo_width", Kind::Int));
    v.push(item("setting.menu_7", None, "watch_interval", Kind::Int));
    v.push(item("setting.menu_8", Some("download"), "batch_size", Kind::Int));
    v.push(item("setting.menu_9", Some("cache"), "max_limit", Kind::Int));
    v.push(item("setting.menu_10", Some("cache"), "min_trigger", Kind::Int));
    v.push(item("setting.menu_11", Some("cache"), "max_used", Kind::Int));
    v.push(item("setting.menu_12", Some("cache"), "clean_cache", Kind::Bool));
    v.push(item("setting.menu_13", None, "save_path_sfw", Kind::Str));
    v.push(item("setting.menu_14", None, "save_path_nsfw", Kind::Str));
    assert(v@.map_values(|m: MenuItem| item_view(m)) =~= menu());
    v
}

/// The user's answer at the menu prompt.
#[derive(Clone, Copy, Debug, PartialEq, Eq, Structural)]
pub enum MenuChoice {
    /// `q`: leave without saving.
    Quit,
    /// `s`: save and leave.
    Save,
    /// `r`: restore the defaults (after confirmation).
    Restore,
    /// A number from 1 to the number of items: edit that item (index from 0).
    Edit(usize),
    /// Anything else.
    Invalid,
}

/// The choice that a (trimmed) answer at the menu prompt makes.
pub open spec fn choice_of(input: Seq<char>, n_items: usize) -> MenuChoice {
    let t = trim(input);
    if t == seq!['q'] || t == seq!['Q'] {
        MenuChoice::Quit
    } else if t == seq!['s'] || t == seq!['S'] {
        MenuChoice::Save
    } else if t == seq!['r'] || t == seq!['R'] {
        MenuChoice::Restore
    } else {
        match parse_int(t, false) {
            Some(n) => if 1 <= n <= n_items { MenuChoice::Edit((n - 1) as usize) } else { MenuChoice::Invalid },
            None => MenuChoice::Invalid,
        }
    }
}

/// What an answer at the menu prompt asks for.
pub fn parse_menu_choice(input: &str, n_items: usize) -> (c: MenuChoice)
    ensures
        c == choice_of(input@, n_items),
{
    let t = trim_str(input);
    let v = chars_of(t.as_str());
    if v.len() == 1 {
        let c = v[0];
        assert(v@ =~= seq![c]);
        if c == 'q' || c == 'Q' {
            return MenuChoice::Quit;
        } else if c == 's' || c == 'S' {
            return MenuChoice::Save;
        } else if c == 'r' || c == 'R' {
            return MenuChoice::Restore;
        }
    }
    proof {
        if v@.len() != 1 {
            assert(v@ != seq!['q'] && v@ != seq!['Q'] && v@ != seq!['s'] && v@ != seq!['S'] && v@
                != seq!['r'] && v@ != seq!['R']);
        }
    }
    match parse_usize(t.as_str()) {
        Some(n) => {
            if n >= 1 && n <= n_items {
                MenuChoice::Edit(n - 1)
            } else {
                MenuChoice::Invalid
            }
        },
        None => {
            proof {
                assert(choice_of(input@, n_items) == MenuChoice::Invalid) by {
                    if parse_int(trim(input@), false) is Some {
                        assert(parse_int(trim(input@), false)->0 > usize::MAX);
                    }
                }
            }
            MenuChoice::Invalid
        },
    }
}

// ───────────────────────── values ─────────────────────────

/// A configuration value as the menu reads it.
pub enum SettingValue {
    Bool(bool),
    Int(i64),
    Str(String),
    /// Absent, or of a type that the menu does not read.
    Unset,
}

/// How the menu shows a value of the item's kind: the value where it is of
/// that kind (a string only where it is not empty), else the "not set" text.
pub open spec fn shown(kind: Kind, v: SettingValue, not_set: Seq<char>) -> Seq<char> {
    match (kind, v) {
        (Kind::Bool, SettingValue::Bool(b)) => if b { "true"@ } else { "false"@ },
        (Kind::Int, SettingValue::Int(i)) => if i < 0 {
            seq!['-'] + numeral((-i) as nat, 10)
        } else {
            numeral(i as nat, 10)
        },
        (Kind::Str, SettingValue::Str(s)) => if s@.len() > 0 { s@ } else { not_set },
        _ => not_set,
    }
}

/// The text the menu shows for an item of kind `kind` whose value is `v`.
pub fn display_value(kind: Kind, v: &SettingValue, not_set: &str) -> (r: String)
    ensures
        r@ == shown(kind, *v, not_set@),
{
    match (kind, v) {
        (Kind::Bool, SettingValue::Bool(b)) => if *b {
            String::from_str("true")
        } else {
            String::from_str("false")
        },
        (Kind::Int, SettingValue::Int(i)) => {
            let mut s = String::new();
            if *i < 0 {
                crate::text::push_char(&mut s, '-');
                let m: u128 = if *i == i64::MIN { 0x8000_0000_0000_0000 } else { (-*i) as u128 };
                push_numeral(&mut s, m, 10);
            } else {
                push_numeral(&mut s, *i as u128, 10);
            }
            s
        },
        (Kind::Str, SettingValue::Str(s)) => if s.as_str().is_empty() {
            String::from_str(not_set)
        } else {
            s.clone()
        },
        _ => String::from_str(not_set),
    }
}

/// What editing an item does to the configuration document.
pub enum EditOutcome {
    /// Leave the value as it is.
    Unchanged,
    /// Set the value.
    Assign(SettingValue),
    /// Remove the key.
    Remove,
    /// The input is not a non-negative integer.
    InvalidInt,
}

/// Editing a switch: it is flipped (from `false` where unset) when the user
/// answers yes to the change.
pub fn edit_bool(current: &SettingValue, answer: &str) -> (o: EditOutcome)
    ensures
        yes(answer@) ==> (o matches EditOutcome::Assign(SettingValue::Bool(b)) && b == !(match *current {
            SettingValue::Bool(c) => c,
            _ => false,
        })),
        !yes(answer@) ==> o is Unchanged,
{
    let cur = match current {
        SettingValue::Bool(c) => *c,
        _ => false,
    };
    if crate::commands::answer_is_yes(answer) {
        EditOutcome::Assign(SettingValue::Bool(!cur))
    } else {
        EditOutcome::Unchanged
    }
}

/// Editing a number: a blank answer leaves it, a non-negative integer sets
/// it, anything else is refused.
pub fn edit_int(input: &str) -> (o: EditOutcome)
    ensures
        trim(input@).len() == 0 ==> o is Unchanged,
        trim(input@).len() > 0 ==> match parse_int(trim(input@), true) {
            Some(v) => if 0 <= v <= i64::MAX {
                o matches EditOutcome::Assign(SettingValue::Int(x)) && x == v
            } else {
                o is InvalidInt
            },
            None => o is InvalidInt,
        },
{
    let t = trim_str(input);
    if t.as_str().is_empty() {
        return EditOutcome::Unchanged;
    }
    match parse_i64(t.as_str()) {
        Some(v) => if v >= 0 {
            EditOutcome::Assign(SettingValue::Int(v))
        } else {
            EditOutcome::InvalidInt
        },
        None => EditOutcome::InvalidInt,
    }
}

/// Editing a text: a blank answer removes the key, anything else sets the
/// trimmed text.
pub fn edit_str(input: &str) -> (o: EditOutcome)
    ensures
        trim(input@).len() == 0 ==> o is Remove,
        trim(input@).len() > 0 ==> (o matches EditOutcome::Assign(SettingValue::Str(s)) && s@ == trim(
            input@,
        )),
{
    let t = trim_str(input);
    if t.as_str().is_empty() {
        EditOutcome::Remove
    } else {
        EditOutcome::Assign(SettingValue::Str(t))
    }
}

/// The padding between a label and its value: 30 columns minus the label's
/// width, at least 1.
pub fn label_padding(label: &str) -> (n: usize)
    requires
        columns(label@) <= usize::MAX,
    ensures
        n == (if columns(label@) < 29 { 30 - columns(label@) } else { 1 }),
{
    let w = display_width(label);
    let pad = if w < 30 { 30 - w } else { 0 };
    if pad > 1 {
        pad
    } else {
        1
    }
}

// ───────────────────────── the configuration document ─────────────────────────

#[verifier::external_type_specification]
#[verifier::external_body]
pub struct ExDocumentMut(toml_edit::DocumentMut);

/// A value of the document as the menu can read it.
pub enum TomlScalar {
    Bool(bool),
    Int(i64),
    Str(Seq<char>),
    /// Any other value, a table among them.
    Other,
}

/// A top-level item of the document.
pub enum TopItem {
    /// A `[table]` (or a dotted-key table): its keys and their values.
    Table(Map<Seq<char>, TomlScalar>),
    /// An inline table `{ .. }`: its keys and their values.
    Inline(Map<Seq<char>, TomlScalar>),
    /// Any other value.
    Value(TomlScalar),
}

/// The top-level items of a configuration document, by key.
pub uninterp spec fn doc_entries(doc: DocumentMut) -> Map<Seq<char>, TopItem>;

/// The top-level items of the TOML document `text`; `None` where `text`
/// is not a TOML document.
pub uninterp spec fn parsed_entries(text: Seq<char>) -> Option<Map<Seq<char>, TopItem>>;

/// What the menu reads at a place of the document.
pub enum ItemRead {
    Bool(bool),
    Int(i64),
    Str(String),
    /// A value of another type, or a table.
    Other,
    /// Nothing there.
    Absent,
}

pub open spec fn read_view(r: ItemRead) -> Option<TomlScalar> {
    match r {
        ItemRead::Bool(b) => Some(TomlScalar::Bool(b)),
        ItemRead::Int(i) => Some(TomlScalar::Int(i)),
        ItemRead::Str(s) => Some(TomlScalar::Str(s@)),
        ItemRead::Other => Some(TomlScalar::Other),
        ItemRead::Absent => None,
    }
}

/// What lies at `key` at the top level: its value, `Other` for a table.
pub open spec fn top_read(m: Map<Seq<char>, TopItem>, key: Seq<char>) -> Option<TomlScalar> {
    if !m.contains_key(key) {
        None
    } else {
        match m[key] {
            TopItem::Value(v) => Some(v),
            _ => Some(TomlScalar::Other),
        }
    }
}

/// What lies at `key` of the (standard or inline) table `section`.
pub open spec fn nested_read(m: Map<Seq<char>, TopItem>, section: Seq<char>, key: Seq<char>) -> Option<
    TomlScalar,
> {
    if !m.contains_key(section) {
        None
    } else {
        match m[section] {
            TopItem::Table(t) => if t.contains_key(key) { Some(t[key]) } else { None },
            TopItem::Inline(t) => if t.contains_key(key) { Some(t[key]) } else { None },
            TopItem::Value(_) => None,
        }
    }
}

/// `section` holds a standard table.
pub open spec fn is_table_at(m: Map<Seq<char>, TopItem>, section: Seq<char>) -> bool {
    m.contains_key(section) && m[section] is Table
}

/// The keys and values of the standard table at `section` (none where there
/// is no standard table).
pub open spec fn table_at(m: Map<Seq<char>, TopItem>, section: Seq<char>) -> Map<Seq<char>, TomlScalar> {
    if is_table_at(m, section) {
        m[section]->Table_0
    } else {
        Map::empty()
    }
}

/// `DocumentMut::new()`. Trusted: the new document holds nothing.
#[verifier::external_body]
fn new_document() -> (doc: DocumentMut)
    ensures
        doc_entries(doc).dom().is_empty(),
{
    toml_edit::DocumentMut::new()
}

/// `text.parse::<toml_edit::DocumentMut>()`, its error turned into its message.
/// Trusted: the parse succeeds exactly where `text` is a TOML document, and
/// the document holds the named items of `text`.
#[verifier::external_body]
fn parse_document(text: &str) -> (r: Result<DocumentMut, String>)
    ensures
        match r {
            Ok(d) => parsed_entries(text@) == Some(doc_entries(d)),
            Err(_) => parsed_entries(text@) is None,
        },
{
    text.parse::<toml_edit::DocumentMut>().map_err(|e| e.to_string())
}

/// `doc.get(key)`, read. Trusted: what lies at `key` at the top level.
#[verifier::external_body]
fn read_top(doc: &DocumentMut, key: &str) -> (r: ItemRead)
    ensures
        read_view(r) == top_read(doc_entries(*doc), key@),
{
    match doc.get(key) {
        None => ItemRead::Absent,
        Some(i) => match (i.as_bool(), i.as_integer(), i.as_str()) {
            (Some(b), _, _) => ItemRead::Bool(b),
            (_, Some(n), _) => ItemRead::Int(n),
            (_, _, Some(t)) => ItemRead::Str(t.to_string()),
            _ => ItemRead::Other,
        },
    }
}

/// `doc.get(section).and_then(|t| t.get(key))`, read. Trusted: what lies at
/// `key` of the table (standard or inline) at `section`.
#[verifier::external_body]
fn read_nested(doc: &DocumentMut, section: &str, key: &str) -> (r: ItemRead)
    ensures
        read_view(r) == nested_read(doc_entries(*doc), section@, key@),
{
    match doc.get(section).and_then(|t| t.get(key)) {
        None => ItemRead::Absent,
        Some(i) => match (i.as_bool(), i.as_integer(), i.as_str()) {
            (Some(b), _, _) => ItemRead::Bool(b),
            (_, Some(n), _) => ItemRead::Int(n),
            (_, _, Some(t)) => ItemRead::Str(t.to_string()),
            _ => ItemRead::Other,
        },
    }
}

/// `doc.contains_table(name)`. Trusted: `name` holds a standard table.
#[verifier::external_body]
fn contains_table(doc: &DocumentMut, name: &str) -> (b: bool)
    ensures
        b == is_table_at(doc_entries(*doc), name@),
{
    doc.contains_table(name)
}

/// `doc[name] = Item::Table(Table::new())`. Trusted: `name` now holds an
/// empty standard table, whatever it held before.
#[verifier::external_body]
fn put_table(doc: &mut DocumentMut, name: &str)
    ensures
        doc_entries(*final(doc)) == doc_entries(*old(doc)).insert(
            name@,
            TopItem::Table(Map::empty()),
        ),
{
    doc[name] = toml_edit::Item::Table(toml_edit::Table::new());
}

/// The document value of a setting.
pub open spec fn scalar_of(v: SettingValue) -> TomlScalar {
    match v {
        SettingValue::Bool(b) => TomlScalar::Bool(b),
        SettingValue::Int(i) => TomlScalar::Int(i),
        SettingValue::Str(s) => TomlScalar::Str(s@),
        SettingValue::Unset => TomlScalar::Other,
    }
}

/// `doc[key] = value(v)`. Trusted: `key` now holds `v`.
#[verifier::external_body]
fn put_top(doc: &mut DocumentMut, key: &str, v: &SettingValue)
    requires
        !(*v is Unset),
    ensures
        doc_entries(*final(doc)) == doc_entries(*old(doc)).insert(key@, TopItem::Value(scalar_of(*v))),
{
    doc[key] = match v {
        SettingValue::Bool(b) => toml_edit::value(*b),
        SettingValue::Int(i) => toml_edit::value(*i),
        SettingValue::Str(t) => toml_edit::value(t.as_str()),
        SettingValue::Unset => toml_edit::Item::None,
    };
}

/// `doc[section][key] = value(v)` where `section` holds a standard table.
/// Trusted: `key` of that table now holds `v`.
#[verifier::external_body]
fn put_nested(doc: &mut DocumentMut, section: &str, key: &str, v: &SettingValue)
    requires
        !(*v is Unset),
        is_table_at(doc_entries(*old(doc)), section@),
    ensures
        doc_entries(*final(doc)) == doc_entries(*old(doc)).insert(
            section@,
            TopItem::Table(table_at(doc_entries(*old(doc)), section@).insert(key@, scalar_of(*v))),
        ),
{
    doc[section][key] = match v {
        SettingValue::Bool(b) => toml_edit::value(*b),
        SettingValue::Int(i) => toml_edit::value(*i),
        SettingValue::Str(t) => toml_edit::value(t.as_str()),
        SettingValue::Unset => toml_edit::Item::None,
    };
}

/// `doc.remove(key)`. Trusted: nothing is left at `key`.
#[verifier::external_body]
fn remove_top(doc: &mut DocumentMut, key: &str)
    ensures
        doc_entries(*final(doc)) == doc_entries(*old(doc)).remove(key@),
{
    doc.remove(key);
}

/// `doc.get_mut(section).and_then(|t| t.as_table_mut())` and `remove(key)`
/// on it. Trusted: where `section` holds a standard table, its `key` is
/// removed; otherwise nothing changes.
#[verifier::external_body]
fn remove_nested(doc: &mut DocumentMut, section: &str, key: &str)
    ensures
        doc_entries(*final(doc)) == if is_table_at(doc_entries(*old(doc)), section@) {
            doc_entries(*old(doc)).insert(
                section@,
                TopItem::Table(table_at(doc_entries(*old(doc)), section@).remove(key@)),
            )
        } else {
            doc_entries(*old(doc))
        },
{
    if let Some(table) = doc.get_mut(section).and_then(|t| t.as_table_mut()) {
        table.remove(key);
    }
}

/// `doc.get(name).and_then(|t| t.as_table())` and `is_empty` of it. Trusted:
/// where `name` holds a standard table, whether it holds nothing.
#[verifier::external_body]
fn table_is_empty(doc: &DocumentMut, name: &str) -> (r: Option<bool>)
    ensures
        r == if is_table_at(doc_entries(*doc), name@) {
            Some(table_at(doc_entries(*doc), name@) == Map::<Seq<char>, TomlScalar>::empty())
        } else {
            None::<bool>
        },
{
    doc.get(name).and_then(|t| t.as_table()).map(|t| t.is_empty())
}

// ───────────────────────── menu operations on the document ─────────────────────────

/// The place that an item edits, read.
pub open spec fn place_read(m: Map<Seq<char>, TopItem>, item: MenuItem) -> Option<TomlScalar> {
    match item.section {
        None => top_read(m, item.key@),
        Some(s) => nested_read(m, s@, item.key@),
    }
}

/// The document after writing `v` at an item's place: at the top level, or
/// in its table (which becomes an empty standard table first where it was
/// not one).
pub open spec fn after_set(m: Map<Seq<char>, TopItem>, item: MenuItem, v: TomlScalar) -> Map<
    Seq<char>,
    TopItem,
> {
    match item.section {
        None => m.insert(item.key@, TopItem::Value(v)),
        Some(s) => m.insert(s@, TopItem::Table(table_at(m, s@).insert(item.key@, v))),
    }
}

/// The document after removing an item's key (in its table only where that
/// is a standard table).
pub open spec fn after_remove(m: Map<Seq<char>, TopItem>, item: MenuItem) -> Map<Seq<char>, TopItem> {
    match item.section {
        None => m.remove(item.key@),
        Some(s) => if is_table_at(m, s@) {
            m.insert(s@, TopItem::Table(table_at(m, s@).remove(item.key@)))
        } else {
            m
        },
    }
}

/// The document after dropping the table `name` where it is an empty
/// standard table.
pub open spec fn after_cleanup(m: Map<Seq<char>, TopItem>, name: Seq<char>) -> Map<Seq<char>, TopItem> {
    if is_table_at(m, name) && table_at(m, name) == Map::<Seq<char>, TomlScalar>::empty() {
        m.remove(name)
    } else {
        m
    }
}

/// The document after making sure that `name` holds a standard table.
pub open spec fn after_ensure(m: Map<Seq<char>, TopItem>, name: Seq<char>) -> Map<Seq<char>, TopItem> {
    if is_table_at(m, name) {
        m
    } else {
        m.insert(name, TopItem::Table(Map::empty()))
    }
}

/// The document to edit: the parsed configuration file where there is one
/// (an error where it is not TOML), else an empty document.
pub fn load_document(content: Option<&str>) -> (r: Result<DocumentMut, String>)
    ensures
        match content {
            None => r matches Ok(d) && doc_entries(d) == Map::<Seq<char>, TopItem>::empty(),
            Some(text) => match r {
                Ok(d) => parsed_entries(text@) == Some(doc_entries(d)),
                Err(_) => parsed_entries(text@) is None,
            },
        },
{
    match content {
        Some(text) => parse_document(text),
        None => Ok(new_document()),
    }
}

/// Makes sure that `name` holds a standard table.
pub fn ensure_table(doc: &mut DocumentMut, name: &str)
    ensures
        doc_entries(*final(doc)) == after_ensure(doc_entries(*old(doc)), name@),
{
    if !contains_table(doc, name) {
        put_table(doc, name);
    }
}

/// Drops the table `name` where it is an empty standard table.
pub fn cleanup_empty_table(doc: &mut DocumentMut, name: &str)
    ensures
        doc_entries(*final(doc)) == after_cleanup(doc_entries(*old(doc)), name@),
{
    if let Some(empty) = table_is_empty(doc, name) {
        if empty {
            remove_top(doc, name);
        }
    }
}

/// What lies at an item's place.
pub fn resolve(doc: &DocumentMut, item: &MenuItem) -> (r: ItemRead)
    ensures
        read_view(r) == place_read(doc_entries(*doc), *item),
{
    match item.section {
        None => read_top(doc, item.key),
        Some(s) => read_nested(doc, s, item.key),
    }
}

/// The value of an item as the menu shows it: what lies at its place where
/// that is of the item's kind, else unset.
pub fn current_value(doc: &DocumentMut, item: &MenuItem) -> (v: SettingValue)
    ensures
        match (item.kind, place_read(doc_entries(*doc), *item)) {
            (Kind::Bool, Some(TomlScalar::Bool(b))) => v == SettingValue::Bool(b),
            (Kind::Int, Some(TomlScalar::Int(i))) => v == SettingValue::Int(i),
            (Kind::Str, Some(TomlScalar::Str(s))) => v matches SettingValue::Str(x) && x@ == s,
            _ => v is Unset,
        },
{
    match (item.kind, resolve(doc, item)) {
        (Kind::Bool, ItemRead::Bool(b)) => SettingValue::Bool(b),
        (Kind::Int, ItemRead::Int(i)) => SettingValue::Int(i),
        (Kind::Str, ItemRead::Str(s)) => SettingValue::Str(s),
        _ => SettingValue::Unset,
    }
}

/// Writes `v` at an item's place (creating its table where needed).
pub fn set_value(doc: &mut DocumentMut, item: &MenuItem, v: &SettingValue)
    requires
        !(*v is Unset),
    ensures
        doc_entries(*final(doc)) == after_set(doc_entries(*old(doc)), *item, scalar_of(*v)),
{
    match item.section {
        None => put_top(doc, item.key, v),
        Some(s) => {
            ensure_table(doc, s);
            put_nested(doc, s, item.key, v);
            assert(table_at(after_ensure(doc_entries(*old(doc)), s@), s@) == table_at(
                doc_entries(*old(doc)),
                s@,
            ));
        },
    }
}

/// Removes an item's key.
pub fn remove_key(doc: &mut DocumentMut, item: &MenuItem)
    ensures
        doc_entries(*final(doc)) == after_remove(doc_entries(*old(doc)), *item),
{
    match item.section {
        None => remove_top(doc, item.key),
        Some(s) => remove_nested(doc, s, item.key),
    }
}

/// Carries out the outcome of an edit.
pub fn apply_edit(doc: &mut DocumentMut, item: &MenuItem, outcome: &EditOutcome)
    ensures
        doc_entries(*final(doc)) == match *outcome {
            EditOutcome::Assign(v) => if v is Unset {
                doc_entries(*old(doc))
            } else {
                after_set(doc_entries(*old(doc)), *item, scalar_of(v))
            },
            EditOutcome::Remove => after_remove(doc_entries(*old(doc)), *item),
            _ => doc_entries(*old(doc)),
        },
{
    match outcome {
        EditOutcome::Assign(v) => {
            if !(match v {
                SettingValue::Unset => true,
                _ => false,
            }) {
                set_value(doc, item, v);
            }
        },
        EditOutcome::Remove => remove_key(doc, item),
        _ => {},
    }
}

/// The document after removing the keys of the first `n` menu items.
pub open spec fn after_remove_items(m: Map<Seq<char>, TopItem>, items: Seq<MenuItem>, n: int) -> Map<
    Seq<char>,
    TopItem,
>
    decreases n,
{
    if n <= 0 {
        m
    } else {
        after_remove(after_remove_items(m, items, n - 1), items[n - 1])
    }
}

/// The document after restoring the defaults: every menu item's key
/// removed, then the `download` and `cache` tables dropped where empty.
pub open spec fn after_restore(m: Map<Seq<char>, TopItem>, items: Seq<MenuItem>) -> Map<Seq<char>, TopItem> {
    after_cleanup(
        after_cleanup(after_remove_items(m, items, items.len() as int), "download"@),
        "cache"@,
    )
}

/// Restores the defaults: removes the key of every menu item, then the
/// `download` and `cache` tables where they are left empty.
pub fn restore_defaults(doc: &mut DocumentMut, items: &Vec<MenuItem>)
    ensures
        doc_entries(*final(doc)) == after_restore(doc_entries(*old(doc)), items@),
{
    let ghost start = doc_entries(*doc);
    let mut i: usize = 0;
    while i < items.len()
        invariant
            i <= items.len(),
            doc_entries(*doc) == after_remove_items(start, items@, i as int),
        decreases items.len() - i,
    {
        remove_key(doc, &items[i]);
        i += 1;
    }
    cleanup_empty_table(doc, "download");
    cleanup_empty_table(doc, "cache");
}

// ───────────────────────── laws ─────────────────────────

/// Reading an item after writing a value at its place gives the value back.
pub proof fn law_read_after_write(m: Map<Seq<char>, TopItem>, item: MenuItem, v: TomlScalar)
    ensures
        place_read(after_set(m, item, v), item) == Some(v),
{
}

/// After its key is removed, an item of the top level, or of a standard
/// table, reads as absent. (Removal leaves an inline table as it is.)
pub proof fn law_removed_reads_absent(m: Map<Seq<char>, TopItem>, item: MenuItem)
    requires
        match item.section {
            Some(s) => !m.contains_key(s@) || !(m[s@] is Inline),
            None => true,
        },
    ensures
        place_read(after_remove(m, item), item) is None,
{
}

/// Writing one item leaves every item at another place as it was.
pub proof fn law_write_keeps_others(
    m: Map<Seq<char>, TopItem>,
    item: MenuItem,
    other: MenuItem,
    v: TomlScalar,
)
    requires
        other.section is Some && item.section is Some ==> (other.section->0@ != item.section->0@
            || other.key@ != item.key@),
        other.section is None && item.section is None ==> other.key@ != item.key@,
        other.section is None && item.section is Some ==> other.key@ != item.section->0@,
        other.section is Some && item.section is None ==> other.section->0@ != item.key@,
        other.section is Some && item.section is Some && other.section->0@ == item.section->0@
            ==> is_table_at(m, item.section->0@),
    ensures
        place_read(after_set(m, item, v), other) == place_read(m, other),
{
}

/// No menu item's table is an inline table.
pub open spec fn no_inline_sections(m: Map<Seq<char>, TopItem>, items: Seq<MenuItem>) -> bool {
    forall|i: int|
        0 <= i < items.len() && #[trigger] items[i].section is Some ==> !(m.contains_key(
            items[i].section->0@,
        ) && m[items[i].section->0@] is Inline)
}

proof fn lemma_remove_keeps_absent(m: Map<Seq<char>, TopItem>, item: MenuItem, x: MenuItem)
    requires
        place_read(m, x) is None,
    ensures
        place_read(after_remove(m, item), x) is None,
{
}

proof fn lemma_cleanup_keeps_absent(m: Map<Seq<char>, TopItem>, name: Seq<char>, x: MenuItem)
    requires
        place_read(m, x) is None,
    ensures
        place_read(after_cleanup(m, name), x) is None,
{
}

proof fn lemma_remove_items_absent(m: Map<Seq<char>, TopItem>, items: Seq<MenuItem>, n: int)
    requires
        0 <= n <= items.len(),
        no_inline_sections(m, items),
    ensures
        no_inline_sections(after_remove_items(m, items, n), items),
        forall|j: int| 0 <= j < n ==> (#[trigger] place_read(after_remove_items(m, items, n), items[j])) is None,
    decreases n,
{
    if n > 0 {
        lemma_remove_items_absent(m, items, n - 1);
        let prev = after_remove_items(m, items, n - 1);
        let cur = after_remove_items(m, items, n);
        assert(cur == after_remove(prev, items[n - 1]));
        assert forall|i: int| 0 <= i < items.len() && #[trigger] items[i].section is Some implies !(
        cur.contains_key(items[i].section->0@) && cur[items[i].section->0@] is Inline) by {
            assert(!(prev.contains_key(items[i].section->0@) && prev[items[i].section->0@] is Inline));
        }
        assert forall|j: int| 0 <= j < n implies (#[trigger] place_read(cur, items[j])) is None by {
            if j < n - 1 {
                lemma_remove_keeps_absent(prev, items[n - 1], items[j]);
            } else {
                let it = items[n - 1];
                if it.section is Some {
                    assert(!(prev.contains_key(it.section->0@) && prev[it.section->0@] is Inline));
                }
                law_removed_reads_absent(prev, it);
            }
        }
    }
}

/// Restoring the defaults unsets every menu item: afterwards each reads as
/// absent (where no item's table is an inline table, which removal leaves
/// as it is).
pub proof fn law_restore_unsets_all(m: Map<Seq<char>, TopItem>, items: Seq<MenuItem>)
    requires
        no_inline_sections(m, items),
    ensures
        forall|j: int| 0 <= j < items.len() ==> (#[trigger] place_read(after_restore(m, items), items[j])) is None,
{
    let n = items.len() as int;
    lemma_remove_items_absent(m, items, n);
    let removed = after_remove_items(m, items, n);
    let once = after_cleanup(removed, "download"@);
    assert forall|j: int| 0 <= j < items.len() implies (#[trigger] place_read(after_restore(m, items), items[j])) is None by {
        lemma_cleanup_keeps_absent(removed, "download"@, items[j]);
        lemma_cleanup_keeps_absent(once, "cache"@, items[j]);
    }
}

} // verus!
