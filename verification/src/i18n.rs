//! Translations: a table of message keys, read from a TOML document, and
//! the lookup and placeholder filling that every message goes through.
use vstd::prelude::*;
use crate::text::{chars_of, decimal, numeral, occurs_at, push_char, push_numeral, starts_with};

verus! {

/// The languages of the interface.
#[derive(Debug, Clone, Copy, PartialEq, Eq, Structural)]
pub enum Lang {
    EnUS,
    ZhCN,
}

/// The language that a `LANG` value selects: Chinese for a locale whose
/// part before the encoding suffix starts with `zh_`, English otherwise.
pub open spec fn lang_of(lang: Seq<char>) -> Lang {
    if starts_with(lang.take(crate::text::first_index(lang, '.')), seq!['z', 'h', '_']) {
        Lang::ZhCN
    } else {
        Lang::EnUS
    }
}

/// Detect the user's preferred language from the value of the LANG
/// environment variable (empty where it is unset).
///
/// Parses locale strings like `zh_CN.UTF-8`, `en_US.utf8`, `zh_CN`, etc.
/// Extracts the locale part before the encoding suffix, then matches on the
/// language+territory prefix.
pub fn detect_lang(lang: &str) -> (l: Lang)
    ensures
        l == lang_of(lang@),
        l == Lang::ZhCN <==> starts_with(lang@, seq!['z', 'h', '_']),
{
    let v = chars_of(lang);
    let end = crate::text::find_char(&v, '.', 0);
    assert(v@.skip(0) == v@);
    let ghost locale = v@.take(end as int);
    let is_zh = end >= 3 && v[0] == 'z' && v[1] == 'h' && v[2] == '_';
    proof {
        if end >= 3 {
            assert(locale.take(3) =~= v@.take(3));
        }
        if v@.len() >= 3 && v@.take(3) =~= seq!['z', 'h', '_'] {
            assert(v@[0] == 'z' && v@[1] == 'h' && v@[2] == '_');
            crate::text::lemma_first_index_bound(v@, '.');
            if end < 3 {
                assert(v@[end as int] == '.');
            }
        }
        if is_zh {
            assert(v@.take(3) =~= seq!['z', 'h', '_']);
        }
    }
    if is_zh {
        Lang::ZhCN
    } else {
        Lang::EnUS
    }
}

// ───────────────────────── TOML documents ─────────────────────────

/// A top-level value of a TOML document, as the translations read it.
pub enum TomlEntry {
    /// A string.
    Text(String),
    /// A table: its keys, each with its value where that value is a string.
    Section(Vec<(String, Option<String>)>),
    /// Any other value.
    Other,
}

/// A `TomlEntry` with its strings taken by their characters.
pub enum TomlItem {
    Text(Seq<char>),
    Section(Seq<(Seq<char>, Option<Seq<char>>)>),
    Other,
}

pub open spec fn opt_chars(o: Option<String>) -> Option<Seq<char>> {
    match o {
        Some(s) => Some(s@),
        None => None,
    }
}

/// The view of a table's entries.
pub open spec fn section_view(v: Seq<(String, Option<String>)>) -> Seq<(Seq<char>, Option<Seq<char>>)> {
    v.map_values(|p: (String, Option<String>)| (p.0@, opt_chars(p.1)))
}

pub open spec fn entry_view(e: TomlEntry) -> TomlItem {
    match e {
        TomlEntry::Text(s) => TomlItem::Text(s@),
        TomlEntry::Section(v) => TomlItem::Section(section_view(v@)),
        TomlEntry::Other => TomlItem::Other,
    }
}

/// The view of a document's top-level entries.
pub open spec fn doc_view(d: Seq<(String, TomlEntry)>) -> Seq<(Seq<char>, TomlItem)> {
    d.map_values(|p: (String, TomlEntry)| (p.0@, entry_view(p.1)))
}

/// The top-level entries, in the order in which `toml::Table` holds them
/// (by key), of the TOML document `raw`; `None` where `raw` is not a TOML
/// document.
pub uninterp spec fn toml_top_entries(raw: Seq<char>) -> Option<Seq<(Seq<char>, TomlItem)>>;

/// `raw.parse::<toml::Table>()`, each top-level value reduced to what the
/// translations read of it. Trusted: the result is the named function of
/// `raw`; the parse depends on nothing but `raw`.
#[verifier::external_body]
fn parse_toml_table(raw: &str) -> (r: Option<Vec<(String, TomlEntry)>>)
    ensures
        match r {
            Some(d) => toml_top_entries(raw@) == Some(doc_view(d@)),
            None => toml_top_entries(raw@) is None,
        },
{
    let table = raw.parse::<toml::Table>().ok()?;
    Some(table.iter().map(|(k, v)| (k.clone(), match v {
        toml::Value::String(s) => TomlEntry::Text(s.clone()),
        toml::Value::Table(t) => TomlEntry::Section(
            t.iter().map(|(k2, v2)| (k2.clone(), v2.as_str().map(|s| s.to_string()))).collect(),
        ),
        _ => TomlEntry::Other,
    })).collect())
}

// ───────────────────────── translation tables ─────────────────────────

/// A translation table: key-message pairs in the order they were inserted.
/// A lookup finds the last pair of its key, so the table reads as the map
/// that the pairs build (`view`). The pairs are kept in a `Vec`, whose
/// contents Verus knows, rather than in a `HashMap` keyed by `String`, of
/// which it could prove nothing.
pub struct Translations {
    entries: Vec<(String, String)>,
}

/// The map that inserting `pairs` in order builds (a later pair with the
/// same key replaces an earlier one).
pub open spec fn table_of(pairs: Seq<(Seq<char>, Seq<char>)>) -> Map<Seq<char>, Seq<char>>
    decreases pairs.len(),
{
    if pairs.len() == 0 {
        Map::empty()
    } else {
        table_of(pairs.drop_last()).insert(pairs.last().0, pairs.last().1)
    }
}

/// `"{section}.{key}"`.
pub open spec fn dotted(section: Seq<char>, key: Seq<char>) -> Seq<char> {
    section + seq!['.'] + key
}

/// The pairs that a table under `section` contributes: one per string value.
pub open spec fn section_pairs(section: Seq<char>, es: Seq<(Seq<char>, Option<Seq<char>>)>) -> Seq<
    (Seq<char>, Seq<char>),
>
    decreases es.len(),
{
    if es.len() == 0 {
        Seq::empty()
    } else {
        let r = section_pairs(section, es.drop_last());
        match es.last().1 {
            Some(s) => r.push((dotted(section, es.last().0), s)),
            None => r,
        }
    }
}

/// The pairs that a TOML document contributes: a top-level string under its
/// key; the strings of a table under `"{table}.{key}"`; nothing else.
pub open spec fn flatten_pairs(d: Seq<(Seq<char>, TomlItem)>) -> Seq<(Seq<char>, Seq<char>)>
    decreases d.len(),
{
    if d.len() == 0 {
        Seq::empty()
    } else {
        let r = flatten_pairs(d.drop_last());
        match d.last().1 {
            TomlItem::Text(s) => r.push((d.last().0, s)),
            TomlItem::Section(es) => r + section_pairs(d.last().0, es),
            TomlItem::Other => r,
        }
    }
}

impl View for Translations {
    type V = Map<Seq<char>, Seq<char>>;

    closed spec fn view(&self) -> Map<Seq<char>, Seq<char>> {
        table_of(self.entries@.map_values(|p: (String, String)| (p.0@, p.1@)))
    }
}

pub open spec fn pair_views(v: Seq<(String, String)>) -> Seq<(Seq<char>, Seq<char>)> {
    v.map_values(|p: (String, String)| (p.0@, p.1@))
}

impl Translations {
    /// The insertion sequence behind the table.
    pub closed spec fn pairs(&self) -> Seq<(Seq<char>, Seq<char>)> {
        pair_views(self.entries@)
    }

    /// An empty table.
    pub fn empty() -> (t: Translations)
        ensures
            t.pairs() == Seq::<(Seq<char>, Seq<char>)>::empty(),
            t@ == Map::<Seq<char>, Seq<char>>::empty(),
    {
        let t = Translations { entries: Vec::new() };
        assert(t.pairs() =~= Seq::<(Seq<char>, Seq<char>)>::empty());
        t
    }

    /// Adds a key-message pair (replacing an earlier message of the key).
    pub fn insert(&mut self, key: String, message: String)
        ensures
            final(self).pairs() == old(self).pairs().push((key@, message@)),
            final(self)@ == old(self)@.insert(key@, message@),
    {
        let ghost before = self.pairs();
        self.entries.push((key, message));
        assert(self.pairs() =~= before.push((key@, message@)));
        assert(self.pairs().drop_last() =~= before);
    }

    /// The message of `key`, or `key` itself where the table has none.
    pub fn lookup<'a>(&'a self, key: &'a str) -> (r: &'a str)
        ensures
            r@ == (if self@.contains_key(key@) { self@[key@] } else { key@ }),
    {
        let k = String::from_str(key);
        let mut i = self.entries.len();
        while i > 0
            invariant
                i <= self.entries@.len(),
                k@ == key@,
                self@ == table_of(pair_views(self.entries@)),
                forall|j: int| i <= j < self.entries@.len() ==> #[trigger] self.entries@[j].0@ != key@,
            decreases i,
        {
            if self.entries[i - 1].0 == k {
                proof {
                    lemma_table_last(pair_views(self.entries@), key@, i - 1);
                }
                return self.entries[i - 1].1.as_str();
            }
            i -= 1;
        }
        proof {
            lemma_table_absent(pair_views(self.entries@), key@);
        }
        key
    }
}

/// The pair at `i` gives the value of its key where no later pair has it.
proof fn lemma_table_last(pairs: Seq<(Seq<char>, Seq<char>)>, key: Seq<char>, i: int)
    requires
        0 <= i < pairs.len(),
        pairs[i].0 == key,
        forall|j: int| i < j < pairs.len() ==> #[trigger] pairs[j].0 != key,
    ensures
        table_of(pairs).contains_key(key),
        table_of(pairs)[key] == pairs[i].1,
    decreases pairs.len(),
{
    if i < pairs.len() - 1 {
        lemma_table_last(pairs.drop_last(), key, i);
    }
}

/// A key that no pair has is not in the table.
proof fn lemma_table_absent(pairs: Seq<(Seq<char>, Seq<char>)>, key: Seq<char>)
    requires
        forall|j: int| 0 <= j < pairs.len() ==> #[trigger] pairs[j].0 != key,
    ensures
        !table_of(pairs).contains_key(key),
    decreases pairs.len(),
{
    if pairs.len() > 0 {
        lemma_table_absent(pairs.drop_last(), key);
    }
}

/// Adds the pairs that a table under `section` contributes.
fn add_section(t: &mut Translations, section: &String, es: &Vec<(String, Option<String>)>)
    ensures
        final(t).pairs() == old(t).pairs() + section_pairs(section@, section_view(es@)),
{
    let ghost start = t.pairs();
    let mut i: usize = 0;
    while i < es.len()
        invariant
            i <= es.len(),
            t.pairs() == start + section_pairs(section@, section_view(es@).take(i as int)),
        decreases es.len() - i,
    {
        let ghost before = t.pairs();
        assert(section_view(es@).take(i + 1).drop_last() == section_view(es@).take(i as int));
        assert(section_view(es@).take(i + 1).last() == (es@[i as int].0@, opt_chars(es@[i as int].1)));
        if let Some(s) = &es[i].1 {
            let mut key = section.clone();
            push_char(&mut key, '.');
            key.append(es[i].0.as_str());
            t.insert(key, s.clone());
            assert(key@ == dotted(section@, es@[i as int].0@));
        }
        i += 1;
    }
    assert(section_view(es@).take(es@.len() as int) == section_view(es@));
}

/// Parse a TOML translations table into a flat key-value map, given the
/// document's top-level entries.
///
/// Sections are flattened: `[msg]` with key `hello` becomes `"msg.hello"`.
/// Top-level keys are kept as-is.
pub fn flatten_entries(doc: &Vec<(String, TomlEntry)>) -> (t: Translations)
    ensures
        t.pairs() == flatten_pairs(doc_view(doc@)),
{
    let mut t = Translations::empty();
    let mut i: usize = 0;
    while i < doc.len()
        invariant
            i <= doc.len(),
            t.pairs() == flatten_pairs(doc_view(doc@).take(i as int)),
        decreases doc.len() - i,
    {
        assert(doc_view(doc@).take(i + 1).drop_last() == doc_view(doc@).take(i as int));
        assert(doc_view(doc@).take(i + 1).last() == (doc@[i as int].0@, entry_view(doc@[i as int].1)));
        match &doc[i].1 {
            TomlEntry::Text(s) => {
                t.insert(doc[i].0.clone(), s.clone());
            },
            TomlEntry::Section(es) => {
                add_section(&mut t, &doc[i].0, es);
            },
            TomlEntry::Other => {},
        }
        i += 1;
    }
    assert(doc_view(doc@).take(doc@.len() as int) == doc_view(doc@));
    t
}

/// Parse a TOML translations document into a flat key-value map; an empty
/// map where `raw` is not a TOML document.
pub fn flatten_toml(raw: &str) -> (t: Translations)
    ensures
        match toml_top_entries(raw@) {
            Some(d) => t.pairs() == flatten_pairs(d),
            None => t.pairs() == Seq::<(Seq<char>, Seq<char>)>::empty(),
        },
{
    match parse_toml_table(raw) {
        Some(doc) => flatten_entries(&doc),
        None => Translations::empty(),
    }
}

// ───────────────────────── lookup ─────────────────────────

/// Translate a plain string by key.
///
/// Returns the key itself as fallback if not found.
pub fn t<'a>(strings: &'a Translations, key: &'a str) -> (r: &'a str)
    ensures
        r@ == (if strings@.contains_key(key@) { strings@[key@] } else { key@ }),
{
    strings.lookup(key)
}

/// `"{i}"`.
pub open spec fn placeholder(i: nat) -> Seq<char> {
    seq!['{'] + numeral(i, 10) + seq!['}']
}

/// The first of the placeholders `{i}`, from `i` up to `n - 1`, that `s`
/// starts with. (At most one does: the digits of `{i}` end at its `}`.)
pub open spec fn placeholder_from(s: Seq<char>, n: nat, i: nat) -> Option<nat>
    decreases n - i,
{
    if i >= n {
        None
    } else if starts_with(s, placeholder(i)) {
        Some(i)
    } else {
        placeholder_from(s, n, i + 1)
    }
}

/// The placeholder among `{0}` .. `{n-1}` that `s` starts with.
pub open spec fn placeholder_at(s: Seq<char>, n: nat) -> Option<nat> {
    placeholder_from(s, n, 0)
}

/// What `placeholder_from` finds is a placeholder in range that `s` starts with.
pub proof fn lemma_placeholder_from(s: Seq<char>, n: nat, i: nat)
    ensures
        placeholder_from(s, n, i) matches Some(k) ==> i <= k < n && starts_with(s, placeholder(k)),
    decreases n - i,
{
    if i < n && !starts_with(s, placeholder(i)) {
        lemma_placeholder_from(s, n, i + 1);
    }
}

/// `tmpl` read once from left to right, each placeholder `{i}` with
/// `i < n` replaced by the argument `args[i]`; other text, and the text of
/// the arguments, is left as it is.
pub open spec fn fill(tmpl: Seq<char>, args: Seq<Seq<char>>, n: nat) -> Seq<char>
    decreases tmpl.len(),
{
    if tmpl.len() == 0 {
        Seq::empty()
    } else {
        match placeholder_at(tmpl, n) {
            Some(i) => {
                proof {
                    lemma_placeholder_from(tmpl, n, 0);
                }
                args[i as int] + fill(tmpl.skip(placeholder(i).len() as int), args, n)
            },
            None => seq![tmpl[0]] + fill(tmpl.drop_first(), args, n),
        }
    }
}

/// The views of a slice of string slices.
pub open spec fn str_views(args: Seq<&str>) -> Seq<Seq<char>> {
    args.map_values(|a: &str| a@)
}

/// Translate a string with format arguments.
///
/// Placeholders `{0}`, `{1}`, etc. in the translation are replaced
/// with the corresponding argument.
pub fn tf(strings: &Translations, key: &str, args: &[&str]) -> (r: String)
    ensures
        r@ == fill(
            if strings@.contains_key(key@) { strings@[key@] } else { key@ },
            str_views(args@),
            args@.len(),
        ),
{
    let tmpl = strings.lookup(key);
    let v = chars_of(tmpl);
    let n = args.len();
    let ghost a = str_views(args@);
    // The placeholders `{0}` .. `{n-1}`, as characters.
    let mut pats: Vec<Vec<char>> = Vec::new();
    let mut i: usize = 0;
    while i < n
        invariant
            i <= n == args@.len(),
            pats@.len() == i,
            forall|j: int| 0 <= j < i ==> (#[trigger] pats@[j])@ == placeholder(j as nat),
        decreases n - i,
    {
        let mut pat = String::new();
        push_char(&mut pat, '{');
        push_numeral(&mut pat, i as u128, 10);
        push_char(&mut pat, '}');
        assert(pat@ =~= placeholder(i as nat));
        pats.push(chars_of(pat.as_str()));
        i += 1;
    }
    let mut out = String::new();
    let mut pos: usize = 0;
    assert(v@.skip(0) == v@);
    while pos < v.len()
        invariant
            pos <= v.len(),
            v@ == tmpl@,
            n == args@.len(),
            a == str_views(args@),
            pats@.len() == n,
            forall|j: int| 0 <= j < n ==> (#[trigger] pats@[j])@ == placeholder(j as nat),
            out@ + fill(v@.skip(pos as int), a, n as nat) == fill(tmpl@, a, n as nat),
        decreases v.len() - pos,
    {
        let ghost t = v@.skip(pos as int);
        // The placeholder that starts here, if any.
        let mut k: usize = 0;
        let mut found = false;
        while k < n && !found
            invariant
                k <= n,
                pats@.len() == n,
                pos < v.len(),
                forall|j: int| 0 <= j < n ==> (#[trigger] pats@[j])@ == placeholder(j as nat),
                found ==> k < n && placeholder_at(t, n as nat) == Some(k as nat),
                !found ==> placeholder_at(t, n as nat) == placeholder_from(t, n as nat, k as nat),
                t == v@.skip(pos as int),
            decreases n - k, (if found { 0int } else { 1int }),
        {
            if occurs_at(&v, &pats[k], pos) {
                found = true;
            } else {
                k += 1;
            }
        }
        let ghost out0 = out@;
        if found {
            proof {
                lemma_placeholder_from(t, n as nat, 0);
                assert(t.skip(pats@[k as int]@.len() as int) == v@.skip(pos + pats@[k as int]@.len()));
                assert(a[k as int] == args@[k as int]@);
            }
            out.append(args[k]);
            pos = pos + pats[k].len();
        } else {
            push_char(&mut out, v[pos]);
            proof {
                assert(t.drop_first() == v@.skip(pos + 1));
                assert(t[0] == v@[pos as int]);
                assert(out@ == out0 + seq![t[0]]);
            }
            pos = pos + 1;
        }
    }
    assert(v@.skip(pos as int) =~= Seq::<char>::empty());
    out
}

// ───────────────────────── laws ─────────────────────────

/// A message without `{` comes out of `tf` as it is, whatever the arguments.
pub proof fn law_fill_without_braces(tmpl: Seq<char>, args: Seq<Seq<char>>, n: nat)
    requires
        forall|i: int| 0 <= i < tmpl.len() ==> #[trigger] tmpl[i] != '{',
    ensures
        fill(tmpl, args, n) == tmpl,
    decreases tmpl.len(),
{
    if tmpl.len() > 0 {
        lemma_placeholder_from(tmpl, n, 0);
        if placeholder_at(tmpl, n) is Some {
            let k = placeholder_at(tmpl, n)->0;
            assert(tmpl.take(placeholder(k).len() as int)[0] == placeholder(k)[0]);
        }
        assert forall|i: int| 0 <= i < tmpl.drop_first().len() implies #[trigger] tmpl.drop_first()[i]
            != '{' by {
            assert(tmpl.drop_first()[i] == tmpl[i + 1]);
        }
        law_fill_without_braces(tmpl.drop_first(), args, n);
        assert(seq![tmpl[0]] + tmpl.drop_first() == tmpl);
    }
}

/// `{0}` is filled with the first argument, and the argument's own text is
/// not read again: a message that is just `{0}` becomes the argument,
/// whatever it holds.
pub proof fn law_fill_first_placeholder(args: Seq<Seq<char>>, n: nat)
    requires
        n > 0,
    ensures
        fill(placeholder(0), args, n) == args[0],
{
    let p = placeholder(0);
    assert(p.len() == 3) by {
        assert(numeral(0, 10) == seq![crate::text::digit_char(0)]);
    }
    assert(p.take(3) == p);
    assert(placeholder_at(p, n) == Some(0nat));
    assert(p.skip(3) =~= Seq::<char>::empty());
    assert(fill(p.skip(3), args, n) == Seq::<char>::empty());
    assert(args[0] + Seq::<char>::empty() =~= args[0]);
}

} // verus!
