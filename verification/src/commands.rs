//! The rules of the command line: help, proxy checking, cache clearing,
//! saving, and the update check.
use vstd::prelude::*;
use crate::paths::{ascii_lower, file_name, join, join_path, lower, path_file_name};
use crate::text::{
    chars_of, find_char, first_index, has_prefix, lemma_first_index, lemma_first_index_bound, lemma_numeral_digits, lemma_numeral_parses, lines, numeral, is_digit, opt_seq,
    parse_int, parse_u64, push_char, push_range, quoted_field, second_quoted_field, split_lines,
    starts_with, str_starts_with, trim, trim_str, views,
};

verus! {

/// Whether the arguments ask for help (`-h` or `--help` anywhere), which
/// is answered before the command line is parsed.
pub fn wants_help(args: &Vec<String>) -> (b: bool)
    ensures
        b == exists|i: int| 0 <= i < args@.len() && (#[trigger] args@[i]@ == "-h"@ || args@[i]@ == "--help"@),
{
    let short = String::from_str("-h");
    let long = String::from_str("--help");
    let mut i: usize = 0;
    while i < args.len()
        invariant
            i <= args.len(),
            short@ == "-h"@,
            long@ == "--help"@,
            forall|j: int| 0 <= j < i ==> !(#[trigger] args@[j]@ == "-h"@ || args@[j]@ == "--help"@),
        decreases args.len() - i,
    {
        if args[i] == short || args[i] == long {
            return true;
        }
        i += 1;
    }
    false
}

/// A proxy address is usable where it starts with `http://` or `https://`.
pub open spec fn proxy_ok(url: Seq<char>) -> bool {
    starts_with(url, "http://"@) || starts_with(url, "https://"@)
}

/// Whether a proxy URL has an HTTP(S) scheme; the program stops before any
/// network call where it does not.
pub fn proxy_is_valid(url: &str) -> (b: bool)
    ensures
        b == proxy_ok(url@),
{
    str_starts_with(url, "http://") || str_starts_with(url, "https://")
}

/// Which stock `--clean` clears.
#[derive(Clone, Copy, Debug, PartialEq, Eq, Structural)]
pub enum CleanTarget {
    /// `--clean` without a value: both.
    Both,
    Sfw,
    Nsfw,
}

/// `a` and `b` are equal up to ASCII case.
pub open spec fn eq_ignore_ascii_case(a: Seq<char>, b: Seq<char>) -> bool {
    a.len() == b.len() && forall|i: int| 0 <= i < a.len() ==> ascii_lower(#[trigger] a[i]) == ascii_lower(b[i])
}

/// The value that `--clean` takes without an argument.
pub open spec fn default_marker() -> Seq<char> {
    "__DEFAULT__"@
}

/// The stock that a `--clean` value names: both for the marker of a bare
/// `--clean`, `sfw` or `nsfw` in any case (`to_lowercase` maps no other
/// character onto these letters), none for anything else.
pub open spec fn clean_target_of(arg: Seq<char>) -> Option<CleanTarget> {
    if arg == default_marker() {
        Some(CleanTarget::Both)
    } else if eq_ignore_ascii_case(arg, "nsfw"@) {
        Some(CleanTarget::Nsfw)
    } else if eq_ignore_ascii_case(arg, "sfw"@) {
        Some(CleanTarget::Sfw)
    } else {
        None
    }
}

/// `str::eq_ignore_ascii_case`.
pub fn equal_ignoring_case(a: &str, b: &str) -> (r: bool)
    ensures
        r == eq_ignore_ascii_case(a@, b@),
{
    let av = chars_of(a);
    let bv = chars_of(b);
    if av.len() != bv.len() {
        return false;
    }
    let mut i: usize = 0;
    while i < av.len()
        invariant
            i <= av.len(),
            av.len() == bv.len(),
            av@ == a@,
            bv@ == b@,
            forall|j: int| 0 <= j < i ==> ascii_lower(#[trigger] av@[j]) == ascii_lower(bv@[j]),
        decreases av.len() - i,
    {
        if lower(av[i]) != lower(bv[i]) {
            return false;
        }
        i += 1;
    }
    true
}

/// The stock that a `--clean` value names; `None` for an invalid value.
pub fn clean_target(arg: &str) -> (r: Option<CleanTarget>)
    ensures
        r == clean_target_of(arg@),
{
    let marker = String::from_str("__DEFAULT__");
    if String::from_str(arg) == marker {
        Some(CleanTarget::Both)
    } else if equal_ignoring_case(arg, "nsfw") {
        Some(CleanTarget::Nsfw)
    } else if equal_ignoring_case(arg, "sfw") {
        Some(CleanTarget::Sfw)
    } else {
        None
    }
}

/// The directory that `--save` copies into: the given path, or for a bare
/// `--save` the configured directory of the image's mode, else the default.
pub open spec fn save_dir_of(
    save_arg: Seq<char>,
    is_nsfw: bool,
    cfg_sfw: Option<Seq<char>>,
    cfg_nsfw: Option<Seq<char>>,
    default_dir: Seq<char>,
) -> Seq<char> {
    if save_arg == default_marker() {
        match (if is_nsfw { cfg_nsfw } else { cfg_sfw }) {
            Some(p) => p,
            None => default_dir,
        }
    } else {
        save_arg
    }
}

/// The directory into which `--save` copies the last image.
pub fn save_dir(
    save_arg: &str,
    is_nsfw: bool,
    cfg_sfw: Option<&str>,
    cfg_nsfw: Option<&str>,
    default_dir: &str,
) -> (r: String)
    ensures
        r@ == save_dir_of(save_arg@, is_nsfw, opt_seq(cfg_sfw), opt_seq(cfg_nsfw), default_dir@),
{
    let marker = String::from_str("__DEFAULT__");
    if String::from_str(save_arg) == marker {
        let cfg = if is_nsfw { cfg_nsfw } else { cfg_sfw };
        match cfg {
            Some(p) => String::from_str(p),
            None => String::from_str(default_dir),
        }
    } else {
        String::from_str(save_arg)
    }
}

/// Where the saved copy goes: the save directory joined with the image's
/// file name (`unknown.jpg` where the path has none).
pub fn save_destination(save_dir: &str, src: &str) -> (r: String)
    ensures
        r@ == join(save_dir@, match file_name(src@) {
            Some(n) => n,
            None => "unknown.jpg"@,
        }),
{
    match path_file_name(src) {
        Some(n) => join_path(save_dir, n.as_str()),
        None => join_path(save_dir, "unknown.jpg"),
    }
}

// ───────────────────────── update check ─────────────────────────

/// The index of the first line whose trimmed text starts with `version`,
/// or the number of lines where there is none.
pub open spec fn version_line(ls: Seq<Seq<char>>) -> int
    decreases ls.len(),
{
    if ls.len() == 0 {
        0
    } else if starts_with(trim(ls[0]), "version"@) {
        0
    } else {
        1 + version_line(ls.drop_first())
    }
}

/// The version that a `Cargo.toml` announces: the quoted text of its first
/// `version` line, `0.0.0` where there is none.
pub open spec fn announced_version(body: Seq<char>) -> Seq<char> {
    let ls = lines(body);
    let k = version_line(ls);
    if 0 <= k < ls.len() {
        match second_quoted_field(ls[k]) {
            Some(v) => v,
            None => "0.0.0"@,
        }
    } else {
        "0.0.0"@
    }
}

proof fn lemma_version_line(ls: Seq<Seq<char>>, k: int)
    requires
        0 <= k <= ls.len(),
        forall|j: int| 0 <= j < k ==> !starts_with(trim(#[trigger] ls[j]), "version"@),
        k == ls.len() || starts_with(trim(ls[k]), "version"@),
    ensures
        version_line(ls) == k,
    decreases k,
{
    if k > 0 {
        assert forall|j: int| 0 <= j < k - 1 implies !starts_with(
            trim(#[trigger] ls.drop_first()[j]),
            "version"@,
        ) by {
            assert(ls.drop_first()[j] == ls[j + 1]);
        }
        lemma_version_line(ls.drop_first(), k - 1);
    }
}

/// Parse the version from a remote `Cargo.toml`.
pub fn remote_version(body: &str) -> (v: String)
    ensures
        v@ == announced_version(body@),
{
    let ls = split_lines(body);
    let prefix = chars_of("version");
    let mut k: usize = 0;
    let mut found = false;
    while k < ls.len() && !found
        invariant
            k <= ls.len(),
            prefix@ == "version"@,
            views(ls@) == lines(body@),
            found ==> k < ls.len() && starts_with(trim(views(ls@)[k as int]), "version"@),
            forall|j: int| 0 <= j < k ==> !starts_with(trim(#[trigger] views(ls@)[j]), "version"@),
        decreases ls.len() - k, (if found { 0int } else { 1int }),
    {
        let t = chars_of(trim_str(ls[k].as_str()).as_str());
        assert(views(ls@)[k as int] == ls@[k as int]@);
        if has_prefix(&t, &prefix) {
            found = true;
        } else {
            k += 1;
        }
    }
    proof {
        if k < ls.len() {
            assert(views(ls@)[k as int] == ls@[k as int]@);
        }
        lemma_version_line(lines(body@), k as int);
    }
    if k < ls.len() {
        match quoted_field(ls[k].as_str()) {
            Some(v) => v,
            None => String::from_str("0.0.0"),
        }
    } else {
        String::from_str("0.0.0")
    }
}

/// The number of one part of a version: the part read as a `u64`, 0 where
/// it is not one.
pub open spec fn part_number(p: Seq<char>) -> nat {
    match parse_int(p, false) {
        Some(x) => if 0 <= x <= u64::MAX { x as nat } else { 0 },
        None => 0,
    }
}

/// The numbers of the dot-separated parts of a version (`"0.10.2"` gives
/// 0, 10, 2); there is always at least one part.
pub open spec fn version_numbers(s: Seq<char>) -> Seq<nat>
    decreases s.len(),
{
    let k = first_index(s, '.');
    if k >= s.len() {
        seq![part_number(s)]
    } else {
        proof {
            lemma_first_index_bound(s, '.');
        }
        seq![part_number(s.take(k))] + version_numbers(s.skip(k + 1))
    }
}

/// The `i`-th number of a version, 0 beyond its last part.
pub open spec fn nth_number(v: Seq<nat>, i: int) -> nat {
    if 0 <= i < v.len() {
        v[i]
    } else {
        0
    }
}

/// `a` comes before `b` when compared part by part from position `i` on,
/// missing parts counting as 0.
pub open spec fn numbers_lt_from(a: Seq<nat>, b: Seq<nat>, i: int) -> bool
    decreases (if a.len() > b.len() { a.len() } else { b.len() }) - i,
{
    if i >= a.len() && i >= b.len() {
        false
    } else if nth_number(a, i) != nth_number(b, i) {
        nth_number(a, i) < nth_number(b, i)
    } else {
        numbers_lt_from(a, b, i + 1)
    }
}

/// Version `a` is older than version `b`: at the first part where their
/// numbers differ (a missing part counting as 0), `a`'s is smaller. So
/// `0.9.0` is older than `0.10.0`, and `0.3` and `0.3.0` are the same.
pub open spec fn version_older(a: Seq<char>, b: Seq<char>) -> bool {
    numbers_lt_from(version_numbers(a), version_numbers(b), 0)
}

/// The numbers of a version.
fn version_numbers_of(s: &str) -> (r: Vec<u64>)
    ensures
        r@.map_values(|x: u64| x as nat) == version_numbers(s@),
{
    let v = chars_of(s);
    let mut r: Vec<u64> = Vec::new();
    let mut start: usize = 0;
    assert(v@.skip(0) == v@);
    loop
        invariant_except_break
            r@.map_values(|x: u64| x as nat) + version_numbers(v@.skip(start as int)) == version_numbers(
                s@,
            ),
        invariant
            start <= v.len(),
            v@ == s@,
        ensures
            r@.map_values(|x: u64| x as nat) == version_numbers(s@),
        decreases v.len() - start,
    {
        let ghost t = v@.skip(start as int);
        let ghost before = r@.map_values(|x: u64| x as nat);
        let k = find_char(&v, '.', start);
        let mut part = String::new();
        push_range(&mut part, &v, start, k);
        assert(part@ == t.take(k - start));
        let n: u64 = match parse_u64(part.as_str()) {
            Some(x) => x,
            None => 0,
        };
        assert(n as nat == part_number(t.take(k - start)));
        r.push(n);
        assert(r@.map_values(|x: u64| x as nat) == before.push(n as nat));
        if k == v.len() {
            assert(t.take(k - start) == t);
            assert(version_numbers(t) == seq![part_number(t)]);
            assert(before.push(n as nat) == before + seq![part_number(t)]);
            break;
        }
        proof {
            lemma_first_index_bound(t, '.');
            assert(t.skip(k - start + 1) == v@.skip(k + 1));
            assert(version_numbers(t) == seq![part_number(t.take(k - start))] + version_numbers(
                t.skip(k - start + 1),
            ));
            assert(before.push(n as nat) + version_numbers(v@.skip(k + 1)) == before + version_numbers(t));
        }
        start = k + 1;
    }
    r
}

/// Whether the remote version is newer than the current one, comparing
/// their dot-separated parts as numbers.
pub fn is_newer(remote: &str, current: &str) -> (b: bool)
    ensures
        b == version_older(current@, remote@),
{
    let a = version_numbers_of(current);
    let c = version_numbers_of(remote);
    let ghost an = a@.map_values(|x: u64| x as nat);
    let ghost cn = c@.map_values(|x: u64| x as nat);
    let n = if a.len() > c.len() { a.len() } else { c.len() };
    let mut i: usize = 0;
    while i < n
        invariant
            i <= n,
            n == (if a.len() > c.len() { a.len() } else { c.len() }),
            an == a@.map_values(|x: u64| x as nat),
            cn == c@.map_values(|x: u64| x as nat),
            an == version_numbers(current@),
            cn == version_numbers(remote@),
            numbers_lt_from(an, cn, i as int) == version_older(current@, remote@),
        decreases n - i,
    {
        let x: u64 = if i < a.len() { a[i] } else { 0 };
        let y: u64 = if i < c.len() { c[i] } else { 0 };
        assert(x as nat == nth_number(an, i as int));
        assert(y as nat == nth_number(cn, i as int));
        if x != y {
            return x < y;
        }
        i += 1;
    }
    false
}

proof fn lemma_numbers_lt_strict(a: Seq<nat>, b: Seq<nat>, i: int)
    ensures
        !numbers_lt_from(a, a, i),
        numbers_lt_from(a, b, i) ==> !numbers_lt_from(b, a, i),
    decreases (if a.len() > b.len() { a.len() } else { b.len() }) - i,
{
    if !(i >= a.len() && i >= b.len()) && nth_number(a, i) == nth_number(b, i) {
        lemma_numbers_lt_strict(a, b, i + 1);
    }
    lemma_numbers_lt_self(a, i);
}

proof fn lemma_numbers_lt_self(a: Seq<nat>, i: int)
    ensures
        !numbers_lt_from(a, a, i),
    decreases a.len() - i,
{
    if i < a.len() {
        lemma_numbers_lt_self(a, i + 1);
    }
}

/// The update check's order is strict: no version is newer than itself
/// (so an unchanged version is "up to date"), and of two versions at most
/// one is newer than the other.
pub proof fn law_version_order_strict(a: Seq<char>, b: Seq<char>)
    ensures
        !version_older(a, a),
        version_older(a, b) ==> !version_older(b, a),
{
    lemma_numbers_lt_strict(version_numbers(a), version_numbers(b), 0);
    lemma_numbers_lt_self(version_numbers(a), 0);
}

/// The versions order by their numbers, part by part: `x.y` is older
/// than `x.z` wherever `y < z`, however many digits each has.
pub proof fn law_version_numeric(x: u64, y: u64, z: u64)
    requires
        y < z,
    ensures
        version_older(
            numeral(x as nat, 10) + seq!['.'] + numeral(y as nat, 10),
            numeral(x as nat, 10) + seq!['.'] + numeral(z as nat, 10),
        ),
{
    lemma_two_part_numbers(x, y);
    lemma_two_part_numbers(x, z);
    let a = seq![x as nat, y as nat];
    let b = seq![x as nat, z as nat];
    assert(numbers_lt_from(a, b, 1));
    assert(numbers_lt_from(a, b, 0));
}

proof fn lemma_two_part_numbers(x: u64, y: u64)
    ensures
        version_numbers(numeral(x as nat, 10) + seq!['.'] + numeral(y as nat, 10)) == seq![
            x as nat,
            y as nat,
        ],
{
    let nx = numeral(x as nat, 10);
    let ny = numeral(y as nat, 10);
    let s = nx + seq!['.'] + ny;
    lemma_numeral_parses(x as nat);
    lemma_numeral_parses(y as nat);
    lemma_numeral_digits(x as nat);
    lemma_numeral_digits(y as nat);
    assert forall|j: int| 0 <= j < nx.len() implies #[trigger] s[j] != '.' by {
        assert(s[j] == nx[j]);
        assert(is_digit(nx[j]));
    }
    assert forall|j: int| 0 <= j < ny.len() implies #[trigger] ny[j] != '.' by {
        assert(is_digit(ny[j]));
    }
    lemma_first_index(s, '.', nx.len() as int);
    assert(s.take(nx.len() as int) == nx);
    assert(s.skip(nx.len() as int + 1) == ny);
    lemma_first_index(ny, '.', ny.len() as int);
    assert(part_number(nx) == x as nat);
    assert(part_number(ny) == y as nat);
    assert(version_numbers(ny) == seq![y as nat]);
    assert(version_numbers(s) == seq![part_number(nx)] + version_numbers(ny));
    assert(seq![x as nat] + seq![y as nat] =~= seq![x as nat, y as nat]);
}

proof fn lemma_numeral_no_dot(x: nat)
    ensures
        forall|j: int| 0 <= j < numeral(x, 10).len() ==> #[trigger] numeral(x, 10)[j] != '.',
        part_number(numeral(x, 10)) == x || x > u64::MAX,
{
    lemma_numeral_digits(x);
    lemma_numeral_parses(x);
    assert forall|j: int| 0 <= j < numeral(x, 10).len() implies #[trigger] numeral(x, 10)[j] != '.' by {
        assert(is_digit(numeral(x, 10)[j]));
    }
}

/// The numbers of `x.rest` are `x` followed by the numbers of `rest`.
proof fn lemma_leading_part(x: u64, rest: Seq<char>)
    ensures
        version_numbers(numeral(x as nat, 10) + seq!['.'] + rest) == seq![x as nat] + version_numbers(
            rest,
        ),
        version_numbers(numeral(x as nat, 10)) == seq![x as nat],
{
    let nx = numeral(x as nat, 10);
    let s = nx + seq!['.'] + rest;
    lemma_numeral_no_dot(x as nat);
    assert forall|j: int| 0 <= j < nx.len() implies #[trigger] s[j] != '.' by {
        assert(s[j] == nx[j]);
    }
    lemma_first_index(s, '.', nx.len() as int);
    assert(s.take(nx.len() as int) == nx);
    assert(s.skip(nx.len() as int + 1) == rest);
    lemma_first_index(nx, '.', nx.len() as int);
}

proof fn lemma_numbers_lt_shift(x: nat, a: Seq<nat>, b: Seq<nat>, i: int)
    requires
        i >= 0,
    ensures
        numbers_lt_from(seq![x] + a, seq![x] + b, i + 1) == numbers_lt_from(a, b, i),
    decreases (if a.len() > b.len() { a.len() } else { b.len() }) - i,
{
    let a1 = seq![x] + a;
    let b1 = seq![x] + b;
    assert(nth_number(a1, i + 1) == nth_number(a, i));
    assert(nth_number(b1, i + 1) == nth_number(b, i));
    if !(i >= a.len() && i >= b.len()) && nth_number(a, i) == nth_number(b, i) {
        lemma_numbers_lt_shift(x, a, b, i + 1);
    }
}

/// A larger first part makes a version newer, whatever follows it:
/// `x.rest1` is older than `y.rest2` wherever `x < y`; and a bare `x` is
/// older than a bare `y` exactly where `x < y`.
pub proof fn law_version_leading_part(x: u64, y: u64, rest1: Seq<char>, rest2: Seq<char>)
    ensures
        x < y ==> version_older(
            numeral(x as nat, 10) + seq!['.'] + rest1,
            numeral(y as nat, 10) + seq!['.'] + rest2,
        ),
        version_older(numeral(x as nat, 10), numeral(y as nat, 10)) <==> x < y,
{
    lemma_leading_part(x, rest1);
    lemma_leading_part(y, rest2);
    let a = seq![x as nat] + version_numbers(rest1);
    let b = seq![y as nat] + version_numbers(rest2);
    assert(nth_number(a, 0) == x && nth_number(b, 0) == y);
    let c = seq![x as nat];
    let d = seq![y as nat];
    assert(nth_number(c, 0) == x && nth_number(d, 0) == y);
    if x == y {
        assert(numbers_lt_from(c, d, 1) == false);
    }
}

/// Versions with the same first part compare as the rest of them do:
/// `x.rest1` is older than `x.rest2` exactly where `rest1` is older than
/// `rest2`.
pub proof fn law_version_same_leading_part(x: u64, rest1: Seq<char>, rest2: Seq<char>)
    ensures
        version_older(numeral(x as nat, 10) + seq!['.'] + rest1, numeral(x as nat, 10) + seq!['.']
            + rest2) == version_older(rest1, rest2),
{
    lemma_leading_part(x, rest1);
    lemma_leading_part(x, rest2);
    let a = version_numbers(rest1);
    let b = version_numbers(rest2);
    lemma_numbers_lt_shift(x as nat, a, b, 0);
    assert(nth_number(seq![x as nat] + a, 0) == nth_number(seq![x as nat] + b, 0));
}

/// For a bare `--save` the directory depends only on the configured path
/// of the image's own mode: that path where it is set, else the default;
/// a path given with `--save` is used as it is.
pub proof fn law_save_dir_own_mode(
    arg: Seq<char>,
    sfw: Option<Seq<char>>,
    nsfw: Option<Seq<char>>,
    other: Option<Seq<char>>,
    default_dir: Seq<char>,
)
    ensures
        save_dir_of("__DEFAULT__"@, false, sfw, nsfw, default_dir) == save_dir_of(
            "__DEFAULT__"@,
            false,
            sfw,
            other,
            default_dir,
        ),
        save_dir_of("__DEFAULT__"@, true, sfw, nsfw, default_dir) == save_dir_of(
            "__DEFAULT__"@,
            true,
            other,
            nsfw,
            default_dir,
        ),
        sfw is None ==> save_dir_of("__DEFAULT__"@, false, sfw, nsfw, default_dir) == default_dir,
        nsfw is None ==> save_dir_of("__DEFAULT__"@, true, sfw, nsfw, default_dir) == default_dir,
        sfw matches Some(p) ==> save_dir_of("__DEFAULT__"@, false, sfw, nsfw, default_dir) == p,
        nsfw matches Some(p) ==> save_dir_of("__DEFAULT__"@, true, sfw, nsfw, default_dir) == p,
        arg != "__DEFAULT__"@ ==> save_dir_of(arg, false, sfw, nsfw, default_dir) == arg
            && save_dir_of(arg, true, sfw, nsfw, default_dir) == arg,
{
}

/// `--clean` names a mode by its name in any ASCII case, and nothing else
/// does: the value is NSFW exactly when it is `nsfw` up to case, SFW
/// exactly when it is `sfw` up to case, both for a bare `--clean`, and
/// invalid otherwise.
pub proof fn law_clean_target_names(arg: Seq<char>)
    ensures
        clean_target_of(arg) == Some(CleanTarget::Nsfw) <==> (arg.len() == 4 && ascii_lower(arg[0])
            == 'n' && ascii_lower(arg[1]) == 's' && ascii_lower(arg[2]) == 'f' && ascii_lower(arg[3])
            == 'w'),
        clean_target_of(arg) == Some(CleanTarget::Sfw) <==> (arg.len() == 3 && ascii_lower(arg[0])
            == 's' && ascii_lower(arg[1]) == 'f' && ascii_lower(arg[2]) == 'w'),
        clean_target_of(arg) == Some(CleanTarget::Both) <==> arg == "__DEFAULT__"@,
{
    reveal_strlit("nsfw");
    reveal_strlit("sfw");
    reveal_strlit("__DEFAULT__");
    if arg.len() == 4 && ascii_lower(arg[0]) == 'n' && ascii_lower(arg[1]) == 's' && ascii_lower(arg[2])
        == 'f' && ascii_lower(arg[3]) == 'w' {
        assert(eq_ignore_ascii_case(arg, "nsfw"@)) by {
            assert forall|i: int| 0 <= i < 4 implies ascii_lower(#[trigger] arg[i]) == ascii_lower(
                "nsfw"@[i],
            ) by {
                assert(i == 0 || i == 1 || i == 2 || i == 3);
            }
        }
    }
    if arg.len() == 3 && ascii_lower(arg[0]) == 's' && ascii_lower(arg[1]) == 'f' && ascii_lower(arg[2])
        == 'w' {
        assert(eq_ignore_ascii_case(arg, "sfw"@)) by {
            assert forall|i: int| 0 <= i < 3 implies ascii_lower(#[trigger] arg[i]) == ascii_lower(
                "sfw"@[i],
            ) by {
                assert(i == 0 || i == 1 || i == 2);
            }
        }
    }
    if eq_ignore_ascii_case(arg, "nsfw"@) {
        assert(ascii_lower(arg[0]) == ascii_lower("nsfw"@[0]));
        assert(ascii_lower(arg[1]) == ascii_lower("nsfw"@[1]));
        assert(ascii_lower(arg[2]) == ascii_lower("nsfw"@[2]));
        assert(ascii_lower(arg[3]) == ascii_lower("nsfw"@[3]));
    }
    if eq_ignore_ascii_case(arg, "sfw"@) {
        assert(ascii_lower(arg[0]) == ascii_lower("sfw"@[0]));
        assert(ascii_lower(arg[1]) == ascii_lower("sfw"@[1]));
        assert(ascii_lower(arg[2]) == ascii_lower("sfw"@[2]));
    }
    if arg == "__DEFAULT__"@ {
        assert(arg.len() == 11);
    }
}

/// An answer of `y` or `Y`, whitespace around it ignored.
pub open spec fn yes(answer: Seq<char>) -> bool {
    eq_ignore_ascii_case(trim(answer), seq!['y'])
}

/// Whether the user's answer to a yes/no prompt is yes.
pub fn answer_is_yes(answer: &str) -> (b: bool)
    ensures
        b == yes(answer@),
{
    let t = trim_str(answer);
    let mut y = String::new();
    push_char(&mut y, 'y');
    equal_ignoring_case(t.as_str(), y.as_str())
}

} // verus!
