//! Character-level text utilities: whitespace trimming, decimal and
//! hexadecimal numerals, integer parsing, line splitting and substring
//! matching, each with the meaning that Rust's `str` gives it.
use vstd::prelude::*;

verus! {

/// Appends one character to a `String` (`String::push`).
/// Trusted: the new contents are the old contents followed by `c`.
#[verifier::external_body]
pub(crate) fn push_char(s: &mut String, c: char)
    ensures
        final(s)@ == old(s)@.push(c),
{
    s.push(c);
}

/// The characters of `s`, in order.
pub fn chars_of(s: &str) -> (r: Vec<char>)
    ensures
        r@ == s@,
{
    let mut r: Vec<char> = Vec::new();
    for c in it: s.chars()
        invariant
            r@ == it.seq().take(it.index() as int),
            it.seq() == s@,
    {
        r.push(c);
    }
    r
}

/// Appends the characters `v[from..to]` to `out`.
pub fn push_range(out: &mut String, v: &Vec<char>, from: usize, to: usize)
    requires
        from <= to <= v.len(),
    ensures
        final(out)@ == old(out)@ + v@.subrange(from as int, to as int),
{
    let mut i = from;
    while i < to
        invariant
            from <= i <= to <= v.len(),
            out@ == old(out)@ + v@.subrange(from as int, i as int),
        decreases to - i,
    {
        push_char(out, v[i]);
        assert(v@.subrange(from as int, i + 1) == v@.subrange(from as int, i as int).push(v@[i as int]));
        i += 1;
    }
}

/// The string made of the characters `v`.
pub fn string_of(v: &Vec<char>) -> (r: String)
    ensures
        r@ == v@,
{
    let mut r = String::new();
    push_range(&mut r, v, 0, v.len());
    assert(v@.subrange(0, v@.len() as int) == v@);
    r
}

/// Appends `n` spaces to `out`.
pub fn push_spaces(out: &mut String, n: usize)
    ensures
        final(out)@ == old(out)@ + Seq::new(n as nat, |i: int| ' '),
{
    let mut i: usize = 0;
    while i < n
        invariant
            i <= n,
            out@ == old(out)@ + Seq::new(i as nat, |k: int| ' '),
        decreases n - i,
    {
        push_char(out, ' ');
        assert(Seq::new((i + 1) as nat, |k: int| ' ') == Seq::new(i as nat, |k: int| ' ').push(' '));
        i += 1;
    }
}

/// The characters of an optional string slice.
pub open spec fn opt_seq(o: Option<&str>) -> Option<Seq<char>> {
    match o {
        Some(s) => Some(s@),
        None => None,
    }
}

/// The characters of an optional string.
pub open spec fn opt_view(o: Option<String>) -> Option<Seq<char>> {
    match o {
        Some(s) => Some(s@),
        None => None,
    }
}

// ───────────────────────── whitespace ─────────────────────────

/// Unicode `White_Space`, the property that `char::is_whitespace` tests.
pub open spec fn is_ws(c: char) -> bool {
    ||| ('\u{9}' <= c && c <= '\u{d}')
    ||| c == ' '
    ||| c == '\u{85}'
    ||| c == '\u{a0}'
    ||| c == '\u{1680}'
    ||| ('\u{2000}' <= c && c <= '\u{200a}')
    ||| c == '\u{2028}'
    ||| c == '\u{2029}'
    ||| c == '\u{202f}'
    ||| c == '\u{205f}'
    ||| c == '\u{3000}'
}

/// `char::is_whitespace`.
pub fn char_is_ws(c: char) -> (b: bool)
    ensures
        b == is_ws(c),
{
    ('\u{9}' <= c && c <= '\u{d}') || c == ' ' || c == '\u{85}' || c == '\u{a0}' || c == '\u{1680}'
        || ('\u{2000}' <= c && c <= '\u{200a}') || c == '\u{2028}' || c == '\u{2029}'
        || c == '\u{202f}' || c == '\u{205f}' || c == '\u{3000}'
}

/// `s` without its leading whitespace.
pub open spec fn trim_start(s: Seq<char>) -> Seq<char>
    decreases s.len(),
{
    if s.len() > 0 && is_ws(s[0]) {
        trim_start(s.drop_first())
    } else {
        s
    }
}

/// `s` without its trailing whitespace.
pub open spec fn trim_end(s: Seq<char>) -> Seq<char>
    decreases s.len(),
{
    if s.len() > 0 && is_ws(s.last()) {
        trim_end(s.drop_last())
    } else {
        s
    }
}

/// `str::trim`: `s` without leading and trailing whitespace.
pub open spec fn trim(s: Seq<char>) -> Seq<char> {
    trim_end(trim_start(s))
}

proof fn lemma_trim_start_skip(s: Seq<char>, k: int)
    requires
        0 <= k <= s.len(),
        forall|j: int| 0 <= j < k ==> is_ws(#[trigger] s[j]),
    ensures
        trim_start(s) == trim_start(s.skip(k)),
    decreases k,
{
    if k > 0 {
        assert(s.drop_first().skip(k - 1) == s.skip(k));
        lemma_trim_start_skip(s.drop_first(), k - 1);
    } else {
        assert(s.skip(0) == s);
    }
}

proof fn lemma_trim_end_take(s: Seq<char>, k: int)
    requires
        0 <= k <= s.len(),
        forall|j: int| k <= j < s.len() ==> is_ws(#[trigger] s[j]),
    ensures
        trim_end(s) == trim_end(s.take(k)),
    decreases s.len() - k,
{
    if k < s.len() {
        assert(s.drop_last().take(k) == s.take(k));
        lemma_trim_end_take(s.drop_last(), k);
    } else {
        assert(s.take(k) == s);
    }
}

/// The bounds `(a, b)` with `trim(v) == v[a..b]`.
pub fn trim_bounds(v: &Vec<char>) -> (r: (usize, usize))
    ensures
        r.0 <= r.1 <= v.len(),
        trim(v@) == v@.subrange(r.0 as int, r.1 as int),
{
    let mut a: usize = 0;
    while a < v.len() && char_is_ws(v[a])
        invariant
            a <= v.len(),
            forall|j: int| 0 <= j < a ==> is_ws(#[trigger] v@[j]),
        decreases v.len() - a,
    {
        a += 1;
    }
    proof {
        lemma_trim_start_skip(v@, a as int);
    }
    let mut b: usize = v.len();
    while b > a && char_is_ws(v[b - 1])
        invariant
            a <= b <= v.len(),
            forall|j: int| b <= j < v.len() ==> is_ws(#[trigger] v@[j]),
        decreases b,
    {
        b -= 1;
    }
    proof {
        let t = v@.skip(a as int);
        assert(trim_start(t) == t);
        assert forall|j: int| b - a <= j < t.len() implies is_ws(#[trigger] t[j]) by {
            assert(t[j] == v@[j + a]);
        }
        lemma_trim_end_take(t, b - a);
        assert(t.take(b - a) == v@.subrange(a as int, b as int));
        if b > a {
            assert(t.take(b - a).last() == v@[b - 1]);
        }
    }
    (a, b)
}

/// `str::trim`, as a `String`.
pub fn trim_str(s: &str) -> (r: String)
    ensures
        r@ == trim(s@),
{
    let v = chars_of(s);
    let (a, b) = trim_bounds(&v);
    let mut r = String::new();
    push_range(&mut r, &v, a, b);
    r
}

// ───────────────────────── numerals ─────────────────────────

/// The numeral character of a digit `d < 16` (lower-case letters above 9).
pub open spec fn digit_char(d: nat) -> char {
    if d < 10 {
        (('0' as u32) + d) as char
    } else {
        (('a' as u32) + (d - 10)) as char
    }
}

/// The numeral of `n` in base `b` (`2 <= b <= 16`), most significant digit
/// first, as `format!("{n}")` writes it for `b == 10` and `format!("{n:x}")`
/// for `b == 16`.
pub open spec fn numeral(n: nat, b: nat) -> Seq<char>
    recommends
        2 <= b <= 16,
    decreases n,
{
    if b < 2 || n < b {
        seq![digit_char(n)]
    } else {
        proof {
            assert(n / b < n) by (nonlinear_arith)
                requires b >= 2, n >= b;
        }
        numeral(n / b, b).push(digit_char(n % b))
    }
}

fn digit_to_char(d: u32) -> (c: char)
    requires
        d < 16,
    ensures
        c == digit_char(d as nat),
{
    if d < 10 {
        ascii_char(48 + d)
    } else {
        ascii_char(97 + (d - 10))
    }
}

/// The ASCII character with code `v`.
pub(crate) fn ascii_char(v: u32) -> (c: char)
    requires
        v < 128,
    ensures
        c == v as char,
{
    let b: u8 = v as u8;
    b as char
}

/// Appends the base-`b` numeral of `n` to `out`.
pub fn push_numeral(out: &mut String, n: u128, b: u128)
    requires
        2 <= b <= 16,
    ensures
        final(out)@ == old(out)@ + numeral(n as nat, b as nat),
    decreases n,
{
    if n < b {
        push_char(out, digit_to_char(n as u32));
    } else {
        assert(n / b < n) by (nonlinear_arith)
            requires b >= 2, n >= b;
        push_numeral(out, n / b, b);
        push_char(out, digit_to_char((n % b) as u32));
    }
}

/// `format!("{n}")`.
pub fn decimal(n: u128) -> (r: String)
    ensures
        r@ == numeral(n as nat, 10),
{
    let mut r = String::new();
    push_numeral(&mut r, n, 10);
    r
}

// ───────────────────────── integer parsing ─────────────────────────

pub open spec fn is_digit(c: char) -> bool {
    '0' <= c && c <= '9'
}

pub open spec fn digit_val(c: char) -> nat {
    (c as u32 - '0' as u32) as nat
}

/// The value of a sequence of decimal digits.
pub open spec fn digits_value(s: Seq<char>) -> nat
    decreases s.len(),
{
    if s.len() == 0 {
        0
    } else {
        digits_value(s.drop_last()) * 10 + digit_val(s.last())
    }
}

pub open spec fn all_digits(s: Seq<char>) -> bool {
    forall|i: int| 0 <= i < s.len() ==> is_digit(#[trigger] s[i])
}

/// The integer that Rust's `FromStr` for integer types reads from `s`, before
/// the range check: an optional sign (`-` only where `signed`), then at least
/// one decimal digit and nothing else.
pub open spec fn parse_int(s: Seq<char>, signed: bool) -> Option<int> {
    if s.len() == 0 || ((s[0] == '+' || s[0] == '-') && s.len() == 1) {
        None
    } else {
        let neg = signed && s[0] == '-';
        let digits = if s[0] == '+' || neg { s.drop_first() } else { s };
        if all_digits(digits) {
            Some(if neg { -(digits_value(digits) as int) } else { digits_value(digits) as int })
        } else {
            None
        }
    }
}

/// Reads the digits `v[from..]` as a number that must not exceed `max`.
fn digits_at_most(v: &Vec<char>, from: usize, max: u128) -> (r: Option<u128>)
    requires
        from <= v.len(),
    ensures
        r matches Some(x) ==> all_digits(v@.skip(from as int)) && x == digits_value(
            v@.skip(from as int),
        ) && x <= max,
        r is None ==> !all_digits(v@.skip(from as int)) || digits_value(v@.skip(from as int))
            > max,
{
    let ghost d = v@.skip(from as int);
    let mut acc: u128 = 0;
    let mut over = false;
    let mut i = from;
    while i < v.len()
        invariant
            from <= i <= v.len(),
            d == v@.skip(from as int),
            all_digits(d.take(i - from)),
            !over ==> acc == digits_value(d.take(i - from)) && acc <= max,
            over ==> digits_value(d.take(i - from)) > max,
        decreases v.len() - i,
    {
        let c = v[i];
        if !('0' <= c && c <= '9') {
            assert(d[i - from] == c);
            return None;
        }
        let dv = (c as u32 - 48) as u128;
        assert(d.take(i - from + 1).drop_last() == d.take(i - from));
        assert(d.take(i - from + 1).last() == c);
        assert(all_digits(d.take(i - from + 1))) by {
            assert forall|j: int| 0 <= j < i - from + 1 implies is_digit(#[trigger] d.take(i - from + 1)[j]) by {
                if j < i - from {
                    assert(d.take(i - from + 1)[j] == d.take(i - from)[j]);
                }
            }
        }
        if !over {
            if dv > max || acc > (max - dv) / 10 {
                over = true;
                assert(acc * 10 + dv > max) by (nonlinear_arith)
                    requires dv > max || acc > (max - dv) / 10, acc >= 0;
            } else {
                assert(acc * 10 + dv <= max) by (nonlinear_arith)
                    requires acc <= (max - dv) / 10, dv <= 9, max >= 0;
                acc = acc * 10 + dv;
            }
        } else {
            assert(digits_value(d.take(i - from)) * 10 + dv > max) by (nonlinear_arith)
                requires digits_value(d.take(i - from)) > max;
        }
        i += 1;
    }
    assert(d.take(v.len() - from) == d);
    if over {
        None
    } else {
        Some(acc)
    }
}

/// Rust's `str::parse` for an unsigned integer type whose largest value is `max`.
pub fn parse_unsigned(s: &str, max: u128) -> (r: Option<u128>)
    ensures
        r == (match parse_int(s@, false) {
            Some(x) => if x <= max { Some(x as u128) } else { None },
            None => None,
        }),
{
    let v = chars_of(s);
    if v.len() == 0 {
        return None;
    }
    if (v[0] == '+' || v[0] == '-') && v.len() == 1 {
        return None;
    }
    let from: usize = if v[0] == '+' { 1 } else { 0 };
    assert(from == 0 ==> v@.skip(0) == v@);
    digits_at_most(&v, from, max)
}

/// `str::parse::<u64>`.
pub fn parse_u64(s: &str) -> (r: Option<u64>)
    ensures
        r == (match parse_int(s@, false) {
            Some(x) => if x <= u64::MAX { Some(x as u64) } else { None },
            None => None,
        }),
{
    match parse_unsigned(s, 0xffff_ffff_ffff_ffff) {
        Some(x) => Some(x as u64),
        None => None,
    }
}

/// `str::parse::<u32>`.
pub fn parse_u32(s: &str) -> (r: Option<u32>)
    ensures
        r == (match parse_int(s@, false) {
            Some(x) => if x <= u32::MAX { Some(x as u32) } else { None },
            None => None,
        }),
{
    match parse_unsigned(s, 0xffff_ffff) {
        Some(x) => Some(x as u32),
        None => None,
    }
}

/// `str::parse::<usize>`.
pub fn parse_usize(s: &str) -> (r: Option<usize>)
    ensures
        r == (match parse_int(s@, false) {
            Some(x) => if x <= usize::MAX { Some(x as usize) } else { None },
            None => None,
        }),
{
    let max: u128 = usize::MAX as u128;
    match parse_unsigned(s, max) {
        Some(x) => Some(x as usize),
        None => None,
    }
}

/// `str::parse::<i64>`.
pub fn parse_i64(s: &str) -> (r: Option<i64>)
    ensures
        r == (match parse_int(s@, true) {
            Some(x) => if i64::MIN <= x <= i64::MAX { Some(x as i64) } else { None },
            None => None,
        }),
{
    let v = chars_of(s);
    if v.len() == 0 {
        return None;
    }
    if (v[0] == '+' || v[0] == '-') && v.len() == 1 {
        return None;
    }
    if v[0] == '-' {
        match digits_at_most(&v, 1, 0x8000_0000_0000_0000) {
            Some(x) => {
                if x == 0x8000_0000_0000_0000 {
                    Some(i64::MIN)
                } else {
                    Some(-(x as i64))
                }
            },
            None => None,
        }
    } else {
        let from: usize = if v[0] == '+' { 1 } else { 0 };
        assert(from == 0 ==> v@.skip(0) == v@);
        match digits_at_most(&v, from, 0x7fff_ffff_ffff_ffff) {
            Some(x) => Some(x as i64),
            None => None,
        }
    }
}

// ───────────────────────── searching and splitting ─────────────────────────

/// `s` begins with `p`.
pub open spec fn starts_with(s: Seq<char>, p: Seq<char>) -> bool {
    p.len() <= s.len() && s.take(p.len() as int) == p
}

/// `str::starts_with` on character vectors.
pub fn has_prefix(v: &Vec<char>, p: &Vec<char>) -> (b: bool)
    ensures
        b == starts_with(v@, p@),
{
    if p.len() > v.len() {
        return false;
    }
    let mut i: usize = 0;
    while i < p.len()
        invariant
            i <= p.len() <= v.len(),
            forall|j: int| 0 <= j < i ==> v@[j] == p@[j],
        decreases p.len() - i,
    {
        if v[i] != p[i] {
            assert(v@.take(p.len() as int)[i as int] != p@[i as int]);
            return false;
        }
        i += 1;
    }
    assert(v@.take(p.len() as int) == p@);
    true
}

/// `str::starts_with`.
pub fn str_starts_with(s: &str, p: &str) -> (b: bool)
    ensures
        b == starts_with(s@, p@),
{
    has_prefix(&chars_of(s), &chars_of(p))
}

/// The index of the first `c` in `s`, or `s.len()` where there is none.
pub open spec fn first_index(s: Seq<char>, c: char) -> int
    decreases s.len(),
{
    if s.len() == 0 {
        0
    } else if s[0] == c {
        0
    } else {
        1 + first_index(s.drop_first(), c)
    }
}

/// `first_index` is the first position of `c`, where all before it differ.
pub proof fn lemma_first_index(s: Seq<char>, c: char, k: int)
    requires
        0 <= k <= s.len(),
        forall|j: int| 0 <= j < k ==> #[trigger] s[j] != c,
        k == s.len() || s[k] == c,
    ensures
        first_index(s, c) == k,
    decreases k,
{
    if k > 0 {
        lemma_first_index(s.drop_first(), c, k - 1);
    }
}

/// The index of the first `c` in `v[from..]`, counted from `from`, or
/// `v.len()` where there is none.
pub fn find_char(v: &Vec<char>, c: char, from: usize) -> (k: usize)
    requires
        from <= v.len(),
    ensures
        from <= k <= v.len(),
        k - from == first_index(v@.skip(from as int), c),
{
    let mut k = from;
    while k < v.len() && v[k] != c
        invariant
            from <= k <= v.len(),
            forall|j: int| from <= j < k ==> v@[j] != c,
        decreases v.len() - k,
    {
        k += 1;
    }
    proof {
        let t = v@.skip(from as int);
        assert forall|j: int| 0 <= j < k - from implies #[trigger] t[j] != c by {
            assert(t[j] == v@[j + from]);
        }
        lemma_first_index(t, c, k - from);
    }
    k
}

/// A line without its `\r` terminator, as `str::lines` strips it before `\n`.
pub open spec fn strip_cr(l: Seq<char>) -> Seq<char> {
    if l.len() > 0 && l.last() == '\r' {
        l.drop_last()
    } else {
        l
    }
}

/// `str::lines`: the pieces of `s` between `\n` terminators (a `\r` right
/// before a `\n` dropped), the last piece only where it is not empty.
pub open spec fn lines(s: Seq<char>) -> Seq<Seq<char>>
    decreases s.len(),
{
    if s.len() == 0 {
        seq![]
    } else {
        let k = first_index(s, '\n');
        if k >= s.len() {
            seq![s]
        } else {
            proof {
                lemma_first_index_bound(s, '\n');
            }
            seq![strip_cr(s.take(k))] + lines(s.skip(k + 1))
        }
    }
}

pub proof fn lemma_first_index_bound(s: Seq<char>, c: char)
    ensures
        0 <= first_index(s, c) <= s.len(),
        first_index(s, c) < s.len() ==> s[first_index(s, c)] == c,
        forall|j: int| 0 <= j < first_index(s, c) ==> s[j] != c,
    decreases s.len(),
{
    if s.len() > 0 && s[0] != c {
        lemma_first_index_bound(s.drop_first(), c);
        assert forall|j: int| 0 <= j < first_index(s, c) implies s[j] != c by {
            if j > 0 {
                assert(s[j] == s.drop_first()[j - 1]);
            }
        }
    }
}

/// The string views of a vector of strings.
pub open spec fn views(v: Seq<String>) -> Seq<Seq<char>> {
    v.map_values(|x: String| x@)
}

/// `str::lines`, collected into owned strings.
pub fn split_lines(s: &str) -> (r: Vec<String>)
    ensures
        views(r@) == lines(s@),
{
    let v = chars_of(s);
    let mut r: Vec<String> = Vec::new();
    let mut start: usize = 0;
    assert(v@.skip(0) == v@);
    assert(views(r@) == Seq::<Seq<char>>::empty());
    assert(views(r@) + lines(v@) == lines(v@));
    while start < v.len()
        invariant
            start <= v.len(),
            views(r@) + lines(v@.skip(start as int)) == lines(v@),
        decreases v.len() - start,
    {
        let ghost t = v@.skip(start as int);
        let k = find_char(&v, '\n', start);
        if k == v.len() {
            let mut line = String::new();
            push_range(&mut line, &v, start, k);
            assert(v@.subrange(start as int, k as int) == t);
            assert(lines(t) == seq![t]);
            let ghost before = views(r@);
            r.push(line);
            assert(views(r@) == before.push(t));
            start = k;
            assert(v@.skip(start as int).len() == 0);
            assert(lines(v@.skip(start as int)) == Seq::<Seq<char>>::empty());
            assert(views(r@) + lines(v@.skip(start as int)) == views(r@));
        } else {
            let end = if k > start && v[k - 1] == '\r' { k - 1 } else { k };
            let mut line = String::new();
            push_range(&mut line, &v, start, end);
            assert(t.take(k - start) == v@.subrange(start as int, k as int));
            assert(strip_cr(t.take(k - start)) == v@.subrange(start as int, end as int));
            assert(t.skip(k - start + 1) == v@.skip(k + 1));
            let ghost before = views(r@);
            r.push(line);
            assert(views(r@) == before.push(line@));
            start = k + 1;
        }
    }
    assert(v@.skip(start as int).len() == 0);
    assert(lines(v@.skip(start as int)) == Seq::<Seq<char>>::empty());
    assert(views(r@) + Seq::<Seq<char>>::empty() == views(r@));
    r
}

/// `s.split('"').nth(1)`: the text after the first `"` up to the next `"`
/// (or to the end), `None` where `s` holds no `"`.
pub open spec fn second_quoted_field(s: Seq<char>) -> Option<Seq<char>> {
    let i = first_index(s, '"');
    if i >= s.len() {
        None
    } else {
        let rest = s.skip(i + 1);
        Some(rest.take(first_index(rest, '"')))
    }
}

/// `s.split('"').nth(1)`, as an owned string.
pub fn quoted_field(s: &str) -> (r: Option<String>)
    ensures
        r matches Some(x) ==> second_quoted_field(s@) == Some(x@),
        r is None ==> second_quoted_field(s@) is None,
{
    let v = chars_of(s);
    let i = find_char(&v, '"', 0);
    assert(v@.skip(0) == v@);
    if i == v.len() {
        return None;
    }
    let j = find_char(&v, '"', i + 1);
    let mut r = String::new();
    push_range(&mut r, &v, i + 1, j);
    assert(v@.skip(i + 1).take(j - (i + 1)) == v@.subrange(i + 1, j as int));
    Some(r)
}

/// Whether `p` occurs in `v` at index `at`.
pub(crate) fn occurs_at(v: &Vec<char>, p: &Vec<char>, at: usize) -> (b: bool)
    requires
        at <= v.len(),
    ensures
        b == starts_with(v@.skip(at as int), p@),
{
    if p.len() > v.len() - at {
        return false;
    }
    let mut i: usize = 0;
    while i < p.len()
        invariant
            at <= v.len(),
            i <= p.len() <= v.len() - at,
            forall|j: int| 0 <= j < i ==> v@[at + j] == p@[j],
        decreases p.len() - i,
    {
        if v[at + i] != p[i] {
            assert(v@.skip(at as int).take(p.len() as int)[i as int] != p@[i as int]);
            return false;
        }
        i += 1;
    }
    assert(v@.skip(at as int).take(p.len() as int) == p@);
    true
}

// ───────────────────────── numerals read back ─────────────────────────

/// A decimal numeral is made of digits, and reads back as its number.
proof fn lemma_digit_roundtrip(d: nat)
    requires
        d < 10,
    ensures
        digit_val(digit_char(d)) == d,
        is_digit(digit_char(d)),
{
    let x: u32 = (48 + d) as u32;
    assert(digit_char(d) == x as char);
    assert((x as char) as u32 == x);
}

pub proof fn lemma_numeral_digits(n: nat)
    ensures
        all_digits(numeral(n, 10)),
        digits_value(numeral(n, 10)) == n,
        numeral(n, 10).len() > 0,
        numeral(n, 10)[0] != '+' && numeral(n, 10)[0] != '-',
    decreases n,
{
    let s = numeral(n, 10);
    if n < 10 {
        assert(s == seq![digit_char(n)]);
        assert(s.drop_last() =~= Seq::<char>::empty());
        lemma_digit_roundtrip(n);
        assert(s.last() == digit_char(n));
        assert(digits_value(s) == digits_value(s.drop_last()) * 10 + digit_val(s.last()));
        assert(digits_value(s.drop_last()) == 0);
    } else {
        assert(n / 10 < n) by (nonlinear_arith)
            requires n >= 10;
        lemma_numeral_digits(n / 10);
        let p = numeral(n / 10, 10);
        assert(s == p.push(digit_char(n % 10)));
        assert(s.drop_last() == p);
        lemma_digit_roundtrip(n % 10);
        assert(s.last() == digit_char(n % 10));
        assert(digits_value(s) == digits_value(p) * 10 + digit_val(s.last()));
        assert(n == (n / 10) * 10 + n % 10) by (nonlinear_arith);
        assert forall|i: int| 0 <= i < s.len() implies is_digit(#[trigger] s[i]) by {
            if i < p.len() {
                assert(s[i] == p[i]);
            }
        }
        assert(s[0] == p[0]);
    }
}

/// The decimal numeral of `n` holds no whitespace, no line break, and reads
/// back, through `parse_int`, as `n`.
pub proof fn lemma_numeral_parses(n: nat)
    ensures
        parse_int(numeral(n, 10), false) == Some(n as int),
        parse_int(numeral(n, 10), true) == Some(n as int),
        trim(numeral(n, 10)) == numeral(n, 10),
        lines(numeral(n, 10)) == seq![numeral(n, 10)],
{
    lemma_numeral_digits(n);
    let s = numeral(n, 10);
    assert(!is_ws(s[0]));
    assert(trim_start(s) == s);
    assert(!is_ws(s.last())) by {
        assert(is_digit(s[s.len() - 1]));
    }
    assert(trim_end(s) == s);
    assert forall|j: int| 0 <= j < s.len() implies #[trigger] s[j] != '\n' by {
        assert(is_digit(s[j]));
    }
    lemma_first_index(s, '\n', s.len() as int);
}

} // verus!
